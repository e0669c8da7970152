use dustloopbot::codec::{classify, format_msg, pong_reply, Frame};
use dustloopbot::command::{extract, parse_message_to_command};
use dustloopbot::dispatch::{
    apply_lookup, error_text, format_move, is_frames_command, lookup_reply, parse_frames_command,
    plan_line, validate_args, DispatchError, LineAction, LookupMiss, MoveRecord,
};
use dustloopbot::session::{
    join_line, nick_line, pass_line, step, SessionEvent, SessionState,
};
use dustloopbot::text::{eq_ignore_case, strip_cr};

#[test]
fn classify_privmsg_round_trip() {
    let r = classify("PRIVMSG #bar :hello there");
    assert_eq!(
        r,
        Frame::ChannelMessage { channel: "bar".to_string(), text: "hello there".to_string() }
    );
}

#[test]
fn classify_privmsg_strips_trailing_cr() {
    let r = classify("PRIVMSG #bar :hello\r");
    assert_eq!(
        r,
        Frame::ChannelMessage { channel: "bar".to_string(), text: "hello".to_string() }
    );
}

#[test]
fn classify_privmsg_with_prefix_noise() {
    let r = classify(":nick!user@host PRIVMSG #chan :!fd Sol 5K");
    assert_eq!(
        r,
        Frame::ChannelMessage { channel: "chan".to_string(), text: "!fd Sol 5K".to_string() }
    );
}

#[test]
fn classify_privmsg_greedy_separator() {
    let r = classify("PRIVMSG #ch :a :b");
    assert_eq!(
        r,
        Frame::ChannelMessage { channel: "ch :a".to_string(), text: "b".to_string() }
    );
}

#[test]
fn classify_ping_payload_verbatim() {
    let r = classify("PING :foo");
    assert_eq!(r, Frame::Keepalive { payload: ":foo".to_string() });
}

#[test]
fn classify_bare_ping_has_empty_payload() {
    let r = classify("PING");
    assert_eq!(r, Frame::Keepalive { payload: "".to_string() });
}

#[test]
fn classify_other_lines_ignored() {
    assert_eq!(classify(":tmi.twitch.tv 001 bot :Welcome"), Frame::Ignored);
    assert_eq!(classify(""), Frame::Ignored);
    assert_eq!(classify("PRIVMSG #nocolontext"), Frame::Ignored);
}

#[test]
fn pong_reply_echoes_payload() {
    assert_eq!(pong_reply(":foo"), "PONG :foo");
    assert_eq!(pong_reply(""), "PONG ");
}

#[test]
fn format_msg_builds_privmsg_line() {
    assert_eq!(format_msg("hi", "bar"), "PRIVMSG #bar :hi");
}

#[test]
fn extract_rejects_unmarked_text() {
    assert!(extract("bar", "hello").is_none());
    assert!(extract("bar", "").is_none());
    assert!(extract("bar", "fd Sol 5K").is_none());
}

#[test]
fn extract_splits_name_and_args() {
    let cmd = extract("bar", "!fd GiovannaDL 5K").unwrap();
    assert_eq!(cmd.channel, "bar");
    assert_eq!(cmd.name, "!fd");
    assert_eq!(cmd.args, vec!["GiovannaDL".to_string(), "5K".to_string()]);
}

#[test]
fn extract_without_remainder_yields_empty_args() {
    let cmd = extract("bar", "!fd").unwrap();
    assert_eq!(cmd.name, "!fd");
    assert!(cmd.args.is_empty());
}

#[test]
fn extract_strips_trailing_cr_from_tokens() {
    let cmd = extract("bar", "!fd Sol 5K\r").unwrap();
    assert_eq!(cmd.name, "!fd");
    assert_eq!(cmd.args, vec!["Sol".to_string(), "5K".to_string()]);
    let bare = extract("bar", "!fd\r").unwrap();
    assert_eq!(bare.name, "!fd");
    assert!(bare.args.is_empty());
}

#[test]
fn extract_keeps_empty_tokens_between_spaces() {
    let cmd = extract("bar", "!fd a  b").unwrap();
    assert_eq!(
        cmd.args,
        vec!["a".to_string(), "".to_string(), "b".to_string()]
    );
}

#[test]
fn parse_message_to_command_full_line() {
    let cmd = parse_message_to_command("PRIVMSG #bar :!fd Sol 5K\r").unwrap();
    assert_eq!(cmd.channel, "bar");
    assert_eq!(cmd.name, "!fd");
    assert_eq!(cmd.args, vec!["Sol".to_string(), "5K".to_string()]);
    assert!(parse_message_to_command("PING :foo").is_none());
    assert!(parse_message_to_command("PRIVMSG #bar :no command").is_none());
}

#[test]
fn dispatch_no_args_is_wrong_arguments() {
    let r = parse_frames_command(vec![], Err(LookupMiss::UnknownCharacter));
    assert_eq!(r, Err(DispatchError::WrongArguments));
}

#[test]
fn dispatch_missing_move_token_is_wrong_arguments() {
    let r = parse_frames_command(vec!["Sol".to_string()], Err(LookupMiss::UnknownMove));
    assert_eq!(r, Err(DispatchError::WrongArguments));
}

#[test]
fn dispatch_empty_second_token_is_wrong_arguments() {
    let r = validate_args(&vec!["Sol".to_string(), "".to_string()]);
    assert_eq!(r, Err(DispatchError::WrongArguments));
}

#[test]
fn dispatch_unknown_character_preserves_casing() {
    let r = parse_frames_command(
        vec!["Zzz".to_string(), "5K".to_string()],
        Err(LookupMiss::UnknownCharacter),
    );
    assert_eq!(r, Err(DispatchError::UnknownCharacter("Zzz".to_string())));
}

#[test]
fn dispatch_unknown_move_echoes_rejoined_query() {
    let r = parse_frames_command(
        vec!["Sol".to_string(), "j.2K".to_string(), "x".to_string()],
        Err(LookupMiss::UnknownMove),
    );
    assert_eq!(r, Err(DispatchError::UnknownMove("j.2K x".to_string())));
}

#[test]
fn dispatch_match_returns_record() {
    let record = MoveRecord {
        input: "5K".to_string(),
        damage: "8".to_string(),
        guard: "mid".to_string(),
        startup: "7".to_string(),
        active: "3".to_string(),
        recovery: "14".to_string(),
        onblock: "-2".to_string(),
        onhit: "+3".to_string(),
        level: "1".to_string(),
    };
    let r = parse_frames_command(
        vec!["Sol".to_string(), "5K".to_string()],
        Ok(record.clone()),
    );
    assert_eq!(r, Ok(record));
}

#[test]
fn apply_lookup_maps_each_miss() {
    let r = apply_lookup(
        "Sol".to_string(),
        "5K".to_string(),
        Err(LookupMiss::UnknownCharacter),
    );
    assert_eq!(r, Err(DispatchError::UnknownCharacter("Sol".to_string())));
    let r = apply_lookup(
        "Sol".to_string(),
        "5K".to_string(),
        Err(LookupMiss::UnknownMove),
    );
    assert_eq!(r, Err(DispatchError::UnknownMove("5K".to_string())));
}

#[test]
fn format_move_renders_fixed_field_order() {
    let record = MoveRecord {
        input: "2D".to_string(),
        damage: "30".to_string(),
        guard: "low".to_string(),
        startup: "10".to_string(),
        active: "6".to_string(),
        recovery: "24".to_string(),
        onblock: "-15".to_string(),
        onhit: "HKD".to_string(),
        level: "3".to_string(),
    };
    assert_eq!(
        format_move(&record),
        "2D: dmg=(30) guard=(low) startup=(10) active=(6) recov=(24) block=(-15) hit=(HKD) atklvl=(3)"
    );
}

#[test]
fn error_text_fixed_sentences() {
    assert_eq!(
        error_text(&DispatchError::UnknownCharacter("Zzz".to_string())),
        "Currently unknown character: 'Zzz'"
    );
    assert_eq!(
        error_text(&DispatchError::UnknownMove("9Z".to_string())),
        "Currently unknown move: '9Z'"
    );
    assert_eq!(
        error_text(&DispatchError::WrongArguments),
        "Invalid args, try: !frames <char> <move_query>"
    );
}

#[test]
fn verb_recognition_is_case_insensitive() {
    assert!(is_frames_command("!fd"));
    assert!(is_frames_command("!FD"));
    assert!(is_frames_command("!Fd"));
    assert!(!is_frames_command("!frames"));
    assert!(!is_frames_command("fd"));
}

#[test]
fn plan_line_ping_short_circuits() {
    let r = plan_line("PING :tmi.twitch.tv");
    assert_eq!(r, LineAction::SendPong { line: "PONG :tmi.twitch.tv".to_string() });
}

#[test]
fn plan_line_command_becomes_lookup() {
    let r = plan_line("PRIVMSG #bar :!fd Sol 5K");
    assert_eq!(
        r,
        LineAction::Lookup {
            channel: "bar".to_string(),
            character_query: "Sol".to_string(),
            move_query: "5K".to_string(),
        }
    );
}

#[test]
fn plan_line_bad_arguments_replies_usage_hint() {
    let r = plan_line("PRIVMSG #bar :!fd");
    assert_eq!(
        r,
        LineAction::Reply {
            line: "PRIVMSG #bar :Invalid args, try: !frames <char> <move_query>".to_string()
        }
    );
    let r = plan_line("PRIVMSG #bar :!fd Sol");
    assert_eq!(
        r,
        LineAction::Reply {
            line: "PRIVMSG #bar :Invalid args, try: !frames <char> <move_query>".to_string()
        }
    );
}

#[test]
fn plan_line_unrecognized_verb_is_silent() {
    assert_eq!(plan_line("PRIVMSG #bar :!frames Sol 5K"), LineAction::Nothing);
    assert_eq!(plan_line("PRIVMSG #bar :plain chatter"), LineAction::Nothing);
    assert_eq!(plan_line(":tmi.twitch.tv 001 bot :Welcome"), LineAction::Nothing);
}

#[test]
fn end_to_end_match_formats_reply() {
    let r = plan_line("PRIVMSG #bar :!fd Sol 5K");
    match r {
        LineAction::Lookup { channel, character_query, move_query } => {
            let record = MoveRecord {
                input: "5K".to_string(),
                damage: "8".to_string(),
                guard: "mid".to_string(),
                startup: "7".to_string(),
                active: "3".to_string(),
                recovery: "14".to_string(),
                onblock: "-2".to_string(),
                onhit: "+3".to_string(),
                level: "1".to_string(),
            };
            let reply = lookup_reply(&channel, character_query, move_query, Ok(record));
            assert_eq!(
                reply,
                "PRIVMSG #bar :5K: dmg=(8) guard=(mid) startup=(7) active=(3) recov=(14) block=(-2) hit=(+3) atklvl=(1)"
            );
        }
        other => panic!("expected a lookup, got {:?}", other),
    }
}

#[test]
fn lookup_reply_miss_echoes_query() {
    let reply = lookup_reply(
        "bar",
        "Zzz".to_string(),
        "5K".to_string(),
        Err(LookupMiss::UnknownCharacter),
    );
    assert_eq!(reply, "PRIVMSG #bar :Currently unknown character: 'Zzz'");
    let reply = lookup_reply(
        "bar",
        "Sol".to_string(),
        "9Z".to_string(),
        Err(LookupMiss::UnknownMove),
    );
    assert_eq!(reply, "PRIVMSG #bar :Currently unknown move: '9Z'");
}

#[test]
fn transport_failure_resets_from_every_state() {
    let states = [
        SessionState::Disconnected,
        SessionState::Connecting,
        SessionState::Authenticating,
        SessionState::Joined,
        SessionState::Listening,
    ];
    for s in states {
        let down = step(s, SessionEvent::TransportFailure);
        assert_eq!(down, SessionState::Disconnected);
        assert_eq!(step(down, SessionEvent::Retry), SessionState::Connecting);
    }
}

#[test]
fn session_advances_through_handshake() {
    let mut s = SessionState::Disconnected;
    s = step(s, SessionEvent::Retry);
    assert_eq!(s, SessionState::Connecting);
    s = step(s, SessionEvent::HandshakeOk);
    assert_eq!(s, SessionState::Authenticating);
    s = step(s, SessionEvent::SetupSent);
    assert_eq!(s, SessionState::Joined);
    s = step(s, SessionEvent::Begin);
    assert_eq!(s, SessionState::Listening);
    s = step(s, SessionEvent::LineHandled);
    assert_eq!(s, SessionState::Listening);
    s = step(s, SessionEvent::TransportFailure);
    assert_eq!(s, SessionState::Disconnected);
}

#[test]
fn setup_lines_render_in_protocol_shape() {
    assert_eq!(pass_line("token"), "PASS token");
    assert_eq!(nick_line("dustloopbot"), "NICK dustloopbot");
    let channels = vec!["sagan37".to_string(), "#already".to_string()];
    assert_eq!(join_line(&channels), "JOIN #sagan37,#already");
    assert_eq!(join_line(&vec![]), "JOIN ");
}

#[test]
fn text_helpers_behave() {
    assert_eq!(strip_cr("abc\r\r"), "abc");
    assert_eq!(strip_cr("abc"), "abc");
    assert_eq!(strip_cr(""), "");
    assert!(eq_ignore_case("AbC", "aBc"));
    assert!(!eq_ignore_case("abc", "abd"));
    assert!(!eq_ignore_case("abc", "ab"));
}

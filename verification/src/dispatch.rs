//! Command dispatcher: recognizes the frame-data verb, validates arguments,
//! maps the lookup collaborator's outcome onto the error taxonomy, and
//! renders the reply text.
//!
//! The lookup collaborator itself lives outside this crate; its answer for a
//! (character query, move query) pair is handed in as a value, so the whole
//! decision path is verified for every possible answer.

use vstd::prelude::*;

use crate::codec::{
    is_keepalive_line, keepalive_payload, pong_line, privmsg_line, privmsg_parse,
};
use crate::command::{command_args, command_name, is_command_text};
use crate::text::{join_spaces, seq_eq_ignore_ascii_case, eq_ignore_case, join_from};

verus! {

/// One matched move record, exactly as the lookup collaborator reported it;
/// this crate only formats the fields, it never computes them.
#[derive(Debug, Clone, PartialEq, Eq)]
pub struct MoveRecord {
    pub input: String,
    pub damage: String,
    pub guard: String,
    pub startup: String,
    pub active: String,
    pub recovery: String,
    pub onblock: String,
    pub onhit: String,
    pub level: String,
}

/// Why a recognized command produced no move record. The carried text is the
/// original user-supplied query, verbatim.
#[derive(Debug, Clone, PartialEq, Eq)]
pub enum DispatchError {
    UnknownCharacter(String),
    UnknownMove(String),
    WrongArguments,
}

/// The lookup collaborator's two classified misses.
#[derive(Debug, Clone, PartialEq, Eq)]
pub enum LookupMiss {
    UnknownCharacter,
    UnknownMove,
}

/// The argument list carries a character query and a non-empty move query.
pub open spec fn args_valid(args: Seq<Seq<char>>) -> bool {
    args.len() >= 1 && join_spaces(args.skip(1)).len() > 0
}

/// The name is the recognized frame-data verb, compared without regard to
/// ASCII case.
pub open spec fn is_frames_verb(name: Seq<char>) -> bool {
    seq_eq_ignore_ascii_case(name, "!fd"@)
}

/// Whether `name` is the recognized frame-data verb.
pub fn is_frames_command(name: &str) -> (r: bool)
    ensures
        r == is_frames_verb(name@),
{
    eq_ignore_case(name, "!fd")
}

/// Validate the argument list: the first token is the character query and
/// the rest, rejoined with single spaces, is the move query; a missing first
/// token or an empty rejoined move query is a usage error.
pub fn validate_args(args: &Vec<String>) -> (r: Result<(String, String), DispatchError>)
    ensures
        match r {
            Ok(p) => args_valid(args.deep_view()) && p.0@ == args.deep_view()[0] && p.1@
                == join_spaces(args.deep_view().skip(1)),
            Err(e) => !args_valid(args.deep_view()) && e is WrongArguments,
        },
{
    if args.len() == 0 {
        return Err(DispatchError::WrongArguments);
    }
    let character_query = args[0].clone();
    let move_query = join_from(args, 1);
    if move_query.unicode_len() == 0 {
        return Err(DispatchError::WrongArguments);
    }
    Ok((character_query, move_query))
}

/// Map the lookup collaborator's outcome onto the dispatch taxonomy: a miss
/// keeps the original query text of the side that missed.
pub fn apply_lookup(
    character_query: String,
    move_query: String,
    found: Result<MoveRecord, LookupMiss>,
) -> (r: Result<MoveRecord, DispatchError>)
    ensures
        match found {
            Ok(m) => r matches Ok(found_m) && found_m == m,
            Err(LookupMiss::UnknownCharacter) => r matches Err(
                DispatchError::UnknownCharacter(q),
            ) && q == character_query,
            Err(LookupMiss::UnknownMove) => r matches Err(DispatchError::UnknownMove(q)) && q
                == move_query,
        },
{
    match found {
        Ok(m) => Ok(m),
        Err(LookupMiss::UnknownCharacter) => Err(
            DispatchError::UnknownCharacter(character_query),
        ),
        Err(LookupMiss::UnknownMove) => Err(DispatchError::UnknownMove(move_query)),
    }
}

/// Run a frame-data command against the collaborator's answer `found` for
/// its queries: argument validation comes first, and a miss echoes the
/// query text of the side that missed.
pub fn parse_frames_command(
    args: Vec<String>,
    found: Result<MoveRecord, LookupMiss>,
) -> (r: Result<MoveRecord, DispatchError>)
    ensures
        !args_valid(args.deep_view()) ==> (r matches Err(DispatchError::WrongArguments)),
        args_valid(args.deep_view()) ==> match found {
            Ok(m) => r matches Ok(found_m) && found_m == m,
            Err(LookupMiss::UnknownCharacter) => r matches Err(
                DispatchError::UnknownCharacter(q),
            ) && q@ == args.deep_view()[0],
            Err(LookupMiss::UnknownMove) => r matches Err(DispatchError::UnknownMove(q)) && q@
                == join_spaces(args.deep_view().skip(1)),
        },
{
    match validate_args(&args) {
        Err(e) => Err(e),
        Ok((character_query, move_query)) => apply_lookup(character_query, move_query, found),
    }
}

/// The single-line rendering of a matched record, fields in fixed order,
/// values exactly as received.
pub open spec fn move_line(m: MoveRecord) -> Seq<char> {
    m.input@ + ": dmg=("@ + m.damage@ + ") guard=("@ + m.guard@ + ") startup=("@ + m.startup@
        + ") active=("@ + m.active@ + ") recov=("@ + m.recovery@ + ") block=("@ + m.onblock@
        + ") hit=("@ + m.onhit@ + ") atklvl=("@ + m.level@ + ")"@
}

/// Render a matched record as its reply line.
pub fn format_move(m: &MoveRecord) -> (r: String)
    ensures
        r@ == move_line(*m),
{
    let mut r = m.input.clone();
    r.append(": dmg=(");
    r.append(m.damage.as_str());
    r.append(") guard=(");
    r.append(m.guard.as_str());
    r.append(") startup=(");
    r.append(m.startup.as_str());
    r.append(") active=(");
    r.append(m.active.as_str());
    r.append(") recov=(");
    r.append(m.recovery.as_str());
    r.append(") block=(");
    r.append(m.onblock.as_str());
    r.append(") hit=(");
    r.append(m.onhit.as_str());
    r.append(") atklvl=(");
    r.append(m.level.as_str());
    r.append(")");
    proof {
        assert(r@ =~= move_line(*m));
    }
    r
}

/// The fixed user-facing sentence for each dispatch error, with the
/// offending query text interpolated verbatim.
pub open spec fn error_line(e: DispatchError) -> Seq<char> {
    match e {
        DispatchError::UnknownCharacter(q) => "Currently unknown character: '"@ + q@ + "'"@,
        DispatchError::UnknownMove(q) => "Currently unknown move: '"@ + q@ + "'"@,
        DispatchError::WrongArguments => "Invalid args, try: !frames <char> <move_query>"@,
    }
}

/// Render a dispatch error as its user-facing sentence.
pub fn error_text(e: &DispatchError) -> (r: String)
    ensures
        r@ == error_line(*e),
{
    match e {
        DispatchError::UnknownCharacter(q) => {
            let mut r = "Currently unknown character: '".to_owned();
            r.append(q.as_str());
            r.append("'");
            proof {
                assert(r@ =~= error_line(*e));
            }
            r
        },
        DispatchError::UnknownMove(q) => {
            let mut r = "Currently unknown move: '".to_owned();
            r.append(q.as_str());
            r.append("'");
            proof {
                assert(r@ =~= error_line(*e));
            }
            r
        },
        DispatchError::WrongArguments => "Invalid args, try: !frames <char> <move_query>".to_owned(),
    }
}

} // verus!

verus! {

/// What the connection manager must do with one inbound line.
#[derive(Debug, Clone, PartialEq, Eq)]
pub enum LineAction {
    /// Echo the keepalive payload back at once, short-circuiting dispatch.
    SendPong { line: String },
    /// Ask the lookup collaborator and answer in `channel` with the outcome.
    Lookup { channel: String, character_query: String, move_query: String },
    /// Send this reply line as it stands.
    Reply { line: String },
    /// Protocol noise, an unrecognized verb, or no command at all: stay
    /// silent.
    Nothing,
}

/// Decide what one raw inbound line requires, short of the lookup itself: a
/// keepalive is answered at once; a channel message carrying the recognized
/// verb with valid arguments becomes a lookup request; one with bad
/// arguments is answered with the usage hint; everything else is ignored.
pub fn plan_line(raw: &str) -> (r: LineAction)
    ensures
        is_keepalive_line(raw@) ==> (r matches LineAction::SendPong { line } && line@
            == pong_line(keepalive_payload(raw@))),
        !is_keepalive_line(raw@) ==> match privmsg_parse(raw@) {
            Some(pair) => {
                let text = pair.1;
                if !is_command_text(text) || !is_frames_verb(command_name(text)) {
                    r is Nothing
                } else if !args_valid(command_args(text)) {
                    r matches LineAction::Reply { line } && line@ == privmsg_line(
                        pair.0,
                        error_line(DispatchError::WrongArguments),
                    )
                } else {
                    r matches LineAction::Lookup { channel, character_query, move_query }
                        && channel@ == pair.0 && character_query@ == command_args(text)[0]
                        && move_query@ == join_spaces(command_args(text).skip(1))
                }
            },
            None => r is Nothing,
        },
{
    match crate::codec::classify(raw) {
        crate::codec::Frame::Keepalive { payload } => LineAction::SendPong {
            line: crate::codec::pong_reply(payload.as_str()),
        },
        crate::codec::Frame::ChannelMessage { channel, text } => {
            match crate::command::extract(channel.as_str(), text.as_str()) {
                None => LineAction::Nothing,
                Some(cmd) => {
                    if !is_frames_command(cmd.name.as_str()) {
                        LineAction::Nothing
                    } else {
                        match validate_args(&cmd.args) {
                            Err(e) => LineAction::Reply {
                                line: crate::codec::format_msg(
                                    error_text(&e).as_str(),
                                    cmd.channel.as_str(),
                                ),
                            },
                            Ok((character_query, move_query)) => LineAction::Lookup {
                                channel: cmd.channel,
                                character_query,
                                move_query,
                            },
                        }
                    }
                },
            }
        },
        crate::codec::Frame::Ignored => LineAction::Nothing,
    }
}

/// Turn the collaborator's answer for a planned lookup into the reply line
/// owed in `channel`: the rendered record on a match, the fixed sentence
/// with the offending query echoed verbatim on a miss.
pub fn lookup_reply(
    channel: &str,
    character_query: String,
    move_query: String,
    found: Result<MoveRecord, LookupMiss>,
) -> (r: String)
    ensures
        r@ == privmsg_line(
            channel@,
            match found {
                Ok(m) => move_line(m),
                Err(LookupMiss::UnknownCharacter) => error_line(
                    DispatchError::UnknownCharacter(character_query),
                ),
                Err(LookupMiss::UnknownMove) => error_line(
                    DispatchError::UnknownMove(move_query),
                ),
            },
        ),
{
    let text = match apply_lookup(character_query, move_query, found) {
        Ok(m) => format_move(&m),
        Err(e) => error_text(&e),
    };
    crate::codec::format_msg(text.as_str(), channel)
}

} // verus!

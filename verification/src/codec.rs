//! Line codec: classifies one raw inbound protocol line as a keepalive
//! probe, a channel message, or noise to ignore, and renders the outbound
//! reply lines.
//!
//! The channel-message grammar is "directed-message marker, channel name,
//! separator-colon, text", matched anywhere in the line; the channel capture
//! is greedy, so the separator taken is the last `" :"` in the line.

use vstd::prelude::*;

use crate::text::{
    contains_at, first_at_or_after, first_char_at_or_after, has_prefix, last_at_or_before,
    strip_trailing_crs, find_char_from, find_first, find_last, match_at, strip_cr,
    lemma_first_char_at_or_after, lemma_first_at_or_after, lemma_last_at_or_before,
    lemma_first_found, lemma_last_found,
};

verus! {

/// What one inbound line is to this bot.
#[derive(Debug, Clone, PartialEq, Eq)]
pub enum Frame {
    /// A keepalive probe; `payload` is everything after the marker token and
    /// its separator, kept verbatim for the echoed reply.
    Keepalive { payload: String },
    /// A directed channel message.
    ChannelMessage { channel: String, text: String },
    /// Any other protocol line; expected noise, never an error.
    Ignored,
}

/// The line begins with the keepalive marker token.
pub open spec fn is_keepalive_line(s: Seq<char>) -> bool {
    has_prefix(s, "PING"@)
}

/// Everything after the first separator space, verbatim; empty when the
/// line has no separator.
pub open spec fn keepalive_payload(s: Seq<char>) -> Seq<char> {
    match first_char_at_or_after(s, ' ', 0) {
        Some(i) => if 0 <= i < s.len() {
            s.subrange(i + 1, s.len() as int)
        } else {
            Seq::empty()
        },
        None => Seq::empty(),
    }
}

/// The channel and text captured from a directed-message line: the marker is
/// taken at its first occurrence, the separator at its last, and a trailing
/// carriage-return is stripped from both captures.
pub open spec fn privmsg_parse(s: Seq<char>) -> Option<(Seq<char>, Seq<char>)> {
    if s.len() < 2 {
        None
    } else {
        match first_at_or_after(s, "PRIVMSG #"@, 0) {
            None => None,
            Some(i) => match last_at_or_before(s, " :"@, s.len() - 2) {
                Some(j) => if i + "PRIVMSG #"@.len() <= j {
                    Some(
                        (
                            strip_trailing_crs(s.subrange(i + "PRIVMSG #"@.len() as int, j)),
                            strip_trailing_crs(s.subrange(j + 2, s.len() as int)),
                        ),
                    )
                } else {
                    None
                },
                None => None,
            },
        }
    }
}

/// The reply owed to a keepalive probe.
pub open spec fn pong_line(payload: Seq<char>) -> Seq<char> {
    "PONG "@ + payload
}

/// An outbound directed-message line.
pub open spec fn privmsg_line(channel: Seq<char>, text: Seq<char>) -> Seq<char> {
    "PRIVMSG #"@ + channel + " :"@ + text
}

/// Classify one raw inbound line. A keepalive marker wins over everything
/// else; a line matching the directed-message grammar yields its captures;
/// every other line is ignored.
pub fn classify(line: &str) -> (r: Frame)
    ensures
        is_keepalive_line(line@) ==> (r matches Frame::Keepalive { payload } && payload@
            == keepalive_payload(line@)),
        !is_keepalive_line(line@) ==> match privmsg_parse(line@) {
            Some(pair) => r matches Frame::ChannelMessage { channel, text } && channel@ == pair.0
                && text@ == pair.1,
            None => r is Ignored,
        },
{
    let n = line.unicode_len();
    if match_at(line, "PING", 0) {
        let payload = match find_char_from(line, ' ', 0) {
            Some(i) => {
                proof {
                    lemma_first_char_at_or_after(line@, ' ', 0);
                }
                line.substring_char(i + 1, n).to_owned()
            },
            None => String::new(),
        };
        Frame::Keepalive { payload }
    } else {
        proof {
            reveal_strlit("PRIVMSG #");
            reveal_strlit(" :");
        }
        match find_first(line, "PRIVMSG #") {
            None => Frame::Ignored,
            Some(i) => {
                proof {
                    lemma_first_at_or_after(line@, "PRIVMSG #"@, 0);
                }
                match find_last(line, " :") {
                    None => Frame::Ignored,
                    Some(j) => {
                        proof {
                            lemma_last_at_or_before(line@, " :"@, line@.len() - 2);
                        }
                        if i + 9 <= j {
                            let channel = strip_cr(line.substring_char(i + 9, j));
                            let text = strip_cr(line.substring_char(j + 2, n));
                            Frame::ChannelMessage { channel, text }
                        } else {
                            Frame::Ignored
                        }
                    },
                }
            },
        }
    }
}

/// Render the keepalive reply; the payload is echoed byte for byte.
pub fn pong_reply(payload: &str) -> (r: String)
    ensures
        r@ == pong_line(payload@),
{
    let mut r = "PONG ".to_owned();
    r.append(payload);
    r
}

/// Render an outbound directed-message line for `channel`.
pub fn format_msg(text: &str, channel: &str) -> (r: String)
    ensures
        r@ == privmsg_line(channel@, text@),
{
    let mut r = "PRIVMSG #".to_owned();
    r.append(channel);
    r.append(" :");
    r.append(text);
    proof {
        assert(r@ =~= privmsg_line(channel@, text@));
    }
    r
}

} // verus!

verus! {

/// The text holds a separator occurrence somewhere.
pub open spec fn has_separator(t: Seq<char>) -> bool {
    exists|k: int| contains_at(t, " :"@, k)
}

/// Round trip for keepalive lines: a marker-and-separator line built from
/// any payload classifies as a keepalive carrying that payload verbatim,
/// and the reply echoes it byte for byte.
pub proof fn lemma_keepalive_round_trip(payload: Seq<char>)
    ensures
        is_keepalive_line("PING "@ + payload),
        keepalive_payload("PING "@ + payload) == payload,
        pong_line(keepalive_payload("PING "@ + payload)) == "PONG "@ + payload,
{
    reveal_strlit("PING ");
    reveal_strlit("PING");
    let s = "PING "@ + payload;
    assert(contains_at(s, "PING"@, 0)) by {
        assert(s.subrange(0, 4) =~= "PING"@);
    }
    assert(first_char_at_or_after(s, ' ', 4) == Some(4int));
    assert(first_char_at_or_after(s, ' ', 3) == Some(4int));
    assert(first_char_at_or_after(s, ' ', 2) == Some(4int));
    assert(first_char_at_or_after(s, ' ', 1) == Some(4int));
    assert(first_char_at_or_after(s, ' ', 0) == Some(4int));
    assert(s.subrange(5, s.len() as int) =~= payload);
}

/// Round trip for directed-message lines: a line built from any channel and
/// any separator-free text parses back to exactly that channel and text,
/// trailing carriage-returns aside, and is no keepalive.
pub proof fn lemma_privmsg_round_trip(channel: Seq<char>, text: Seq<char>)
    requires
        !has_separator(text),
    ensures
        !is_keepalive_line(privmsg_line(channel, text)),
        privmsg_parse(privmsg_line(channel, text)) == Some(
            (strip_trailing_crs(channel), strip_trailing_crs(text)),
        ),
{
    reveal_strlit("PRIVMSG #");
    reveal_strlit(" :");
    reveal_strlit("PING");
    let s = privmsg_line(channel, text);
    let lc = channel.len() as int;
    let lt = text.len() as int;
    assert(s.len() == 11 + lc + lt);
    assert(!contains_at(s, "PING"@, 0)) by {
        if contains_at(s, "PING"@, 0) {
            assert(s.subrange(0, 4)[1] == s[1]);
        }
    }
    assert(contains_at(s, "PRIVMSG #"@, 0)) by {
        assert(s.subrange(0, 9) =~= "PRIVMSG #"@);
    }
    lemma_first_found(s, "PRIVMSG #"@, 0, 0);
    let j = 9 + lc;
    assert(contains_at(s, " :"@, j)) by {
        assert(s.subrange(j, j + 2) =~= " :"@);
    }
    assert forall|k: int| j < k <= s.len() - 2 implies !contains_at(s, " :"@, k) by {
        if contains_at(s, " :"@, k) {
            assert(s.subrange(k, k + 2)[0] == s[k]);
            assert(s.subrange(k, k + 2)[1] == s[k + 1]);
            assert(s[k] == ' ' && s[k + 1] == ':');
            if k == j + 1 {
                assert(false);
            } else {
                let k2 = k - j - 2;
                assert(text[k2] == s[k]);
                assert(text[k2 + 1] == s[k + 1]);
                assert(contains_at(text, " :"@, k2)) by {
                    assert(text.subrange(k2, k2 + 2) =~= " :"@);
                }
                assert(false);
            }
        }
    }
    lemma_last_found(s, " :"@, s.len() - 2, j);
    assert(s.subrange(9, j) =~= channel);
    assert(s.subrange(j + 2, s.len() as int) =~= text);
}

} // verus!

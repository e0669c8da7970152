//! Command extractor: decides whether a channel-message text is a bot
//! command and splits it into the command name and its ordered arguments.

use vstd::prelude::*;

use crate::text::{
    first_char_at_or_after, split_spaces, strip_trailing_crs, find_char_from, split_spaces_exec,
    strip_cr, lemma_first_char_at_or_after,
};

verus! {

/// One parsed bot command, created per matching inbound line and discarded
/// after dispatch.
#[derive(Debug, Clone, PartialEq, Eq)]
pub struct Command {
    /// Channel the command arrived on, and where the reply is owed.
    pub channel: String,
    /// The command name: the first whitespace-delimited token, marker
    /// included, with trailing carriage-returns stripped.
    pub name: String,
    /// The remaining tokens, split on single spaces, each with trailing
    /// carriage-returns stripped; empty when no token follows the name.
    pub args: Vec<String>,
}

/// The text is a bot command: it starts with the command marker.
pub open spec fn is_command_text(text: Seq<char>) -> bool {
    text.len() >= 1 && text[0] == '!'
}

/// The extracted command name: everything before the first space, with
/// trailing carriage-returns stripped.
pub open spec fn command_name(text: Seq<char>) -> Seq<char> {
    match first_char_at_or_after(text, ' ', 0) {
        Some(i) => if 0 <= i < text.len() {
            strip_trailing_crs(text.subrange(0, i))
        } else {
            strip_trailing_crs(text)
        },
        None => strip_trailing_crs(text),
    }
}

/// Every token with its trailing carriage-returns stripped.
pub open spec fn stripped_tokens(parts: Seq<Seq<char>>) -> Seq<Seq<char>> {
    parts.map_values(|t: Seq<char>| strip_trailing_crs(t))
}

/// The extracted arguments: the remainder after the first space, split on
/// single spaces, each token with trailing carriage-returns stripped; no
/// remainder yields no arguments.
pub open spec fn command_args(text: Seq<char>) -> Seq<Seq<char>> {
    match first_char_at_or_after(text, ' ', 0) {
        Some(i) => if 0 <= i < text.len() {
            stripped_tokens(split_spaces(text.subrange(i + 1, text.len() as int)))
        } else {
            Seq::empty()
        },
        None => Seq::empty(),
    }
}

/// Extract a bot command from a channel message. Yields nothing unless the
/// text starts with the command marker; otherwise the name is the first
/// whitespace-delimited token and the arguments are the remainder split on
/// single spaces.
pub fn extract(channel: &str, text: &str) -> (r: Option<Command>)
    ensures
        match r {
            Some(cmd) => is_command_text(text@) && cmd.channel@ == channel@ && cmd.name@
                == command_name(text@) && cmd.args.deep_view() == command_args(text@),
            None => !is_command_text(text@),
        },
{
    let n = text.unicode_len();
    if n == 0 || text.get_char(0) != '!' {
        return None;
    }
    proof {
        lemma_first_char_at_or_after(text@, ' ', 0);
    }
    let (name, args) = match find_char_from(text, ' ', 0) {
        Some(i) => {
            let name = strip_cr(text.substring_char(0, i));
            let rest = text.substring_char(i + 1, n);
            let pieces = split_spaces_exec(rest);
            let mut args: Vec<String> = Vec::new();
            let mut k: usize = 0;
            while k < pieces.len()
                invariant
                    k <= pieces@.len(),
                    args.deep_view() =~= stripped_tokens(pieces.deep_view()).subrange(
                        0,
                        k as int,
                    ),
                decreases pieces@.len() - k,
            {
                proof {
                    assert(args.deep_view().len() == k);
                }
                args.push(strip_cr(pieces[k].as_str()));
                proof {
                    assert(args@.len() == k + 1);
                    let mapped = stripped_tokens(pieces.deep_view());
                    assert(mapped[k as int] == strip_trailing_crs(pieces.deep_view()[k as int]));
                    assert(args.deep_view().len() == k + 1);
                    assert forall|i: int| 0 <= i < k + 1 implies args.deep_view()[i]
                        == mapped.subrange(0, k as int + 1)[i] by {
                        assert(args.deep_view()[i] == args@[i]@);
                        if i < k as int {
                            assert(args@[i]@ == mapped.subrange(0, k as int)[i]);
                        }
                    }
                    assert(args.deep_view() =~= mapped.subrange(0, k as int + 1));
                }
                k = k + 1;
            }
            proof {
                assert(args.deep_view() =~= stripped_tokens(pieces.deep_view()));
            }
            (name, args)
        },
        None => (strip_cr(text), Vec::new()),
    };
    Some(Command { channel: channel.to_owned(), name, args })
}

/// Classify a raw line and, when it is a channel message whose text is a bot
/// command, extract that command.
pub fn parse_message_to_command(raw: &str) -> (r: Option<Command>)
    ensures
        match r {
            Some(cmd) => !crate::codec::is_keepalive_line(raw@) && match crate::codec::privmsg_parse(
                raw@,
            ) {
                Some(pair) => is_command_text(pair.1) && cmd.channel@ == pair.0 && cmd.name@
                    == command_name(pair.1) && cmd.args.deep_view() == command_args(pair.1),
                None => false,
            },
            None => crate::codec::is_keepalive_line(raw@) || match crate::codec::privmsg_parse(
                raw@,
            ) {
                Some(pair) => !is_command_text(pair.1),
                None => true,
            },
        },
{
    match crate::codec::classify(raw) {
        crate::codec::Frame::ChannelMessage { channel, text } => extract(
            channel.as_str(),
            text.as_str(),
        ),
        _ => None,
    }
}

} // verus!

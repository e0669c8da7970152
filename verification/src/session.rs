//! Connection-session state machine and handshake lines.
//!
//! Exactly one session exists at a time. The machine never terminates on its
//! own: any transport failure falls back to `Disconnected`, and the driver's
//! next retry re-enters `Connecting` at once, with no delay and no attempt
//! cap. The transport itself stays outside this crate; the driver feeds the
//! machine one event per transport observation.

use vstd::prelude::*;

verus! {

/// Where the single session stands.
#[derive(Debug, Clone, Copy, PartialEq, Eq, Structural)]
pub enum SessionState {
    Disconnected,
    Connecting,
    Authenticating,
    Joined,
    Listening,
}

/// What the driver observed at the transport.
#[derive(Debug, Clone, Copy, PartialEq, Eq, Structural)]
pub enum SessionEvent {
    /// The outer driver re-enters the connect cycle.
    Retry,
    /// The transport handshake succeeded.
    HandshakeOk,
    /// The three setup lines were written; no acknowledgment is awaited.
    SetupSent,
    /// The receive loop begins.
    Begin,
    /// One inbound line was consumed and handled.
    LineHandled,
    /// A transport-level read or write failure, at any point.
    TransportFailure,
}

/// The transition function: a transport failure falls back to
/// `Disconnected` from every state; each forward event advances exactly its
/// own state and leaves every other state unchanged.
pub open spec fn step_spec(s: SessionState, e: SessionEvent) -> SessionState {
    match e {
        SessionEvent::TransportFailure => SessionState::Disconnected,
        SessionEvent::Retry => if s is Disconnected {
            SessionState::Connecting
        } else {
            s
        },
        SessionEvent::HandshakeOk => if s is Connecting {
            SessionState::Authenticating
        } else {
            s
        },
        SessionEvent::SetupSent => if s is Authenticating {
            SessionState::Joined
        } else {
            s
        },
        SessionEvent::Begin => if s is Joined {
            SessionState::Listening
        } else {
            s
        },
        SessionEvent::LineHandled => s,
    }
}

/// Advance the session by one observed event.
pub fn step(s: SessionState, e: SessionEvent) -> (r: SessionState)
    ensures
        r == step_spec(s, e),
{
    match e {
        SessionEvent::TransportFailure => SessionState::Disconnected,
        SessionEvent::Retry => match s {
            SessionState::Disconnected => SessionState::Connecting,
            _ => s,
        },
        SessionEvent::HandshakeOk => match s {
            SessionState::Connecting => SessionState::Authenticating,
            _ => s,
        },
        SessionEvent::SetupSent => match s {
            SessionState::Authenticating => SessionState::Joined,
            _ => s,
        },
        SessionEvent::Begin => match s {
            SessionState::Joined => SessionState::Listening,
            _ => s,
        },
        SessionEvent::LineHandled => s,
    }
}

/// The state after a whole trace of events, oldest first.
pub open spec fn run(s0: SessionState, events: Seq<SessionEvent>) -> SessionState
    decreases events.len(),
{
    if events.len() == 0 {
        s0
    } else {
        step_spec(run(s0, events.drop_last()), events.last())
    }
}

/// A transport failure lands in `Disconnected` from every state, and the
/// driver's next retry from there is a new `Connecting` attempt.
pub proof fn lemma_failure_resets(s: SessionState)
    ensures
        step_spec(s, SessionEvent::TransportFailure) == SessionState::Disconnected,
        step_spec(
            step_spec(s, SessionEvent::TransportFailure),
            SessionEvent::Retry,
        ) == SessionState::Connecting,
{
}

/// After any trace whatsoever, a failure followed by the driver's retry is
/// in `Connecting` again: reconnection has no attempt ceiling and no
/// terminal state short of process termination.
pub proof fn lemma_reconnect_unbounded(s0: SessionState, events: Seq<SessionEvent>)
    ensures
        run(
            s0,
            events.push(SessionEvent::TransportFailure).push(SessionEvent::Retry),
        ) == SessionState::Connecting,
{
    let with_failure = events.push(SessionEvent::TransportFailure);
    let whole = with_failure.push(SessionEvent::Retry);
    assert(whole.drop_last() =~= with_failure);
    assert(with_failure.drop_last() =~= events);
    assert(run(s0, with_failure) == SessionState::Disconnected);
}

/// The credential line of the handshake.
pub fn pass_line(pass: &str) -> (r: String)
    ensures
        r@ == "PASS "@ + pass@,
{
    let mut r = "PASS ".to_owned();
    r.append(pass);
    r
}

/// The identity line of the handshake.
pub fn nick_line(nick: &str) -> (r: String)
    ensures
        r@ == "NICK "@ + nick@,
{
    let mut r = "NICK ".to_owned();
    r.append(nick);
    r
}

/// A channel name in the protocol's convention: prefixed with `#` unless it
/// already is.
pub open spec fn normalized_channel(c: Seq<char>) -> Seq<char> {
    if c.len() >= 1 && c[0] == '#' {
        c
    } else {
        seq!['#'] + c
    }
}

/// The channel list, each name normalized, comma-joined.
pub open spec fn joined_channels(cs: Seq<Seq<char>>) -> Seq<char>
    decreases cs.len(),
{
    if cs.len() == 0 {
        Seq::empty()
    } else if cs.len() == 1 {
        normalized_channel(cs[0])
    } else {
        normalized_channel(cs[0]) + seq![','] + joined_channels(cs.drop_first())
    }
}

/// One normalized channel name.
pub fn normalize_channel(c: &str) -> (r: String)
    ensures
        r@ == normalized_channel(c@),
{
    if c.unicode_len() >= 1 && c.get_char(0) == '#' {
        c.to_owned()
    } else {
        let mut r = "#".to_owned();
        r.append(c);
        proof {
            reveal_strlit("#");
            assert("#"@ =~= seq!['#']);
        }
        r
    }
}

/// The channel list from index `from` on, normalized and comma-joined.
fn joined_channels_from(channels: &Vec<String>, from: usize) -> (r: String)
    requires
        from <= channels@.len(),
    ensures
        r@ == joined_channels(channels.deep_view().skip(from as int)),
    decreases channels@.len() - from,
{
    if from == channels.len() {
        String::new()
    } else if from + 1 == channels.len() {
        let r = normalize_channel(channels[from].as_str());
        proof {
            assert(channels.deep_view().skip(from as int) =~= seq![
                channels.deep_view()[from as int],
            ]);
        }
        r
    } else {
        let mut r = normalize_channel(channels[from].as_str());
        r.append(",");
        let rest = joined_channels_from(channels, from + 1);
        r.append(rest.as_str());
        proof {
            let dv = channels.deep_view().skip(from as int);
            assert(dv[0] == channels.deep_view()[from as int]);
            assert(dv.drop_first() =~= channels.deep_view().skip(from as int + 1));
            reveal_strlit(",");
            assert(","@ =~= seq![',']);
            assert(r@ == joined_channels(dv));
        }
        r
    }
}

/// The channel-join line of the handshake: one `JOIN` with every channel
/// normalized and comma-joined.
pub fn join_line(channels: &Vec<String>) -> (r: String)
    ensures
        r@ == "JOIN "@ + joined_channels(channels.deep_view()),
{
    let mut r = "JOIN ".to_owned();
    let joined = joined_channels_from(channels, 0);
    r.append(joined.as_str());
    proof {
        assert(channels.deep_view().skip(0) =~= channels.deep_view());
    }
    r
}

} // verus!

//! The messages on the wire and the decisions taken on one chunk.

use crate::clock::{
    clock_elapsed, clock_start, duration_debug, duration_text, subsec_nanos, whole_secs,
    NANOS_PER_SEC,
};
use crate::text::{command_text, presented_token, strict_text, trimmed, REPLACEMENT};
use vstd::prelude::*;
use vstd::string::*;
use vstd::utf8::*;

verus! {

/// No read hands over more bytes than this; a longer message arrives as
/// several chunks, each taken as a message of its own.
pub const MAX_CHUNK: usize = 1024;

/// Where the service listens.
pub const HOST: &'static str = "localhost:8219";

/// The secret of a service that was configured with none.
pub open spec fn default_secret() -> Seq<char> {
    "TOKEN"@
}

/// Sent to a peer whose token matched.
pub open spec fn acknowledgement() -> Seq<char> {
    "Authenticated\n"@
}

/// Sent to a peer whose token did not match.
pub open spec fn rejection() -> Seq<char> {
    "Invalid authentication token!\n"@
}

/// Sent in answer to anything but a ping.
pub open spec fn unknown_reply() -> Seq<char> {
    "unknown command\n"@
}

/// Sent in answer to a ping that took `elapsed` to serve.
pub open spec fn pong_reply(elapsed: Seq<char>) -> Seq<char> {
    "pong! "@ + elapsed + "\n"@
}

/// What one read on the connection brought.
#[derive(Clone, Debug, PartialEq, Eq)]
pub enum Incoming {
    /// The bytes of one read; none at all once the peer has closed.
    Chunk(Vec<u8>),
    /// The read failed.
    Failed,
}

/// An [`Incoming`] as a mathematical value.
pub enum Event {
    Chunk(Seq<u8>),
    Failed,
}

impl View for Incoming {
    type V = Event;

    open spec fn view(&self) -> Event {
        match self {
            Incoming::Chunk(bytes) => Event::Chunk(bytes@),
            Incoming::Failed => Event::Failed,
        }
    }
}

/// How an authentication attempt ended.
#[derive(Clone, Copy, Debug, PartialEq, Eq, Structural)]
pub enum Verdict {
    /// The presented token is the secret.
    Accepted,
    /// A token was presented and is not the secret.
    Rejected,
    /// Nothing was presented: the read failed, or it brought no bytes
    /// because the peer had already gone.
    Unreadable,
}

/// The verdict that the first read of a connection earns.
///
/// A read of no bytes presents nothing, whatever the secret is; any other
/// chunk presents its strictly decoded and trimmed text.
pub open spec fn verdict_of(first: Event, secret: Seq<char>) -> Verdict {
    match first {
        Event::Chunk(bytes) => if bytes.len() == 0 {
            Verdict::Unreadable
        } else if trimmed(strict_text(bytes)) == secret {
            Verdict::Accepted
        } else {
            Verdict::Rejected
        },
        Event::Failed => Verdict::Unreadable,
    }
}

/// The commands that the service tells apart.
#[derive(Clone, Copy, Debug, PartialEq, Eq, Structural)]
pub enum Command {
    Ping,
    Unknown,
}

/// The command that a trimmed text names.
pub open spec fn command_named(text: Seq<char>) -> Command {
    if text == "ping"@ {
        Command::Ping
    } else {
        Command::Unknown
    }
}

/// The command that a chunk carries. A malformed chunk carries none that
/// is known: what replaces the malformed bytes is no part of any command.
pub open spec fn command_of(chunk: Seq<u8>) -> Command {
    if valid_utf8(chunk) {
        command_named(trimmed(decode_utf8(chunk)))
    } else {
        Command::Unknown
    }
}

/// The reply to `command`, served in `secs` seconds and `nanos` nanoseconds.
pub open spec fn reply_text(command: Command, secs: u64, nanos: u32) -> Seq<char> {
    match command {
        Command::Ping => pong_reply(duration_debug(secs, nanos)),
        Command::Unknown => unknown_reply(),
    }
}

/// Whether `reply` answers `chunk` for some elapsed time.
pub open spec fn answers(chunk: Seq<u8>, reply: Seq<char>) -> bool {
    exists|secs: u64, nanos: u32|
        nanos < NANOS_PER_SEC && reply == #[trigger] reply_text(command_of(chunk), secs, nanos)
}

/// The secret that all connections are held to: the configured one, or the
/// default where none was configured.
pub fn secret_from(configured: Option<String>) -> (secret: String)
    ensures
        secret@ == match configured {
            Some(given) => given@,
            None => default_secret(),
        },
{
    match configured {
        Some(given) => given,
        None => String::from_str("TOKEN"),
    }
}

/// Judges the first read of a connection against the secret.
///
/// The chunk is decoded strictly and trimmed; what is left must be the secret,
/// character for character. A failed read presents nothing, and neither
/// does a read of no bytes.
pub fn authenticate(first: &Incoming, auth_token: &String) -> (verdict: Verdict)
    ensures
        verdict == verdict_of(first@, auth_token@),
{
    match first {
        Incoming::Chunk(bytes) => {
            if bytes.len() == 0 {
                return Verdict::Unreadable;
            }
            let presented = presented_token(bytes.as_slice());
            if presented == *auth_token {
                Verdict::Accepted
            } else {
                Verdict::Rejected
            }
        },
        Incoming::Failed => Verdict::Unreadable,
    }
}

/// Tells which command a trimmed text names.
pub fn classify(text: &str) -> (command: Command)
    ensures
        command == command_named(text@),
{
    if text.to_owned() == String::from_str("ping") {
        Command::Ping
    } else {
        Command::Unknown
    }
}

/// Writes the reply to `command`, served in `secs` seconds and `nanos`
/// nanoseconds.
pub fn reply_for(command: Command, secs: u64, nanos: u32) -> (reply: String)
    requires
        nanos < NANOS_PER_SEC,
    ensures
        reply@ == reply_text(command, secs, nanos),
{
    match command {
        Command::Ping => {
            let elapsed = duration_text(secs, nanos);
            let mut reply = String::from_str("pong! ");
            reply.append(elapsed.as_str());
            reply.append("\n");
            reply
        },
        Command::Unknown => String::from_str("unknown command\n"),
    }
}

/// Serves one chunk of an authenticated peer: decodes it leniently, trims
/// it, and answers the command it names. The time a ping took is measured
/// from the start of this call.
pub fn respond(chunk: &[u8]) -> (reply: String)
    ensures
        answers(chunk@, reply@),
        command_of(chunk@) == Command::Unknown ==> reply@ == unknown_reply(),
        !valid_utf8(chunk@) ==> reply@ == unknown_reply(),
        command_of(chunk@) == Command::Ping ==> "pong! "@.is_prefix_of(reply@) && reply@.last()
            == '\n',
{
    let start = clock_start();
    let text = command_text(chunk);
    let command = classify(text.as_str());
    proof {
        if !valid_utf8(chunk@) {
            reveal_strlit("ping");
            assert(!"ping"@.contains(REPLACEMENT));
        }
    }
    let (secs, nanos) = match command {
        Command::Ping => {
            let elapsed = clock_elapsed(&start);
            (whole_secs(&elapsed), subsec_nanos(&elapsed))
        },
        Command::Unknown => (0u64, 0u32),
    };
    let reply = reply_for(command, secs, nanos);
    proof {
        assert(reply@ == reply_text(command_of(chunk@), secs, nanos));
        reveal_strlit("\n");
    }
    reply
}

} // verus!

//! What holds of the protocol as a whole, proved from the definitions.

use crate::protocol::{
    acknowledgement, answers, command_of, rejection, reply_text, unknown_reply, verdict_of,
    Command, Event, Verdict,
};
use crate::session::{next_phase, permits, phase_after, Duty, Phase};
use crate::text::{is_white_space, lossy_text, skip_leading, skip_trailing, strict_text, trimmed};
use vstd::prelude::*;
use vstd::utf8::*;

verus! {

/// Whether `s` holds nothing but white space.
pub open spec fn all_white_space(s: Seq<char>) -> bool {
    forall|i: int| 0 <= i < s.len() ==> is_white_space(#[trigger] s[i])
}

/// Whether trimming leaves `s` as it is: it neither starts nor ends with
/// white space.
pub open spec fn is_trim(s: Seq<char>) -> bool {
    s.len() > 0 ==> !is_white_space(s.first()) && !is_white_space(s.last())
}

proof fn lemma_skip_leading(before: Seq<char>, rest: Seq<char>)
    requires
        all_white_space(before),
        rest.len() > 0 ==> !is_white_space(rest.first()),
    ensures
        skip_leading(before + rest) == rest,
    decreases before.len(),
{
    if before.len() == 0 {
        assert(before + rest =~= rest);
    } else {
        assert((before + rest).first() == before[0]);
        assert((before + rest).drop_first() =~= before.drop_first() + rest);
        assert forall|i: int| 0 <= i < before.drop_first().len() implies is_white_space(
            #[trigger] before.drop_first()[i],
        ) by {
            assert(before.drop_first()[i] == before[i + 1]);
        }
        lemma_skip_leading(before.drop_first(), rest);
    }
}

proof fn lemma_skip_trailing(rest: Seq<char>, after: Seq<char>)
    requires
        all_white_space(after),
        rest.len() > 0 ==> !is_white_space(rest.last()),
    ensures
        skip_trailing(rest + after) == rest,
    decreases after.len(),
{
    if after.len() == 0 {
        assert(rest + after =~= rest);
    } else {
        assert((rest + after).last() == after.last());
        assert((rest + after).drop_last() =~= rest + after.drop_last());
        assert forall|i: int| 0 <= i < after.drop_last().len() implies is_white_space(
            #[trigger] after.drop_last()[i],
        ) by {
            assert(after.drop_last()[i] == after[i]);
        }
        lemma_skip_trailing(rest, after.drop_last());
    }
}

/// Trimming takes white space away from both ends and nothing else: of a
/// text that is wrapped in white space, and does not itself start or end
/// with any, exactly the text is left.
pub proof fn law_trim_unwraps(before: Seq<char>, core: Seq<char>, after: Seq<char>)
    requires
        all_white_space(before),
        all_white_space(after),
        is_trim(core),
    ensures
        trimmed(before + core + after) == core,
{
    if core.len() == 0 {
        assert(before + core + after =~= (before + after) + core);
        lemma_skip_leading(before + after, core);
    } else {
        assert(before + core + after =~= before + (core + after));
        assert((core + after).first() == core.first());
        lemma_skip_leading(before, core + after);
        lemma_skip_trailing(core, after);
    }
}

proof fn lemma_leading_cut(s: Seq<char>) -> (k: int)
    ensures
        0 <= k <= s.len(),
        all_white_space(s.subrange(0, k)),
        skip_leading(s) == s.subrange(k, s.len() as int),
        skip_leading(s).len() > 0 ==> !is_white_space(skip_leading(s).first()),
    decreases s.len(),
{
    if s.len() > 0 && is_white_space(s.first()) {
        let rest = s.drop_first();
        let k = lemma_leading_cut(rest);
        assert(rest.subrange(k, rest.len() as int) =~= s.subrange(k + 1, s.len() as int));
        assert forall|i: int| 0 <= i < k + 1 implies is_white_space(
            #[trigger] s.subrange(0, k + 1)[i],
        ) by {
            if i > 0 {
                assert(s.subrange(0, k + 1)[i] == rest.subrange(0, k)[i - 1]);
            }
        }
        k + 1
    } else {
        assert(s.subrange(0, s.len() as int) =~= s);
        0
    }
}

proof fn lemma_trailing_cut(s: Seq<char>) -> (k: int)
    ensures
        0 <= k <= s.len(),
        all_white_space(s.subrange(k, s.len() as int)),
        skip_trailing(s) == s.subrange(0, k),
        skip_trailing(s).len() > 0 ==> !is_white_space(skip_trailing(s).last()),
    decreases s.len(),
{
    if s.len() > 0 && is_white_space(s.last()) {
        let rest = s.drop_last();
        let k = lemma_trailing_cut(rest);
        assert(rest.subrange(0, k) =~= s.subrange(0, k));
        assert forall|i: int| 0 <= i < s.len() - k implies is_white_space(
            #[trigger] s.subrange(k, s.len() as int)[i],
        ) by {
            if i < s.len() - k - 1 {
                assert(s.subrange(k, s.len() as int)[i] == rest.subrange(k, rest.len() as int)[i]);
            }
        }
        k
    } else {
        assert(s.subrange(0, s.len() as int) =~= s);
        s.len() as int
    }
}

/// Trimming takes away white space, and only at the ends: every text is
/// white space, then its trimmed part, then white space again, and the
/// trimmed part neither starts nor ends with white space. The two numbers
/// returned are where the trimmed part starts and ends.
pub proof fn law_trim_cuts_the_ends(s: Seq<char>) -> (cut: (int, int))
    ensures
        0 <= cut.0 <= cut.1 <= s.len(),
        all_white_space(s.subrange(0, cut.0)),
        all_white_space(s.subrange(cut.1, s.len() as int)),
        trimmed(s) == s.subrange(cut.0, cut.1),
        is_trim(trimmed(s)),
{
    let from = lemma_leading_cut(s);
    let tail = skip_leading(s);
    let len = lemma_trailing_cut(tail);
    assert(tail.subrange(0, len) =~= s.subrange(from, from + len));
    assert(tail.subrange(len, tail.len() as int) =~= s.subrange(from + len, s.len() as int));
    if trimmed(s).len() > 0 {
        assert(trimmed(s).first() == tail.first());
    }
    (from, from + len)
}

proof fn lemma_sent_text_has_bytes(text: Seq<char>)
    requires
        text.len() > 0,
    ensures
        encode_utf8(text).len() > 0,
{
    encode_utf8_decode_utf8(text);
    if encode_utf8(text).len() == 0 {
        assert(decode_utf8(encode_utf8(text)).len() == 0);
    }
}

/// Text that is sent as UTF-8 is read back as it was sent, by the strict
/// decoding of the first message and by the lenient one of the later ones.
pub proof fn law_sent_text_is_read(text: Seq<char>)
    ensures
        strict_text(encode_utf8(text)) == text,
        lossy_text(encode_utf8(text)) == text,
{
    encode_utf8_valid_utf8(text);
    encode_utf8_decode_utf8(text);
}

/// A first message whose trimmed text is not the secret earns the rejection
/// text, and the connection is closed: whatever is read afterwards, it stays
/// closed and nothing is answered. (A message of no characters is no
/// message: it reads as the peer's leaving, and is not answered at all.)
pub proof fn law_wrong_token_closes(token: Seq<char>, secret: Seq<char>, later: Event, duty: Duty)
    requires
        token.len() > 0,
        trimmed(token) != secret,
    ensures
        verdict_of(Event::Chunk(encode_utf8(token)), secret) == Verdict::Rejected,
        permits(Phase::Unauthenticated, Event::Chunk(encode_utf8(token)), secret, duty) <==> duty
            == Duty::Reject(rejection()),
        next_phase(Phase::Unauthenticated, Event::Chunk(encode_utf8(token)), secret)
            == Phase::Closed,
        next_phase(Phase::Closed, later, secret) == Phase::Closed,
        permits(Phase::Closed, later, secret, duty) <==> duty == Duty::Hangup,
{
    law_sent_text_is_read(token);
    lemma_sent_text_has_bytes(token);
}

/// A peer that leaves before it has sent anything is not answered: a first
/// read of no bytes, like a first read that fails, closes the connection
/// with nothing written, whatever the secret.
pub proof fn law_silent_peer_is_not_answered(secret: Seq<char>, duty: Duty)
    ensures
        verdict_of(Event::Chunk(Seq::empty()), secret) == Verdict::Unreadable,
        verdict_of(Event::Failed, secret) == Verdict::Unreadable,
        permits(Phase::Unauthenticated, Event::Chunk(Seq::empty()), secret, duty) <==> duty
            == Duty::Abandon,
        permits(Phase::Unauthenticated, Event::Failed, secret, duty) <==> duty == Duty::Abandon,
        next_phase(Phase::Unauthenticated, Event::Chunk(Seq::empty()), secret) == Phase::Closed,
        next_phase(Phase::Unauthenticated, Event::Failed, secret) == Phase::Closed,
{
}

/// A first message that is the secret, alone or wrapped in white space,
/// earns the acknowledgement, and the connection stays open for commands.
/// The secret must be one that trimming leaves alone: no message trims to
/// any other. And the message must hold a character: one of none reads as
/// the peer's leaving.
pub proof fn law_secret_opens(before: Seq<char>, secret: Seq<char>, after: Seq<char>, duty: Duty)
    requires
        all_white_space(before),
        all_white_space(after),
        is_trim(secret),
        before.len() + secret.len() + after.len() > 0,
    ensures
        verdict_of(Event::Chunk(encode_utf8(before + secret + after)), secret)
            == Verdict::Accepted,
        permits(
            Phase::Unauthenticated,
            Event::Chunk(encode_utf8(before + secret + after)),
            secret,
            duty,
        ) <==> duty == Duty::Acknowledge(acknowledgement()),
        next_phase(
            Phase::Unauthenticated,
            Event::Chunk(encode_utf8(before + secret + after)),
            secret,
        ) == Phase::Authenticated,
{
    law_sent_text_is_read(before + secret + after);
    law_trim_unwraps(before, secret, after);
    lemma_sent_text_has_bytes(before + secret + after);
}

/// The word `ping`, in whatever white space, is the ping command: every
/// reply that answers it starts with `pong! ` and ends the line, and an
/// authenticated connection is sent such a reply and stays open.
pub proof fn law_ping_in_white_space(
    before: Seq<char>,
    after: Seq<char>,
    secret: Seq<char>,
    duty: Duty,
)
    requires
        all_white_space(before),
        all_white_space(after),
    ensures
        command_of(encode_utf8(before + "ping"@ + after)) == Command::Ping,
        permits(
            Phase::Authenticated,
            Event::Chunk(encode_utf8(before + "ping"@ + after)),
            secret,
            duty,
        ) ==> (duty matches Duty::Reply(reply) && "pong! "@.is_prefix_of(reply) && reply.last()
            == '\n'),
        next_phase(
            Phase::Authenticated,
            Event::Chunk(encode_utf8(before + "ping"@ + after)),
            secret,
        ) == Phase::Authenticated,
{
    let text = before + "ping"@ + after;
    reveal_strlit("ping");
    reveal_strlit("\n");
    law_sent_text_is_read(text);
    law_trim_unwraps(before, "ping"@, after);
    assert(text.len() > 0);
    lemma_sent_text_has_bytes(text);
}

/// Text that does not trim to `ping` is an unknown command, and the one
/// reply that answers it is the fixed text for unknown commands: an
/// authenticated connection is sent exactly that, and stays open. (Text of
/// no characters is no message at all: it reads as the peer's closing.)
pub proof fn law_other_text_is_unknown(
    text: Seq<char>,
    reply: Seq<char>,
    secret: Seq<char>,
    duty: Duty,
)
    requires
        trimmed(text) != "ping"@,
    ensures
        command_of(encode_utf8(text)) == Command::Unknown,
        answers(encode_utf8(text), reply) <==> reply == unknown_reply(),
        text.len() > 0 ==> (permits(
            Phase::Authenticated,
            Event::Chunk(encode_utf8(text)),
            secret,
            duty,
        ) <==> duty == Duty::Reply(unknown_reply())),
        text.len() > 0 ==> next_phase(
            Phase::Authenticated,
            Event::Chunk(encode_utf8(text)),
            secret,
        ) == Phase::Authenticated,
{
    law_sent_text_is_read(text);
    assert(unknown_reply() == reply_text(command_of(encode_utf8(text)), 0, 0));
    if text.len() > 0 {
        lemma_sent_text_has_bytes(text);
    }
}

/// A chunk that is not well-formed UTF-8 is an unknown command, however
/// much of it reads as `ping`: an authenticated connection is sent the
/// fixed text for unknown commands, and stays open.
pub proof fn law_malformed_command_is_unknown(
    chunk: Seq<u8>,
    reply: Seq<char>,
    secret: Seq<char>,
    duty: Duty,
)
    requires
        !valid_utf8(chunk),
    ensures
        command_of(chunk) == Command::Unknown,
        answers(chunk, reply) <==> reply == unknown_reply(),
        permits(Phase::Authenticated, Event::Chunk(chunk), secret, duty) <==> duty == Duty::Reply(
            unknown_reply(),
        ),
        next_phase(Phase::Authenticated, Event::Chunk(chunk), secret) == Phase::Authenticated,
{
    assert(unknown_reply() == reply_text(command_of(chunk), 0, 0));
    assert(chunk.len() > 0) by {
        if chunk.len() == 0 {
            assert(valid_utf8(chunk));
        }
    }
}

/// A read of no bytes on an authenticated connection ends it in good order:
/// the connection closes and nothing is sent.
pub proof fn law_empty_read_closes(secret: Seq<char>, duty: Duty)
    ensures
        next_phase(Phase::Authenticated, Event::Chunk(Seq::empty()), secret) == Phase::Closed,
        permits(Phase::Authenticated, Event::Chunk(Seq::empty()), secret, duty) <==> duty
            == Duty::Hangup,
{
}

/// A connection is authenticated by its first message or never: it is in
/// the authenticated phase only if its first read presented the secret, and
/// once anything has been read it is never again unauthenticated.
pub proof fn law_authenticated_by_first_message(events: Seq<Event>, secret: Seq<char>)
    ensures
        phase_after(events, secret) == Phase::Authenticated ==> events.len() > 0 && verdict_of(
            events.first(),
            secret,
        ) == Verdict::Accepted,
        events.len() > 0 ==> phase_after(events, secret) != Phase::Unauthenticated,
    decreases events.len(),
{
    if events.len() > 0 {
        let earlier = events.drop_last();
        law_authenticated_by_first_message(earlier, secret);
        if earlier.len() > 0 {
            assert(earlier.first() == events.first());
        } else {
            assert(events.last() == events.first());
        }
    }
}

/// While a connection is unauthenticated no command is served: the only
/// text it can be sent is the acknowledgement or the rejection, and it is
/// sent the acknowledgement exactly when it becomes authenticated.
pub proof fn law_no_command_before_token(event: Event, secret: Seq<char>, duty: Duty)
    requires
        permits(Phase::Unauthenticated, event, secret, duty),
    ensures
        duty == Duty::Acknowledge(acknowledgement()) || duty == Duty::Reject(rejection()) || duty
            == Duty::Abandon,
        duty == Duty::Acknowledge(acknowledgement()) <==> next_phase(
            Phase::Unauthenticated,
            event,
            secret,
        ) == Phase::Authenticated,
{
}

/// A closed connection stays closed, whatever is read after.
pub proof fn law_closed_is_final(events: Seq<Event>, later: Seq<Event>, secret: Seq<char>)
    requires
        phase_after(events, secret) == Phase::Closed,
    ensures
        phase_after(events + later, secret) == Phase::Closed,
    decreases later.len(),
{
    if later.len() == 0 {
        assert(events + later =~= events);
    } else {
        assert((events + later).drop_last() =~= events + later.drop_last());
        assert((events + later).last() == later.last());
        law_closed_is_final(events, later.drop_last(), secret);
    }
}

/// The reads of one of two peers, picked out of the reads of both in the
/// order in which they arrived. Each read is marked with whether the first
/// peer made it.
pub open spec fn events_of(reads: Seq<(bool, Event)>, first: bool) -> Seq<Event>
    decreases reads.len(),
{
    if reads.len() == 0 {
        Seq::empty()
    } else if reads.last().0 == first {
        events_of(reads.drop_last(), first).push(reads.last().1)
    } else {
        events_of(reads.drop_last(), first)
    }
}

/// The phases of two connections, each stepped by its own reads, as the
/// reads of both arrive in one order.
pub open spec fn phases_after(reads: Seq<(bool, Event)>, secret: Seq<char>) -> (Phase, Phase)
    decreases reads.len(),
{
    if reads.len() == 0 {
        (Phase::Unauthenticated, Phase::Unauthenticated)
    } else {
        let (first, second) = phases_after(reads.drop_last(), secret);
        if reads.last().0 {
            (next_phase(first, reads.last().1, secret), second)
        } else {
            (first, next_phase(second, reads.last().1, secret))
        }
    }
}

/// Two peers do not disturb each other: in whatever order their reads
/// arrive, each connection ends where its own reads alone would take it.
pub proof fn law_peers_are_independent(reads: Seq<(bool, Event)>, secret: Seq<char>)
    ensures
        phases_after(reads, secret).0 == phase_after(events_of(reads, true), secret),
        phases_after(reads, secret).1 == phase_after(events_of(reads, false), secret),
    decreases reads.len(),
{
    if reads.len() > 0 {
        let earlier = reads.drop_last();
        law_peers_are_independent(earlier, secret);
        let mine = events_of(earlier, reads.last().0);
        assert(mine.push(reads.last().1).drop_last() =~= mine);
    }
}

} // verus!

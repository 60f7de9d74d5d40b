//! Handling one message: decode, stamp, write, and report what became of it.

use crate::json::{json_text, Json};
use crate::packet::{
    carried_value, carries_pm25, is_valid, lemma_carried_value_is_unique,
    lemma_invalid_input_fails, packet_of, parse_packet, AirQualityPacket, ParseFailure,
};
use crate::reading::{
    field_name, instant_of, point_of, reading_of, series_name, stamp, wall_clock_nanos, Point,
    TimestampedReading,
};
use vstd::multiset::Multiset;
use vstd::prelude::*;

verus! {

/// Why a reading was not persisted.
#[derive(Clone, Copy, Debug, PartialEq, Eq, Structural)]
pub enum WriteFailure {
    /// The wall clock gave no instant that a point can carry.
    Clock,
    /// The store could not be reached, or refused the write.
    Store,
}

/// What became of one message. Each message has exactly one outcome, and it
/// is reported and then forgotten.
#[derive(Clone, Copy, Debug, PartialEq, Eq, Structural)]
pub enum Outcome {
    /// The body was no packet: nothing was written.
    ParseFailed(ParseFailure),
    /// The packet was decoded and its write failed: it is dropped, not retried.
    WriteFailed(WriteFailure),
    /// The reading with this `pm25` was written.
    Stored(i32),
}

/// What the handler does next with a message.
#[derive(Clone, Copy, Debug, PartialEq, Eq, Structural)]
pub enum HandlerStep {
    /// Send this reading to the store, once.
    Write(TimestampedReading),
    /// Nothing is sent: report the outcome.
    Done(Outcome),
}

/// The step that follows decoding, given the clock reading taken then.
pub open spec fn plan_of(
    parsed: Result<AirQualityPacket, ParseFailure>,
    clock: Option<i64>,
) -> HandlerStep {
    match parsed {
        Err(failure) => HandlerStep::Done(Outcome::ParseFailed(failure)),
        Ok(packet) => match reading_of(packet, clock) {
            Some(reading) => HandlerStep::Write(reading),
            None => HandlerStep::Done(Outcome::WriteFailed(WriteFailure::Clock)),
        },
    }
}

/// The outcome of a message whose reading was sent to the store.
pub open spec fn outcome_of(reading: TimestampedReading, stored: bool) -> Outcome {
    if stored {
        Outcome::Stored(reading.pm25)
    } else {
        Outcome::WriteFailed(WriteFailure::Store)
    }
}

/// Decides the step that follows decoding: a failure ends the handling, a
/// packet is stamped with the clock reading and goes to the store.
pub fn plan(parsed: Result<AirQualityPacket, ParseFailure>, clock: Option<i64>) -> (step:
    HandlerStep)
    ensures
        step == plan_of(parsed, clock),
{
    match parsed {
        Err(failure) => HandlerStep::Done(Outcome::ParseFailed(failure)),
        Ok(packet) => match stamp(packet, clock) {
            Some(reading) => HandlerStep::Write(reading),
            None => HandlerStep::Done(Outcome::WriteFailed(WriteFailure::Clock)),
        },
    }
}

/// Takes up one message: decodes its body and, where that gives a packet,
/// stamps it with the wall-clock time of this moment. The time is never
/// taken from the payload.
pub fn begin(payload: &[u8]) -> (step: HandlerStep)
    ensures
        exists|clock: Option<i64>| step == plan_of(packet_of(json_text(payload@)), clock),
        packet_of(json_text(payload@)) matches Err(failure) ==> step == HandlerStep::Done(
            Outcome::ParseFailed(failure),
        ),
        packet_of(json_text(payload@)) matches Ok(packet) ==> (step matches HandlerStep::Write(
            reading,
        ) && reading.pm25 == packet.pm25) || step == HandlerStep::Done(
            Outcome::WriteFailed(WriteFailure::Clock),
        ),
        step matches HandlerStep::Write(reading) ==> carries_pm25(
            json_text(payload@),
            reading.pm25 as int,
        ),
        step is Done && !is_valid(json_text(payload@)) ==> step matches HandlerStep::Done(
            Outcome::ParseFailed(_),
        ),
{
    let parsed = parse_packet(payload);
    proof {
        if is_valid(json_text(payload@)) {
            let n = carried_value(json_text(payload@));
            assert(carries_pm25(json_text(payload@), n));
            lemma_carried_value_is_unique(json_text(payload@), n);
        }
    }
    match parsed {
        Err(failure) => {
            assert(HandlerStep::Done(Outcome::ParseFailed(failure)) == plan_of(parsed, None));
            HandlerStep::Done(Outcome::ParseFailed(failure))
        },
        Ok(_) => {
            let clock = wall_clock_nanos();
            plan(parsed, clock)
        },
    }
}

/// Ends the handling of a message whose reading was sent: a failed write is
/// reported and the reading dropped.
pub fn conclude(reading: &TimestampedReading, stored: bool) -> (outcome: Outcome)
    ensures
        outcome == outcome_of(*reading, stored),
{
    if stored {
        Outcome::Stored(reading.pm25)
    } else {
        Outcome::WriteFailed(WriteFailure::Store)
    }
}

/// One message as the handler meets it: the document read from its body, the
/// clock reading taken for it, and whether the store accepts its write.
pub struct Arrival {
    pub doc: Option<Json>,
    pub clock: Option<i64>,
    pub store_accepts: bool,
}

impl Arrival {
    /// Whether a write is attempted for the message.
    pub open spec fn attempts_write(self) -> bool {
        plan_of(packet_of(self.doc), self.clock) is Write
    }

    /// The outcome of the message, which depends on nothing but the message.
    pub open spec fn outcome(self) -> Outcome {
        match plan_of(packet_of(self.doc), self.clock) {
            HandlerStep::Done(outcome) => outcome,
            HandlerStep::Write(reading) => outcome_of(reading, self.store_accepts),
        }
    }
}

/// The outcomes of a run of messages, each handled on its own.
pub open spec fn outcomes(run: Seq<Arrival>) -> Seq<Outcome> {
    Seq::new(run.len(), |i: int| run[i].outcome())
}

/// How many messages of a run carry a valid `pm25`.
pub open spec fn count_valid(run: Seq<Arrival>) -> nat
    decreases run.len(),
{
    if run.len() == 0 {
        0
    } else {
        count_valid(run.drop_last()) + if is_valid(run.last().doc) {
            1nat
        } else {
            0nat
        }
    }
}

/// For how many messages of a run a write is attempted.
pub open spec fn count_attempts(run: Seq<Arrival>) -> nat
    decreases run.len(),
{
    if run.len() == 0 {
        0
    } else {
        count_attempts(run.drop_last()) + if run.last().attempts_write() {
            1nat
        } else {
            0nat
        }
    }
}

/// How many messages of a run end with their reading stored.
pub open spec fn count_stored(run: Seq<Arrival>) -> nat
    decreases run.len(),
{
    if run.len() == 0 {
        0
    } else {
        count_stored(run.drop_last()) + if run.last().outcome() is Stored {
            1nat
        } else {
            0nat
        }
    }
}

/// The `pm25` values of the valid messages of a run, each as often as it
/// arrives.
pub open spec fn valid_values(run: Seq<Arrival>) -> Multiset<int>
    decreases run.len(),
{
    if run.len() == 0 {
        Multiset::empty()
    } else if is_valid(run.last().doc) {
        valid_values(run.drop_last()).insert(carried_value(run.last().doc))
    } else {
        valid_values(run.drop_last())
    }
}

/// The `pm25` values that a run stores, each as often as it is stored.
pub open spec fn stored_values(run: Seq<Arrival>) -> Multiset<int>
    decreases run.len(),
{
    if run.len() == 0 {
        Multiset::empty()
    } else {
        match run.last().outcome() {
            Outcome::Stored(pm25) => stored_values(run.drop_last()).insert(pm25 as int),
            _ => stored_values(run.drop_last()),
        }
    }
}

/// Whether every message of a run got an instant from the clock.
pub open spec fn clock_serves(run: Seq<Arrival>) -> bool {
    forall|i: int| 0 <= i < run.len() ==> instant_of(#[trigger] run[i].clock) is Some
}

/// Whether the store accepts every write of a run.
pub open spec fn store_serves(run: Seq<Arrival>) -> bool {
    forall|i: int| 0 <= i < run.len() ==> (#[trigger] run[i]).store_accepts
}

/// With a clock that serves, a write is attempted for a message exactly
/// where its body carries a valid `pm25`.
pub proof fn lemma_attempt_iff_valid(arrival: Arrival)
    requires
        instant_of(arrival.clock) is Some,
    ensures
        arrival.attempts_write() <==> is_valid(arrival.doc),
{
    lemma_invalid_input_fails(arrival.doc);
}

/// In a run of messages of which some decode and some do not, as many writes
/// are attempted as there are messages with a valid `pm25`, and with a store
/// that accepts them as many readings are stored: no failure takes a write
/// from another message.
pub proof fn lemma_writes_match_valid_messages(run: Seq<Arrival>)
    requires
        clock_serves(run),
    ensures
        count_attempts(run) == count_valid(run),
        store_serves(run) ==> count_stored(run) == count_valid(run),
    decreases run.len(),
{
    if run.len() > 0 {
        let rest = run.drop_last();
        assert forall|i: int| 0 <= i < rest.len() implies instant_of(
            #[trigger] rest[i].clock,
        ) is Some by {
            assert(rest[i] == run[i]);
        }
        if store_serves(run) {
            assert forall|i: int| 0 <= i < rest.len() implies (#[trigger] rest[i]).store_accepts by {
                assert(rest[i] == run[i]);
            }
            assert(run.last() == run[run.len() - 1]);
        }
        lemma_writes_match_valid_messages(rest);
        assert(run.last() == run[run.len() - 1]);
        lemma_attempt_iff_valid(run.last());
    }
}

/// A message with a valid `pm25` of value `n`, handled while the clock
/// serves, has exactly one write attempted: of one point in the fixed
/// series, without tags, with the one field `pm25` of value `n`, at the
/// instant read. It ends in one outcome: stored with `n` where the store
/// accepts the write, and a write failure where it does not. Nothing is
/// tried again.
pub proof fn lemma_valid_message_is_written(arrival: Arrival, n: int)
    requires
        carries_pm25(arrival.doc, n),
        instant_of(arrival.clock) is Some,
    ensures
        plan_of(packet_of(arrival.doc), arrival.clock) matches HandlerStep::Write(reading)
            && reading.pm25 == n && Some(reading.time) == instant_of(arrival.clock)
            && point_of(reading) == (Point {
            series: series_name(),
            tags: Seq::empty(),
            fields: seq![(field_name(), n)],
            nanos: reading.time as int,
        }),
        count_attempts(seq![arrival]) == 1,
        arrival.store_accepts ==> arrival.outcome() == Outcome::Stored(n as i32),
        !arrival.store_accepts ==> arrival.outcome() == Outcome::WriteFailed(WriteFailure::Store),
{
    lemma_carried_value_is_unique(arrival.doc, n);
    let one = seq![arrival];
    assert(one.last() == arrival);
    assert(one.drop_last().len() == 0);
    assert(count_attempts(one.drop_last()) == 0);
}

/// What a run stores is the sum of what its parts store.
pub proof fn lemma_stored_values_add_up(first: Seq<Arrival>, second: Seq<Arrival>)
    ensures
        stored_values(first + second) == stored_values(first).add(stored_values(second)),
    decreases second.len(),
{
    if second.len() == 0 {
        assert(first + second =~= first);
        assert(stored_values(first).add(stored_values(second)) =~= stored_values(first));
    } else {
        let whole = first + second;
        assert(whole.drop_last() =~= first + second.drop_last());
        assert(whole.last() == second.last());
        lemma_stored_values_add_up(first, second.drop_last());
        match second.last().outcome() {
            Outcome::Stored(pm25) => {
                assert(stored_values(first).add(stored_values(second.drop_last())).insert(
                    pm25 as int,
                ) =~= stored_values(first).add(
                    stored_values(second.drop_last()).insert(pm25 as int),
                ));
            },
            _ => {},
        }
    }
}

/// The order in which two parts of a run are handled does not change what
/// is stored: the stored values are the same, each as often.
pub proof fn lemma_stored_values_ignore_order(first: Seq<Arrival>, second: Seq<Arrival>)
    ensures
        stored_values(first + second) == stored_values(second + first),
{
    lemma_stored_values_add_up(first, second);
    lemma_stored_values_add_up(second, first);
    assert(stored_values(first).add(stored_values(second)) =~= stored_values(second).add(
        stored_values(first),
    ));
}

/// With a clock that serves and a store that accepts, a run stores exactly
/// the `pm25` values of its valid messages, each as often as it arrives: a
/// message that does not decode adds nothing and takes nothing away.
pub proof fn lemma_stored_values_are_the_valid_values(run: Seq<Arrival>)
    requires
        clock_serves(run),
        store_serves(run),
    ensures
        stored_values(run) == valid_values(run),
        stored_values(run).len() == count_valid(run),
    decreases run.len(),
{
    if run.len() > 0 {
        let rest = run.drop_last();
        let last = run.last();
        assert(last == run[run.len() - 1]);
        assert forall|i: int| 0 <= i < rest.len() implies instant_of(
            #[trigger] rest[i].clock,
        ) is Some by {
            assert(rest[i] == run[i]);
        }
        assert forall|i: int| 0 <= i < rest.len() implies (#[trigger] rest[i]).store_accepts by {
            assert(rest[i] == run[i]);
        }
        lemma_stored_values_are_the_valid_values(rest);
        lemma_invalid_input_fails(last.doc);
        if is_valid(last.doc) {
            let n = carried_value(last.doc);
            assert(carries_pm25(last.doc, n));
            lemma_valid_message_is_written(last, n);
        }
    }
}

/// A run of valid messages, however long, handled while the clock serves
/// and the store accepts, has one write attempted for each message and
/// every reading stored with the value of its own message: none is dropped,
/// repeated or merged with another.
pub proof fn lemma_all_valid_run_is_all_written(run: Seq<Arrival>)
    requires
        forall|i: int| 0 <= i < run.len() ==> is_valid(#[trigger] run[i].doc),
        clock_serves(run),
        store_serves(run),
    ensures
        count_valid(run) == run.len(),
        count_attempts(run) == run.len(),
        count_stored(run) == run.len(),
        forall|i: int|
            0 <= i < run.len() ==> #[trigger] outcomes(run)[i] == Outcome::Stored(
                carried_value(run[i].doc) as i32,
            ),
    decreases run.len(),
{
    lemma_writes_match_valid_messages(run);
    if run.len() > 0 {
        let rest = run.drop_last();
        assert(run.last() == run[run.len() - 1]);
        assert forall|i: int| 0 <= i < rest.len() implies is_valid(#[trigger] rest[i].doc) by {
            assert(rest[i] == run[i]);
        }
        assert forall|i: int| 0 <= i < rest.len() implies instant_of(
            #[trigger] rest[i].clock,
        ) is Some by {
            assert(rest[i] == run[i]);
        }
        assert forall|i: int| 0 <= i < rest.len() implies (#[trigger] rest[i]).store_accepts by {
            assert(rest[i] == run[i]);
        }
        lemma_all_valid_run_is_all_written(rest);
    }
    assert forall|i: int| 0 <= i < run.len() implies #[trigger] outcomes(run)[i]
        == Outcome::Stored(carried_value(run[i].doc) as i32) by {
        let n = carried_value(run[i].doc);
        assert(is_valid(run[i].doc));
        assert(carries_pm25(run[i].doc, n));
        assert(instant_of(run[i].clock) is Some);
        assert(run[i].store_accepts);
        lemma_valid_message_is_written(run[i], n);
    }
}

/// A message whose write failed leaves nothing behind: the valid message
/// handled after it has its own point written, with its own value, and ends
/// as it would have ended alone. The value of the failed message is not
/// written with it, nor later.
pub proof fn lemma_failed_write_leaves_next_untouched(failed: Arrival, next: Arrival, n: int)
    requires
        failed.outcome() == Outcome::WriteFailed(WriteFailure::Store),
        carries_pm25(next.doc, n),
        instant_of(next.clock) is Some,
        next.store_accepts,
    ensures
        outcomes(seq![failed, next])[0] == Outcome::WriteFailed(WriteFailure::Store),
        outcomes(seq![failed, next])[1] == Outcome::Stored(n as i32),
        outcomes(seq![failed, next])[1] == outcomes(seq![next])[0],
        stored_values(seq![failed, next]) == Multiset::singleton(n),
        plan_of(packet_of(next.doc), next.clock) matches HandlerStep::Write(reading) && point_of(
            reading,
        ).fields == seq![(field_name(), n)],
{
    lemma_valid_message_is_written(next, n);
    let both = seq![failed, next];
    let head = seq![failed];
    assert(both.last() == next);
    assert(both.drop_last() =~= head);
    assert(head.last() == failed);
    assert(head.drop_last().len() == 0);
    assert(stored_values(head.drop_last()) =~= Multiset::empty());
    assert(stored_values(head) =~= Multiset::empty());
    assert(stored_values(both) =~= Multiset::singleton(n));
}

/// The outcome of a message is its own: two runs that agree on the message
/// at one place agree on its outcome there, whatever fails before or after
/// it in either run.
pub proof fn lemma_outcome_is_isolated(first: Seq<Arrival>, second: Seq<Arrival>, at: int)
    requires
        0 <= at < first.len(),
        0 <= at < second.len(),
        first[at] == second[at],
    ensures
        outcomes(first)[at] == outcomes(second)[at],
        outcomes(first)[at] == first[at].outcome(),
{
}

} // verus!

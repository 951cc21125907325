//! Time bases and the repair of packet timestamps.
//!
//! A packet that is copied into a chunk keeps neither its timestamp, which
//! counts from the start of the source, nor always its place in time: after a
//! backward seek a demuxer may hand out a packet that is stamped earlier than
//! the one before it. The repair gives every packet of a chunk a timestamp
//! that counts from the chunk's first packet, and lifts a packet that would
//! step back by the timestamp that was written last.

use vstd::prelude::*;

verus! {

/// The scale of a stream's timestamps: one tick lasts
/// `numerator / denominator` seconds. Both parts are positive.
#[derive(Clone, Copy, Debug)]
pub struct TimeBase {
    numerator: i32,
    denominator: i32,
}

/// The quotient of `dividend` by a positive `divisor`, rounded toward zero.
pub open spec fn quotient_toward_zero(dividend: int, divisor: int) -> int {
    if dividend >= 0 {
        dividend / divisor
    } else {
        -((-dividend) / divisor)
    }
}

/// The instant, in microseconds, of a timestamp of `ticks` ticks that last
/// `numerator / denominator` seconds each, rounded toward zero.
pub open spec fn ticks_to_micros(ticks: int, numerator: int, denominator: int) -> int {
    quotient_toward_zero(ticks * numerator * 1_000_000, denominator)
}

impl TimeBase {
    #[verifier::type_invariant]
    spec fn positive(self) -> bool {
        self.numerator > 0 && self.denominator > 0
    }

    /// The numerator: how many seconds as many ticks last as the denominator
    /// says.
    pub closed spec fn num(self) -> int {
        self.numerator as int
    }

    /// The denominator: how many ticks as many seconds hold as the numerator
    /// says.
    pub closed spec fn den(self) -> int {
        self.denominator as int
    }

    /// A time base of `numerator / denominator` seconds to the tick, or
    /// `None` unless both are positive.
    pub fn new(numerator: i32, denominator: i32) -> (made: Option<TimeBase>)
        ensures
            made is Some <==> numerator > 0 && denominator > 0,
            made matches Some(base) ==> base.num() == numerator && base.den() == denominator,
    {
        if numerator > 0 && denominator > 0 {
            Some(TimeBase { numerator, denominator })
        } else {
            None
        }
    }

    /// The numerator of the time base.
    pub fn numerator(&self) -> (numerator: i32)
        ensures
            numerator == self.num(),
            numerator > 0,
    {
        proof {
            use_type_invariant(self);
        }
        self.numerator
    }

    /// The denominator of the time base.
    pub fn denominator(&self) -> (denominator: i32)
        ensures
            denominator == self.den(),
            denominator > 0,
    {
        proof {
            use_type_invariant(self);
        }
        self.denominator
    }

    /// The instant of a timestamp in microseconds, rounded toward zero.
    pub fn to_micros(&self, ticks: i64) -> (micros: i128)
        ensures
            micros == ticks_to_micros(ticks as int, self.num(), self.den()),
    {
        proof {
            use_type_invariant(self);
        }
        let numerator: i128 = self.numerator as i128;
        let denominator: u128 = self.denominator as u128;
        if ticks >= 0 {
            assert(0 <= ticks * numerator * 1_000_000 <= 0x7fff_ffff_ffff_ffff * 0x7fff_ffff
                * 1_000_000) by (nonlinear_arith)
                requires
                    0 <= ticks <= 0x7fff_ffff_ffff_ffff,
                    0 < numerator <= 0x7fff_ffff,
            ;
            let scaled: u128 = (ticks as u128) * (numerator as u128) * 1_000_000;
            (scaled / denominator) as i128
        } else {
            assert(0 <= (-ticks) * numerator * 1_000_000 <= 0x8000_0000_0000_0000 * 0x7fff_ffff
                * 1_000_000) by (nonlinear_arith)
                requires
                    0 < -ticks <= 0x8000_0000_0000_0000,
                    0 < numerator <= 0x7fff_ffff,
            ;
            assert(-(ticks * numerator * 1_000_000) == (-ticks) * numerator * 1_000_000)
                by (nonlinear_arith);
            let scaled: u128 = ((-(ticks as i128)) as u128) * (numerator as u128) * 1_000_000;
            -((scaled / denominator) as i128)
        }
    }

    /// Whether a timestamp lies at or after `instant`, given in microseconds.
    pub fn reaches(&self, ticks: i64, instant: i64) -> (reached: bool)
        ensures
            reached == (ticks_to_micros(ticks as int, self.num(), self.den()) >= instant),
    {
        self.to_micros(ticks) >= instant as i128
    }
}

/// The state of the repair within one chunk, over unbounded integers.
pub struct RepairModel {
    /// The source timestamp of the chunk's first packet, once there is one.
    pub baseline: Option<int>,
    /// The timestamp that was written last.
    pub last_emitted: int,
    /// What is added to a re-based timestamp before it is written.
    pub carry_offset: int,
}

/// The state in which a chunk starts: no packet seen, nothing written.
pub open spec fn fresh() -> RepairModel {
    RepairModel { baseline: None, last_emitted: 0, carry_offset: 0 }
}

/// The state after one more packet, stamped `ticks` in the source. The
/// timestamp written for that packet is the new state's `last_emitted`.
///
/// The first packet sets the baseline and is written at zero. A later one is
/// first re-based; if it would then come before the timestamp written last,
/// that timestamp becomes the offset; and the offset is added to it.
pub open spec fn advance(state: RepairModel, ticks: int) -> RepairModel {
    match state.baseline {
        None => RepairModel {
            baseline: Some(ticks),
            last_emitted: 0,
            carry_offset: state.carry_offset,
        },
        Some(baseline) => {
            let adjusted = ticks - baseline;
            let carry = if adjusted < state.last_emitted {
                state.last_emitted
            } else {
                state.carry_offset
            };
            RepairModel {
                baseline: Some(baseline),
                last_emitted: adjusted + carry,
                carry_offset: carry,
            }
        },
    }
}

/// Whether the packet stamped `ticks` would step back behind the timestamp
/// written last, so that the offset is raised for it.
pub open spec fn regresses(state: RepairModel, ticks: int) -> bool {
    match state.baseline {
        None => false,
        Some(baseline) => ticks - baseline < state.last_emitted,
    }
}

/// The state after the first `count` packets of a chunk.
pub open spec fn state_after(source: Seq<int>, count: nat) -> RepairModel
    decreases count,
{
    if count == 0 {
        fresh()
    } else {
        advance(state_after(source, (count - 1) as nat), source[count - 1])
    }
}

/// The timestamps written for the packets of a chunk, given the timestamps
/// that they have in the source.
pub open spec fn repaired(source: Seq<int>) -> Seq<int> {
    Seq::new(source.len(), |i: int| state_after(source, (i + 1) as nat).last_emitted)
}

/// Whether a sequence never steps down.
pub open spec fn non_decreasing(stamps: Seq<int>) -> bool {
    forall|i: int, j: int| 0 <= i <= j < stamps.len() ==> stamps[i] <= stamps[j]
}

/// Whether no packet of a chunk is stamped earlier than the chunk's first.
pub open spec fn none_before_first(source: Seq<int>) -> bool {
    forall|i: int| 0 <= i < source.len() ==> source[0] <= #[trigger] source[i]
}

/// Once a chunk has a packet, the baseline is the first packet's timestamp.
pub proof fn lemma_baseline_is_first(source: Seq<int>, count: nat)
    requires
        1 <= count <= source.len(),
    ensures
        state_after(source, count).baseline == Some(source[0]),
    decreases count,
{
    if count > 1 {
        lemma_baseline_is_first(source, (count - 1) as nat);
    } else {
        reveal_with_fuel(state_after, 2);
    }
}

/// The first packet of every chunk is written at timestamp zero.
pub proof fn lemma_first_is_zero(source: Seq<int>)
    requires
        source.len() > 0,
    ensures
        repaired(source)[0] == 0,
{
    reveal_with_fuel(state_after, 2);
}

/// While no packet is stamped earlier than the first, timestamp and offset
/// stay at or above zero, and the offset at or below the timestamp.
proof fn lemma_state_bounds(source: Seq<int>, count: nat)
    requires
        none_before_first(source),
        count <= source.len(),
    ensures
        0 <= state_after(source, count).carry_offset <= state_after(source, count).last_emitted,
    decreases count,
{
    if count > 0 {
        lemma_state_bounds(source, (count - 1) as nat);
        if count > 1 {
            lemma_baseline_is_first(source, (count - 1) as nat);
        }
        assert(source[0] <= source[count - 1]);
    }
}

/// While no packet is stamped earlier than the first, each packet is written
/// at or after the one before it.
proof fn lemma_step_does_not_regress(source: Seq<int>, count: nat)
    requires
        none_before_first(source),
        1 <= count < source.len(),
    ensures
        state_after(source, count).last_emitted <= state_after(
            source,
            (count + 1) as nat,
        ).last_emitted,
{
    lemma_state_bounds(source, count);
    lemma_baseline_is_first(source, count);
    assert(source[0] <= source[count as int]);
}

proof fn lemma_span_does_not_regress(source: Seq<int>, from: int, to: int)
    requires
        none_before_first(source),
        0 <= from <= to < source.len(),
    ensures
        repaired(source)[from] <= repaired(source)[to],
    decreases to - from,
{
    if from < to {
        lemma_span_does_not_regress(source, from, to - 1);
        lemma_step_does_not_regress(source, to as nat);
    }
}

/// Within one chunk the written timestamps never step down, in whatever
/// order the packets are stamped in the source, as long as none is stamped
/// earlier than the chunk's first packet.
pub proof fn lemma_repaired_never_regresses(source: Seq<int>)
    requires
        none_before_first(source),
    ensures
        non_decreasing(repaired(source)),
{
    assert forall|i: int, j: int| 0 <= i <= j < repaired(source).len() implies repaired(
        source,
    )[i] <= repaired(source)[j] by {
        lemma_span_does_not_regress(source, i, j);
    }
}

/// A packet that is stamped earlier than the chunk's first packet is written
/// before the packet in front of it, if it is the first such packet: the
/// repair does not mend a step back behind the baseline.
pub proof fn lemma_early_packet_regresses(source: Seq<int>, at: int)
    requires
        1 <= at < source.len(),
        source[at] < source[0],
        none_before_first(source.take(at)),
    ensures
        repaired(source)[at] < repaired(source)[at - 1],
{
    let head = source.take(at);
    lemma_state_after_prefix(source, at as nat, at as nat);
    lemma_state_bounds(head, at as nat);
    lemma_baseline_is_first(source, at as nat);
}

/// The state after some packets depends on those packets alone.
pub proof fn lemma_state_after_prefix(source: Seq<int>, len: nat, count: nat)
    requires
        count <= len <= source.len(),
    ensures
        state_after(source.take(len as int), count) == state_after(source, count),
    decreases count,
{
    if count > 0 {
        lemma_state_after_prefix(source, len, (count - 1) as nat);
    }
}

/// The timestamps written for some packets depend on those packets alone.
pub proof fn lemma_repaired_prefix(source: Seq<int>, len: nat)
    requires
        len <= source.len(),
    ensures
        repaired(source.take(len as int)) == repaired(source).take(len as int),
{
    assert forall|i: int| 0 <= i < len implies repaired(source.take(len as int))[i] == repaired(
        source,
    )[i] by {
        lemma_state_after_prefix(source, len, (i + 1) as nat);
    }
    assert(repaired(source.take(len as int)) =~= repaired(source).take(len as int));
}

/// Where the packets of a chunk are stamped in rising order, the repair only
/// re-bases them: each is written at its distance from the first, and the
/// offset stays zero.
pub proof fn lemma_ordered_source_is_rebased(source: Seq<int>)
    requires
        non_decreasing(source),
    ensures
        forall|i: int| 0 <= i < source.len() ==> #[trigger] repaired(source)[i] == source[i] - source[0],
        forall|count: nat| count <= source.len() ==> (#[trigger] state_after(source, count)).carry_offset == 0,
{
    assert forall|count: nat| count <= source.len() implies {
        &&& (#[trigger] state_after(source, count)).carry_offset == 0
        &&& count > 0 ==> state_after(source, count).last_emitted == source[count - 1] - source[0]
    } by {
        lemma_ordered_state(source, count);
    }
    assert forall|i: int| 0 <= i < source.len() implies #[trigger] repaired(source)[i] == source[i]
        - source[0] by {
        assert(state_after(source, (i + 1) as nat).carry_offset == 0);
    }
}

proof fn lemma_ordered_state(source: Seq<int>, count: nat)
    requires
        non_decreasing(source),
        count <= source.len(),
    ensures
        state_after(source, count).carry_offset == 0,
        count == 0 ==> state_after(source, count).last_emitted == 0,
        count > 0 ==> state_after(source, count).last_emitted == source[count - 1] - source[0],
    decreases count,
{
    if count > 0 {
        lemma_ordered_state(source, (count - 1) as nat);
        if count > 1 {
            lemma_baseline_is_first(source, (count - 1) as nat);
            assert(source[count - 2] <= source[count - 1]);
        }
    }
}

/// The state of the repair within one chunk. A chunk starts with
/// [`TimestampState::new`]; each packet that is copied takes the state one
/// step on with [`TimestampState::accept`].
#[derive(Clone, Copy, Debug)]
pub struct TimestampState {
    pub baseline: Option<i64>,
    pub last_emitted: i64,
    pub carry_offset: i64,
}

impl View for TimestampState {
    type V = RepairModel;

    open spec fn view(&self) -> RepairModel {
        RepairModel {
            baseline: match self.baseline {
                Some(baseline) => Some(baseline as int),
                None => None,
            },
            last_emitted: self.last_emitted as int,
            carry_offset: self.carry_offset as int,
        }
    }
}

/// Whether a value can be written as a timestamp.
pub open spec fn is_timestamp(value: int) -> bool {
    i64::MIN <= value <= i64::MAX
}

impl TimestampState {
    /// The state in which a chunk starts.
    pub fn new() -> (state: TimestampState)
        ensures
            state@ == fresh(),
    {
        TimestampState { baseline: None, last_emitted: 0, carry_offset: 0 }
    }

    /// Takes the state one packet on. Gives the new state and the timestamp
    /// to write for the packet, or `None` where that timestamp is no `i64`.
    pub fn accept(self, ticks: i64) -> (step: Option<(TimestampState, i64)>)
        ensures
            step is Some <==> is_timestamp(advance(self@, ticks as int).last_emitted),
            step matches Some((next, stamp)) ==> {
                &&& next@ == advance(self@, ticks as int)
                &&& stamp == next.last_emitted
            },
    {
        match self.baseline {
            None => Some(
                (
                    TimestampState {
                        baseline: Some(ticks),
                        last_emitted: 0,
                        carry_offset: self.carry_offset,
                    },
                    0,
                ),
            ),
            Some(baseline) => {
                let adjusted: i128 = ticks as i128 - baseline as i128;
                let carry: i64 = if adjusted < self.last_emitted as i128 {
                    self.last_emitted
                } else {
                    self.carry_offset
                };
                let stamp: i128 = adjusted + carry as i128;
                if stamp < i64::MIN as i128 || stamp > i64::MAX as i128 {
                    None
                } else {
                    Some(
                        (
                            TimestampState {
                                baseline: Some(baseline),
                                last_emitted: stamp as i64,
                                carry_offset: carry,
                            },
                            stamp as i64,
                        ),
                    )
                }
            },
        }
    }

    /// Whether the packet stamped `ticks` would raise the offset.
    pub fn would_regress(&self, ticks: i64) -> (raised: bool)
        ensures
            raised == regresses(self@, ticks as int),
    {
        match self.baseline {
            None => false,
            Some(baseline) => (ticks as i128 - baseline as i128) < self.last_emitted as i128,
        }
    }
}

} // verus!

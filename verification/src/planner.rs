//! Planning of the time windows into which one source is cut.
//!
//! A source of duration `D` is cut into windows of a nominal length `C`. The
//! last window may be shorter; it is never dropped. So the number of windows
//! is the quotient `D / C` rounded up, and the windows tile `[0, D)`.
//!
//! All times are in microseconds, the unit in which a container states its
//! duration. The nominal length is asked for in whole seconds.

use vstd::prelude::*;

verus! {

/// Microseconds in one second.
pub const MICROS_PER_SECOND: i64 = 1_000_000;

/// The longest nominal length, in seconds, whose length in microseconds is
/// still an `i64`.
pub const MAX_EXACT_SECONDS: i64 = 9_223_372_036_854;

/// One window of a plan. `index` counts from one; the window holds the
/// instants `t` with `start_time <= t < end_time`.
#[derive(Clone, Copy, Debug, PartialEq, Eq, Structural)]
pub struct ChunkWindow {
    pub index: u64,
    pub start_time: i64,
    pub end_time: i64,
}

/// The number of windows: `duration / chunk` rounded up, and none for a
/// duration or a nominal length that is not positive.
pub open spec fn window_count(duration: int, chunk: int) -> int {
    if duration <= 0 || chunk <= 0 {
        0
    } else {
        (duration + chunk - 1) / chunk
    }
}

/// Where the window at `position` (counted from zero) begins.
pub open spec fn window_start(position: int, chunk: int) -> int {
    position * chunk
}

/// Where the window at `position` (counted from zero) ends: one nominal
/// length after its start, or at the end of the source if that comes first.
pub open spec fn window_end(position: int, chunk: int, duration: int) -> int {
    if (position + 1) * chunk < duration {
        (position + 1) * chunk
    } else {
        duration
    }
}

/// A nominal length in seconds as microseconds.
pub open spec fn seconds_to_micros(seconds: int) -> int {
    seconds * MICROS_PER_SECOND
}

/// The rounded-up quotient lies where it should: the last window starts
/// inside the source and would end at or after its end.
pub proof fn lemma_count_bounds(duration: int, chunk: int)
    requires
        duration > 0,
        chunk > 0,
    ensures
        window_count(duration, chunk) >= 1,
        (window_count(duration, chunk) - 1) * chunk < duration,
        duration <= window_count(duration, chunk) * chunk,
        window_count(duration, chunk) <= duration,
{
    let n = (duration + chunk - 1) / chunk;
    let r = (duration + chunk - 1) % chunk;
    vstd::arithmetic::div_mod::lemma_fundamental_div_mod(duration + chunk - 1, chunk);
    vstd::arithmetic::div_mod::lemma_mod_pos_bound(duration + chunk - 1, chunk);
    assert(duration + chunk - 1 == chunk * n + r);
    assert(n >= 1) by (nonlinear_arith)
        requires
            duration + chunk - 1 == chunk * n + r,
            0 <= r < chunk,
            duration > 0,
            chunk > 0,
    ;
    assert((n - 1) * chunk == chunk * n - chunk) by (nonlinear_arith);
    assert(n * chunk == chunk * n) by (nonlinear_arith);
    assert(n <= duration) by (nonlinear_arith)
        requires
            duration + chunk - 1 == chunk * n + r,
            0 <= r,
            n >= 1,
            chunk >= 1,
    ;
}

/// The number of windows, from the rounded-down quotient and the remainder.
pub proof fn lemma_count_from_quotient(duration: int, chunk: int)
    requires
        duration > 0,
        chunk > 0,
    ensures
        window_count(duration, chunk) == duration / chunk + if duration % chunk == 0 {
            0int
        } else {
            1int
        },
{
    let q = duration / chunk;
    let r = duration % chunk;
    vstd::arithmetic::div_mod::lemma_fundamental_div_mod(duration, chunk);
    vstd::arithmetic::div_mod::lemma_mod_pos_bound(duration, chunk);
    if r == 0 {
        assert(duration + chunk - 1 == q * chunk + (chunk - 1)) by (nonlinear_arith)
            requires
                duration == chunk * q + r,
                r == 0,
        ;
        vstd::arithmetic::div_mod::lemma_fundamental_div_mod_converse(
            duration + chunk - 1,
            chunk,
            q,
            chunk - 1,
        );
    } else {
        assert(duration + chunk - 1 == (q + 1) * chunk + (r - 1)) by (nonlinear_arith)
            requires
                duration == chunk * q + r,
        ;
        vstd::arithmetic::div_mod::lemma_fundamental_div_mod_converse(
            duration + chunk - 1,
            chunk,
            q + 1,
            r - 1,
        );
    }
}

/// The windows of a plan tile the source: the first starts at zero, each one
/// is non-empty and at most one nominal length long, each ends where the next
/// starts, and the last ends where the source ends.
pub proof fn lemma_windows_tile(duration: int, chunk: int)
    requires
        duration > 0,
        chunk > 0,
    ensures
        window_count(duration, chunk) >= 1,
        window_start(0, chunk) == 0,
        window_end(window_count(duration, chunk) - 1, chunk, duration) == duration,
        forall|i: int|
            0 <= i < window_count(duration, chunk) ==> {
                &&& 0 <= #[trigger] window_start(i, chunk) < window_end(i, chunk, duration)
                &&& window_end(i, chunk, duration) <= duration
                &&& window_end(i, chunk, duration) - window_start(i, chunk) <= chunk
            },
        forall|i: int|
            0 <= i < window_count(duration, chunk) - 1 ==> #[trigger] window_end(
                i,
                chunk,
                duration,
            ) == window_start(i + 1, chunk),
{
    let n = window_count(duration, chunk);
    lemma_count_bounds(duration, chunk);
    assert(window_start(0, chunk) == 0) by (nonlinear_arith);
    assert(window_end(n - 1, chunk, duration) == duration) by {
        assert((n - 1 + 1) * chunk == n * chunk) by (nonlinear_arith);
    }
    assert forall|i: int| 0 <= i < n implies {
        &&& 0 <= #[trigger] window_start(i, chunk) < window_end(i, chunk, duration)
        &&& window_end(i, chunk, duration) <= duration
        &&& window_end(i, chunk, duration) - window_start(i, chunk) <= chunk
    } by {
        assert(0 <= i * chunk <= (n - 1) * chunk) by (nonlinear_arith)
            requires
                0 <= i <= n - 1,
                chunk > 0,
        ;
        assert((i + 1) * chunk == i * chunk + chunk) by (nonlinear_arith);
    }
    assert forall|i: int| 0 <= i < n - 1 implies #[trigger] window_end(i, chunk, duration)
        == window_start(i + 1, chunk) by {
        assert((i + 1) * chunk <= (n - 1) * chunk) by (nonlinear_arith)
            requires
                i + 1 <= n - 1,
                chunk > 0,
        ;
    }
}

/// Every instant of the source lies in exactly one window of the plan: the
/// one whose position is the instant divided by the nominal length.
pub proof fn lemma_instant_in_one_window(duration: int, chunk: int, instant: int)
    requires
        duration > 0,
        chunk > 0,
        0 <= instant < duration,
    ensures
        0 <= instant / chunk < window_count(duration, chunk),
        forall|i: int|
            0 <= i < window_count(duration, chunk) ==> ((#[trigger] window_start(i, chunk)
                <= instant < window_end(i, chunk, duration)) <==> i == instant / chunk),
{
    let n = window_count(duration, chunk);
    let q = instant / chunk;
    let r = instant % chunk;
    lemma_count_bounds(duration, chunk);
    vstd::arithmetic::div_mod::lemma_fundamental_div_mod(instant, chunk);
    vstd::arithmetic::div_mod::lemma_mod_pos_bound(instant, chunk);
    assert(0 <= q < n) by (nonlinear_arith)
        requires
            instant == chunk * q + r,
            0 <= r < chunk,
            0 <= instant < duration,
            duration <= n * chunk,
            chunk > 0,
    ;
    assert forall|i: int| 0 <= i < n implies ((#[trigger] window_start(i, chunk) <= instant
        < window_end(i, chunk, duration)) <==> i == q) by {
        assert((i + 1) * chunk == i * chunk + chunk) by (nonlinear_arith);
        if i < q {
            assert(i * chunk + chunk <= chunk * q) by (nonlinear_arith)
                requires
                    i + 1 <= q,
                    chunk > 0,
            ;
        } else if i > q {
            assert(i * chunk >= chunk * q + chunk) by (nonlinear_arith)
                requires
                    i >= q + 1,
                    chunk > 0,
            ;
        } else {
            assert(i * chunk == chunk * q) by (nonlinear_arith)
                requires
                    i == q,
            ;
        }
    }
}

/// A source no longer than one nominal length gives exactly one window, and
/// that window is the whole source.
pub proof fn lemma_short_source_is_one_window(duration: int, chunk: int)
    requires
        0 < duration <= chunk,
    ensures
        window_count(duration, chunk) == 1,
        window_start(0, chunk) == 0,
        window_end(0, chunk, duration) == duration,
{
    lemma_count_bounds(duration, chunk);
    let n = window_count(duration, chunk);
    assert(n < 2) by (nonlinear_arith)
        requires
            (n - 1) * chunk < duration,
            duration <= chunk,
            chunk > 0,
    ;
    assert(window_start(0, chunk) == 0) by (nonlinear_arith);
    assert((0 + 1) * chunk == chunk) by (nonlinear_arith);
}

/// A source that is a whole number of nominal lengths long gives that many
/// windows, each one nominal length long: no empty window follows the last.
pub proof fn lemma_exact_multiple_has_no_extra_window(chunk: int, multiple: int)
    requires
        chunk > 0,
        multiple > 0,
    ensures
        window_count(multiple * chunk, chunk) == multiple,
        forall|i: int|
            0 <= i < multiple ==> #[trigger] window_end(i, chunk, multiple * chunk) - window_start(
                i,
                chunk,
            ) == chunk,
{
    let duration = multiple * chunk;
    assert(duration > 0) by (nonlinear_arith)
        requires
            duration == multiple * chunk,
            chunk > 0,
            multiple > 0,
    ;
    assert(duration + chunk - 1 == multiple * chunk + (chunk - 1));
    vstd::arithmetic::div_mod::lemma_fundamental_div_mod_converse(
        duration + chunk - 1,
        chunk,
        multiple,
        chunk - 1,
    );
    assert forall|i: int| 0 <= i < multiple implies #[trigger] window_end(i, chunk, duration)
        - window_start(i, chunk) == chunk by {
        assert((i + 1) * chunk == i * chunk + chunk) by (nonlinear_arith);
        assert((i + 1) * chunk <= multiple * chunk) by (nonlinear_arith)
            requires
                i + 1 <= multiple,
                chunk > 0,
        ;
    }
}

/// Counts the windows of a source of `duration` microseconds cut at every
/// `chunk_seconds` seconds.
pub fn count_windows(duration: i64, chunk_seconds: i64) -> (count: i64)
    ensures
        count == window_count(duration as int, seconds_to_micros(chunk_seconds as int)),
        0 <= count,
        count <= duration || count == 0,
{
    if duration <= 0 || chunk_seconds <= 0 {
        return 0;
    }
    proof {
        lemma_count_bounds(duration as int, seconds_to_micros(chunk_seconds as int));
    }
    if chunk_seconds > MAX_EXACT_SECONDS {
        proof {
            lemma_short_source_is_one_window(
                duration as int,
                seconds_to_micros(chunk_seconds as int),
            );
        }
        return 1;
    }
    let chunk: u64 = (chunk_seconds as u64) * (MICROS_PER_SECOND as u64);
    let whole: u64 = (duration as u64) / chunk;
    let rest: u64 = (duration as u64) % chunk;
    proof {
        lemma_count_from_quotient(duration as int, chunk as int);
    }
    if rest == 0 {
        whole as i64
    } else {
        (whole + 1) as i64
    }
}

/// The window at `position` (counted from zero) of a source of `duration`
/// microseconds cut at every `chunk_seconds` seconds, or `None` where the plan
/// has no window at that position.
pub fn window(duration: i64, chunk_seconds: i64, position: i64) -> (found: Option<ChunkWindow>)
    ensures
        found is Some <==> 0 <= position < window_count(
            duration as int,
            seconds_to_micros(chunk_seconds as int),
        ),
        found matches Some(w) ==> {
            &&& w.index == position + 1
            &&& w.start_time == window_start(
                position as int,
                seconds_to_micros(chunk_seconds as int),
            )
            &&& w.end_time == window_end(
                position as int,
                seconds_to_micros(chunk_seconds as int),
                duration as int,
            )
            &&& 0 <= w.start_time < w.end_time <= duration
        },
{
    let count: i64 = count_windows(duration, chunk_seconds);
    if position < 0 || position >= count {
        return None;
    }
    let ghost chunk = seconds_to_micros(chunk_seconds as int);
    proof {
        lemma_windows_tile(duration as int, chunk);
        assert(0 <= window_start(position as int, chunk) < window_end(
            position as int,
            chunk,
            duration as int,
        ));
    }
    if chunk_seconds > MAX_EXACT_SECONDS {
        proof {
            lemma_short_source_is_one_window(duration as int, chunk);
        }
        return Some(ChunkWindow { index: 1, start_time: 0, end_time: duration });
    }
    let step: i64 = chunk_seconds * MICROS_PER_SECOND;
    assert(position * step == window_start(position as int, chunk));
    let start: i64 = position * step;
    let end: i64 = if duration - start > step {
        start + step
    } else {
        duration
    };
    proof {
        assert((position + 1) * step == position * step + step) by (nonlinear_arith);
    }
    Some(ChunkWindow { index: (position + 1) as u64, start_time: start, end_time: end })
}

} // verus!

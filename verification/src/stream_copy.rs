//! Splitting by stream copy: the plan of the chunks, and what is done with
//! each packet that the demuxer hands out.
//!
//! The caller opens the source, and for each chunk of the plan it creates the
//! output with the source stream's parameters and time base, writes the
//! header, seeks backward to the chunk's start, and then asks for every
//! packet it reads what to do with it: pass it over, write it with a new
//! timestamp, or stop and write the trailer. Nothing here touches a file.

use vstd::prelude::*;
use crate::naming::{chunk_file_name, file_name};
use crate::planner::{
    count_windows,
    seconds_to_micros,
    window,
    window_count,
    window_end,
    window_start,
};
use crate::timestamps::{
    advance,
    fresh,
    is_timestamp,
    lemma_first_is_zero,
    lemma_repaired_never_regresses,
    lemma_repaired_prefix,
    lemma_state_after_prefix,
    non_decreasing,
    none_before_first,
    repaired,
    state_after,
    ticks_to_micros,
    RepairModel,
    TimeBase,
    TimestampState,
};

verus! {

/// The index of the one stream of every chunk.
pub const OUTPUT_STREAM: usize = 0;

/// The file position of a packet whose place in its file is not known.
pub const UNKNOWN_POSITION: i64 = -1;

/// Cuts a source into chunks of a nominal length, given in seconds, without
/// decoding it. The last chunk may be shorter and is never left out.
#[derive(Clone, Copy, Debug)]
pub struct AudioSplitter {
    chunk_duration: i64,
}

/// One chunk of a plan: its index, counted from one, the window
/// `start_time <= t < end_time` of the source that it holds, in
/// microseconds, and the name of its file.
#[derive(Clone, Debug, PartialEq, Eq)]
pub struct ChunkDescriptor {
    pub index: u64,
    pub start_time: i64,
    pub end_time: i64,
    pub file_name: String,
}

/// Why a split was given up.
#[derive(Clone, Copy, Debug, PartialEq, Eq, Structural)]
pub enum SplitError {
    /// A repaired timestamp is too large or too small to be written.
    TimestampOverflow,
}

/// What the copy reads of a packet: the stream it belongs to and its
/// presentation timestamp, if it has one.
#[derive(Clone, Copy, Debug)]
pub struct PacketStamp {
    pub stream_index: usize,
    pub pts: Option<i64>,
}

/// What is set on a packet before it is written to a chunk.
#[derive(Clone, Copy, Debug, PartialEq, Eq, Structural)]
pub struct OutputStamp {
    pub pts: i64,
    pub dts: i64,
    pub stream_index: usize,
    pub position: i64,
}

/// What to do with a packet that was read.
#[derive(Clone, Copy, Debug, PartialEq, Eq, Structural)]
pub enum PacketAction {
    /// The packet belongs to another stream: read on.
    Skip,
    /// The packet lies at or after the chunk's end: write nothing more.
    Stop,
    /// Write the packet with these values.
    Write(OutputStamp),
}

/// Whether `chunk` is the chunk at `position` (counted from zero) of a source
/// of `duration` microseconds cut at every `nominal` microseconds, with files
/// of the given extension.
pub open spec fn describes(
    chunk: ChunkDescriptor,
    position: int,
    nominal: int,
    duration: int,
    extension: Seq<char>,
) -> bool {
    &&& chunk.index == position + 1
    &&& chunk.start_time == window_start(position, nominal)
    &&& chunk.end_time == window_end(position, nominal, duration)
    &&& chunk.file_name@ == chunk_file_name((position + 1) as nat, extension)
}

/// What is set on a packet that is written at the timestamp `stamp`: both
/// timestamps are `stamp`, the stream is the chunk's only one, and the file
/// position is forgotten.
pub open spec fn stamped(stamp: int) -> OutputStamp {
    OutputStamp {
        pts: stamp as i64,
        dts: stamp as i64,
        stream_index: OUTPUT_STREAM,
        position: UNKNOWN_POSITION,
    }
}

/// The timestamp by which a packet is placed: its own, or zero if it has
/// none.
pub open spec fn source_ticks(packet: PacketStamp) -> int {
    match packet.pts {
        Some(ticks) => ticks as int,
        None => 0,
    }
}

/// The timestamps of the packets of one stream, in the order in which the
/// packets were read.
pub open spec fn stream_ticks(packets: Seq<PacketStamp>, stream: usize) -> Seq<int> {
    packets.filter(|p: PacketStamp| p.stream_index == stream).map_values(
        |p: PacketStamp| source_ticks(p),
    )
}

/// The position, from `from` on, of the first timestamp that lies at or after
/// `end`, or the length of the sequence if there is none.
pub open spec fn first_at_end(
    ticks: Seq<int>,
    from: int,
    numerator: int,
    denominator: int,
    end: int,
) -> int
    decreases ticks.len() - from,
{
    if from < 0 || from >= ticks.len() {
        ticks.len() as int
    } else if ticks_to_micros(ticks[from], numerator, denominator) >= end {
        from
    } else {
        first_at_end(ticks, from + 1, numerator, denominator, end)
    }
}

/// The timestamps that are copied into a chunk: those in front of the first
/// one that lies at or after the chunk's end.
pub open spec fn within_window(ticks: Seq<int>, numerator: int, denominator: int, end: int) -> Seq<
    int,
> {
    ticks.take(first_at_end(ticks, 0, numerator, denominator, end))
}

/// The timestamps that are written to a chunk, given every packet that is
/// read after the seek: the packets of the chosen stream up to the first that
/// lies at or after the chunk's end, repaired.
pub open spec fn chunk_stamps(
    packets: Seq<PacketStamp>,
    stream: usize,
    numerator: int,
    denominator: int,
    end: int,
) -> Seq<int> {
    repaired(within_window(stream_ticks(packets, stream), numerator, denominator, end))
}

/// The first timestamp at or after the end is where the timestamps in front
/// of it all lie before the end and it does not, or where the sequence ends.
pub proof fn lemma_first_at_end(
    ticks: Seq<int>,
    from: int,
    at: int,
    numerator: int,
    denominator: int,
    end: int,
)
    requires
        0 <= from <= at <= ticks.len(),
        forall|i: int| from <= i < at ==> ticks_to_micros(#[trigger] ticks[i], numerator, denominator) < end,
        at < ticks.len() ==> ticks_to_micros(ticks[at], numerator, denominator) >= end,
    ensures
        first_at_end(ticks, from, numerator, denominator, end) == at,
    decreases at - from,
{
    if from < at {
        assert(ticks_to_micros(ticks[from], numerator, denominator) < end);
        lemma_first_at_end(ticks, from + 1, at, numerator, denominator, end);
    }
}

/// The first packet written to a chunk is written at timestamp zero.
pub proof fn lemma_chunk_starts_at_zero(
    packets: Seq<PacketStamp>,
    stream: usize,
    numerator: int,
    denominator: int,
    end: int,
)
    requires
        chunk_stamps(packets, stream, numerator, denominator, end).len() > 0,
    ensures
        chunk_stamps(packets, stream, numerator, denominator, end)[0] == 0,
{
    lemma_first_is_zero(within_window(stream_ticks(packets, stream), numerator, denominator, end));
}

/// The timestamps written to a chunk never step down, as long as no packet
/// that is copied is stamped earlier than the first one copied.
pub proof fn lemma_chunk_never_regresses(
    packets: Seq<PacketStamp>,
    stream: usize,
    numerator: int,
    denominator: int,
    end: int,
)
    requires
        none_before_first(
            within_window(stream_ticks(packets, stream), numerator, denominator, end),
        ),
    ensures
        non_decreasing(chunk_stamps(packets, stream, numerator, denominator, end)),
{
    lemma_repaired_never_regresses(
        within_window(stream_ticks(packets, stream), numerator, denominator, end),
    );
}

impl OutputStamp {
    /// What is set on a packet that is written at the timestamp `stamp`.
    pub fn at(stamp: i64) -> (values: OutputStamp)
        ensures
            values == stamped(stamp as int),
    {
        OutputStamp {
            pts: stamp,
            dts: stamp,
            stream_index: OUTPUT_STREAM,
            position: UNKNOWN_POSITION,
        }
    }
}

impl PacketStamp {
    /// The timestamp by which the packet is placed.
    pub fn ticks(&self) -> (ticks: i64)
        ensures
            ticks == source_ticks(*self),
    {
        match self.pts {
            Some(ticks) => ticks,
            None => 0,
        }
    }
}

impl AudioSplitter {
    /// The nominal length of a chunk in seconds.
    pub closed spec fn chunk_seconds(&self) -> int {
        self.chunk_duration as int
    }

    /// The nominal length of a chunk in microseconds.
    pub open spec fn nominal(&self) -> int {
        seconds_to_micros(self.chunk_seconds())
    }

    /// A splitter that cuts at every `duration_seconds` seconds.
    pub fn new(duration_seconds: i64) -> (splitter: Self)
        ensures
            splitter.chunk_seconds() == duration_seconds,
    {
        Self { chunk_duration: duration_seconds }
    }

    /// The nominal length of a chunk in seconds.
    pub fn chunk_duration(&self) -> (seconds: i64)
        ensures
            seconds == self.chunk_seconds(),
    {
        self.chunk_duration
    }

    /// How many chunks a source of `total_duration` microseconds gives: the
    /// duration divided by the nominal length, rounded up; none where either
    /// is not positive.
    pub fn chunk_count(&self, total_duration: i64) -> (count: i64)
        ensures
            count == window_count(total_duration as int, self.nominal()),
            count >= 0,
    {
        count_windows(total_duration, self.chunk_duration)
    }

    /// The chunk at `position`, counted from zero, or `None` where the plan
    /// has no chunk there.
    pub fn chunk(&self, total_duration: i64, position: i64, extension: &str) -> (found: Option<
        ChunkDescriptor,
    >)
        ensures
            found is Some <==> 0 <= position < window_count(total_duration as int, self.nominal()),
            found matches Some(chunk) ==> describes(
                chunk,
                position as int,
                self.nominal(),
                total_duration as int,
                extension@,
            ),
    {
        match window(total_duration, self.chunk_duration, position) {
            None => None,
            Some(w) => Some(
                ChunkDescriptor {
                    index: w.index,
                    start_time: w.start_time,
                    end_time: w.end_time,
                    file_name: file_name(w.index, extension),
                },
            ),
        }
    }

    /// The chunks of a source of `total_duration` microseconds, in order.
    pub fn plan(&self, total_duration: i64, extension: &str) -> (chunks: Vec<ChunkDescriptor>)
        ensures
            chunks.len() == window_count(total_duration as int, self.nominal()),
            forall|i: int|
                0 <= i < chunks.len() ==> describes(
                    #[trigger] chunks[i],
                    i,
                    self.nominal(),
                    total_duration as int,
                    extension@,
                ),
    {
        let count: i64 = self.chunk_count(total_duration);
        let mut chunks: Vec<ChunkDescriptor> = Vec::new();
        let mut position: i64 = 0;
        while position < count
            invariant
                0 <= position <= count,
                count == window_count(total_duration as int, self.nominal()),
                chunks.len() == position,
                forall|i: int|
                    0 <= i < chunks.len() ==> describes(
                        #[trigger] chunks[i],
                        i,
                        self.nominal(),
                        total_duration as int,
                        extension@,
                    ),
            decreases count - position,
        {
            match self.chunk(total_duration, position, extension) {
                Some(chunk) => {
                    chunks.push(chunk);
                },
                None => {
                    assert(false);
                },
            }
            position = position + 1;
        }
        chunks
    }
}

/// The copy of the packets of one chunk: which stream is copied, in what
/// time base it is stamped, where the chunk ends, and how far the repair of
/// the timestamps has come.
#[derive(Clone, Copy, Debug)]
pub struct ChunkCopy {
    stream: usize,
    time_base: TimeBase,
    end_time: i64,
    state: TimestampState,
}

impl ChunkCopy {
    /// The index, in the source, of the stream that is copied.
    pub closed spec fn stream(&self) -> usize {
        self.stream
    }

    /// The numerator of the time base of the stream that is copied.
    pub closed spec fn numerator(&self) -> int {
        self.time_base.num()
    }

    /// The denominator of the time base of the stream that is copied.
    pub closed spec fn denominator(&self) -> int {
        self.time_base.den()
    }

    /// The instant, in microseconds, at which the chunk ends.
    pub closed spec fn end(&self) -> int {
        self.end_time as int
    }

    /// How far the repair of the timestamps has come.
    pub closed spec fn repair(&self) -> RepairModel {
        self.state@
    }

    /// What is done with `packet` in this state.
    pub open spec fn verdict(&self, packet: PacketStamp) -> Result<PacketAction, SplitError> {
        let ticks = source_ticks(packet);
        let next = advance(self.repair(), ticks);
        if packet.stream_index != self.stream() {
            Ok(PacketAction::Skip)
        } else if ticks_to_micros(ticks, self.numerator(), self.denominator()) >= self.end() {
            Ok(PacketAction::Stop)
        } else if is_timestamp(next.last_emitted) {
            Ok(PacketAction::Write(stamped(next.last_emitted)))
        } else {
            Err(SplitError::TimestampOverflow)
        }
    }

    /// The copy of a chunk that ends at `end_time`, before its first packet.
    pub fn begin(stream: usize, time_base: TimeBase, end_time: i64) -> (copy: ChunkCopy)
        ensures
            copy.stream() == stream,
            copy.numerator() == time_base.num(),
            copy.denominator() == time_base.den(),
            copy.end() == end_time,
            copy.repair() == fresh(),
    {
        ChunkCopy { stream, time_base, end_time, state: TimestampState::new() }
    }

    /// How far the repair of the timestamps has come.
    pub fn state(&self) -> (state: TimestampState)
        ensures
            state@ == self.repair(),
    {
        self.state
    }

    /// Says what to do with a packet that was read, and takes the repair one
    /// step on where the packet is to be written.
    pub fn on_packet(&mut self, packet: PacketStamp) -> (action: Result<PacketAction, SplitError>)
        ensures
            action == old(self).verdict(packet),
            final(self).stream() == old(self).stream(),
            final(self).numerator() == old(self).numerator(),
            final(self).denominator() == old(self).denominator(),
            final(self).end() == old(self).end(),
            final(self).repair() == if action is Ok && action->Ok_0 is Write {
                advance(old(self).repair(), source_ticks(packet))
            } else {
                old(self).repair()
            },
    {
        if packet.stream_index != self.stream {
            return Ok(PacketAction::Skip);
        }
        let ticks: i64 = packet.ticks();
        if self.time_base.reaches(ticks, self.end_time) {
            return Ok(PacketAction::Stop);
        }
        match self.state.accept(ticks) {
            Some((next, stamp)) => {
                self.state = next;
                Ok(PacketAction::Write(OutputStamp::at(stamp)))
            },
            None => Err(SplitError::TimestampOverflow),
        }
    }
}

/// What is set on the packets of a chunk, given the timestamps at which they
/// are written.
pub open spec fn stamped_all(stamps: Seq<int>) -> Seq<OutputStamp> {
    stamps.map_values(|stamp: int| stamped(stamp))
}

/// One more packet adds its timestamp to those of its stream, and nothing to
/// those of another.
pub proof fn lemma_stream_ticks_push(packets: Seq<PacketStamp>, packet: PacketStamp, stream: usize)
    ensures
        stream_ticks(packets.push(packet), stream) == if packet.stream_index == stream {
            stream_ticks(packets, stream).push(source_ticks(packet))
        } else {
            stream_ticks(packets, stream)
        },
{
    let chosen = |p: PacketStamp| p.stream_index == stream;
    packets.lemma_filter_push(packet, chosen);
    if packet.stream_index == stream {
        assert(stream_ticks(packets.push(packet), stream) =~= stream_ticks(packets, stream).push(
            source_ticks(packet),
        ));
    }
}

/// The timestamps of the first packets of a stream are the first timestamps
/// of the stream.
pub proof fn lemma_stream_ticks_prefix(packets: Seq<PacketStamp>, count: int, stream: usize)
    requires
        0 <= count <= packets.len(),
    ensures
        stream_ticks(packets.take(count), stream).len() <= stream_ticks(packets, stream).len(),
        stream_ticks(packets, stream).take(
            stream_ticks(packets.take(count), stream).len() as int,
        ) == stream_ticks(packets.take(count), stream),
{
    let chosen = |p: PacketStamp| p.stream_index == stream;
    let head = packets.take(count);
    let tail = packets.skip(count);
    assert(packets =~= head + tail);
    Seq::filter_distributes_over_add(head, tail, chosen);
    assert(stream_ticks(packets, stream) =~= stream_ticks(head, stream) + stream_ticks(
        tail,
        stream,
    ));
    assert(stream_ticks(packets, stream).take(stream_ticks(head, stream).len() as int)
        =~= stream_ticks(head, stream));
}

/// Copies a chunk from the packets that are read after the seek: gives what
/// is set on each packet that is written, in order, or the error where a
/// repaired timestamp cannot be written.
pub fn copy_chunk(
    packets: &Vec<PacketStamp>,
    stream: usize,
    time_base: TimeBase,
    end_time: i64,
) -> (written: Result<Vec<OutputStamp>, SplitError>)
    ensures
        written is Ok <==> forall|i: int|
            0 <= i < chunk_stamps(
                packets@,
                stream,
                time_base.num(),
                time_base.den(),
                end_time as int,
            ).len() ==> is_timestamp(
                #[trigger] chunk_stamps(
                    packets@,
                    stream,
                    time_base.num(),
                    time_base.den(),
                    end_time as int,
                )[i],
            ),
        written matches Ok(values) ==> values@ == stamped_all(
            chunk_stamps(packets@, stream, time_base.num(), time_base.den(), end_time as int),
        ),
        written matches Err(error) ==> error == SplitError::TimestampOverflow,
{
    let ghost numerator = time_base.num();
    let ghost denominator = time_base.den();
    let ghost end = end_time as int;
    let ghost all = stream_ticks(packets@, stream);
    let ghost mut seen: Seq<int> = Seq::empty();
    let mut copy: ChunkCopy = ChunkCopy::begin(stream, time_base, end_time);
    let mut values: Vec<OutputStamp> = Vec::new();
    let mut read: usize = 0;
    proof {
        assert(packets@.take(0) =~= Seq::<PacketStamp>::empty());
        assert(stream_ticks(Seq::<PacketStamp>::empty(), stream) =~= Seq::<int>::empty()) by {
            reveal(Seq::filter);
        }
    }
    while read < packets.len()
        invariant
            0 <= read <= packets.len(),
            numerator == time_base.num(),
            denominator == time_base.den(),
            end == end_time as int,
            all == stream_ticks(packets@, stream),
            copy.stream() == stream,
            copy.numerator() == numerator,
            copy.denominator() == denominator,
            copy.end() == end,
            seen == stream_ticks(packets@.take(read as int), stream),
            forall|j: int|
                0 <= j < seen.len() ==> ticks_to_micros(
                    #[trigger] seen[j],
                    numerator,
                    denominator,
                ) < end,
            copy.repair() == state_after(seen, seen.len()),
            forall|j: int| 0 <= j < seen.len() ==> is_timestamp(#[trigger] repaired(seen)[j]),
            values@ == stamped_all(repaired(seen)),
        decreases packets.len() - read,
    {
        let packet: PacketStamp = packets[read];
        let ghost before = seen;
        proof {
            assert(packets@.take(read + 1) =~= packets@.take(read as int).push(packet));
            lemma_stream_ticks_push(packets@.take(read as int), packet, stream);
            lemma_stream_ticks_prefix(packets@, read + 1, stream);
            if packet.stream_index == stream {
                seen = before.push(source_ticks(packet));
                assert(seen.take(before.len() as int) =~= before);
                lemma_repaired_prefix(seen, before.len());
                lemma_state_after_prefix(seen, before.len(), before.len());
            }
        }
        match copy.on_packet(packet) {
            Ok(PacketAction::Skip) => {
                proof {
                    seen = before;
                }
            },
            Ok(PacketAction::Stop) => {
                proof {
                    assert(all.take(seen.len() as int) == seen);
                    assert forall|i: int| 0 <= i < before.len() implies ticks_to_micros(
                        #[trigger] all[i],
                        numerator,
                        denominator,
                    ) < end by {
                        assert(all[i] == seen[i]);
                        assert(seen[i] == before[i]);
                    }
                    assert(all[before.len() as int] == seen[before.len() as int]);
                    lemma_first_at_end(all, 0, before.len() as int, numerator, denominator, end);
                    assert(within_window(all, numerator, denominator, end) =~= before);
                }
                return Ok(values);
            },
            Ok(PacketAction::Write(value)) => {
                values.push(value);
                proof {
                    assert(repaired(seen).take(before.len() as int) == repaired(before));
                    assert forall|j: int| 0 <= j < seen.len() implies is_timestamp(
                        #[trigger] repaired(seen)[j],
                    ) by {
                        if j < before.len() {
                            assert(repaired(seen)[j] == repaired(before)[j]);
                        }
                    }
                    assert(values@ =~= stamped_all(repaired(seen)));
                }
            },
            Err(error) => {
                proof {
                    let at = before.len() as int;
                    assert(all.take(seen.len() as int) == seen);
                    assert forall|i: int| 0 <= i < seen.len() implies ticks_to_micros(
                        #[trigger] all[i],
                        numerator,
                        denominator,
                    ) < end by {
                        assert(all[i] == seen[i]);
                        if i < at {
                            assert(seen[i] == before[i]);
                        }
                    }
                    lemma_first_at_end_from(all, 0, seen.len() as int, numerator, denominator, end);
                    let kept = within_window(all, numerator, denominator, end);
                    assert(kept.take(seen.len() as int) =~= seen);
                    lemma_repaired_prefix(kept, seen.len());
                    assert(repaired(seen)[at] == advance(
                        state_after(before, before.len()),
                        source_ticks(packet),
                    ).last_emitted);
                    assert(repaired(kept).take(seen.len() as int)[at] == repaired(kept)[at]);
                    let stamps = chunk_stamps(packets@, stream, numerator, denominator, end);
                    assert(stamps == repaired(kept));
                    assert(0 <= at < stamps.len());
                    assert(!is_timestamp(stamps[at]));
                }
                return Err(error);
            },
        }
        read = read + 1;
    }
    proof {
        assert(packets@.take(read as int) =~= packets@);
        lemma_first_at_end(all, 0, all.len() as int, numerator, denominator, end);
        assert(within_window(all, numerator, denominator, end) =~= all);
    }
    Ok(values)
}

/// Where the first timestamps all lie before the end, the first one at or
/// after the end comes behind them.
pub proof fn lemma_first_at_end_from(
    ticks: Seq<int>,
    from: int,
    count: int,
    numerator: int,
    denominator: int,
    end: int,
)
    requires
        0 <= from <= count <= ticks.len(),
        forall|i: int| from <= i < count ==> ticks_to_micros(#[trigger] ticks[i], numerator, denominator) < end,
    ensures
        count <= first_at_end(ticks, from, numerator, denominator, end) <= ticks.len(),
    decreases ticks.len() - from,
{
    if from < ticks.len() {
        if from < count {
            assert(ticks_to_micros(ticks[from], numerator, denominator) < end);
            lemma_first_at_end_from(ticks, from + 1, count, numerator, denominator, end);
        } else if ticks_to_micros(ticks[from], numerator, denominator) < end {
            lemma_first_at_end_from(ticks, from + 1, from + 1, numerator, denominator, end);
        }
    }
}

} // verus!

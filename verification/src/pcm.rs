//! Splitting of uncompressed audio: the decoded samples of a source are cut
//! into consecutive runs of a fixed number of samples. The last run may be
//! shorter. A sample's place in time is its place in the sequence, so that
//! nothing but the cut is needed.

use vstd::prelude::*;
use crate::naming::{chunk_file_name, file_name};
use crate::planner::{
    lemma_count_bounds,
    lemma_short_source_is_one_window,
    lemma_windows_tile,
    window_count,
    window_end,
    window_start,
};

verus! {

/// Cuts the samples of a source into chunks of a nominal length, given in
/// seconds.
#[derive(Clone, Copy, Debug)]
pub struct WavSplitter {
    chunk_duration: u32,
}

/// The format in which samples are stored: how many channels are interleaved,
/// how many sample frames make one second, and how many bits hold one sample.
/// Every chunk is written in the format of its source.
#[derive(Clone, Copy, Debug, PartialEq, Eq, Structural)]
pub struct PcmFormat {
    pub channels: u16,
    pub sample_rate: u32,
    pub bits_per_sample: u16,
}

/// One chunk of samples: its index, counted from one, the name of its file,
/// and the samples.
#[derive(Clone, Debug, PartialEq, Eq)]
pub struct PcmChunk {
    pub index: u64,
    pub file_name: String,
    pub samples: Vec<i16>,
}

/// Why samples were not split.
#[derive(Clone, Copy, Debug, PartialEq, Eq, Structural)]
pub enum PcmError {
    /// A chunk of the nominal length would hold no sample: the length, the
    /// sample rate or the number of channels is zero.
    EmptyChunk,
}

/// How many samples a chunk of `seconds` seconds holds.
pub open spec fn samples_per_chunk(seconds: int, sample_rate: int, channels: int) -> int {
    seconds * sample_rate * channels
}

/// The piece at `position` (counted from zero) of a sequence that is cut
/// after every `size` elements.
pub open spec fn piece<A>(whole: Seq<A>, size: int, position: int) -> Seq<A> {
    whole.subrange(
        window_start(position, size),
        window_end(position, size, whole.len() as int),
    )
}

/// The pieces of a sequence that is cut after every `size` elements.
pub open spec fn pieces<A>(whole: Seq<A>, size: int) -> Seq<Seq<A>> {
    Seq::new(
        window_count(whole.len() as int, size) as nat,
        |position: int| piece(whole, size, position),
    )
}

/// The lengths of some sequences, added up.
pub open spec fn total_len<A>(parts: Seq<Seq<A>>) -> nat
    decreases parts.len(),
{
    if parts.len() == 0 {
        0
    } else {
        total_len(parts.drop_last()) + parts.last().len()
    }
}

/// Whether `chunk` is the chunk at `position` of samples cut after every
/// `size` samples.
pub open spec fn holds_piece(chunk: PcmChunk, samples: Seq<i16>, size: int, position: int) -> bool {
    &&& chunk.index == position + 1
    &&& chunk.file_name@ == chunk_file_name((position + 1) as nat, seq!['w', 'a', 'v'])
    &&& chunk.samples@ == piece(samples, size, position)
}

/// The first pieces of a sequence, put together, are its first elements.
proof fn lemma_first_pieces_rejoin<A>(whole: Seq<A>, size: int, count: int)
    requires
        size > 0,
        0 <= count <= window_count(whole.len() as int, size),
    ensures
        pieces(whole, size).take(count).flatten() == whole.take(
            if count == window_count(whole.len() as int, size) {
                whole.len() as int
            } else {
                window_start(count, size)
            },
        ),
        total_len(pieces(whole, size).take(count)) == if count == window_count(
            whole.len() as int,
            size,
        ) {
            whole.len() as int
        } else {
            window_start(count, size)
        },
    decreases count,
{
    let all = pieces(whole, size);
    let n = window_count(whole.len() as int, size);
    if count == 0 {
        if whole.len() > 0 {
            lemma_count_bounds(whole.len() as int, size);
        }
        assert(all.take(0) =~= Seq::<Seq<A>>::empty());
        assert(window_start(0, size) == 0) by (nonlinear_arith);
        assert(whole.take(0) =~= Seq::<A>::empty());
        assert(all.take(0).flatten() =~= Seq::<A>::empty());
        assert(total_len(all.take(0)) == 0);
    } else {
        assert(whole.len() > 0);
        lemma_first_pieces_rejoin(whole, size, count - 1);
        lemma_windows_tile(whole.len() as int, size);
        let last = piece(whole, size, count - 1);
        let from = window_start(count - 1, size);
        let to = window_end(count - 1, size, whole.len() as int);
        assert(0 <= from < to <= whole.len());
        assert(all[count - 1] == last);
        assert(all.take(count) =~= all.take(count - 1).push(last));
        assert(all.take(count).drop_last() =~= all.take(count - 1));
        assert(all.take(count).last() == last);
        all.take(count - 1).lemma_flatten_push(last);
        assert(all.take(count - 1).flatten() == whole.take(from));
        assert(total_len(all.take(count - 1)) == from);
        assert(last.len() == to - from);
        if count < n {
            assert(to == window_start(count, size));
        } else {
            assert(to == whole.len());
        }
        assert(whole.take(from) + whole.subrange(from, to) =~= whole.take(to));
        assert(all.take(count).flatten() == whole.take(to));
        assert(total_len(all.take(count)) == to);
    }
}

/// The pieces of a sequence, put together in order, are the sequence again,
/// and their lengths add up to its length.
pub proof fn lemma_pieces_rejoin<A>(whole: Seq<A>, size: int)
    requires
        size > 0,
    ensures
        pieces(whole, size).flatten() == whole,
        total_len(pieces(whole, size)) == whole.len(),
{
    let all = pieces(whole, size);
    lemma_first_pieces_rejoin(whole, size, all.len() as int);
    assert(all.take(all.len() as int) =~= all);
    assert(whole.take(whole.len() as int) =~= whole);
}

/// Every piece but the last is `size` elements long; the last holds what is
/// left, at least one element and at most `size`.
pub proof fn lemma_piece_lengths<A>(whole: Seq<A>, size: int)
    requires
        size > 0,
    ensures
        forall|i: int|
            0 <= i < pieces(whole, size).len() - 1 ==> (#[trigger] pieces(whole, size)[i]).len()
                == size,
        forall|i: int|
            0 <= i < pieces(whole, size).len() ==> 1 <= (#[trigger] pieces(whole, size)[i]).len()
                <= size,
        pieces(whole, size).len() > 0 ==> pieces(whole, size).last().len() == whole.len() - (pieces(
            whole,
            size,
        ).len() - 1) * size,
{
    if whole.len() > 0 {
        lemma_windows_tile(whole.len() as int, size);
        let n = window_count(whole.len() as int, size);
        assert forall|i: int| 0 <= i < n - 1 implies (#[trigger] pieces(whole, size)[i]).len()
            == size by {
            assert(window_end(i, size, whole.len() as int) == window_start(i + 1, size));
            assert((i + 1) * size == i * size + size) by (nonlinear_arith);
            assert(0 <= window_start(i, size));
        }
        assert forall|i: int| 0 <= i < n implies 1 <= (#[trigger] pieces(whole, size)[i]).len()
            <= size by {
            assert(0 <= window_start(i, size));
        }
        assert(0 <= window_start(n - 1, size));
    }
}

/// A sequence that is no longer than `size` is cut into itself alone, and an
/// empty one into nothing, whatever `size` is.
pub proof fn lemma_short_sequence_is_one_piece<A>(whole: Seq<A>, size: int)
    requires
        size > 0,
        whole.len() <= size,
    ensures
        pieces(whole, size) == if whole.len() == 0 {
            Seq::<Seq<A>>::empty()
        } else {
            seq![whole]
        },
{
    if whole.len() > 0 {
        lemma_short_source_is_one_window(whole.len() as int, size);
        assert(piece(whole, size, 0) =~= whole);
        assert(pieces(whole, size) =~= seq![whole]);
    } else {
        assert(pieces(whole, size) =~= Seq::<Seq<A>>::empty());
    }
}

fn copy_range(samples: &Vec<i16>, from: usize, to: usize) -> (copied: Vec<i16>)
    requires
        from <= to <= samples.len(),
    ensures
        copied@ == samples@.subrange(from as int, to as int),
{
    let mut copied: Vec<i16> = Vec::new();
    let mut at: usize = from;
    while at < to
        invariant
            from <= at <= to <= samples.len(),
            copied@ == samples@.subrange(from as int, at as int),
        decreases to - at,
    {
        copied.push(samples[at]);
        at = at + 1;
        assert(copied@ =~= samples@.subrange(from as int, at as int));
    }
    copied
}

/// Cuts `samples` after every `size` samples.
pub fn split_samples(samples: &Vec<i16>, size: usize) -> (parts: Vec<Vec<i16>>)
    requires
        size > 0,
    ensures
        parts.len() == pieces(samples@, size as int).len(),
        forall|i: int| 0 <= i < parts.len() ==> (#[trigger] parts[i])@ == pieces(samples@, size as int)[i],
{
    let len: usize = samples.len();
    let ghost count = window_count(len as int, size as int);
    let mut parts: Vec<Vec<i16>> = Vec::new();
    let mut start: usize = 0;
    proof {
        assert(window_start(0, size as int) == 0) by (nonlinear_arith);
        if len > 0 {
            lemma_count_bounds(len as int, size as int);
        }
    }
    while start < len
        invariant
            len == samples.len(),
            size > 0,
            count == window_count(len as int, size as int),
            0 <= parts.len() <= count,
            start <= len,
            start == if parts.len() < count {
                window_start(parts.len() as int, size as int)
            } else {
                len as int
            },
            parts.len() < count ==> start < len,
            forall|i: int|
                0 <= i < parts.len() ==> (#[trigger] parts[i])@ == piece(samples@, size as int, i),
        decreases len - start,
    {
        let ghost position = parts.len() as int;
        proof {
            lemma_windows_tile(len as int, size as int);
            lemma_count_bounds(len as int, size as int);
            assert(window_start(position, size as int) < window_end(
                position,
                size as int,
                len as int,
            ));
            assert((position + 1) * size == position * size + size) by (nonlinear_arith);
        }
        let end: usize = if len - start > size {
            start + size
        } else {
            len
        };
        let part: Vec<i16> = copy_range(samples, start, end);
        parts.push(part);
        proof {
            if position + 1 < count {
                assert(window_end(position, size as int, len as int) == window_start(
                    position + 1,
                    size as int,
                ));
                assert((position + 1) * size <= (count - 1) * size) by (nonlinear_arith)
                    requires
                        position + 1 <= count - 1,
                        size > 0,
                ;
            }
        }
        start = end;
    }
    parts
}

impl WavSplitter {
    /// The nominal length of a chunk in seconds.
    pub closed spec fn chunk_seconds(&self) -> int {
        self.chunk_duration as int
    }

    /// A splitter that cuts at every `duration` seconds.
    pub fn new(duration: u32) -> (splitter: Self)
        ensures
            splitter.chunk_seconds() == duration,
    {
        Self { chunk_duration: duration }
    }

    /// The nominal length of a chunk in seconds.
    pub fn chunk_duration(&self) -> (seconds: u32)
        ensures
            seconds == self.chunk_seconds(),
    {
        self.chunk_duration
    }

    /// How many samples a chunk of the nominal length holds in the given
    /// format: the seconds times the sample rate times the channels.
    pub fn chunk_size(&self, format: &PcmFormat) -> (size: u128)
        ensures
            size == samples_per_chunk(
                self.chunk_seconds(),
                format.sample_rate as int,
                format.channels as int,
            ),
    {
        let seconds: u128 = self.chunk_duration as u128;
        let rate: u128 = format.sample_rate as u128;
        let channels: u128 = format.channels as u128;
        assert(seconds * rate <= 0xffff_ffff * 0xffff_ffff) by (nonlinear_arith)
            requires
                seconds <= 0xffff_ffff,
                rate <= 0xffff_ffff,
        ;
        assert(seconds * rate * channels <= 0xffff_ffff * 0xffff_ffff * 0xffff) by (nonlinear_arith)
            requires
                0 <= seconds * rate <= 0xffff_ffff * 0xffff_ffff,
                channels <= 0xffff,
        ;
        seconds * rate * channels
    }

    /// Cuts the samples of a source into chunks of the nominal length and
    /// names the file of each. Fails where the nominal length holds no sample.
    pub fn split_wav(&self, format: &PcmFormat, samples: &Vec<i16>) -> (chunks: Result<
        Vec<PcmChunk>,
        PcmError,
    >)
        ensures
            chunks is Ok <==> samples_per_chunk(
                self.chunk_seconds(),
                format.sample_rate as int,
                format.channels as int,
            ) > 0,
            chunks matches Ok(list) ==> {
                let size = samples_per_chunk(
                    self.chunk_seconds(),
                    format.sample_rate as int,
                    format.channels as int,
                );
                &&& list.len() == pieces(samples@, size).len()
                &&& forall|i: int|
                    0 <= i < list.len() ==> holds_piece(#[trigger] list[i], samples@, size, i)
            },
            chunks matches Err(error) ==> error == PcmError::EmptyChunk,
    {
        let nominal: u128 = self.chunk_size(format);
        if nominal == 0 {
            return Err(PcmError::EmptyChunk);
        }
        let size: usize = if nominal > usize::MAX as u128 {
            usize::MAX
        } else {
            nominal as usize
        };
        proof {
            assert(samples.len() <= usize::MAX);
            if nominal > usize::MAX {
                lemma_short_sequence_is_one_piece(samples@, nominal as int);
                lemma_short_sequence_is_one_piece(samples@, size as int);
            }
            assert(pieces(samples@, size as int) == pieces(samples@, nominal as int));
            if samples.len() > 0 {
                lemma_count_bounds(samples.len() as int, size as int);
            }
        }
        let parts: Vec<Vec<i16>> = split_samples(samples, size);
        let ghost cut = pieces(samples@, nominal as int);
        let mut list: Vec<PcmChunk> = Vec::new();
        let mut index: u64 = 0;
        for part in iter: parts
            invariant
                index == iter.index(),
                list.len() == iter.index(),
                iter.seq().len() == cut.len(),
                cut.len() <= usize::MAX,
                forall|i: int| 0 <= i < iter.seq().len() ==> (#[trigger] iter.seq()[i])@ == cut[i],
                cut == pieces(samples@, nominal as int),
                forall|i: int|
                    0 <= i < list.len() ==> holds_piece(
                        #[trigger] list[i],
                        samples@,
                        nominal as int,
                        i,
                    ),
        {
            proof {
                reveal_strlit("wav");
                assert("wav"@ =~= seq!['w', 'a', 'v']);
            }
            index = index + 1;
            list.push(PcmChunk { index, file_name: file_name(index, "wav"), samples: part });
        }
        Ok(list)
    }
}

} // verus!

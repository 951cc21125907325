//! Fetching a stream piece by piece: which bytes are asked for next, and
//! under what address.

use vstd::prelude::*;
use vstd::string::*;
use crate::decimal::{decimal, push_decimal};
use crate::text::{chars_of, contains, contains_text};

verus! {

/// How many bytes are asked for at once at most: nine times 1024 times 1024.
pub const RANGE_SIZE: u64 = 9_437_184;

/// The last byte of the piece that begins at `downloaded`, in a stream of
/// `file_size` bytes: the piece is [`RANGE_SIZE`] bytes long, or ends with
/// the stream.
pub open spec fn range_stop(downloaded: int, file_size: int) -> int {
    if downloaded + RANGE_SIZE < file_size {
        downloaded + RANGE_SIZE - 1
    } else {
        file_size - 1
    }
}

/// The address under which the bytes from `start` to `stop` are had.
pub open spec fn range_address(audio_url: Seq<char>, start: nat, stop: nat) -> Seq<char> {
    audio_url + seq!['?', 'r', 'a', 'n', 'g', 'e', '='] + decimal(start) + seq!['-'] + decimal(
        stop,
    )
}

/// The piece to ask for when `downloaded` bytes of `file_size` are there:
/// its first and its last byte, or `None` when the stream is complete.
pub fn next_range(downloaded: u64, file_size: u64) -> (range: Option<(u64, u64)>)
    ensures
        range is None <==> downloaded >= file_size,
        range matches Some((start, stop)) ==> {
            &&& start == downloaded
            &&& stop == range_stop(downloaded as int, file_size as int)
            &&& start <= stop < file_size
            &&& stop - start < RANGE_SIZE
        },
{
    if downloaded >= file_size {
        None
    } else if file_size - downloaded > RANGE_SIZE {
        Some((downloaded, downloaded + (RANGE_SIZE - 1)))
    } else {
        Some((downloaded, file_size - 1))
    }
}

/// The address under which the bytes from `start` to `stop` are had.
pub fn range_url(audio_url: &str, start: u64, stop: u64) -> (url: String)
    ensures
        url@ == range_address(audio_url@, start as nat, stop as nat),
{
    proof {
        reveal_strlit("?range=");
        reveal_strlit("-");
    }
    let mut url: String = String::from_str(audio_url);
    url.append("?range=");
    push_decimal(&mut url, start);
    url.append("-");
    push_decimal(&mut url, stop);
    assert(url@ =~= range_address(audio_url@, start as nat, stop as nat));
    url
}

/// The size above which a stream is cut into chunks before it is
/// transcribed: 38 times 1024 times 1024 bytes.
pub const SPLIT_ABOVE: u64 = 39_845_888;

/// Whether a stream of so many bytes is cut into chunks before it is
/// transcribed.
pub fn needs_splitting(audio_filesize: u64) -> (cut: bool)
    ensures
        cut == (audio_filesize > SPLIT_ABOVE),
{
    audio_filesize > SPLIT_ABOVE
}

/// The name of the file in which a stream of the given kind is kept while
/// it is worked on: `temp.webm` for a kind that holds `webm`, else
/// `temp.m4a`.
pub open spec fn temporary_name(mime_type: Seq<char>) -> Seq<char> {
    if contains_text(mime_type, "webm"@) {
        "temp.webm"@
    } else {
        "temp.m4a"@
    }
}

/// The name of the file in which a stream of the given kind is kept while
/// it is worked on.
pub fn temporary_file_name(mime_type: &str) -> (name: &'static str)
    ensures
        name@ == temporary_name(mime_type@),
{
    let kind: Vec<char> = chars_of(mime_type);
    let marker: Vec<char> = chars_of("webm");
    if contains(&kind, &marker) {
        "temp.webm"
    } else {
        "temp.m4a"
    }
}

} // verus!

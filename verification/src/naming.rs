//! Names of the files that hold the chunks.
//!
//! The chunk with index `n` lies in `chunk_` followed by `n` in at least
//! three digits, a dot and the extension: `chunk_001.wav`, `chunk_002.wav`
//! and so on. Up to index 999 all names have one length, so that they sort
//! as their indices do.

use vstd::prelude::*;
use vstd::string::*;
use crate::decimal::{lemma_decimal_len, push_zero_padded, zero_padded};

verus! {

/// How many digits an index is written in at least.
pub const INDEX_WIDTH: u64 = 3;

/// What every chunk's file name starts with.
pub open spec fn name_prefix() -> Seq<char> {
    seq!['c', 'h', 'u', 'n', 'k', '_']
}

/// The name of the file that holds the chunk with the given index.
pub open spec fn chunk_file_name(index: nat, extension: Seq<char>) -> Seq<char> {
    name_prefix() + zero_padded(index, 3) + seq!['.'] + extension
}

/// Up to index 999 a name is ten characters and the extension long.
pub proof fn lemma_names_have_one_length(index: nat, extension: Seq<char>)
    requires
        index <= 999,
    ensures
        chunk_file_name(index, extension).len() == 10 + extension.len(),
{
    lemma_decimal_len(index);
}

/// The name of the file that holds the chunk with the given index.
pub fn file_name(index: u64, extension: &str) -> (name: String)
    ensures
        name@ == chunk_file_name(index as nat, extension@),
{
    proof {
        reveal_strlit("chunk_");
        reveal_strlit(".");
    }
    let mut name: String = String::from_str("chunk_");
    assert(name@ =~= name_prefix());
    push_zero_padded(&mut name, index, INDEX_WIDTH);
    name.append(".");
    name.append(extension);
    assert(name@ =~= chunk_file_name(index as nat, extension@));
    name
}

} // verus!

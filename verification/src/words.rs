//! Word-granular byte patching.
//!
//! The tracing interface of the kernel reads and writes target memory one
//! machine word at a time, so planting a one-byte trap opcode means reading
//! the containing word, splicing the byte into it, and writing the word
//! back.  This module holds that splicing arithmetic, together with the
//! facts the breakpoint protocol rests on: a spliced byte reads back
//! exactly, the other bytes of the word are untouched, and splicing the
//! displaced byte back restores the original word.

use vstd::prelude::*;

verus! {

/// Bytes in one machine word of the traced target.
pub const WORD_BYTES: usize = 8;

/// The one-byte trap opcode written over an instruction to arm a breakpoint.
pub const TRAP_OPCODE: u8 = 0xcc;

/// The byte of `word` at byte position `off`, words being little-endian.
pub open spec fn byte_of_word(word: u64, off: u64) -> u8 {
    (word >> (8 * off)) as u8
}

/// `word` with the byte at position `off` replaced by `val`.
pub open spec fn word_with_byte(word: u64, off: u64, val: u8) -> u64 {
    (word & !(0xffu64 << (8 * off))) | ((val as u64) << (8 * off))
}

/// Largest word-aligned address not above `addr`.
pub fn align_addr_to_word(addr: usize) -> (r: usize)
    ensures
        r == addr - (addr as int) % (WORD_BYTES as int),
        (r as int) % (WORD_BYTES as int) == 0,
        r <= addr,
        addr - r < WORD_BYTES,
{
    addr - addr % WORD_BYTES
}

/// Reads the byte at position `off` out of `word`.
pub fn extract_byte(word: u64, off: u64) -> (b: u8)
    requires
        off < WORD_BYTES,
    ensures
        b == byte_of_word(word, off),
{
    proof {
        assert(((word >> (8 * off)) & 0xff) as u8 == (word >> (8 * off)) as u8) by (bit_vector)
            requires
                off < 8,
        ;
    }
    ((word >> (8 * off)) & 0xff) as u8
}

/// Splices `val` into `word` at byte position `off`.
pub fn replace_byte(word: u64, off: u64, val: u8) -> (r: u64)
    requires
        off < WORD_BYTES,
    ensures
        r == word_with_byte(word, off, val),
        byte_of_word(r, off) == val,
        forall|j: u64| j < WORD_BYTES && j != off ==> byte_of_word(r, j) == byte_of_word(word, j),
{
    proof {
        lemma_replace_then_extract(word, off, val);
    }
    (word & !(0xffu64 << (8 * off))) | ((val as u64) << (8 * off))
}

/// A spliced byte reads back exactly, and no other byte of the word moves.
pub proof fn lemma_replace_then_extract(word: u64, off: u64, val: u8)
    requires
        off < WORD_BYTES,
    ensures
        byte_of_word(word_with_byte(word, off, val), off) == val,
        forall|j: u64|
            j < WORD_BYTES && j != off ==> byte_of_word(word_with_byte(word, off, val), j)
                == byte_of_word(word, j),
{
    assert(byte_of_word(word_with_byte(word, off, val), off) == val) by (bit_vector)
        requires
            off < 8,
    ;
    assert(forall|j: u64|
        off < 8 && j < 8 && j != off ==> byte_of_word(word_with_byte(word, off, val), j)
            == byte_of_word(word, j)) by (bit_vector);
}

/// Splicing the displaced byte back restores the word exactly: the
/// install / restore round trip of a breakpoint loses nothing.
pub proof fn lemma_replace_byte_round_trip(word: u64, off: u64, val: u8)
    requires
        off < WORD_BYTES,
    ensures
        word_with_byte(word_with_byte(word, off, val), off, byte_of_word(word, off)) == word,
{
    assert(word_with_byte(word_with_byte(word, off, val), off, byte_of_word(word, off)) == word)
        by (bit_vector)
        requires
            off < 8,
    ;
}

} // verus!

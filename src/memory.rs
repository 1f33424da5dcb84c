//! Byte-granular patching of a word-granular address space.
//!
//! The tracing interface reads and writes whole machine words at aligned
//! addresses. Installing a breakpoint changes exactly one byte: the word
//! holding it is read, the byte is swapped, and the word is written back
//! with every other byte untouched.

use vstd::prelude::*;

verus! {

/// Width of one machine word in bytes.
pub const WORD_BYTES: u64 = 8;

/// The one-byte trap instruction (`int3`).
pub const TRAP_OPCODE: u8 = 0xcc;

/// Start of the machine word that holds `addr`.
pub open spec fn word_base(addr: u64) -> u64 {
    (addr - addr % 8) as u64
}

/// Position of `addr` inside its word.
pub open spec fn word_offset(addr: u64) -> u64 {
    addr % 8
}

/// Byte number `offset` of `word`, least significant first.
pub open spec fn byte_of(word: u64, offset: u64) -> u8 {
    ((word >> (8 * offset)) & 0xff) as u8
}

/// `word` with byte number `offset` replaced by `val`.
pub open spec fn with_byte(word: u64, offset: u64, val: u8) -> u64 {
    (word & !(0xffu64 << (8 * offset))) | ((val as u64) << (8 * offset))
}

/// Rounds a byte address down to the enclosing machine word.
pub fn align_addr_to_word(addr: u64) -> (r: u64)
    ensures
        r == word_base(addr),
        r % 8 == 0,
        r <= addr,
        addr - r < 8,
{
    let r = addr & !(WORD_BYTES - 1);
    assert(addr & !7u64 == addr - addr % 8) by (bit_vector);
    r
}

/// Replacing one byte sets that byte and leaves the other seven alone.
pub proof fn lemma_with_byte(word: u64, offset: u64, val: u8)
    requires
        offset < 8,
    ensures
        byte_of(with_byte(word, offset, val), offset) == val,
        forall|j: u64| j < 8 && j != offset ==> byte_of(with_byte(word, offset, val), j)
            == byte_of(word, j),
{
    assert(byte_of(with_byte(word, offset, val), offset) == val) by (bit_vector)
        requires
            offset < 8,
    ;
    assert forall|j: u64| j < 8 && j != offset implies byte_of(with_byte(word, offset, val), j)
        == byte_of(word, j) by {
        assert(byte_of(with_byte(word, offset, val), j) == byte_of(word, j)) by (bit_vector)
            requires
                offset < 8,
                j < 8,
                j != offset,
        ;
    }
}

/// Putting back the byte that was displaced restores the word exactly, and
/// of two writes to the same byte only the last one counts.
pub proof fn lemma_with_byte_restore(word: u64, offset: u64, val: u8, val2: u8)
    requires
        offset < 8,
    ensures
        with_byte(with_byte(word, offset, val), offset, byte_of(word, offset)) == word,
        with_byte(with_byte(word, offset, val), offset, val2) == with_byte(word, offset, val2),
{
    assert(with_byte(with_byte(word, offset, val), offset, byte_of(word, offset)) == word)
        by (bit_vector)
        requires
            offset < 8,
    ;
    assert(with_byte(with_byte(word, offset, val), offset, val2) == with_byte(word, offset, val2))
        by (bit_vector)
        requires
            offset < 8,
    ;
}

/// Writing back the byte a word already holds leaves it unchanged.
pub proof fn lemma_with_same_byte(word: u64, offset: u64)
    requires
        offset < 8,
    ensures
        with_byte(word, offset, byte_of(word, offset)) == word,
{
    assert(with_byte(word, offset, byte_of(word, offset)) == word) by (bit_vector)
        requires
            offset < 8,
    ;
}

/// A model of the target's memory: the word held at each aligned address.
pub open spec fn mem_byte(mem: Map<u64, u64>, addr: u64) -> u8 {
    byte_of(mem[word_base(addr)], word_offset(addr))
}

/// `mem` after storing `val` at byte address `addr`, by reading the word,
/// patching it, and writing it back.
pub open spec fn write_mem(mem: Map<u64, u64>, addr: u64, val: u8) -> Map<u64, u64> {
    mem.insert(word_base(addr), with_byte(mem[word_base(addr)], word_offset(addr), val))
}

/// A byte write changes the byte written and no other.
pub proof fn lemma_write_mem(mem: Map<u64, u64>, addr: u64, val: u8, other: u64)
    ensures
        mem_byte(write_mem(mem, addr, val), addr) == val,
        other != addr ==> mem_byte(write_mem(mem, addr, val), other) == mem_byte(mem, other),
{
    lemma_with_byte(mem[word_base(addr)], word_offset(addr), val);
    if other != addr && word_base(other) == word_base(addr) {
        assert(word_offset(other) != word_offset(addr));
    }
}

/// Computes the write that stores `val` at byte address `addr`, given the
/// word currently held at the aligned address: returns the word to write
/// back and the byte it displaces.
pub fn patch_word(word: u64, addr: u64, val: u8) -> (r: (u64, u8))
    ensures
        r.0 == with_byte(word, word_offset(addr), val),
        r.1 == byte_of(word, word_offset(addr)),
        byte_of(r.0, word_offset(addr)) == val,
        forall|j: u64| j < 8 && j != word_offset(addr) ==> byte_of(r.0, j) == byte_of(word, j),
{
    let aligned = align_addr_to_word(addr);
    let offset = addr - aligned;
    let shift = 8 * offset;
    let orig = ((word >> shift) & 0xff) as u8;
    let masked = word & !(0xffu64 << shift);
    let updated = masked | ((val as u64) << shift);
    proof {
        lemma_with_byte(word, offset, val);
    }
    (updated, orig)
}

} // verus!

//! Byte access through word-sized reads and writes.
//!
//! The tracing interface of the operating system moves one aligned machine
//! word at a time. A byte of the traced process is therefore read by fetching
//! the word that holds it, and written by replacing one byte of that word and
//! storing the word back. This module holds the arithmetic of that detour and
//! a model of a word-addressed memory on which its laws are stated.

use vstd::prelude::*;

verus! {

/// Number of bytes in one word of traced memory.
pub const WORD_BYTES: usize = 8;

/// The address of the aligned word that holds `addr`.
pub open spec fn word_base(addr: usize) -> usize {
    (addr - addr % 8) as usize
}

/// The position of `addr` inside its word, counted from the least
/// significant byte.
pub open spec fn byte_index(addr: usize) -> int {
    (addr % 8) as int
}

/// Byte `index` of `word`, byte 0 being the least significant.
pub open spec fn byte_of(word: u64, index: int) -> u8 {
    ((word >> ((8 * index) as u64)) & 0xff) as u8
}

/// The eight bytes of `word`, least significant first: the order in which a
/// little-endian machine lays them out in memory.
pub open spec fn word_bytes(word: u64) -> Seq<u8> {
    Seq::new(8, |index: int| byte_of(word, index))
}

/// `word` with byte `index` replaced by `val`.
pub closed spec fn with_byte(word: u64, index: int, val: u8) -> u64 {
    (word & !(0xffu64 << ((8 * index) as u64))) | ((val as u64) << ((8 * index) as u64))
}

/// Replacing a byte changes that byte and no other.
pub proof fn with_byte_replaces_one_byte(word: u64, index: int, val: u8)
    requires
        0 <= index < 8,
    ensures
        word_bytes(with_byte(word, index, val)) == word_bytes(word).update(index, val),
{
    let shift = (8 * index) as u64;
    let updated = with_byte(word, index, val);
    assert forall|other: int| 0 <= other < 8 implies #[trigger] byte_of(updated, other) == (if other
        == index {
        val
    } else {
        byte_of(word, other)
    }) by {
        let look = (8 * other) as u64;
        if other == index {
            assert((((word & !(0xffu64 << shift)) | ((val as u64) << shift)) >> shift) & 0xff
                == val as u64) by (bit_vector)
                requires
                    shift <= 56,
            ;
        } else {
            assert((((word & !(0xffu64 << shift)) | ((val as u64) << shift)) >> look) & 0xff == (
            word >> look) & 0xff) by (bit_vector)
                requires
                    shift % 8 == 0,
                    look % 8 == 0,
                    shift < 64,
                    look < 64,
                    shift != look,
            ;
        }
    }
    assert(word_bytes(updated) =~= word_bytes(word).update(index, val));
}

/// A word is determined by its bytes.
pub proof fn bytes_determine_word(a: u64, b: u64)
    requires
        word_bytes(a) == word_bytes(b),
    ensures
        a == b,
{
    assert forall|index: int| 0 <= index < 8 implies #[trigger] byte_of(a, index) == byte_of(
        b,
        index,
    ) by {
        assert(word_bytes(a)[index] == byte_of(a, index));
        assert(word_bytes(b)[index] == byte_of(b, index));
    }
    assert(byte_of(a, 0) == byte_of(b, 0) && byte_of(a, 1) == byte_of(b, 1));
    assert(byte_of(a, 2) == byte_of(b, 2) && byte_of(a, 3) == byte_of(b, 3));
    assert(byte_of(a, 4) == byte_of(b, 4) && byte_of(a, 5) == byte_of(b, 5));
    assert(byte_of(a, 6) == byte_of(b, 6) && byte_of(a, 7) == byte_of(b, 7));
    assert((8 * 0) as u64 == 0u64 && (8 * 1) as u64 == 8u64 && (8 * 2) as u64 == 16u64);
    assert((8 * 3) as u64 == 24u64 && (8 * 4) as u64 == 32u64 && (8 * 5) as u64 == 40u64);
    assert((8 * 6) as u64 == 48u64 && (8 * 7) as u64 == 56u64);
    assert(a == b) by (bit_vector)
        requires
            ((a >> 0u64) & 0xff) as u8 == ((b >> 0u64) & 0xff) as u8,
            ((a >> 8u64) & 0xff) as u8 == ((b >> 8u64) & 0xff) as u8,
            ((a >> 16u64) & 0xff) as u8 == ((b >> 16u64) & 0xff) as u8,
            ((a >> 24u64) & 0xff) as u8 == ((b >> 24u64) & 0xff) as u8,
            ((a >> 32u64) & 0xff) as u8 == ((b >> 32u64) & 0xff) as u8,
            ((a >> 40u64) & 0xff) as u8 == ((b >> 40u64) & 0xff) as u8,
            ((a >> 48u64) & 0xff) as u8 == ((b >> 48u64) & 0xff) as u8,
            ((a >> 56u64) & 0xff) as u8 == ((b >> 56u64) & 0xff) as u8,
    ;
}

/// Rounds `addr` down to the start of its word.
pub fn align_addr_to_word(addr: usize) -> (base: usize)
    ensures
        base == word_base(addr),
        base % 8 == 0,
        base <= addr < base + 8,
{
    let base: usize = addr & !(WORD_BYTES - 1);
    assert(addr & !7usize == addr - addr % 8) by (bit_vector);
    base
}

/// Takes byte `offset` out of `word`.
pub fn extract_byte(word: u64, offset: usize) -> (byte: u8)
    requires
        offset < 8,
    ensures
        byte == word_bytes(word)[offset as int],
{
    let shift: u64 = 8 * (offset as u64);
    let low: u64 = (word >> shift) & 0xff;
    assert((word >> shift) & 0xff < 256) by (bit_vector);
    low as u8
}

/// Puts `val` in place of byte `offset` of `word`. Returns the byte that was
/// there and the new word.
pub fn splice_byte(word: u64, offset: usize, val: u8) -> (r: (u8, u64))
    requires
        offset < 8,
    ensures
        r.0 == word_bytes(word)[offset as int],
        r.1 == with_byte(word, offset as int, val),
        word_bytes(r.1) == word_bytes(word).update(offset as int, val),
{
    let shift: u64 = 8 * (offset as u64);
    let previous = extract_byte(word, offset);
    let masked: u64 = word & !(0xffu64 << shift);
    let updated: u64 = masked | ((val as u64) << shift);
    proof {
        with_byte_replaces_one_byte(word, offset as int, val);
    }
    (previous, updated)
}

/// A memory of aligned words: the word stored at each word address.
pub type WordMemory = Map<usize, u64>;

/// The byte that `mem` holds at `addr`.
pub open spec fn load_byte(mem: WordMemory, addr: usize) -> u8 {
    word_bytes(mem[word_base(addr)])[byte_index(addr)]
}

/// `mem` after the byte at `addr` has been set to `val` by reading the word
/// around it, replacing one byte and writing the word back.
pub open spec fn store_byte(mem: WordMemory, addr: usize, val: u8) -> WordMemory {
    mem.insert(word_base(addr), with_byte(mem[word_base(addr)], byte_index(addr), val))
}

/// A stored byte is the byte that is loaded afterwards.
pub proof fn store_then_load(mem: WordMemory, addr: usize, val: u8)
    ensures
        load_byte(store_byte(mem, addr, val), addr) == val,
{
    with_byte_replaces_one_byte(mem[word_base(addr)], byte_index(addr), val);
}

/// Storing a byte leaves every other byte of the memory as it was.
pub proof fn store_keeps_other_bytes(mem: WordMemory, addr: usize, val: u8, other: usize)
    requires
        other != addr,
    ensures
        load_byte(store_byte(mem, addr, val), other) == load_byte(mem, other),
{
    with_byte_replaces_one_byte(mem[word_base(addr)], byte_index(addr), val);
    if word_base(other) == word_base(addr) {
        assert(byte_index(other) != byte_index(addr));
    }
}

/// Writing a byte and then writing back the byte that was displaced restores
/// the memory exactly: the word around the address holds what it held before,
/// and so does every other word.
pub proof fn store_then_restore(mem: WordMemory, addr: usize, val: u8)
    requires
        mem.dom().contains(word_base(addr)),
    ensures
        store_byte(store_byte(mem, addr, val), addr, load_byte(mem, addr)) == mem,
        load_byte(store_byte(mem, addr, val), addr) == val,
{
    let base = word_base(addr);
    let index = byte_index(addr);
    let before = mem[base];
    let patched = with_byte(before, index, val);
    let restored = with_byte(patched, index, load_byte(mem, addr));
    with_byte_replaces_one_byte(before, index, val);
    with_byte_replaces_one_byte(patched, index, load_byte(mem, addr));
    assert(word_bytes(restored) =~= word_bytes(before));
    bytes_determine_word(restored, before);
    assert(store_byte(store_byte(mem, addr, val), addr, load_byte(mem, addr)) =~= mem);
}

} // verus!

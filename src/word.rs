use vstd::prelude::*;

verus! {

/// Number of bytes in a machine word of the traced process.
pub const WORD_BYTES: usize = 8;

/// The trap opcode (`int3`) planted at a breakpoint.
pub const TRAP_OPCODE: u8 = 0xcc;

/// The byte at position `offset` (0 = least significant) of `word`.
pub open spec fn byte_of(word: u64, offset: nat) -> u8 {
    ((word >> (8 * offset) as u64) & 0xff) as u8
}

/// `word` with the byte at position `offset` replaced by `val`.
pub open spec fn with_byte(word: u64, offset: nat, val: u8) -> u64 {
    (word & !((0xff as u64) << (8 * offset) as u64)) | ((val as u64) << (8 * offset) as u64)
}

/// Rounds `addr` down to the start of the word that holds it.
pub fn align_addr_to_word(addr: usize) -> (r: usize)
    ensures
        r == addr - addr % 8,
        r % 8 == 0,
        r <= addr,
{
    let r = addr & !7usize;
    assert(r == addr - addr % 8 && r % 8 == 0) by (bit_vector)
        requires r == addr & !7usize;
    r
}

/// Planting a byte and then writing back the byte it replaced gives the
/// original word: a trap that is removed leaves no trace in memory.
pub proof fn lemma_restore_round_trip(word: u64, offset: nat, val: u8)
    requires
        offset < 8,
    ensures
        with_byte(with_byte(word, offset, val), offset, byte_of(word, offset)) == word,
        byte_of(with_byte(word, offset, val), offset) == val,
{
    let off = offset as u64;
    let s = (8 * off) as u64;
    assert(((((word & !((0xff as u64) << s)) | ((val as u64) << s)) & !((0xff as u64) << s)) | (((
    (word >> s) & 0xff) as u8) as u64) << s) == word) by (bit_vector)
        requires s == 8 * off, off < 8;
    lemma_byte_of_with_byte(word, off, val);
}

/// Replacing one byte changes that byte to `val` and keeps the seven others.
pub proof fn lemma_byte_of_with_byte(word: u64, off: u64, val: u8)
    requires
        off < 8,
    ensures
        byte_of(with_byte(word, off as nat, val), off as nat) == val,
        forall|j: u64| j < 8 && j != off ==> byte_of(with_byte(word, off as nat, val), j as nat)
            == byte_of(word, j as nat),
{
    let s = (8 * off) as u64;
    assert(((((word & !((0xff as u64) << s)) | ((val as u64) << s)) >> s) & 0xff) == val as u64)
        by (bit_vector)
        requires s == 8 * off, off < 8;
    assert forall|j: u64|
        j < 8 && j != off implies byte_of(with_byte(word, off as nat, val), j as nat)
        == byte_of(word, j as nat) by {
        let t = (8 * j) as u64;
        assert(((((word & !((0xff as u64) << s)) | ((val as u64) << s)) >> t) & 0xff) == ((word
            >> t) & 0xff)) by (bit_vector)
            requires s == 8 * off, t == 8 * j, off < 8, j < 8, j != off;
    }
}

} // verus!

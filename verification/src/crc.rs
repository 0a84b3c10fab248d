//! The 16-bit checksum that guards the file header and the whole file.

use vstd::prelude::*;

verus! {

/// The sixteen-entry table the checksum is driven by, one entry per nibble value.
pub const CRC_TABLE: [u16; 16] = [
    0x0000, 0xCC01, 0xD801, 0x1400, 0xF001, 0x3C00, 0x2800, 0xE401,
    0xA001, 0x6C00, 0x7800, 0xB401, 0x5000, 0x9C01, 0x8801, 0x4400,
];

/// The table entry for the low four bits of `n`.
pub open spec fn crc_table_entry(n: u16) -> u16 {
    CRC_TABLE[(n & 0xF) as int]
}

/// One update of the checksum with the low four bits of `nibble`.
pub open spec fn crc_nibble(crc: u16, nibble: u8) -> u16 {
    ((crc >> 4) & 0x0FFF) ^ crc_table_entry(crc) ^ crc_table_entry(nibble as u16)
}

/// The checksum after one more byte: its low nibble first, then its high nibble.
pub open spec fn crc_byte(crc: u16, byte: u8) -> u16 {
    crc_nibble(crc_nibble(crc, byte), byte >> 4)
}

/// The checksum of `data` continued from `seed`.
pub open spec fn crc16(data: Seq<u8>, seed: u16) -> u16
    decreases data.len(),
{
    if data.len() == 0 {
        seed
    } else {
        crc_byte(crc16(data.drop_last(), seed), data.last())
    }
}

fn table_entry(n: u16) -> (r: u16)
    ensures
        r == crc_table_entry(n),
{
    let i: u16 = n & 0xF;
    assert(i < 16) by (bit_vector)
        requires
            i == n & 0xF,
    ;
    CRC_TABLE[i as usize]
}

/// Computes the checksum of `data`, continuing from `crc_in`.
pub fn fit_crc(data: &[u8], crc_in: u16) -> (crc: u16)
    ensures
        crc == crc16(data@, crc_in),
{
    let mut crc: u16 = crc_in;
    let mut i: usize = 0;
    while i < data.len()
        invariant
            i <= data.len(),
            crc == crc16(data@.take(i as int), crc_in),
        decreases data.len() - i,
    {
        let byte: u8 = data[i];
        proof {
            assert(data@.take(i + 1).drop_last() =~= data@.take(i as int));
        }
        let low: u16 = ((crc >> 4) & 0x0FFF) ^ table_entry(crc) ^ table_entry(byte as u16);
        crc = ((low >> 4) & 0x0FFF) ^ table_entry(low) ^ table_entry((byte >> 4) as u16);
        i += 1;
    }
    proof {
        assert(data@.take(data.len() as int) =~= data@);
    }
    crc
}

/// Computes the checksum of an owned buffer, continuing from `crc_in`.
pub fn fit_crc_vec(data: Vec<u8>, crc_in: u16) -> (crc: u16)
    ensures
        crc == crc16(data@, crc_in),
{
    fit_crc(data.as_slice(), crc_in)
}

/// The checksum of a concatenation is the checksum of the second part, continued from
/// the checksum of the first part.
pub proof fn lemma_crc16_concat(a: Seq<u8>, b: Seq<u8>, seed: u16)
    ensures
        crc16(a + b, seed) == crc16(b, crc16(a, seed)),
    decreases b.len(),
{
    if b.len() == 0 {
        assert(a + b =~= a);
    } else {
        lemma_crc16_concat(a, b.drop_last(), seed);
        assert((a + b).drop_last() =~= a + b.drop_last());
        assert((a + b).last() == b.last());
    }
}

} // verus!

//! CRC-16/USB — the checksum ("token") used inside the OBSBOT V3 vendor frame.
//!
//! Parameters: poly 0xA001 (reflected 0x8005), init 0xFFFF, refin/refout true,
//! xorout 0xFFFF.

use vstd::prelude::*;

verus! {

/// One bit of the reflected CRC-16 register update (polynomial 0xA001).
pub open spec fn crc_shift(c: u16) -> u16 {
    if c & 1 != 0 {
        (c >> 1) ^ 0xA001
    } else {
        c >> 1
    }
}

/// `n` bit updates of the register.
pub open spec fn crc_shift_n(c: u16, n: nat) -> u16
    decreases n,
{
    if n == 0 {
        c
    } else {
        crc_shift(crc_shift_n(c, (n - 1) as nat))
    }
}

/// Feed one byte into the register.
pub open spec fn crc_step(c: u16, b: u8) -> u16 {
    crc_shift_n(c ^ (b as u16), 8)
}

/// The register after feeding all of `data`, starting from 0xFFFF.
pub open spec fn crc_register(data: Seq<u8>) -> u16
    decreases data.len(),
{
    if data.len() == 0 {
        0xFFFF
    } else {
        crc_step(crc_register(data.drop_last()), data.last())
    }
}

/// CRC-16/USB of `data`: the final register, complemented.
pub open spec fn crc16_usb_spec(data: Seq<u8>) -> u16 {
    crc_register(data) ^ 0xFFFF
}

/// Compute CRC-16/USB over `data`.
pub fn crc16_usb(data: &[u8]) -> (crc: u16)
    ensures
        crc == crc16_usb_spec(data@),
{
    let mut crc: u16 = 0xFFFF;
    let mut i: usize = 0;
    while i < data.len()
        invariant
            i <= data.len(),
            crc == crc_register(data@.take(i as int)),
        decreases data.len() - i,
    {
        let b = data[i];
        let ghost start: u16 = crc ^ (b as u16);
        crc = crc ^ (b as u16);
        let mut k: u32 = 0;
        while k < 8
            invariant
                k <= 8,
                crc == crc_shift_n(start, k as nat),
            decreases 8 - k,
        {
            if crc & 1 != 0 {
                crc = (crc >> 1) ^ 0xA001;
            } else {
                crc = crc >> 1;
            }
            k = k + 1;
        }
        assert(data@.take(i + 1).drop_last() =~= data@.take(i as int));
        i = i + 1;
    }
    assert(data@.take(data.len() as int) =~= data@);
    crc ^ 0xFFFF
}

} // verus!

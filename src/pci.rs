//! PCI configuration-space addressing through the legacy 0xCF8/0xCFC ports.
//! The port accesses themselves are the caller's part.
use vstd::prelude::*;

verus! {

/// Port that selects the configuration address.
pub const CONFIG_ADDRESS_PORT: u16 = 0xcf8;

/// Port that reads or writes the selected configuration dword.
pub const CONFIG_DATA_PORT: u16 = 0xcfc;

/// The dword written to the address port to read `offset` of function
/// `func` of device `slot` on `bus`.
pub open spec fn config_address_spec(bus: u8, slot: u8, func: u8, offset: u8) -> u32 {
    let device = ((bus as u32) << 16u32) | ((slot as u32) << 11u32);
    if device > 0 {
        device
    } else {
        ((func as u32) << 8u32) | ((offset & 0xfc) as u32) | 0x8000_0000u32
    }
}

/// The 16-bit word at `offset` inside the dword read from the data port.
pub open spec fn config_word_spec(data: u32, offset: u8) -> u16 {
    #[verifier::truncate] (((data >> (((offset & 2) as u32) << 3u32)) & 0xffff) as u16)
}

/// The dword to write to the address port before reading configuration
/// word `offset`.
pub fn config_address(bus: u8, slot: u8, func: u8, offset: u8) -> (r: u32)
    ensures
        r == config_address_spec(bus, slot, func, offset),
{
    let lbus: u32 = bus as u32;
    let lslot: u32 = slot as u32;
    let lfunc: u32 = func as u32;
    let device: u32 = (lbus << 16u32) | (lslot << 11u32);
    if device > 0 {
        device
    } else {
        (lfunc << 8u32) | ((offset & 0xfc) as u32) | 0x8000_0000u32
    }
}

/// The configuration word at `offset` within the dword `data` read back.
pub fn config_word(data: u32, offset: u8) -> (r: u16)
    ensures
        r == config_word_spec(data, offset),
        offset & 2 == 0 ==> r == #[verifier::truncate] ((data & 0xffff) as u16),
{
    let shift: u32 = ((offset & 2) as u32) << 3u32;
    proof {
        assert(offset & 2 == 0 ==> ((offset & 2) as u32) << 3u32 == 0) by (bit_vector);
        assert(((offset & 2) as u32) << 3u32 <= 16) by (bit_vector);
        assert(data >> 0u32 == data) by (bit_vector);
    }
    #[verifier::truncate] (((data >> shift) & 0xffff) as u16)
}

/// A read of the vendor id that returns all ones means no device.
pub fn vendor_present(vendor: u16) -> (r: bool)
    ensures
        r == (vendor != 0xffff),
{
    vendor != 0xffff
}

} // verus!

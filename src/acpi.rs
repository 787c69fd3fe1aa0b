//! Recognising the ACPI root system description pointer in a memory image.
use vstd::prelude::*;

verus! {

/// Length of the ACPI 1.0 part of the table.
pub const RSDP_V1_LEN: usize = 20;

/// Length of the whole table for ACPI 2.0 and later.
pub const XSDP_LEN: usize = 36;

/// Offset of the revision byte.
pub const REVISION_OFFSET: usize = 15;

/// The eight signature bytes "RSD PTR ".
pub open spec fn signature() -> Seq<u8> {
    seq![0x52u8, 0x53u8, 0x44u8, 0x20u8, 0x50u8, 0x54u8, 0x52u8, 0x20u8]
}

/// Sum of the bytes `bs[from..to)`.
pub open spec fn byte_sum(bs: Seq<u8>, from: int, to: int) -> int
    decreases to - from,
{
    if to <= from {
        0
    } else {
        byte_sum(bs, from, to - 1) + bs[to - 1]
    }
}

/// The table at `at` has valid checksums: its first 20 bytes sum to zero
/// modulo 256, and for revision 2 or later so do all 36.
pub open spec fn checksums_valid(bs: Seq<u8>, at: int) -> bool {
    &&& byte_sum(bs, at, at + 20) % 256 == 0
    &&& (bs[at + 15] < 2 || byte_sum(bs, at, at + 36) % 256 == 0)
}

/// `bs` holds the signature at `at`.
pub open spec fn signature_at(bs: Seq<u8>, at: int) -> bool {
    bs.subrange(at, at + 8) == signature()
}

/// A whole table fits at `at` and it has the signature and valid checksums.
pub open spec fn table_at(bs: Seq<u8>, at: int) -> bool {
    0 <= at && at + 36 <= bs.len() && signature_at(bs, at) && checksums_valid(bs, at)
}

/// Sum of `bs[at..at + n)` modulo 256.
fn checksum(bs: &[u8], at: usize, n: usize) -> (r: u8)
    requires
        at + n <= bs.len(),
    ensures
        r == byte_sum(bs@, at as int, at + n) % 256,
{
    let mut sum: u8 = 0;
    let mut i: usize = 0;
    while i < n
        invariant
            at + n <= bs.len(),
            i <= n,
            sum == byte_sum(bs@, at as int, at + i) % 256,
        decreases n - i,
    {
        sum = sum.wrapping_add(bs[at + i]);
        i = i + 1;
    }
    sum
}

/// Whether the table starting at `at` has valid checksums.
pub fn check_xsdp(bs: &[u8], at: usize) -> (r: bool)
    requires
        at + XSDP_LEN <= bs.len(),
    ensures
        r == checksums_valid(bs@, at as int),
{
    if checksum(bs, at, RSDP_V1_LEN) != 0 {
        return false;
    }
    if bs[at + REVISION_OFFSET] < 2 {
        return true;
    }
    checksum(bs, at, XSDP_LEN) == 0
}

fn has_signature(bs: &[u8], at: usize) -> (r: bool)
    requires
        at + 8 <= bs.len(),
    ensures
        r == signature_at(bs@, at as int),
{
    let sig: [u8; 8] = [0x52, 0x53, 0x44, 0x20, 0x50, 0x54, 0x52, 0x20];
    assert(sig@ =~= signature());
    let mut i: usize = 0;
    while i < 8
        invariant
            at + 8 <= bs.len(),
            i <= 8,
            sig@ == signature(),
            forall|j: int| 0 <= j < i ==> bs@[at + j] == signature()[j],
        decreases 8 - i,
    {
        if bs[at + i] != sig[i] {
            assert(bs@.subrange(at as int, at + 8)[i as int] != signature()[i as int]);
            return false;
        }
        i = i + 1;
    }
    assert(bs@.subrange(at as int, at + 8) =~= signature());
    true
}

/// Offset of the first table in `mem` that has the signature and valid
/// checksums, if any.
pub fn find_xsdp(mem: &[u8]) -> (r: Option<usize>)
    ensures
        r matches Some(at) ==> table_at(mem@, at as int),
        r matches Some(at) ==> forall|j: int| 0 <= j < at ==> !table_at(mem@, j),
        r is None ==> forall|j: int| 0 <= j < mem@.len() ==> !table_at(mem@, j),
{
    if mem.len() < XSDP_LEN {
        return None;
    }
    let last = mem.len() - XSDP_LEN;
    let mut at: usize = 0;
    while at <= last
        invariant
            last + XSDP_LEN == mem.len(),
            at <= last + 1,
            forall|j: int| 0 <= j < at ==> !table_at(mem@, j),
        decreases last + 1 - at,
    {
        if has_signature(mem, at) && check_xsdp(mem, at) {
            return Some(at);
        }
        at = at + 1;
    }
    None
}

/// The root system description pointer table, field by field.
#[allow(non_camel_case_types)]
#[derive(Clone, Copy, Debug)]
pub struct xsdp {
    pub signature: [u8; 8],
    pub checksum: u8,
    pub oemiud: [u8; 6],
    pub revision: u8,
    pub rsdt_address: u32,
    pub length: u32,
    pub xsdt_address: u64,
    pub checksum2: u8,
    pub _reserved: [u8; 3],
}

/// The little-endian number in the `n` bytes `bs[at..at + n)`.
pub open spec fn le_value(bs: Seq<u8>, at: int, n: nat) -> int
    decreases n,
{
    if n == 0 {
        0
    } else {
        bs[at] + 256 * le_value(bs, at + 1, (n - 1) as nat)
    }
}

proof fn lemma_le_value_bound(bs: Seq<u8>, at: int, n: nat)
    ensures
        0 <= le_value(bs, at, n),
        n <= 8 ==> le_value(bs, at, n) < pow256(n),
    decreases n,
{
    if n > 0 {
        lemma_le_value_bound(bs, at + 1, (n - 1) as nat);
    }
}

/// 256 to the power `n`.
pub open spec fn pow256(n: nat) -> int
    decreases n,
{
    if n == 0 {
        1
    } else {
        256 * pow256((n - 1) as nat)
    }
}

fn read_le(bs: &[u8], at: usize, n: usize) -> (r: u64)
    requires
        n <= 8,
        at + n <= bs.len(),
    ensures
        r == le_value(bs@, at as int, n as nat),
{
    let mut value: u64 = 0;
    let mut k: usize = n;
    while k > 0
        invariant
            at + n <= bs.len(),
            n <= 8,
            k <= n,
            value == le_value(bs@, at + k, (n - k) as nat),
        decreases k,
    {
        proof {
            lemma_le_value_bound(bs@, at + k, (n - k) as nat);
            reveal_with_fuel(pow256, 9);
            assert(value < pow256((n - k) as nat));
            assert(256 * value + 255 <= u64::MAX) by (nonlinear_arith)
                requires
                    value < pow256((n - k) as nat),
                    (n - k) < 8,
                    pow256((n - k) as nat) <= 0x100_0000_0000_0000,
            ;
        }
        k = k - 1;
        value = bs[at + k] as u64 + 256 * value;
    }
    value
}

/// Reads the table that starts at `at`.
pub fn read_xsdp(bs: &[u8], at: usize) -> (r: xsdp)
    requires
        at + XSDP_LEN <= bs.len(),
    ensures
        r.signature@ == bs@.subrange(at as int, at + 8),
        r.checksum == bs@[at + 8],
        r.oemiud@ == bs@.subrange(at + 9, at + 15),
        r.revision == bs@[at + 15],
        r.rsdt_address == le_value(bs@, at + 16, 4),
        r.length == le_value(bs@, at + 20, 4),
        r.xsdt_address == le_value(bs@, at + 24, 8),
        r.checksum2 == bs@[at + 32],
        r._reserved@ == bs@.subrange(at + 33, at + 36),
{
    let signature: [u8; 8] = [
        bs[at],
        bs[at + 1],
        bs[at + 2],
        bs[at + 3],
        bs[at + 4],
        bs[at + 5],
        bs[at + 6],
        bs[at + 7],
    ];
    let oemiud: [u8; 6] = [bs[at + 9], bs[at + 10], bs[at + 11], bs[at + 12], bs[at + 13], bs[at + 14]];
    let reserved: [u8; 3] = [bs[at + 33], bs[at + 34], bs[at + 35]];
    let rsdt = read_le(bs, at + 16, 4);
    let length = read_le(bs, at + 20, 4);
    proof {
        lemma_le_value_bound(bs@, at + 16, 4);
        lemma_le_value_bound(bs@, at + 20, 4);
        reveal_with_fuel(pow256, 5);
    }
    let r = xsdp {
        signature,
        checksum: bs[at + 8],
        oemiud,
        revision: bs[at + 15],
        rsdt_address: rsdt as u32,
        length: length as u32,
        xsdt_address: read_le(bs, at + 24, 8),
        checksum2: bs[at + 32],
        _reserved: reserved,
    };
    assert(r.signature@ =~= bs@.subrange(at as int, at + 8));
    assert(r.oemiud@ =~= bs@.subrange(at + 9, at + 15));
    assert(r._reserved@ =~= bs@.subrange(at + 33, at + 36));
    r
}

} // verus!

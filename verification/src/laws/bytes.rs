//! Bounded access to little-endian bytes.

use crate::error::{ErrorView, Result};
use crate::pe::layout::{
    header_read_size_of, le16, le16_bytes, le32, le32_bytes, le64, le64_bytes, machine_gate_of,
    nt_offset_of, range_fault, spliced, u16_at, u32_at, Record,
};
use crate::pe::view::DataDirectory;
use vstd::prelude::*;

verus! {

/// The number that the two bytes of `b` at `o` make, lowest first.
pub open spec fn word(b: Seq<u8>, o: int) -> int {
    b[o] + 256 * b[o + 1]
}

/// The number that the four bytes of `b` at `o` make, lowest first.
pub open spec fn dword(b: Seq<u8>, o: int) -> int {
    b[o] + 256 * b[o + 1] + 65536 * b[o + 2] + 16777216 * b[o + 3]
}

/// Fields are read as the little-endian numbers that their bytes make.
pub proof fn fields_are_little_endian(b: Seq<u8>, o: int)
    ensures
        le16(b, o) == word(b, o),
        le32(b, o) == dword(b, o),
        le64(b, o) == dword(b, o) + 0x1_0000_0000 * dword(b, o + 4),
{
}

/// Values are written as the little-endian bytes that make them.
pub proof fn values_are_little_endian(v: u16, w: u32, x: u64)
    ensures
        le16_bytes(v).len() == 2,
        word(le16_bytes(v), 0) == v,
        le32_bytes(w).len() == 4,
        dword(le32_bytes(w), 0) == w,
        le64_bytes(x).len() == 8,
        dword(le64_bytes(x), 0) + 0x1_0000_0000 * dword(le64_bytes(x), 4) == x,
{
    lemma_dword(w);
    let low: u32 = (x % 0x1_0000_0000) as u32;
    let high: u32 = (x / 0x1_0000_0000) as u32;
    lemma_dword(low);
    lemma_dword(high);
    let b = le64_bytes(x);
    assert(b[0] == le32_bytes(low)[0] && b[1] == le32_bytes(low)[1] && b[2] == le32_bytes(low)[2]
        && b[3] == le32_bytes(low)[3]);
    assert(b[4] == le32_bytes(high)[0] && b[5] == le32_bytes(high)[1] && b[6] == le32_bytes(
        high,
    )[2] && b[7] == le32_bytes(high)[3]);
}

proof fn lemma_dword(v: u32)
    ensures
        le32_bytes(v).len() == 4,
        dword(le32_bytes(v), 0) == v,
{
    assert(v / 0x100 / 0x100 == v / 0x1_0000);
    assert(v / 0x1_0000 / 0x100 == v / 0x100_0000);
    assert(v == v % 0x100 + (v / 0x100) * 0x100);
    assert(v / 0x100 == v / 0x100 % 0x100 + (v / 0x1_0000) * 0x100);
    assert(v / 0x1_0000 == v / 0x1_0000 % 0x100 + (v / 0x100_0000) * 0x100);
}

/// A range can be reached exactly when it lies within the bytes.
pub proof fn ranges_lie_within(len: nat, o: int, n: int)
    requires
        len <= usize::MAX,
        0 <= o,
        0 <= n,
    ensures
        range_fault(len, o, n) is None <==> o + n <= len,
{
}

/// Replacing bytes changes those and no others.
pub proof fn splices_change_their_range(b: Seq<u8>, o: int, v: Seq<u8>)
    requires
        0 <= o,
        o + v.len() <= b.len(),
    ensures
        spliced(b, o, v).len() == b.len(),
        forall|i: int|
            0 <= i < b.len() ==> #[trigger] spliced(b, o, v)[i] == if o <= i < o + v.len() {
                v[i - o]
            } else {
                b[i]
            },
{
}

/// PE headers are found exactly behind a whole DOS header that begins with `MZ`
/// and points behind itself and not too far: at the number in its last field.
pub proof fn pe_headers_are_found(b: Seq<u8>)
    ensures
        nt_offset_of(b) is Ok <==> b.len() >= 64 && b[0] == 0x4d && b[1] == 0x5a && 64 <= dword(
            b,
            60,
        ) <= 0x10_0000 - 264,
        nt_offset_of(b) matches Ok(nt) ==> nt == dword(b, 60),
{
    fields_are_little_endian(b, 0);
    fields_are_little_endian(b, 60);
    if b.len() >= 64 {
        assert(b[0] <= 255 && b[1] <= 255);
    }
}

/// The header region that is read holds the declared headers and the section
/// table, ends with one of them, and has at most a mebibyte.
pub proof fn header_reads_hold_headers_and_table(b: Seq<u8>)
    requires
        nt_offset_of(b) is Ok,
    ensures
        ({
            let nt = dword(b, 60);
            let table_end = nt + 24 + word(b, nt + 20) + 40 * word(b, nt + 6);
            let declared = dword(b, nt + 84);
            &&& header_read_size_of(b) is Ok <==> nt + 88 <= b.len() && table_end <= 0x10_0000
                && declared <= 0x10_0000
            &&& header_read_size_of(b) matches Ok(size) ==> {
                &&& table_end <= size
                &&& declared <= size
                &&& size == table_end || size == declared
            }
        }),
{
    pe_headers_are_found(b);
    let nt = dword(b, 60);
    fields_are_little_endian(b, nt + 20);
    fields_are_little_endian(b, nt + 6);
    fields_are_little_endian(b, nt + 84);
}

/// Only AMD64 passes the machine gate. A 32-bit x86 image is a mismatch of
/// bitness, and any other machine is named.
pub proof fn only_amd64_passes(machine: u16)
    ensures
        machine_gate_of(machine) is Ok <==> machine == 0x8664,
        machine == 0x14c ==> machine_gate_of(machine) == Err::<(), ErrorView>(
            ErrorView::BitnessMismatch { injector_64: true, target_64: false },
        ),
        machine != 0x8664 && machine != 0x14c ==> machine_gate_of(machine) == Err::<(), ErrorView>(
            ErrorView::UnsupportedMachine(machine),
        ),
{
}

/// Fields that lie within the bytes are read, and no others.
pub proof fn only_whole_fields_are_read(
    b: &[u8],
    o: usize,
    narrow: Result<u16>,
    wide: Result<u32>,
)
    requires
        b@.len() <= usize::MAX,
        call_ensures(u16_at, (b, o), narrow),
        call_ensures(u32_at, (b, o), wide),
    ensures
        narrow is Ok <==> o + 2 <= b@.len(),
        narrow matches Ok(v) ==> v == word(b@, o as int),
        wide is Ok <==> o + 4 <= b@.len(),
        wide matches Ok(v) ==> v == dword(b@, o as int),
{
    fields_are_little_endian(b@, o as int);
}

/// A data directory is its address and then its size.
pub proof fn directories_are_two_fields(d: DataDirectory)
    ensures
        d.spec_encode().len() == 8,
        dword(d.spec_encode(), 0) == d.rva,
        dword(d.spec_encode(), 4) == d.size,
{
    let (r, s) = (le32_bytes(d.rva), le32_bytes(d.size));
    lemma_dword(d.rva);
    lemma_dword(d.size);
    assert(d.spec_encode() =~= r + s);
}

} // verus!

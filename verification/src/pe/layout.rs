//! Checked typed access and the offsets of the PE headers.
//!
//! PE data is little-endian.

use crate::error::{outcome, pe, Error, ErrorView, Result};
use vstd::prelude::*;

verus! {

pub const MAX_HEADERS: usize = 1048576;

pub const DOS_HEADER_SIZE: usize = 64;

/// Offset of the PE header offset in the DOS header.
pub const LFANEW_OFFSET: usize = 60;

/// Offset of the file header behind the PE signature.
pub const FILE_HEADER_OFFSET: usize = 4;

pub const FILE_HEADER_SIZE: usize = 20;

/// Offset of the optional header behind the PE signature.
pub const NT_PREFIX_SIZE: usize = 24;

pub const DIRECTORY_COUNT: usize = 16;

pub const DIRECTORY_SIZE: usize = 8;

/// Bytes of all sixteen directories.
pub const DIRECTORIES_SIZE: usize = 128;

/// The fixed part of the PE32 optional header, without directories.
pub const OPTIONAL32_FIXED: usize = 96;

/// The fixed part of the PE32+ optional header, without directories.
pub const OPTIONAL64_FIXED: usize = 112;

pub const OPTIONAL_HEADER64_SIZE: usize = 240;

pub const SECTION_HEADER_SIZE: usize = 40;

/// Offset of `SizeOfHeaders` in either optional header.
pub const SIZE_OF_HEADERS_OFFSET: usize = 60;

/// Offset of `CheckSum` in either optional header.
pub const CHECKSUM_OFFSET: usize = 64;

/// The header bytes through `SizeOfHeaders`, counted from the PE signature.
/// These fields have the same offsets in PE32 and PE32+.
pub const HEADER_PREFIX_SIZE: usize = 88;

/// The largest PE header offset that leaves room for the headers.
pub const MAX_NT_OFFSET: usize = 1048312;

pub const DOS_SIGNATURE: u16 = 0x5a4d;

pub const NT_SIGNATURE: u32 = 0x4550;

pub const MACHINE_AMD64: u16 = 0x8664;

pub const MACHINE_I386: u16 = 0x14c;

pub const MAGIC_PE32: u16 = 0x10b;

pub const MAGIC_PE64: u16 = 0x20b;

/// The little-endian 16-bit value at `o`.
pub open spec fn le16(b: Seq<u8>, o: int) -> u16 {
    (b[o] + b[o + 1] * 0x100) as u16
}

/// The little-endian 32-bit value at `o`.
pub open spec fn le32(b: Seq<u8>, o: int) -> u32 {
    (b[o] + b[o + 1] * 0x100 + b[o + 2] * 0x1_0000 + b[o + 3] * 0x100_0000) as u32
}

/// The little-endian 64-bit value at `o`.
pub open spec fn le64(b: Seq<u8>, o: int) -> u64 {
    (le32(b, o) + le32(b, o + 4) * 0x1_0000_0000) as u64
}

/// The two little-endian bytes of `v`.
pub open spec fn le16_bytes(v: u16) -> Seq<u8> {
    seq![(v % 0x100) as u8, (v / 0x100) as u8]
}

/// The four little-endian bytes of `v`.
pub open spec fn le32_bytes(v: u32) -> Seq<u8> {
    seq![
        (v % 0x100) as u8,
        (v / 0x100 % 0x100) as u8,
        (v / 0x1_0000 % 0x100) as u8,
        (v / 0x100_0000) as u8,
    ]
}

/// The eight little-endian bytes of `v`.
pub open spec fn le64_bytes(v: u64) -> Seq<u8> {
    le32_bytes((v % 0x1_0000_0000) as u32) + le32_bytes((v / 0x1_0000_0000) as u32)
}

/// `dataview::DataView::read` at offset zero reads the bytes of a `u16` in
/// native order; `u16::from_le` makes that little-endian.
#[verifier::external_body]
fn view_u16(b: &[u8]) -> (v: u16)
    requires
        b@.len() == 2,
    ensures
        v == le16(b@, 0),
{
    u16::from_le(dataview::DataView::from(b).read::<u16>(0))
}

/// `dataview::DataView::read` at offset zero reads the bytes of a `u32` in
/// native order; `u32::from_le` makes that little-endian.
#[verifier::external_body]
fn view_u32(b: &[u8]) -> (v: u32)
    requires
        b@.len() == 4,
    ensures
        v == le32(b@, 0),
{
    u32::from_le(dataview::DataView::from(b).read::<u32>(0))
}

/// `dataview::bytes` gives the bytes of a `u16` in native order; `u16::to_le`
/// makes that little-endian.
#[verifier::external_body]
fn bytes_u16(v: u16) -> (b: Vec<u8>)
    ensures
        b@ == le16_bytes(v),
{
    dataview::bytes(&v.to_le()).to_vec()
}

/// `dataview::bytes` gives the bytes of a `u32` in native order; `u32::to_le`
/// makes that little-endian.
#[verifier::external_body]
fn bytes_u32(v: u32) -> (b: Vec<u8>)
    ensures
        b@ == le32_bytes(v),
{
    dataview::bytes(&v.to_le()).to_vec()
}

proof fn lemma_le32_of_bytes(v: u32)
    ensures
        le32(le32_bytes(v), 0) == v,
{
    let b = le32_bytes(v);
    assert(v / 0x100 / 0x100 == v / 0x1_0000);
    assert(v / 0x1_0000 / 0x100 == v / 0x100_0000);
    assert(v == v % 0x100 + (v / 0x100) * 0x100);
    assert(v / 0x100 == v / 0x100 % 0x100 + (v / 0x1_0000) * 0x100);
    assert(v / 0x1_0000 == v / 0x1_0000 % 0x100 + (v / 0x100_0000) * 0x100);
    assert(b[0] + b[1] * 0x100 + b[2] * 0x1_0000 + b[3] * 0x100_0000 == v);
}

proof fn lemma_bytes_of_le32(b: Seq<u8>, o: int)
    requires
        0 <= o,
        o + 4 <= b.len(),
    ensures
        le32_bytes(le32(b, o)) == b.subrange(o, o + 4),
{
    let v: u32 = le32(b, o);
    assert(v == b[o] + b[o + 1] * 0x100 + b[o + 2] * 0x1_0000 + b[o + 3] * 0x100_0000);
    assert(v / 0x100 == b[o + 1] + b[o + 2] * 0x100 + b[o + 3] * 0x1_0000);
    assert(v / 0x1_0000 == b[o + 2] + b[o + 3] * 0x100);
    assert(v / 0x100_0000 == b[o + 3]);
    assert(le32_bytes(v) =~= b.subrange(o, o + 4));
}

/// A value with a fixed little-endian byte form.
pub trait Record: Sized {
    spec fn spec_size() -> nat;

    spec fn spec_encode(self) -> Seq<u8>;

    spec fn spec_decode(b: Seq<u8>) -> Self;

    /// Every value has as many bytes as the type says.
    proof fn encode_has_size(v: Self)
        ensures
            v.spec_encode().len() == Self::spec_size(),
    ;

    /// Decoding undoes encoding.
    proof fn decode_undoes_encode(v: Self)
        ensures
            Self::spec_decode(v.spec_encode()) == v,
    ;

    /// Encoding undoes decoding.
    proof fn encode_undoes_decode(b: Seq<u8>)
        requires
            b.len() == Self::spec_size(),
        ensures
            Self::spec_decode(b).spec_encode() == b,
    ;

    fn size() -> (n: usize)
        ensures
            n == Self::spec_size(),
    ;

    fn decode(b: &[u8]) -> (v: Self)
        requires
            b@.len() == Self::spec_size(),
        ensures
            v == Self::spec_decode(b@),
    ;

    fn encode(&self) -> (b: Vec<u8>)
        ensures
            b@ == self.spec_encode(),
    ;
}

impl Record for u16 {
    open spec fn spec_size() -> nat {
        2
    }

    open spec fn spec_encode(self) -> Seq<u8> {
        le16_bytes(self)
    }

    open spec fn spec_decode(b: Seq<u8>) -> u16 {
        le16(b, 0)
    }

    proof fn encode_has_size(v: u16) {
    }

    proof fn decode_undoes_encode(v: u16) {
    }

    proof fn encode_undoes_decode(b: Seq<u8>) {
        assert(le16_bytes(le16(b, 0)) =~= b);
    }

    fn size() -> usize {
        2
    }

    fn decode(b: &[u8]) -> u16 {
        view_u16(b)
    }

    fn encode(&self) -> Vec<u8> {
        bytes_u16(*self)
    }
}

impl Record for u32 {
    open spec fn spec_size() -> nat {
        4
    }

    open spec fn spec_encode(self) -> Seq<u8> {
        le32_bytes(self)
    }

    open spec fn spec_decode(b: Seq<u8>) -> u32 {
        le32(b, 0)
    }

    proof fn encode_has_size(v: u32) {
    }

    proof fn decode_undoes_encode(v: u32) {
        lemma_le32_of_bytes(v);
    }

    proof fn encode_undoes_decode(b: Seq<u8>) {
        lemma_bytes_of_le32(b, 0);
        assert(b.subrange(0, 4) =~= b);
    }

    fn size() -> usize {
        4
    }

    fn decode(b: &[u8]) -> u32 {
        view_u32(b)
    }

    fn encode(&self) -> Vec<u8> {
        bytes_u32(*self)
    }
}

impl Record for u64 {
    open spec fn spec_size() -> nat {
        8
    }

    open spec fn spec_encode(self) -> Seq<u8> {
        le64_bytes(self)
    }

    open spec fn spec_decode(b: Seq<u8>) -> u64 {
        le64(b, 0)
    }

    proof fn encode_has_size(v: u64) {
    }

    proof fn decode_undoes_encode(v: u64) {
        let low: u32 = (v % 0x1_0000_0000) as u32;
        let high: u32 = (v / 0x1_0000_0000) as u32;
        let b = le64_bytes(v);
        lemma_le32_of_bytes(low);
        lemma_le32_of_bytes(high);
        assert(le32(b, 0) == le32(le32_bytes(low), 0));
        assert(le32(b, 4) == le32(le32_bytes(high), 0));
    }

    proof fn encode_undoes_decode(b: Seq<u8>) {
        let low: u32 = le32(b, 0);
        let high: u32 = le32(b, 4);
        let v: u64 = le64(b, 0);
        lemma_bytes_of_le32(b, 0);
        lemma_bytes_of_le32(b, 4);
        assert(v == low + high * 0x1_0000_0000);
        assert(v % 0x1_0000_0000 == low);
        assert(v / 0x1_0000_0000 == high);
        assert(b.subrange(0, 4) + b.subrange(4, 8) =~= b);
    }

    fn size() -> usize {
        8
    }

    fn decode(b: &[u8]) -> u64 {
        let low: u32 = view_u32(&b[0..4]);
        let high: u32 = view_u32(&b[4..8]);
        low as u64 + high as u64 * 0x1_0000_0000
    }

    fn encode(&self) -> Vec<u8> {
        let mut b = bytes_u32((*self % 0x1_0000_0000) as u32);
        let mut high = bytes_u32((*self / 0x1_0000_0000) as u32);
        b.append(&mut high);
        b
    }
}

/// `b` with the bytes from `o` on replaced by `v`.
pub open spec fn spliced(b: Seq<u8>, o: int, v: Seq<u8>) -> Seq<u8> {
    b.take(o) + v + b.skip(o + v.len())
}

/// The fault of reaching for `n` bytes at `o` in `len` bytes.
pub open spec fn range_fault(len: nat, o: int, n: int) -> Option<ErrorView> {
    if o + n > usize::MAX {
        Some(ErrorView::Pe("offset overflow"@))
    } else if o + n > len {
        Some(ErrorView::Pe("truncated data"@))
    } else {
        None
    }
}

/// The `n` bytes of `b` at `o`.
pub fn bytes(b: &[u8], o: usize, n: usize) -> (result: Result<&[u8]>)
    ensures
        match range_fault(b@.len(), o as int, n as int) {
            Some(fault) => result matches Err(error) && error@ == fault,
            None => result matches Ok(range) && range@ == b@.subrange(o as int, o + n),
        },
{
    match o.checked_add(n) {
        None => Err(pe("offset overflow")),
        Some(end) => if end > b.len() {
            Err(pe("truncated data"))
        } else {
            Ok(&b[o..end])
        },
    }
}

/// Read a record at `offset`, which needs no alignment.
pub fn read<T: Record>(b: &[u8], offset: usize) -> (result: Result<T>)
    ensures
        match range_fault(b@.len(), offset as int, T::spec_size() as int) {
            Some(fault) => result matches Err(error) && error@ == fault,
            None => result matches Ok(v) && v == T::spec_decode(
                b@.subrange(offset as int, offset + T::spec_size()),
            ),
        },
{
    match bytes(b, offset, T::size()) {
        Err(error) => Err(error),
        Ok(range) => Ok(T::decode(range)),
    }
}

/// Write a record at `offset`, which needs no alignment. A refused write
/// changes nothing.
pub fn write<T: Record>(b: &mut [u8], offset: usize, value: &T) -> (result: Result<()>)
    ensures
        match range_fault(old(b)@.len(), offset as int, T::spec_size() as int) {
            Some(fault) => (result matches Err(error) && error@ == fault) && final(b)@ == old(b)@,
            None => result is Ok && final(b)@ == spliced(
                old(b)@,
                offset as int,
                value.spec_encode(),
            ),
        },
{
    let n: usize = T::size();
    match offset.checked_add(n) {
        None => return Err(pe("offset overflow")),
        Some(end) => {
            if end > b.len() {
                return Err(pe("truncated data"));
            }
        },
    }
    let encoded = value.encode();
    proof {
        T::encode_has_size(*value);
    }
    put_bytes(b, offset, &encoded);
    Ok(())
}

/// What is written at an offset is read back there, and every other byte
/// stays as it was.
pub proof fn read_gives_back_write<T: Record>(b: Seq<u8>, offset: int, value: T)
    requires
        0 <= offset,
        offset + T::spec_size() <= b.len(),
    ensures
        spliced(b, offset, value.spec_encode()).len() == b.len(),
        T::spec_decode(
            spliced(b, offset, value.spec_encode()).subrange(offset, offset + T::spec_size()),
        ) == value,
        forall|i: int|
            0 <= i < b.len() && !(offset <= i < offset + T::spec_size())
                ==> #[trigger] spliced(b, offset, value.spec_encode())[i] == b[i],
{
    T::encode_has_size(value);
    T::decode_undoes_encode(value);
    assert(spliced(b, offset, value.spec_encode()).subrange(offset, offset + T::spec_size())
        =~= value.spec_encode());
}

/// The 16-bit value at `o`.
pub fn u16_at(b: &[u8], o: usize) -> (result: Result<u16>)
    ensures
        match range_fault(b@.len(), o as int, 2) {
            Some(fault) => result matches Err(error) && error@ == fault,
            None => result matches Ok(v) && v == le16(b@, o as int),
        },
{
    read::<u16>(b, o)
}

/// The 32-bit value at `o`.
pub fn u32_at(b: &[u8], o: usize) -> (result: Result<u32>)
    ensures
        match range_fault(b@.len(), o as int, 4) {
            Some(fault) => result matches Err(error) && error@ == fault,
            None => result matches Ok(v) && v == le32(b@, o as int),
        },
{
    read::<u32>(b, o)
}

/// Where the PE headers of `b` begin, or why they cannot be found.
pub open spec fn nt_offset_of(b: Seq<u8>) -> std::result::Result<usize, ErrorView> {
    if b.len() < DOS_HEADER_SIZE {
        Err(ErrorView::Pe("truncated data"@))
    } else if le16(b, 0) != DOS_SIGNATURE {
        Err(ErrorView::Pe("bad DOS signature"@))
    } else if !(DOS_HEADER_SIZE <= le32(b, LFANEW_OFFSET as int) <= MAX_NT_OFFSET) {
        Err(ErrorView::Pe("invalid e_lfanew"@))
    } else {
        Ok(le32(b, LFANEW_OFFSET as int) as usize)
    }
}

/// Where the PE headers of `b` begin.
pub fn nt_offset(b: &[u8]) -> (result: Result<usize>)
    ensures
        outcome(result) == nt_offset_of(b@),
{
    let dos = match bytes(b, 0, DOS_HEADER_SIZE) {
        Err(error) => return Err(error),
        Ok(dos) => dos,
    };
    let magic: u16 = match u16_at(dos, 0) {
        Err(error) => return Err(error),
        Ok(magic) => magic,
    };
    if magic != DOS_SIGNATURE {
        return Err(pe("bad DOS signature"));
    }
    let n: usize = match u32_at(dos, LFANEW_OFFSET) {
        Err(error) => return Err(error),
        Ok(n) => n as usize,
    };
    if n < DOS_HEADER_SIZE || n > MAX_NT_OFFSET {
        return Err(pe("invalid e_lfanew"));
    }
    Ok(n)
}

/// How many header bytes to read, judged by the header prefix `b`.
pub open spec fn header_read_size_of(b: Seq<u8>) -> std::result::Result<usize, ErrorView> {
    match nt_offset_of(b) {
        Err(fault) => Err(fault),
        Ok(nt) => if nt + HEADER_PREFIX_SIZE > b.len() {
            Err(ErrorView::Pe("truncated data"@))
        } else {
            let table_end = nt + NT_PREFIX_SIZE + le16(b, nt + 20) + le16(b, nt + 6)
                * SECTION_HEADER_SIZE;
            let declared = le32(b, nt + NT_PREFIX_SIZE + SIZE_OF_HEADERS_OFFSET);
            let size = if table_end >= declared {
                table_end
            } else {
                declared as int
            };
            if size > MAX_HEADERS {
                Err(ErrorView::Pe("headers too large"@))
            } else {
                Ok(size as usize)
            }
        },
    }
}

/// Determine the bounded full read after fetching the shared header prefix.
pub fn header_read_size(b: &[u8]) -> (result: Result<usize>)
    ensures
        outcome(result) == header_read_size_of(b@),
{
    let nt: usize = match nt_offset(b) {
        Err(error) => return Err(error),
        Ok(nt) => nt,
    };
    let file = match bytes(b, nt + FILE_HEADER_OFFSET, FILE_HEADER_SIZE) {
        Err(error) => return Err(error),
        Ok(file) => file,
    };
    let count: u16 = match u16_at(file, 2) {
        Err(error) => return Err(error),
        Ok(count) => count,
    };
    let optional_size: u16 = match u16_at(file, 16) {
        Err(error) => return Err(error),
        Ok(size) => size,
    };
    let header_size: usize = match u32_at(b, nt + NT_PREFIX_SIZE + SIZE_OF_HEADERS_OFFSET) {
        Err(error) => return Err(error),
        Ok(size) => size as usize,
    };
    let table_end: usize = nt + NT_PREFIX_SIZE + optional_size as usize + count as usize
        * SECTION_HEADER_SIZE;
    let size: usize = if table_end >= header_size {
        table_end
    } else {
        header_size
    };
    if size > MAX_HEADERS {
        return Err(pe("headers too large"));
    }
    Ok(size)
}

/// What the machine type of an image means for an AMD64 injector.
pub open spec fn machine_gate_of(machine: u16) -> std::result::Result<(), ErrorView> {
    if machine == MACHINE_AMD64 {
        Ok(())
    } else if machine == MACHINE_I386 {
        Err(ErrorView::BitnessMismatch { injector_64: true, target_64: false })
    } else {
        Err(ErrorView::UnsupportedMachine(machine))
    }
}

/// Accept AMD64 only; a 32-bit x86 image is a bitness mismatch.
pub fn machine_gate(machine: u16) -> (result: Result<()>)
    ensures
        outcome(result) == machine_gate_of(machine),
{
    if machine == MACHINE_AMD64 {
        Ok(())
    } else if machine == MACHINE_I386 {
        Err(Error::BitnessMismatch { injector_64: true, target_64: false })
    } else {
        Err(Error::UnsupportedMachine(machine))
    }
}

/// Replace the bytes at `offset` by `value`.
pub fn put_bytes(b: &mut [u8], offset: usize, value: &[u8])
    requires
        offset + value@.len() <= old(b)@.len(),
    ensures
        final(b)@ == spliced(old(b)@, offset as int, value@),
{
    let len: usize = b.len();
    let mut i: usize = 0;
    while i < value.len()
        invariant
            i <= value@.len(),
            len == old(b)@.len(),
            offset + value@.len() <= old(b)@.len(),
            b@.len() == old(b)@.len(),
            b@ =~= spliced(old(b)@, offset as int, value@.take(i as int)),
        decreases value@.len() - i,
    {
        b[offset + i] = value[i];
        i += 1;
    }
    proof {
        assert(value@.take(i as int) =~= value@);
    }
}

} // verus!

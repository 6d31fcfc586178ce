//! Serialize existing import descriptors and prepend one ordinal import.

use crate::error::{pe, ErrorView, Result};
use crate::pe::convert::stands_at;
use crate::pe::layout::{le32, le64, le64_bytes, put_bytes, range_fault, read, spliced, Record};
use vstd::prelude::*;

verus! {

pub const MAX_IMPORTS: usize = 4096;

pub const MAX_IMPORT_PATH: usize = 32767;

/// The bit of a 64-bit thunk that marks an import by ordinal.
pub const ORDINAL_FLAG: u64 = 0x8000_0000_0000_0000;

/// One imported module.
#[derive(Clone, Copy, Debug, PartialEq, Eq, Structural)]
pub struct ImportDescriptor {
    pub original_first_thunk: u32,
    pub timestamp: u32,
    pub forwarder: u32,
    pub name: u32,
    pub first_thunk: u32,
}

/// The descriptor that ends an import table.
pub open spec fn null_descriptor() -> ImportDescriptor {
    ImportDescriptor {
        original_first_thunk: 0,
        timestamp: 0,
        forwarder: 0,
        name: 0,
        first_thunk: 0,
    }
}

impl Default for ImportDescriptor {
    fn default() -> (descriptor: Self)
        ensures
            descriptor == null_descriptor(),
    {
        ImportDescriptor {
            original_first_thunk: 0,
            timestamp: 0,
            forwarder: 0,
            name: 0,
            first_thunk: 0,
        }
    }
}

impl Record for ImportDescriptor {
    open spec fn spec_size() -> nat {
        20
    }

    open spec fn spec_encode(self) -> Seq<u8> {
        self.original_first_thunk.spec_encode() + self.timestamp.spec_encode()
            + self.forwarder.spec_encode() + self.name.spec_encode()
            + self.first_thunk.spec_encode()
    }

    open spec fn spec_decode(b: Seq<u8>) -> ImportDescriptor {
        ImportDescriptor {
            original_first_thunk: le32(b, 0),
            timestamp: le32(b, 4),
            forwarder: le32(b, 8),
            name: le32(b, 12),
            first_thunk: le32(b, 16),
        }
    }

    proof fn encode_has_size(v: ImportDescriptor) {
    }

    proof fn decode_undoes_encode(v: ImportDescriptor) {
        <u32 as Record>::decode_undoes_encode(v.original_first_thunk);
        <u32 as Record>::decode_undoes_encode(v.timestamp);
        <u32 as Record>::decode_undoes_encode(v.forwarder);
        <u32 as Record>::decode_undoes_encode(v.name);
        <u32 as Record>::decode_undoes_encode(v.first_thunk);
        let b = v.spec_encode();
        assert(le32(b, 0) == le32(v.original_first_thunk.spec_encode(), 0));
        assert(le32(b, 4) == le32(v.timestamp.spec_encode(), 0));
        assert(le32(b, 8) == le32(v.forwarder.spec_encode(), 0));
        assert(le32(b, 12) == le32(v.name.spec_encode(), 0));
        assert(le32(b, 16) == le32(v.first_thunk.spec_encode(), 0));
    }

    proof fn encode_undoes_decode(b: Seq<u8>) {
        <u32 as Record>::encode_undoes_decode(b.subrange(0, 4));
        <u32 as Record>::encode_undoes_decode(b.subrange(4, 8));
        <u32 as Record>::encode_undoes_decode(b.subrange(8, 12));
        <u32 as Record>::encode_undoes_decode(b.subrange(12, 16));
        <u32 as Record>::encode_undoes_decode(b.subrange(16, 20));
        assert(b.subrange(0, 4) + b.subrange(4, 8) + b.subrange(8, 12) + b.subrange(12, 16)
            + b.subrange(16, 20) =~= b);
    }

    fn size() -> usize {
        20
    }

    fn decode(b: &[u8]) -> ImportDescriptor {
        ImportDescriptor {
            original_first_thunk: <u32 as Record>::decode(&b[0..4]),
            timestamp: <u32 as Record>::decode(&b[4..8]),
            forwarder: <u32 as Record>::decode(&b[8..12]),
            name: <u32 as Record>::decode(&b[12..16]),
            first_thunk: <u32 as Record>::decode(&b[16..20]),
        }
    }

    fn encode(&self) -> Vec<u8> {
        let mut b = self.original_first_thunk.encode();
        let mut timestamp = self.timestamp.encode();
        let mut forwarder = self.forwarder.encode();
        let mut name = self.name.encode();
        let mut first_thunk = self.first_thunk.encode();
        b.append(&mut timestamp);
        b.append(&mut forwarder);
        b.append(&mut name);
        b.append(&mut first_thunk);
        b
    }
}

impl ImportDescriptor {
    pub const SIZE: usize = 20;

    /// The descriptor at the start of `b`.
    pub fn parse(b: &[u8]) -> (result: Result<Self>)
        ensures
            match range_fault(b@.len(), 0, 20) {
                Some(fault) => result matches Err(error) && error@ == fault,
                None => result matches Ok(d) && d == Self::spec_decode(b@.take(20)),
            },
    {
        assert(b@.len() >= 20 ==> b@.subrange(0, 20) =~= b@.take(20));
        read::<Self>(b, 0)
    }

    /// Put the descriptor at the start of `b`.
    pub fn write(&self, b: &mut [u8])
        requires
            old(b)@.len() >= 20,
        ensures
            final(b)@ == spliced(old(b)@, 0, self.spec_encode()),
    {
        let encoded = self.encode();
        put_bytes(b, 0, &encoded);
    }
}

/// Where the import name table begins, behind `n` existing descriptors: the
/// next multiple of eight after the new descriptor, those, and a terminator.
pub open spec fn int_offset(n: int) -> int {
    ((n + 2) * 20 + 7) / 8 * 8
}

/// Where the import address table begins.
pub open spec fn iat_offset(n: int) -> int {
    int_offset(n) + 16
}

/// Where the module name begins.
pub open spec fn name_offset(n: int) -> int {
    iat_offset(n) + 16
}

/// The size of the whole import block.
pub open spec fn imports_size(n: int, path_len: int) -> int {
    name_offset(n) + path_len + 1
}

/// The bytes of `n` zeros.
pub open spec fn zeros(n: int) -> Seq<u8> {
    Seq::new(n as nat, |i: int| 0u8)
}

/// The bytes of a thunk table: an import by ordinal, then a null thunk.
pub open spec fn thunk_table(ordinal: u16) -> Seq<u8> {
    le64_bytes((ORDINAL_FLAG + ordinal) as u64) + zeros(8)
}

/// The bytes of descriptors in a row.
pub open spec fn descriptor_bytes(old: Seq<ImportDescriptor>) -> Seq<u8>
    decreases old.len(),
{
    if old.len() == 0 {
        Seq::empty()
    } else {
        descriptor_bytes(old.drop_last()) + old.last().spec_encode()
    }
}

/// The descriptor of the new module in an import block at `rva`.
pub open spec fn new_descriptor(n: int, rva: u32) -> ImportDescriptor {
    ImportDescriptor {
        original_first_thunk: (rva + int_offset(n)) as u32,
        timestamp: 0,
        forwarder: 0,
        name: (rva + name_offset(n)) as u32,
        first_thunk: (rva + iat_offset(n)) as u32,
    }
}

/// The import block for `rva`: the new descriptor, the existing ones, a
/// terminator, the two thunk tables of the new import, and its module name.
pub open spec fn imports_of(
    old: Seq<ImportDescriptor>,
    path: Seq<u8>,
    ordinal: u16,
    rva: u32,
) -> Seq<u8> {
    let n = old.len() as int;
    new_descriptor(n, rva).spec_encode() + descriptor_bytes(old) + zeros(
        int_offset(n) - (n + 1) * 20,
    ) + thunk_table(ordinal) + thunk_table(ordinal) + path + zeros(1)
}

/// Why no import block can be built.
pub open spec fn imports_fault(
    old: Seq<ImportDescriptor>,
    path: Seq<u8>,
    rva: u32,
) -> Option<ErrorView> {
    if old.len() > MAX_IMPORTS || path.len() == 0 || path.len() > MAX_IMPORT_PATH || path.contains(
        0,
    ) {
        Some(ErrorView::Pe("invalid import builder input"@))
    } else if rva + imports_size(old.len() as int, path.len() as int) > u32::MAX {
        Some(ErrorView::Pe("import allocation exceeds RVA range"@))
    } else {
        None
    }
}

fn contains_zero(path: &[u8]) -> (found: bool)
    ensures
        found == path@.contains(0),
{
    let mut i: usize = 0;
    while i < path.len()
        invariant
            i <= path@.len(),
            forall|k: int| 0 <= k < i ==> path@[k] != 0,
        decreases path@.len() - i,
    {
        if path[i] == 0 {
            assert(path@.contains(0));
            return true;
        }
        i += 1;
    }
    false
}

fn push_zeros(out: &mut Vec<u8>, n: usize)
    ensures
        final(out)@ == old(out)@ + zeros(n as int),
{
    let mut i: usize = 0;
    while i < n
        invariant
            i <= n,
            out@ =~= old(out)@ + zeros(i as int),
        decreases n - i,
    {
        out.push(0);
        i += 1;
    }
}

fn push_thunk_table(out: &mut Vec<u8>, ordinal: u16)
    ensures
        final(out)@ == old(out)@ + thunk_table(ordinal),
{
    let mut thunk = (ORDINAL_FLAG + ordinal as u64).encode();
    out.append(&mut thunk);
    push_zeros(out, 8);
    assert(out@ =~= old(out)@ + thunk_table(ordinal));
}

/// Serialize an import block for `rva` that loads `path` by `ordinal` before
/// the modules of `old`.
pub fn build_imports(old: &[ImportDescriptor], path: &[u8], ordinal: u16, rva: u32) -> (result:
    Result<Vec<u8>>)
    ensures
        match imports_fault(old@, path@, rva) {
            Some(fault) => result matches Err(error) && error@ == fault,
            None => result matches Ok(out) && out@ == imports_of(old@, path@, ordinal, rva),
        },
{
    if old.len() > MAX_IMPORTS || path.len() == 0 || path.len() > MAX_IMPORT_PATH
        || contains_zero(path) {
        return Err(pe("invalid import builder input"));
    }
    let n: usize = old.len();
    let int_at: usize = ((n + 2) * 20 + 7) / 8 * 8;
    let iat: usize = int_at + 16;
    let name: usize = iat + 16;
    let size: usize = name + path.len() + 1;
    if rva as u64 + size as u64 > u32::MAX as u64 {
        return Err(pe("import allocation exceeds RVA range"));
    }
    let new = ImportDescriptor {
        original_first_thunk: rva + int_at as u32,
        timestamp: 0,
        forwarder: 0,
        name: rva + name as u32,
        first_thunk: rva + iat as u32,
    };
    assert(new == new_descriptor(n as int, rva));
    let mut out = new.encode();
    let ghost start = out@;
    let mut i: usize = 0;
    while i < n
        invariant
            i <= n,
            n == old@.len(),
            out@ == start + descriptor_bytes(old@.take(i as int)),
        decreases n - i,
    {
        let mut encoded = old[i].encode();
        out.append(&mut encoded);
        i += 1;
        proof {
            let taken = old@.take(i as int);
            assert(taken.drop_last() =~= old@.take(i - 1));
            assert(out@ =~= start + descriptor_bytes(taken));
        }
    }
    assert(old@.take(n as int) =~= old@);
    push_zeros(&mut out, int_at - (n + 1) * 20);
    push_thunk_table(&mut out, ordinal);
    push_thunk_table(&mut out, ordinal);
    out.extend_from_slice(path);
    push_zeros(&mut out, 1);
    assert(out@ =~= imports_of(old@, path@, ordinal, rva));
    Ok(out)
}

/// The descriptor in place `i` of an import table.
pub open spec fn descriptor_in(b: Seq<u8>, i: int) -> ImportDescriptor {
    ImportDescriptor::spec_decode(b.subrange(i * 20, i * 20 + 20))
}

proof fn lemma_descriptor_bytes(old: Seq<ImportDescriptor>)
    ensures
        descriptor_bytes(old).len() == old.len() * 20,
        forall|i: int|
            0 <= i < old.len() ==> #[trigger] descriptor_bytes(old).subrange(i * 20, i * 20 + 20)
                == old[i].spec_encode(),
    decreases old.len(),
{
    if old.len() > 0 {
        let rest = old.drop_last();
        lemma_descriptor_bytes(rest);
        let b = descriptor_bytes(old);
        assert forall|i: int| 0 <= i < old.len() implies #[trigger] b.subrange(
            i * 20,
            i * 20 + 20,
        ) == old[i].spec_encode() by {
            if i < rest.len() {
                assert(b.subrange(i * 20, i * 20 + 20) =~= descriptor_bytes(rest).subrange(
                    i * 20,
                    i * 20 + 20,
                ));
            } else {
                assert(b.subrange(i * 20, i * 20 + 20) =~= old.last().spec_encode());
            }
        }
    }
}

/// An import block reads back as its parts: the new descriptor first, every
/// existing descriptor behind it in order, then a null descriptor. Both thunk
/// tables are aligned to eight bytes and hold the ordinal and a null, and the
/// module name ends in a single NUL at the end of the block.
pub proof fn import_block_reads_back(
    old: Seq<ImportDescriptor>,
    path: Seq<u8>,
    ordinal: u16,
    rva: u32,
)
    requires
        imports_fault(old, path, rva) is None,
    ensures
        reads_back(imports_of(old, path, ordinal, rva), old, path, ordinal, rva),
{
    let n = old.len() as int;
    let new = new_descriptor(n, rva).spec_encode();
    let table = thunk_table(ordinal);
    let gap = zeros(int_offset(n) - (n + 1) * 20);
    lemma_descriptor_bytes(old);
    ImportDescriptor::encode_has_size(new_descriptor(n, rva));
    assert(table.len() == 16);
    lemma_pieces(new, descriptor_bytes(old), gap, table, table, path, zeros(1));
    lemma_parts_read_back(imports_of(old, path, ordinal, rva), old, path, ordinal, rva);
}

/// `b` reads back as the import block of these parts.
pub open spec fn reads_back(
    b: Seq<u8>,
    old: Seq<ImportDescriptor>,
    path: Seq<u8>,
    ordinal: u16,
    rva: u32,
) -> bool {
    let n = old.len() as int;
    &&& b.len() == imports_size(n, path.len() as int)
    &&& descriptor_in(b, 0) == new_descriptor(n, rva)
    &&& forall|i: int| 1 <= i <= n ==> #[trigger] descriptor_in(b, i) == old[i - 1]
    &&& descriptor_in(b, n + 1) == null_descriptor()
    &&& int_offset(n) % 8 == 0
    &&& (n + 2) * 20 <= int_offset(n)
    &&& le64(b, int_offset(n)) == ORDINAL_FLAG + ordinal
    &&& le64(b, int_offset(n) + 8) == 0
    &&& le64(b, iat_offset(n)) == ORDINAL_FLAG + ordinal
    &&& le64(b, iat_offset(n) + 8) == 0
    &&& stands_at(b, name_offset(n), path)
    &&& !path.contains(0)
    &&& b.last() == 0
}

#[verifier::spinoff_prover]
proof fn lemma_parts_read_back(
    b: Seq<u8>,
    old: Seq<ImportDescriptor>,
    path: Seq<u8>,
    ordinal: u16,
    rva: u32,
)
    requires
        !path.contains(0),
        b.len() == imports_size(old.len() as int, path.len() as int),
        stands_at(b, 0, new_descriptor(old.len() as int, rva).spec_encode()),
        stands_at(b, 20, descriptor_bytes(old)),
        stands_at(
            b,
            (old.len() as int + 1) * 20,
            zeros(int_offset(old.len() as int) - (old.len() + 1) * 20),
        ),
        stands_at(b, int_offset(old.len() as int), thunk_table(ordinal)),
        stands_at(b, iat_offset(old.len() as int), thunk_table(ordinal)),
        stands_at(b, name_offset(old.len() as int), path),
        b.last() == 0,
    ensures
        reads_back(b, old, path, ordinal, rva),
{
    let n = old.len() as int;
    assert(b.len() >= int_offset(n) + 32);
    assert(int_offset(n) - (n + 1) * 20 >= 20);
    assert(descriptor_in(b, 0) == new_descriptor(n, rva) && (forall|i: int|
        1 <= i <= n ==> #[trigger] descriptor_in(b, i) == old[i - 1]) && descriptor_in(b, n + 1)
        == null_descriptor()) by {
        lemma_block_descriptors(b, new_descriptor(n, rva), old, int_offset(n) - (n + 1) * 20);
    }
    assert(le64(b, int_offset(n)) == ORDINAL_FLAG + ordinal && le64(b, int_offset(n) + 8) == 0) by {
        lemma_thunks(b, ordinal, int_offset(n));
    }
    assert(le64(b, iat_offset(n)) == ORDINAL_FLAG + ordinal && le64(b, iat_offset(n) + 8) == 0) by {
        lemma_thunks(b, ordinal, iat_offset(n));
    }
}

proof fn lemma_block_descriptors(
    b: Seq<u8>,
    new: ImportDescriptor,
    old: Seq<ImportDescriptor>,
    gap: int,
)
    requires
        gap >= 20,
        (old.len() + 1) * 20 + gap <= b.len(),
        stands_at(b, 0, new.spec_encode()),
        stands_at(b, 20, descriptor_bytes(old)),
        stands_at(b, (old.len() as int + 1) * 20, zeros(gap)),
    ensures
        descriptor_in(b, 0) == new,
        forall|i: int| 1 <= i <= old.len() ==> #[trigger] descriptor_in(b, i) == old[i - 1],
        descriptor_in(b, old.len() as int + 1) == null_descriptor(),
{
    let n = old.len() as int;
    lemma_descriptor_bytes(old);
    ImportDescriptor::encode_has_size(new);
    ImportDescriptor::decode_undoes_encode(new);
    assert forall|i: int| 1 <= i <= n implies #[trigger] descriptor_in(b, i) == old[i - 1] by {
        lemma_inner_range(b, 20, descriptor_bytes(old), (i - 1) * 20, 20);
        ImportDescriptor::decode_undoes_encode(old[i - 1]);
    }
    lemma_inner_range(b, (n + 1) * 20, zeros(gap), 0, 20);
    lemma_null_descriptor(zeros(gap).subrange(0, 20));
}

/// A concatenation of seven parts holds each of them in its place.
proof fn lemma_pieces(
    a: Seq<u8>,
    d: Seq<u8>,
    z: Seq<u8>,
    t: Seq<u8>,
    u: Seq<u8>,
    p: Seq<u8>,
    e: Seq<u8>,
)
    ensures
        ({
            let b = a + d + z + t + u + p + e;
            let at_z = a.len() as int + d.len();
            let at_t = at_z + z.len();
            let at_u = at_t + t.len();
            let at_p = at_u + u.len();
            &&& b.len() == at_p + p.len() + e.len()
            &&& stands_at(b, 0, a)
            &&& stands_at(b, a.len() as int, d)
            &&& stands_at(b, at_z, z)
            &&& stands_at(b, at_t, t)
            &&& stands_at(b, at_u, u)
            &&& stands_at(b, at_p, p)
            &&& e.len() > 0 ==> b.last() == e.last()
        }),
{
    let b = a + d + z + t + u + p + e;
    let at_z = a.len() as int + d.len();
    let at_t = at_z + z.len();
    let at_u = at_t + t.len();
    let at_p = at_u + u.len();
    assert(b.subrange(0, a.len() as int) =~= a);
    assert(b.subrange(a.len() as int, a.len() as int + d.len()) =~= d);
    assert(b.subrange(at_z, at_z + z.len()) =~= z);
    assert(b.subrange(at_t, at_t + t.len()) =~= t);
    assert(b.subrange(at_u, at_u + u.len()) =~= u);
    assert(b.subrange(at_p, at_p + p.len()) =~= p);
}

/// A range inside a part is a range of the whole.
proof fn lemma_inner_range(b: Seq<u8>, o: int, part: Seq<u8>, from: int, len: int)
    requires
        0 <= o,
        o + part.len() <= b.len(),
        stands_at(b, o, part),
        0 <= from,
        0 <= len,
        from + len <= part.len(),
    ensures
        b.subrange(o + from, o + from + len) == part.subrange(from, from + len),
{
    assert(b.subrange(o + from, o + from + len) =~= part.subrange(from, from + len));
}

proof fn lemma_null_descriptor(b: Seq<u8>)
    requires
        b.len() == 20,
        forall|i: int| 0 <= i < 20 ==> b[i] == 0,
    ensures
        ImportDescriptor::spec_decode(b) == null_descriptor(),
{
}

proof fn lemma_thunks(b: Seq<u8>, ordinal: u16, o: int)
    requires
        0 <= o,
        o + 16 <= b.len(),
        stands_at(b, o, thunk_table(ordinal)),
    ensures
        le64(b, o) == ORDINAL_FLAG + ordinal,
        le64(b, o + 8) == 0,
{
    let t = thunk_table(ordinal);
    assert forall|i: int| 0 <= i < 16 implies b[o + i] == #[trigger] t[i] by {
        assert(b.subrange(o, o + 16)[i] == b[o + i]);
    }
    let v: u64 = (ORDINAL_FLAG + ordinal) as u64;
    <u64 as Record>::decode_undoes_encode(v);
    let e = le64_bytes(v);
    assert(t[0] == e[0] && t[1] == e[1] && t[2] == e[2] && t[3] == e[3]);
    assert(t[4] == e[4] && t[5] == e[5] && t[6] == e[6] && t[7] == e[7]);
    assert(le32(b, o) == le32(e, 0)) by {
        assert(b[o] == t[0] && b[o + 1] == t[1] && b[o + 2] == t[2] && b[o + 3] == t[3]);
    }
    assert(le32(b, o + 4) == le32(e, 4)) by {
        assert(b[o + 4] == t[4] && b[o + 5] == t[5] && b[o + 6] == t[6] && b[o + 7] == t[7]);
    }
    assert(le32(b, o + 8) == 0) by {
        assert(b[o + 8] == t[8] && b[o + 9] == t[9] && b[o + 10] == t[10] && b[o + 11] == t[11]);
    }
    assert(le32(b, o + 12) == 0) by {
        assert(b[o + 12] == t[12] && b[o + 13] == t[13] && b[o + 14] == t[14] && b[o + 15]
            == t[15]);
    }
}

/// The size of an import block does not depend on where it will lie, so a
/// block built for address zero measures every other one.
pub proof fn import_block_size_is_fixed(
    old: Seq<ImportDescriptor>,
    path: Seq<u8>,
    ordinal: u16,
    first: u32,
    second: u32,
)
    requires
        imports_fault(old, path, first) is None,
    ensures
        imports_of(old, path, ordinal, first).len() == imports_of(old, path, ordinal, second).len(),
        imports_fault(old, path, 0) is None,
        imports_fault(old, path, second) is None <==> second + imports_of(
            old,
            path,
            ordinal,
            first,
        ).len() <= u32::MAX,
{
    lemma_descriptor_bytes(old);
}

} // verus!

//! Which PE32 headers are widened, and to what.

use crate::error::ErrorView;
use crate::laws::bytes::{
    dword, fields_are_little_endian, splices_change_their_range, values_are_little_endian, word,
};
use crate::laws::headers::whole_headers_decode;
use crate::pe::convert::{
    changed_end_of, cut, hit, widened_bytes, widened_file_header, widened_optional_header,
    widening_of,
};
use crate::pe::headers::{headers_of, HeadersView};
use crate::pe::layout::{le16_bytes, le32_bytes, spliced};
use crate::pe::view::DataDirectory;
use vstd::prelude::*;

verus! {

/// A directory maps bytes from `from` up to `to`.
pub open spec fn maps_into(d: DataDirectory, from: int, to: int) -> bool {
    d.rva != 0 && d.size != 0 && d.rva < to && from < d.rva + d.size
}

/// Headers are widened exactly when they are those of a PE32 image with at most
/// 32 sections, there is room for the moved section table in the declared
/// headers, and no directory but that of the certificates maps bytes that
/// change.
pub proof fn headers_with_room_are_widened(b: Seq<u8>, h: HeadersView)
    requires
        headers_of(b) == Ok::<HeadersView, ErrorView>(h),
    ensures
        ({
            let nt = dword(b, 60);
            let end = nt + 264 + 40 * h.sections.len();
            widening_of(b) is Ok <==> {
                &&& h.magic == 0x10b
                &&& h.sections.len() <= 32
                &&& end <= h.header_size
                &&& forall|i: int|
                    0 <= i < 16 && i != 4 ==> !maps_into(#[trigger] h.directories[i], nt, end)
            }
        }),
{
    whole_headers_decode(b);
    fields_are_little_endian(b, 60);
    let nt = dword(b, 60);
    let end = nt + 264 + 40 * h.sections.len();
    assert(end == changed_end_of(b, h));
    assert forall|i: int| 0 <= i < 16 implies (maps_into(#[trigger] h.directories[i], nt, end)
        <==> hit(h.directories[i], nt, end)) by {}
    if widening_of(b) is Ok {
        assert forall|i: int| 0 <= i < 16 && i != 4 implies !maps_into(
            #[trigger] h.directories[i],
            nt,
            end,
        ) by {
            assert(!hit(h.directories[i], nt, end));
        }
    }
}

/// Bytes that do not decode are not widened.
pub proof fn only_headers_are_widened(b: Seq<u8>)
    ensures
        headers_of(b) is Err ==> widening_of(b) is Err,
{
}

/// `out` is `b` in the PE32+ layout: for AMD64, with the image base, the stack
/// sizes and the heap sizes in 64 bits, and with the directories and the
/// section table moved to where the larger optional header puts them.
pub open spec fn is_widened(b: Seq<u8>, header_size: int, out: Seq<u8>) -> bool {
    let nt = dword(b, 60);
    let opt = nt + 24;
    let table = opt + word(b, nt + 20);
    let count = word(b, nt + 6);
    &&& out.len() == header_size
    &&& word(out, nt + 4) == 0x8664
    &&& word(out, nt + 20) == 240
    &&& word(out, opt) == 0x20b
    &&& dword(out, opt + 24) == dword(b, opt + 28) && dword(out, opt + 28) == 0
    &&& dword(out, opt + 72) == dword(b, opt + 72) && dword(out, opt + 76) == 0
    &&& dword(out, opt + 80) == dword(b, opt + 76) && dword(out, opt + 84) == 0
    &&& dword(out, opt + 88) == dword(b, opt + 80) && dword(out, opt + 92) == 0
    &&& dword(out, opt + 96) == dword(b, opt + 84) && dword(out, opt + 100) == 0
    &&& forall|i: int|
        (0 <= i < nt + 4 || nt + 6 <= i < nt + 20 || nt + 22 <= i < opt || opt + 2 <= i < opt + 24
            || opt + 32 <= i < opt + 72) ==> #[trigger] out[i] == b[i]
    &&& forall|i: int| opt + 104 <= i < opt + 240 ==> #[trigger] out[i] == b[i - 16]
    &&& forall|i: int|
        opt + 240 <= i < opt + 240 + 40 * count ==> #[trigger] out[i] == b[i - (opt + 240) + table]
    &&& forall|i: int| opt + 240 + 40 * count <= i < header_size ==> #[trigger] out[i] == b[i]
}

/// Widened headers are the same headers in the PE32+ layout, byte by byte.
pub proof fn widening_only_moves_and_extends(b: Seq<u8>, h: HeadersView, out: Seq<u8>)
    requires
        headers_of(b) == Ok::<HeadersView, ErrorView>(h),
        widening_of(b) == Ok::<Seq<u8>, ErrorView>(out),
    ensures
        is_widened(b, h.header_size as int, out),
{
    headers_with_room_are_widened(b, h);
    lemma_shape(b, h);
    lemma_widened(b, h);
}

proof fn lemma_shape(b: Seq<u8>, h: HeadersView)
    requires
        headers_of(b) == Ok::<HeadersView, ErrorView>(h),
        h.magic == 0x10b,
    ensures
        64 <= dword(b, 60),
        h.sections.len() == word(b, dword(b, 60) + 6),
        224 <= word(b, dword(b, 60) + 20),
        dword(b, 60) + 24 + word(b, dword(b, 60) + 20) + 40 * h.sections.len() <= h.header_size,
        h.header_size <= b.len(),
{
    whole_headers_decode(b);
}

#[verifier::spinoff_prover]
#[verifier::rlimit(60)]
proof fn lemma_widened(b: Seq<u8>, h: HeadersView)
    requires
        64 <= dword(b, 60),
        h.sections.len() == word(b, dword(b, 60) + 6),
        224 <= word(b, dword(b, 60) + 20),
        dword(b, 60) + 24 + word(b, dword(b, 60) + 20) + 40 * h.sections.len() <= h.header_size,
        h.header_size <= b.len(),
        dword(b, 60) + 264 + 40 * h.sections.len() <= h.header_size,
    ensures
        is_widened(b, h.header_size as int, widened_bytes(b, h)),
{
    let nt = dword(b, 60);
    let opt = nt + 24;
    let table = opt + word(b, nt + 20);
    let count = h.sections.len() as int;
    fields_are_little_endian(b, 60);
    fields_are_little_endian(b, nt + 20);
    let file = widened_file_header(b, nt);
    let optional = widened_optional_header(b, opt);
    lemma_file(b, nt);
    lemma_optional(b, opt);
    let a = b.take(h.header_size as int);
    let c = spliced(a, nt + 4, file);
    let d = spliced(c, opt, optional);
    let e = spliced(d, opt + 112, cut(b, opt + 96, opt + 224));
    let out = spliced(e, opt + 240, cut(b, table, table + count * 40));
    splices_change_their_range(a, nt + 4, file);
    splices_change_their_range(c, opt, optional);
    splices_change_their_range(d, opt + 112, cut(b, opt + 96, opt + 224));
    splices_change_their_range(e, opt + 240, cut(b, table, table + count * 40));
    assert(out == widened_bytes(b, h));
    assert forall|i: int| 0 <= i < 20 implies out[nt + 4 + i] == #[trigger] file[i] by {}
    assert forall|i: int| 0 <= i < 112 implies out[opt + i] == #[trigger] optional[i] by {}
    assert(out[nt + 4] == file[0] && out[nt + 5] == file[1]);
    assert(out[nt + 20] == file[16] && out[nt + 21] == file[17]);
    assert(out[opt] == optional[0] && out[opt + 1] == optional[1]);
    lemma_wide_field(b, opt + 28, optional, 24, out, opt + 24);
    lemma_wide_field(b, opt + 72, optional, 72, out, opt + 72);
    lemma_wide_field(b, opt + 76, optional, 80, out, opt + 80);
    lemma_wide_field(b, opt + 80, optional, 88, out, opt + 88);
    lemma_wide_field(b, opt + 84, optional, 96, out, opt + 96);
    assert forall|i: int|
        (0 <= i < nt + 4 || nt + 6 <= i < nt + 20 || nt + 22 <= i < opt || opt + 2 <= i < opt + 24
            || opt + 32 <= i < opt + 72) implies #[trigger] out[i] == b[i] by {
        if i >= opt {
            assert(out[i] == optional[i - opt]);
        } else if i >= nt + 4 {
            assert(out[i] == file[i - nt - 4]);
        }
    }
    assert forall|i: int| opt + 104 <= i < opt + 240 implies #[trigger] out[i] == b[i - 16] by {
        if i < opt + 112 {
            assert(out[i] == optional[i - opt]);
        }
    }
}

proof fn lemma_wide_field(b: Seq<u8>, o: int, w: Seq<u8>, p: int, out: Seq<u8>, q: int)
    requires
        w[p] == b[o] && w[p + 1] == b[o + 1] && w[p + 2] == b[o + 2] && w[p + 3] == b[o + 3],
        w[p + 4] == 0 && w[p + 5] == 0 && w[p + 6] == 0 && w[p + 7] == 0,
        out[q] == w[p] && out[q + 1] == w[p + 1] && out[q + 2] == w[p + 2] && out[q + 3] == w[p
            + 3],
        out[q + 4] == w[p + 4] && out[q + 5] == w[p + 5] && out[q + 6] == w[p + 6] && out[q + 7]
            == w[p + 7],
    ensures
        dword(out, q) == dword(b, o),
        dword(out, q + 4) == 0,
{
}

proof fn lemma_file(b: Seq<u8>, nt: int)
    requires
        0 <= nt,
        nt + 24 <= b.len(),
    ensures
        widened_file_header(b, nt).len() == 20,
        word(widened_file_header(b, nt), 0) == 0x8664,
        word(widened_file_header(b, nt), 16) == 240,
        forall|i: int|
            2 <= i < 16 || 18 <= i < 20 ==> #[trigger] widened_file_header(b, nt)[i] == b[nt + 4
                + i],
{
    values_are_little_endian(0x8664, 0, 0);
    values_are_little_endian(240, 0, 0);
    let w = widened_file_header(b, nt);
    assert(w[0] == le16_bytes(0x8664)[0] && w[1] == le16_bytes(0x8664)[1]);
    assert(w[16] == le16_bytes(240)[0] && w[17] == le16_bytes(240)[1]);
}

#[verifier::spinoff_prover]
proof fn lemma_optional(b: Seq<u8>, opt: int)
    requires
        0 <= opt,
        opt + 96 <= b.len(),
    ensures
        ({
            let w = widened_optional_header(b, opt);
            &&& w.len() == 112
            &&& word(w, 0) == 0x20b
            &&& forall|i: int| 2 <= i < 24 || 32 <= i < 72 ==> #[trigger] w[i] == b[opt + i]
            &&& forall|i: int| 104 <= i < 112 ==> #[trigger] w[i] == b[opt + i - 16]
            &&& forall|i: int| 24 <= i < 28 ==> #[trigger] w[i] == b[opt + i + 4]
            &&& forall|i: int| 28 <= i < 32 ==> #[trigger] w[i] == 0
            &&& forall|i: int| 72 <= i < 76 ==> #[trigger] w[i] == b[opt + i]
            &&& forall|i: int| 76 <= i < 80 ==> #[trigger] w[i] == 0
            &&& forall|i: int| 80 <= i < 84 ==> #[trigger] w[i] == b[opt + i - 4]
            &&& forall|i: int| 84 <= i < 88 ==> #[trigger] w[i] == 0
            &&& forall|i: int| 88 <= i < 92 ==> #[trigger] w[i] == b[opt + i - 8]
            &&& forall|i: int| 92 <= i < 96 ==> #[trigger] w[i] == 0
            &&& forall|i: int| 96 <= i < 100 ==> #[trigger] w[i] == b[opt + i - 12]
            &&& forall|i: int| 100 <= i < 104 ==> #[trigger] w[i] == 0
        }),
{
    values_are_little_endian(0x20b, 0, 0);
    let w = widened_optional_header(b, opt);
    assert(w[0] == le16_bytes(0x20b)[0] && w[1] == le16_bytes(0x20b)[1]);
    let z = le32_bytes(0);
    assert(z[0] == 0 && z[1] == 0 && z[2] == 0 && z[3] == 0);
}

} // verus!

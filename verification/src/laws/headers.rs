//! Which bytes are the headers of an image, and what they decode to.

use crate::laws::bytes::{dword, pe_headers_are_found, word};
use crate::pe::headers::{headers_of, lemma_sections_apart, sections_fault, HeadersView};
use crate::pe::layout::{le16, le32};
use crate::pe::view::{layout_of, Section};
use vstd::prelude::*;

verus! {

/// The larger of the two sizes of a section.
pub open spec fn mapped_size(s: Section) -> int {
    if s.virtual_size > s.raw_size {
        s.virtual_size as int
    } else {
        s.raw_size as int
    }
}

/// Two mapped ranges meet.
pub open spec fn meet(s: Section, t: Section) -> bool {
    s.rva < t.rva + mapped_size(t) && t.rva < s.rva + mapped_size(s)
}

/// The sections lie behind the headers, inside the image, and apart.
pub open spec fn sections_fit(sections: Seq<Section>, header_size: int, image_size: int) -> bool {
    &&& forall|i: int|
        0 <= i < sections.len() ==> header_size <= (#[trigger] sections[i]).rva && sections[i].rva
            + mapped_size(sections[i]) <= image_size
    &&& forall|i: int, j: int|
        0 <= i < j < sections.len() ==> !meet(#[trigger] sections[i], #[trigger] sections[j])
}

proof fn lemma_no_fault(sections: Seq<Section>, n: nat, header_size: u32, image_size: u32)
    requires
        n <= sections.len(),
    ensures
        sections_fault(sections, n, header_size, image_size) is None <==> sections_fit(
            sections.take(n as int),
            header_size as int,
            image_size as int,
        ),
    decreases n,
{
    let taken = sections.take(n as int);
    if n > 0 {
        lemma_no_fault(sections, (n - 1) as nat, header_size, image_size);
        let earlier = sections.take(n - 1);
        let last = sections[n - 1];
        assert forall|i: int| 0 <= i < n - 1 implies earlier[i] == #[trigger] taken[i] by {}
        assert(taken[n - 1] == last);
        if sections_fit(taken, header_size as int, image_size as int) {
            assert forall|i: int| 0 <= i < earlier.len() implies header_size <= (
            #[trigger] earlier[i]).rva && earlier[i].rva + mapped_size(earlier[i])
                <= image_size by {
                assert(taken[i] == earlier[i]);
            }
            assert forall|i: int, j: int| 0 <= i < j < earlier.len() implies !meet(
                #[trigger] earlier[i],
                #[trigger] earlier[j],
            ) by {
                assert(taken[i] == earlier[i] && taken[j] == earlier[j]);
            }
            assert forall|i: int| 0 <= i < earlier.len() implies !last.overlaps(
                #[trigger] earlier[i],
            ) by {
                assert(!meet(taken[i], taken[n - 1]));
            }
        } else if sections_fault(sections, n, header_size, image_size) is None {
            lemma_sections_apart(sections, n, header_size, image_size);
            assert forall|i: int| 0 <= i < taken.len() implies header_size <= (
            #[trigger] taken[i]).rva && taken[i].rva + mapped_size(taken[i]) <= image_size by {
                assert(sections[i].end() <= image_size);
            }
            assert forall|i: int, j: int| 0 <= i < j < taken.len() implies !meet(
                #[trigger] taken[i],
                #[trigger] taken[j],
            ) by {
                assert(!sections[j].overlaps(sections[i]));
            }
        }
    }
}

/// The section whose header stands in `b` at `o`.
pub open spec fn section_in(b: Seq<u8>, o: int) -> Section {
    Section {
        virtual_size: dword(b, o + 8) as u32,
        rva: dword(b, o + 12) as u32,
        raw_size: dword(b, o + 16) as u32,
        raw_offset: dword(b, o + 20) as u32,
    }
}

/// The size of the optional header with this magic, in front of its directories.
pub open spec fn fixed_part(magic: int) -> int {
    if magic == 0x20b {
        112
    } else {
        96
    }
}

/// The sections whose headers stand in `b`.
pub open spec fn sections_in(b: Seq<u8>) -> Seq<Section> {
    let nt = dword(b, 60);
    Seq::new(
        word(b, nt + 6) as nat,
        |i: int| section_in(b, nt + 24 + word(b, nt + 20) + 40 * i),
    )
}

/// `b` holds the whole headers of a PE32 or PE32+ image: signatures, sizes
/// that agree with each other, all sixteen directories, and a table of one to
/// 96 sections that fit the image.
pub open spec fn holds_headers(b: Seq<u8>) -> bool {
    let nt = dword(b, 60);
    let opt = nt + 24;
    let magic = word(b, opt);
    let size = word(b, nt + 20);
    let count = word(b, nt + 6);
    let image_size = dword(b, opt + 56);
    let header_size = dword(b, opt + 60);
    let directories = dword(b, opt + fixed_part(magic) - 4);
    &&& b.len() >= 64 && b[0] == 0x4d && b[1] == 0x5a
    &&& 64 <= nt <= 0x10_0000 - 264 && nt % 4 == 0
    &&& opt + 112 <= b.len()
    &&& dword(b, nt) == 0x4550
    &&& magic == 0x10b || magic == 0x20b
    &&& 1 <= count <= 96
    &&& fixed_part(magic) + 128 <= size <= 4096
    &&& 16 <= directories && fixed_part(magic) + 8 * directories <= size
    &&& 0 < header_size <= image_size && header_size <= 0x10_0000 && header_size <= b.len()
    &&& opt + size + 40 * count <= header_size
    &&& sections_fit(sections_in(b), header_size, image_size)
}

/// A header region decodes exactly when it holds the whole headers of an
/// image, and then to the values that stand in its bytes.
#[verifier::spinoff_prover]
#[verifier::rlimit(40)]
pub proof fn whole_headers_decode(b: Seq<u8>)
    ensures
        headers_of(b) is Ok <==> holds_headers(b),
        headers_of(b) matches Ok(h) ==> headers_stand_in(b, h),
{
    pe_headers_are_found(b);
    let nt = dword(b, 60);
    if holds_headers(b) || headers_of(b) is Ok {
        lemma_fields(b);
        assert(nt_fits(b));
        lemma_layout(b);
        let l = layout_of(b);
        lemma_no_fault(l.sections, l.sections.len(), l.header_size, l.image_size);
        assert(l.sections.take(l.sections.len() as int) =~= l.sections);
    }
}

spec fn nt_fits(b: Seq<u8>) -> bool {
    b.len() >= 64 && 64 <= dword(b, 60) && dword(b, 60) + 136 <= b.len()
}

/// `h` has the values that stand in `b`.
pub open spec fn headers_stand_in(b: Seq<u8>, h: HeadersView) -> bool {
    let nt = dword(b, 60);
    let opt = nt + 24;
    let fixed = fixed_part(word(b, opt));
    &&& h.machine == word(b, nt + 4)
    &&& h.characteristics == word(b, nt + 22)
    &&& h.magic == word(b, opt)
    &&& h.image_size == dword(b, opt + 56)
    &&& h.header_size == dword(b, opt + 60)
    &&& h.directories.len() == 16
    &&& forall|i: int|
        0 <= i < 16 ==> (#[trigger] h.directories[i]).rva == dword(b, opt + fixed + 8 * i)
            && h.directories[i].size == dword(b, opt + fixed + 8 * i + 4)
    &&& h.sections == sections_in(b)
}

proof fn lemma_fields(b: Seq<u8>)
    ensures
        forall|o: int| #![trigger le16(b, o)] le16(b, o) == word(b, o),
        forall|o: int| #![trigger le32(b, o)] le32(b, o) == dword(b, o),
{
}

#[verifier::spinoff_prover]
proof fn lemma_layout(b: Seq<u8>)
    ensures
        layout_of(b).sections == sections_in(b),
{
    lemma_fields(b);
    assert(layout_of(b).sections =~= sections_in(b));
}

} // verus!

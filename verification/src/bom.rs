//! Byte-order marks: the three leading byte sequences that identify an
//! encoding with certainty.

use vstd::prelude::*;
use vstd::slice::slice_subrange;

verus! {

/// The byte-order marks that are recognised.
#[derive(Clone, Copy, Debug, PartialEq, Eq, Structural)]
pub enum Bom {
    /// `EF BB BF`
    Utf8,
    /// `FF FE`
    Utf16Le,
    /// `FE FF`
    Utf16Be,
}

/// The mark that is written in front of converted text.
pub open spec fn utf8_bom() -> Seq<u8> {
    seq![0xEFu8, 0xBBu8, 0xBFu8]
}

pub open spec fn has_utf8_bom(data: Seq<u8>) -> bool {
    data.len() >= 3 && data[0] == 0xEF && data[1] == 0xBB && data[2] == 0xBF
}

pub open spec fn has_utf16le_bom(data: Seq<u8>) -> bool {
    data.len() >= 2 && data[0] == 0xFF && data[1] == 0xFE
}

pub open spec fn has_utf16be_bom(data: Seq<u8>) -> bool {
    data.len() >= 2 && data[0] == 0xFE && data[1] == 0xFF
}

/// The mark that `data` starts with, if any. The three marks differ in
/// their first byte, so at most one of them matches.
pub open spec fn bom_of(data: Seq<u8>) -> Option<Bom> {
    if has_utf8_bom(data) {
        Some(Bom::Utf8)
    } else if has_utf16le_bom(data) {
        Some(Bom::Utf16Le)
    } else if has_utf16be_bom(data) {
        Some(Bom::Utf16Be)
    } else {
        None
    }
}

/// `data` without its leading mark; `data` itself where it has none.
pub open spec fn without_bom(data: Seq<u8>) -> Seq<u8> {
    match bom_of(data) {
        Some(bom) => data.subrange(bom.spec_len() as int, data.len() as int),
        None => data,
    }
}

/// `data` without a leading UTF-8 mark; the UTF-16 marks are left in place.
pub open spec fn without_utf8_bom(data: Seq<u8>) -> Seq<u8> {
    if has_utf8_bom(data) {
        data.subrange(3, data.len() as int)
    } else {
        data
    }
}

impl Bom {
    /// The number of bytes that the mark takes.
    pub open spec fn spec_len(self) -> nat {
        match self {
            Bom::Utf8 => 3,
            Bom::Utf16Le => 2,
            Bom::Utf16Be => 2,
        }
    }

    /// The bytes of the mark.
    pub open spec fn bytes(self) -> Seq<u8> {
        match self {
            Bom::Utf8 => utf8_bom(),
            Bom::Utf16Le => seq![0xFFu8, 0xFEu8],
            Bom::Utf16Be => seq![0xFEu8, 0xFFu8],
        }
    }

    /// The name of the encoding that the mark stands for.
    pub open spec fn spec_encoding_name(self) -> Seq<char> {
        match self {
            Bom::Utf8 => "UTF-8"@,
            Bom::Utf16Le => "UTF-16LE"@,
            Bom::Utf16Be => "UTF-16BE"@,
        }
    }

    pub fn len(&self) -> (r: usize)
        ensures
            r == self.spec_len(),
    {
        match self {
            Bom::Utf8 => 3,
            Bom::Utf16Le => 2,
            Bom::Utf16Be => 2,
        }
    }

    pub fn encoding_name(&self) -> (r: &'static str)
        ensures
            r@ == self.spec_encoding_name(),
    {
        match self {
            Bom::Utf8 => "UTF-8",
            Bom::Utf16Le => "UTF-16LE",
            Bom::Utf16Be => "UTF-16BE",
        }
    }
}

/// Finds the byte-order mark at the start of `data`.
pub fn detect_bom(data: &[u8]) -> (r: Option<Bom>)
    ensures
        r == bom_of(data@),
{
    if data.len() >= 3 && data[0] == 0xEF && data[1] == 0xBB && data[2] == 0xBF {
        return Some(Bom::Utf8);
    }
    if data.len() >= 2 {
        if data[0] == 0xFF && data[1] == 0xFE {
            return Some(Bom::Utf16Le);
        }
        if data[0] == 0xFE && data[1] == 0xFF {
            return Some(Bom::Utf16Be);
        }
    }
    None
}

/// Drops a leading UTF-8 or UTF-16 mark, once.
pub fn strip_bom(data: &[u8]) -> (r: &[u8])
    ensures
        r@ == without_bom(data@),
{
    match detect_bom(data) {
        Some(bom) => slice_subrange(data, bom.len(), data.len()),
        None => data,
    }
}

/// Drops a leading UTF-8 mark, once.
pub fn strip_utf8_bom(data: &[u8]) -> (r: &[u8])
    ensures
        r@ == without_utf8_bom(data@),
{
    if data.len() >= 3 && data[0] == 0xEF && data[1] == 0xBB && data[2] == 0xBF {
        slice_subrange(data, 3, data.len())
    } else {
        data
    }
}

/// A mark is found exactly when `data` begins with its bytes, whatever
/// follows them.
pub proof fn lemma_bom_is_prefix(data: Seq<u8>, bom: Bom)
    ensures
        bom_of(data) == Some(bom) <==> (data.len() >= bom.spec_len() && data.subrange(
            0,
            bom.spec_len() as int,
        ) == bom.bytes()),
{
    if data.len() >= bom.spec_len() {
        let head = data.subrange(0, bom.spec_len() as int);
        assert(head[0] == data[0]);
        assert(head[1] == data[1]);
        if bom == Bom::Utf8 {
            assert(head[2] == data[2]);
        }
        if bom_of(data) == Some(bom) {
            assert(head =~= bom.bytes());
        }
    }
}

/// A payload behind a mark does not change which mark is found, and
/// stripping gives the payload back.
pub proof fn lemma_bom_then_payload(bom: Bom, payload: Seq<u8>)
    ensures
        bom_of(bom.bytes() + payload) == Some(bom),
        without_bom(bom.bytes() + payload) == payload,
{
    let data = bom.bytes() + payload;
    assert(data[0] == bom.bytes()[0]);
    assert(data[1] == bom.bytes()[1]);
    if bom == Bom::Utf8 {
        assert(data[2] == bom.bytes()[2]);
    }
    assert(data.subrange(bom.spec_len() as int, data.len() as int) =~= payload);
}

/// Stripping is idempotent on every input whose remainder does not itself
/// begin with a mark. (Two marks in a row are stripped one per call.)
pub proof fn lemma_strip_bom_idempotent(data: Seq<u8>)
    requires
        bom_of(without_bom(data)) is None,
    ensures
        without_bom(without_bom(data)) == without_bom(data),
{
}

/// Stripping never lengthens, and shortens exactly when a mark is found.
pub proof fn lemma_without_bom_len(data: Seq<u8>)
    ensures
        without_bom(data).len() == data.len() - (match bom_of(data) {
            Some(bom) => bom.spec_len() as int,
            None => 0,
        }),
{
}

} // verus!

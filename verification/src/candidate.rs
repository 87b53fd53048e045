//! The closed set of encodings that detection chooses from.

use crate::text::str_eq;
use vstd::prelude::*;

verus! {

/// One encoding of the candidate set. Declaration order is the fixed order
/// in which candidates are scored, and the order that breaks ties.
#[derive(Clone, Copy, Debug, PartialEq, Eq, Structural)]
pub enum EncodingCandidate {
    ShiftJis,
    EucJp,
    Iso2022Jp,
    Utf8,
    Utf16Le,
    Utf16Be,
    Windows1252,
}

/// The number of candidates.
pub const CANDIDATE_COUNT: usize = 7;

/// The candidates in scoring order.
pub open spec fn candidates() -> Seq<EncodingCandidate> {
    seq![
        EncodingCandidate::ShiftJis,
        EncodingCandidate::EucJp,
        EncodingCandidate::Iso2022Jp,
        EncodingCandidate::Utf8,
        EncodingCandidate::Utf16Le,
        EncodingCandidate::Utf16Be,
        EncodingCandidate::Windows1252,
    ]
}

/// The names offered for manual override, in display order.
pub open spec fn supported_names() -> Seq<Seq<char>> {
    seq![
        "Shift_JIS"@,
        "UTF-8"@,
        "EUC-JP"@,
        "ISO-2022-JP"@,
        "UTF-16LE"@,
        "UTF-16BE"@,
        "windows-1252"@,
    ]
}

/// Whether `name` is, letter for letter, the name of a candidate.
pub open spec fn is_candidate_name(name: Seq<char>) -> bool {
    exists|c: EncodingCandidate| name == #[trigger] c.spec_name()
}

impl EncodingCandidate {
    /// The name by which the candidate is known.
    pub open spec fn spec_name(self) -> Seq<char> {
        match self {
            EncodingCandidate::ShiftJis => "Shift_JIS"@,
            EncodingCandidate::EucJp => "EUC-JP"@,
            EncodingCandidate::Iso2022Jp => "ISO-2022-JP"@,
            EncodingCandidate::Utf8 => "UTF-8"@,
            EncodingCandidate::Utf16Le => "UTF-16LE"@,
            EncodingCandidate::Utf16Be => "UTF-16BE"@,
            EncodingCandidate::Windows1252 => "windows-1252"@,
        }
    }

    /// The position of the candidate in scoring order.
    pub open spec fn spec_rank(self) -> int {
        match self {
            EncodingCandidate::ShiftJis => 0,
            EncodingCandidate::EucJp => 1,
            EncodingCandidate::Iso2022Jp => 2,
            EncodingCandidate::Utf8 => 3,
            EncodingCandidate::Utf16Le => 4,
            EncodingCandidate::Utf16Be => 5,
            EncodingCandidate::Windows1252 => 6,
        }
    }

    pub fn name(&self) -> (r: &'static str)
        ensures
            r@ == self.spec_name(),
            is_candidate_name(r@),
    {
        let name = match self {
            EncodingCandidate::ShiftJis => "Shift_JIS",
            EncodingCandidate::EucJp => "EUC-JP",
            EncodingCandidate::Iso2022Jp => "ISO-2022-JP",
            EncodingCandidate::Utf8 => "UTF-8",
            EncodingCandidate::Utf16Le => "UTF-16LE",
            EncodingCandidate::Utf16Be => "UTF-16BE",
            EncodingCandidate::Windows1252 => "windows-1252",
        };
        assert(name@ == self.spec_name());
        name
    }

    pub fn rank(&self) -> (r: usize)
        ensures
            r == self.spec_rank(),
            r < CANDIDATE_COUNT,
            candidates()[r as int] == *self,
    {
        match self {
            EncodingCandidate::ShiftJis => 0,
            EncodingCandidate::EucJp => 1,
            EncodingCandidate::Iso2022Jp => 2,
            EncodingCandidate::Utf8 => 3,
            EncodingCandidate::Utf16Le => 4,
            EncodingCandidate::Utf16Be => 5,
            EncodingCandidate::Windows1252 => 6,
        }
    }

    /// The candidate at a position of the scoring order.
    pub fn at(rank: usize) -> (r: EncodingCandidate)
        requires
            rank < CANDIDATE_COUNT,
        ensures
            r == candidates()[rank as int],
            r.spec_rank() == rank,
    {
        if rank == 0 {
            EncodingCandidate::ShiftJis
        } else if rank == 1 {
            EncodingCandidate::EucJp
        } else if rank == 2 {
            EncodingCandidate::Iso2022Jp
        } else if rank == 3 {
            EncodingCandidate::Utf8
        } else if rank == 4 {
            EncodingCandidate::Utf16Le
        } else if rank == 5 {
            EncodingCandidate::Utf16Be
        } else {
            EncodingCandidate::Windows1252
        }
    }
}

/// Finds the candidate that bears `name`, letter for letter.
pub fn candidate_named(name: &str) -> (r: Option<EncodingCandidate>)
    ensures
        r is Some <==> is_candidate_name(name@),
        r matches Some(c) ==> c.spec_name() == name@,
{
    let found = if str_eq(name, "Shift_JIS") {
        Some(EncodingCandidate::ShiftJis)
    } else if str_eq(name, "EUC-JP") {
        Some(EncodingCandidate::EucJp)
    } else if str_eq(name, "ISO-2022-JP") {
        Some(EncodingCandidate::Iso2022Jp)
    } else if str_eq(name, "UTF-8") {
        Some(EncodingCandidate::Utf8)
    } else if str_eq(name, "UTF-16LE") {
        Some(EncodingCandidate::Utf16Le)
    } else if str_eq(name, "UTF-16BE") {
        Some(EncodingCandidate::Utf16Be)
    } else if str_eq(name, "windows-1252") {
        Some(EncodingCandidate::Windows1252)
    } else {
        None
    };
    proof {
        match found {
            Some(c) => {
                assert(c.spec_name() == name@);
            },
            None => {
                assert forall|c: EncodingCandidate| name@ != #[trigger] c.spec_name() by {
                    match c {
                        EncodingCandidate::ShiftJis => {},
                        EncodingCandidate::EucJp => {},
                        EncodingCandidate::Iso2022Jp => {},
                        EncodingCandidate::Utf8 => {},
                        EncodingCandidate::Utf16Le => {},
                        EncodingCandidate::Utf16Be => {},
                        EncodingCandidate::Windows1252 => {},
                    }
                }
            },
        }
    }
    found
}

/// The encoding names that a caller may choose from, in display order.
pub fn supported_encodings() -> (r: Vec<&'static str>)
    ensures
        r@.len() == supported_names().len(),
        forall|i: int| 0 <= i < r@.len() ==> (#[trigger] r@[i])@ == supported_names()[i],
{
    let mut names: Vec<&'static str> = Vec::new();
    names.push("Shift_JIS");
    names.push("UTF-8");
    names.push("EUC-JP");
    names.push("ISO-2022-JP");
    names.push("UTF-16LE");
    names.push("UTF-16BE");
    names.push("windows-1252");
    names
}

/// The scoring order lists every candidate once, at its rank.
pub proof fn lemma_candidates_complete(c: EncodingCandidate)
    ensures
        0 <= c.spec_rank() < candidates().len(),
        candidates().len() == CANDIDATE_COUNT,
        candidates()[c.spec_rank()] == c,
{
}

/// Candidates are told apart by their names.
pub proof fn lemma_names_distinct(a: EncodingCandidate, b: EncodingCandidate)
    ensures
        a.spec_name() == b.spec_name() <==> a == b,
{
    reveal_strlit("Shift_JIS");
    reveal_strlit("EUC-JP");
    reveal_strlit("ISO-2022-JP");
    reveal_strlit("UTF-8");
    reveal_strlit("UTF-16LE");
    reveal_strlit("UTF-16BE");
    reveal_strlit("windows-1252");
    if a != b && a.spec_name() == b.spec_name() {
        let n = a.spec_name();
        let m = b.spec_name();
        assert(n.len() == m.len());
        assert(n[0] == m[0]);
        assert(n[1] == m[1]);
        assert(n[5] == m[5]);
        assert(n.len() > 6 ==> n[6] == m[6]);
    }
}

/// Every name offered for manual override is the name of a candidate.
pub proof fn lemma_supported_names_are_candidates(i: int)
    requires
        0 <= i < supported_names().len(),
    ensures
        is_candidate_name(supported_names()[i]),
{
    let c = if i == 0 {
        EncodingCandidate::ShiftJis
    } else if i == 1 {
        EncodingCandidate::Utf8
    } else if i == 2 {
        EncodingCandidate::EucJp
    } else if i == 3 {
        EncodingCandidate::Iso2022Jp
    } else if i == 4 {
        EncodingCandidate::Utf16Le
    } else if i == 5 {
        EncodingCandidate::Utf16Be
    } else {
        EncodingCandidate::Windows1252
    };
    assert(supported_names()[i] == c.spec_name());
}

} // verus!

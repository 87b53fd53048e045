//! The first lines of a text, for display.

use crate::candidate::EncodingCandidate;
use crate::bom::{strip_bom, without_bom};
use crate::decoder::{decode_lossy, decoded_text, resolved_name, MAX_INPUT_LEN};
use crate::text::{lines_of, split_first_line, views_of};
use vstd::prelude::*;
use vstd::string::StringExecFns;

verus! {

/// The first `n` lines of `text`, or all of them where it has fewer.
pub open spec fn preview_of(text: Seq<char>, n: nat) -> Seq<Seq<char>> {
    if n < lines_of(text).len() {
        lines_of(text).take(n as int)
    } else {
        lines_of(text)
    }
}

/// The text that a preview of `data` shows: `data` without its byte-order
/// mark, decoded under the encoding that the label stands for, or as
/// UTF-8 where it stands for none.
pub open spec fn preview_text(data: Seq<u8>, label: Seq<char>) -> Seq<char> {
    if resolved_name(label) is Some {
        decoded_text(label, without_bom(data))
    } else {
        decoded_text("UTF-8"@, without_bom(data))
    }
}

/// Gets the first `n` lines of `text`, without their line endings.
pub fn get_preview_lines(text: &str, n: usize) -> (r: Vec<String>)
    ensures
        views_of(r@) == preview_of(text@, n as nat),
{
    let mut lines: Vec<String> = Vec::new();
    let mut rest = text;
    while lines.len() < n && !rest.is_empty()
        invariant
            lines@.len() <= n,
            views_of(lines@) + lines_of(rest@) == lines_of(text@),
        decreases rest@.len(),
    {
        let ghost before = views_of(lines@);
        let ghost remaining = rest@;
        let (line, tail) = split_first_line(rest);
        lines.push(String::from_str(line));
        rest = tail;
        proof {
            assert(views_of(lines@) =~= before.push(line@));
            assert(views_of(lines@) + lines_of(rest@) =~= before + lines_of(remaining));
        }
    }
    proof {
        let all = lines_of(text@);
        let kept = views_of(lines@);
        assert(kept.len() == lines@.len());
        if rest@.len() == 0 {
            assert(kept + lines_of(rest@) =~= kept);
        } else {
            assert(kept =~= all.take(n as int));
        }
    }
    lines
}

/// Decodes `data`, without its byte-order mark, under the encoding that
/// the name stands for, or as UTF-8 where it stands for none, and gets
/// the first `max_lines` lines of the text.
pub fn generate_preview(data: &[u8], encoding_name: &str, max_lines: usize) -> (r: Vec<String>)
    requires
        data@.len() <= MAX_INPUT_LEN,
    ensures
        views_of(r@) == preview_of(preview_text(data@, encoding_name@), max_lines as nat),
{
    let source = strip_bom(data);
    match decode_lossy(encoding_name, source) {
        Some(out) => get_preview_lines(out.text.as_str(), max_lines),
        None => {
            assert(EncodingCandidate::Utf8.spec_name() == "UTF-8"@);
            match decode_lossy("UTF-8", source) {
                Some(out) => get_preview_lines(out.text.as_str(), max_lines),
                // "UTF-8" always stands for itself.
                None => Vec::new(),
            }
        },
    }
}

} // verus!

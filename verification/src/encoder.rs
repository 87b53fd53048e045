//! Detection of the source encoding, conversion to UTF-8 with a
//! byte-order mark, and the test for text that needs no conversion.

use crate::bom::{
    bom_of, detect_bom, lemma_bom_then_payload, strip_bom, strip_utf8_bom, utf8_bom, without_bom,
    without_utf8_bom, Bom,
};
use crate::candidate::{candidate_named, is_candidate_name, EncodingCandidate};
use crate::decoder::{
    decode_lossy, decoded_text, decoded_with_errors, guess_encoding_name, guessed_name,
    names_candidate, resolved_name, MAX_INPUT_LEN,
};
use crate::error::PipelineError;
use crate::score::Score;
use crate::scorer::{best_encoding, best_of, candidate_scores};
use crate::text::str_eq;
use crate::utf8::is_valid_utf8;
use vstd::prelude::*;
use vstd::std_specs::iter::IteratorSpec;
use vstd::string::StringExecFns;
use vstd::string::StringSliceAdditionalSpecFns;
use vstd::utf8::{
    decode_utf8, encode_utf8, encode_utf8_decode_utf8, encode_utf8_valid_utf8, valid_utf8,
};

verus! {

/// Whether `data` is UTF-8 already, with or without a UTF-8 mark in front.
pub open spec fn already_utf8(data: Seq<u8>) -> bool {
    valid_utf8(without_utf8_bom(data))
}

/// What conversion writes for `text`: the UTF-8 mark, then the text in UTF-8.
pub open spec fn marked_utf8(text: Seq<char>) -> Seq<u8> {
    utf8_bom() + encode_utf8(text)
}

/// What conversion gives for `data` under the encoding that `label`
/// stands for, where that is a candidate: the input's own mark is
/// dropped, the rest is decoded under that encoding, and the text is
/// written out behind a UTF-8 mark.
pub open spec fn converted(data: Seq<u8>, label: Seq<char>) -> Seq<u8> {
    marked_utf8(decoded_text(label, without_bom(data)))
}

/// Checks whether `data` is valid UTF-8 once an optional UTF-8 mark is
/// set aside. Such data needs no conversion.
pub fn is_already_utf8(data: &[u8]) -> (r: bool)
    ensures
        r == already_utf8(data@),
{
    let content = strip_utf8_bom(data);
    is_valid_utf8(content)
}

/// Writes `text` as UTF-8 behind the UTF-8 byte-order mark.
pub fn with_utf8_bom(text: &str) -> (r: Vec<u8>)
    ensures
        r@ == marked_utf8(text@),
{
    let bytes = text.as_bytes();
    let mut out: Vec<u8> = Vec::new();
    out.push(0xEF);
    out.push(0xBB);
    out.push(0xBF);
    assert(out@ =~= utf8_bom());
    let mut i: usize = 0;
    while i < bytes.len()
        invariant
            i <= bytes@.len(),
            bytes@ == encode_utf8(text@),
            out@ == utf8_bom() + bytes@.subrange(0, i as int),
        decreases bytes@.len() - i,
    {
        out.push(bytes[i]);
        assert(bytes@.subrange(0, i as int).push(bytes@[i as int]) =~= bytes@.subrange(
            0,
            i + 1,
        ));
        assert(out@ =~= utf8_bom() + bytes@.subrange(0, i + 1));
        i += 1;
    }
    assert(bytes@.subrange(0, i as int) =~= bytes@);
    out
}

/// Decodes `data` under the encoding that `label` stands for, after a
/// mark at its start is dropped. Malformed sequences become U+FFFD: the
/// only failure is a label that stands for none of the candidate
/// encodings, whatever the data holds.
pub fn decode_source(data: &[u8], label: &str) -> (r: Result<String, PipelineError>)
    requires
        data@.len() <= MAX_INPUT_LEN,
    ensures
        r is Ok <==> names_candidate(label@),
        is_candidate_name(label@) ==> r is Ok,
        r matches Ok(text) ==> text@ == decoded_text(label@, without_bom(data@)),
        r matches Err(e) ==> (e matches PipelineError::UnknownEncoding(name) && name@ == label@),
{
    let source = strip_bom(data);
    match decode_lossy(label, source) {
        Some(out) => {
            if candidate_named(out.encoding_name.as_str()).is_some() {
                Ok(out.text)
            } else {
                Err(PipelineError::UnknownEncoding(String::from_str(label)))
            }
        },
        None => Err(PipelineError::UnknownEncoding(String::from_str(label))),
    }
}

/// Converts `data` from the encoding that `source_encoding_name` stands
/// for to UTF-8 with a byte-order mark. A mark at the start of the input
/// is dropped first. Malformed sequences become U+FFFD: the only failure
/// is a name that stands for none of the candidate encodings, whatever
/// the data holds.
pub fn convert_to_utf8_bom(data: &[u8], source_encoding_name: &str) -> (r: Result<
    Vec<u8>,
    PipelineError,
>)
    requires
        data@.len() <= MAX_INPUT_LEN,
    ensures
        r is Ok <==> names_candidate(source_encoding_name@),
        is_candidate_name(source_encoding_name@) ==> r is Ok,
        r matches Ok(out) ==> out@ == converted(data@, source_encoding_name@),
        r matches Err(e) ==> (e matches PipelineError::UnknownEncoding(name) && name@
            == source_encoding_name@),
{
    match decode_source(data, source_encoding_name) {
        Ok(text) => Ok(with_utf8_bom(text.as_str())),
        Err(error) => Err(error),
    }
}

/// Converted output always opens with the UTF-8 mark, and what follows the
/// mark is well-formed UTF-8 that decodes to exactly the text that the
/// source decoder gave: conversion adds no loss of its own.
pub proof fn lemma_convert_round_trip(data: Seq<u8>, label: Seq<char>)
    ensures
        bom_of(converted(data, label)) == Some(Bom::Utf8),
        valid_utf8(without_bom(converted(data, label))),
        decode_utf8(without_bom(converted(data, label))) == decoded_text(
            label,
            without_bom(data),
        ),
        already_utf8(converted(data, label)),
{
    let text = decoded_text(label, without_bom(data));
    assert(utf8_bom() == Bom::Utf8.bytes());
    lemma_bom_then_payload(Bom::Utf8, encode_utf8(text));
    encode_utf8_valid_utf8(text);
    encode_utf8_decode_utf8(text);
    assert(without_utf8_bom(converted(data, label)) == without_bom(converted(data, label)));
}

/// The encoding chosen for a file, and how strongly the evidence supports
/// the choice.
#[derive(Clone, Debug)]
pub struct DetectionResult {
    pub encoding_name: String,
    pub confidence: Score,
}

/// The name that detection reports for `data`: that of its byte-order
/// mark, or else that of the best-scoring candidate.
pub open spec fn detected_name(data: Seq<u8>) -> Seq<char> {
    match bom_of(data) {
        Some(bom) => bom.spec_encoding_name(),
        None => best_of(candidate_scores(data)).encoding.spec_name(),
    }
}

/// The confidence that detection reports for `data`: exactly 1.0 behind a
/// byte-order mark, or else the score of the best candidate.
pub open spec fn detected_confidence(data: Seq<u8>) -> Score {
    match bom_of(data) {
        Some(_) => Score::spec_certain(),
        None => best_of(candidate_scores(data)).score,
    }
}

/// Detects the encoding of `data`. A byte-order mark settles it with
/// confidence 1.0; without one, every candidate is scored and the best
/// one is reported with its score as the confidence.
pub fn smart_detect_encoding(data: &[u8]) -> (r: DetectionResult)
    requires
        data@.len() <= MAX_INPUT_LEN,
    ensures
        r.encoding_name@ == detected_name(data@),
        r.confidence == detected_confidence(data@),
        r.confidence.wf(),
        is_candidate_name(r.encoding_name@),
{
    match detect_bom(data) {
        Some(bom) => {
            proof {
                lemma_detected_name_is_candidate(data@);
            }
            DetectionResult {
                encoding_name: String::from_str(bom.encoding_name()),
                confidence: Score::certain(),
            }
        },
        None => {
            let best = best_encoding(data);
            DetectionResult {
                encoding_name: String::from_str(best.encoding_name()),
                confidence: best.score,
            }
        },
    }
}

/// Detection only ever names a candidate, so what it names can be
/// converted.
pub proof fn lemma_detected_name_is_candidate(data: Seq<u8>)
    ensures
        is_candidate_name(detected_name(data)),
{
    let c = match bom_of(data) {
        Some(Bom::Utf8) => EncodingCandidate::Utf8,
        Some(Bom::Utf16Le) => EncodingCandidate::Utf16Le,
        Some(Bom::Utf16Be) => EncodingCandidate::Utf16Be,
        None => best_of(candidate_scores(data)).encoding,
    };
    assert(detected_name(data) == c.spec_name());
}

/// A byte-order mark always wins: whatever follows it, detection reports
/// the mark's encoding with confidence exactly 1.0.
pub proof fn lemma_bom_always_wins(bom: Bom, payload: Seq<u8>)
    ensures
        detected_name(bom.bytes() + payload) == bom.spec_encoding_name(),
        detected_confidence(bom.bytes() + payload) == Score::spec_certain(),
{
    lemma_bom_then_payload(bom, payload);
}

/// Whether `c` lies in U+3000..U+9FFF or U+F900..U+FAFF, the span that the
/// guess-based detector takes as a sign of Japanese text.
pub open spec fn is_cjk_span(c: char) -> bool {
    '\u{3000}' <= c <= '\u{9FFF}' || '\u{F900}' <= c <= '\u{FAFF}'
}

/// Whether `text` holds a character of the CJK span.
pub open spec fn has_cjk(text: Seq<char>) -> bool {
    exists|i: int| 0 <= i < text.len() && is_cjk_span(#[trigger] text[i])
}

/// The confidence given to a guessed encoding, in hundredths: 50 where
/// decoding met malformed input; else 95 for UTF-8, 90 for text with CJK
/// characters, and 80 for anything else.
pub open spec fn estimated_confidence(name: Seq<char>, text: Seq<char>, had_errors: bool) -> Score {
    if had_errors {
        Score::spec_from_hundredths(50)
    } else if name == "UTF-8"@ {
        Score::spec_from_hundredths(95)
    } else if has_cjk(text) {
        Score::spec_from_hundredths(90)
    } else {
        Score::spec_from_hundredths(80)
    }
}

/// Looks for a character of the CJK span.
pub fn contains_cjk(text: &str) -> (r: bool)
    ensures
        r == has_cjk(text@),
{
    let mut found = false;
    for ch in it: text.chars()
        invariant
            it.seq() == text@,
            it.index() <= text@.len(),
            found == has_cjk(text@.take(it.index() as int)),
    {
        proof {
            let seen = text@.take(it.index() as int);
            let next = text@.take(it.index() + 1);
            assert(next[it.index() as int] == ch);
            assert(forall|i: int| 0 <= i < seen.len() ==> seen[i] == next[i]);
            if has_cjk(next) && !is_cjk_span(ch) {
                let i = choose|i: int| 0 <= i < next.len() && is_cjk_span(#[trigger] next[i]);
                assert(is_cjk_span(seen[i]));
            }
            if has_cjk(seen) {
                let i = choose|i: int| 0 <= i < seen.len() && is_cjk_span(#[trigger] seen[i]);
                assert(is_cjk_span(next[i]));
            }
        }
        if (ch >= '\u{3000}' && ch <= '\u{9FFF}') || (ch >= '\u{F900}' && ch <= '\u{FAFF}') {
            found = true;
        }
    }
    assert(text@.take(text@.len() as int) =~= text@);
    found
}

/// Rates a guessed encoding by what its decoder gave.
pub fn estimate_confidence(name: &str, text: &str, had_errors: bool) -> (r: Score)
    ensures
        r == estimated_confidence(name@, text@, had_errors),
        r.wf(),
{
    if had_errors {
        return Score::from_hundredths(50);
    }
    if str_eq(name, "UTF-8") {
        return Score::from_hundredths(95);
    }
    if contains_cjk(text) {
        Score::from_hundredths(90)
    } else {
        Score::from_hundredths(80)
    }
}

/// The name that guess-based detection reports for `data`.
pub open spec fn guess_detected_name(data: Seq<u8>) -> Seq<char> {
    match bom_of(data) {
        Some(bom) => bom.spec_encoding_name(),
        None => guessed_name(data),
    }
}

/// The confidence that guess-based detection reports for `data`.
pub open spec fn guess_detected_confidence(data: Seq<u8>) -> Score {
    match bom_of(data) {
        Some(_) => Score::spec_certain(),
        None => estimated_confidence(
            guessed_name(data),
            decoded_text(guessed_name(data), data),
            decoded_with_errors(guessed_name(data), data),
        ),
    }
}

/// Detects the encoding of `data` from a statistical guess instead of
/// candidate scores. A byte-order mark settles it with confidence 1.0.
pub fn detect_encoding(data: &[u8]) -> (r: DetectionResult)
    requires
        data@.len() <= MAX_INPUT_LEN,
    ensures
        r.encoding_name@ == guess_detected_name(data@),
        r.confidence == guess_detected_confidence(data@),
        r.confidence.wf(),
        is_candidate_name(r.encoding_name@) || resolved_name(r.encoding_name@) is Some,
{
    match detect_bom(data) {
        Some(bom) => {
            proof {
                lemma_detected_name_is_candidate(data@);
            }
            DetectionResult {
                encoding_name: String::from_str(bom.encoding_name()),
                confidence: Score::certain(),
            }
        },
        None => {
            let name = guess_encoding_name(data);
            let confidence = match decode_lossy(name.as_str(), data) {
                Some(out) => estimate_confidence(name.as_str(), out.text.as_str(), out.had_errors),
                // A guessed name always stands for an encoding.
                None => Score::from_hundredths(50),
            };
            DetectionResult { encoding_name: name, confidence }
        },
    }
}

} // verus!

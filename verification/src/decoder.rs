//! The boundary to the decoders: what this library takes on trust from
//! `encoding_rs` and `chardetng`.

use crate::candidate::is_candidate_name;
use chardetng::EncodingDetector;
use encoding_rs::Encoding;
use vstd::prelude::*;

verus! {

/// The longest input that is handed to a decoder. A decoder sizes its
/// output buffer at a little over three bytes per input byte, and that
/// size has to fit the address space.
pub const MAX_INPUT_LEN: usize = usize::MAX / 8;

/// The name of the encoding that `label` stands for, if it stands for
/// any: the `name` of what `Encoding::for_label` finds for it (matching
/// ignores ASCII case and surrounding whitespace, and many labels stand
/// for one encoding).
pub uninterp spec fn resolved_name(label: Seq<char>) -> Option<Seq<char>>;

/// What `Encoding::decode_without_bom_handling` gives for `bytes` under
/// the encoding that `label` stands for: the decoded text, with U+FFFD in
/// place of each malformed sequence, and whether there was any malformed
/// sequence. All of `bytes` is decoded under that one encoding: a
/// byte-order mark at its start is content like any other.
pub uninterp spec fn decoded(label: Seq<char>, bytes: Seq<u8>) -> (Seq<char>, bool);

/// The text of [`decoded`].
pub open spec fn decoded_text(label: Seq<char>, bytes: Seq<u8>) -> Seq<char> {
    decoded(label, bytes).0
}

/// The error flag of [`decoded`].
pub open spec fn decoded_with_errors(label: Seq<char>, bytes: Seq<u8>) -> bool {
    decoded(label, bytes).1
}

/// Whether `label` stands for one of the candidate encodings.
pub open spec fn names_candidate(label: Seq<char>) -> bool {
    resolved_name(label) is Some && is_candidate_name(resolved_name(label)->Some_0)
}

/// What a decoder gave.
#[derive(Debug)]
pub struct Decoded {
    /// The name of the encoding that the label stood for.
    pub encoding_name: String,
    /// The decoded text.
    pub text: String,
    /// Whether the input held a malformed sequence.
    pub had_errors: bool,
}

/// Calls `encoding_rs::Encoding::for_label` on the label and, where it
/// finds an encoding, `Encoding::decode_without_bom_handling` on the data
/// and `Encoding::name`.
///
/// Taken on trust: the lookup and the decoding are functions of their
/// arguments alone; each of the seven candidate names is a label of the
/// encoding that bears that name; and the decoder does not fail on input
/// of at most [`MAX_INPUT_LEN`] bytes. Nothing is claimed about what the
/// decoded text holds.
#[verifier::external_body]
pub(crate) fn decode_lossy(label: &str, data: &[u8]) -> (r: Option<Decoded>)
    requires
        data@.len() <= MAX_INPUT_LEN,
    ensures
        r is Some <==> resolved_name(label@) is Some,
        is_candidate_name(label@) ==> r is Some && r->Some_0.encoding_name@ == label@,
        r matches Some(out) ==> resolved_name(label@) == Some(out.encoding_name@) && out.text@
            == decoded(label@, data@).0 && out.had_errors == decoded(label@, data@).1,
{
    let encoding = Encoding::for_label(label.as_bytes())?;
    let (text, had_errors) = encoding.decode_without_bom_handling(data);
    Some(Decoded { encoding_name: encoding.name().to_string(), text: text.into_owned(), had_errors })
}

/// The name of the encoding that `chardetng` guesses for `bytes`, read as
/// a complete Japanese-language stream in which UTF-8 is allowed.
pub uninterp spec fn guessed_name(bytes: Seq<u8>) -> Seq<char>;

/// Feeds the whole input to a fresh `chardetng::EncodingDetector`, with
/// `last` set, and takes the name of what `guess(Some(b"ja"), true)` gives.
///
/// Taken on trust: the guess is a function of the bytes alone, and the
/// name of the guessed encoding is a label that stands for an encoding.
#[verifier::external_body]
pub(crate) fn guess_encoding_name(data: &[u8]) -> (r: String)
    ensures
        r@ == guessed_name(data@),
        resolved_name(r@) is Some,
{
    let mut detector = EncodingDetector::new();
    detector.feed(data, true);
    detector.guess(Some(b"ja"), true).name().to_string()
}

} // verus!

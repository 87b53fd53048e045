//! Scores each candidate encoding against raw bytes and ranks them.
//!
//! A candidate's score is a weighted sum of cheap signals read off the
//! text that its decoder gives: how little of it is replacement
//! characters, how little is stray control characters, how much is
//! Japanese script, and whether the decoder met malformed input.

use crate::candidate::{candidates, EncodingCandidate, CANDIDATE_COUNT};
use crate::decoder::{decode_lossy, decoded_text, decoded_with_errors, MAX_INPUT_LEN};
use crate::score::Score;
use vstd::prelude::*;
use vstd::std_specs::iter::IteratorSpec;
use vstd::string::StringSliceAdditionalSpecFns;
use vstd::utf8::encode_utf8;

verus! {

/// Hundredths given for text that is free of replacement characters.
pub const WEIGHT_CLEAN: u128 = 40;

/// Hundredths given for text that is free of stray control characters.
pub const WEIGHT_VALID: u128 = 20;

/// Hundredths given for text that is all recognized script.
pub const WEIGHT_SCRIPT: u128 = 30;

/// Hundredths that every non-empty text starts with.
pub const BASELINE: u128 = 10;

/// Hundredths taken off when the decoder reported malformed input.
pub const ERROR_PENALTY: u128 = 30;

/// The classes of characters that scoring counts.
#[derive(Clone, Copy, Debug, PartialEq, Eq, Structural)]
pub enum CharClass {
    /// U+FFFD, which a decoder writes for what it cannot map.
    Replacement,
    /// Hiragana, Katakana, CJK ideographs and their punctuation and
    /// width forms.
    RecognizedScript,
    /// A control character other than newline, carriage return and tab.
    StrayControl,
}

/// Hiragana, Katakana, CJK Unified Ideographs, CJK Extension A, CJK
/// Compatibility Ideographs, halfwidth and fullwidth forms, and CJK
/// symbols and punctuation.
pub open spec fn is_recognized_script(c: char) -> bool {
    ||| '\u{3040}' <= c <= '\u{309F}'
    ||| '\u{30A0}' <= c <= '\u{30FF}'
    ||| '\u{4E00}' <= c <= '\u{9FFF}'
    ||| '\u{3400}' <= c <= '\u{4DBF}'
    ||| '\u{F900}' <= c <= '\u{FAFF}'
    ||| '\u{FF00}' <= c <= '\u{FFEF}'
    ||| '\u{3000}' <= c <= '\u{303F}'
}

/// The control codes of Unicode (general category Cc): U+0000 to U+001F
/// and U+007F to U+009F.
pub open spec fn is_control(c: char) -> bool {
    c <= '\u{1F}' || '\u{7F}' <= c <= '\u{9F}'
}

/// A control code that does not belong in text: any but newline, carriage
/// return and tab.
pub open spec fn is_stray_control(c: char) -> bool {
    is_control(c) && c != '\n' && c != '\r' && c != '\t'
}

impl CharClass {
    /// Whether `c` belongs to the class.
    pub open spec fn holds(self, c: char) -> bool {
        match self {
            CharClass::Replacement => c == '\u{FFFD}',
            CharClass::RecognizedScript => is_recognized_script(c),
            CharClass::StrayControl => is_stray_control(c),
        }
    }
}

/// The number of characters of `text` that belong to `class`.
pub open spec fn count_class(text: Seq<char>, class: CharClass) -> nat
    decreases text.len(),
{
    if text.len() == 0 {
        0
    } else {
        count_class(text.drop_last(), class) + if class.holds(text.last()) {
            1nat
        } else {
            0nat
        }
    }
}

/// Whether `ch` is of the script that scoring looks for.
pub fn is_japanese_char(ch: char) -> (r: bool)
    ensures
        r == is_recognized_script(ch),
{
    (ch >= '\u{3040}' && ch <= '\u{309F}') || (ch >= '\u{30A0}' && ch <= '\u{30FF}') || (ch
        >= '\u{4E00}' && ch <= '\u{9FFF}') || (ch >= '\u{3400}' && ch <= '\u{4DBF}') || (ch
        >= '\u{F900}' && ch <= '\u{FAFF}') || (ch >= '\u{FF00}' && ch <= '\u{FFEF}') || (ch
        >= '\u{3000}' && ch <= '\u{303F}')
}

/// Whether `ch` is a control character that counts against a decoding.
pub fn is_stray_control_char(ch: char) -> (r: bool)
    ensures
        r == is_stray_control(ch),
{
    (ch <= '\u{1F}' || (ch >= '\u{7F}' && ch <= '\u{9F}')) && ch != '\n' && ch != '\r' && ch
        != '\t'
}

/// What scoring counts in one decoded text.
#[derive(Clone, Copy, Debug, PartialEq, Eq, Structural)]
pub struct CharTally {
    pub total: usize,
    pub replacements: usize,
    pub recognized: usize,
    pub controls: usize,
}

impl CharTally {
    /// No class holds more characters than there are.
    pub open spec fn wf(self) -> bool {
        &&& self.replacements <= self.total
        &&& self.recognized <= self.total
        &&& self.controls <= self.total
    }

    /// Whether the tally is that of `text`.
    pub open spec fn is_of(self, text: Seq<char>) -> bool {
        &&& self.total == text.len()
        &&& self.replacements == count_class(text, CharClass::Replacement)
        &&& self.recognized == count_class(text, CharClass::RecognizedScript)
        &&& self.controls == count_class(text, CharClass::StrayControl)
    }
}

/// A class holds at most as many characters as the text has.
pub proof fn lemma_count_class_bound(text: Seq<char>, class: CharClass)
    ensures
        count_class(text, class) <= text.len(),
    decreases text.len(),
{
    if text.len() > 0 {
        lemma_count_class_bound(text.drop_last(), class);
    }
}

/// A text has at most as many characters as its UTF-8 form has bytes.
pub proof fn lemma_chars_at_most_bytes(text: Seq<char>)
    ensures
        text.len() <= encode_utf8(text).len(),
    decreases text.len(),
{
    if text.len() > 0 {
        lemma_chars_at_most_bytes(text.drop_first());
    }
}

/// Counts the characters of `text`, and those of each class.
pub fn tally(text: &str) -> (r: CharTally)
    ensures
        r == tally_of(text@),
        r.is_of(text@),
        r.wf(),
{
    // The bytes of a string fit a machine word, and so do its characters.
    let byte_len = text.as_bytes().len();
    proof {
        lemma_chars_at_most_bytes(text@);
        assert(text@.len() <= byte_len);
    }
    let mut total: usize = 0;
    let mut replacements: usize = 0;
    let mut recognized: usize = 0;
    let mut controls: usize = 0;
    for ch in it: text.chars()
        invariant
            it.seq() == text@,
            it.index() <= text@.len(),
            text@.len() <= usize::MAX,
            total == it.index(),
            replacements == count_class(text@.take(it.index() as int), CharClass::Replacement),
            recognized == count_class(
                text@.take(it.index() as int),
                CharClass::RecognizedScript,
            ),
            controls == count_class(text@.take(it.index() as int), CharClass::StrayControl),
    {
        proof {
            let seen = text@.take(it.index() as int);
            let next = text@.take(it.index() + 1);
            assert(next.drop_last() =~= seen);
            assert(next.last() == ch);
            lemma_count_class_bound(next, CharClass::Replacement);
            lemma_count_class_bound(next, CharClass::RecognizedScript);
            lemma_count_class_bound(next, CharClass::StrayControl);
        }
        total += 1;
        if ch == '\u{FFFD}' {
            replacements += 1;
        }
        if is_japanese_char(ch) {
            recognized += 1;
        }
        if is_stray_control_char(ch) {
            controls += 1;
        }
    }
    proof {
        assert(text@.take(text@.len() as int) =~= text@);
        lemma_count_class_bound(text@, CharClass::Replacement);
        lemma_count_class_bound(text@, CharClass::RecognizedScript);
        lemma_count_class_bound(text@, CharClass::StrayControl);
    }
    CharTally { total, replacements, recognized, controls }
}

/// The weighted sum of a tally in hundredths, times the number of
/// characters, before it is clamped at zero.
pub open spec fn weighted_sum(t: CharTally, had_errors: bool) -> int {
    WEIGHT_CLEAN * (t.total - t.replacements) + WEIGHT_VALID * (t.total - t.controls)
        + WEIGHT_SCRIPT * t.recognized + BASELINE * t.total - if had_errors {
        ERROR_PENALTY * t.total
    } else {
        0
    }
}

/// The score of a tally: exactly 0 for an empty text, and otherwise
///
/// `max(0, (1 - replacements/total) * 0.40 + (total - controls)/total * 0.20
///         + recognized/total * 0.30 + 0.10 - (0.30 if had_errors))`.
pub open spec fn score_of(t: CharTally, had_errors: bool) -> Score {
    if t.total == 0 {
        Score::spec_zero()
    } else if weighted_sum(t, had_errors) <= 0 {
        Score { numer: 0, denom: t.total as u64 }
    } else {
        Score { numer: weighted_sum(t, had_errors) as u128, denom: t.total as u64 }
    }
}

/// Computes the score of a tally.
pub fn score_from_tally(t: &CharTally, had_errors: bool) -> (r: Score)
    requires
        t.wf(),
    ensures
        r == score_of(*t, had_errors),
        r.wf(),
        r.numer <= 100 * r.denom,
{
    if t.total == 0 {
        return Score::zero();
    }
    let total: u128 = t.total as u128;
    let clean: u128 = WEIGHT_CLEAN * (total - t.replacements as u128);
    let valid: u128 = WEIGHT_VALID * (total - t.controls as u128);
    let script: u128 = WEIGHT_SCRIPT * (t.recognized as u128);
    let credit: u128 = clean + valid + script + BASELINE * total;
    let penalty: u128 = if had_errors {
        ERROR_PENALTY * total
    } else {
        0
    };
    let numer: u128 = if credit > penalty {
        credit - penalty
    } else {
        0
    };
    Score { numer, denom: t.total as u64 }
}

/// The outcome of scoring one candidate against one input.
#[derive(Clone, Copy, Debug, PartialEq, Eq, Structural)]
pub struct EncodingScore {
    pub encoding: EncodingCandidate,
    pub score: Score,
    pub replacement_count: usize,
    pub japanese_char_count: usize,
    pub total_chars: usize,
}

impl EncodingScore {
    /// The score has a positive denominator.
    pub open spec fn wf(self) -> bool {
        self.score.wf()
    }

    /// The name of the encoding that was scored.
    pub fn encoding_name(&self) -> (r: &'static str)
        ensures
            r@ == self.encoding.spec_name(),
    {
        self.encoding.name()
    }
}

/// The tally of `text`. The counts are held in machine words; the text of
/// a string always fits them.
pub open spec fn tally_of(text: Seq<char>) -> CharTally {
    CharTally {
        total: text.len() as usize,
        replacements: count_class(text, CharClass::Replacement) as usize,
        recognized: count_class(text, CharClass::RecognizedScript) as usize,
        controls: count_class(text, CharClass::StrayControl) as usize,
    }
}

/// The score record of `candidate` for a text with the given tally.
pub open spec fn record_of(
    candidate: EncodingCandidate,
    t: CharTally,
    had_errors: bool,
) -> EncodingScore {
    EncodingScore {
        encoding: candidate,
        score: score_of(t, had_errors),
        replacement_count: t.replacements,
        japanese_char_count: t.recognized,
        total_chars: t.total,
    }
}

/// What scoring gives `candidate` for the decoded `text`.
pub open spec fn score_of_text(
    candidate: EncodingCandidate,
    text: Seq<char>,
    had_errors: bool,
) -> EncodingScore {
    record_of(candidate, tally_of(text), had_errors)
}

/// What scoring gives `candidate` for `data`: the score of the text that
/// the candidate's decoder gives for it.
pub open spec fn candidate_score(candidate: EncodingCandidate, data: Seq<u8>) -> EncodingScore {
    score_of_text(
        candidate,
        decoded_text(candidate.spec_name(), data),
        decoded_with_errors(candidate.spec_name(), data),
    )
}

/// Whether the counts of `record` are those of the text that the decoder
/// of its candidate gives for `data`.
pub open spec fn counts_decoded(record: EncodingScore, data: Seq<u8>) -> bool {
    let text = decoded_text(record.encoding.spec_name(), data);
    &&& record.total_chars == text.len()
    &&& record.replacement_count == count_class(text, CharClass::Replacement)
    &&& record.japanese_char_count == count_class(text, CharClass::RecognizedScript)
}

/// The scores of all candidates for `data`, in scoring order.
pub open spec fn candidate_scores(data: Seq<u8>) -> Seq<EncodingScore> {
    Seq::new(CANDIDATE_COUNT as nat, |i: int| candidate_score(candidates()[i], data))
}

/// Scores a candidate from what its decoder gave.
pub fn score_decoded(candidate: EncodingCandidate, text: &str, had_errors: bool) -> (r:
    EncodingScore)
    ensures
        r == score_of_text(candidate, text@, had_errors),
        r.wf(),
        r.total_chars == text@.len(),
        r.replacement_count == count_class(text@, CharClass::Replacement),
        r.japanese_char_count == count_class(text@, CharClass::RecognizedScript),
{
    let t = tally(text);
    let score = score_from_tally(&t, had_errors);
    EncodingScore {
        encoding: candidate,
        score,
        replacement_count: t.replacements,
        japanese_char_count: t.recognized,
        total_chars: t.total,
    }
}

/// Decodes `data` as `candidate` and scores the outcome.
pub fn score_encoding(data: &[u8], candidate: EncodingCandidate) -> (r: EncodingScore)
    requires
        data@.len() <= MAX_INPUT_LEN,
    ensures
        r == candidate_score(candidate, data@),
        r.encoding == candidate,
        counts_decoded(r, data@),
        r.wf(),
{
    match decode_lossy(candidate.name(), data) {
        Some(out) => score_decoded(candidate, out.text.as_str(), out.had_errors),
        // A candidate's name always stands for its encoding.
        None => zero_score(candidate),
    }
}

/// The record of a candidate that decoded to nothing.
pub open spec fn spec_zero_score(candidate: EncodingCandidate) -> EncodingScore {
    EncodingScore {
        encoding: candidate,
        score: Score::spec_zero(),
        replacement_count: 0,
        japanese_char_count: 0,
        total_chars: 0,
    }
}

#[verifier::when_used_as_spec(spec_zero_score)]
pub fn zero_score(candidate: EncodingCandidate) -> (r: EncodingScore)
    ensures
        r == spec_zero_score(candidate),
        r.wf(),
{
    EncodingScore {
        encoding: candidate,
        score: Score::zero(),
        replacement_count: 0,
        japanese_char_count: 0,
        total_chars: 0,
    }
}

/// `a` comes before `b` in a ranking: its score is higher, or the scores
/// are the same value and its candidate comes first in scoring order.
pub open spec fn outranks(a: EncodingScore, b: EncodingScore) -> bool {
    a.score.exceeds(b.score) || (a.score.same_value(b.score) && a.encoding.spec_rank()
        < b.encoding.spec_rank())
}

/// Every record has a positive denominator, and the records are of
/// different candidates, in scoring order.
pub open spec fn in_scoring_order(scores: Seq<EncodingScore>) -> bool {
    &&& forall|i: int| 0 <= i < scores.len() ==> (#[trigger] scores[i]).wf()
    &&& forall|i: int, j: int|
        0 <= i < j < scores.len() ==> (#[trigger] scores[i]).encoding.spec_rank() < (
        #[trigger] scores[j]).encoding.spec_rank()
}

/// `record` is one of the first `k` records of `scores`.
spec fn among_first(scores: Seq<EncodingScore>, k: int, record: EncodingScore) -> bool {
    exists|m: int| 0 <= m < k && m < scores.len() && #[trigger] scores[m] == record
}

/// `ranked` holds the records of `scores`, each once, best first.
pub open spec fn is_ranking_of(ranked: Seq<EncodingScore>, scores: Seq<EncodingScore>) -> bool {
    &&& ranked.len() == scores.len()
    &&& forall|k: int| 0 <= k < scores.len() ==> ranked.contains(#[trigger] scores[k])
    &&& forall|i: int| 0 <= i < ranked.len() ==> scores.contains(#[trigger] ranked[i])
    &&& forall|i: int, j: int|
        0 <= i < j < ranked.len() ==> outranks(#[trigger] ranked[i], #[trigger] ranked[j])
}

/// The record that outranks all others of `scores`; where there is no
/// record at all, UTF-8 with a score of zero.
pub open spec fn best_of(scores: Seq<EncodingScore>) -> EncodingScore
    decreases scores.len(),
{
    if scores.len() == 0 {
        spec_zero_score(EncodingCandidate::Utf8)
    } else if scores.len() == 1 {
        scores[0]
    } else if outranks(scores.last(), best_of(scores.drop_last())) {
        scores.last()
    } else {
        best_of(scores.drop_last())
    }
}

/// Exact order of scores carries over a middle term.
pub proof fn lemma_exceeds_through(a: Score, b: Score, c: Score)
    requires
        a.wf(),
        b.wf(),
        c.wf(),
        a.exceeds(b),
        b.at_least(c),
    ensures
        a.exceeds(c),
{
    let (an, ad) = (a.numer as int, a.denom as int);
    let (bn, bd) = (b.numer as int, b.denom as int);
    let (cn, cd) = (c.numer as int, c.denom as int);
    assert(an * bd * cd > bn * ad * cd) by (nonlinear_arith)
        requires
            an * bd > bn * ad,
            cd > 0,
    ;
    assert(bn * cd * ad >= cn * bd * ad) by (nonlinear_arith)
        requires
            bn * cd >= cn * bd,
            ad > 0,
    ;
    assert(bn * ad * cd == bn * cd * ad) by (nonlinear_arith);
    assert(an * bd * cd == (an * cd) * bd) by (nonlinear_arith);
    assert(cn * bd * ad == (cn * ad) * bd) by (nonlinear_arith);
    assert(an * cd > cn * ad) by (nonlinear_arith)
        requires
            (an * cd) * bd > (cn * ad) * bd,
            bd > 0,
    ;
}

/// The candidate scores of any input are in scoring order.
pub proof fn lemma_candidate_scores_in_order(data: Seq<u8>)
    ensures
        in_scoring_order(candidate_scores(data)),
        candidate_scores(data).len() == CANDIDATE_COUNT,
        forall|i: int|
            0 <= i < CANDIDATE_COUNT ==> (#[trigger] candidate_scores(data)[i]).encoding
                == candidates()[i],
{
    let scores = candidate_scores(data);
    assert forall|i: int| 0 <= i < scores.len() implies (#[trigger] scores[i]).wf() by {
        let c = candidates()[i];
        let t = tally_of(decoded_text(c.spec_name(), data));
        assert(scores[i].score == score_of(t, decoded_with_errors(c.spec_name(), data)));
    }
}

/// The best record is one of the records, and outranks every other.
pub proof fn lemma_best_of(scores: Seq<EncodingScore>) -> (at: int)
    requires
        scores.len() > 0,
        in_scoring_order(scores),
    ensures
        0 <= at < scores.len(),
        scores[at] == best_of(scores),
        forall|k: int| 0 <= k < scores.len() && k != at ==> outranks(best_of(scores), #[trigger] scores[k]),
    decreases scores.len(),
{
    if scores.len() == 1 {
        0
    } else {
        let init = scores.drop_last();
        let last = scores.last();
        let n = init.len() as int;
        assert(forall|i: int| 0 <= i < n ==> init[i] == scores[i]);
        let at_init = lemma_best_of(init);
        let b = best_of(init);
        assert(b == scores[at_init]);
        assert(b.encoding.spec_rank() < last.encoding.spec_rank());
        if outranks(last, b) {
            assert forall|k: int| 0 <= k < scores.len() && k != n implies outranks(
                last,
                #[trigger] scores[k],
            ) by {
                if k != at_init {
                    assert(outranks(b, init[k]));
                    lemma_exceeds_through(last.score, b.score, scores[k].score);
                }
            }
            n
        } else {
            assert(outranks(b, last));
            at_init
        }
    }
}

/// The head of a ranking is the best record.
pub proof fn lemma_top_is_best(ranked: Seq<EncodingScore>, scores: Seq<EncodingScore>)
    requires
        scores.len() > 0,
        in_scoring_order(scores),
        is_ranking_of(ranked, scores),
    ensures
        ranked[0] == best_of(scores),
{
    let at = lemma_best_of(scores);
    let best = best_of(scores);
    assert(ranked.contains(scores[at]));
    let i = choose|i: int| 0 <= i < ranked.len() && ranked[i] == best;
    assert(scores.contains(ranked[0]));
    let k = choose|k: int| 0 <= k < scores.len() && scores[k] == ranked[0];
    if i != 0 {
        assert(outranks(ranked[0], ranked[i]));
        assert(k != at);
        assert(outranks(best, scores[k]));
    }
}

/// Of two records, at most one outranks the other, and none outranks
/// itself.
pub proof fn lemma_outranks_asymmetric(a: EncodingScore, b: EncodingScore)
    ensures
        !(outranks(a, b) && outranks(b, a)),
        !outranks(a, a),
{
}

/// A record of `scores` that outranks every other one is the best record:
/// the best is told by that alone.
pub proof fn lemma_best_unique(scores: Seq<EncodingScore>, record: EncodingScore)
    requires
        in_scoring_order(scores),
        scores.contains(record),
        forall|k: int|
            0 <= k < scores.len() ==> #[trigger] scores[k] == record || outranks(record, scores[k]),
    ensures
        record == best_of(scores),
{
    let at = lemma_best_of(scores);
    let k = choose|k: int| 0 <= k < scores.len() && scores[k] == record;
    if k != at {
        assert(outranks(best_of(scores), scores[k]));
        assert(scores[at] == record || outranks(record, scores[at]));
        lemma_outranks_asymmetric(record, best_of(scores));
    }
}

/// Two rankings of the same records agree up to position `upto`.
proof fn lemma_rankings_agree(
    a: Seq<EncodingScore>,
    b: Seq<EncodingScore>,
    scores: Seq<EncodingScore>,
    upto: int,
)
    requires
        is_ranking_of(a, scores),
        is_ranking_of(b, scores),
        0 <= upto <= scores.len(),
    ensures
        forall|i: int| 0 <= i < upto ==> a[i] == b[i],
    decreases upto,
{
    if upto > 0 {
        lemma_rankings_agree(a, b, scores, upto - 1);
        let i = upto - 1;
        assert(scores.contains(a[i]));
        assert(scores.contains(b[i]));
        let ka = choose|k: int| 0 <= k < scores.len() && scores[k] == a[i];
        let kb = choose|k: int| 0 <= k < scores.len() && scores[k] == b[i];
        assert(b.contains(scores[ka]));
        assert(a.contains(scores[kb]));
        let j = choose|j: int| 0 <= j < b.len() && b[j] == a[i];
        let m = choose|m: int| 0 <= m < a.len() && a[m] == b[i];
        if j < i {
            assert(a[j] == b[j]);
            assert(outranks(a[j], a[i]));
            lemma_outranks_asymmetric(a[i], a[i]);
        } else if m < i {
            assert(a[m] == b[m]);
            assert(outranks(b[m], b[i]));
            lemma_outranks_asymmetric(b[i], b[i]);
        } else if j > i && m > i {
            assert(outranks(b[i], b[j]));
            assert(outranks(a[i], a[m]));
            lemma_outranks_asymmetric(a[i], b[i]);
        }
    }
}

/// Records have one ranking: score and scoring order leave nothing open.
pub proof fn lemma_ranking_unique(
    a: Seq<EncodingScore>,
    b: Seq<EncodingScore>,
    scores: Seq<EncodingScore>,
)
    requires
        is_ranking_of(a, scores),
        is_ranking_of(b, scores),
    ensures
        a == b,
{
    lemma_rankings_agree(a, b, scores, scores.len() as int);
    assert(a =~= b);
}

/// Sorts score records best first. Records with the same score stay in
/// scoring order.
pub fn rank_scores(scores: &Vec<EncodingScore>) -> (ranked: Vec<EncodingScore>)
    requires
        in_scoring_order(scores@),
    ensures
        is_ranking_of(ranked@, scores@),
{
    let mut ranked: Vec<EncodingScore> = Vec::new();
    let mut k: usize = 0;
    while k < scores.len()
        invariant
            k <= scores@.len(),
            in_scoring_order(scores@),
            ranked@.len() == k,
            forall|i: int| 0 <= i < k ==> ranked@.contains(#[trigger] scores@[i]),
            forall|i: int|
                0 <= i < ranked@.len() ==> among_first(scores@, k as int, #[trigger] ranked@[i]),
            forall|i: int, j: int|
                0 <= i < j < ranked@.len() ==> outranks(#[trigger] ranked@[i], #[trigger] ranked@[j]),
        decreases scores@.len() - k,
    {
        let entry = scores[k];
        let mut at: usize = 0;
        while at < ranked.len() && !entry.score.gt(&ranked[at].score)
            invariant
                at <= ranked@.len(),
                ranked@.len() == k,
                k < scores@.len(),
                entry == scores@[k as int],
                in_scoring_order(scores@),
                forall|i: int|
                    0 <= i < ranked@.len() ==> among_first(
                        scores@,
                        k as int,
                        #[trigger] ranked@[i],
                    ),
                forall|i: int| 0 <= i < at ==> outranks(#[trigger] ranked@[i], entry),
            decreases ranked@.len() - at,
        {
            proof {
                assert(among_first(scores@, k as int, ranked@[at as int]));
                let m = choose|m: int| 0 <= m < k && scores@[m] == ranked@[at as int];
                assert(scores@[m].encoding.spec_rank() < scores@[k as int].encoding.spec_rank());
            }
            at += 1;
        }
        let ghost before = ranked@;
        ranked.insert(at, entry);
        proof {
            let after = ranked@;
            assert(after == before.insert(at as int, entry));
            assert forall|j: int| at < j < after.len() implies outranks(
                entry,
                #[trigger] after[j],
            ) by {
                assert(after[j] == before[j - 1]);
                assert(entry.score.exceeds(before[at as int].score));
                if j - 1 > at {
                    assert(outranks(before[at as int], before[j - 1]));
                    lemma_exceeds_through(entry.score, before[at as int].score, before[j - 1].score);
                }
            }
            assert forall|i: int, j: int| 0 <= i < j < after.len() implies outranks(
                #[trigger] after[i],
                #[trigger] after[j],
            ) by {
                if j < at {
                    assert(after[i] == before[i] && after[j] == before[j]);
                } else if j == at {
                    assert(after[i] == before[i]);
                } else if i < at {
                    assert(after[i] == before[i] && after[j] == before[j - 1]);
                } else if i == at {
                } else {
                    assert(after[i] == before[i - 1] && after[j] == before[j - 1]);
                }
            }
            assert forall|i: int| 0 <= i < k + 1 implies after.contains(#[trigger] scores@[i]) by {
                if i == k {
                    assert(after[at as int] == entry);
                } else {
                    let w = choose|w: int| 0 <= w < before.len() && before[w] == scores@[i];
                    if w < at {
                        assert(after[w] == before[w]);
                    } else {
                        assert(after[w + 1] == before[w]);
                    }
                }
            }
            assert forall|i: int| 0 <= i < after.len() implies among_first(
                scores@,
                k + 1,
                #[trigger] after[i],
            ) by {
                if i < at {
                    assert(after[i] == before[i]);
                    assert(among_first(scores@, k as int, before[i]));
                } else if i == at {
                    assert(scores@[k as int] == after[i]);
                } else {
                    assert(after[i] == before[i - 1]);
                    assert(among_first(scores@, k as int, before[i - 1]));
                }
            }
        }
        k += 1;
    }
    proof {
        assert forall|i: int| 0 <= i < ranked@.len() implies scores@.contains(
            #[trigger] ranked@[i],
        ) by {
            assert(among_first(scores@, k as int, ranked@[i]));
        }
    }
    ranked
}

/// Scores every candidate against `data` and ranks them, best first.
/// Candidates with the same score stay in scoring order.
pub fn score_all_encodings(data: &[u8]) -> (ranked: Vec<EncodingScore>)
    requires
        data@.len() <= MAX_INPUT_LEN,
    ensures
        is_ranking_of(ranked@, candidate_scores(data@)),
        ranked@.len() == CANDIDATE_COUNT,
        ranked@[0] == best_of(candidate_scores(data@)),
        forall|i: int| 0 <= i < ranked@.len() ==> counts_decoded(#[trigger] ranked@[i], data@),
{
    let mut scores: Vec<EncodingScore> = Vec::new();
    let mut k: usize = 0;
    while k < CANDIDATE_COUNT
        invariant
            k <= CANDIDATE_COUNT,
            data@.len() <= MAX_INPUT_LEN,
            scores@.len() == k,
            forall|i: int|
                0 <= i < k ==> #[trigger] scores@[i] == candidate_score(candidates()[i], data@),
            forall|i: int| 0 <= i < k ==> (#[trigger] scores@[i]).wf(),
            forall|i: int| 0 <= i < k ==> counts_decoded(#[trigger] scores@[i], data@),
        decreases CANDIDATE_COUNT - k,
    {
        let record = score_encoding(data, EncodingCandidate::at(k));
        scores.push(record);
        k += 1;
    }
    proof {
        assert(scores@ =~= candidate_scores(data@));
        lemma_candidate_scores_in_order(data@);
    }
    let ranked = rank_scores(&scores);
    proof {
        lemma_top_is_best(ranked@, scores@);
        assert forall|i: int| 0 <= i < ranked@.len() implies counts_decoded(
            #[trigger] ranked@[i],
            data@,
        ) by {
            assert(scores@.contains(ranked@[i]));
            let m = choose|m: int| 0 <= m < scores@.len() && scores@[m] == ranked@[i];
            assert(counts_decoded(scores@[m], data@));
        }
    }
    ranked
}

/// Picks the best candidate for `data`.
pub fn best_encoding(data: &[u8]) -> (best: EncodingScore)
    requires
        data@.len() <= MAX_INPUT_LEN,
    ensures
        best == best_of(candidate_scores(data@)),
        best.wf(),
        candidate_scores(data@).contains(best),
        counts_decoded(best, data@),
{
    let ranked = score_all_encodings(data);
    proof {
        lemma_candidate_scores_in_order(data@);
        let at = lemma_best_of(candidate_scores(data@));
    }
    if ranked.len() > 0 {
        ranked[0]
    } else {
        zero_score(EncodingCandidate::Utf8)
    }
}

} // verus!

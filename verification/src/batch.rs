//! Runs the pipeline over a list of files and keeps the account: one
//! record per file, in input order, and a tally of each status. A failure
//! is the record of its own file and touches no other.

use crate::classifier::{binary_by_extension, has_binary_extension, is_binary_name};
use crate::pipeline::{
    is_outcome_given, is_outcome_of, process_file_given, FileInput, FileOutcome, FileStatus,
};
use crate::text::{can_be_extension_of, is_bare_name};
use vstd::prelude::*;
use vstd::string::StringExecFns;

verus! {

/// The record of one file in a batch report.
#[derive(Clone, Debug)]
pub struct BatchFileResult {
    pub file_path: String,
    pub file_name: String,
    pub status: FileStatus,
    pub detected_encoding: Option<String>,
    pub error_message: Option<String>,
}

/// The report of a batch: the records in input order, and how many files
/// ended in each status.
#[derive(Clone, Debug)]
pub struct BatchResult {
    pub results: Vec<BatchFileResult>,
    pub total: usize,
    pub converted: usize,
    pub already_utf8: usize,
    pub binary: usize,
    pub errors: usize,
}

/// The text of an optional string.
pub open spec fn text_of(value: Option<String>) -> Option<Seq<char>> {
    match value {
        Some(s) => Some(s@),
        None => None,
    }
}

/// The encoding that a record names for an outcome: none for a binary
/// file, UTF-8 for one that needed no conversion, the detected one for a
/// converted file, and for a failure whatever had been detected before it.
pub open spec fn encoding_of(outcome: FileOutcome) -> Option<Seq<char>> {
    match outcome {
        FileOutcome::Binary => None,
        FileOutcome::AlreadyUtf8 => Some("UTF-8"@),
        FileOutcome::Converted { detection, .. } => Some(detection.encoding_name@),
        FileOutcome::Error { detected_encoding, .. } => text_of(detected_encoding),
    }
}

/// The message that a record carries for an outcome: that of the error,
/// and none for any other outcome.
pub open spec fn message_of(outcome: FileOutcome) -> Option<Seq<char>> {
    match outcome {
        FileOutcome::Error { error, .. } => Some(error.spec_message()),
        _ => None,
    }
}

/// The number of records with the given status.
pub open spec fn count_status(results: Seq<BatchFileResult>, status: FileStatus) -> nat
    decreases results.len(),
{
    if results.len() == 0 {
        0
    } else {
        count_status(results.drop_last(), status) + if results.last().status == status {
            1nat
        } else {
            0nat
        }
    }
}

impl BatchFileResult {
    /// Whether the record is that of `outcome` for the file at `path`.
    pub open spec fn describes(self, path: Seq<char>, name: Seq<char>, outcome: FileOutcome) -> bool {
        &&& self.file_path@ == path
        &&& self.file_name@ == name
        &&& self.status == outcome.spec_status()
        &&& text_of(self.detected_encoding) == encoding_of(outcome)
        &&& text_of(self.error_message) == message_of(outcome)
    }

    /// Whether the record is what the pipeline gives for `file`.
    pub open spec fn reports(self, file: FileInput) -> bool {
        exists|outcome: FileOutcome| #[trigger]
            is_outcome_of(outcome, file) && self.describes(
                file.file_path@,
                file.file_name@,
                outcome,
            )
    }

    /// Writes the record of an outcome.
    pub fn from_outcome(file_path: &str, file_name: &str, outcome: &FileOutcome) -> (r:
        BatchFileResult)
        ensures
            r.describes(file_path@, file_name@, *outcome),
    {
        let (detected_encoding, error_message) = match outcome {
            FileOutcome::Binary => (None, None),
            FileOutcome::AlreadyUtf8 => (Some(String::from_str("UTF-8")), None),
            FileOutcome::Converted { detection, .. } => (
                Some(detection.encoding_name.clone()),
                None,
            ),
            FileOutcome::Error { error, detected_encoding } => (
                match detected_encoding {
                    Some(name) => Some(name.clone()),
                    None => None,
                },
                Some(error.message()),
            ),
        };
        BatchFileResult {
            file_path: String::from_str(file_path),
            file_name: String::from_str(file_name),
            status: outcome.status(),
            detected_encoding,
            error_message,
        }
    }

    /// Turns the record into that of a failure: the converted text could
    /// not be persisted. The detected encoding stays.
    pub fn persist_failed(&self, message: &str) -> (r: BatchFileResult)
        ensures
            r.status == FileStatus::Error,
            text_of(r.error_message) == Some(message@),
            r.file_path@ == self.file_path@,
            r.file_name@ == self.file_name@,
            text_of(r.detected_encoding) == text_of(self.detected_encoding),
    {
        BatchFileResult {
            file_path: self.file_path.clone(),
            file_name: self.file_name.clone(),
            status: FileStatus::Error,
            detected_encoding: match &self.detected_encoding {
                Some(name) => Some(name.clone()),
                None => None,
            },
            error_message: Some(String::from_str(message)),
        }
    }
}

/// Every record has one status, so the four tallies add up to the number
/// of records.
pub proof fn lemma_statuses_partition(results: Seq<BatchFileResult>)
    ensures
        count_status(results, FileStatus::Converted) + count_status(
            results,
            FileStatus::AlreadyUtf8,
        ) + count_status(results, FileStatus::Binary) + count_status(results, FileStatus::Error)
            == results.len(),
    decreases results.len(),
{
    if results.len() > 0 {
        lemma_statuses_partition(results.drop_last());
    }
}

/// A new record adds one to the tally of its status and to no other.
pub proof fn lemma_count_push(
    results: Seq<BatchFileResult>,
    result: BatchFileResult,
    status: FileStatus,
)
    ensures
        count_status(results.push(result), status) == count_status(results, status) + if result.status
            == status {
            1nat
        } else {
            0nat
        },
{
    assert(results.push(result).drop_last() =~= results);
}

/// Replacing a record moves one from the tally of the old status to that
/// of the new.
pub proof fn lemma_count_update(
    results: Seq<BatchFileResult>,
    at: int,
    result: BatchFileResult,
    status: FileStatus,
)
    requires
        0 <= at < results.len(),
    ensures
        count_status(results.update(at, result), status) + (if results[at].status == status {
            1nat
        } else {
            0nat
        }) == count_status(results, status) + if result.status == status {
            1nat
        } else {
            0nat
        },
    decreases results.len(),
{
    let updated = results.update(at, result);
    if at == results.len() - 1 {
        assert(updated.drop_last() =~= results.drop_last());
    } else {
        assert(updated.drop_last() =~= results.drop_last().update(at, result));
        lemma_count_update(results.drop_last(), at, result, status);
    }
}

impl BatchResult {
    /// The tallies are those of the records, and the total is their
    /// number.
    pub open spec fn wf(self) -> bool {
        &&& self.total == self.results@.len()
        &&& self.converted == count_status(self.results@, FileStatus::Converted)
        &&& self.already_utf8 == count_status(self.results@, FileStatus::AlreadyUtf8)
        &&& self.binary == count_status(self.results@, FileStatus::Binary)
        &&& self.errors == count_status(self.results@, FileStatus::Error)
    }

    /// The four tallies add up to the total.
    pub open spec fn is_partitioned(self) -> bool {
        self.converted + self.already_utf8 + self.binary + self.errors == self.total
    }

    /// The report of an empty batch.
    pub fn new() -> (r: BatchResult)
        ensures
            r.wf(),
            r.results@.len() == 0,
            r.is_partitioned(),
    {
        BatchResult {
            results: Vec::new(),
            total: 0,
            converted: 0,
            already_utf8: 0,
            binary: 0,
            errors: 0,
        }
    }

    /// Adds the record of the next file.
    pub fn record(&mut self, result: BatchFileResult)
        requires
            old(self).wf(),
        ensures
            final(self).wf(),
            final(self).is_partitioned(),
            final(self).results@ == old(self).results@.push(result),
            final(self).total == old(self).total + 1,
    {
        let status = result.status;
        proof {
            lemma_count_push(self.results@, result, FileStatus::Converted);
            lemma_count_push(self.results@, result, FileStatus::AlreadyUtf8);
            lemma_count_push(self.results@, result, FileStatus::Binary);
            lemma_count_push(self.results@, result, FileStatus::Error);
            lemma_statuses_partition(self.results@);
            lemma_statuses_partition(self.results@.push(result));
        }
        self.results.push(result);
        self.total = self.results.len();
        match status {
            FileStatus::Converted => {
                self.converted = self.converted + 1;
            },
            FileStatus::AlreadyUtf8 => {
                self.already_utf8 = self.already_utf8 + 1;
            },
            FileStatus::Binary => {
                self.binary = self.binary + 1;
            },
            FileStatus::Error => {
                self.errors = self.errors + 1;
            },
        }
    }

    /// Turns the record at `index` into that of a failure, where the text
    /// converted for it could not be persisted, and moves it from the
    /// tally of its old status to that of the errors.
    pub fn mark_failed(&mut self, index: usize, message: &str)
        requires
            old(self).wf(),
            index < old(self).total,
        ensures
            final(self).wf(),
            final(self).is_partitioned(),
            final(self).total == old(self).total,
            final(self).results@.len() == old(self).results@.len(),
            forall|i: int|
                0 <= i < old(self).results@.len() && i != index ==> final(self).results@[i] == old(
                    self,
                ).results@[i],
            final(self).results@[index as int].status == FileStatus::Error,
            text_of(final(self).results@[index as int].error_message) == Some(message@),
            final(self).results@[index as int].file_path@ == old(self).results@[index as int].file_path@,
            final(self).results@[index as int].file_name@ == old(self).results@[index as int].file_name@,
            text_of(final(self).results@[index as int].detected_encoding) == text_of(
                old(self).results@[index as int].detected_encoding,
            ),
    {
        let was = self.results[index].status;
        let failed = self.results[index].persist_failed(message);
        proof {
            lemma_count_update(self.results@, index as int, failed, FileStatus::Converted);
            lemma_count_update(self.results@, index as int, failed, FileStatus::AlreadyUtf8);
            lemma_count_update(self.results@, index as int, failed, FileStatus::Binary);
            lemma_count_update(self.results@, index as int, failed, FileStatus::Error);
            lemma_statuses_partition(self.results@);
            lemma_statuses_partition(self.results@.update(index as int, failed));
        }
        self.results.set(index, failed);
        match was {
            FileStatus::Converted => {
                self.converted = self.converted - 1;
                self.errors = self.errors + 1;
            },
            FileStatus::AlreadyUtf8 => {
                self.already_utf8 = self.already_utf8 - 1;
                self.errors = self.errors + 1;
            },
            FileStatus::Binary => {
                self.binary = self.binary - 1;
                self.errors = self.errors + 1;
            },
            FileStatus::Error => {},
        }
    }
}

/// A well-formed report accounts for every file once: the tallies add up
/// to the total, and the total is the number of records.
pub proof fn lemma_report_partition(report: BatchResult)
    requires
        report.wf(),
    ensures
        report.is_partitioned(),
        report.total == report.results@.len(),
{
    lemma_statuses_partition(report.results@);
}

/// The record of a file depends on that file alone: whatever else is in a
/// batch, records of the same file under the same verdict on its
/// extension agree in status, encoding and message.
pub proof fn lemma_record_of_own_file(
    file: FileInput,
    binary_extension: bool,
    first: BatchFileResult,
    first_outcome: FileOutcome,
    second: BatchFileResult,
    second_outcome: FileOutcome,
)
    requires
        is_outcome_given(first_outcome, file, binary_extension),
        is_outcome_given(second_outcome, file, binary_extension),
        first.describes(file.file_path@, file.file_name@, first_outcome),
        second.describes(file.file_path@, file.file_name@, second_outcome),
    ensures
        first.status == second.status,
        first.file_path@ == second.file_path@,
        first.file_name@ == second.file_name@,
        text_of(first.detected_encoding) == text_of(second.detected_encoding),
        text_of(first.error_message) == text_of(second.error_message),
{
}

/// Whether `verdict` can be the answer to whether the extension in
/// `path` is one of a binary format: it is that of the binary list for a
/// part of the path behind a dot, or for no extension.
pub open spec fn is_verdict_for(path: Seq<char>, verdict: bool) -> bool {
    exists|found: Option<Seq<char>>| #[trigger]
        can_be_extension_of(path, found) && verdict == binary_by_extension(found)
}

/// Runs the pipeline over `files` in order, from what the caller gathered
/// and from whether each file's extension is one of a binary format. The
/// report holds one record per file, in input order; the outcomes, in the
/// same order, carry the converted text for the caller to persist. Each
/// record is that of its own file alone.
pub fn batch_convert_given(files: &Vec<FileInput>, binary_extensions: &Vec<bool>) -> (r: (
    BatchResult,
    Vec<FileOutcome>,
))
    requires
        binary_extensions@.len() == files@.len(),
        forall|i: int| 0 <= i < files@.len() ==> (#[trigger] files@[i]).wf(),
    ensures
        r.0.wf(),
        r.0.is_partitioned(),
        r.0.total == files@.len(),
        r.0.results@.len() == files@.len(),
        r.1@.len() == files@.len(),
        forall|i: int|
            0 <= i < files@.len() ==> is_outcome_given(
                #[trigger] r.1@[i],
                files@[i],
                binary_extensions@[i],
            ),
        forall|i: int|
            0 <= i < files@.len() ==> (#[trigger] r.0.results@[i]).describes(
                files@[i].file_path@,
                files@[i].file_name@,
                r.1@[i],
            ) && is_outcome_given(r.1@[i], files@[i], binary_extensions@[i]),
{
    let mut report = BatchResult::new();
    let mut outcomes: Vec<FileOutcome> = Vec::new();
    let mut i: usize = 0;
    while i < files.len()
        invariant
            i <= files@.len(),
            binary_extensions@.len() == files@.len(),
            forall|k: int| 0 <= k < files@.len() ==> (#[trigger] files@[k]).wf(),
            report.wf(),
            report.is_partitioned(),
            report.results@.len() == i,
            outcomes@.len() == i,
            forall|k: int|
                0 <= k < i ==> is_outcome_given(
                    #[trigger] outcomes@[k],
                    files@[k],
                    binary_extensions@[k],
                ) && report.results@[k].describes(
                    files@[k].file_path@,
                    files@[k].file_name@,
                    outcomes@[k],
                ),
        decreases files@.len() - i,
    {
        let file = &files[i];
        let outcome = process_file_given(file, binary_extensions[i]);
        let result = BatchFileResult::from_outcome(
            file.file_path.as_str(),
            file.file_name.as_str(),
            &outcome,
        );
        report.record(result);
        outcomes.push(outcome);
        i += 1;
    }
    (report, outcomes)
}

/// Runs the pipeline over `files` in order. The report holds one record
/// per file, in input order; the outcomes, in the same order, carry the
/// converted text for the caller to persist. Each record is that of its
/// own file alone. The extension of a file is the one that the platform
/// finds in its path, so that for a path without a dot the content alone
/// decides.
pub fn batch_convert(files: &Vec<FileInput>) -> (r: (BatchResult, Vec<FileOutcome>))
    requires
        forall|i: int| 0 <= i < files@.len() ==> (#[trigger] files@[i]).wf(),
    ensures
        r.0.wf(),
        r.0.is_partitioned(),
        r.0.total == files@.len(),
        r.0.results@.len() == files@.len(),
        r.1@.len() == files@.len(),
        forall|i: int| 0 <= i < files@.len() ==> is_outcome_of(#[trigger] r.1@[i], files@[i]),
        forall|i: int|
            0 <= i < files@.len() ==> (#[trigger] r.0.results@[i]).describes(
                files@[i].file_path@,
                files@[i].file_name@,
                r.1@[i],
            ) && is_outcome_of(r.1@[i], files@[i]),
        forall|i: int|
            0 <= i < files@.len() && !files@[i].file_path@.contains('.') ==> is_outcome_given(
                #[trigger] r.1@[i],
                files@[i],
                false,
            ),
        forall|i: int|
            0 <= i < files@.len() && !files@[i].file_path@.contains('.') ==> is_outcome_given(
                r.1@[i],
                files@[i],
                false,
            ) && (#[trigger] r.0.results@[i]).status == r.1@[i].spec_status(),
        forall|i: int|
            0 <= i < files@.len() && is_bare_name(files@[i].file_path@) ==> is_outcome_given(
                #[trigger] r.1@[i],
                files@[i],
                is_binary_name(files@[i].file_path@),
            ),
        forall|i: int|
            0 <= i < files@.len() && is_bare_name(files@[i].file_path@) ==> is_outcome_given(
                r.1@[i],
                files@[i],
                is_binary_name(files@[i].file_path@),
            ) && (#[trigger] r.0.results@[i]).status == r.1@[i].spec_status(),
{
    let mut binary_extensions: Vec<bool> = Vec::new();
    let mut i: usize = 0;
    while i < files.len()
        invariant
            i <= files@.len(),
            binary_extensions@.len() == i,
            forall|k: int|
                0 <= k < i ==> is_verdict_for(files@[k].file_path@, #[trigger] binary_extensions@[k]),
            forall|k: int|
                0 <= k < i && !files@[k].file_path@.contains('.') ==> !(
                #[trigger] binary_extensions@[k]),
            forall|k: int|
                0 <= k < i && is_bare_name(files@[k].file_path@) ==> #[trigger] binary_extensions@[k]
                    == is_binary_name(files@[k].file_path@),
        decreases files@.len() - i,
    {
        let verdict = has_binary_extension(files[i].file_path.as_str());
        binary_extensions.push(verdict);
        i += 1;
    }
    let r = batch_convert_given(files, &binary_extensions);
    proof {
        assert forall|k: int| 0 <= k < files@.len() implies is_outcome_of(
            #[trigger] r.1@[k],
            files@[k],
        ) by {
            assert(is_verdict_for(files@[k].file_path@, binary_extensions@[k]));
            let found = choose|found: Option<Seq<char>>| #[trigger]
                can_be_extension_of(files@[k].file_path@, found) && binary_extensions@[k]
                    == binary_by_extension(found);
            assert(is_outcome_given(r.1@[k], files@[k], binary_by_extension(found)));
        }
    }
    r
}

} // verus!

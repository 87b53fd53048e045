//! The decision procedure for one file: classify, and for text detect
//! and convert. Reading the file and persisting the result are left to
//! the caller, which hands in what reading gave.

use crate::classifier::{
    binary_by_extension, has_binary_extension, has_binary_signature, is_binary_name,
    sniff_signature,
};
use crate::decoder::MAX_INPUT_LEN;
use crate::encoder::{
    already_utf8, convert_to_utf8_bom, converted, detected_confidence, detected_name,
    is_already_utf8, smart_detect_encoding, DetectionResult,
};
use crate::error::PipelineError;
use crate::text::{can_be_extension_of, is_bare_name};
use vstd::prelude::*;
use vstd::string::StringExecFns;

verus! {

/// How the handling of a file ended.
#[derive(Clone, Copy, Debug, PartialEq, Eq, Structural)]
pub enum FileStatus {
    Converted,
    AlreadyUtf8,
    Binary,
    Error,
}

impl FileStatus {
    /// The status as it is written in reports.
    pub open spec fn spec_label(self) -> Seq<char> {
        match self {
            FileStatus::Converted => "converted"@,
            FileStatus::AlreadyUtf8 => "already_utf8"@,
            FileStatus::Binary => "binary"@,
            FileStatus::Error => "error"@,
        }
    }

    pub fn as_str(&self) -> (r: &'static str)
        ensures
            r@ == self.spec_label(),
    {
        match self {
            FileStatus::Converted => "converted",
            FileStatus::AlreadyUtf8 => "already_utf8",
            FileStatus::Binary => "binary",
            FileStatus::Error => "error",
        }
    }
}

/// The terminal state that one file reached.
#[derive(Clone, Debug)]
pub enum FileOutcome {
    /// The file is binary and is passed through as it is.
    Binary,
    /// The file is UTF-8 already; nothing is rewritten.
    AlreadyUtf8,
    /// The file was converted; `data` is UTF-8 behind a byte-order mark.
    Converted { detection: DetectionResult, data: Vec<u8> },
    /// The file could not be handled. `detected_encoding` is set where
    /// detection had finished before the failure.
    Error { error: PipelineError, detected_encoding: Option<String> },
}

impl FileOutcome {
    /// The status of the outcome.
    pub open spec fn spec_status(self) -> FileStatus {
        match self {
            FileOutcome::Binary => FileStatus::Binary,
            FileOutcome::AlreadyUtf8 => FileStatus::AlreadyUtf8,
            FileOutcome::Converted { .. } => FileStatus::Converted,
            FileOutcome::Error { .. } => FileStatus::Error,
        }
    }

    pub fn status(&self) -> (r: FileStatus)
        ensures
            r == self.spec_status(),
    {
        match self {
            FileOutcome::Binary => FileStatus::Binary,
            FileOutcome::AlreadyUtf8 => FileStatus::AlreadyUtf8,
            FileOutcome::Converted { .. } => FileStatus::Converted,
            FileOutcome::Error { .. } => FileStatus::Error,
        }
    }
}

/// What to do with a file after a look at its path.
#[derive(Clone, Debug)]
pub enum FileStep {
    /// The outcome is settled without reading the file.
    Finished(FileOutcome),
    /// The content has to be read and handed to [`process_bytes`], or the
    /// failure to [`read_failed`].
    ReadContent,
}

/// The status that the content of a file leads to: binary by signature,
/// else UTF-8 already, else converted. Content alone never leads to an
/// error, since detection only names encodings that conversion knows.
pub open spec fn status_of_bytes(data: Seq<u8>) -> FileStatus {
    if has_binary_signature(data) {
        FileStatus::Binary
    } else if already_utf8(data) {
        FileStatus::AlreadyUtf8
    } else {
        FileStatus::Converted
    }
}

/// Whether `outcome` is what the pipeline gives for the content `data`.
pub open spec fn is_outcome_of_bytes(outcome: FileOutcome, data: Seq<u8>) -> bool {
    &&& outcome.spec_status() == status_of_bytes(data)
    &&& outcome matches FileOutcome::Converted { detection, data: out } ==> {
        &&& detection.encoding_name@ == detected_name(data)
        &&& detection.confidence == detected_confidence(data)
        &&& out@ == converted(data, detected_name(data))
    }
}

/// Whether `outcome` is a failure to read with the given message.
pub open spec fn is_read_failure(outcome: FileOutcome, message: Seq<char>) -> bool {
    outcome matches FileOutcome::Error { error: PipelineError::Io(m), detected_encoding: None }
        && m@ == message
}

/// Whether `outcome` says that the file does not exist.
pub open spec fn is_not_found(outcome: FileOutcome) -> bool {
    outcome matches FileOutcome::Error { error: PipelineError::NotFound, detected_encoding: None }
}

/// Whether `step` is what follows for a file that exists or not, and
/// whose extension is one of a binary format or not: a path that does not
/// exist ends in an error; a binary extension ends in `Binary` without a
/// read; every other file has to be read.
pub open spec fn is_step_given(step: FileStep, exists: bool, binary_extension: bool) -> bool {
    if !exists {
        step is Finished && is_not_found(step->Finished_0)
    } else if binary_extension {
        step is Finished && step->Finished_0 is Binary
    } else {
        step is ReadContent
    }
}

/// Decides what to do with a file before anything is read, from whether
/// it exists and whether its extension is one of a binary format.
pub fn begin_file_given(exists: bool, binary_extension: bool) -> (r: FileStep)
    ensures
        is_step_given(r, exists, binary_extension),
{
    if !exists {
        return FileStep::Finished(
            FileOutcome::Error { error: PipelineError::NotFound, detected_encoding: None },
        );
    }
    if binary_extension {
        FileStep::Finished(FileOutcome::Binary)
    } else {
        FileStep::ReadContent
    }
}

/// Looks at the path of a file before anything is read. A path that does
/// not exist ends in an error; a binary extension ends in `Binary`
/// without a read; every other file has to be read. The extension is the
/// one that the platform finds in the path: a part of the path behind a
/// dot, or none, so that an existing path without a dot is always read.
pub fn begin_file(file_path: &str, exists: bool) -> (r: FileStep)
    ensures
        exists|found: Option<Seq<char>>| #[trigger]
            can_be_extension_of(file_path@, found) && is_step_given(
                r,
                exists,
                binary_by_extension(found),
            ),
        !file_path@.contains('.') ==> is_step_given(r, exists, false),
        is_bare_name(file_path@) ==> is_step_given(r, exists, is_binary_name(file_path@)),
        !exists ==> r is Finished && is_not_found(r->Finished_0),
        exists && !file_path@.contains('.') ==> r is ReadContent,
{
    let binary_extension = has_binary_extension(file_path);
    begin_file_given(exists, binary_extension)
}

/// The outcome for a file that could not be read.
pub fn read_failed(message: &str) -> (r: FileOutcome)
    ensures
        is_read_failure(r, message@),
{
    FileOutcome::Error {
        error: PipelineError::Io(String::from_str(message)),
        detected_encoding: None,
    }
}

/// Runs the pipeline on the content of a file: a known signature makes it
/// binary; valid UTF-8 is left alone; anything else is detected and
/// converted, whatever the confidence of the detection.
pub fn process_bytes(data: &[u8]) -> (r: FileOutcome)
    requires
        data@.len() <= MAX_INPUT_LEN,
    ensures
        is_outcome_of_bytes(r, data@),
{
    if sniff_signature(data) {
        return FileOutcome::Binary;
    }
    if is_already_utf8(data) {
        return FileOutcome::AlreadyUtf8;
    }
    let detection = smart_detect_encoding(data);
    match convert_to_utf8_bom(data, detection.encoding_name.as_str()) {
        Ok(converted_data) => FileOutcome::Converted { detection, data: converted_data },
        // Detection names candidates only, and those resolve.
        Err(error) => FileOutcome::Error {
            error,
            detected_encoding: Some(detection.encoding_name),
        },
    }
}

/// What the caller gathered about one file before the pipeline runs.
#[derive(Debug)]
pub struct FileInput {
    pub file_path: String,
    pub file_name: String,
    /// Whether the path exists.
    pub exists: bool,
    /// What reading the file gave: its bytes, or the message of the
    /// failure. It is not looked at where the path does not exist or has
    /// a binary extension.
    pub content: Result<Vec<u8>, String>,
}

impl FileInput {
    /// The content, if any, is short enough to decode.
    pub open spec fn wf(self) -> bool {
        self.content matches Ok(data) ==> data@.len() <= MAX_INPUT_LEN
    }
}

/// Whether `outcome` is what the pipeline gives for `file` where its
/// extension is one of a binary format, or is not: a missing file is not
/// found; a binary extension makes the file binary; an unreadable file is
/// a read failure; and content decides for every other file.
pub open spec fn is_outcome_given(
    outcome: FileOutcome,
    file: FileInput,
    binary_extension: bool,
) -> bool {
    if !file.exists {
        is_not_found(outcome)
    } else if binary_extension {
        outcome is Binary
    } else {
        match file.content {
            Ok(data) => is_outcome_of_bytes(outcome, data@),
            Err(message) => is_read_failure(outcome, message@),
        }
    }
}

/// Whether `outcome` is what the pipeline gives for `file`, with the
/// extension that the platform finds in its path: a part of the path
/// behind a dot, or none.
pub open spec fn is_outcome_of(outcome: FileOutcome, file: FileInput) -> bool {
    exists|found: Option<Seq<char>>| #[trigger]
        can_be_extension_of(file.file_path@, found) && is_outcome_given(
            outcome,
            file,
            binary_by_extension(found),
        )
}

/// Runs the pipeline on one file from what the caller gathered and from
/// whether the file's extension is one of a binary format.
pub fn process_file_given(file: &FileInput, binary_extension: bool) -> (r: FileOutcome)
    requires
        file.wf(),
    ensures
        is_outcome_given(r, *file, binary_extension),
{
    match begin_file_given(file.exists, binary_extension) {
        FileStep::Finished(outcome) => outcome,
        FileStep::ReadContent => match &file.content {
            Ok(data) => process_bytes(data.as_slice()),
            Err(message) => read_failed(message.as_str()),
        },
    }
}

/// Runs the pipeline on one file from what the caller gathered. The
/// extension is the one that the platform finds in the path, so that for
/// a path without a dot the content alone decides.
pub fn process_file(file: &FileInput) -> (r: FileOutcome)
    requires
        file.wf(),
    ensures
        is_outcome_of(r, *file),
        !file.file_path@.contains('.') ==> is_outcome_given(r, *file, false),
        is_bare_name(file.file_path@) ==> is_outcome_given(
            r,
            *file,
            is_binary_name(file.file_path@),
        ),
        !file.exists ==> is_not_found(r),
        file.exists && file.content is Err ==> r.spec_status() == FileStatus::Error
            || r.spec_status() == FileStatus::Binary,
        file.exists && file.content is Ok ==> r.spec_status() != FileStatus::Error,
{
    let binary_extension = has_binary_extension(file.file_path.as_str());
    process_file_given(file, binary_extension)
}

/// Whether `r` is what handling `file` without a window comes to, where
/// its extension is one of a binary format, or is not: a missing file is
/// not dealt with, and is no error; a failure to read is handed back as
/// its message; every other file is dealt with.
pub open spec fn is_silent_result(
    r: Result<bool, String>,
    file: FileInput,
    binary_extension: bool,
) -> bool {
    if !file.exists {
        r == Ok::<bool, String>(false)
    } else if binary_extension {
        r == Ok::<bool, String>(true)
    } else {
        match file.content {
            Ok(_) => r == Ok::<bool, String>(true),
            Err(message) => r is Err && r->Err_0@ == "Failed to read file: "@ + message@,
        }
    }
}

/// What handling a file without a window comes to, once the pipeline has
/// ended in `outcome`: a missing file is not dealt with, and is no error;
/// a failure is handed back as its message; every other file is dealt
/// with.
pub open spec fn is_silent_result_of(
    r: Result<bool, String>,
    exists: bool,
    outcome: FileOutcome,
) -> bool {
    if !exists {
        r == Ok::<bool, String>(false)
    } else {
        match outcome {
            FileOutcome::Error { error, .. } => r is Err && r->Err_0@ == spec_silent_failure(
                error,
            ),
            _ => r == Ok::<bool, String>(true),
        }
    }
}

/// Tells, from the outcome of the pipeline, whether a file that is
/// handled without a window was dealt with.
pub fn silent_result_of(exists: bool, outcome: &FileOutcome) -> (r: Result<bool, String>)
    ensures
        is_silent_result_of(r, exists, *outcome),
{
    if !exists {
        return Ok(false);
    }
    match outcome {
        FileOutcome::Error { error, .. } => Err(silent_failure(error)),
        _ => Ok(true),
    }
}

/// Handles a file without showing anything, from what the caller
/// gathered and from whether the file's extension is one of a binary
/// format: tells whether the file was dealt with.
pub fn process_file_silent_given(file: &FileInput, binary_extension: bool) -> (r: Result<
    bool,
    String,
>)
    requires
        file.wf(),
    ensures
        is_silent_result(r, *file, binary_extension),
{
    let outcome = process_file_given(file, binary_extension);
    silent_result_of(file.exists, &outcome)
}

/// Handles a file without showing anything: tells whether the file was
/// dealt with. A path that does not exist is not, and is no error; a
/// failure is handed back as its message. The extension is the one that
/// the platform finds in the path, so that an unreadable file without a
/// dot in its path always fails.
pub fn process_file_silent(file: &FileInput) -> (r: Result<bool, String>)
    requires
        file.wf(),
    ensures
        exists|found: Option<Seq<char>>| #[trigger]
            can_be_extension_of(file.file_path@, found) && is_silent_result(
                r,
                *file,
                binary_by_extension(found),
            ),
        !file.file_path@.contains('.') ==> is_silent_result(r, *file, false),
        is_bare_name(file.file_path@) ==> is_silent_result(
            r,
            *file,
            is_binary_name(file.file_path@),
        ),
        !file.exists ==> r == Ok::<bool, String>(false),
        file.exists && file.content is Ok ==> r == Ok::<bool, String>(true),
        file.exists && file.content is Err && !file.file_path@.contains('.') ==> r is Err,
        r is Err ==> file.exists && file.content is Err && r->Err_0@ == "Failed to read file: "@
            + file.content->Err_0@,
{
    let binary_extension = has_binary_extension(file.file_path.as_str());
    process_file_silent_given(file, binary_extension)
}

/// The message of a failure met while a file was handled silently.
pub open spec fn spec_silent_failure(error: PipelineError) -> Seq<char> {
    match error {
        PipelineError::Io(detail) => "Failed to read file: "@ + detail@,
        _ => error.spec_message(),
    }
}

pub fn silent_failure(error: &PipelineError) -> (r: String)
    ensures
        r@ == spec_silent_failure(*error),
{
    match error {
        PipelineError::Io(detail) => String::from_str("Failed to read file: ").concat(
            detail.as_str(),
        ),
        _ => error.message(),
    }
}

} // verus!

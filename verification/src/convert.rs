//! Opening a single file: what is shown to the user about it, and the
//! converted bytes that the caller is to persist.

use crate::bom::without_bom;
use crate::classifier::{binary_by_extension, has_binary_extension, is_binary_name};
use crate::decoder::{decoded_text, MAX_INPUT_LEN};
use crate::encoder::{
    converted, decode_source, detected_confidence, detected_name,
    lemma_detected_name_is_candidate,
};
use crate::error::PipelineError;
use crate::pipeline::{process_file_given, status_of_bytes, FileInput, FileOutcome, FileStatus};
use crate::preview::{generate_preview, get_preview_lines, preview_of, preview_text};
use crate::score::Score;
use crate::text::{can_be_extension_of, is_bare_name, views_of};
use vstd::prelude::*;
use vstd::string::StringExecFns;

verus! {

/// What opening one file came to.
#[derive(Clone, Debug)]
pub struct ConvertResult {
    pub auto_converted: bool,
    pub is_binary: bool,
    pub detected_encoding: String,
    pub confidence: Score,
    /// Where the converted text was persisted; set by the caller.
    pub temp_file_path: Option<String>,
    pub original_preview: Vec<String>,
    pub converted_preview: Vec<String>,
    pub original_path: String,
    pub file_name: String,
}

/// The one preview line shown for a binary file.
pub open spec fn binary_notice(file_name: Seq<char>) -> Seq<char> {
    "[バイナリファイル: "@ + file_name + "]"@
}

/// The message with which opening a file fails.
pub open spec fn open_failure(file_path: Seq<char>, error: PipelineError) -> Seq<char> {
    match error {
        PipelineError::NotFound => "File not found: "@ + file_path,
        PipelineError::Io(detail) => "Failed to read file: "@ + detail@,
        _ => error.spec_message(),
    }
}

impl ConvertResult {
    /// What every successful result holds: the file is named, nothing is
    /// persisted yet, and the conversion went without asking.
    pub open spec fn is_for(self, file: FileInput) -> bool {
        &&& self.auto_converted
        &&& self.temp_file_path is None
        &&& self.original_path@ == file.file_path@
        &&& self.file_name@ == file.file_name@
    }

    /// Whether this is the result for a binary file.
    pub open spec fn is_binary_result(self, file: FileInput) -> bool {
        &&& self.is_for(file)
        &&& self.is_binary
        &&& self.detected_encoding@ == "binary"@
        &&& self.confidence == Score::spec_certain()
        &&& views_of(self.original_preview@) == seq![binary_notice(file.file_name@)]
        &&& self.converted_preview@.len() == 0
    }

    /// Whether this is the result for a file that is UTF-8 already.
    pub open spec fn is_utf8_result(self, file: FileInput) -> bool {
        &&& self.is_for(file)
        &&& !self.is_binary
        &&& self.detected_encoding@ == "UTF-8"@
        &&& self.confidence == Score::spec_certain()
        &&& self.original_preview@.len() == 0
        &&& self.converted_preview@.len() == 0
    }

    /// Whether this is the result for the converted content `data`, with
    /// previews of `lines` lines: the source as its detected encoding
    /// reads it, and the text that the converted bytes hold.
    pub open spec fn is_converted_result(self, file: FileInput, data: Seq<u8>, lines: nat) -> bool {
        &&& self.is_for(file)
        &&& !self.is_binary
        &&& self.detected_encoding@ == detected_name(data)
        &&& self.confidence == detected_confidence(data)
        &&& views_of(self.original_preview@) == preview_of(
            preview_text(data, detected_name(data)),
            lines,
        )
        &&& views_of(self.converted_preview@) == preview_of(
            decoded_text(detected_name(data), without_bom(data)),
            lines,
        )
    }
}

/// Whether `r` is the result shown for a binary file: nothing is
/// converted.
pub open spec fn is_binary_opening(
    r: Result<(ConvertResult, Option<Vec<u8>>), String>,
    file: FileInput,
) -> bool {
    r is Ok && r->Ok_0.0.is_binary_result(file) && r->Ok_0.1 is None
}

/// Whether `r` is what opening `file` comes to, where its extension is
/// one of a binary format, or is not.
///
/// A missing file and a failure to read fail with their messages. A
/// binary extension, or else a signature in the content, gives the binary
/// result. Content that is UTF-8 already gives the UTF-8 result. Any
/// other content is detected and converted: the result names the detected
/// encoding with its confidence and previews, and with it come the
/// converted bytes.
pub open spec fn opens_as(
    r: Result<(ConvertResult, Option<Vec<u8>>), String>,
    file: FileInput,
    binary_extension: bool,
    lines: nat,
) -> bool {
    if !file.exists {
        r is Err && r->Err_0@ == open_failure(file.file_path@, PipelineError::NotFound)
    } else if binary_extension {
        is_binary_opening(r, file)
    } else {
        match file.content {
            Err(message) => r is Err && r->Err_0@ == "Failed to read file: "@ + message@,
            Ok(data) => match status_of_bytes(data@) {
                FileStatus::Binary => is_binary_opening(r, file),
                FileStatus::AlreadyUtf8 => r is Ok && r->Ok_0.0.is_utf8_result(file) && r->Ok_0.1
                    is None,
                _ => {
                    &&& r is Ok
                    &&& r->Ok_0.0.is_converted_result(file, data@, lines)
                    &&& r->Ok_0.1 is Some
                    &&& r->Ok_0.1->Some_0@ == converted(data@, detected_name(data@))
                },
            },
        }
    }
}

/// Writes the message with which opening a file fails.
pub fn open_failure_message(file_path: &str, error: &PipelineError) -> (r: String)
    ensures
        r@ == open_failure(file_path@, *error),
{
    match error {
        PipelineError::NotFound => String::from_str("File not found: ").concat(file_path),
        PipelineError::Io(detail) => String::from_str("Failed to read file: ").concat(
            detail.as_str(),
        ),
        _ => error.message(),
    }
}

/// Runs the pipeline on one file and writes up the result for display,
/// from what the caller gathered and from whether the file's extension is
/// one of a binary format. With a converted file come the bytes to
/// persist. A file that does not exist or cannot be read fails with a
/// message.
pub fn detect_and_convert_given(
    file: &FileInput,
    binary_extension: bool,
    preview_lines: usize,
) -> (r: Result<(ConvertResult, Option<Vec<u8>>), String>)
    requires
        file.wf(),
    ensures
        opens_as(r, *file, binary_extension, preview_lines as nat),
{
    let outcome = process_file_given(file, binary_extension);
    match outcome {
        FileOutcome::Binary => {
            let notice = String::from_str("[バイナリファイル: ").concat(
                file.file_name.as_str(),
            ).concat("]");
            let mut original_preview: Vec<String> = Vec::new();
            original_preview.push(notice);
            let result = ConvertResult {
                auto_converted: true,
                is_binary: true,
                detected_encoding: String::from_str("binary"),
                confidence: Score::certain(),
                temp_file_path: None,
                original_preview,
                converted_preview: Vec::new(),
                original_path: file.file_path.clone(),
                file_name: file.file_name.clone(),
            };
            proof {
                assert(views_of(result.original_preview@) =~= seq![
                    binary_notice(file.file_name@),
                ]);
            }
            Ok((result, None))
        },
        FileOutcome::AlreadyUtf8 => {
            let result = ConvertResult {
                auto_converted: true,
                is_binary: false,
                detected_encoding: String::from_str("UTF-8"),
                confidence: Score::certain(),
                temp_file_path: None,
                original_preview: Vec::new(),
                converted_preview: Vec::new(),
                original_path: file.file_path.clone(),
                file_name: file.file_name.clone(),
            };
            Ok((result, None))
        },
        FileOutcome::Converted { detection, data: converted_data } => {
            match &file.content {
                Ok(data) => {
                    let name = detection.encoding_name.as_str();
                    proof {
                        lemma_detected_name_is_candidate(data@);
                    }
                    let original_preview = generate_preview(data.as_slice(), name, preview_lines);
                    let converted_preview = match decode_source(data.as_slice(), name) {
                        Ok(text) => get_preview_lines(text.as_str(), preview_lines),
                        // The detected name is a candidate's: conversion went through.
                        Err(_) => Vec::new(),
                    };
                    let result = ConvertResult {
                        auto_converted: true,
                        is_binary: false,
                        detected_encoding: detection.encoding_name.clone(),
                        confidence: detection.confidence,
                        temp_file_path: None,
                        original_preview,
                        converted_preview,
                        original_path: file.file_path.clone(),
                        file_name: file.file_name.clone(),
                    };
                    Ok((result, Some(converted_data)))
                },
                // A converted outcome comes from content that was read.
                Err(message) => Err(message.clone()),
            }
        },
        FileOutcome::Error { error, detected_encoding } => {
            Err(open_failure_message(file.file_path.as_str(), &error))
        },
    }
}

/// Runs the pipeline on one file and writes up the result for display.
/// With a converted file come the bytes to persist. A file that does not
/// exist or cannot be read fails with a message. The extension is the one
/// that the platform finds in the path, so that for a path without a dot
/// the content alone decides.
pub fn detect_and_convert(file: &FileInput, preview_lines: usize) -> (r: Result<
    (ConvertResult, Option<Vec<u8>>),
    String,
>)
    requires
        file.wf(),
    ensures
        exists|found: Option<Seq<char>>| #[trigger]
            can_be_extension_of(file.file_path@, found) && opens_as(
                r,
                *file,
                binary_by_extension(found),
                preview_lines as nat,
            ),
        !file.file_path@.contains('.') ==> opens_as(r, *file, false, preview_lines as nat),
        is_bare_name(file.file_path@) ==> opens_as(
            r,
            *file,
            is_binary_name(file.file_path@),
            preview_lines as nat,
        ),
        !file.exists ==> r is Err && r->Err_0@ == open_failure(
            file.file_path@,
            PipelineError::NotFound,
        ),
{
    let binary_extension = has_binary_extension(file.file_path.as_str());
    detect_and_convert_given(file, binary_extension, preview_lines)
}

} // verus!

//! The settings that a caller keeps for the user. Where they are stored is
//! the caller's business; this is what they hold and what they start as.

use crate::score::Score;
use vstd::prelude::*;
use vstd::string::StringExecFns;

verus! {

/// The user's settings.
#[derive(Clone, Debug)]
pub struct AppConfig {
    /// The application that opens files; `"system_default"` leaves the
    /// choice to the operating system.
    pub default_app: String,
    /// The form that converted text is written in.
    pub target_encoding: String,
    /// The confidence below which a detection would be put to the user.
    pub confidence_threshold: Score,
    /// The number of lines in a preview.
    pub preview_lines: usize,
    /// Whether persisted conversions outlive the session.
    pub keep_temp_file: bool,
}

/// The number of preview lines that settings start with.
pub const DEFAULT_PREVIEW_LINES: usize = 10;

/// The confidence threshold that settings start with, in hundredths.
pub const DEFAULT_THRESHOLD: u64 = 75;

impl AppConfig {
    /// Whether these are the settings that a new installation starts with.
    pub open spec fn is_default(self) -> bool {
        &&& self.default_app@ == "system_default"@
        &&& self.target_encoding@ == "utf-8-bom"@
        &&& self.confidence_threshold == Score::spec_from_hundredths(DEFAULT_THRESHOLD)
        &&& self.preview_lines == DEFAULT_PREVIEW_LINES
        &&& !self.keep_temp_file
    }
}

impl Default for AppConfig {
    fn default() -> (r: Self)
        ensures
            r.is_default(),
            r.confidence_threshold.wf(),
    {
        AppConfig {
            default_app: String::from_str("system_default"),
            target_encoding: String::from_str("utf-8-bom"),
            confidence_threshold: Score::from_hundredths(DEFAULT_THRESHOLD),
            preview_lines: DEFAULT_PREVIEW_LINES,
            keep_temp_file: false,
        }
    }
}

} // verus!

//! What is decided before a file is handed to a viewer: which program
//! opens it, and under which name converted text is persisted.

use crate::text::str_eq;
use vstd::prelude::*;
use vstd::string::StringExecFns;

verus! {

/// What opens a file.
#[derive(Clone, Copy, Debug, PartialEq, Eq, Structural)]
pub enum LaunchTarget {
    /// The handler that the operating system has for the file.
    SystemDefault,
    /// The application at the configured path.
    Application,
}

/// The target for a configured application path: the system's handler
/// where the path is empty or `"system_default"`, else the application.
pub open spec fn target_of(app_path: Seq<char>) -> LaunchTarget {
    if app_path.len() == 0 || app_path == "system_default"@ {
        LaunchTarget::SystemDefault
    } else {
        LaunchTarget::Application
    }
}

/// The name under which a conversion is persisted: the stem of the
/// source name, or `converted` where it has none; then `_utf8.`; then
/// the extension of the source name, or `csv` where it has none.
pub open spec fn utf8_name_of(stem: Option<Seq<char>>, extension: Option<Seq<char>>) -> Seq<char> {
    (match stem {
        Some(s) => s,
        None => "converted"@,
    }) + "_utf8."@ + (match extension {
        Some(e) => e,
        None => "csv"@,
    })
}

/// Decides what opens a file.
pub fn launch_target(app_path: &str) -> (r: LaunchTarget)
    ensures
        r == target_of(app_path@),
{
    if app_path.is_empty() || str_eq(app_path, "system_default") {
        LaunchTarget::SystemDefault
    } else {
        LaunchTarget::Application
    }
}

/// Names the file that holds a conversion, so that the source file's
/// extension, and with it its viewer, is kept.
pub fn temp_file_name(stem: Option<&str>, extension: Option<&str>) -> (r: String)
    ensures
        r@ == utf8_name_of(
            match stem {
                Some(s) => Some(s@),
                None => None,
            },
            match extension {
                Some(e) => Some(e@),
                None => None,
            },
        ),
{
    let stem = match stem {
        Some(s) => s,
        None => "converted",
    };
    let extension = match extension {
        Some(e) => e,
        None => "csv",
    };
    String::from_str(stem).concat("_utf8.").concat(extension)
}

} // verus!

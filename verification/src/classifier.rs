//! Decides whether a file is binary, and so to be left as it is, or text.
//!
//! The extension is looked at first, then the leading bytes; the first
//! match wins, and what matches nothing is text.

use crate::text::{
    can_be_extension_of, extension_of_name, found_text, is_bare_name, lemma_extension_of_dotted,
    lemma_no_dot_no_extension, lowercase, path_extension, str_eq, to_lowercase,
};
use vstd::prelude::*;

verus! {

/// What a file is taken to be.
#[derive(Clone, Copy, Debug, PartialEq, Eq, Structural)]
pub enum FileKind {
    Binary,
    Text,
}

/// The number of leading bytes that a signature takes.
pub const SIGNATURE_LEN: usize = 4;

/// Whether `extension`, in lower case, is on the list of binary
/// extensions: office documents, PDF, archives, images, audio, video and
/// executables.
pub open spec fn is_binary_extension(extension: Seq<char>) -> bool {
    ||| extension == "xls"@
    ||| extension == "xlsx"@
    ||| extension == "xlsm"@
    ||| extension == "xlsb"@
    ||| extension == "doc"@
    ||| extension == "docx"@
    ||| extension == "docm"@
    ||| extension == "ppt"@
    ||| extension == "pptx"@
    ||| extension == "pptm"@
    ||| extension == "pdf"@
    ||| extension == "zip"@
    ||| extension == "rar"@
    ||| extension == "7z"@
    ||| extension == "gz"@
    ||| extension == "tar"@
    ||| extension == "png"@
    ||| extension == "jpg"@
    ||| extension == "jpeg"@
    ||| extension == "gif"@
    ||| extension == "bmp"@
    ||| extension == "ico"@
    ||| extension == "webp"@
    ||| extension == "svg"@
    ||| extension == "mp3"@
    ||| extension == "wav"@
    ||| extension == "ogg"@
    ||| extension == "flac"@
    ||| extension == "mp4"@
    ||| extension == "avi"@
    ||| extension == "mkv"@
    ||| extension == "mov"@
    ||| extension == "exe"@
    ||| extension == "dll"@
    ||| extension == "msi"@
}

/// Whether `extension`, in lower case, is on the list of text extensions.
pub open spec fn is_text_extension(extension: Seq<char>) -> bool {
    ||| extension == "csv"@
    ||| extension == "tsv"@
    ||| extension == "txt"@
    ||| extension == "xml"@
    ||| extension == "xsl"@
    ||| extension == "xslt"@
    ||| extension == "json"@
    ||| extension == "htm"@
    ||| extension == "html"@
    ||| extension == "dat"@
    ||| extension == "log"@
    ||| extension == "md"@
    ||| extension == "yml"@
    ||| extension == "yaml"@
    ||| extension == "toml"@
    ||| extension == "ini"@
    ||| extension == "cfg"@
    ||| extension == "conf"@
    ||| extension == "properties"@
    ||| extension == "sql"@
    ||| extension == "sh"@
    ||| extension == "bat"@
    ||| extension == "cmd"@
    ||| extension == "ps1"@
}

/// Whether `data` opens with `50 4B 03 04`, the mark of ZIP containers and
/// with them of current office formats.
pub open spec fn has_zip_signature(data: Seq<u8>) -> bool {
    data.len() >= 4 && data[0] == 0x50 && data[1] == 0x4B && data[2] == 0x03 && data[3] == 0x04
}

/// Whether `data` opens with `D0 CF 11 E0`, the mark of OLE2 compound
/// documents and with them of older office formats.
pub open spec fn has_ole2_signature(data: Seq<u8>) -> bool {
    data.len() >= 4 && data[0] == 0xD0 && data[1] == 0xCF && data[2] == 0x11 && data[3] == 0xE0
}

/// Whether `data` opens with `25 50 44 46`, the mark of PDF.
pub open spec fn has_pdf_signature(data: Seq<u8>) -> bool {
    data.len() >= 4 && data[0] == 0x25 && data[1] == 0x50 && data[2] == 0x44 && data[3] == 0x46
}

/// Whether `data` opens with one of the known signatures.
pub open spec fn has_binary_signature(data: Seq<u8>) -> bool {
    has_zip_signature(data) || has_ole2_signature(data) || has_pdf_signature(data)
}

/// The kind of a file with the given extension, already in lower case,
/// and leading bytes.
pub open spec fn kind_of(extension: Option<Seq<char>>, head: Seq<u8>) -> FileKind {
    if extension matches Some(e) && is_binary_extension(e) {
        FileKind::Binary
    } else if has_binary_signature(head) {
        FileKind::Binary
    } else {
        FileKind::Text
    }
}

/// The extension in lower case.
pub open spec fn lowercased(extension: Option<Seq<char>>) -> Option<Seq<char>> {
    match extension {
        Some(e) => Some(lowercase(e)),
        None => None,
    }
}

/// Looks `extension`, already in lower case, up in the list of binary
/// extensions.
pub fn on_binary_list(extension: &str) -> (r: bool)
    ensures
        r == is_binary_extension(extension@),
{
    str_eq(extension, "xls")
        || str_eq(extension, "xlsx")
        || str_eq(extension, "xlsm")
        || str_eq(extension, "xlsb")
        || str_eq(extension, "doc")
        || str_eq(extension, "docx")
        || str_eq(extension, "docm")
        || str_eq(extension, "ppt")
        || str_eq(extension, "pptx")
        || str_eq(extension, "pptm")
        || str_eq(extension, "pdf")
        || str_eq(extension, "zip")
        || str_eq(extension, "rar")
        || str_eq(extension, "7z")
        || str_eq(extension, "gz")
        || str_eq(extension, "tar")
        || str_eq(extension, "png")
        || str_eq(extension, "jpg")
        || str_eq(extension, "jpeg")
        || str_eq(extension, "gif")
        || str_eq(extension, "bmp")
        || str_eq(extension, "ico")
        || str_eq(extension, "webp")
        || str_eq(extension, "svg")
        || str_eq(extension, "mp3")
        || str_eq(extension, "wav")
        || str_eq(extension, "ogg")
        || str_eq(extension, "flac")
        || str_eq(extension, "mp4")
        || str_eq(extension, "avi")
        || str_eq(extension, "mkv")
        || str_eq(extension, "mov")
        || str_eq(extension, "exe")
        || str_eq(extension, "dll")
        || str_eq(extension, "msi")
}

/// Looks `extension`, already in lower case, up in the list of text
/// extensions.
pub fn on_text_list(extension: &str) -> (r: bool)
    ensures
        r == is_text_extension(extension@),
{
    str_eq(extension, "csv")
        || str_eq(extension, "tsv")
        || str_eq(extension, "txt")
        || str_eq(extension, "xml")
        || str_eq(extension, "xsl")
        || str_eq(extension, "xslt")
        || str_eq(extension, "json")
        || str_eq(extension, "htm")
        || str_eq(extension, "html")
        || str_eq(extension, "dat")
        || str_eq(extension, "log")
        || str_eq(extension, "md")
        || str_eq(extension, "yml")
        || str_eq(extension, "yaml")
        || str_eq(extension, "toml")
        || str_eq(extension, "ini")
        || str_eq(extension, "cfg")
        || str_eq(extension, "conf")
        || str_eq(extension, "properties")
        || str_eq(extension, "sql")
        || str_eq(extension, "sh")
        || str_eq(extension, "bat")
        || str_eq(extension, "cmd")
        || str_eq(extension, "ps1")
}

/// Checks the leading bytes of a file against the known signatures.
pub fn sniff_signature(head: &[u8]) -> (r: bool)
    ensures
        r == has_binary_signature(head@),
{
    if head.len() < SIGNATURE_LEN {
        return false;
    }
    (head[0] == 0x50 && head[1] == 0x4B && head[2] == 0x03 && head[3] == 0x04) || (head[0]
        == 0xD0 && head[1] == 0xCF && head[2] == 0x11 && head[3] == 0xE0) || (head[0] == 0x25
        && head[1] == 0x50 && head[2] == 0x44 && head[3] == 0x46)
}

/// Whether an extension marks a binary file, whatever its case.
pub fn is_binary_extension_name(extension: &str) -> (r: bool)
    ensures
        r == is_binary_extension(lowercase(extension@)),
{
    let lower = to_lowercase(extension);
    on_binary_list(lower.as_str())
}

/// Whether an extension marks a text file, whatever its case.
pub fn is_text_extension_name(extension: &str) -> (r: bool)
    ensures
        r == is_text_extension(lowercase(extension@)),
{
    let lower = to_lowercase(extension);
    on_text_list(lower.as_str())
}

/// Classifies a file from its extension, which is `None` where it has
/// none, and its leading bytes. The extension decides first; the bytes
/// are looked at only where it does not.
pub fn classify(extension: Option<&str>, head: &[u8]) -> (r: FileKind)
    ensures
        r == kind_of(
            match extension {
                Some(e) => Some(lowercase(e@)),
                None => None,
            },
            head@,
        ),
{
    if let Some(e) = extension {
        if is_binary_extension_name(e) {
            return FileKind::Binary;
        }
    }
    if sniff_signature(head) {
        FileKind::Binary
    } else {
        FileKind::Text
    }
}

/// Whether an extension, as it stands in a path, marks a binary file; a
/// file without an extension is not marked.
pub open spec fn binary_by_extension(found: Option<Seq<char>>) -> bool {
    match found {
        Some(e) => is_binary_extension(lowercase(e)),
        None => false,
    }
}

/// Whether an extension, as it stands in a path, marks a text file; a
/// file without an extension is not marked.
pub open spec fn text_by_extension(found: Option<Seq<char>>) -> bool {
    match found {
        Some(e) => is_text_extension(lowercase(e)),
        None => false,
    }
}

/// Whether a file with the given extension, as it stands in its path, and
/// leading bytes is one to convert: its extension is one of a text format
/// and none of a binary one, and its leading bytes are no known signature.
pub open spec fn is_convertible(found: Option<Seq<char>>, head: Seq<u8>) -> bool {
    text_by_extension(found) && kind_of(lowercased(found), head) == FileKind::Text
}

/// Whether the extension of a path that is a bare file name marks the
/// file as binary.
pub open spec fn is_binary_name(name: Seq<char>) -> bool {
    binary_by_extension(extension_of_name(name))
}

/// A file name made of a stem, a dot and an extension of the binary list,
/// in any case, is marked binary.
pub proof fn lemma_binary_name(stem: Seq<char>, extension: Seq<char>)
    requires
        stem.len() > 0,
        extension.len() > 0,
        !extension.contains('.'),
        is_binary_extension(lowercase(extension)),
    ensures
        is_binary_name(stem + seq!['.'] + extension),
{
    let name = stem + seq!['.'] + extension;
    assert(name.len() > 2);
    lemma_extension_of_dotted(stem, extension);
}

/// Whether the path's extension alone marks the file as binary, so that
/// its content need not be read. The answer is that of the binary list
/// for the extension that the platform finds in the path: a part of the
/// path behind a dot, or none. For a bare file name that is what stands
/// behind its last dot. A path without a dot is never marked.
pub fn has_binary_extension(path: &str) -> (r: bool)
    ensures
        exists|found: Option<Seq<char>>| #[trigger]
            can_be_extension_of(path@, found) && r == binary_by_extension(found),
        !path@.contains('.') ==> !r,
        is_bare_name(path@) ==> r == binary_by_extension(extension_of_name(path@)),
{
    let found = path_extension(path);
    let ghost witness = found_text(found);
    let r = match &found {
        Some(e) => is_binary_extension_name(e.as_str()),
        None => false,
    };
    proof {
        assert(can_be_extension_of(path@, witness) && r == binary_by_extension(witness));
        if !path@.contains('.') {
            lemma_no_dot_no_extension(path@, witness);
        }
    }
    r
}

/// Whether the path's extension is one of a text format. The answer is
/// that of the text list for the extension that the platform finds in the
/// path: a part of the path behind a dot, or none. For a bare file name
/// that is what stands behind its last dot. A path without a dot has no
/// extension, and so none of a text format.
pub fn has_text_extension(path: &str) -> (r: bool)
    ensures
        exists|found: Option<Seq<char>>| #[trigger]
            can_be_extension_of(path@, found) && r == text_by_extension(found),
        !path@.contains('.') ==> !r,
        is_bare_name(path@) ==> r == text_by_extension(extension_of_name(path@)),
{
    let found = path_extension(path);
    let ghost witness = found_text(found);
    let r = match &found {
        Some(e) => is_text_extension_name(e.as_str()),
        None => false,
    };
    proof {
        assert(can_be_extension_of(path@, witness) && r == text_by_extension(witness));
        if !path@.contains('.') {
            lemma_no_dot_no_extension(path@, witness);
        }
    }
    r
}

/// Whether the file at `path`, whose leading bytes are `head`, is binary.
/// Pass an empty `head` where the file could not be read. The extension
/// is the one that the platform finds in the path: a part of the path
/// behind a dot, or none; for a bare file name, what stands behind its
/// last dot. A known signature always makes the file binary, and for a
/// path without a dot the signature alone decides.
pub fn is_binary_file(path: &str, head: &[u8]) -> (r: bool)
    ensures
        exists|found: Option<Seq<char>>| #[trigger]
            can_be_extension_of(path@, found) && r == (kind_of(lowercased(found), head@)
                == FileKind::Binary),
        has_binary_signature(head@) ==> r,
        !path@.contains('.') ==> r == has_binary_signature(head@),
        is_bare_name(path@) ==> r == (kind_of(lowercased(extension_of_name(path@)), head@)
            == FileKind::Binary),
{
    let found = path_extension(path);
    let ghost witness = found_text(found);
    let kind = match &found {
        Some(e) => classify(Some(e.as_str()), head),
        None => classify(None, head),
    };
    proof {
        assert(can_be_extension_of(path@, witness) && kind == kind_of(lowercased(witness), head@));
        if !path@.contains('.') {
            lemma_no_dot_no_extension(path@, witness);
        }
    }
    kind == FileKind::Binary
}

/// Whether a file with the given extension, `None` where it has none, and
/// leading bytes is one to convert: it is not binary, and its extension
/// is one of a text format.
pub fn is_convertible_with(extension: Option<&str>, head: &[u8]) -> (r: bool)
    ensures
        r == is_convertible(
            match extension {
                Some(e) => Some(e@),
                None => None,
            },
            head@,
        ),
{
    match extension {
        Some(e) => classify(Some(e), head) == FileKind::Text && is_text_extension_name(e),
        None => false,
    }
}

/// Whether a file found in a folder is one to convert: it is not binary,
/// and its extension is one of a text format. The extension is the one
/// that the platform finds in the path: a part of the path behind a dot,
/// or none; for a bare file name, what stands behind its last dot. A
/// known signature or a path without a dot rules the file out.
pub fn is_convertible_text(path: &str, head: &[u8]) -> (r: bool)
    ensures
        exists|found: Option<Seq<char>>| #[trigger]
            can_be_extension_of(path@, found) && r == is_convertible(found, head@),
        has_binary_signature(head@) ==> !r,
        !path@.contains('.') ==> !r,
        is_bare_name(path@) ==> r == is_convertible(extension_of_name(path@), head@),
{
    let found = path_extension(path);
    let ghost witness = found_text(found);
    let r = match &found {
        Some(e) => is_convertible_with(Some(e.as_str()), head),
        None => is_convertible_with(None, head),
    };
    proof {
        assert(can_be_extension_of(path@, witness) && r == is_convertible(witness, head@));
        if !path@.contains('.') {
            lemma_no_dot_no_extension(path@, witness);
        }
    }
    r
}

/// Classification is total and decided: every file is binary or text,
/// and never both.
pub proof fn lemma_classification_total(extension: Option<Seq<char>>, head: Seq<u8>)
    ensures
        kind_of(extension, head) == FileKind::Binary || kind_of(extension, head) == FileKind::Text,
        !(kind_of(extension, head) == FileKind::Binary && kind_of(extension, head)
            == FileKind::Text),
        kind_of(extension, head) == FileKind::Text <==> !has_binary_signature(head) && !(
        extension matches Some(e) && is_binary_extension(e)),
{
}

/// A binary extension decides alone: whatever the content looks like, the
/// file is binary.
pub proof fn lemma_binary_extension_wins(extension: Seq<char>, head: Seq<u8>)
    requires
        is_binary_extension(extension),
    ensures
        kind_of(Some(extension), head) == FileKind::Binary,
{
}

/// A signature is read off the first four bytes alone: what follows them
/// changes nothing.
pub proof fn lemma_signature_is_prefix(head: Seq<u8>, rest: Seq<u8>)
    requires
        head.len() >= SIGNATURE_LEN,
    ensures
        has_binary_signature(head + rest) == has_binary_signature(head),
{
    let all = head + rest;
    assert(all[0] == head[0] && all[1] == head[1] && all[2] == head[2] && all[3] == head[3]);
}

} // verus!

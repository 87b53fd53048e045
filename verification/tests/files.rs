use encodingman::batch::{batch_convert, batch_convert_given, BatchFileResult, BatchResult};
use encodingman::classifier::{
    classify, has_binary_extension, has_text_extension, is_binary_extension_name, is_binary_file,
    is_convertible_text, is_convertible_with, is_text_extension_name, on_binary_list,
    on_text_list, sniff_signature, FileKind,
};
use encodingman::config::AppConfig;
use encodingman::convert::{detect_and_convert, detect_and_convert_given, open_failure_message};
use encodingman::error::PipelineError;
use encodingman::launcher::{launch_target, temp_file_name, LaunchTarget};
use encodingman::pipeline::{
    begin_file, begin_file_given, process_bytes, process_file, process_file_given,
    process_file_silent, process_file_silent_given, read_failed, silent_failure,
    silent_result_of, FileInput, FileOutcome, FileStatus, FileStep,
};
use encodingman::preview::{generate_preview, get_preview_lines};
use encodingman::score::Score;
use encodingman::text::{split_first_line, str_eq};

const AI_SHIFT_JIS: [u8; 4] = [0x82, 0xA0, 0x82, 0xA2];
const ZIP: [u8; 8] = [0x50, 0x4B, 0x03, 0x04, 0x14, 0x00, 0x00, 0x00];

fn input(path: &str, name: &str, exists: bool, content: Result<Vec<u8>, String>) -> FileInput {
    FileInput { file_path: path.to_string(), file_name: name.to_string(), exists, content }
}

fn marked(text: &str) -> Vec<u8> {
    let mut out = vec![0xEF, 0xBB, 0xBF];
    out.extend_from_slice(text.as_bytes());
    out
}

#[test]
fn xlsx_with_zip_signature_is_binary() {
    let mut content = ZIP.to_vec();
    content.extend_from_slice(b"name,value\nplain,text\n");
    assert!(is_binary_file("report.xlsx", &content));
    assert_eq!(classify(Some("xlsx"), &content), FileKind::Binary);
    assert_eq!(classify(Some("xlsx"), b"name,value\n"), FileKind::Binary);
    assert_eq!(classify(Some("csv"), &content), FileKind::Binary);
    assert_eq!(classify(None, &content), FileKind::Binary);
}

#[test]
fn classification_is_binary_or_text() {
    let extensions = [None, Some("csv"), Some("PDF"), Some("xlsx"), Some(""), Some("weird")];
    let heads: [&[u8]; 5] = [&[], b"abc", &ZIP, b"%PDF-1.7", &[0xD0, 0xCF, 0x11, 0xE0]];
    for extension in extensions {
        for head in heads {
            let kind = classify(extension, head);
            assert!(kind == FileKind::Binary || kind == FileKind::Text);
            let by_extension = extension.map_or(false, is_binary_extension_name);
            assert_eq!(kind == FileKind::Binary, by_extension || sniff_signature(head));
        }
    }
}

#[test]
fn signatures() {
    assert!(sniff_signature(&[0x50, 0x4B, 0x03, 0x04]));
    assert!(sniff_signature(&[0xD0, 0xCF, 0x11, 0xE0, 0xA1]));
    assert!(sniff_signature(b"%PDF"));
    assert!(!sniff_signature(&[0x50, 0x4B, 0x03]));
    assert!(!sniff_signature(&[0x50, 0x4B, 0x05, 0x06]));
    assert!(!sniff_signature(b"PDF%"));
    assert!(!sniff_signature(&[]));
}

#[test]
fn binary_extensions_ignore_case() {
    for extension in [
        "xls", "xlsx", "xlsm", "xlsb", "doc", "docx", "docm", "ppt", "pptx", "pptm", "pdf", "zip",
        "rar", "7z", "gz", "tar", "png", "jpg", "jpeg", "gif", "bmp", "ico", "webp", "svg", "mp3",
        "wav", "ogg", "flac", "mp4", "avi", "mkv", "mov", "exe", "dll", "msi",
    ] {
        assert!(on_binary_list(extension), "{}", extension);
        assert!(is_binary_extension_name(&extension.to_uppercase()), "{}", extension);
        assert!(!on_text_list(extension), "{}", extension);
    }
    assert!(is_binary_extension_name("XlSx"));
    assert!(!on_binary_list("XLSX"));
    assert!(!is_binary_extension_name("csv"));
    assert!(!is_binary_extension_name(""));
    assert!(!is_binary_extension_name("xlsxx"));
}

#[test]
fn text_extensions_ignore_case() {
    for extension in [
        "csv", "tsv", "txt", "xml", "xsl", "xslt", "json", "htm", "html", "dat", "log", "md",
        "yml", "yaml", "toml", "ini", "cfg", "conf", "properties", "sql", "sh", "bat", "cmd",
        "ps1",
    ] {
        assert!(on_text_list(extension), "{}", extension);
        assert!(is_text_extension_name(&extension.to_uppercase()), "{}", extension);
    }
    assert!(!is_text_extension_name("xlsx"));
    assert!(!on_text_list("CSV"));
}

#[test]
fn extensions_are_read_off_the_path() {
    assert!(has_binary_extension("dir/report.PDF"));
    assert!(has_binary_extension("archive.tar.gz"));
    assert!(!has_binary_extension("dir.zip/readme"));
    assert!(!has_binary_extension("notes.txt"));
    assert!(!has_binary_extension(".png"));
    assert!(has_text_extension("dir/data.CSV"));
    assert!(!has_text_extension("data"));
    assert!(!has_text_extension("photo.jpg"));
    assert!(is_binary_file("photo.jpg", &[]));
    assert!(is_binary_file("notes.txt", b"%PDF-1.4"));
    assert!(!is_binary_file("notes.txt", b"plain"));
    assert!(!is_binary_file("notes", &[]));
}

/// What stands behind the last dot of a bare file name, as the library
/// states it: nothing for a name without a dot, for one whose only dot is
/// its first character, and for `..`.
fn extension_of_bare_name(name: &str) -> Option<&str> {
    let at = name.rfind('.').map_or(0, |dot| dot + 1);
    if at <= 1 || name == ".." {
        None
    } else {
        Some(&name[at..])
    }
}

const BARE_NAMES: [&str; 26] = [
    "report.xlsx", "REPORT.XLSX", "PHOTO.PNG", "DATA.CSV", "data.csv", "notes", "a.b.pdf",
    "archive.tar.gz", ".pdf", ".bashrc", "..pdf", "...pdf", "a.pdf.", "a.", ".", "..", "...",
    "a..pdf", "pdf", "csv", "a b.Txt", "x.y z", "日本語.csv", "a.ｐｄｆ", "-.7z", "a.PdF",
];

#[test]
fn a_bare_name_has_what_stands_behind_its_last_dot() {
    for name in BARE_NAMES {
        let found = std::path::Path::new(name).extension().map(|e| e.to_str().unwrap());
        assert_eq!(found, extension_of_bare_name(name), "{:?}", name);
    }
}

#[test]
fn bare_names_are_decided_by_their_extension() {
    for name in BARE_NAMES {
        let extension = extension_of_bare_name(name);
        let binary = extension.map_or(false, is_binary_extension_name);
        let text = extension.map_or(false, is_text_extension_name);
        assert_eq!(has_binary_extension(name), binary, "{:?}", name);
        assert_eq!(has_text_extension(name), text, "{:?}", name);
        for head in [&b"plain"[..], &ZIP[..], &[][..]] {
            assert_eq!(is_binary_file(name, head), classify(extension, head) == FileKind::Binary);
            assert_eq!(is_convertible_text(name, head), is_convertible_with(extension, head));
        }
        let step = begin_file(name, true);
        assert_eq!(matches!(step, FileStep::Finished(FileOutcome::Binary)), binary, "{:?}", name);
        assert_eq!(matches!(step, FileStep::ReadContent), !binary, "{:?}", name);
        let file = input(name, name, true, Ok(b"plain".to_vec()));
        assert_eq!(process_file(&file).status(), process_file_given(&file, binary).status());
    }
    assert!(has_binary_extension("report.xlsx"));
    assert!(has_binary_extension("PHOTO.PNG"));
    assert!(has_binary_extension("..pdf"));
    assert!(!has_binary_extension(".pdf"));
    assert!(!has_binary_extension("a.pdf."));
    assert!(has_text_extension("DATA.CSV"));
    assert!(!has_text_extension("csv"));
}

#[test]
fn extensions_in_any_ascii_case() {
    for extension in ["pdf", "PDF", "Pdf", "pDf", "7Z", "JPEG", "Mp3"] {
        assert!(is_binary_extension_name(extension), "{}", extension);
    }
    for extension in ["CSV", "Json", "PS1", "Yaml"] {
        assert!(is_text_extension_name(extension), "{}", extension);
    }
    // Beyond ASCII the Unicode case mapping decides: the Kelvin sign is
    // a capital of `k`; fullwidth letters stay fullwidth.
    assert!(is_binary_extension_name("M\u{212A}V"));
    assert!(!is_binary_extension_name("ＰＤＦ"));
    assert!(!is_binary_extension_name("pdｆ"));
}

#[test]
fn ascii_text_is_lowercased_letter_by_letter() {
    for code in 0u8..128 {
        let one = (code as char).to_string();
        assert_eq!(one.to_lowercase(), one.to_ascii_lowercase());
        let around = format!("A{}Z9", code as char);
        assert_eq!(around.to_lowercase(), around.to_ascii_lowercase());
    }
}

#[test]
fn silent_results_follow_the_outcome() {
    assert_eq!(silent_result_of(false, &FileOutcome::Binary), Ok(false));
    assert_eq!(silent_result_of(false, &read_failed("denied")), Ok(false));
    assert_eq!(silent_result_of(true, &FileOutcome::Binary), Ok(true));
    assert_eq!(silent_result_of(true, &FileOutcome::AlreadyUtf8), Ok(true));
    assert_eq!(silent_result_of(true, &process_bytes(&AI_SHIFT_JIS)), Ok(true));
    assert_eq!(
        silent_result_of(true, &read_failed("denied")),
        Err("Failed to read file: denied".to_string())
    );
}

#[test]
fn paths_without_a_dot_have_no_extension() {
    for path in ["notes", "dir/notes", "csv", "pdf", "", "dir/"] {
        assert!(!has_binary_extension(path), "{}", path);
        assert!(!has_text_extension(path), "{}", path);
        assert!(!is_convertible_text(path, b"plain"), "{}", path);
    }
    assert!(!has_binary_extension("report."));
    assert!(!has_text_extension("report."));
}

#[test]
fn files_to_convert_are_text_by_extension_and_not_binary() {
    assert!(is_convertible_text("dir/data.csv", b"a,b\n"));
    assert!(is_convertible_text("dir/DATA.TXT", &[]));
    assert!(!is_convertible_text("dir/data.csv", b"%PDF-1.7"));
    assert!(!is_convertible_text("dir/data.csv", &ZIP));
    assert!(!is_convertible_text("dir/data.xlsx", b"a,b\n"));
    assert!(!is_convertible_text("dir/data.unknown", b"a,b\n"));
    assert!(!is_convertible_text("dir.csv/data", b"a,b\n"));

    assert!(is_convertible_with(Some("csv"), b"a,b\n"));
    assert!(is_convertible_with(Some("Json"), &[]));
    assert!(!is_convertible_with(Some("csv"), &[0xD0, 0xCF, 0x11, 0xE0]));
    assert!(!is_convertible_with(Some("png"), b"a,b\n"));
    assert!(!is_convertible_with(Some(""), b"a,b\n"));
    assert!(!is_convertible_with(None, b"a,b\n"));
    for (path, extension) in [("a/b.csv", Some("csv")), ("a/b.PDF", Some("PDF")), ("a/b", None)] {
        for head in [&b"text"[..], &ZIP[..]] {
            assert_eq!(is_convertible_text(path, head), is_convertible_with(extension, head));
        }
    }
}

#[test]
fn marked_utf8_ends_as_already_utf8() {
    let outcome = process_bytes(&[0xEF, 0xBB, 0xBF, 0x61, 0x62]);
    assert!(matches!(outcome, FileOutcome::AlreadyUtf8));
    assert_eq!(outcome.status(), FileStatus::AlreadyUtf8);
}

#[test]
fn pipeline_outcomes() {
    assert!(matches!(process_bytes(&ZIP), FileOutcome::Binary));
    assert!(matches!(process_bytes(b"plain"), FileOutcome::AlreadyUtf8));
    assert!(matches!(process_bytes(&[]), FileOutcome::AlreadyUtf8));
    match process_bytes(&AI_SHIFT_JIS) {
        FileOutcome::Converted { detection, data } => {
            assert_eq!(detection.encoding_name, "Shift_JIS");
            assert_eq!(detection.confidence, Score { numer: 200, denom: 2 });
            assert_eq!(data, marked("あい"));
        }
        other => panic!("{:?}", other),
    }
    // A UTF-16 mark settles the encoding; the text is converted.
    match process_bytes(&[0xFF, 0xFE, 0x42, 0x30]) {
        FileOutcome::Converted { detection, data } => {
            assert_eq!(detection.encoding_name, "UTF-16LE");
            assert_eq!(detection.confidence, Score::certain());
            assert_eq!(data, marked("あ"));
        }
        other => panic!("{:?}", other),
    }
}

#[test]
fn low_confidence_is_converted_all_the_same() {
    let data = [0xFF, 0x80, 0x81];
    match process_bytes(&data) {
        FileOutcome::Converted { detection, .. } => {
            assert!(!detection.confidence.ge(&AppConfig::default().confidence_threshold));
        }
        other => panic!("{:?}", other),
    }
}

#[test]
fn begin_file_decides_from_the_path() {
    assert!(matches!(
        begin_file("missing.csv", false),
        FileStep::Finished(FileOutcome::Error {
            error: PipelineError::NotFound,
            detected_encoding: None
        })
    ));
    assert!(matches!(begin_file("photo.png", true), FileStep::Finished(FileOutcome::Binary)));
    assert!(matches!(begin_file("data.csv", true), FileStep::ReadContent));
    assert!(matches!(begin_file("photo.png", false), FileStep::Finished(FileOutcome::Error { .. })));
}

#[test]
fn the_extension_verdict_decides_before_the_content() {
    assert!(matches!(begin_file_given(false, true), FileStep::Finished(FileOutcome::Error { .. })));
    assert!(matches!(begin_file_given(false, false), FileStep::Finished(FileOutcome::Error { .. })));
    assert!(matches!(begin_file_given(true, true), FileStep::Finished(FileOutcome::Binary)));
    assert!(matches!(begin_file_given(true, false), FileStep::ReadContent));

    let text = input("a", "a", true, Ok(vec![0xEF, 0xBB, 0xBF, 0x61, 0x62]));
    assert!(matches!(process_file_given(&text, false), FileOutcome::AlreadyUtf8));
    assert!(matches!(process_file_given(&text, true), FileOutcome::Binary));
    assert!(matches!(process_file(&text), FileOutcome::AlreadyUtf8));
    let legacy = input("a", "a", true, Ok(AI_SHIFT_JIS.to_vec()));
    assert!(matches!(process_file_given(&legacy, false), FileOutcome::Converted { .. }));
    assert!(matches!(process_file(&legacy), FileOutcome::Converted { .. }));
    let unreadable = input("a", "a", true, Err("denied".to_string()));
    assert!(matches!(
        process_file_given(&unreadable, false),
        FileOutcome::Error { error: PipelineError::Io(_), detected_encoding: None }
    ));
    assert!(matches!(process_file_given(&unreadable, true), FileOutcome::Binary));
    let gone = input("a", "a", false, Ok(b"ignored".to_vec()));
    assert!(matches!(
        process_file_given(&gone, true),
        FileOutcome::Error { error: PipelineError::NotFound, .. }
    ));

    assert_eq!(process_file_silent_given(&gone, true), Ok(false));
    assert_eq!(process_file_silent_given(&unreadable, true), Ok(true));
    assert_eq!(
        process_file_silent_given(&unreadable, false),
        Err("Failed to read file: denied".to_string())
    );
    assert_eq!(process_file_silent(&unreadable), Err("Failed to read file: denied".to_string()));
    assert_eq!(process_file_silent_given(&legacy, false), Ok(true));
}

#[test]
fn marked_utf8_of_a_text_file_opens_unconverted() {
    let file = input("dir/a.txt", "a.txt", true, Ok(vec![0xEF, 0xBB, 0xBF, 0x61, 0x62]));
    for (result, data) in
        [detect_and_convert(&file, 10).unwrap(), detect_and_convert_given(&file, false, 10).unwrap()]
    {
        assert!(!result.is_binary);
        assert_eq!(result.detected_encoding, "UTF-8");
        assert_eq!(result.confidence, Score::certain());
        assert_eq!(result.temp_file_path, None);
        assert!(result.converted_preview.is_empty());
        assert_eq!(result.original_path, "dir/a.txt");
        assert_eq!(data, None);
    }
    let (forced, data) = detect_and_convert_given(&file, true, 10).unwrap();
    assert!(forced.is_binary);
    assert_eq!(data, None);

    let (report, outcomes) = batch_convert(&vec![input(
        "a.txt",
        "a.txt",
        true,
        Ok(vec![0xEF, 0xBB, 0xBF, 0x61, 0x62]),
    )]);
    assert_eq!(report.results.len(), 1);
    assert_eq!(report.results[0].status.as_str(), "already_utf8");
    assert_eq!(report.results[0].detected_encoding.as_deref(), Some("UTF-8"));
    assert_eq!(report.results[0].error_message, None);
    assert_eq!((report.already_utf8, report.converted, report.binary, report.errors), (1, 0, 0, 0));
    assert!(matches!(outcomes[0], FileOutcome::AlreadyUtf8));
}

#[test]
fn a_record_in_a_batch_is_that_of_the_file_alone() {
    let make = || {
        vec![
            input("a.csv", "a.csv", true, Ok(b"ab".to_vec())),
            input("b.csv", "b.csv", false, Err(String::new())),
            input("c.csv", "c.csv", true, Ok(AI_SHIFT_JIS.to_vec())),
            input("d.png", "d.png", true, Err(String::new())),
        ]
    };
    let (together, _) = batch_convert(&make());
    let statuses: Vec<&str> = together.results.iter().map(|r| r.status.as_str()).collect();
    assert_eq!(statuses, vec!["already_utf8", "error", "converted", "binary"]);
    for (index, file) in make().into_iter().enumerate() {
        let (alone, _) = batch_convert(&vec![file]);
        assert_eq!(alone.results[0].status, together.results[index].status);
        assert_eq!(alone.results[0].detected_encoding, together.results[index].detected_encoding);
        assert_eq!(alone.results[0].error_message, together.results[index].error_message);
    }
    let (given, _) = batch_convert_given(&make(), &vec![false, false, false, true]);
    let statuses: Vec<&str> = given.results.iter().map(|r| r.status.as_str()).collect();
    assert_eq!(statuses, vec!["already_utf8", "error", "converted", "binary"]);
    let (forced, _) = batch_convert_given(&make(), &vec![true, true, true, false]);
    let statuses: Vec<&str> = forced.results.iter().map(|r| r.status.as_str()).collect();
    assert_eq!(statuses, vec!["binary", "error", "binary", "error"]);
}

#[test]
fn read_failure_is_an_error_outcome() {
    match read_failed("permission denied") {
        FileOutcome::Error { error: PipelineError::Io(message), detected_encoding: None } => {
            assert_eq!(message, "permission denied")
        }
        other => panic!("{:?}", other),
    }
    let unreadable = input("a.csv", "a.csv", true, Err("permission denied".to_string()));
    assert_eq!(process_file(&unreadable).status(), FileStatus::Error);
}

#[test]
fn batch_with_a_missing_file_isolates_the_failure() {
    let files = vec![
        input("dir/a.csv", "a.csv", true, Ok(AI_SHIFT_JIS.to_vec())),
        input("dir/gone.csv", "gone.csv", false, Err(String::new())),
        input("dir/c.txt", "c.txt", true, Ok(b"plain".to_vec())),
    ];
    let (report, outcomes) = batch_convert(&files);
    assert_eq!(report.results.len(), 3);
    assert_eq!(outcomes.len(), 3);
    assert_eq!(report.total, 3);
    assert_eq!(report.errors, 1);
    assert_eq!(report.converted, 1);
    assert_eq!(report.already_utf8, 1);
    assert_eq!(report.binary, 0);
    let paths: Vec<&str> = report.results.iter().map(|r| r.file_path.as_str()).collect();
    assert_eq!(paths, vec!["dir/a.csv", "dir/gone.csv", "dir/c.txt"]);
    assert_eq!(report.results[0].status, FileStatus::Converted);
    assert_eq!(report.results[0].detected_encoding.as_deref(), Some("Shift_JIS"));
    assert_eq!(report.results[0].error_message, None);
    assert_eq!(report.results[1].status, FileStatus::Error);
    assert_eq!(report.results[1].file_name, "gone.csv");
    assert_eq!(report.results[1].detected_encoding, None);
    assert_eq!(report.results[1].error_message.as_deref(), Some("File not found"));
    assert_eq!(report.results[2].status, FileStatus::AlreadyUtf8);
    assert_eq!(report.results[2].detected_encoding.as_deref(), Some("UTF-8"));
    assert!(matches!(&outcomes[0], FileOutcome::Converted { data, .. } if *data == marked("あい")));
    assert!(matches!(&outcomes[1], FileOutcome::Error { error: PipelineError::NotFound, .. }));
    assert!(matches!(&outcomes[2], FileOutcome::AlreadyUtf8));
}

#[test]
fn batch_tallies_partition_the_files() {
    let files = vec![
        input("a.xlsx", "a.xlsx", true, Err(String::new())),
        input("b.csv", "b.csv", true, Ok(ZIP.to_vec())),
        input("c.csv", "c.csv", true, Err("disk error".to_string())),
        input("d.csv", "d.csv", true, Ok(AI_SHIFT_JIS.to_vec())),
        input("e.csv", "e.csv", true, Ok(vec![0xA4, 0xA2])),
        input("f.csv", "f.csv", true, Ok(b"ascii".to_vec())),
        input("g.csv", "g.csv", false, Ok(b"ignored".to_vec())),
    ];
    let (report, outcomes) = batch_convert(&files);
    assert_eq!(report.total, files.len());
    assert_eq!(report.results.len(), files.len());
    assert_eq!(report.converted + report.already_utf8 + report.binary + report.errors, report.total);
    assert_eq!((report.converted, report.already_utf8, report.binary, report.errors), (2, 1, 2, 2));
    for (i, file) in files.iter().enumerate() {
        assert_eq!(report.results[i].file_path, file.file_path);
        assert_eq!(report.results[i].status, outcomes[i].status());
    }
    assert_eq!(report.results[2].error_message.as_deref(), Some("disk error"));
    assert_eq!(report.results[0].status.as_str(), "binary");
    assert_eq!(report.results[2].status.as_str(), "error");
    assert_eq!(report.results[3].status.as_str(), "converted");
    assert_eq!(report.results[5].status.as_str(), "already_utf8");
}

#[test]
fn empty_batch() {
    let (report, outcomes) = batch_convert(&Vec::new());
    assert_eq!(report.total, 0);
    assert!(report.results.is_empty());
    assert!(outcomes.is_empty());
    assert_eq!(report.converted + report.already_utf8 + report.binary + report.errors, 0);
}

#[test]
fn report_is_kept_record_by_record() {
    let mut report = BatchResult::new();
    report.record(BatchFileResult::from_outcome("a", "a", &FileOutcome::Binary));
    report.record(BatchFileResult::from_outcome("b", "b", &process_bytes(&AI_SHIFT_JIS)));
    report.record(BatchFileResult::from_outcome("c", "c", &read_failed("no")));
    assert_eq!((report.total, report.converted, report.binary, report.errors), (3, 1, 1, 1));
    report.mark_failed(1, "Failed to write temp file: full");
    assert_eq!((report.total, report.converted, report.binary, report.errors), (3, 0, 1, 2));
    assert_eq!(report.results[1].status, FileStatus::Error);
    assert_eq!(report.results[1].detected_encoding.as_deref(), Some("Shift_JIS"));
    assert_eq!(report.results[1].error_message.as_deref(), Some("Failed to write temp file: full"));
    assert_eq!(report.results[0].status, FileStatus::Binary);
    report.mark_failed(2, "again");
    assert_eq!((report.total, report.converted, report.binary, report.errors), (3, 0, 1, 2));
    assert_eq!(report.results[2].error_message.as_deref(), Some("again"));
}

#[test]
fn silent_processing() {
    let gone = input("gone.csv", "gone.csv", false, Err(String::new()));
    assert_eq!(process_file_silent(&gone), Ok(false));
    let text = input("a.csv", "a.csv", true, Ok(AI_SHIFT_JIS.to_vec()));
    assert_eq!(process_file_silent(&text), Ok(true));
    let binary = input("a.png", "a.png", true, Err(String::new()));
    assert_eq!(process_file_silent(&binary), Ok(true));
    let unreadable = input("a.csv", "a.csv", true, Err("denied".to_string()));
    assert_eq!(process_file_silent(&unreadable), Err("Failed to read file: denied".to_string()));
    assert_eq!(silent_failure(&PipelineError::NotFound), "File not found");
}

#[test]
fn preview_lines() {
    assert_eq!(get_preview_lines("a\r\nb\nc", 2), vec!["a", "b"]);
    assert_eq!(get_preview_lines("a\r\nb\nc", 10), vec!["a", "b", "c"]);
    assert_eq!(get_preview_lines("a\nb\n", 10), vec!["a", "b"]);
    assert_eq!(get_preview_lines("a\n\nb", 10), vec!["a", "", "b"]);
    assert_eq!(get_preview_lines("\n", 10), vec![""]);
    assert_eq!(get_preview_lines("a\r", 10), vec!["a\r"]);
    assert_eq!(get_preview_lines("a\rb\r\n", 10), vec!["a\rb"]);
    assert_eq!(get_preview_lines("a\r\r\n", 10), vec!["a\r"]);
    assert!(get_preview_lines("", 10).is_empty());
    assert!(get_preview_lines("a\nb", 0).is_empty());
    assert_eq!(get_preview_lines("あ\r\nい\n", 1), vec!["あ"]);
    assert_eq!(get_preview_lines("\r\n\r\n", 10), vec!["", ""]);
}

#[test]
fn preview_lines_agree_with_the_standard_library() {
    let pieces = ["", "a", "\n", "\r", "\r\n", "あ", "b\r", "\n\n", "\r\r\n", "c\n"];
    for first in pieces {
        for second in pieces {
            for third in pieces {
                let text = format!("{}{}{}", first, second, third);
                let expected: Vec<String> = text.lines().map(|l| l.to_string()).collect();
                assert_eq!(get_preview_lines(&text, usize::MAX), expected, "{:?}", text);
                let two: Vec<String> = text.lines().take(2).map(|l| l.to_string()).collect();
                assert_eq!(get_preview_lines(&text, 2), two, "{:?}", text);
            }
        }
    }
}

#[test]
fn first_line_is_split_off() {
    assert_eq!(split_first_line("a\r\nb\nc"), ("a", "b\nc"));
    assert_eq!(split_first_line("abc"), ("abc", ""));
    assert_eq!(split_first_line("\nabc"), ("", "abc"));
    assert_eq!(split_first_line("a\r"), ("a\r", ""));
    assert_eq!(split_first_line("あ\n"), ("あ", ""));
}

#[test]
fn preview_decodes_first() {
    let sjis = [0x82, 0xA0, 0x0D, 0x0A, 0x82, 0xA2, 0x0A, 0x41];
    assert_eq!(generate_preview(&sjis, "Shift_JIS", 2), vec!["あ", "い"]);
    assert_eq!(generate_preview(b"a\nb", "no-such-encoding", 5), vec!["a", "b"]);
    assert_eq!(generate_preview(&marked("x\ny"), "UTF-8", 5), vec!["x", "y"]);
    assert_eq!(generate_preview(&[0xFF, 0xFE, 0x42, 0x30], "UTF-16LE", 5), vec!["あ"]);
}

#[test]
fn opening_a_text_file() {
    // "あい\nうえ\nおか" in Shift_JIS.
    let content = vec![
        0x82, 0xA0, 0x82, 0xA2, 0x0A, 0x82, 0xA4, 0x82, 0xA6, 0x0A, 0x82, 0xA8, 0x82, 0xA9,
    ];
    let file = input("dir/a.csv", "a.csv", true, Ok(content));
    let (result, data) = detect_and_convert(&file, 2).unwrap();
    assert!(result.auto_converted);
    assert!(!result.is_binary);
    assert_eq!(result.detected_encoding, "Shift_JIS");
    assert_eq!(result.temp_file_path, None);
    // 40 + 20 + 30 * 6 / 8 + 10 hundredths.
    assert_eq!(result.confidence, Score { numer: 740, denom: 8 });
    assert_eq!(result.original_preview, vec!["あい", "うえ"]);
    assert_eq!(result.converted_preview, vec!["あい", "うえ"]);
    assert_eq!(result.original_path, "dir/a.csv");
    assert_eq!(result.file_name, "a.csv");
    assert_eq!(data, Some(marked("あい\nうえ\nおか")));
}

#[test]
fn opening_binary_and_utf8_files() {
    let binary = input("dir/a.xlsx", "a.xlsx", true, Err(String::new()));
    let (result, data) = detect_and_convert(&binary, 10).unwrap();
    assert!(result.is_binary && result.auto_converted);
    assert_eq!(result.detected_encoding, "binary");
    assert_eq!(result.confidence, Score::certain());
    assert_eq!(result.original_preview, vec!["[バイナリファイル: a.xlsx]"]);
    assert!(result.converted_preview.is_empty());
    assert_eq!(data, None);

    let utf8 = input("dir/a.txt", "a.txt", true, Ok(b"plain".to_vec()));
    let (result, data) = detect_and_convert(&utf8, 10).unwrap();
    assert!(!result.is_binary && result.auto_converted);
    assert_eq!(result.detected_encoding, "UTF-8");
    assert_eq!(result.confidence, Score::certain());
    assert!(result.original_preview.is_empty() && result.converted_preview.is_empty());
    assert_eq!(data, None);
}

#[test]
fn opening_fails_with_a_message() {
    let gone = input("dir/gone.csv", "gone.csv", false, Err(String::new()));
    assert_eq!(detect_and_convert(&gone, 10).unwrap_err(), "File not found: dir/gone.csv");
    let unreadable = input("dir/a.csv", "a.csv", true, Err("denied".to_string()));
    assert_eq!(detect_and_convert(&unreadable, 10).unwrap_err(), "Failed to read file: denied");
    assert_eq!(
        open_failure_message("p", &PipelineError::UnknownEncoding("x".to_string())),
        "Unknown encoding: x"
    );
}

#[test]
fn default_settings() {
    let settings = AppConfig::default();
    assert_eq!(settings.default_app, "system_default");
    assert_eq!(settings.target_encoding, "utf-8-bom");
    assert_eq!(settings.confidence_threshold, Score { numer: 75, denom: 1 });
    assert_eq!(settings.preview_lines, 10);
    assert!(!settings.keep_temp_file);
}

#[test]
fn launch_targets_and_temp_names() {
    assert_eq!(launch_target(""), LaunchTarget::SystemDefault);
    assert_eq!(launch_target("system_default"), LaunchTarget::SystemDefault);
    assert_eq!(launch_target("/usr/bin/viewer"), LaunchTarget::Application);
    assert_eq!(launch_target("System_Default"), LaunchTarget::Application);
    assert_eq!(temp_file_name(Some("data"), Some("tsv")), "data_utf8.tsv");
    assert_eq!(temp_file_name(None, None), "converted_utf8.csv");
    assert_eq!(temp_file_name(Some("data"), None), "data_utf8.csv");
    assert_eq!(temp_file_name(None, Some("txt")), "converted_utf8.txt");
}

#[test]
fn string_slices_compare_by_text() {
    assert!(str_eq("", ""));
    assert!(str_eq("あい", "あい"));
    assert!(!str_eq("abc", "abd"));
    assert!(!str_eq("abc", "ab"));
    assert!(!str_eq("abc", "ABC"));
}

use encodingman::bom::{detect_bom, strip_bom, strip_utf8_bom, Bom};
use encodingman::candidate::{candidate_named, EncodingCandidate};
use encodingman::decoder::MAX_INPUT_LEN;
use encodingman::encoder::{
    contains_cjk, convert_to_utf8_bom, decode_source, detect_encoding, estimate_confidence,
    is_already_utf8, smart_detect_encoding, with_utf8_bom,
};
use encodingman::error::PipelineError;
use encodingman::score::Score;
use encodingman::utf8::{is_valid_utf8, scalar_width};

const AI_SHIFT_JIS: [u8; 4] = [0x82, 0xA0, 0x82, 0xA2];

fn marked(text: &str) -> Vec<u8> {
    let mut out = vec![0xEF, 0xBB, 0xBF];
    out.extend_from_slice(text.as_bytes());
    out
}

#[test]
fn shift_jis_converts_to_marked_utf8() {
    let detection = smart_detect_encoding(&AI_SHIFT_JIS);
    assert_eq!(detection.encoding_name, "Shift_JIS");
    assert_eq!(detection.confidence, Score { numer: 200, denom: 2 });
    let out = convert_to_utf8_bom(&AI_SHIFT_JIS, &detection.encoding_name).unwrap();
    assert_eq!(out, marked("あい"));
}

#[test]
fn utf8_bom_is_detected_with_certainty() {
    let data = [0xEF, 0xBB, 0xBF, 0x61, 0x62];
    let detection = smart_detect_encoding(&data);
    assert_eq!(detection.encoding_name, "UTF-8");
    assert_eq!(detection.confidence, Score::certain());
    assert!(is_already_utf8(&data));
}

#[test]
fn bom_wins_whatever_the_payload() {
    let payloads: [&[u8]; 4] = [&[], &AI_SHIFT_JIS, &[0xFF, 0xFF, 0x00], b"plain"];
    let marks: [(&[u8], &str); 3] =
        [(&[0xEF, 0xBB, 0xBF], "UTF-8"), (&[0xFF, 0xFE], "UTF-16LE"), (&[0xFE, 0xFF], "UTF-16BE")];
    for (mark, name) in marks {
        for payload in payloads {
            let mut data = mark.to_vec();
            data.extend_from_slice(payload);
            let detection = smart_detect_encoding(&data);
            assert_eq!(detection.encoding_name, name);
            assert_eq!(detection.confidence, Score { numer: 100, denom: 1 });
            let legacy = detect_encoding(&data);
            assert_eq!(legacy.encoding_name, name);
            assert_eq!(legacy.confidence, Score::certain());
        }
    }
}

#[test]
fn detect_bom_tells_the_marks_apart() {
    assert_eq!(detect_bom(&[0xEF, 0xBB, 0xBF]), Some(Bom::Utf8));
    assert_eq!(detect_bom(&[0xFF, 0xFE, 0x41, 0x00]), Some(Bom::Utf16Le));
    assert_eq!(detect_bom(&[0xFE, 0xFF]), Some(Bom::Utf16Be));
    assert_eq!(detect_bom(&[0xEF, 0xBB]), None);
    assert_eq!(detect_bom(&[0xFF]), None);
    assert_eq!(detect_bom(&[]), None);
    assert_eq!(detect_bom(b"abc"), None);
    assert_eq!(Bom::Utf8.len(), 3);
    assert_eq!(Bom::Utf16Le.len(), 2);
    assert_eq!(Bom::Utf16Be.encoding_name(), "UTF-16BE");
}

#[test]
fn strip_bom_drops_one_mark() {
    assert_eq!(strip_bom(&[0xEF, 0xBB, 0xBF, 0x61]), &[0x61]);
    assert_eq!(strip_bom(&[0xFF, 0xFE, 0x61, 0x00]), &[0x61, 0x00]);
    assert_eq!(strip_bom(&[0xFE, 0xFF, 0x00, 0x61]), &[0x00, 0x61]);
    assert_eq!(strip_bom(b"abc"), b"abc");
    assert_eq!(strip_bom(&[]), &[] as &[u8]);
    assert_eq!(strip_bom(&[0xEF, 0xBB]), &[0xEF, 0xBB]);
}

#[test]
fn strip_bom_is_idempotent_without_a_second_mark() {
    let inputs: [&[u8]; 5] =
        [&[0xEF, 0xBB, 0xBF, 0x61], &[0xFF, 0xFE, 0x61, 0x00], b"abc", &[], &[0xFE, 0xFF]];
    for input in inputs {
        let once = strip_bom(input);
        assert_eq!(strip_bom(once), once);
    }
}

#[test]
fn strip_bom_takes_two_marks_one_per_call() {
    let doubled = [0xEF, 0xBB, 0xBF, 0xFF, 0xFE, 0x61, 0x00];
    let once = strip_bom(&doubled);
    assert_eq!(once, &[0xFF, 0xFE, 0x61, 0x00]);
    assert_eq!(strip_bom(once), &[0x61, 0x00]);
}

#[test]
fn strip_utf8_bom_leaves_utf16_marks() {
    assert_eq!(strip_utf8_bom(&[0xEF, 0xBB, 0xBF, 0x61]), &[0x61]);
    assert_eq!(strip_utf8_bom(&[0xFF, 0xFE, 0x61, 0x00]), &[0xFF, 0xFE, 0x61, 0x00]);
}

#[test]
fn already_utf8_with_and_without_mark() {
    assert!(is_already_utf8(b"plain"));
    assert!(is_already_utf8("あい".as_bytes()));
    assert!(is_already_utf8(&[]));
    assert!(is_already_utf8(&[0xEF, 0xBB, 0xBF]));
    assert!(!is_already_utf8(&AI_SHIFT_JIS));
    assert!(!is_already_utf8(&[0xFF, 0xFE, 0x61, 0x00]));
    assert!(!is_already_utf8(&[0xC0, 0x80]));
    assert!(!is_already_utf8(&[0xED, 0xA0, 0x80]));
    assert!(!is_already_utf8(&[0xE3, 0x81]));
}

#[test]
fn conversion_round_trips_through_utf8() {
    let cases: [(&[u8], &str, &str); 5] = [
        (&AI_SHIFT_JIS, "Shift_JIS", "あい"),
        (&[0xA4, 0xA2, 0xA4, 0xA4], "EUC-JP", "あい"),
        (&[0x1B, 0x24, 0x42, 0x24, 0x22, 0x1B, 0x28, 0x42], "ISO-2022-JP", "あ"),
        (&[0x42, 0x30, 0x44, 0x30], "UTF-16LE", "あい"),
        (&[0x63, 0x61, 0x66, 0xE9], "windows-1252", "café"),
    ];
    for (bytes, name, text) in cases {
        let out = convert_to_utf8_bom(bytes, name).unwrap();
        assert_eq!(&out[..3], &[0xEF, 0xBB, 0xBF]);
        assert_eq!(std::str::from_utf8(strip_bom(&out)).unwrap(), text);
        assert_eq!(decode_source(bytes, name).unwrap(), text);
        assert!(is_already_utf8(&out));
    }
}

#[test]
fn conversion_drops_the_input_mark() {
    let out = convert_to_utf8_bom(&[0xFF, 0xFE, 0x42, 0x30], "UTF-16LE").unwrap();
    assert_eq!(out, marked("あ"));
    let out = convert_to_utf8_bom(&[0xEF, 0xBB, 0xBF, 0x61], "UTF-8").unwrap();
    assert_eq!(out, marked("a"));
}

#[test]
fn conversion_is_lossy_not_failing() {
    let out = convert_to_utf8_bom(&[0x61, 0xFF, 0x62], "UTF-8").unwrap();
    assert_eq!(out, marked("a\u{FFFD}b"));
    assert_eq!(convert_to_utf8_bom(&[], "Shift_JIS").unwrap(), vec![0xEF, 0xBB, 0xBF]);
}

#[test]
fn conversion_accepts_labels_in_any_case() {
    assert_eq!(convert_to_utf8_bom(&AI_SHIFT_JIS, " sjis ").unwrap(), marked("あい"));
    assert_eq!(convert_to_utf8_bom(&AI_SHIFT_JIS, "SHIFT_JIS").unwrap(), marked("あい"));
}

#[test]
fn unknown_encoding_is_the_only_failure() {
    match convert_to_utf8_bom(b"abc", "no-such-encoding") {
        Err(PipelineError::UnknownEncoding(name)) => assert_eq!(name, "no-such-encoding"),
        other => panic!("{:?}", other),
    }
    let error = convert_to_utf8_bom(b"abc", "").unwrap_err();
    assert_eq!(error.message(), "Unknown encoding: ");
    assert!(matches!(decode_source(b"abc", "utf-9"), Err(PipelineError::UnknownEncoding(_))));
}

#[test]
fn names_outside_the_candidates_are_unknown() {
    for name in ["gbk", "GBK", "big5", "euc-kr", "windows-1251", "iso-8859-2", "x-user-defined"] {
        assert!(encoding_rs::Encoding::for_label(name.as_bytes()).is_some());
        match convert_to_utf8_bom(b"abc", name) {
            Err(PipelineError::UnknownEncoding(unknown)) => assert_eq!(unknown, name),
            other => panic!("{}: {:?}", name, other),
        }
        assert!(decode_source(&[], name).is_err());
    }
}

#[test]
fn labels_of_the_candidates_are_known() {
    let labels = [
        "Shift_JIS", "sjis", "EUC-JP", "x-euc-jp", "ISO-2022-JP", "csiso2022jp", "UTF-8",
        "utf8", "UTF-16LE", "utf-16", "UTF-16BE", "windows-1252", "latin1", " ascii ",
    ];
    for label in labels {
        assert_eq!(convert_to_utf8_bom(b"abc", label).is_ok(), true, "{}", label);
    }
    assert_eq!(convert_to_utf8_bom(&[0xE9], "latin1").unwrap(), marked("é"));
    assert_eq!(candidate_named("UTF-8"), Some(EncodingCandidate::Utf8));
    assert_eq!(candidate_named("windows-1252"), Some(EncodingCandidate::Windows1252));
    assert_eq!(candidate_named("utf-8"), None);
    assert_eq!(candidate_named("GBK"), None);
    assert_eq!(candidate_named(""), None);
}

#[test]
fn success_does_not_depend_on_the_data() {
    let inputs: [&[u8]; 4] = [&[], &[0xFF, 0xFF], &[0xEF, 0xBB, 0xBF], b"plain"];
    for data in inputs {
        assert!(convert_to_utf8_bom(data, "EUC-JP").is_ok());
        assert!(convert_to_utf8_bom(data, "gbk").is_err());
        assert!(convert_to_utf8_bom(data, "nothing").is_err());
    }
}

#[test]
fn a_second_mark_is_content() {
    // The first mark is dropped; the rest is decoded under the named
    // encoding, whatever it opens with.
    let out = convert_to_utf8_bom(&[0xEF, 0xBB, 0xBF, 0xFF, 0xFE, 0x41], "UTF-8").unwrap();
    assert_eq!(out, marked("\u{FFFD}\u{FFFD}A"));
    let out = convert_to_utf8_bom(&[0xFF, 0xFE, 0xFF, 0xFE, 0x41, 0x00], "UTF-16LE").unwrap();
    assert_eq!(out, marked("\u{FEFF}A"));
}

#[test]
fn error_messages() {
    assert_eq!(PipelineError::NotFound.message(), "File not found");
    assert_eq!(PipelineError::Io("denied".to_string()).message(), "denied");
    assert_eq!(
        PipelineError::UnknownEncoding("x-odd".to_string()).message(),
        "Unknown encoding: x-odd"
    );
    assert_eq!(
        PipelineError::DecodeFailure("byte 3".to_string()).message(),
        "Decode failure: byte 3"
    );
}

#[test]
fn with_utf8_bom_prefixes_the_mark() {
    assert_eq!(with_utf8_bom(""), vec![0xEF, 0xBB, 0xBF]);
    assert_eq!(with_utf8_bom("aあ"), vec![0xEF, 0xBB, 0xBF, 0x61, 0xE3, 0x81, 0x82]);
}

#[test]
fn guess_based_detection_names_a_known_encoding() {
    let text = "これは日本語の文章です。エンコーディングを正しく判定できるでしょうか。";
    let (bytes, _, _) = encoding_rs::SHIFT_JIS.encode(text);
    let detection = detect_encoding(&bytes);
    assert_eq!(detection.encoding_name, "Shift_JIS");
    assert_eq!(detection.confidence, Score::from_hundredths(90));
    assert_eq!(convert_to_utf8_bom(&bytes, &detection.encoding_name).unwrap(), marked(text));

    let utf8 = detect_encoding(text.as_bytes());
    assert_eq!(utf8.encoding_name, "UTF-8");
    assert_eq!(utf8.confidence, Score::from_hundredths(95));
}

#[test]
fn estimated_confidence_levels() {
    assert_eq!(estimate_confidence("UTF-8", "あ", true), Score { numer: 50, denom: 1 });
    assert_eq!(estimate_confidence("Shift_JIS", "あ", true), Score { numer: 50, denom: 1 });
    assert_eq!(estimate_confidence("UTF-8", "abc", false), Score { numer: 95, denom: 1 });
    assert_eq!(estimate_confidence("Shift_JIS", "aあ", false), Score { numer: 90, denom: 1 });
    assert_eq!(estimate_confidence("windows-1252", "abc", false), Score { numer: 80, denom: 1 });
}

#[test]
fn cjk_span() {
    assert!(contains_cjk("abc\u{3000}"));
    assert!(contains_cjk("\u{9FFF}"));
    assert!(contains_cjk("\u{F900}x"));
    assert!(contains_cjk("x\u{FAFF}"));
    assert!(!contains_cjk(""));
    assert!(!contains_cjk("abc\u{2FFF}\u{A000}\u{F8FF}\u{FB00}"));
}

#[test]
fn input_limit_leaves_room_for_the_decoder() {
    assert_eq!(MAX_INPUT_LEN, usize::MAX / 8);
}

#[test]
fn validation_agrees_with_the_standard_library_on_short_inputs() {
    for a in 0..=255u8 {
        assert_eq!(is_valid_utf8(&[a]), std::str::from_utf8(&[a]).is_ok(), "{:02X}", a);
        for b in 0..=255u8 {
            let pair = [a, b];
            assert_eq!(is_valid_utf8(&pair), std::str::from_utf8(&pair).is_ok(), "{:02X?}", pair);
        }
    }
    let leads = [0xE0, 0xE1, 0xEC, 0xED, 0xEE, 0xEF, 0xF0, 0xF1, 0xF3, 0xF4, 0xF5, 0xF7, 0xF8];
    let trails = [0x00, 0x7F, 0x80, 0x8F, 0x90, 0x9F, 0xA0, 0xBF, 0xC0, 0xFF];
    for lead in leads {
        for second in trails {
            for third in trails {
                let three = [lead, second, third];
                assert_eq!(
                    is_valid_utf8(&three),
                    std::str::from_utf8(&three).is_ok(),
                    "{:02X?}",
                    three
                );
                for fourth in trails {
                    let four = [lead, second, third, fourth];
                    assert_eq!(
                        is_valid_utf8(&four),
                        std::str::from_utf8(&four).is_ok(),
                        "{:02X?}",
                        four
                    );
                }
            }
        }
    }
}

#[test]
fn validation_of_text() {
    assert!(is_valid_utf8(&[]));
    assert!(is_valid_utf8("aé あ 𝄞 \u{10FFFF}\u{D7FF}\u{E000}".as_bytes()));
    assert!(!is_valid_utf8(&[0x61, 0x80]));
    assert!(!is_valid_utf8(&[0xF4, 0x90, 0x80, 0x80]));
    assert!(!is_valid_utf8(&[0xE0, 0x9F, 0xBF]));
    assert!(!is_valid_utf8(&[0xF0, 0x8F, 0xBF, 0xBF]));
    assert!(!is_valid_utf8(&[0x61, 0xE3, 0x81]));
}

#[test]
fn widths_of_characters() {
    let text = "aé あ𝄞".as_bytes();
    assert_eq!(scalar_width(text, 0), 1);
    assert_eq!(scalar_width(text, 1), 2);
    assert_eq!(scalar_width(text, 2), 0);
    assert_eq!(scalar_width(text, 4), 3);
    assert_eq!(scalar_width(text, 7), 4);
    assert_eq!(scalar_width(&[0xED, 0xA0, 0x80], 0), 0);
    assert_eq!(scalar_width(&[0xC1, 0xBF], 0), 0);
    assert_eq!(scalar_width(&[0xE3, 0x81], 0), 0);
}

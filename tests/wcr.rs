use textutils::wcr::{
    count, format_field, report_line, summary_line, total, total_line, Config, ConfigError,
    CountError, FileInfo,
};

#[test]
fn test_count() {
    let text = "I don't want the world. I just want your half.\r\n";
    let info = count(text.as_bytes());
    assert!(info.is_ok());
    let expected = FileInfo {
        num_lines: 1,
        num_words: 10,
        num_chars: 48,
        num_bytes: 48,
    };

    assert_eq!(info.unwrap(), expected);
}

#[test]
fn test_format_field() {
    assert_eq!(format_field(1, false), "");
    assert_eq!(format_field(3, true), "       3");
    assert_eq!(format_field(10, true), "      10");
}

#[test]
fn format_field_wide_value() {
    assert_eq!(format_field(123456789, true), "123456789");
    assert_eq!(format_field(0, true), "       0");
}

#[test]
fn count_empty_and_unterminated() {
    let z = FileInfo { num_lines: 0, num_words: 0, num_bytes: 0, num_chars: 0 };
    assert_eq!(count(b""), Ok(z));
    let i = count(b"a b\nc").unwrap();
    assert_eq!(i, FileInfo { num_lines: 2, num_words: 3, num_bytes: 5, num_chars: 5 });
    let i = count(b"\n\n").unwrap();
    assert_eq!(i, FileInfo { num_lines: 2, num_words: 0, num_bytes: 2, num_chars: 2 });
}

#[test]
fn count_multibyte() {
    let i = count("caf\u{e9} \u{1f600}\n".as_bytes()).unwrap();
    assert_eq!(i, FileInfo { num_lines: 1, num_words: 2, num_bytes: 11, num_chars: 7 });
}

#[test]
fn count_invalid_utf8() {
    assert_eq!(count(&[0x61, 0xff, 0x0a]), Err(CountError::InvalidUtf8));
}

#[test]
fn config_default_selection() {
    let files = vec!["a".to_string()];
    let d = Config::new(files.clone(), false, false, false, false).unwrap();
    let e = Config::new(files, true, true, true, false).unwrap();
    let info = FileInfo { num_lines: 1, num_words: 2, num_bytes: 3, num_chars: 4 };
    assert_eq!(report_line(&info, &d, "a"), report_line(&info, &e, "a"));
    assert_eq!(report_line(&info, &d, "a"), "       1       2       3 a");
}

#[test]
fn config_bytes_with_chars() {
    assert_eq!(
        Config::new(vec![], false, false, true, true).unwrap_err(),
        ConfigError::BytesWithChars
    );
}

#[test]
fn report_line_for_stdin_and_chars() {
    let c = Config::new(vec![], false, false, false, true).unwrap();
    assert_eq!(c.files(), &vec!["-".to_string()]);
    let info = FileInfo { num_lines: 1, num_words: 2, num_bytes: 3, num_chars: 4 };
    assert_eq!(report_line(&info, &c, "-"), "       4");
    let c = Config::new(vec![], true, false, false, false).unwrap();
    assert_eq!(report_line(&info, &c, "x.txt"), "       1 x.txt");
}

#[test]
fn totals_are_sums() {
    let a = count(b"one two\nthree\n").unwrap();
    let b = count(b"four\n").unwrap();
    let t = total(&vec![a, b]).unwrap();
    assert_eq!(t, FileInfo { num_lines: 3, num_words: 4, num_bytes: 19, num_chars: 19 });
    let c = Config::new(vec!["a".to_string(), "b".to_string()], false, false, false, false)
        .unwrap();
    assert_eq!(total_line(&t, &c), "       3       4      19 total");
    assert_eq!(
        summary_line(&c, &vec![a, b]),
        Some("       3       4      19 total".to_string())
    );
}

#[test]
fn summary_only_for_several_sources() {
    let c = Config::new(vec!["a".to_string()], false, false, false, false).unwrap();
    let a = count(b"x\n").unwrap();
    assert_eq!(summary_line(&c, &vec![a]), None);
}

#[test]
fn total_overflow() {
    let big = FileInfo { num_lines: usize::MAX, num_words: 0, num_bytes: 0, num_chars: 0 };
    let one = FileInfo { num_lines: 1, num_words: 0, num_bytes: 0, num_chars: 0 };
    assert_eq!(total(&vec![big, one]), None);
    assert_eq!(total(&vec![]), Some(FileInfo { num_lines: 0, num_words: 0, num_bytes: 0, num_chars: 0 }));
}

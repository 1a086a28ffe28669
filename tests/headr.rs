use textutils::headr::{head_bytes, head_lines, header, parse_positive_int, Config};

#[test]
fn test_parse_positive_int() {
    let res = parse_positive_int("3");
    assert!(res.is_ok());
    assert_eq!(res.unwrap(), 3);

    let res = parse_positive_int("foo");
    assert!(res.is_err());
    assert_eq!(res.unwrap_err().to_string(), "foo".to_string());

    let res = parse_positive_int("0");
    assert!(res.is_err());
    assert_eq!(res.unwrap_err().to_string(), "0".to_string());
}

#[test]
fn parse_positive_int_edges() {
    assert_eq!(parse_positive_int("+7"), Ok(7));
    assert_eq!(parse_positive_int("007"), Ok(7));
    assert_eq!(parse_positive_int(""), Err("".to_string()));
    assert_eq!(parse_positive_int("+"), Err("+".to_string()));
    assert_eq!(parse_positive_int("18446744073709551615"), Ok(18446744073709551615));
    assert_eq!(parse_positive_int("-1"), Err("-1".to_string()));
    assert_eq!(parse_positive_int(" 1"), Err(" 1".to_string()));
    assert_eq!(
        parse_positive_int("99999999999999999999999"),
        Err("99999999999999999999999".to_string())
    );
}

#[test]
fn config_defaults() {
    let c = Config::new(vec![], None, None).unwrap();
    assert_eq!(c.files(), &vec!["-".to_string()]);
    assert_eq!(c.lines(), 10);
    assert_eq!(c.bytes(), None);
}

#[test]
fn config_limits() {
    let c = Config::new(vec!["a".to_string()], Some("3"), None).unwrap();
    assert_eq!(c.lines(), 3);
    assert_eq!(c.bytes(), None);
    let c = Config::new(vec!["a".to_string()], None, Some("5")).unwrap();
    assert_eq!(c.lines(), 10);
    assert_eq!(c.bytes(), Some(5));
}

#[test]
fn config_errors() {
    let e = Config::new(vec![], Some("0"), None).unwrap_err();
    assert_eq!(e, "illegal line count -- 0");
    let e = Config::new(vec![], None, Some("x")).unwrap_err();
    assert_eq!(e, "illegal byte count -- x");
    let e = Config::new(vec![], Some("bad"), Some("x")).unwrap_err();
    assert_eq!(e, "illegal line count -- bad");
    assert!(Config::new(vec![], Some("1"), Some("1")).is_err());
}

#[test]
fn head_lines_takes_first_lines() {
    let text = b"one\ntwo\nthree\n";
    assert_eq!(head_lines(text, 2), b"one\ntwo\n".to_vec());
    assert_eq!(head_lines(text, 1), b"one\n".to_vec());
    assert_eq!(head_lines(text, 10), text.to_vec());
    assert_eq!(head_lines(b"a\nb", 5), b"a\nb".to_vec());
    assert_eq!(head_lines(b"", 3), Vec::<u8>::new());
    assert_eq!(head_lines(b"\n\n\n", 2), b"\n\n".to_vec());
}

#[test]
fn head_bytes_takes_first_bytes() {
    assert_eq!(head_bytes(b"hello world", 5), "hello");
    assert_eq!(head_bytes(b"hi", 5), "hi");
    let s = "\u{e9}t\u{e9}".as_bytes();
    assert_eq!(head_bytes(s, 1), "\u{fffd}");
    assert_eq!(head_bytes(s, 3), "\u{e9}t");
}

#[test]
fn headers_for_several_sources() {
    assert_eq!(header("a.txt", 0, 1), None);
    assert_eq!(header("a.txt", 0, 2), Some("==> a.txt <==".to_string()));
    assert_eq!(header("b.txt", 1, 2), Some("\n==> b.txt <==".to_string()));
}

#[test]
fn head_lines_stops_at_the_limit() {
    assert_eq!(head_lines(b"a\nb", 1), b"a\n".to_vec());
    assert_eq!(head_lines(b"a\nb\n", 2), b"a\nb\n".to_vec());
}

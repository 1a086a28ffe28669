use textutils::catr::{render_lines, Config, ConfigError, NumberMode, Numberer};

fn lines(v: &[&str]) -> Vec<String> {
    v.iter().map(|s| s.to_string()).collect()
}

#[test]
fn number_all_lines() {
    let out = render_lines(NumberMode::All, &lines(&["a", "", "b"]));
    assert_eq!(out, lines(&["     1\ta", "     2\t", "     3\tb"]));
}

#[test]
fn number_all_empty_source() {
    assert_eq!(render_lines(NumberMode::All, &vec![]), Vec::<String>::new());
}

#[test]
fn number_nonblank_lines() {
    let out = render_lines(NumberMode::NonBlank, &lines(&["a", "", "", "b", "c"]));
    assert_eq!(out, lines(&["     1\ta", "", "", "     2\tb", "     3\tc"]));
}

#[test]
fn plain_lines() {
    let input = lines(&["x", "", "y"]);
    assert_eq!(render_lines(NumberMode::Plain, &input), input);
}

#[test]
fn config_modes() {
    assert_eq!(Config::new(vec![], false, false).unwrap().mode(), NumberMode::Plain);
    assert_eq!(Config::new(vec![], true, false).unwrap().mode(), NumberMode::All);
    assert_eq!(Config::new(vec![], false, true).unwrap().mode(), NumberMode::NonBlank);
    assert_eq!(Config::new(vec![], true, true).unwrap_err(), ConfigError::BothNumberings);
    let c = Config::new(vec!["f".to_string()], false, false).unwrap();
    assert_eq!(c.files(), &vec!["f".to_string()]);
}

#[test]
fn numberer_one_line_at_a_time() {
    let mut n = Numberer::new(NumberMode::NonBlank);
    assert_eq!(n.next_line(&"x".to_string()), "     1\tx");
    assert_eq!(n.next_line(&"".to_string()), "");
    assert_eq!(n.next_line(&"y".to_string()), "     2\ty");
    assert_eq!(n.seen(), 3);
    let mut n = Numberer::new(NumberMode::All);
    assert_eq!(n.next_line(&"".to_string()), "     1\t");
    assert_eq!(n.next_line(&"z".to_string()), "     2\tz");
}

use rbw_vpn_client::logtail::{join_lines, recent_log, split_lines, tail_lines};

#[test]
fn lines_split_at_line_feeds() {
    assert_eq!(split_lines("a\nb\r\nc"), vec!["a", "b", "c"]);
    assert_eq!(split_lines("a\n"), vec!["a"]);
    assert_eq!(split_lines("\n\n"), vec!["", ""]);
    assert!(split_lines("").is_empty());
}

#[test]
fn lines_match_std() {
    let text = "one\r\ntwo\n\nthree\r\n";
    let expected: Vec<String> = text.lines().map(|l| l.to_string()).collect();
    assert_eq!(split_lines(text), expected);
}

#[test]
fn tail_keeps_the_last_lines_in_order() {
    assert_eq!(tail_lines("1\n2\n3\n4", 2), vec!["3", "4"]);
    assert_eq!(tail_lines("1\n2", 5), vec!["1", "2"]);
    assert!(tail_lines("1\n2", 0).is_empty());
    assert!(tail_lines("", 3).is_empty());
}

#[test]
fn join_puts_line_feeds_between() {
    assert_eq!(join_lines(&vec!["a".to_string(), "b".to_string()]), "a\nb");
    assert_eq!(join_lines(&vec!["only".to_string()]), "only");
    assert_eq!(join_lines(&Vec::new()), "");
}

#[test]
fn recent_log_is_the_last_lines_as_text() {
    assert_eq!(recent_log("x\ny\nz\n", 2), "y\nz");
    assert_eq!(recent_log("", 100), "");
}

#[test]
fn tail_of_a_long_log() {
    let text: String = (0..100_000).map(|i| format!("line {}\n", i)).collect();
    assert_eq!(tail_lines(&text, 3), vec!["line 99997", "line 99998", "line 99999"]);
    assert_eq!(tail_lines(&text, 200).len(), 200);
}

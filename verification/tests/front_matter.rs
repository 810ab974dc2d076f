use code_monkey::parser::front_matter::extract_front_matter;
use code_monkey::parser::types::FrontMatter;

#[test]
fn test_front_matter_basic() {
    let lines: Vec<&str> = "---\ntitle: My Talk\ntyping_speed: 60\n---\n[SAY] hi"
        .lines()
        .collect();
    let (fm, start) = extract_front_matter(&lines).unwrap();
    assert_eq!(fm.title, Some("My Talk".to_string()));
    assert_eq!(fm.typing_speed, 60);
    assert_eq!(fm.typing_variance, 15);
    assert_eq!(fm.agent_port, 9876);
    assert_eq!(start, 4);
}

#[test]
fn test_front_matter_missing() {
    let lines: Vec<&str> = "[SAY] hi".lines().collect();
    let (fm, start) = extract_front_matter(&lines).unwrap();
    assert_eq!(fm, FrontMatter::default());
    assert_eq!(start, 0);
}

#[test]
fn test_front_matter_empty() {
    let lines: Vec<&str> = "---\n---\n[SAY] hi".lines().collect();
    let (fm, start) = extract_front_matter(&lines).unwrap();
    assert_eq!(fm, FrontMatter::default());
    assert_eq!(start, 2);
}

#[test]
fn test_front_matter_unknown_key_warns() {
    let lines: Vec<&str> = "---\nfoo: bar\n---".lines().collect();
    let (fm, _) = extract_front_matter(&lines).unwrap();
    assert_eq!(fm.title, None); // unknown key ignored
}

#[test]
fn test_front_matter_invalid_number() {
    let lines: Vec<&str> = "---\ntyping_speed: abc\n---".lines().collect();
    let err = extract_front_matter(&lines).unwrap_err();
    assert!(err.to_string().contains("typing_speed"));
}

#[test]
fn test_front_matter_all_fields() {
    let lines: Vec<&str> =
        "---\ntitle: Demo\ntyping_speed: 50\ntyping_variance: 20\nagent_port: 4444\n---"
            .lines()
            .collect();
    let (fm, _) = extract_front_matter(&lines).unwrap();
    assert_eq!(fm.title, Some("Demo".to_string()));
    assert_eq!(fm.typing_speed, 50);
    assert_eq!(fm.typing_variance, 20);
    assert_eq!(fm.agent_port, 4444);
}

#[test]
fn test_front_matter_agent_port() {
    let lines: Vec<&str> = "---\nagent_port: 4444\n---".lines().collect();
    let (fm, _) = extract_front_matter(&lines).unwrap();
    assert_eq!(fm.agent_port, 4444);
}

#[test]
fn test_front_matter_with_inline_comments() {
    let lines: Vec<&str> = "---\ntyping_speed: 60  # fast typing\n---"
        .lines()
        .collect();
    let (fm, _) = extract_front_matter(&lines).unwrap();
    assert_eq!(fm.typing_speed, 60);
}

#[test]
fn front_matter_of_no_lines_is_the_default() {
    let lines: Vec<&str> = Vec::new();
    let (fm, start) = extract_front_matter(&lines).unwrap();
    assert_eq!(fm, FrontMatter::default());
    assert_eq!(start, 0);
}

#[test]
fn front_matter_never_closed_is_an_error_at_line_one() {
    let lines = vec!["---", "title: x", "[SAY] hi"];
    let err = extract_front_matter(&lines).unwrap_err();
    assert_eq!(err.line_number, 1);
    assert_eq!(err.line_content, "---");
    assert_eq!(
        err.message,
        "Front matter opened but never closed with '---'"
    );
    assert_eq!(
        err.to_string(),
        "Parse error at line 1: Front matter opened but never closed with '---'\n  | ---"
    );
    let lines = vec!["---"];
    assert_eq!(extract_front_matter(&lines).unwrap_err().line_number, 1);
}

#[test]
fn front_matter_line_without_colon_is_an_error() {
    let lines = vec!["---", "title: x", "", "  oops  ", "---"];
    let err = extract_front_matter(&lines).unwrap_err();
    assert_eq!(err.line_number, 4);
    assert_eq!(err.line_content, "  oops  ");
    assert_eq!(err.message, "Expected 'key: value' format in front matter");
    let lines = vec!["---", "# only a comment", "---"];
    let err = extract_front_matter(&lines).unwrap_err();
    assert_eq!(err.line_number, 2);
    assert_eq!(err.message, "Expected 'key: value' format in front matter");
}

#[test]
fn front_matter_invalid_numbers_name_key_and_value() {
    let lines = vec!["---", "typing_speed: abc", "---"];
    let err = extract_front_matter(&lines).unwrap_err();
    assert_eq!(err.line_number, 2);
    assert_eq!(err.line_content, "typing_speed: abc");
    assert_eq!(err.message, "Invalid typing_speed value: 'abc'");
    let lines = vec!["---", "typing_variance: -1", "---"];
    assert_eq!(
        extract_front_matter(&lines).unwrap_err().message,
        "Invalid typing_variance value: '-1'"
    );
    let lines = vec!["---", "title: t", "agent_port: 65536", "---"];
    let err = extract_front_matter(&lines).unwrap_err();
    assert_eq!(err.line_number, 3);
    assert_eq!(err.message, "Invalid agent_port value: '65536'");
    let lines = vec!["---", "typing_speed:", "---"];
    assert_eq!(
        extract_front_matter(&lines).unwrap_err().message,
        "Invalid typing_speed value: ''"
    );
    let lines = vec!["---", "typing_speed: 18446744073709551616", "---"];
    assert_eq!(
        extract_front_matter(&lines).unwrap_err().message,
        "Invalid typing_speed value: '18446744073709551616'"
    );
}

#[test]
fn front_matter_reads_numbers_at_their_limits() {
    let lines = vec![
        "---",
        "typing_speed: 18446744073709551615",
        "typing_variance: +0007",
        "agent_port: 65535",
        "---",
    ];
    let (fm, start) = extract_front_matter(&lines).unwrap();
    assert_eq!(fm.typing_speed, u64::MAX);
    assert_eq!(fm.typing_variance, 7);
    assert_eq!(fm.agent_port, 65535);
    assert_eq!(start, 5);
}

#[test]
fn front_matter_trims_and_splits_at_the_first_colon() {
    let lines = vec![
        "  ---  ",
        "   title :  a: b   # c",
        "\t",
        "typing_speed: 1",
        "typing_speed: 2",
        " --- ",
        "---",
    ];
    let (fm, start) = extract_front_matter(&lines).unwrap();
    assert_eq!(fm.title, Some("a: b".to_string()));
    assert_eq!(fm.typing_speed, 2);
    assert_eq!(start, 6);
}

#[test]
fn front_matter_needs_the_fence_on_the_first_line() {
    let lines = vec!["", "---", "title: x", "---"];
    let (fm, start) = extract_front_matter(&lines).unwrap();
    assert_eq!(fm, FrontMatter::default());
    assert_eq!(start, 0);
}

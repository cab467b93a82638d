use minigrep::{has_substring, search, search_case_insensitive, search_case_sensitive, Line};

fn line(number: usize, content: &str) -> Line {
    Line {
        number,
        content: String::from(content),
    }
}

#[test]
fn case_sensitive() {
    let query = "duct";
    let contents = "\
Rust:
safe, fast, productive.
Pick three.
Duct tape.";

    assert_eq!(
        vec![Line {
            number: 2,
            content: String::from("safe, fast, productive.")
        }],
        search_case_sensitive(query, contents)
    );
}

#[test]
fn case_insensitive() {
    let query = "rUsT";
    let contents = "\
Rust:
safe, fast, productive.
Pick three.
Trust me.";

    assert_eq!(
        vec![
            Line {
                number: 1,
                content: String::from("Rust:")
            },
            Line {
                number: 4,
                content: String::from("Trust me.")
            }
        ],
        search_case_insensitive(query, contents)
    );
}

#[test]
fn search_dispatches_on_case_flag() {
    let contents = "Rust:\nsafe, fast, productive.\nPick three.\nDuct tape.";
    assert_eq!(
        search("duct", true, contents),
        vec![line(2, "safe, fast, productive.")]
    );
    assert_eq!(
        search("duct", false, contents),
        vec![line(2, "safe, fast, productive."), line(4, "Duct tape.")]
    );
}

#[test]
fn search_case_insensitive_example() {
    let contents = "Rust:\nsafe, fast, productive.\nPick three.\nTrust me.";
    assert_eq!(
        search("rUsT", false, contents),
        vec![line(1, "Rust:"), line(4, "Trust me.")]
    );
}

#[test]
fn empty_query_matches_every_line() {
    assert_eq!(search("", true, "a\nb\n"), vec![line(1, "a"), line(2, "b")]);
    assert_eq!(search("", false, "a\nb\n"), vec![line(1, "a"), line(2, "b")]);
}

#[test]
fn empty_contents_give_no_matches() {
    assert!(search("x", true, "").is_empty());
    assert!(search("", true, "").is_empty());
    assert!(search("", false, "").is_empty());
}

#[test]
fn no_match_gives_empty_result() {
    assert!(search("zebra", true, "one\ntwo\nthree").is_empty());
}

#[test]
fn empty_lines_are_counted() {
    assert_eq!(search("b", true, "a\n\n\nb"), vec![line(4, "b")]);
    assert_eq!(search("", true, "\n\n"), vec![line(1, ""), line(2, "")]);
}

#[test]
fn crlf_terminator_is_not_content() {
    assert_eq!(
        search("o", true, "one\r\ntwo\r\nzzz\r\nfour"),
        vec![line(1, "one"), line(2, "two"), line(4, "four")]
    );
    assert_eq!(search("e\r", true, "one\r\ntwo"), Vec::<Line>::new());
}

#[test]
fn lone_carriage_return_stays_in_content() {
    assert_eq!(search("a", true, "a\rb\nc"), vec![line(1, "a\rb")]);
    assert_eq!(search("", true, "x\r"), vec![line(1, "x\r")]);
}

#[test]
fn case_insensitive_keeps_original_text() {
    assert_eq!(
        search("HELLO", false, "Hello World\nbye\nhello"),
        vec![line(1, "Hello World"), line(3, "hello")]
    );
}

#[test]
fn ignoring_case_finds_a_superset() {
    let contents = "Rust:\nrust\nTRUST\nnothing";
    let sensitive = search("rust", true, contents);
    let insensitive = search("rust", false, contents);
    assert_eq!(sensitive, vec![line(2, "rust")]);
    for m in &sensitive {
        assert!(insensitive.contains(m));
    }
    assert_eq!(insensitive.len(), 3);
}

#[test]
fn numbering_reaches_the_line_count() {
    let contents = "a\nb\nc\nd\ne";
    let all = search("", true, contents);
    assert_eq!(all.len(), 5);
    assert_eq!(all[4].number, 5);
    let last = search("e", true, contents);
    assert_eq!(last, vec![line(5, "e")]);
}

#[test]
fn non_ascii_text_is_searched_by_characters() {
    assert_eq!(
        search("ÄÖ", false, "xäöy\nabc\nÄÖ"),
        vec![line(1, "xäöy"), line(3, "ÄÖ")]
    );
}

#[test]
fn substring_test_edges() {
    let text: Vec<char> = "abcabd".chars().collect();
    let hit: Vec<char> = "abd".chars().collect();
    let miss: Vec<char> = "abe".chars().collect();
    let long: Vec<char> = "abcabdx".chars().collect();
    assert!(has_substring(&text, &hit));
    assert!(!has_substring(&text, &miss));
    assert!(!has_substring(&text, &long));
    assert!(has_substring(&text, &[]));
    assert!(has_substring(&[], &[]));
    assert!(!has_substring(&[], &['a']));
}

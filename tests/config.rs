use minigrep::{is_line_number_flag, Config};

#[test]
fn config_needs_a_query() {
    assert_eq!(Config::new(Vec::new(), false).err(), Some("no query"));
}

#[test]
fn config_needs_a_filename() {
    assert_eq!(
        Config::new(vec![String::from("q")], false).err(),
        Some("no filename")
    );
}

#[test]
fn config_reads_its_arguments() {
    let config = Config::new(
        vec![String::from("q"), String::from("f.txt"), String::from("ln")],
        true,
    )
    .unwrap();
    assert_eq!(config.query, "q");
    assert_eq!(config.filename, "f.txt");
    assert!(config.case_sensitive);
    assert!(config.ln);
}

#[test]
fn config_ignores_other_third_argument() {
    let config = Config::new(
        vec![String::from("q"), String::from("f.txt"), String::from("LN")],
        false,
    )
    .unwrap();
    assert!(!config.ln);
    assert!(!config.case_sensitive);
    let config = Config::new(vec![String::from("q"), String::from("f.txt")], false).unwrap();
    assert!(!config.ln);
}

#[test]
fn line_number_flag_is_exact() {
    assert!(is_line_number_flag("ln"));
    assert!(!is_line_number_flag("l"));
    assert!(!is_line_number_flag("lnx"));
    assert!(!is_line_number_flag(""));
}

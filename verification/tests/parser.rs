use steam_icons::parse::{match_icon_line, match_run_command, parse_shortcut, ParseError};

const DIR: &str = "C:\\icons\\";

fn lines(v: &[&str]) -> Vec<String> {
    v.iter().map(|s| s.to_string()).collect()
}

#[test]
fn parses_example_shortcut() {
    let l = lines(&[
        "[InternetShortcut]",
        "URL=steam://rungameid/730",
        "IconFile=C:\\icons\\730.ico",
    ]);
    let p = parse_shortcut(&l, "C:\\icons\\").unwrap();
    assert_eq!(p.key, "730");
    assert_eq!(p.icon_filename, "730.ico");
}

#[test]
fn no_header_is_not_recognized() {
    let l = lines(&["URL=steam://rungameid/5", "IconFile=C:\\icons\\5.ico"]);
    assert!(matches!(
        parse_shortcut(&l, DIR),
        Err(ParseError::NotRecognized)
    ));
}

#[test]
fn empty_file_is_not_recognized() {
    let l = lines(&[]);
    assert!(matches!(
        parse_shortcut(&l, DIR),
        Err(ParseError::NotRecognized)
    ));
}

#[test]
fn header_alone_is_not_recognized() {
    let l = lines(&["[InternetShortcut]"]);
    assert!(matches!(
        parse_shortcut(&l, DIR),
        Err(ParseError::NotRecognized)
    ));
}

#[test]
fn key_without_icon_is_incomplete() {
    let l = lines(&["[InternetShortcut]", "URL=steam://rungameid/42"]);
    assert!(matches!(
        parse_shortcut(&l, DIR),
        Err(ParseError::NotRecognized)
    ));
}

#[test]
fn icon_without_key_is_incomplete() {
    let l = lines(&["[InternetShortcut]", "IconFile=C:\\icons\\42.ico"]);
    assert!(matches!(
        parse_shortcut(&l, DIR),
        Err(ParseError::NotRecognized)
    ));
}

#[test]
fn duplicate_key_fails() {
    let l = lines(&[
        "[InternetShortcut]",
        "URL=steam://rungameid/1",
        "URL=steam://rungameid/2",
        "IconFile=C:\\icons\\1.ico",
    ]);
    assert!(matches!(
        parse_shortcut(&l, DIR),
        Err(ParseError::DuplicateKey)
    ));
}

#[test]
fn duplicate_icon_fails() {
    let l = lines(&[
        "[InternetShortcut]",
        "IconFile=C:\\icons\\1.ico",
        "IconFile=C:\\icons\\2.ico",
        "URL=steam://rungameid/1",
    ]);
    assert!(matches!(
        parse_shortcut(&l, DIR),
        Err(ParseError::DuplicateIcon)
    ));
}

#[test]
fn unrecognized_icon_dir_fails() {
    let l = lines(&[
        "[InternetShortcut]",
        "URL=steam://rungameid/7",
        "IconFile=D:\\other\\7.ico",
    ]);
    match parse_shortcut(&l, DIR) {
        Err(ParseError::UnrecognizedIconDir(d)) => assert_eq!(d, "D:\\other\\"),
        r => panic!("expected an unrecognized-directory error, got {:?}", r),
    }
}

#[test]
fn icon_dir_match_is_case_sensitive() {
    let l = lines(&[
        "[InternetShortcut]",
        "URL=steam://rungameid/7",
        "IconFile=c:\\icons\\7.ico",
    ]);
    assert!(matches!(
        parse_shortcut(&l, DIR),
        Err(ParseError::UnrecognizedIconDir(_))
    ));
}

#[test]
fn lines_before_header_are_ignored() {
    let l = lines(&[
        "URL=steam://rungameid/5",
        "[InternetShortcut]",
        "URL=steam://rungameid/9",
        "IconFile=C:\\icons\\9.ico",
    ]);
    let p = parse_shortcut(&l, DIR).unwrap();
    assert_eq!(p.key, "9");
}

#[test]
fn other_section_lines_are_ignored() {
    let l = lines(&[
        "[Other]",
        "URL=steam://rungameid/5",
        "IconFile=C:\\icons\\5.ico",
        "[InternetShortcut]",
    ]);
    assert!(matches!(
        parse_shortcut(&l, DIR),
        Err(ParseError::NotRecognized)
    ));
}

#[test]
fn leaving_section_stops_capture() {
    let l = lines(&[
        "[InternetShortcut]",
        "URL=steam://rungameid/3",
        "[Other]",
        "IconFile=C:\\icons\\3.ico",
    ]);
    assert!(matches!(
        parse_shortcut(&l, DIR),
        Err(ParseError::NotRecognized)
    ));
}

#[test]
fn reentering_section_resumes_capture() {
    let l = lines(&[
        "[InternetShortcut]",
        "URL=steam://rungameid/3",
        "[Other]",
        "IconFile=C:\\icons\\999.ico",
        "[InternetShortcut]",
        "IconFile=C:\\icons\\3.ico",
    ]);
    let p = parse_shortcut(&l, DIR).unwrap();
    assert_eq!(p.key, "3");
    assert_eq!(p.icon_filename, "3.ico");
}

#[test]
fn repeated_header_stays_in_section() {
    let l = lines(&[
        "[InternetShortcut]",
        "[InternetShortcut]",
        "URL=steam://rungameid/8",
        "IconFile=C:\\icons\\8.ico",
    ]);
    let p = parse_shortcut(&l, DIR).unwrap();
    assert_eq!(p.key, "8");
}

#[test]
fn unknown_keys_are_ignored() {
    let l = lines(&[
        "[InternetShortcut]",
        "Comment=hello",
        "URL=steam://rungameid/11",
        "HotKey=0",
        "IconFile=C:\\icons\\11.ico",
        "IconIndex=0",
    ]);
    let p = parse_shortcut(&l, DIR).unwrap();
    assert_eq!(p.key, "11");
    assert_eq!(p.icon_filename, "11.ico");
}

#[test]
fn header_match_is_exact() {
    for h in ["[internetshortcut]", " [InternetShortcut]", "[InternetShortcut] "] {
        let l = lines(&[h, "URL=steam://rungameid/1", "IconFile=C:\\icons\\1.ico"]);
        assert!(matches!(
            parse_shortcut(&l, DIR),
            Err(ParseError::NotRecognized)
        ));
    }
}

#[test]
fn run_command_matching_is_anchored() {
    assert_eq!(match_run_command("URL=steam://rungameid/0042").unwrap(), "0042");
    assert!(match_run_command("URL=steam://rungameid/").is_none());
    assert!(match_run_command("URL=steam://rungameid/12a").is_none());
    assert!(match_run_command("URL=steam://rungameid/12 ").is_none());
    assert!(match_run_command(" URL=steam://rungameid/12").is_none());
    assert!(match_run_command("URL=https://example.test/12").is_none());
    assert!(match_run_command("").is_none());
}

#[test]
fn icon_line_matching_splits_at_last_separator() {
    let (dir, name) = match_icon_line("IconFile=C:\\a.b\\c.ico").unwrap();
    assert_eq!(dir, "C:\\a.b\\");
    assert_eq!(name, "c.ico");
}

#[test]
fn icon_line_matching_is_anchored() {
    assert!(match_icon_line("IconFile=730.ico").is_none());
    assert!(match_icon_line("IconFile=C:\\icons\\a.b.ico").is_none());
    assert!(match_icon_line("IconFile=C:\\icons\\.ico").is_none());
    assert!(match_icon_line("IconFile=C:\\icons\\a.icox").is_none());
    assert!(match_icon_line("IconFile=C:\\icons\\a.ICO").is_none());
    assert!(match_icon_line("IconFile=C:\\icons\\").is_none());
    assert!(match_icon_line("Icon=C:\\icons\\a.ico").is_none());
    assert!(match_icon_line("").is_none());
}

#[test]
fn error_messages_name_the_file() {
    assert_eq!(
        ParseError::DuplicateKey.message("a.url"),
        "Game ID already set for shortcut: a.url"
    );
    assert_eq!(
        ParseError::DuplicateIcon.message("a.url"),
        "Icon path and/or name already set for shortcut: a.url"
    );
    assert_eq!(
        ParseError::UnrecognizedIconDir("D:\\x\\".to_string()).message("a.url"),
        "Unrecognized icon directory `D:\\x\\` for shortcut: a.url"
    );
    assert_eq!(
        ParseError::NotRecognized.message("a.url"),
        "Shortcut could not be parsed or was not a Steam shortcut file: a.url"
    );
}

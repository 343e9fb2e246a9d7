use zellij_sessions::document::{is_parser_safe, read_document, LayoutEntry, LayoutNode};

fn arg(value: Option<&str>) -> LayoutEntry {
    LayoutEntry { name: None, text: value.map(|s| s.to_string()) }
}

fn prop(key: &str, value: Option<&str>) -> LayoutEntry {
    LayoutEntry { name: Some(key.to_string()), text: value.map(|s| s.to_string()) }
}

fn node(name: &str, entries: Vec<LayoutEntry>, children: Option<Vec<LayoutNode>>) -> LayoutNode {
    LayoutNode { name: name.to_string(), entries, children }
}

#[test]
fn a_document_is_read_node_by_node() {
    let text = "layout {
    tab name=\"one\" focus=true {
        pane command=\"vim\" cwd=\"/src\" {
            args \"a.rs\" 2 null
        }
        pane
    }
    tab
    \"quoted name\" 1.5 key=r\"raw\"
}
other
";
    let expected = vec![
        node(
            "layout",
            vec![],
            Some(vec![
                node(
                    "tab",
                    vec![prop("name", Some("one")), prop("focus", None)],
                    Some(vec![
                        node(
                            "pane",
                            vec![prop("command", Some("vim")), prop("cwd", Some("/src"))],
                            Some(vec![node(
                                "args",
                                vec![arg(Some("a.rs")), arg(None), arg(None)],
                                None,
                            )]),
                        ),
                        node("pane", vec![], None),
                    ]),
                ),
                node("tab", vec![], None),
                node("quoted name", vec![arg(None), prop("key", Some("raw"))], None),
            ]),
        ),
        node("other", vec![], None),
    ];
    assert_eq!(read_document(text), Some(expected));
}

#[test]
fn an_empty_children_block_is_not_a_missing_one() {
    assert_eq!(read_document("a {\n}\nb\n"), Some(vec![
        node("a", vec![], Some(vec![])),
        node("b", vec![], None),
    ]));
}

#[test]
fn an_empty_text_is_an_empty_document() {
    assert_eq!(read_document(""), Some(vec![]));
    assert_eq!(read_document("\n// only a comment\n"), Some(vec![]));
}

#[test]
fn a_text_that_is_not_well_formed_is_no_document() {
    assert_eq!(read_document("layout {"), None);
    assert_eq!(read_document("a=1"), None);
    assert_eq!(read_document("tab name=\"x"), None);
    assert_eq!(read_document("}"), None);
}

fn ends_an_identifier(c: char) -> bool {
    let spaces = " \t\u{feff}\u{a0}\u{1680}\u{202f}\u{205f}\u{3000}";
    let breaks = "\r\n\u{85}\u{c}\u{2028}\u{2029}";
    (c as u32) < 0x20
        || "\\/(){}<>;[]=,\"".contains(c)
        || spaces.contains(c)
        || breaks.contains(c)
        || ('\u{2000}'..='\u{200a}').contains(&c)
}

fn safe_by_the_bytes(text: &str) -> bool {
    for (at, _) in text.match_indices('(') {
        for word in ["true", "false", "null"] {
            if let Some(rest) = text[at + 1..].strip_prefix(word) {
                let ends = rest.chars().next().map_or(true, ends_an_identifier);
                if ends && (rest.len() < word.len() || !rest.is_char_boundary(word.len())) {
                    return false;
                }
            }
        }
    }
    true
}

#[test]
fn an_identifier_ends_where_the_parser_ends_it() {
    let codes = (0..=0x3100u32).chain(0xfe00..=0xffff).chain([0x1f600, 0xe0001, 0x10ffff]);
    for code in codes {
        if let Some(c) = char::from_u32(code) {
            let name = format!("a{c}");
            let whole = format!("{name} 1");
            let bare = whole.parse::<kdl::KdlDocument>().ok().and_then(|doc| {
                doc.nodes().first().map(|node| node.name().value() == name)
            });
            assert_eq!(bare == Some(true), !ends_an_identifier(c), "U+{code:04X}");
        }
    }
}

#[test]
fn a_reserved_word_as_a_type_near_the_end_is_not_handed_to_the_parser() {
    for text in [
        "(true)", "(null)", "(false)", "a (false)", "a b=(true)", "(true", "(null)ab", "(true)\n\n",
        "node (false)123", "(true\u{3000}\u{3000}", "(null)\u{e9}\u{e9}", "layout {\n tab (null)",
        "((null)", "(true(false)", "\"x\" (true)", "node \"a\\\"b\" (null)", "r#\"a\"b\"# (true)",
        "/* c */ (true)", "/* a /* b */ c */(null)", "// c\n(null)", "// c\r(false)",
        "// c\u{2028}(true)", "n r\"x\" k=(true)", "a \"(\" (null)", "a /-(true)", "r (true)",
        "/*/ */ (null)", "/ * (true)",
    ] {
        assert!(!is_parser_safe(text), "{text:?}");
        assert_eq!(read_document(text), None, "{text:?}");
    }
}

#[test]
fn a_reserved_word_as_a_type_with_enough_after_it_is_refused_by_the_parser() {
    for text in [
        "(true)abc", "(null)1 2 3", "(false)12345", "a (true) 1 2", "(true\u{e9}\u{e9}",
        "(null \u{3000}ab", "a b=(null)\"text\"", "a {\n (false)b 1\n}\n",
    ] {
        assert!(is_parser_safe(text), "{text:?}");
        assert!(text.parse::<kdl::KdlDocument>().is_err(), "{text:?}");
        assert_eq!(read_document(text), None, "{text:?}");
    }
}

#[test]
fn a_text_on_which_the_parser_stops_before_the_parenthesis_is_refused_by_it() {
    for text in ["bar#\"\"(null)", "\"a\"\"(true)", "r#x\"y (false)", "n \"open (true)", "/* (null)"] {
        assert!(is_parser_safe(text), "{text:?}");
        assert!(text.parse::<kdl::KdlDocument>().is_err(), "{text:?}");
        assert_eq!(read_document(text), None, "{text:?}");
    }
}

#[test]
fn a_word_that_only_begins_like_a_reserved_one_is_a_type() {
    for text in ["node (falsey)1", "(nullable)node", "(truest)a", "(null#)a", "a b=(true-)1"] {
        assert!(is_parser_safe(text), "{text:?}");
        assert!(text.parse::<kdl::KdlDocument>().is_ok(), "{text:?}");
        assert!(read_document(text).is_some(), "{text:?}");
    }
}

#[test]
fn what_stands_in_a_string_or_a_comment_does_not_count() {
    let one = read_document("node \"(true\"").unwrap();
    assert_eq!(one, vec![node("node", vec![arg(Some("(true"))], None)]);
    let named = read_document("tab name=\"(true)\"").unwrap();
    assert_eq!(named, vec![node("tab", vec![prop("name", Some("(true)"))], None)]);
    for text in [
        "node \"(true\"", "tab name=\"(true)\"", "node \"(null)\"", "node r\"(false)\"",
        "node r#\"(true)\"#", "node r##\"a\"#(null)\"##", "n \"a\\\"(true)\"", "n \"\\\\\" \"(null)\"",
        "n // (true)", "n // (null\n", "n /* (false) */", "n /* a /* (true) */ (null) */",
        "\"(true)\"", "r\"(null)\" 1", "(\"(true)\")n", "n k=\"(false)\"", "n \"\\u{28}(true)\"",
        "a {\n b \"(true)\"\n}", "n /*/(true)*/", "n \"//\" \"(null)\"", "n \"/*\" \"(null)\"",
        "n r\"\\\" \"(true)\"", "n /-\"(true)\"", "/-n \"(null)\"\nm \"(true)\"",
    ] {
        assert!(is_parser_safe(text), "{text:?}");
        assert!(text.parse::<kdl::KdlDocument>().is_ok(), "{text:?}");
        assert!(read_document(text).is_some(), "{text:?}");
    }
}

fn wrappings(inner: &str) -> Vec<String> {
    vec![
        format!("\"{inner}\""),
        format!("\"a\\\"{inner}\""),
        format!("\"\\\\{inner}\""),
        format!("r\"{inner}\""),
        format!("r#\"\"{inner}\"#"),
        format!("r##\"\"#{inner}\"##"),
        format!("/* {inner} */ 1"),
        format!("/* /* {inner} */ {inner}*/ 2"),
        format!("/*/ {inner} */ 3"),
        format!("\"x\" // {inner}"),
        format!("\"x\" // {inner}\n"),
        format!("\"//\" \"{inner}\""),
        format!("\"/*\" r\"{inner}\""),
        format!("r\"\\\" \"{inner}\""),
        format!("k=\"{inner}\""),
        format!("(\"{inner}\")\"x\""),
        format!("\"x\" {{\n child \"{inner}\"\n}}"),
        format!("/-\"{inner}\" \"{inner}\""),
    ]
}

#[test]
fn a_well_formed_document_is_handed_to_the_parser() {
    let inners = [
        "(true", "(true)", "(null", "(null)", "(false", "(false)", "((true", "(true\u{e9}",
        "a(null)", "(", "",
    ];
    let heads = ["", "first 1\n", "/* c */ ", "// c\n", "a \"q\"; ", "l {\n}\n", "r\"s\" r#\"t\"#; "];
    let mut count = 0;
    for inner in inners {
        for wrapped in wrappings(inner) {
            for head in heads {
                let text = format!("{head}node {wrapped}");
                assert!(text.parse::<kdl::KdlDocument>().is_ok(), "{text:?}");
                assert!(is_parser_safe(&text), "{text:?}");
                assert!(read_document(&text).is_some(), "{text:?}");
                count += 1;
            }
        }
    }
    assert_eq!(count, 11 * 18 * 7);
}

#[test]
fn a_reserved_word_as_a_type_is_found_after_whatever_stands_before_it() {
    let tails = ["(true)", "n (null)", "n k=(false)", "n 1 (true)", "n {\n (null)", "(false"];
    let heads = ["", "first 1\n", "/* c */ ", "// c\n", "a \"q\"; ", "l {\n}\n", "r\"s\" 1;"];
    for inner in ["(true)", "x", "\\\\", "a\\\"b", "//", "/*", "*/"] {
        for wrapped in wrappings(inner) {
            if wrapped.parse::<kdl::KdlDocument>().is_err() {
                let text = format!("node {wrapped}\n");
                if text.parse::<kdl::KdlDocument>().is_ok() {
                    for head in heads {
                        for tail in tails {
                            let unsafe_text = format!("{head}{text}{tail}");
                            assert!(!is_parser_safe(&unsafe_text), "{unsafe_text:?}");
                        }
                    }
                }
            }
        }
    }
    for head in heads {
        for tail in tails {
            let text = format!("{head}{tail}");
            assert!(!is_parser_safe(&text), "{text:?}");
            assert_eq!(read_document(&text), None, "{text:?}");
        }
    }
}

#[test]
fn a_text_that_is_handed_to_the_parser_is_read_as_the_parser_reads_it() {
    let pieces = [
        "", "(", ")", "true", "null", "(true", "(null", "(false)", "a", " ", "\n", "\u{e9}",
        "\u{3000}", "\"", "\\", "r", "#", "/", "*", "//", "/*", "*/", "r\"", "r#\"", "\"#", "{",
        "}", "=", "/-", ";",
    ];
    let mut safe = 0;
    for a in pieces {
        for b in pieces {
            for c in pieces {
                for d in ["", "x\"", "(null)"] {
                    let text = format!("{a}{b}{c}{d}");
                    if is_parser_safe(&text) {
                        let parsed = text.parse::<kdl::KdlDocument>();
                        assert_eq!(read_document(&text).is_some(), parsed.is_ok(), "{text:?}");
                        safe += 1;
                    } else {
                        assert_eq!(read_document(&text), None, "{text:?}");
                        let longer = format!("{text}\n\n\n\n\n");
                        if is_parser_safe(&longer) {
                            assert!(longer.parse::<kdl::KdlDocument>().is_err(), "{longer:?}");
                        }
                    }
                }
            }
        }
    }
    assert!(safe > 30 * 30 * 30);
}

#[test]
fn in_the_open_a_text_is_safe_where_the_bytes_after_the_word_can_be_taken() {
    let pieces = [
        "", "(", ")", "true", "false", "null", "(true", "(false", "(null", "a", "ab", " ", "\n", "\u{e9}",
        "\u{3000}", "\u{1f600}", "{", "}",
    ];
    let mut count = 0;
    for a in pieces {
        for b in pieces {
            for c in pieces {
                for d in ["", "x", "\u{e9}", "\u{20ac}y", "\u{1f600}"] {
                    let text = format!("{a}{b}{c}{d}");
                    assert_eq!(is_parser_safe(&text), safe_by_the_bytes(&text), "{text:?}");
                    count += 1;
                }
            }
        }
    }
    assert_eq!(count, 18 * 18 * 18 * 5);
}

#[test]
fn the_word_is_cut_short_by_a_character_that_ends_it() {
    for code in 0..=0x10ffffu32 {
        if let Some(c) = char::from_u32(code) {
            for word in ["true", "false", "null"] {
                let text = format!("({word}{c}");
                let taken = c.len_utf8() == word.len();
                assert_eq!(is_parser_safe(&text), taken || !ends_an_identifier(c), "{text:?}");
            }
        }
    }
}

#[test]
fn the_bytes_of_a_character_are_counted_as_it_is_encoded() {
    for code in 0..=0x10ffffu32 {
        if let Some(c) = char::from_u32(code) {
            for filler in ["", "x", "xx", "xxx", "xxxx"] {
                let text = format!("(null){c}{filler}");
                let rest = &text[5..];
                assert_eq!(is_parser_safe(&text), rest.is_char_boundary(4), "{text:?}");
            }
        }
    }
}

#[test]
fn no_text_that_is_handed_to_the_parser_stops_it() {
    let pieces = [
        "(true)", "(null)", "(false", "(true", "n", "k=", " ", "\n", "\"", "\\\"", "\\\\", "\\", "r\"",
        "r#\"", "r##\"", "\"#", "\"##", "#", "r", "//", "/*", "*/", "/", "*", "/-", "{", "}", ";", "1",
        "\u{e9}", "\u{3000}", "\u{2028}", "\r", "\u{1f600}", "(", ")", "=", "x\"y\"", "\\u{28}",
    ];
    let mut state: u32 = 20240229;
    let mut next = move |bound: usize| {
        state = state.wrapping_mul(1664525).wrapping_add(1013904223);
        (state >> 8) as usize % bound
    };
    let mut handed = 0;
    let mut accepted = 0;
    for _ in 0..120_000 {
        let mut text = String::new();
        for _ in 0..(2 + next(7)) {
            text.push_str(pieces[next(pieces.len())]);
        }
        if is_parser_safe(&text) {
            let parsed = text.parse::<kdl::KdlDocument>();
            assert_eq!(read_document(&text).is_some(), parsed.is_ok(), "{text:?}");
            handed += 1;
            if parsed.is_ok() {
                accepted += 1;
            }
        } else {
            assert_eq!(read_document(&text), None, "{text:?}");
            let longer = format!("{text}\n\n\n\n\n");
            if is_parser_safe(&longer) {
                assert!(longer.parse::<kdl::KdlDocument>().is_err(), "{longer:?}");
            }
        }
    }
    assert!(handed > 60_000 && accepted > 1_000, "{handed} {accepted}");
}

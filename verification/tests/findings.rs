use phpcs_lsp_server::diagnostics::{
    convert_message, diagnostics_of_output, extract_related_information, Diagnostic, Severity,
};
use phpcs_lsp_server::json::{parse_json, Json};

const URI: &str = "file:///p/a.php";

fn message(text: &str) -> Json {
    parse_json(text).unwrap()
}

fn place(d: &Diagnostic) -> (u32, u32, u32, u32) {
    (
        d.range.start.line,
        d.range.start.character,
        d.range.end.line,
        d.range.end.character,
    )
}

#[test]
fn messages_become_findings() {
    let m = message(
        r#"{"message": "Expected 1 space", "source": "Squiz.A.B.C", "severity": 5,
            "fixable": true, "type": "ERROR", "line": 2, "column": 4}"#,
    );
    let d = convert_message(&m, Some("<?php\nif($x){}\n"), URI).unwrap();
    assert_eq!(place(&d), (1, 3, 1, 4));
    assert_eq!(d.severity, Severity::Error);
    assert_eq!(d.code.as_deref(), Some("Squiz.A.B.C"));
    assert_eq!(d.source, "phpcs");
    assert_eq!(d.message, "\u{1f6e0}\u{fe0f} Expected 1 space");
    assert!(d.related_information.is_none());
    assert_eq!(
        d.code_description.as_deref(),
        Some("https://github.com/PHPCSStandards/PHP_CodeSniffer/wiki/Customisable-Sniff-Properties#squiz-a-b-c")
    );
    assert!(d.data.fixable);
    assert_eq!(d.data.phpcs_source, "Squiz.A.B.C");
    assert_eq!(d.data.phpcs_severity.unwrap().as_natural(), Some(5));
}

#[test]
fn whole_lines_and_tags_are_recognised() {
    let line = message(
        r#"{"message": "Line exceeds 120 characters", "source": "Generic.Files.LineLength.TooLong",
            "fixable": false, "type": "WARNING", "line": 2, "column": 121}"#,
    );
    let d = convert_message(&line, Some("<?php\n  foo();\n"), URI).unwrap();
    assert_eq!(place(&d), (1, 2, 1, 8));
    assert_eq!(d.severity, Severity::Warning);
    assert_eq!(d.message, "Line exceeds 120 characters");
    assert!(d.data.phpcs_severity.is_none());
    let tag = message(
        r#"{"message": "A closing tag is not permitted", "source": "PSR2.Files.ClosingTag",
            "fixable": false, "type": "NOTE", "line": 1, "column": 9}"#,
    );
    let d = convert_message(&tag, Some("<?php 1 ?>"), URI).unwrap();
    assert_eq!(place(&d), (0, 8, 0, 10));
    assert_eq!(d.severity, Severity::Information);
}

#[test]
fn unknown_lines_underline_one_character() {
    let m = message(
        r#"{"message": "x", "source": "", "fixable": false, "type": "ERROR", "line": 9, "column": 3}"#,
    );
    assert_eq!(place(&convert_message(&m, Some("a"), URI).unwrap()), (8, 2, 8, 3));
    assert_eq!(place(&convert_message(&m, None, URI).unwrap()), (8, 2, 8, 3));
    let zero = message(
        r#"{"message": "x", "source": "", "fixable": false, "type": "ERROR", "line": 0, "column": 0}"#,
    );
    let d = convert_message(&zero, None, URI).unwrap();
    assert_eq!(place(&d), (0, 0, 0, 1));
    assert_eq!(d.code, None);
    assert_eq!(d.code_description, None);
}

#[test]
fn incomplete_messages_are_dropped() {
    for text in [
        r#"{"message": "x", "source": "", "fixable": false, "type": "ERROR", "line": 1}"#,
        r#"{"message": "x", "source": "", "fixable": false, "type": "ERROR", "column": 1}"#,
        r#"{"message": "x", "source": "", "type": "ERROR", "line": 1, "column": 1}"#,
        r#"{"message": "x", "fixable": false, "type": "ERROR", "line": 1, "column": 1}"#,
        r#"{"message": 1, "source": "", "fixable": false, "type": "ERROR", "line": 1, "column": 1}"#,
        r#"{"message": "x", "source": "", "fixable": false, "line": 1, "column": 1}"#,
        r#"{"message": "x", "source": "", "fixable": false, "type": "ERROR", "line": -1, "column": 1}"#,
        r#"[]"#,
    ] {
        assert!(convert_message(&message(text), None, URI).is_none(), "{text}");
    }
}

#[test]
fn odd_sources_and_notes_count_as_nothing() {
    let m = message(
        r#"{"message": "x", "source": 7, "fixable": "yes", "type": "ERROR", "line": 1, "column": 1}"#,
    );
    let d = convert_message(&m, None, URI).unwrap();
    assert_eq!(d.data.phpcs_source, "");
    assert!(!d.data.fixable);
    assert_eq!(d.message, "x");
}

#[test]
fn remarks_go_with_braces_and_imports() {
    assert!(extract_related_information("Visibility must be declared", URI).is_none());
    assert!(extract_related_information("Missing file doc comment", URI).is_none());
    assert!(extract_related_information("Unexpected whitespace found", URI).is_none());
    assert!(extract_related_information("Expected 1 space", URI).is_none());
    let braces = extract_related_information("Opening brace should be here", URI).unwrap();
    assert_eq!(braces.len(), 1);
    assert_eq!(braces[0].uri, URI);
    assert_eq!(
        braces[0].message,
        "PSR-12 requires specific brace placement for control structures and declarations"
    );
    let both = extract_related_information("Closing brace after namespace", URI).unwrap();
    assert_eq!(both.len(), 2);
    assert_eq!(
        both[1].message,
        "PSR-12 requires specific ordering: namespace \u{2192} use statements \u{2192} class declaration"
    );
}

#[test]
fn remarks_go_with_comparisons_and_duplicates() {
    for msg in [
        "Expected 1 space after comma; 0 found",
        "Line indented incorrectly; expected 4 spaces, found 2",
    ] {
        let related = extract_related_information(msg, URI).unwrap();
        assert_eq!(related.len(), 1);
        assert_eq!(related[0].uri, URI);
        assert_eq!(
            related[0].message,
            "The message compares what the coding standard expects here with what it found"
        );
    }
    for msg in [
        "Duplicate class name \"A\" found; first defined in b.php on line 3",
        "Method f() is already declared",
    ] {
        let related = extract_related_information(msg, URI).unwrap();
        assert_eq!(related.len(), 1);
        assert_eq!(related[0].uri, URI);
        assert_eq!(
            related[0].message,
            "A name may be declared only once; it is declared in another place too"
        );
    }
}

#[test]
fn reports_give_their_findings_in_order() {
    let output = r#"{"totals": {"errors": 3}, "files": {
        "a.php": {"errors": 1, "messages": [
            {"message": "one", "source": "A.B.C", "fixable": false, "type": "ERROR", "line": 1, "column": 1},
            {"message": "lost"},
            {"message": "two", "source": "A.B.C", "fixable": true, "type": "WARNING", "line": 1, "column": 1}
        ]},
        "b.php": {"messages": 3},
        "c.php": {"messages": [
            {"message": "three", "source": "", "fixable": false, "type": "", "line": 1, "column": 1}
        ]}
    }}"#;
    let found = diagnostics_of_output(output, None, URI);
    let messages: Vec<&str> = found.iter().map(|d| d.message.as_str()).collect();
    assert_eq!(messages, vec!["one", "\u{1f6e0}\u{fe0f} two", "three"]);
}

#[test]
fn unreadable_reports_have_no_findings() {
    for output in ["", " \n", "PHP Fatal error", "{}", r#"{"files": []}"#, "[1]"] {
        assert_eq!(diagnostics_of_output(output, None, URI).len(), 0, "{output}");
    }
}

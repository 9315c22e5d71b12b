use phpcs_lsp_server::doc_url::{documentation_address, generate_phpcs_doc_url};
use phpcs_lsp_server::document::{
    decompress_text, hex_text, is_storable, CompressedDocument, DocumentError,
};
use phpcs_lsp_server::json::{parse_json, Json};

#[test]
fn documents_give_back_their_text() {
    for content in ["", "<?php\n", "größe \u{1f600}\n", "a\0b"] {
        let doc = CompressedDocument::compress_document(content);
        assert_eq!(doc.decompress_document().unwrap(), content);
    }
    let long = "echo 1;\n".repeat(10_000);
    let doc = CompressedDocument::compress_document(&long);
    assert_eq!(doc.decompress_document().unwrap(), long);
    assert!(doc.compressed_size() < long.len() / 10);
}

#[test]
fn checksum_is_sha256_in_hexadecimal() {
    assert_eq!(
        CompressedDocument::compress_document("").checksum(),
        "e3b0c44298fc1c149afbf4c8996fb92427ae41e4649b934ca495991b7852b855"
    );
    assert_eq!(
        CompressedDocument::compress_document("abc").checksum(),
        "ba7816bf8f01cfea414140de5dae2223b00361a396177a9cb410ff61f20015ad"
    );
    assert_eq!(hex_text(&vec![0x00, 0x0f, 0xa9, 0xff]), "000fa9ff");
}

#[test]
fn unsound_data_is_told_apart() {
    assert_eq!(decompress_text(&[1, 2]), Err(DocumentError::Decompression));
    let not_text = lz4_flex::block::compress_prepend_size(&[0xff, 0xfe]);
    assert_eq!(decompress_text(&not_text), Err(DocumentError::Utf8));
    let fine = lz4_flex::block::compress_prepend_size("ok".as_bytes());
    assert_eq!(decompress_text(&fine), Ok("ok".to_string()));
}

#[test]
fn ordinary_texts_fit() {
    assert!(is_storable("<?php"));
}

#[test]
fn bundled_standards_lead_to_the_wiki() {
    assert_eq!(
        generate_phpcs_doc_url("PSR12.Files.OpenTag").unwrap(),
        "https://github.com/PHPCSStandards/PHP_CodeSniffer/wiki/Customisable-Sniff-Properties#psr12-files-opentag"
    );
    assert_eq!(
        generate_phpcs_doc_url("MySource").unwrap(),
        "https://github.com/PHPCSStandards/PHP_CodeSniffer/wiki/Customisable-Sniff-Properties#mysource"
    );
}

#[test]
fn other_standards_lead_to_their_pages() {
    assert_eq!(
        generate_phpcs_doc_url("WordPress-Extra.WP.I18n").unwrap(),
        "https://developer.wordpress.org/coding-standards/wordpress-coding-standards/php/#wp"
    );
    assert_eq!(
        generate_phpcs_doc_url("WordPress").unwrap(),
        "https://developer.wordpress.org/coding-standards/wordpress-coding-standards/php/#"
    );
    assert_eq!(
        generate_phpcs_doc_url("SlevomatCodingStandard.Classes.Length").unwrap(),
        "https://github.com/slevomat/coding-standard#slevomatcodingstandard-classes-length"
    );
}

#[test]
fn unknown_standards_lead_to_a_search() {
    assert_eq!(
        documentation_address("My Std.É/1~"),
        "https://github.com/PHPCSStandards/PHP_CodeSniffer/search?q=My%20Std.%C3%89%2F1~"
    );
    assert_eq!(
        generate_phpcs_doc_url("psr12.Files").unwrap(),
        "https://github.com/PHPCSStandards/PHP_CodeSniffer/search?q=psr12.Files"
    );
}

#[test]
fn addresses_are_read_as_urls() {
    assert_eq!(
        documentation_address("PSR2.É X"),
        "https://github.com/PHPCSStandards/PHP_CodeSniffer/wiki/Customisable-Sniff-Properties#psr2-é x"
    );
    assert_eq!(
        generate_phpcs_doc_url("PSR2.É X").unwrap(),
        "https://github.com/PHPCSStandards/PHP_CodeSniffer/wiki/Customisable-Sniff-Properties#psr2-%C3%A9%20x"
    );
}

#[test]
fn no_source_has_no_documentation() {
    assert_eq!(generate_phpcs_doc_url(""), None);
}

#[test]
fn json_is_read_as_plain_values() {
    let j = parse_json(r#"{"a": [1, -1, 1.5, true, null], "b": {"c": "d"}}"#).unwrap();
    assert_eq!(j.get("b").unwrap().text_member("c"), Some("d"));
    assert_eq!(j.get("z").map(|_| ()), None);
    assert_eq!(j.text_member("a"), None);
    let Some(Json::Array(items)) = j.get("a") else {
        panic!("no list");
    };
    assert_eq!(items[0].as_natural(), Some(1));
    assert_eq!(items[1].as_natural(), None);
    assert_eq!(items[2].as_natural(), None);
    assert_eq!(items[3].as_truth(), Some(true));
    assert!(matches!(&items[1], Json::Number(None, n) if n == "-1"));
    assert!(matches!(items[4], Json::Null));
    assert_eq!(items[4].as_truth(), None);
}

#[test]
fn text_that_is_not_json_has_no_value() {
    assert!(parse_json("{").is_none());
    assert!(parse_json("").is_none());
    assert!(parse_json("1 2").is_none());
}

#[test]
fn copies_of_json_are_the_same() {
    let j = parse_json(r#"{"a": [1, {"b": false}], "c": "x"}"#).unwrap();
    let copy = j.duplicate();
    assert_eq!(format!("{:?}", j), format!("{:?}", copy));
}

use phpcs_lsp_server::edits::{compute_line_edits, compute_whole_edit};
use phpcs_lsp_server::range::{find_line_range, find_tag_range, find_token_range, Range};
use phpcs_lsp_server::text::{
    contains_text, finishes_with, is_blank, split_lines, split_text, to_ascii_lower,
};

fn span(r: Range) -> (u32, u32, u32) {
    assert_eq!(r.start.line, r.end.line);
    (r.start.line, r.start.character, r.end.character)
}

#[test]
fn tokens_are_underlined_whole() {
    let line = "if($x==1){";
    assert_eq!(span(find_token_range(line, 7, 0)), (7, 0, 2));
    assert_eq!(span(find_token_range(line, 7, 4)), (7, 3, 5));
    assert_eq!(span(find_token_range(line, 7, 3)), (7, 3, 4));
    assert_eq!(span(find_token_range(line, 7, 5)), (7, 5, 7));
    assert_eq!(span(find_token_range(line, 7, 6)), (7, 5, 7));
    assert_eq!(span(find_token_range(line, 7, 8)), (7, 8, 9));
}

#[test]
fn space_is_underlined_from_the_column_on() {
    assert_eq!(span(find_token_range("a   b", 0, 2)), (0, 2, 4));
}

#[test]
fn columns_past_the_line_keep_their_place() {
    assert_eq!(span(find_token_range("ab", 1, 20)), (1, 19, 20));
    assert_eq!(span(find_token_range("", 1, 0)), (1, 0, 0));
    assert_eq!(
        span(find_token_range("", 0, u32::MAX)),
        (0, u32::MAX - 1, u32::MAX)
    );
}

#[test]
fn letters_beyond_ascii_belong_to_names() {
    assert_eq!(span(find_token_range("$größe = 1", 0, 2)), (0, 0, 6));
    assert_eq!(span(find_token_range("a\u{a0}\u{a0}b", 0, 1)), (0, 1, 3));
}

#[test]
fn nearest_tag_is_underlined() {
    let line = "<?php echo 1; ?>";
    assert_eq!(span(find_tag_range(line, 0, 0)), (0, 0, 5));
    assert_eq!(span(find_tag_range(line, 0, 14)), (0, 14, 16));
    assert_eq!(span(find_tag_range("<? echo", 3, 1)), (3, 0, 2));
    assert_eq!(span(find_tag_range("é<?php", 0, 0)), (0, 2, 7));
    assert_eq!(span(find_tag_range("a <?b <?", 0, 6)), (0, 6, 8));
    assert_eq!(span(find_tag_range("<?php ?>", 0, 4)), (0, 0, 5));
    assert_eq!(span(find_tag_range("<?php ?>", 0, 7)), (0, 6, 8));
}

#[test]
fn every_tag_of_the_line_counts() {
    let line = "<?php a ?> <?php b ?>";
    assert_eq!(span(find_tag_range(line, 0, 12)), (0, 11, 16));
    assert_eq!(span(find_tag_range(line, 0, 20)), (0, 19, 21));
    assert_eq!(span(find_tag_range(line, 0, 9)), (0, 8, 10));
}

#[test]
fn lines_without_tags_underline_two_characters() {
    assert_eq!(span(find_tag_range("echo 1;", 2, 3)), (2, 3, 5));
    assert_eq!(
        span(find_tag_range("", 0, u32::MAX)),
        (0, u32::MAX, u32::MAX)
    );
}

#[test]
fn whole_lines_start_after_their_indentation() {
    assert_eq!(span(find_line_range("  foo ", 4)), (4, 2, 6));
    assert_eq!(span(find_line_range("   ", 4)), (4, 0, 3));
    assert_eq!(span(find_line_range("\té", 4)), (4, 1, 3));
}

#[test]
fn text_is_split_as_lines_and_parts() {
    assert_eq!(split_lines("a\r\nb\n\nc"), vec!["a", "b", "", "c"]);
    assert_eq!(split_lines("a\n"), vec!["a"]);
    assert_eq!(split_lines(""), Vec::<String>::new());
    assert_eq!(split_text("a.b..", '.'), vec!["a", "b", "", ""]);
    assert_eq!(split_text("", '.'), vec![""]);
}

#[test]
fn text_is_searched_and_compared() {
    assert!(contains_text("The line is too long", "line is"));
    assert!(!contains_text("line", "lines"));
    assert!(contains_text("", ""));
    assert!(finishes_with("phpcs.xml", ".xml"));
    assert!(!finishes_with("xml", ".xml"));
    assert!(is_blank(" \t\u{2003}\n"));
    assert!(!is_blank("\u{200b}"));
    assert_eq!(to_ascii_lower("PhAr-É"), "phar-É");
}

#[test]
fn changed_lines_get_their_fixed_text() {
    let edits = compute_line_edits("a\nbb\nc", "a\nB\nc\nd", 0, 9);
    assert_eq!(edits.len(), 2);
    assert_eq!(span(edits[0].range), (1, 0, 2));
    assert_eq!(edits[0].new_text, "B");
    assert_eq!(span(edits[1].range), (3, 0, 0));
    assert_eq!(edits[1].new_text, "d");
}

#[test]
fn lines_outside_the_target_stay() {
    let edits = compute_line_edits("a\nb\nc\nd", "A\nB\nC", 1, 2);
    assert_eq!(edits.len(), 2);
    assert_eq!(edits[0].new_text, "B");
    assert_eq!(edits[1].new_text, "C");
    let gone = compute_line_edits("a\né", "a", 1, 1);
    assert_eq!(gone.len(), 1);
    assert_eq!(span(gone[0].range), (1, 0, 2));
    assert_eq!(gone[0].new_text, "");
}

#[test]
fn same_text_needs_no_line_edits() {
    assert_eq!(compute_line_edits("a\nb", "a\r\nb\n", 0, 9).len(), 0);
}

#[test]
fn whole_edit_spans_the_document() {
    let edit = compute_whole_edit("a\nbcé\n", "x");
    assert_eq!((edit.range.start.line, edit.range.start.character), (0, 0));
    assert_eq!((edit.range.end.line, edit.range.end.character), (2, 4));
    assert_eq!(edit.new_text, "x");
    let empty = compute_whole_edit("", "y");
    assert_eq!((empty.range.end.line, empty.range.end.character), (0, 0));
}

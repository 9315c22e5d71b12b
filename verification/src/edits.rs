//! Edits that turn a document into its fixed text.
use crate::range::{Position, Range};
use crate::text;
use vstd::prelude::*;
use vstd::utf8::*;

verus! {

/// A new text for a range of a document.
#[derive(Debug)]
pub struct TextEdit {
    pub range: Range,
    pub new_text: String,
}

/// What an edit is.
#[verifier::ext_equal]
pub struct EditView {
    pub range: Range,
    pub new_text: Seq<char>,
}

impl View for TextEdit {
    type V = EditView;

    open spec fn view(&self) -> EditView {
        EditView { range: self.range, new_text: self.new_text@ }
    }
}

/// What a list of edits holds.
pub open spec fn edits_view(v: Seq<TextEdit>) -> Seq<EditView> {
    v.map_values(|e: TextEdit| e@)
}

/// The line with the given number, if there is one.
pub open spec fn line_at(lines: Seq<Seq<char>>, i: int) -> Option<Seq<char>> {
    if 0 <= i < lines.len() {
        Some(lines[i])
    } else {
        None
    }
}

/// Whether a line is new, gone or another one in the fixed text.
pub open spec fn differs(original: Seq<Seq<char>>, fixed: Seq<Seq<char>>, i: int) -> bool {
    line_at(original, i) != line_at(fixed, i)
}

/// The text of a line after a fix; a line that is gone has none.
pub open spec fn fixed_line(fixed: Seq<Seq<char>>, i: int) -> Seq<char> {
    match line_at(fixed, i) {
        Some(line) => line,
        None => seq![],
    }
}

/// The edit that gives a line its fixed text. A line that is new has no length; one that is gone
/// gets no text.
pub open spec fn line_edit(original: Seq<Seq<char>>, fixed: Seq<Seq<char>>, i: int) -> EditView {
    EditView {
        range: crate::range::range_on(
            i as u32,
            0,
            match line_at(original, i) {
                Some(line) => encode_utf8(line).len() as u32,
                None => 0,
            },
        ),
        new_text: fixed_line(fixed, i),
    }
}

/// The edits for those of the first `n` lines that differ and lie between two lines, both of them
/// included.
pub open spec fn line_edits(
    original: Seq<Seq<char>>,
    fixed: Seq<Seq<char>>,
    first: u32,
    last: u32,
    n: nat,
) -> Seq<EditView>
    decreases n,
{
    if n == 0 {
        seq![]
    } else {
        let i = n - 1;
        let before = line_edits(original, fixed, first, last, i as nat);
        if differs(original, fixed, i) && first <= i as u32 <= last {
            before.push(line_edit(original, fixed, i))
        } else {
            before
        }
    }
}

/// The number of lines of the longer of two texts.
pub open spec fn longer(original: Seq<Seq<char>>, fixed: Seq<Seq<char>>) -> nat {
    if original.len() < fixed.len() {
        fixed.len()
    } else {
        original.len()
    }
}

/// The edits for the lines that a fix changed between two lines, both of them included.
pub fn compute_line_edits(
    original: &str,
    fixed: &str,
    target_start_line: u32,
    target_end_line: u32,
) -> (r: Vec<TextEdit>)
    ensures
        edits_view(r@) == line_edits(
            text::lines_of(original@),
            text::lines_of(fixed@),
            target_start_line,
            target_end_line,
            longer(text::lines_of(original@), text::lines_of(fixed@)),
        ),
{
    let original_lines: Vec<String> = text::split_lines(original);
    let fixed_lines: Vec<String> = text::split_lines(fixed);
    let ghost o = text::lines_of(original@);
    let ghost f = text::lines_of(fixed@);
    let max_lines: usize = if original_lines.len() < fixed_lines.len() {
        fixed_lines.len()
    } else {
        original_lines.len()
    };
    let mut edits: Vec<TextEdit> = Vec::new();
    let mut i: usize = 0;
    assert(edits_view(edits@) =~= seq![]);
    while i < max_lines
        invariant
            i <= max_lines,
            o == text::texts(original_lines@),
            f == text::texts(fixed_lines@),
            edits_view(edits@) == line_edits(o, f, target_start_line, target_end_line, i as nat),
        decreases max_lines - i,
    {
        let ghost before = edits@;
        let same: bool = if i < original_lines.len() && i < fixed_lines.len() {
            text::same_text(&original_lines[i], &fixed_lines[i])
        } else {
            i >= original_lines.len() && i >= fixed_lines.len()
        };
        assert(same == !differs(o, f, i as int));
        let line_num: u32 = i as u32;
        if !same && line_num >= target_start_line && line_num <= target_end_line {
            let length: u32 = if i < original_lines.len() {
                original_lines[i].as_str().as_bytes().len() as u32
            } else {
                0
            };
            let new_text: String = if i < fixed_lines.len() {
                fixed_lines[i].clone()
            } else {
                String::new()
            };
            let edit: TextEdit = TextEdit {
                range: crate::range::make_range(line_num, 0, length),
                new_text,
            };
            assert(edit@ =~= line_edit(o, f, i as int));
            edits.push(edit);
            assert(edits_view(edits@) =~= edits_view(before).push(line_edit(o, f, i as int)));
        }
        i += 1;
    }
    edits
}

/// The edit that gives a whole document a new text. It ends on the line after the last one, at the
/// length of the last one.
pub open spec fn whole_edit(content: Seq<char>, fixed: Seq<char>) -> EditView {
    let lines = text::lines_of(content);
    EditView {
        range: Range {
            start: Position { line: 0, character: 0 },
            end: Position {
                line: lines.len() as u32,
                character: if lines.len() == 0 {
                    0
                } else {
                    encode_utf8(lines.last()).len() as u32
                },
            },
        },
        new_text: fixed,
    }
}

/// The edit that gives a whole document a new text.
pub fn compute_whole_edit(content: &str, fixed: &str) -> (r: TextEdit)
    ensures
        r@ == whole_edit(content@, fixed@),
{
    let lines: Vec<String> = text::split_lines(content);
    let line_count: u32 = lines.len() as u32;
    let last_line_len: u32 = if lines.len() == 0 {
        0
    } else {
        lines[lines.len() - 1].as_str().as_bytes().len() as u32
    };
    TextEdit {
        range: Range {
            start: Position { line: 0, character: 0 },
            end: Position { line: line_count, character: last_line_len },
        },
        new_text: fixed.to_string(),
    }
}

/// The lines of a document after edits that each give one line a new text.
pub open spec fn edited_lines(lines: Seq<Seq<char>>, edits: Seq<EditView>) -> Seq<Seq<char>>
    decreases edits.len(),
{
    if edits.len() == 0 {
        lines
    } else {
        let before = edited_lines(lines, edits.drop_last());
        let at = edits.last().range.start.line as int;
        if at < before.len() {
            before.update(at, edits.last().new_text)
        } else {
            before
        }
    }
}

/// The edits for some lines do just what they are for: each line between the two that were asked
/// for gets its fixed text, and all others keep theirs. Line numbers have 32 bits.
pub proof fn law_edits_fix_target_lines(
    original: Seq<Seq<char>>,
    fixed: Seq<Seq<char>>,
    first: u32,
    last: u32,
    n: nat,
)
    requires
        n <= 0x1_0000_0000,
    ensures
        ({
            let edited = edited_lines(original, line_edits(original, fixed, first, last, n));
            &&& edited.len() == original.len()
            &&& forall|i: int|
                0 <= i < original.len() ==> #[trigger] edited[i] == if i < n && first <= i <= last {
                    fixed_line(fixed, i)
                } else {
                    original[i]
                }
        }),
    decreases n,
{
    if n > 0 {
        let m = (n - 1) as nat;
        law_edits_fix_target_lines(original, fixed, first, last, m);
        let before = line_edits(original, fixed, first, last, m);
        let all = line_edits(original, fixed, first, last, n);
        if differs(original, fixed, m as int) && first <= m as u32 <= last {
            assert(all.drop_last() =~= before);
        }
    }
}

/// There is one edit for each line that differs and was asked for and none for any other line, and
/// the edits stand in the order of their lines, so no two of them overlap. Line numbers have 32
/// bits.
pub proof fn law_one_edit_per_changed_line(
    original: Seq<Seq<char>>,
    fixed: Seq<Seq<char>>,
    first: u32,
    last: u32,
    n: nat,
)
    requires
        n <= 0x1_0000_0000,
    ensures
        ({
            let edits = line_edits(original, fixed, first, last, n);
            &&& forall|k: int|
                0 <= k < edits.len() ==> {
                    let i = (#[trigger] edits[k]).range.start.line as int;
                    &&& i < n
                    &&& first <= i <= last
                    &&& differs(original, fixed, i)
                    &&& edits[k] == line_edit(original, fixed, i)
                }
            &&& forall|i: int|
                0 <= i < n && first <= i <= last && #[trigger] differs(original, fixed, i)
                    ==> edits.contains(line_edit(original, fixed, i))
            &&& forall|j: int, k: int|
                0 <= j < k < edits.len() ==> (#[trigger] edits[j]).range.start.line < (
                #[trigger] edits[k]).range.start.line
        }),
    decreases n,
{
    if n > 0 {
        let m = (n - 1) as nat;
        law_one_edit_per_changed_line(original, fixed, first, last, m);
        let before = line_edits(original, fixed, first, last, m);
        let all = line_edits(original, fixed, first, last, n);
        assert forall|i: int|
            0 <= i < n && first <= i <= last && #[trigger] differs(
                original,
                fixed,
                i,
            ) implies all.contains(line_edit(original, fixed, i)) by {
            if i < m {
                let k = choose|k: int|
                    0 <= k < before.len() && before[k] == line_edit(original, fixed, i);
                assert(all[k] == before[k]);
            } else {
                assert(all[all.len() - 1] == line_edit(original, fixed, i));
            }
        }
    }
}

/// A fix that changes nothing needs no edit.
pub proof fn law_no_change_no_edits(lines: Seq<Seq<char>>, first: u32, last: u32, n: nat)
    ensures
        line_edits(lines, lines, first, last, n).len() == 0,
    decreases n,
{
    if n > 0 {
        law_no_change_no_edits(lines, first, last, (n - 1) as nat);
    }
}

/// The edit of a whole document leaves nothing of it: it starts before the first character and ends
/// on the line after the last one. Line numbers have 32 bits.
pub proof fn law_whole_edit_covers(content: Seq<char>, fixed: Seq<char>)
    requires
        text::lines_of(content).len() <= u32::MAX,
    ensures
        ({
            let range = whole_edit(content, fixed).range;
            &&& range.start == (Position { line: 0, character: 0 })
            &&& range.end.line == text::lines_of(content).len()
        }),
        whole_edit(content, fixed).new_text == fixed,
{
}

/// What an edit of one line makes of it, in bytes: what stands before and after the range of the edit
/// stays.
pub open spec fn edited_line(line: Seq<char>, edit: EditView) -> Seq<u8> {
    let bytes = encode_utf8(line);
    bytes.take(edit.range.start.character as int) + encode_utf8(edit.new_text) + bytes.skip(
        edit.range.end.character as int,
    )
}

/// Of the lines that were asked for, each that is not the same in the fixed text gets one edit. The
/// edit turns the line, read with what stands around the range of the edit, into the fixed line; it
/// takes a line that is gone whole, and gives one that is new its text. No other line gets an edit.
pub proof fn law_edits_turn_lines_into_fixed_ones(
    original: Seq<Seq<char>>,
    fixed: Seq<Seq<char>>,
    first: u32,
    last: u32,
    i: int,
)
    requires
        0 <= i,
        original.len() <= 0x1_0000_0000,
        fixed.len() <= 0x1_0000_0000,
        i < original.len() ==> encode_utf8(original[i]).len() <= u32::MAX,
    ensures
        ({
            let edits = line_edits(original, fixed, first, last, longer(original, fixed));
            let same = i < original.len() && i < fixed.len() && original[i] == fixed[i];
            if first <= i <= last && (i < original.len() || i < fixed.len()) && !same {
                exists|k: int|
                    {
                        &&& 0 <= k < edits.len()
                        &&& (#[trigger] edits[k]).range.start.line == i
                        &&& edits[k].range.end.line == i
                        &&& i < original.len() && i < fixed.len() ==> edited_line(
                            original[i],
                            edits[k],
                        ) == encode_utf8(fixed[i])
                        &&& i < original.len() ==> edits[k].range.start.character == 0
                            && edits[k].range.end.character == encode_utf8(original[i]).len()
                        &&& i >= original.len() ==> edits[k].range.start.character == 0
                            && edits[k].range.end.character == 0
                        &&& i < fixed.len() ==> edits[k].new_text == fixed[i]
                        &&& i >= fixed.len() ==> edits[k].new_text.len() == 0
                    }
            } else {
                forall|k: int| 0 <= k < edits.len() ==> (#[trigger] edits[k]).range.start.line != i
            }
        }),
{
    let n = longer(original, fixed);
    let edits = line_edits(original, fixed, first, last, n);
    law_one_edit_per_changed_line(original, fixed, first, last, n);
    let same = i < original.len() && i < fixed.len() && original[i] == fixed[i];
    if first <= i <= last && (i < original.len() || i < fixed.len()) && !same {
        assert(differs(original, fixed, i));
        let edit = line_edit(original, fixed, i);
        assert(edits.contains(edit));
        let k = choose|k: int| 0 <= k < edits.len() && edits[k] == edit;
        assert(edits[k].range.start.line == i);
        if i < original.len() && i < fixed.len() {
            let bytes = encode_utf8(original[i]);
            assert(bytes.take(0) + encode_utf8(fixed[i]) + bytes.skip(bytes.len() as int)
                =~= encode_utf8(fixed[i]));
        }
    } else {
        assert forall|k: int| 0 <= k < edits.len() implies (#[trigger] edits[k]).range.start.line
            != i by {
            if edits[k].range.start.line == i {
                assert(differs(original, fixed, i));
            }
        }
    }
}

/// The edit of a whole document ends at the length, in bytes, of its last line.
pub proof fn law_whole_edit_ends_at_the_last_line(content: Seq<char>, fixed: Seq<char>)
    requires
        text::lines_of(content).len() > 0 ==> encode_utf8(text::lines_of(content).last()).len()
            <= u32::MAX,
    ensures
        text::lines_of(content).len() == 0 ==> whole_edit(content, fixed).range.end.character == 0,
        text::lines_of(content).len() > 0 ==> whole_edit(content, fixed).range.end.character
            == encode_utf8(text::lines_of(content)[text::lines_of(content).len() - 1]).len(),
{
}

} // verus!

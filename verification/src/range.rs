//! Positions and ranges in a document, and the part of a line that a finding underlines.
use crate::text;
use vstd::prelude::*;
use vstd::string::*;
use vstd::utf8::*;

verus! {

/// A place in a document: a line and a column, both counted from zero.
#[derive(Debug, Clone, Copy, PartialEq, Eq, Structural)]
pub struct Position {
    pub line: u32,
    pub character: u32,
}

/// The stretch of a document from `start` up to `end`.
#[derive(Debug, Clone, Copy, PartialEq, Eq, Structural)]
pub struct Range {
    pub start: Position,
    pub end: Position,
}

/// The stretch of one line between two columns.
pub open spec fn range_on(line: u32, start: u32, end: u32) -> Range {
    Range {
        start: Position { line, character: start },
        end: Position { line, character: end },
    }
}

/// The stretch of one line between two columns.
pub fn make_range(line: u32, start: u32, end: u32) -> (r: Range)
    ensures
        r == range_on(line, start, end),
{
    Range { start: Position { line, character: start }, end: Position { line, character: end } }
}

/// The bytes of `<?php`.
pub open spec fn php_tag() -> Seq<u8> {
    seq![0x3c, 0x3f, 0x70, 0x68, 0x70]
}

/// The bytes of `?>`.
pub open spec fn closing_tag() -> Seq<u8> {
    seq![0x3f, 0x3e]
}

/// The bytes of `<?`.
pub open spec fn short_tag() -> Seq<u8> {
    seq![0x3c, 0x3f]
}

/// A kind of PHP tag.
#[derive(Debug, Clone, Copy, PartialEq, Eq, Structural)]
pub enum TagKind {
    /// `<?php`
    Opening,
    /// `?>`
    Closing,
    /// `<?`, where it does not begin a `<?php`.
    Short,
}

/// The bytes of a kind of tag.
pub open spec fn tag_bytes(kind: TagKind) -> Seq<u8> {
    match kind {
        TagKind::Opening => php_tag(),
        TagKind::Closing => closing_tag(),
        TagKind::Short => short_tag(),
    }
}

/// Whether a tag of the given kind stands in a line at position `at`.
pub open spec fn tag_stands(kind: TagKind, s: Seq<u8>, at: int) -> bool {
    text::stands_at(tag_bytes(kind), s, at) && (kind is Short ==> !text::stands_at(php_tag(), s, at))
}

/// The stretches of every tag of the given kind from `at` on, from left to right.
pub open spec fn tags_from(kind: TagKind, s: Seq<u8>, at: int) -> Seq<(int, int)>
    decreases s.len() - at,
{
    if at >= s.len() {
        seq![]
    } else if tag_stands(kind, s, at) {
        seq![(at, at + tag_bytes(kind).len())] + tags_from(kind, s, at + 1)
    } else {
        tags_from(kind, s, at + 1)
    }
}

/// All PHP tags of a line in the order in which they are considered: every `<?php`, every `?>`, and
/// every `<?` that is not part of a `<?php`.
pub open spec fn tags_of(s: Seq<u8>) -> Seq<(int, int)> {
    tags_from(TagKind::Opening, s, 0) + tags_from(TagKind::Closing, s, 0) + tags_from(
        TagKind::Short,
        s,
        0,
    )
}

/// How far apart two columns are.
pub open spec fn gap(a: int, b: int) -> int {
    if a <= b {
        b - a
    } else {
        a - b
    }
}

/// How far a column is from a tag: nothing where it touches the tag, otherwise as far as it is
/// from the tag's start.
pub open spec fn tag_distance(tag: (int, int), col: int) -> int {
    if tag.0 <= col <= tag.1 {
        0
    } else {
        gap(col, tag.0)
    }
}

/// The tag for a column: the nearest one, and of several the first.
pub open spec fn pick_tag(tags: Seq<(int, int)>, col: int) -> Option<(int, int)>
    decreases tags.len(),
{
    if tags.len() == 0 {
        None
    } else {
        let tag = tags.last();
        match pick_tag(tags.drop_last(), col) {
            None => Some(tag),
            Some(best) => if tag_distance(tag, col) < tag_distance(best, col) {
                Some(tag)
            } else {
                Some(best)
            },
        }
    }
}

/// The columns after `column`, of which none is beyond the last.
pub open spec fn saturating_after(column: u32, n: int) -> u32 {
    if column + n > u32::MAX {
        u32::MAX
    } else {
        (column + n) as u32
    }
}

/// What a finding about a PHP tag underlines.
pub open spec fn tag_range(s: Seq<u8>, line: u32, column: u32) -> Range {
    match pick_tag(tags_of(s), column as int) {
        Some(tag) => range_on(line, tag.0 as u32, tag.1 as u32),
        None => range_on(line, column, saturating_after(column, 2)),
    }
}

/// Whether `part` stands in `s` at position `at`.
fn byte_match(part: &Vec<u8>, s: &[u8], at: usize) -> (r: bool)
    requires
        at <= s@.len(),
    ensures
        r == text::stands_at(part@, s@, at as int),
{
    if part.len() > s.len() - at {
        return false;
    }
    let mut i: usize = 0;
    while i < part.len()
        invariant
            at + part.len() <= s.len(),
            i <= part@.len(),
            forall|j: int| 0 <= j < i ==> part@[j] == s@[at + j],
        decreases part@.len() - i,
    {
        if part[i] != s[at + i] {
            assert(s@.subrange(at as int, at + part@.len())[i as int] != part@[i as int]);
            return false;
        }
        i += 1;
    }
    assert(s@.subrange(at as int, at + part@.len()) =~= part@);
    true
}

/// How far apart two columns are.
fn column_gap(a: usize, b: usize) -> (r: usize)
    ensures
        r == gap(a as int, b as int),
{
    if a <= b {
        b - a
    } else {
        a - b
    }
}

/// How far a column is from a tag.
fn distance(tag: (usize, usize), col: usize) -> (r: usize)
    ensures
        r == tag_distance((tag.0 as int, tag.1 as int), col as int),
{
    if col >= tag.0 && col <= tag.1 {
        0
    } else {
        column_gap(col, tag.0)
    }
}

/// Whether `best` is the tag for a column among those seen.
spec fn is_best(best: Option<(usize, usize)>, seen: Seq<(int, int)>, col: int) -> bool {
    pick_tag(seen, col) == match best {
        Some(b) => Some((b.0 as int, b.1 as int)),
        None => None,
    }
}

/// The better of the tag found so far and every tag of one more kind.
fn nearer_tag(
    best: Option<(usize, usize)>,
    kind: TagKind,
    s: &[u8],
    col: usize,
    Ghost(seen): Ghost<Seq<(int, int)>>,
) -> (r: Option<(usize, usize)>)
    requires
        is_best(best, seen, col as int),
    ensures
        is_best(r, seen + tags_from(kind, s@, 0), col as int),
{
    let php: Vec<u8> = vec![0x3c, 0x3f, 0x70, 0x68, 0x70];
    let bytes: Vec<u8> = match kind {
        TagKind::Opening => vec![0x3c, 0x3f, 0x70, 0x68, 0x70],
        TagKind::Closing => vec![0x3f, 0x3e],
        TagKind::Short => vec![0x3c, 0x3f],
    };
    assert(php@ =~= php_tag());
    assert(bytes@ =~= tag_bytes(kind));
    let short: bool = match kind {
        TagKind::Short => true,
        _ => false,
    };
    let ghost all = seen + tags_from(kind, s@, 0);
    let ghost mut seen = seen;
    let mut best: Option<(usize, usize)> = best;
    let mut at: usize = 0;
    while at < s.len()
        invariant
            at <= s@.len(),
            php@ == php_tag(),
            bytes@ == tag_bytes(kind),
            short == (kind is Short),
            is_best(best, seen, col as int),
            seen + tags_from(kind, s@, at as int) == all,
        decreases s@.len() - at,
    {
        if byte_match(&bytes, s, at) && !(short && byte_match(&php, s, at)) {
            let tag: (usize, usize) = (at, at + bytes.len());
            let ghost stretch = (tag.0 as int, tag.1 as int);
            assert(seen.push(stretch).drop_last() =~= seen);
            assert(seen.push(stretch) + tags_from(kind, s@, at + 1) =~= seen + (seq![stretch]
                + tags_from(kind, s@, at + 1)));
            best = match best {
                None => Some(tag),
                Some(b) => if distance(tag, col) < distance(b, col) {
                    Some(tag)
                } else {
                    Some(b)
                },
            };
            proof {
                seen = seen.push(stretch);
            }
        }
        at += 1;
    }
    assert(seen + tags_from(kind, s@, at as int) =~= seen);
    best
}

/// The part of a line that a finding about a PHP tag underlines: the tag nearest to the column, or
/// two columns where the line has no tag. Columns of tags count bytes.
pub fn find_tag_range(line_content: &str, line: u32, column: u32) -> (r: Range)
    ensures
        r == tag_range(encode_utf8(line_content@), line, column),
{
    let s: &[u8] = line_content.as_bytes();
    let col: usize = column as usize;
    let ghost none: Seq<(int, int)> = Seq::empty();
    let ghost opening = tags_from(TagKind::Opening, s@, 0);
    let ghost closing = tags_from(TagKind::Closing, s@, 0);
    let first: Option<(usize, usize)> = nearer_tag(None, TagKind::Opening, s, col, Ghost(none));
    assert(none + opening =~= opening);
    let second: Option<(usize, usize)> = nearer_tag(
        first,
        TagKind::Closing,
        s,
        col,
        Ghost(opening),
    );
    let best: Option<(usize, usize)> = nearer_tag(
        second,
        TagKind::Short,
        s,
        col,
        Ghost(opening + closing),
    );
    match best {
        Some((start, end)) => make_range(line, start as u32, end as u32),
        None => make_range(line, column, column.saturating_add(2)),
    }
}

/// The characters of a name.
pub open spec fn word_char(c: char) -> bool {
    text::alphanumeric(c) || c == '_'
}

/// The characters of a variable, whose first is a dollar sign.
pub open spec fn variable_char(c: char) -> bool {
    word_char(c) || c == '$'
}

/// The characters that operators are made of.
pub open spec fn operator_char(c: char) -> bool {
    ||| c == '='
    ||| c == '!'
    ||| c == '<'
    ||| c == '>'
    ||| c == '+'
    ||| c == '-'
    ||| c == '*'
    ||| c == '/'
    ||| c == '%'
    ||| c == '&'
    ||| c == '|'
    ||| c == '^'
    ||| c == '~'
}

/// Where the run of characters of a kind that ends before `at` starts.
pub open spec fn run_start(s: Seq<char>, at: int, kind: spec_fn(char) -> bool) -> int
    decreases at,
{
    if 0 < at <= s.len() && kind(s[at - 1]) {
        run_start(s, at - 1, kind)
    } else {
        at
    }
}

/// Where the run of characters of a kind that starts at `at` ends.
pub open spec fn run_end(s: Seq<char>, at: int, kind: spec_fn(char) -> bool) -> int
    decreases s.len() - at,
{
    if 0 <= at < s.len() && kind(s[at]) {
        run_end(s, at + 1, kind)
    } else {
        at
    }
}

/// Where the run around or from a column starts and ends, before it is widened to one character.
pub open spec fn token_run(s: Seq<char>, col: int) -> (int, int) {
    let c = s[col];
    if variable_char(c) {
        (run_start(s, col, |c: char| variable_char(c)), run_end(s, col, |c: char| word_char(c)))
    } else if text::white_space(c) {
        (col, run_end(s, col, |c: char| text::white_space(c)))
    } else if operator_char(c) {
        (run_start(s, col, |c: char| operator_char(c)), run_end(s, col, |c: char| operator_char(c)))
    } else {
        (col, col + 1)
    }
}

/// The token at a column, which holds at least one character.
pub open spec fn token_span(s: Seq<char>, col: int) -> (int, int) {
    let run = token_run(s, col);
    if run.0 == run.1 {
        (run.0, col + 1)
    } else {
        run
    }
}

/// What a finding about a token underlines.
pub open spec fn token_range(s: Seq<char>, line: u32, column: u32) -> Range {
    if column >= s.len() {
        range_on(line, if column > 0 {
            (column - 1) as u32
        } else {
            0
        }, column)
    } else {
        let span = token_span(s, column as int);
        range_on(line, span.0 as u32, span.1 as u32)
    }
}

fn is_word_char(c: char) -> (r: bool)
    ensures
        r == word_char(c),
{
    c.is_alphanumeric() || c == '_'
}

fn is_variable_char(c: char) -> (r: bool)
    ensures
        r == variable_char(c),
{
    is_word_char(c) || c == '$'
}

fn is_operator_char(c: char) -> (r: bool)
    ensures
        r == operator_char(c),
{
    c == '=' || c == '!' || c == '<' || c == '>' || c == '+' || c == '-' || c == '*' || c == '/'
        || c == '%' || c == '&' || c == '|' || c == '^' || c == '~'
}

/// Where the run around or from a column starts and ends.
fn find_token_run(chars: &Vec<char>, col: usize) -> (run: (usize, usize))
    requires
        col < chars.len(),
    ensures
        (run.0 as int, run.1 as int) == token_run(chars@, col as int),
        run.0 <= col <= run.1 <= chars@.len(),
{
    let mut start: usize = col;
    let mut end: usize = col;
    let c: char = chars[col];
    if is_variable_char(c) {
        let ghost before = |c: char| variable_char(c);
        while start > 0 && is_variable_char(chars[start - 1])
            invariant
                start <= col < chars@.len(),
                before == (|c: char| variable_char(c)),
                run_start(chars@, start as int, before) == run_start(chars@, col as int, before),
            decreases start,
        {
            start -= 1;
        }
        let ghost after = |c: char| word_char(c);
        while end < chars.len() && is_word_char(chars[end])
            invariant
                col <= end <= chars@.len(),
                after == (|c: char| word_char(c)),
                run_end(chars@, end as int, after) == run_end(chars@, col as int, after),
            decreases chars@.len() - end,
        {
            end += 1;
        }
    } else if c.is_whitespace() {
        let ghost after = |c: char| text::white_space(c);
        while end < chars.len() && chars[end].is_whitespace()
            invariant
                col <= end <= chars@.len(),
                after == (|c: char| text::white_space(c)),
                run_end(chars@, end as int, after) == run_end(chars@, col as int, after),
            decreases chars@.len() - end,
        {
            end += 1;
        }
    } else if is_operator_char(c) {
        let ghost kind = |c: char| operator_char(c);
        while end < chars.len() && is_operator_char(chars[end])
            invariant
                col <= end <= chars@.len(),
                kind == (|c: char| operator_char(c)),
                run_end(chars@, end as int, kind) == run_end(chars@, col as int, kind),
            decreases chars@.len() - end,
        {
            end += 1;
        }
        while start > 0 && is_operator_char(chars[start - 1])
            invariant
                start <= col < chars@.len(),
                kind == (|c: char| operator_char(c)),
                run_start(chars@, start as int, kind) == run_start(chars@, col as int, kind),
            decreases start,
        {
            start -= 1;
        }
    } else {
        end = col + 1;
    }
    (start, end)
}

/// The part of a line that a finding about a token underlines: the token at the column, or the
/// column before it where the line ends earlier. Columns of tokens count characters.
pub fn find_token_range(line_content: &str, line: u32, column: u32) -> (r: Range)
    ensures
        r == token_range(line_content@, line, column),
{
    let chars: Vec<char> = text::chars_of(line_content);
    let col: usize = column as usize;
    if col >= chars.len() {
        return make_range(line, column.saturating_sub(1), column);
    }
    let (start, run_end) = find_token_run(&chars, col);
    let end: usize = if start == run_end {
        col + 1
    } else {
        run_end
    };
    make_range(line, start as u32, end as u32)
}

/// The position of the first character that is no white space; the start where there is none.
pub open spec fn indentation(s: Seq<char>) -> int {
    let k = run_end(s, 0, |c: char| text::white_space(c));
    if k < s.len() {
        k
    } else {
        0
    }
}

/// What a finding about a whole line underlines: from its first character that is no white space
/// to its end, which counts bytes.
pub open spec fn whole_line_range(s: Seq<char>, line: u32) -> Range {
    range_on(line, indentation(s) as u32, encode_utf8(s).len() as u32)
}

/// The part of a line that a finding about the whole line underlines.
pub fn find_line_range(line_content: &str, line: u32) -> (r: Range)
    ensures
        r == whole_line_range(line_content@, line),
{
    let chars: Vec<char> = text::chars_of(line_content);
    let ghost kind = |c: char| text::white_space(c);
    let mut at: usize = 0;
    while at < chars.len() && chars[at].is_whitespace()
        invariant
            at <= chars@.len(),
            kind == (|c: char| text::white_space(c)),
            run_end(chars@, at as int, kind) == run_end(chars@, 0, kind),
        decreases chars@.len() - at,
    {
        at += 1;
    }
    let first: usize = if at < chars.len() {
        at
    } else {
        0
    };
    make_range(line, first as u32, line_content.as_bytes().len() as u32)
}

proof fn lemma_run_start(s: Seq<char>, at: int, kind: spec_fn(char) -> bool)
    requires
        0 <= at <= s.len(),
    ensures
        0 <= run_start(s, at, kind) <= at,
        forall|i: int| run_start(s, at, kind) <= i < at ==> kind(#[trigger] s[i]),
        run_start(s, at, kind) > 0 ==> !kind(s[run_start(s, at, kind) - 1]),
    decreases at,
{
    if at > 0 && kind(s[at - 1]) {
        lemma_run_start(s, at - 1, kind);
    }
}

proof fn lemma_run_end(s: Seq<char>, at: int, kind: spec_fn(char) -> bool)
    requires
        0 <= at <= s.len(),
    ensures
        at <= run_end(s, at, kind) <= s.len(),
        forall|i: int| at <= i < run_end(s, at, kind) ==> kind(#[trigger] s[i]),
        run_end(s, at, kind) < s.len() ==> !kind(s[run_end(s, at, kind)]),
    decreases s.len() - at,
{
    if at < s.len() && kind(s[at]) {
        lemma_run_end(s, at + 1, kind);
    }
}

/// Whatever stands at the column, the token that is underlined has at least one character, lies
/// on the line and starts no later than the column. It holds the column, except where a dollar
/// sign follows the name that is underlined.
pub proof fn law_token_at_column(s: Seq<char>, col: int)
    requires
        0 <= col < s.len(),
    ensures
        0 <= token_span(s, col).0 <= col,
        token_span(s, col).0 < token_span(s, col).1 <= s.len(),
        s[col] != '$' ==> col < token_span(s, col).1,
{
    lemma_run_start(s, col, |c: char| variable_char(c));
    lemma_run_start(s, col, |c: char| operator_char(c));
    lemma_run_end(s, col, |c: char| word_char(c));
    lemma_run_end(s, col, |c: char| text::white_space(c));
    lemma_run_end(s, col, |c: char| operator_char(c));
}

/// An operator is underlined whole: all of its characters are operator characters, and neither
/// the character before it nor the one after it is one.
pub proof fn law_operator_is_whole(s: Seq<char>, col: int)
    requires
        0 <= col < s.len(),
        operator_char(s[col]),
        !variable_char(s[col]),
    ensures
        forall|i: int|
            token_span(s, col).0 <= i < token_span(s, col).1 ==> operator_char(#[trigger] s[i]),
        token_span(s, col).0 > 0 ==> !operator_char(s[token_span(s, col).0 - 1]),
        token_span(s, col).1 < s.len() ==> !operator_char(s[token_span(s, col).1]),
{
    let kind = |c: char| operator_char(c);
    lemma_run_start(s, col, kind);
    lemma_run_end(s, col, kind);
}

/// A name is underlined whole, with the dollar signs before it.
pub proof fn law_name_is_whole(s: Seq<char>, col: int)
    requires
        0 <= col < s.len(),
        word_char(s[col]),
    ensures
        forall|i: int|
            token_span(s, col).0 <= i < token_span(s, col).1 ==> variable_char(#[trigger] s[i]),
        token_span(s, col).0 > 0 ==> !variable_char(s[token_span(s, col).0 - 1]),
        token_span(s, col).1 < s.len() ==> !word_char(s[token_span(s, col).1]),
{
    lemma_run_start(s, col, |c: char| variable_char(c));
    lemma_run_end(s, col, |c: char| word_char(c));
}

/// Whether a stretch of a line is a tag of the given kind.
pub open spec fn tag_of_kind(kind: TagKind, s: Seq<u8>, tag: (int, int)) -> bool {
    tag_stands(kind, s, tag.0) && tag.1 == tag.0 + tag_bytes(kind).len()
}

/// Whether a stretch of a line is a PHP tag.
pub open spec fn is_tag(s: Seq<u8>, tag: (int, int)) -> bool {
    ||| tag_of_kind(TagKind::Opening, s, tag)
    ||| tag_of_kind(TagKind::Closing, s, tag)
    ||| tag_of_kind(TagKind::Short, s, tag)
}

proof fn lemma_tags_from(kind: TagKind, s: Seq<u8>, at: int, tag: (int, int))
    requires
        0 <= at,
    ensures
        tags_from(kind, s, at).contains(tag) == (at <= tag.0 && tag_of_kind(kind, s, tag)),
    decreases s.len() - at,
{
    let tags = tags_from(kind, s, at);
    if at < s.len() {
        lemma_tags_from(kind, s, at + 1, tag);
        let rest = tags_from(kind, s, at + 1);
        if tag_stands(kind, s, at) {
            if tags.contains(tag) {
                let i = choose|i: int| 0 <= i < tags.len() && tags[i] == tag;
                if i > 0 {
                    assert(rest[i - 1] == tag);
                }
            }
            if at <= tag.0 && tag_of_kind(kind, s, tag) {
                if tag.0 == at {
                    assert(tags[0] == tag);
                } else {
                    let i = choose|i: int| 0 <= i < rest.len() && rest[i] == tag;
                    assert(tags[i + 1] == tag);
                }
            }
        }
    } else {
        assert(tag_bytes(kind).len() > 0);
    }
}

proof fn lemma_tags_of(s: Seq<u8>, tag: (int, int))
    ensures
        tags_of(s).contains(tag) == is_tag(s, tag),
{
    let opening = tags_from(TagKind::Opening, s, 0);
    let closing = tags_from(TagKind::Closing, s, 0);
    let short = tags_from(TagKind::Short, s, 0);
    let all = tags_of(s);
    lemma_tags_from(TagKind::Opening, s, 0, tag);
    lemma_tags_from(TagKind::Closing, s, 0, tag);
    lemma_tags_from(TagKind::Short, s, 0, tag);
    if all.contains(tag) {
        let i = choose|i: int| 0 <= i < all.len() && all[i] == tag;
        if i < opening.len() {
            assert(opening[i] == tag);
        } else if i < opening.len() + closing.len() {
            assert(closing[i - opening.len()] == tag);
        } else {
            assert(short[i - opening.len() - closing.len()] == tag);
        }
    }
    if opening.contains(tag) {
        let i = choose|i: int| 0 <= i < opening.len() && opening[i] == tag;
        assert(all[i] == tag);
    }
    if closing.contains(tag) {
        let i = choose|i: int| 0 <= i < closing.len() && closing[i] == tag;
        assert(all[opening.len() + i] == tag);
    }
    if short.contains(tag) {
        let i = choose|i: int| 0 <= i < short.len() && short[i] == tag;
        assert(all[opening.len() + closing.len() + i] == tag);
    }
}

proof fn lemma_pick_tag(tags: Seq<(int, int)>, col: int, other: (int, int))
    ensures
        pick_tag(tags, col) is None <==> tags.len() == 0,
        pick_tag(tags, col) matches Some(tag) ==> tags.contains(tag),
        tags.contains(other) ==> tag_distance(pick_tag(tags, col)->0, col) <= tag_distance(
            other,
            col,
        ),
    decreases tags.len(),
{
    if tags.len() > 0 {
        let front = tags.drop_last();
        lemma_pick_tag(front, col, other);
        assert(tags[tags.len() - 1] == tags.last());
        if let Some(best) = pick_tag(front, col) {
            let i = choose|i: int| 0 <= i < front.len() && front[i] == best;
            assert(tags[i] == best);
        }
        if tags.contains(other) {
            let i = choose|i: int| 0 <= i < tags.len() && tags[i] == other;
            if i < front.len() {
                assert(front[i] == other);
            }
        }
    }
}

/// A finding about a PHP tag underlines a whole tag of the line, unless the line has no tag at all.
/// No other tag of the line is nearer to the column that the finding names.
pub proof fn law_nearest_tag_is_underlined(s: Seq<u8>, col: int, other: (int, int))
    ensures
        match pick_tag(tags_of(s), col) {
            Some(tag) => is_tag(s, tag) && (is_tag(s, other) ==> tag_distance(tag, col)
                <= tag_distance(other, col)),
            None => !is_tag(s, other),
        },
{
    lemma_tags_of(s, other);
    lemma_pick_tag(tags_of(s), col, other);
    if let Some(tag) = pick_tag(tags_of(s), col) {
        lemma_tags_of(s, tag);
    }
}

/// Where the column touches a tag, a tag that it touches is underlined.
pub proof fn law_touched_tag_is_underlined(s: Seq<u8>, col: int, tag: (int, int))
    requires
        is_tag(s, tag),
        tag.0 <= col <= tag.1,
    ensures
        pick_tag(tags_of(s), col) matches Some(picked) && picked.0 <= col <= picked.1,
{
    law_nearest_tag_is_underlined(s, col, tag);
}

/// Operators are made of these thirteen characters and of no others.
pub proof fn law_operator_characters(c: char)
    ensures
        operator_char(c) == "=!<>+-*/%&|^~"@.contains(c),
{
    reveal_strlit("=!<>+-*/%&|^~");
    let all = "=!<>+-*/%&|^~"@;
    assert(all.len() == 13);
    assert(all[0] == '=' && all[1] == '!' && all[2] == '<' && all[3] == '>' && all[4] == '+'
        && all[5] == '-' && all[6] == '*' && all[7] == '/' && all[8] == '%' && all[9] == '&'
        && all[10] == '|' && all[11] == '^' && all[12] == '~');
}

/// Letters, digits and the underscore make names, and the dollar sign stands before those of
/// variables. Of ASCII nothing else belongs to a name.
pub proof fn law_name_characters(c: char)
    ensures
        text::alphanumeric(c) ==> word_char(c),
        word_char('_'),
        variable_char('$'),
        word_char(c) ==> variable_char(c) && (text::alphanumeric(c) || c == '_'),
        variable_char(c) && c != '$' ==> word_char(c),
{
}

/// White space is underlined from the column on, as far as it goes, and nothing before the column.
pub proof fn law_space_runs_from_the_column(s: Seq<char>, col: int)
    requires
        0 <= col < s.len(),
        text::white_space(s[col]),
        !text::alphanumeric(s[col]),
    ensures
        token_span(s, col).0 == col,
        col < token_span(s, col).1 <= s.len(),
        forall|i: int| col <= i < token_span(s, col).1 ==> text::white_space(#[trigger] s[i]),
        token_span(s, col).1 < s.len() ==> !text::white_space(s[token_span(s, col).1]),
{
    lemma_run_end(s, col, |c: char| text::white_space(c));
}

/// A character that is neither part of a name nor of an operator nor white space, such as a bracket,
/// is underlined alone.
pub proof fn law_other_characters_stand_alone(s: Seq<char>, col: int)
    requires
        0 <= col < s.len(),
        !text::alphanumeric(s[col]),
        s[col] != '_' && s[col] != '$',
        !text::white_space(s[col]),
        !"=!<>+-*/%&|^~"@.contains(s[col]),
    ensures
        token_span(s, col) == (col, col + 1),
{
    law_operator_characters(s[col]);
}

/// A token is underlined on its line, from its first column to the one after its last. Beyond the end
/// of the line it is the column before that is underlined.
pub proof fn law_token_range_is_the_token(s: Seq<char>, line: u32, column: u32)
    requires
        s.len() <= u32::MAX,
    ensures
        token_range(s, line, column).start.line == line,
        token_range(s, line, column).end.line == line,
        column < s.len() ==> token_range(s, line, column).start.character == token_span(
            s,
            column as int,
        ).0 && token_range(s, line, column).end.character == token_span(s, column as int).1,
        column >= s.len() ==> token_range(s, line, column).end.character == column,
        column >= s.len() && column > 0 ==> token_range(s, line, column).start.character == column
            - 1,
        column == 0 && s.len() == 0 ==> token_range(s, line, column).start.character == 0,
{
    if column < s.len() {
        law_token_at_column(s, column as int);
    }
}

/// A whole line is underlined from its first character that is not white space, before which there is
/// only white space, to its end, counted in bytes. Of a line without such a character all is
/// underlined.
pub proof fn law_whole_line_is_underlined(s: Seq<char>, line: u32)
    requires
        s.len() <= u32::MAX,
        encode_utf8(s).len() <= u32::MAX,
    ensures
        ({
            let range = whole_line_range(s, line);
            let first = range.start.character as int;
            &&& range.start.line == line
            &&& range.end.line == line
            &&& range.end.character == encode_utf8(s).len()
            &&& forall|i: int| 0 <= i < first ==> text::white_space(#[trigger] s[i])
            &&& text::blank(s) ==> first == 0
            &&& !text::blank(s) ==> first < s.len() && !text::white_space(s[first])
        }),
{
    let kind = |c: char| text::white_space(c);
    lemma_run_end(s, 0, kind);
    let end = run_end(s, 0, kind);
    assert(forall|i: int| 0 <= i < end ==> kind(#[trigger] s[i]));
    if end < s.len() {
        assert(!text::white_space(s[end]));
    }
}

/// A tag is as far from a column as the column is from its start, and not far at all where the column
/// touches it.
pub proof fn law_tag_distance(tag: (int, int), col: int)
    ensures
        tag.0 <= col <= tag.1 ==> tag_distance(tag, col) == 0,
        col < tag.0 ==> tag_distance(tag, col) == tag.0 - col,
        col > tag.1 && tag.0 <= tag.1 ==> tag_distance(tag, col) == col - tag.0,
{
}

/// The tags of a line are the stretches `<?php` and `?>`, and `<?` where no `php` follows, byte for
/// byte.
pub proof fn law_tags_by_their_bytes(s: Seq<u8>, at: int)
    requires
        0 <= at,
    ensures
        is_tag(s, (at, at + 5)) <==> at + 5 <= s.len() && s[at] == 0x3c && s[at + 1] == 0x3f && s[at
            + 2] == 0x70 && s[at + 3] == 0x68 && s[at + 4] == 0x70,
        is_tag(s, (at, at + 2)) <==> at + 2 <= s.len() && ((s[at] == 0x3f && s[at + 1] == 0x3e) || (
        s[at] == 0x3c && s[at + 1] == 0x3f && !(at + 5 <= s.len() && s[at + 2] == 0x70 && s[at + 3]
            == 0x68 && s[at + 4] == 0x70))),
        forall|end: int| #[trigger] is_tag(s, (at, end)) ==> end == at + 2 || end == at + 5,
{
    let five = s.subrange(at, at + 5);
    let two = s.subrange(at, at + 2);
    assert(php_tag().len() == 5 && closing_tag().len() == 2 && short_tag().len() == 2);
    if at + 5 <= s.len() {
        assert(five[0] == s[at] && five[1] == s[at + 1] && five[2] == s[at + 2] && five[3] == s[at
            + 3] && five[4] == s[at + 4]);
        if s[at] == 0x3c && s[at + 1] == 0x3f && s[at + 2] == 0x70 && s[at + 3] == 0x68 && s[at + 4]
            == 0x70 {
            assert(five =~= php_tag());
        }
        if five == php_tag() {
            assert(five[0] == 0x3c && five[1] == 0x3f && five[2] == 0x70 && five[3] == 0x68
                && five[4] == 0x70);
        }
    }
    if at + 2 <= s.len() {
        assert(two[0] == s[at] && two[1] == s[at + 1]);
        if s[at] == 0x3f && s[at + 1] == 0x3e {
            assert(two =~= closing_tag());
        }
        if s[at] == 0x3c && s[at + 1] == 0x3f {
            assert(two =~= short_tag());
        }
        if two == closing_tag() {
            assert(two[0] == 0x3f && two[1] == 0x3e);
        }
        if two == short_tag() {
            assert(two[0] == 0x3c && two[1] == 0x3f);
        }
    }
}

/// A finding about a tag underlines the tag on its line, byte for byte, and the two columns from its
/// own on where the line has no tag.
pub proof fn law_tag_range_is_the_tag(s: Seq<u8>, line: u32, column: u32)
    requires
        s.len() <= u32::MAX,
    ensures
        tag_range(s, line, column).start.line == line,
        tag_range(s, line, column).end.line == line,
        match pick_tag(tags_of(s), column as int) {
            Some(tag) => tag_range(s, line, column).start.character == tag.0 && tag_range(
                s,
                line,
                column,
            ).end.character == tag.1,
            None => tag_range(s, line, column).start.character == column && (column < u32::MAX - 1
                ==> tag_range(s, line, column).end.character == column + 2),
        },
{
    if let Some(tag) = pick_tag(tags_of(s), column as int) {
        law_nearest_tag_is_underlined(s, column as int, tag);
        assert(php_tag().len() == 5 && closing_tag().len() == 2 && short_tag().len() == 2);
    }
}

proof fn lemma_pick_is_first(tags: Seq<(int, int)>, col: int) -> (k: int)
    requires
        tags.len() > 0,
    ensures
        0 <= k < tags.len(),
        pick_tag(tags, col) == Some(tags[k]),
        forall|j: int|
            0 <= j < k ==> tag_distance(#[trigger] tags[j], col) > tag_distance(tags[k], col),
    decreases tags.len(),
{
    let front = tags.drop_last();
    let last = tags.len() - 1;
    if front.len() == 0 {
        assert(pick_tag(front, col) is None);
        last
    } else {
        let k = lemma_pick_is_first(front, col);
        assert(front[k] == tags[k]);
        if tag_distance(tags[last], col) < tag_distance(front[k], col) {
            assert forall|j: int| 0 <= j < last implies tag_distance(#[trigger] tags[j], col)
                > tag_distance(tags[last], col) by {
                lemma_pick_tag(front, col, tags[j]);
                assert(front[j] == tags[j]);
                assert(front.contains(tags[j]));
            }
            last
        } else {
            assert forall|j: int| 0 <= j < k implies tag_distance(#[trigger] tags[j], col)
                > tag_distance(tags[k], col) by {
                assert(front[j] == tags[j]);
            }
            k
        }
    }
}

proof fn lemma_tags_ascend(kind: TagKind, s: Seq<u8>, at: int, i: int, j: int)
    requires
        0 <= at,
        0 <= i < j < tags_from(kind, s, at).len(),
    ensures
        tags_from(kind, s, at)[i].0 < tags_from(kind, s, at)[j].0,
    decreases s.len() - at,
{
    let tags = tags_from(kind, s, at);
    let rest = tags_from(kind, s, at + 1);
    if tag_stands(kind, s, at) {
        assert(tags[j] == rest[j - 1]);
        if i > 0 {
            assert(tags[i] == rest[i - 1]);
            lemma_tags_ascend(kind, s, at + 1, i - 1, j - 1);
        } else {
            lemma_tags_from(kind, s, at + 1, rest[j - 1]);
            assert(rest.contains(rest[j - 1]));
        }
    } else {
        lemma_tags_ascend(kind, s, at + 1, i, j);
    }
}

/// How much a tag counts among tags that are equally near: opening tags count most, those without a
/// name least.
pub open spec fn tag_rank(s: Seq<u8>, tag: (int, int)) -> int {
    if tag.1 == tag.0 + 5 {
        0
    } else if s[tag.0] == 0x3f {
        1
    } else {
        2
    }
}

proof fn lemma_rank_of_kind(kind: TagKind, s: Seq<u8>, i: int)
    requires
        0 <= i < tags_from(kind, s, 0).len(),
    ensures
        tag_rank(s, tags_from(kind, s, 0)[i]) == match kind {
            TagKind::Opening => 0int,
            TagKind::Closing => 1,
            TagKind::Short => 2,
        },
{
    let tag = tags_from(kind, s, 0)[i];
    lemma_tags_from(kind, s, 0, tag);
    assert(tags_from(kind, s, 0).contains(tag));
    assert(php_tag().len() == 5 && closing_tag().len() == 2 && short_tag().len() == 2);
    if !(kind is Opening) {
        let two = s.subrange(tag.0, tag.0 + 2);
        assert(two[0] == s[tag.0]);
        assert(closing_tag()[0] == 0x3f && short_tag()[0] == 0x3c);
    }
}

/// Of the tags that are equally near, an opening one is underlined before a closing one, a closing one
/// before one without a name, and the first of those of one kind.
pub proof fn law_ties_go_to_the_first_tag(s: Seq<u8>, col: int, other: (int, int))
    requires
        is_tag(s, other),
    ensures
        ({
            let picked = pick_tag(tags_of(s), col);
            let best = picked->0;
            &&& picked is Some
            &&& other != best && tag_distance(other, col) == tag_distance(best, col) ==> {
                ||| tag_rank(s, best) < tag_rank(s, other)
                ||| tag_rank(s, best) == tag_rank(s, other) && best.0 < other.0
            }
        }),
{
    let tags = tags_of(s);
    let opening = tags_from(TagKind::Opening, s, 0);
    let closing = tags_from(TagKind::Closing, s, 0);
    let short = tags_from(TagKind::Short, s, 0);
    let a = opening.len() as int;
    let b = closing.len() as int;
    lemma_tags_of(s, other);
    let m = choose|m: int| 0 <= m < tags.len() && tags[m] == other;
    let k = lemma_pick_is_first(tags, col);
    if k < m {
        if m < a {
            lemma_rank_of_kind(TagKind::Opening, s, m);
        } else if m < a + b {
            lemma_rank_of_kind(TagKind::Closing, s, m - a);
        } else {
            lemma_rank_of_kind(TagKind::Short, s, m - a - b);
        }
        if k < a {
            lemma_rank_of_kind(TagKind::Opening, s, k);
            if m < a {
                lemma_tags_ascend(TagKind::Opening, s, 0, k, m);
            }
        } else if k < a + b {
            lemma_rank_of_kind(TagKind::Closing, s, k - a);
            if m < a + b {
                lemma_tags_ascend(TagKind::Closing, s, 0, k - a, m - a);
            }
        } else {
            lemma_rank_of_kind(TagKind::Short, s, k - a - b);
            lemma_tags_ascend(TagKind::Short, s, 0, k - a - b, m - a - b);
        }
    }
}

} // verus!

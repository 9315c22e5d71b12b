//! Text as sequences of characters: comparison, searching, splitting and lines.
use vstd::prelude::*;
use vstd::string::*;
use vstd::utf8::*;

verus! {

/// `String::push` appends the given character to the end of the string.
pub assume_specification[ String::push ](s: &mut String, c: char)
    ensures
        final(s)@ == old(s)@.push(c),
;

/// The characters with the Unicode property `White_Space`.
pub open spec fn white_space(c: char) -> bool {
    ||| '\u{9}' <= c <= '\u{d}'
    ||| c == '\u{20}'
    ||| c == '\u{85}'
    ||| c == '\u{a0}'
    ||| c == '\u{1680}'
    ||| '\u{2000}' <= c <= '\u{200a}'
    ||| c == '\u{2028}'
    ||| c == '\u{2029}'
    ||| c == '\u{202f}'
    ||| c == '\u{205f}'
    ||| c == '\u{3000}'
}

/// `char::is_whitespace` tells whether a character has the Unicode property `White_Space`.
pub assume_specification[ char::is_whitespace ](c: char) -> (r: bool)
    ensures
        r == white_space(c),
;

/// Whether `char::is_alphanumeric` holds of a character: the Unicode property `Alphabetic`, or
/// one of the general categories for numbers.
pub uninterp spec fn alphanumeric(c: char) -> bool;

/// The letters and digits of ASCII.
pub open spec fn ascii_alphanumeric(c: char) -> bool {
    '0' <= c <= '9' || 'A' <= c <= 'Z' || 'a' <= c <= 'z'
}

/// `char::is_alphanumeric` is a property of the character alone. Of the characters of ASCII it
/// holds of the letters and digits.
pub assume_specification[ char::is_alphanumeric ](c: char) -> (r: bool)
    ensures
        r == alphanumeric(c),
        c <= '\u{7f}' ==> r == ascii_alphanumeric(c),
;

/// The characters of a string.
pub fn chars_of(s: &str) -> (v: Vec<char>)
    ensures
        v@ == s@,
{
    let mut v: Vec<char> = Vec::new();
    for c in it: s.chars()
        invariant
            it.seq() == s@,
            v@ == s@.take(it.index()),
    {
        v.push(c);
    }
    v
}

/// The string that holds the characters from `from` up to `to`.
pub fn string_of(v: &Vec<char>, from: usize, to: usize) -> (s: String)
    requires
        from <= to <= v@.len(),
    ensures
        s@ == v@.subrange(from as int, to as int),
{
    let mut s: String = String::new();
    let mut i: usize = from;
    while i < to
        invariant
            from <= i <= to <= v@.len(),
            s@ == v@.subrange(from as int, i as int),
        decreases to - i,
    {
        s.push(v[i]);
        i += 1;
    }
    s
}

/// Whether two strings hold the same characters.
pub fn same_text(a: &str, b: &str) -> (r: bool)
    ensures
        r == (a@ == b@),
{
    broadcast use encode_utf8_decode_utf8;

    let x: &[u8] = a.as_bytes();
    let y: &[u8] = b.as_bytes();
    if x.len() != y.len() {
        return false;
    }
    let mut i: usize = 0;
    while i < x.len()
        invariant
            x@ == encode_utf8(a@),
            y@ == encode_utf8(b@),
            x@.len() == y@.len(),
            i <= x@.len(),
            forall|j: int| 0 <= j < i ==> x@[j] == y@[j],
        decreases x@.len() - i,
    {
        if x[i] != y[i] {
            return false;
        }
        i += 1;
    }
    proof {
        assert(x@ =~= y@);
        assert(decode_utf8(encode_utf8(a@)) == a@);
        assert(decode_utf8(encode_utf8(b@)) == b@);
    }
    true
}

/// The lower case of an ASCII letter; any other character as it is.
pub open spec fn ascii_lower(c: char) -> char {
    if 'A' <= c <= 'Z' {
        ((c as u8) + 32) as char
    } else {
        c
    }
}

/// The text with its ASCII letters in lower case.
pub open spec fn ascii_lowercase(s: Seq<char>) -> Seq<char> {
    s.map_values(|c: char| ascii_lower(c))
}

/// What `str::to_lowercase` makes of a text: its Unicode lower case.
pub uninterp spec fn lowercase(s: Seq<char>) -> Seq<char>;

/// `str::to_lowercase` gives the Unicode lower case of the text, which depends on the text alone.
/// Of a text in ASCII that is each letter in its lower case and nothing else changed.
pub assume_specification[ str::to_lowercase ](s: &str) -> (r: String)
    ensures
        r@ == lowercase(s@),
        is_ascii_chars(s@) ==> r@ == ascii_lowercase(s@),
;

/// The text with its ASCII letters in lower case.
pub fn to_ascii_lower(s: &str) -> (r: String)
    ensures
        r@ == ascii_lowercase(s@),
{
    let v: Vec<char> = chars_of(s);
    let mut r: String = String::new();
    let mut i: usize = 0;
    while i < v.len()
        invariant
            v@ == s@,
            i <= v@.len(),
            r@ == ascii_lowercase(s@.take(i as int)),
        decreases v@.len() - i,
    {
        let c: char = v[i];
        let low: char = if 'A' <= c && c <= 'Z' {
            ((c as u8) + 32) as char
        } else {
            c
        };
        r.push(low);
        i += 1;
        assert(r@ =~= ascii_lowercase(s@.take(i as int)));
    }
    assert(s@.take(v@.len() as int) =~= s@);
    r
}

/// Whether a text is empty or holds nothing but white space.
pub open spec fn blank(s: Seq<char>) -> bool {
    forall|i: int| 0 <= i < s.len() ==> white_space(#[trigger] s[i])
}

/// Whether a string is empty or holds nothing but white space.
pub fn is_blank(s: &str) -> (r: bool)
    ensures
        r == blank(s@),
{
    let v: Vec<char> = chars_of(s);
    let mut i: usize = 0;
    while i < v.len()
        invariant
            v@ == s@,
            i <= v@.len(),
            forall|j: int| 0 <= j < i ==> white_space(#[trigger] s@[j]),
        decreases v@.len() - i,
    {
        if !v[i].is_whitespace() {
            assert(!white_space(s@[i as int]));
            return false;
        }
        i += 1;
    }
    true
}

/// Whether `part` stands in `s` at position `at`.
pub open spec fn stands_at<T>(part: Seq<T>, s: Seq<T>, at: int) -> bool {
    0 <= at && at + part.len() <= s.len() && s.subrange(at, at + part.len()) == part
}

/// Whether `part` stands anywhere in `s`.
pub open spec fn occurs_in<T>(part: Seq<T>, s: Seq<T>) -> bool {
    exists|at: int| #[trigger] stands_at(part, s, at)
}

/// Whether `part` stands in `s` at position `at`.
pub fn char_match(part: &Vec<char>, s: &Vec<char>, at: usize) -> (r: bool)
    requires
        at <= s@.len(),
    ensures
        r == stands_at(part@, s@, at as int),
{
    if part.len() > s.len() - at {
        return false;
    }
    let mut i: usize = 0;
    while i < part.len()
        invariant
            at + part.len() <= s.len(),
            i <= part@.len(),
            forall|j: int| 0 <= j < i ==> part@[j] == s@[at + j],
        decreases part@.len() - i,
    {
        if part[i] != s[at + i] {
            assert(s@.subrange(at as int, at + part@.len())[i as int] != part@[i as int]);
            return false;
        }
        i += 1;
    }
    assert(s@.subrange(at as int, at + part@.len()) =~= part@);
    true
}

/// Whether `part` stands anywhere in `s`.
pub fn contains_text(s: &str, part: &str) -> (r: bool)
    ensures
        r == occurs_in(part@, s@),
{
    let hay: Vec<char> = chars_of(s);
    let needle: Vec<char> = chars_of(part);
    let mut at: usize = 0;
    while at < hay.len()
        invariant
            hay@ == s@,
            needle@ == part@,
            at <= hay@.len(),
            forall|k: int| 0 <= k < at ==> !#[trigger] stands_at(part@, s@, k),
        decreases hay@.len() - at,
    {
        if char_match(&needle, &hay, at) {
            return true;
        }
        at += 1;
    }
    char_match(&needle, &hay, at)
}

/// Whether `word` stands in `s` at position `at` with no letter or digit of ASCII next to it.
pub open spec fn word_at(word: Seq<char>, s: Seq<char>, at: int) -> bool {
    &&& stands_at(word, s, at)
    &&& at > 0 ==> !ascii_alphanumeric(s[at - 1])
    &&& at + word.len() < s.len() ==> !ascii_alphanumeric(s[at + word.len()])
}

/// Whether `word` stands in `s` as a word of its own.
pub open spec fn word_in(word: Seq<char>, s: Seq<char>) -> bool {
    exists|at: int| #[trigger] word_at(word, s, at)
}

fn is_ascii_alphanumeric(c: char) -> (r: bool)
    ensures
        r == ascii_alphanumeric(c),
{
    ('0' <= c && c <= '9') || ('A' <= c && c <= 'Z') || ('a' <= c && c <= 'z')
}

/// Whether `word` stands in `s` as a word of its own.
pub fn contains_word(s: &str, word: &str) -> (r: bool)
    ensures
        r == word_in(word@, s@),
{
    let hay: Vec<char> = chars_of(s);
    let needle: Vec<char> = chars_of(word);
    if needle.len() > hay.len() {
        return false;
    }
    let last: usize = hay.len() - needle.len();
    let mut at: usize = 0;
    while at <= last
        invariant
            hay@ == s@,
            needle@ == word@,
            last + needle.len() == hay.len(),
            at <= last + 1,
            forall|k: int| 0 <= k < at ==> !#[trigger] word_at(word@, s@, k),
        decreases last + 1 - at,
    {
        if char_match(&needle, &hay, at) && (at == 0 || !is_ascii_alphanumeric(hay[at - 1])) && (at
            == last || !is_ascii_alphanumeric(hay[at + needle.len()])) {
            assert(word_at(word@, s@, at as int));
            return true;
        }
        if at == last {
            assert(forall|k: int| k > last ==> !#[trigger] word_at(word@, s@, k));
            return false;
        }
        at += 1;
    }
    false
}

/// Whether `s` begins with `part`.
pub fn begins_with(s: &str, part: &str) -> (r: bool)
    ensures
        r == stands_at(part@, s@, 0),
{
    char_match(&chars_of(part), &chars_of(s), 0)
}

/// Whether `s` ends with `part`.
pub fn finishes_with(s: &str, part: &str) -> (r: bool)
    ensures
        r == stands_at(part@, s@, s@.len() - part@.len()),
{
    let hay: Vec<char> = chars_of(s);
    let needle: Vec<char> = chars_of(part);
    if needle.len() > hay.len() {
        return false;
    }
    char_match(&needle, &hay, hay.len() - needle.len())
}

/// The position of the first `c` in `s`; the length of `s` where there is none.
pub open spec fn first_index(s: Seq<char>, c: char) -> int
    decreases s.len(),
{
    if s.len() == 0 || s[0] == c {
        0
    } else {
        1 + first_index(s.drop_first(), c)
    }
}

/// `first_index` is the position with no `c` before it and a `c`, or the end, at it.
pub proof fn lemma_first_index(s: Seq<char>, c: char)
    ensures
        0 <= first_index(s, c) <= s.len(),
        forall|i: int| 0 <= i < first_index(s, c) ==> s[i] != c,
        first_index(s, c) < s.len() ==> s[first_index(s, c)] == c,
    decreases s.len(),
{
    if s.len() != 0 && s[0] != c {
        let t = s.drop_first();
        lemma_first_index(t, c);
        assert forall|i: int| 0 <= i < first_index(s, c) implies s[i] != c by {
            if i > 0 {
                assert(s[i] == t[i - 1]);
            }
        }
    }
}

/// The parts of a text between the separators.
pub open spec fn split_of(s: Seq<char>, c: char) -> Seq<Seq<char>>
    decreases s.len(),
    via split_of_decreases
{
    let k = first_index(s, c);
    if k >= s.len() {
        seq![s]
    } else {
        seq![s.take(k)] + split_of(s.skip(k + 1), c)
    }
}

#[via_fn]
proof fn split_of_decreases(s: Seq<char>, c: char) {
    lemma_first_index(s, c);
}

/// A line without the carriage return that closes it.
pub open spec fn without_cr(s: Seq<char>) -> Seq<char> {
    if s.len() > 0 && s.last() == '\r' {
        s.drop_last()
    } else {
        s
    }
}

/// The lines of a text: each ends with a line feed, or with a carriage return and a line feed,
/// neither of which belongs to it. The last line may lack its line feed.
pub open spec fn lines_of(s: Seq<char>) -> Seq<Seq<char>>
    decreases s.len(),
    via lines_of_decreases
{
    let k = first_index(s, '\n');
    if s.len() == 0 {
        seq![]
    } else if k >= s.len() {
        seq![s]
    } else {
        seq![without_cr(s.take(k))] + lines_of(s.skip(k + 1))
    }
}

#[via_fn]
proof fn lines_of_decreases(s: Seq<char>) {
    lemma_first_index(s, '\n');
}

/// The texts that a vector of strings holds.
pub open spec fn texts(v: Seq<String>) -> Seq<Seq<char>> {
    v.map_values(|s: String| s@)
}

/// The parts of a string between the separators.
pub fn split_text(s: &str, c: char) -> (parts: Vec<String>)
    ensures
        texts(parts@) == split_of(s@, c),
        parts@.len() >= 1,
{
    let v: Vec<char> = chars_of(s);
    let mut parts: Vec<String> = Vec::new();
    let mut start: usize = 0;
    let mut i: usize = 0;
    assert(s@.skip(0) =~= s@);
    assert(texts(parts@) + split_of(s@, c) =~= split_of(s@, c));
    while i < v.len()
        invariant
            v@ == s@,
            start <= i <= v@.len(),
            forall|j: int| start <= j < i ==> v@[j] != c,
            texts(parts@) + split_of(s@.skip(start as int), c) == split_of(s@, c),
        decreases v@.len() - i,
    {
        if v[i] == c {
            let ghost rest = s@.skip(start as int);
            let ghost before = texts(parts@);
            let part: String = string_of(&v, start, i);
            proof {
                lemma_first_index(rest, c);
                assert(rest[i - start] == c);
                assert(first_index(rest, c) == i - start) by {
                    let k = first_index(rest, c);
                    if k < i - start {
                        assert(rest[k] == v@[start + k]);
                    }
                }
                assert(part@ =~= rest.take(i - start));
                assert(rest.skip(i - start + 1) =~= s@.skip(i + 1));
            }
            parts.push(part);
            start = i + 1;
            proof {
                assert(texts(parts@) =~= before + seq![part@]);
                assert(texts(parts@) + split_of(s@.skip(start as int), c) =~= before + split_of(
                    rest,
                    c,
                ));
            }
        }
        i += 1;
    }
    let ghost rest = s@.skip(start as int);
    let ghost before = texts(parts@);
    let part: String = string_of(&v, start, v.len());
    proof {
        lemma_first_index(rest, c);
        assert(first_index(rest, c) == rest.len()) by {
            let k = first_index(rest, c);
            if k < rest.len() {
                assert(rest[k] == v@[start + k]);
            }
        }
        assert(part@ =~= rest);
    }
    parts.push(part);
    proof {
        assert(texts(parts@) =~= before + seq![part@]);
    }
    parts
}

/// The lines of a string.
pub fn split_lines(s: &str) -> (lines: Vec<String>)
    ensures
        texts(lines@) == lines_of(s@),
{
    let v: Vec<char> = chars_of(s);
    let mut lines: Vec<String> = Vec::new();
    let mut start: usize = 0;
    let mut i: usize = 0;
    assert(s@.skip(0) =~= s@);
    assert(texts(lines@) + lines_of(s@) =~= lines_of(s@));
    while i < v.len()
        invariant
            v@ == s@,
            start <= i <= v@.len(),
            forall|j: int| start <= j < i ==> v@[j] != '\n',
            texts(lines@) + lines_of(s@.skip(start as int)) == lines_of(s@),
        decreases v@.len() - i,
    {
        if v[i] == '\n' {
            let ghost rest = s@.skip(start as int);
            let ghost before = texts(lines@);
            let end: usize = if start < i && v[i - 1] == '\r' {
                i - 1
            } else {
                i
            };
            let line: String = string_of(&v, start, end);
            proof {
                lemma_first_index(rest, '\n');
                assert(rest[i - start] == '\n');
                assert(first_index(rest, '\n') == i - start) by {
                    let k = first_index(rest, '\n');
                    if k < i - start {
                        assert(rest[k] == v@[start + k]);
                    }
                }
                assert(line@ =~= without_cr(rest.take(i - start)));
                assert(rest.skip(i - start + 1) =~= s@.skip(i + 1));
            }
            lines.push(line);
            start = i + 1;
            proof {
                assert(texts(lines@) =~= before + seq![line@]);
                assert(texts(lines@) + lines_of(s@.skip(start as int)) =~= before + lines_of(rest));
            }
        }
        i += 1;
    }
    let ghost rest = s@.skip(start as int);
    let ghost before = texts(lines@);
    if start < v.len() {
        let line: String = string_of(&v, start, v.len());
        proof {
            lemma_first_index(rest, '\n');
            assert(first_index(rest, '\n') == rest.len()) by {
                let k = first_index(rest, '\n');
                if k < rest.len() {
                    assert(rest[k] == v@[start + k]);
                }
            }
            assert(line@ =~= rest);
        }
        lines.push(line);
        proof {
            assert(texts(lines@) =~= before + seq![line@]);
        }
    } else {
        assert(before + lines_of(rest) =~= before);
    }
    lines
}

/// What an optional text holds.
pub open spec fn optional(s: Option<&str>) -> Option<Seq<char>> {
    match s {
        Some(s) => Some(s@),
        None => None,
    }
}

/// What an optional string holds.
pub open spec fn optional_string(s: Option<String>) -> Option<Seq<char>> {
    match s {
        Some(s) => Some(s@),
        None => None,
    }
}

/// An optional string that is the same.
pub fn copy_optional(s: &Option<String>) -> (r: Option<String>)
    ensures
        optional_string(r) == optional_string(*s),
{
    match s {
        Some(s) => Some(s.clone()),
        None => None,
    }
}

/// A reference to what an optional string holds.
pub fn borrow_optional(s: &Option<String>) -> (r: Option<&str>)
    ensures
        optional(r) == optional_string(*s),
{
    match s {
        Some(s) => Some(s.as_str()),
        None => None,
    }
}

/// A string of its own for what an optional text holds.
pub fn own_optional(s: Option<&str>) -> (r: Option<String>)
    ensures
        optional_string(r) == optional(s),
{
    match s {
        Some(s) => Some(s.to_string()),
        None => None,
    }
}

/// Strings that are the same.
pub fn copy_texts(v: &Vec<String>) -> (r: Vec<String>)
    ensures
        texts(r@) == texts(v@),
{
    let mut copy: Vec<String> = Vec::new();
    let mut i: usize = 0;
    while i < v.len()
        invariant
            i <= v@.len(),
            copy@.len() == i,
            forall|j: int| 0 <= j < i ==> (#[trigger] copy@[j])@ == v@[j]@,
        decreases v@.len() - i,
    {
        copy.push(v[i].clone());
        i += 1;
    }
    assert(texts(copy@) =~= texts(v@));
    copy
}

/// Whether a string is one of several.
pub fn contains_string(v: &Vec<String>, s: &str) -> (r: bool)
    ensures
        r == texts(v@).contains(s@),
{
    let ghost names = texts(v@);
    let mut i: usize = 0;
    while i < v.len()
        invariant
            i <= v@.len(),
            names == texts(v@),
            forall|j: int| 0 <= j < i ==> #[trigger] names[j] != s@,
        decreases v@.len() - i,
    {
        assert(names[i as int] == v@[i as int]@);
        if same_text(&v[i], s) {
            return true;
        }
        i += 1;
    }
    false
}

/// A text occurs in every text that is made of it and something before and after it, and in no
/// other.
pub proof fn law_occurrence_is_a_stretch(
    part: Seq<char>,
    s: Seq<char>,
    before: Seq<char>,
    after: Seq<char>,
)
    ensures
        s == before + part + after ==> occurs_in(part, s),
        occurs_in(part, s) ==> exists|a: Seq<char>, b: Seq<char>| s == #[trigger] (a + part + b),
{
    if s == before + part + after {
        assert(s.subrange(before.len() as int, (before.len() + part.len()) as int) =~= part);
        assert(stands_at(part, s, before.len() as int));
    }
    if occurs_in(part, s) {
        let at = choose|at: int| #[trigger] stands_at(part, s, at);
        let a = s.take(at);
        let b = s.skip(at + part.len());
        assert(s =~= a + part + b);
    }
}

/// A word that stands between characters that are no letters or digits is found, and one that is
/// glued to a letter is not.
pub proof fn law_words_stand_apart(word: Seq<char>, s: Seq<char>, at: int)
    requires
        word_at(word, s, at),
    ensures
        0 <= at <= s.len() - word.len(),
        s.subrange(at, at + word.len()) == word,
        at > 0 ==> !('a' <= s[at - 1] <= 'z') && !('A' <= s[at - 1] <= 'Z') && !('0' <= s[at - 1]
            <= '9'),
        at + word.len() < s.len() ==> !('a' <= s[at + word.len()] <= 'z') && !('A' <= s[at
            + word.len()] <= 'Z') && !('0' <= s[at + word.len()] <= '9'),
        word_in(word, s),
{
}

/// Texts with a separator between each two of them.
pub open spec fn joined(parts: Seq<Seq<char>>, c: char) -> Seq<char>
    decreases parts.len(),
{
    if parts.len() == 0 {
        seq![]
    } else if parts.len() == 1 {
        parts[0]
    } else {
        parts[0].push(c) + joined(parts.drop_first(), c)
    }
}

/// The parts of a text, with the separators put back between them, are the text, and no part holds a
/// separator.
pub proof fn law_split_parts_join_to_the_text(s: Seq<char>, c: char)
    ensures
        split_of(s, c).len() > 0,
        joined(split_of(s, c), c) == s,
        forall|i: int| 0 <= i < split_of(s, c).len() ==> !(#[trigger] split_of(s, c)[i]).contains(c),
    decreases s.len(),
{
    let k = first_index(s, c);
    let parts = split_of(s, c);
    lemma_first_index(s, c);
    if k < s.len() {
        let rest = split_of(s.skip(k + 1), c);
        law_split_parts_join_to_the_text(s.skip(k + 1), c);
        assert(parts.drop_first() =~= rest);
        assert(parts[0] == s.take(k));
        assert(s =~= s.take(k).push(c) + s.skip(k + 1));
        assert forall|i: int| 0 <= i < parts.len() implies !(#[trigger] parts[i]).contains(c) by {
            if i > 0 {
                assert(parts[i] == rest[i - 1]);
            }
        }
    } else {
        assert(parts[0] == s);
    }
}

/// Parts without a separator, joined by it, are split into themselves again.
pub proof fn law_joined_parts_are_split_again(parts: Seq<Seq<char>>, c: char)
    requires
        parts.len() > 0,
        forall|i: int| 0 <= i < parts.len() ==> !(#[trigger] parts[i]).contains(c),
    ensures
        split_of(joined(parts, c), c) == parts,
    decreases parts.len(),
{
    let s = joined(parts, c);
    let first = parts[0];
    lemma_first_index(s, c);
    if parts.len() == 1 {
        if first_index(s, c) < s.len() {
            assert(first.contains(s[first_index(s, c)]));
        }
        assert(split_of(s, c) =~= parts);
    } else {
        let rest = parts.drop_first();
        assert forall|i: int| 0 <= i < rest.len() implies !(#[trigger] rest[i]).contains(c) by {
            assert(rest[i] == parts[i + 1]);
        }
        law_joined_parts_are_split_again(rest, c);
        assert(s[first.len() as int] == c);
        let k = first_index(s, c);
        if k < first.len() {
            assert(first[k] == s[k]);
            assert(first.contains(c));
        }
        assert(k == first.len());
        assert(s.take(k) =~= first);
        assert(s.skip(k + 1) =~= joined(rest, c));
        assert(split_of(s, c) =~= parts);
    }
}

/// A line feed ends a line: the text before the first one is the first line, without the carriage
/// return at its end, and the text after it has the other lines. A text without a line feed is one
/// line, and no text has none.
pub proof fn law_line_feed_ends_a_line(line: Seq<char>, rest: Seq<char>)
    requires
        !line.contains('\n'),
    ensures
        ({
            let first = if line.len() > 0 && line[line.len() - 1] == '\r' {
                line.take(line.len() - 1)
            } else {
                line
            };
            lines_of(line.push('\n') + rest) == seq![first] + lines_of(rest)
        }),
        line.len() > 0 ==> lines_of(line) == seq![line],
        lines_of(Seq::<char>::empty()).len() == 0,
{
    let s = line.push('\n') + rest;
    lemma_first_index(s, '\n');
    let k = first_index(s, '\n');
    assert(s[line.len() as int] == '\n');
    if k < line.len() {
        assert(line[k] == s[k]);
        assert(line.contains('\n'));
    }
    assert(s.take(k) =~= line);
    assert(s.skip(k + 1) =~= rest);
    if line.len() > 0 {
        assert(line.drop_last() =~= line.take(line.len() - 1));
    }
    lemma_first_index(line, '\n');
    let j = first_index(line, '\n');
    if j < line.len() {
        assert(line.contains(line[j]));
    }
}

/// A text is blank if and only if both parts of it are, however it is cut, and one character is
/// blank if and only if it is white space.
pub proof fn law_blank_by_characters(a: Seq<char>, b: Seq<char>, c: char)
    ensures
        blank(a + b) == (blank(a) && blank(b)),
        blank(seq![c]) == white_space(c),
        blank(Seq::<char>::empty()),
{
    let s = a + b;
    if blank(s) {
        assert forall|i: int| 0 <= i < a.len() implies white_space(#[trigger] a[i]) by {
            assert(s[i] == a[i]);
        }
        assert forall|i: int| 0 <= i < b.len() implies white_space(#[trigger] b[i]) by {
            assert(s[a.len() + i] == b[i]);
        }
    }
    if blank(a) && blank(b) {
        assert forall|i: int| 0 <= i < s.len() implies white_space(#[trigger] s[i]) by {
            if i < a.len() {
                assert(s[i] == a[i]);
            } else {
                assert(s[i] == b[i - a.len()]);
            }
        }
    }
    let one = seq![c];
    assert(one[0] == c);
}

/// Lower case changes letters of ASCII and nothing else: an upper-case letter becomes the one that
/// stands 32 places after it.
pub proof fn law_lower_case_by_characters(s: Seq<char>, i: int)
    requires
        0 <= i < s.len(),
    ensures
        ascii_lowercase(s).len() == s.len(),
        'A' <= s[i] <= 'Z' ==> ascii_lowercase(s)[i] as int == s[i] as int + 32,
        !('A' <= s[i] <= 'Z') ==> ascii_lowercase(s)[i] == s[i],
{
}

/// A word with a space or nothing on either side of it is found.
pub proof fn law_words_between_spaces_are_found(a: Seq<char>, word: Seq<char>, b: Seq<char>)
    requires
        a.len() == 0 || a[a.len() - 1] == ' ',
        b.len() == 0 || b[0] == ' ',
    ensures
        word_in(word, a + word + b),
{
    let s = a + word + b;
    let at = a.len() as int;
    assert(s.subrange(at, at + word.len()) =~= word);
    if b.len() > 0 {
        assert(s[at + word.len()] == b[0]);
    }
    assert(word_at(word, s, at));
}

} // verus!

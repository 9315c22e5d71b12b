//! Where the documentation of a sniff is found.
use crate::text;
use vstd::prelude::*;
use vstd::string::*;

verus! {

/// The bytes that a percent-encoded text keeps: letters, digits and `-`, `.`, `_`, `~`.
pub open spec fn unreserved(b: u8) -> bool {
    ||| 0x30 <= b <= 0x39
    ||| 0x41 <= b <= 0x5a
    ||| 0x61 <= b <= 0x7a
    ||| b == 0x2d
    ||| b == 0x2e
    ||| b == 0x5f
    ||| b == 0x7e
}

/// The digit for a number below sixteen, with letters in upper case.
pub open spec fn upper_hex_digit(n: int) -> char {
    if n < 10 {
        (n + 48) as char
    } else {
        (n + 55) as char
    }
}

/// How a byte is percent-encoded.
pub open spec fn encoded_byte(b: u8) -> Seq<char> {
    if unreserved(b) {
        seq![b as char]
    } else {
        seq!['%', upper_hex_digit(b as int / 16), upper_hex_digit(b as int % 16)]
    }
}

/// How some bytes are percent-encoded.
pub open spec fn percent_encoded(bytes: Seq<u8>) -> Seq<char>
    decreases bytes.len(),
{
    if bytes.len() == 0 {
        seq![]
    } else {
        encoded_byte(bytes[0]) + percent_encoded(bytes.drop_first())
    }
}

/// `urlencoding::encode` percent-encodes every byte of the text's UTF-8 except letters and digits
/// of ASCII and `-`, `_`, `.`, `~`.
#[verifier::external_body]
fn percent_encode(s: &str) -> (r: String)
    ensures
        r@ == percent_encoded(s.spec_bytes()),
{
    urlencoding::encode(s).into_owned()
}

/// The URL that a text is, if it is one, as it is written when it has been read.
pub uninterp spec fn parsed_url(s: Seq<char>) -> Option<Seq<char>>;

/// Whether a text starts with one of the hosts that documentation comes from.
pub open spec fn known_host(s: Seq<char>) -> bool {
    text::stands_at("https://github.com/"@, s, 0) || text::stands_at(
        "https://developer.wordpress.org/"@,
        s,
        0,
    )
}

/// `url::Url::parse` reads an absolute URL; the result is the URL in its serialization. The
/// outcome depends on the text alone. Behind a sound host no path, query or fragment is refused
/// unless the URL gets longer than 32 bits can count. The characters before the first slash, of
/// which a known host has few, are counted in 31 bits.
#[verifier::external_body]
fn parse_url(s: &str) -> (r: Option<String>)
    requires
        known_host(s@) || s@.len() < 0x8000_0000,
    ensures
        match r {
            Some(u) => parsed_url(s@) == Some(u@),
            None => parsed_url(s@) is None,
        },
        known_host(s@) && s@.len() <= 0x1000_0000 ==> r is Some,
{
    url::Url::parse(s).ok().map(|u| u.to_string())
}

/// Whether a standard is one that ships with PHP_CodeSniffer.
pub open spec fn bundled_standard(standard: Seq<char>) -> bool {
    ||| standard == "PSR1"@
    ||| standard == "PSR2"@
    ||| standard == "PSR12"@
    ||| standard == "Generic"@
    ||| standard == "Squiz"@
    ||| standard == "PEAR"@
    ||| standard == "Zend"@
    ||| standard == "MySource"@
}

/// Whether a standard is one of the WordPress coding standards.
pub open spec fn wordpress_standard(standard: Seq<char>) -> bool {
    ||| standard == "WordPress"@
    ||| standard == "WordPress-Core"@
    ||| standard == "WordPress-Docs"@
    ||| standard == "WordPress-Extra"@
}

/// The text with a dash for each dot.
pub open spec fn dashed(s: Seq<char>) -> Seq<char> {
    s.map_values(
        |c: char|
            if c == '.' {
                '-'
            } else {
                c
            },
    )
}

/// The second part of a source, such as `Files` of `PSR12.Files.OpenTag`.
pub open spec fn second_part(source: Seq<char>) -> Seq<char> {
    let parts = text::split_of(source, '.');
    if parts.len() > 1 {
        parts[1]
    } else {
        ""@
    }
}

/// The address of the documentation of a source. The standard, which the source begins with,
/// decides: the wiki of PHP_CodeSniffer for the standards that ship with it, the handbook of
/// WordPress, the page of Slevomat, and a search for any other.
pub open spec fn doc_address(source: Seq<char>) -> Seq<char> {
    let standard = text::split_of(source, '.')[0];
    if bundled_standard(standard) {
        "https://github.com/PHPCSStandards/PHP_CodeSniffer/wiki/Customisable-Sniff-Properties#"@
            + dashed(text::lowercase(source))
    } else if wordpress_standard(standard) {
        "https://developer.wordpress.org/coding-standards/wordpress-coding-standards/php/#"@
            + text::lowercase(second_part(source))
    } else if standard == "SlevomatCodingStandard"@ {
        "https://github.com/slevomat/coding-standard#"@ + dashed(text::lowercase(source))
    } else {
        "https://github.com/PHPCSStandards/PHP_CodeSniffer/search?q="@ + percent_encoded(
            vstd::utf8::encode_utf8(source),
        )
    }
}

/// The URL of the documentation of a source. No source has none.
pub open spec fn doc_url(source: Seq<char>) -> Option<Seq<char>> {
    if source.len() == 0 {
        None
    } else {
        parsed_url(doc_address(source))
    }
}

fn is_bundled_standard(standard: &str) -> (r: bool)
    ensures
        r == bundled_standard(standard@),
{
    text::same_text(standard, "PSR1") || text::same_text(standard, "PSR2") || text::same_text(
        standard,
        "PSR12",
    ) || text::same_text(standard, "Generic") || text::same_text(standard, "Squiz")
        || text::same_text(standard, "PEAR") || text::same_text(standard, "Zend")
        || text::same_text(standard, "MySource")
}

fn is_wordpress_standard(standard: &str) -> (r: bool)
    ensures
        r == wordpress_standard(standard@),
{
    text::same_text(standard, "WordPress") || text::same_text(standard, "WordPress-Core")
        || text::same_text(standard, "WordPress-Docs") || text::same_text(
        standard,
        "WordPress-Extra",
    )
}

/// The text with a dash for each dot.
fn dots_to_dashes(s: &str) -> (r: String)
    ensures
        r@ == dashed(s@),
{
    let v: Vec<char> = text::chars_of(s);
    let mut r: String = String::new();
    let mut i: usize = 0;
    while i < v.len()
        invariant
            v@ == s@,
            i <= v@.len(),
            r@ == dashed(s@.take(i as int)),
        decreases v@.len() - i,
    {
        let c: char = v[i];
        r.push(if c == '.' {
            '-'
        } else {
            c
        });
        i += 1;
        assert(r@ =~= dashed(s@.take(i as int)));
    }
    assert(s@.take(v@.len() as int) =~= s@);
    r
}

/// The address of the documentation of a source.
pub fn documentation_address(source: &str) -> (r: String)
    ensures
        r@ == doc_address(source@),
{
    let parts: Vec<String> = text::split_text(source, '.');
    proof {
        assert(text::texts(parts@)[0] == parts@[0]@);
        if parts@.len() > 1 {
            assert(text::texts(parts@)[1] == parts@[1]@);
        }
    }
    let standard: &str = &parts[0];
    if is_bundled_standard(standard) {
        "https://github.com/PHPCSStandards/PHP_CodeSniffer/wiki/Customisable-Sniff-Properties#".to_string().concat(
        &dots_to_dashes(&source.to_lowercase()))
    } else if is_wordpress_standard(standard) {
        let second: &str = if parts.len() > 1 {
            &parts[1]
        } else {
            ""
        };
        "https://developer.wordpress.org/coding-standards/wordpress-coding-standards/php/#".to_string().concat(
        &second.to_lowercase())
    } else if text::same_text(standard, "SlevomatCodingStandard") {
        "https://github.com/slevomat/coding-standard#".to_string().concat(
            &dots_to_dashes(&source.to_lowercase()),
        )
    } else {
        "https://github.com/PHPCSStandards/PHP_CodeSniffer/search?q=".to_string().concat(
            &percent_encode(source),
        )
    }
}

/// Every address of documentation is on a known host.
pub proof fn law_documentation_has_a_known_host(source: Seq<char>)
    ensures
        known_host(doc_address(source)),
{
    reveal_strlit("https://github.com/");
    reveal_strlit("https://developer.wordpress.org/");
    reveal_strlit(
        "https://github.com/PHPCSStandards/PHP_CodeSniffer/wiki/Customisable-Sniff-Properties#",
    );
    reveal_strlit("https://developer.wordpress.org/coding-standards/wordpress-coding-standards/php/#");
    reveal_strlit("https://github.com/slevomat/coding-standard#");
    reveal_strlit("https://github.com/PHPCSStandards/PHP_CodeSniffer/search?q=");
    let address = doc_address(source);
    let github = "https://github.com/"@;
    let wordpress = "https://developer.wordpress.org/"@;
    let standard = text::split_of(source, '.')[0];
    if !bundled_standard(standard) && wordpress_standard(standard) {
        assert(address.subrange(0, wordpress.len() as int) =~= wordpress);
    } else {
        assert(address.subrange(0, github.len() as int) =~= github);
    }
}

/// The URL of the documentation of a source. There is one for every source that is not empty, but
/// for those whose address would be of immoderate length.
pub fn generate_phpcs_doc_url(source: &str) -> (r: Option<String>)
    ensures
        match r {
            Some(u) => doc_url(source@) == Some(u@),
            None => doc_url(source@) is None,
        },
        source@.len() > 0 && doc_address(source@).len() <= 0x1000_0000 ==> r is Some,
        source@.len() == 0 ==> r is None,
{
    if source.is_empty() {
        return None;
    }
    proof {
        law_documentation_has_a_known_host(source@);
    }
    parse_url(&documentation_address(source))
}

/// Whether a character may stand in a percent-encoded text.
pub open spec fn plain(c: char) -> bool {
    c == '%' || (c <= '\u{7f}' && unreserved(c as u8))
}

/// A percent-encoded text holds nothing that has a meaning in a URL: only letters and digits of
/// ASCII, `-`, `.`, `_`, `~` and the percent sign.
pub proof fn law_percent_encoded_is_plain(bytes: Seq<u8>)
    ensures
        forall|i: int|
            0 <= i < percent_encoded(bytes).len() ==> plain(#[trigger] percent_encoded(bytes)[i]),
    decreases bytes.len(),
{
    if bytes.len() > 0 {
        law_percent_encoded_is_plain(bytes.drop_first());
        let b = bytes[0];
        let first = encoded_byte(b);
        assert(forall|i: int| 0 <= i < first.len() ==> plain(#[trigger] first[i]));
        let rest = percent_encoded(bytes.drop_first());
        assert forall|i: int| 0 <= i < percent_encoded(bytes).len() implies plain(
            #[trigger] percent_encoded(bytes)[i],
        ) by {
            if i < first.len() {
                assert(percent_encoded(bytes)[i] == first[i]);
            } else {
                assert(percent_encoded(bytes)[i] == rest[i - first.len()]);
            }
        }
    }
}

/// The standard of a source decides on the page of its documentation: two sources of one standard
/// that ships with PHP_CodeSniffer lead to the same page.
pub proof fn law_standard_decides_page(source: Seq<char>, other: Seq<char>)
    requires
        text::split_of(source, '.')[0] == text::split_of(other, '.')[0],
        bundled_standard(text::split_of(source, '.')[0]),
    ensures
        ({
            let page =
                "https://github.com/PHPCSStandards/PHP_CodeSniffer/wiki/Customisable-Sniff-Properties#"@;
            &&& doc_address(source).take(page.len() as int) == page
            &&& doc_address(other).take(page.len() as int) == page
        }),
{
    let page =
        "https://github.com/PHPCSStandards/PHP_CodeSniffer/wiki/Customisable-Sniff-Properties#"@;
    assert(doc_address(source).take(page.len() as int) =~= page);
    assert(doc_address(other).take(page.len() as int) =~= page);
}

/// The documentation of a standard that ships with PHP_CodeSniffer, or of Slevomat's, is found at the
/// source in lower case, with a dash for each dot.
pub proof fn law_anchor_is_the_source(source: Seq<char>)
    requires
        ({
            let standard = text::split_of(source, '.')[0];
            ||| standard == "PSR1"@
            ||| standard == "PSR2"@
            ||| standard == "PSR12"@
            ||| standard == "Generic"@
            ||| standard == "Squiz"@
            ||| standard == "PEAR"@
            ||| standard == "Zend"@
            ||| standard == "MySource"@
            ||| standard == "SlevomatCodingStandard"@
        }),
    ensures
        ({
            let lower = text::lowercase(source);
            let address = doc_address(source);
            let anchor = address.skip(address.len() - lower.len());
            &&& address.len() > lower.len()
            &&& anchor.len() == lower.len()
            &&& !anchor.contains('.')
            &&& forall|i: int|
                0 <= i < lower.len() ==> #[trigger] anchor[i] == if lower[i] == '.' {
                    '-'
                } else {
                    lower[i]
                }
            &&& address[address.len() - lower.len() - 1] == '#'
        }),
{
    reveal_strlit(
        "https://github.com/PHPCSStandards/PHP_CodeSniffer/wiki/Customisable-Sniff-Properties#",
    );
    reveal_strlit("https://github.com/slevomat/coding-standard#");
    reveal_strlit("SlevomatCodingStandard");
    reveal_strlit("WordPress");
    reveal_strlit("WordPress-Core");
    reveal_strlit("WordPress-Docs");
    reveal_strlit("WordPress-Extra");
    assert("SlevomatCodingStandard"@[0] == 'S');
    assert("WordPress"@[0] == 'W' && "WordPress-Core"@[0] == 'W' && "WordPress-Docs"@[0] == 'W'
        && "WordPress-Extra"@[0] == 'W');
    let lower = text::lowercase(source);
    let address = doc_address(source);
    assert(address.skip(address.len() - lower.len()) =~= dashed(lower));
}

/// The documentation of the WordPress standards is found at the second part of the source, in lower
/// case, on the page of WordPress.
pub proof fn law_wordpress_by_the_second_part(source: Seq<char>)
    requires
        ({
            let standard = text::split_of(source, '.')[0];
            ||| standard == "WordPress"@
            ||| standard == "WordPress-Core"@
            ||| standard == "WordPress-Docs"@
            ||| standard == "WordPress-Extra"@
        }),
    ensures
        ({
            let parts = text::split_of(source, '.');
            doc_address(source)
                == "https://developer.wordpress.org/coding-standards/wordpress-coding-standards/php/#"@
                + text::lowercase(
                if parts.len() > 1 {
                    parts[1]
                } else {
                    ""@
                },
            )
        }),
{
    reveal_strlit("PSR1");
    reveal_strlit("PSR2");
    reveal_strlit("PSR12");
    reveal_strlit("Generic");
    reveal_strlit("Squiz");
    reveal_strlit("PEAR");
    reveal_strlit("Zend");
    reveal_strlit("MySource");
    reveal_strlit("WordPress");
    reveal_strlit("WordPress-Core");
    reveal_strlit("WordPress-Docs");
    reveal_strlit("WordPress-Extra");
    let standard = text::split_of(source, '.')[0];
    assert(standard[0] == 'W');
    assert("PSR1"@[0] == 'P' && "PSR2"@[0] == 'P' && "PSR12"@[0] == 'P' && "Generic"@[0] == 'G'
        && "Squiz"@[0] == 'S' && "PEAR"@[0] == 'P' && "Zend"@[0] == 'Z' && "MySource"@[0] == 'M');
}

/// Any other source is searched for, percent-encoded byte by byte.
pub proof fn law_others_are_searched_for(source: Seq<char>)
    requires
        ({
            let standard = text::split_of(source, '.')[0];
            &&& standard != "PSR1"@ && standard != "PSR2"@ && standard != "PSR12"@
            &&& standard != "Generic"@ && standard != "Squiz"@ && standard != "PEAR"@
            &&& standard != "Zend"@ && standard != "MySource"@
            &&& standard != "WordPress"@ && standard != "WordPress-Core"@
            &&& standard != "WordPress-Docs"@ && standard != "WordPress-Extra"@
            &&& standard != "SlevomatCodingStandard"@
        }),
    ensures
        doc_address(source) == "https://github.com/PHPCSStandards/PHP_CodeSniffer/search?q="@
            + percent_encoded(vstd::utf8::encode_utf8(source)),
{
}

/// A source without a character has no documentation, and any other has what its address is read as.
pub proof fn law_address_is_read_as_a_url(source: Seq<char>)
    ensures
        source.len() == 0 ==> doc_url(source) is None,
        source.len() > 0 ==> doc_url(source) == parsed_url(doc_address(source)),
{
}

/// In a search, letters, digits and the characters `-`, `.`, `_` and `~` stand for themselves; any
/// other byte is written as a percent sign and two hexadecimal digits, in capitals.
pub proof fn law_bytes_are_encoded_one_by_one(a: Seq<u8>, b: Seq<u8>, byte: u8)
    ensures
        percent_encoded(a + b) == percent_encoded(a) + percent_encoded(b),
        ({
            let c = byte as char;
            if text::ascii_alphanumeric(c) || c == '-' || c == '.' || c == '_' || c == '~' {
                percent_encoded(seq![byte]) == seq![c]
            } else {
                let code = percent_encoded(seq![byte]);
                &&& code.len() == 3
                &&& code[0] == '%'
                &&& '0' <= code[1] <= '9' || 'A' <= code[1] <= 'F'
                &&& '0' <= code[2] <= '9' || 'A' <= code[2] <= 'F'
                &&& byte == 16 * (code[1] as int - if code[1] <= '9' {
                    48int
                } else {
                    55
                }) + (code[2] as int - if code[2] <= '9' {
                    48int
                } else {
                    55
                })
            }
        }),
    decreases a.len(),
{
    let one = seq![byte];
    assert(one.drop_first() =~= seq![]);
    assert(one[0] == byte);
    assert(percent_encoded(one.drop_first()) =~= seq![]);
    assert(percent_encoded(one) =~= encoded_byte(byte));
    if a.len() == 0 {
        assert(a + b =~= b);
        assert(percent_encoded(a) + percent_encoded(b) =~= percent_encoded(b));
    } else {
        law_bytes_are_encoded_one_by_one(a.drop_first(), b, byte);
        assert((a + b).drop_first() =~= a.drop_first() + b);
        assert((a + b)[0] == a[0]);
        let x = encoded_byte(a[0]);
        let y = percent_encoded(a.drop_first());
        let z = percent_encoded(b);
        assert(x + (y + z) =~= (x + y) + z);
    }
}

} // verus!

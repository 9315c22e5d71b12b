//! Documents in memory: compressed text with the checksum of its content.
use sha2::Digest;
use vstd::prelude::*;
use vstd::string::*;
use vstd::utf8::*;

verus! {

/// An error of `lz4_flex`.
#[verifier::external_type_specification]
#[verifier::external_body]
pub struct ExDecompressError(lz4_flex::block::DecompressError);

/// The bytes that a block of `lz4_flex` with its size in front stands for, if it is sound.
pub uninterp spec fn lz4_decompressed(data: Seq<u8>) -> Option<Seq<u8>>;

/// The SHA-256 digest of some bytes.
pub uninterp spec fn sha256(data: Seq<u8>) -> Seq<u8>;

/// `lz4_flex::block::compress_prepend_size` writes the size of the data in 32 bits and after it a
/// block that `lz4_flex::block::decompress_size_prepended` turns back into the data, provided that
/// the size fits. Which bytes the block has depends on the machine. The room that is set aside
/// for it is computed from the size times 110.
#[verifier::external_body]
fn lz4_compress(data: &[u8]) -> (r: Vec<u8>)
    requires
        data@.len() * 110 <= usize::MAX,
    ensures
        data@.len() <= u32::MAX ==> lz4_decompressed(r@) == Some(data@),
{
    lz4_flex::block::compress_prepend_size(data)
}

/// A bound on the size of some compressed data, and on the size that it declares in its first
/// four bytes, under which no sum overflows while it is read.
pub open spec fn moderate(data: Seq<u8>) -> bool {
    data.len() <= 0x80_0000 && (data.len() < 4 || data[3] < 0x80)
}

/// `lz4_flex::block::decompress_size_prepended` gives back the bytes that the data stands for, or
/// an error where the data is not sound. The outcome depends on the data alone.
#[verifier::external_body]
fn lz4_decompress(data: &[u8]) -> (r: Result<Vec<u8>, lz4_flex::block::DecompressError>)
    requires
        moderate(data@) || lz4_decompressed(data@) is Some,
    ensures
        match r {
            Ok(bytes) => lz4_decompressed(data@) == Some(bytes@),
            Err(_) => lz4_decompressed(data@) is None,
        },
{
    lz4_flex::block::decompress_size_prepended(data)
}

/// `sha2::Sha256` computes the digest of the data, which depends on the data alone and has 32
/// bytes. The length of the data in bits is counted in 64 bits.
#[verifier::external_body]
fn sha256_digest(data: &[u8]) -> (r: Vec<u8>)
    requires
        data@.len() < 0x2000_0000_0000_0000,
    ensures
        r@ == sha256(data@),
        r@.len() == 32,
{
    let mut hasher = sha2::Sha256::new();
    hasher.update(data);
    hasher.finalize().to_vec()
}

/// `String::from_utf8` gives the text that the bytes encode, and fails where they are not UTF-8.
#[verifier::external_body]
pub(crate) fn text_from_utf8(bytes: Vec<u8>) -> (r: Option<String>)
    ensures
        match r {
            Some(s) => valid_utf8(bytes@) && s@ == decode_utf8(bytes@),
            None => !valid_utf8(bytes@),
        },
{
    String::from_utf8(bytes).ok()
}

/// Why the text of a document cannot be had.
#[derive(Debug, Clone, Copy, PartialEq, Eq, Structural)]
pub enum DocumentError {
    /// The compressed data is not sound.
    Decompression,
    /// What it stands for is not UTF-8.
    Utf8,
}

/// The text that some compressed data stands for.
pub open spec fn decompressed_text(data: Seq<u8>) -> Result<Seq<char>, DocumentError> {
    match lz4_decompressed(data) {
        None => Err(DocumentError::Decompression),
        Some(bytes) => if valid_utf8(bytes) {
            Ok(decode_utf8(bytes))
        } else {
            Err(DocumentError::Utf8)
        },
    }
}

/// The text that some compressed data stands for.
pub fn decompress_text(data: &[u8]) -> (r: Result<String, DocumentError>)
    requires
        moderate(data@) || lz4_decompressed(data@) is Some,
    ensures
        match r {
            Ok(s) => decompressed_text(data@) == Ok::<Seq<char>, DocumentError>(s@),
            Err(e) => decompressed_text(data@) == Err::<Seq<char>, DocumentError>(e),
        },
{
    match lz4_decompress(data) {
        Err(_) => Err(DocumentError::Decompression),
        Ok(bytes) => match text_from_utf8(bytes) {
            Some(s) => Ok(s),
            None => Err(DocumentError::Utf8),
        },
    }
}

/// The digit for a number below sixteen, with letters in lower case.
pub open spec fn hex_digit(n: int) -> char {
    if n < 10 {
        (n + 48) as char
    } else {
        (n + 87) as char
    }
}

/// Two digits for each byte.
pub open spec fn hex_of(bytes: Seq<u8>) -> Seq<char> {
    Seq::new(
        2 * bytes.len(),
        |i: int|
            if i % 2 == 0 {
                hex_digit(bytes[i / 2] as int / 16)
            } else {
                hex_digit(bytes[i / 2] as int % 16)
            },
    )
}

fn digit_of(n: u8) -> (c: char)
    requires
        n < 16,
    ensures
        c == hex_digit(n as int),
{
    if n < 10 {
        (n + 48) as char
    } else {
        (n + 87) as char
    }
}

/// Two digits for each byte.
pub fn hex_text(bytes: &Vec<u8>) -> (s: String)
    ensures
        s@ == hex_of(bytes@),
{
    let mut s: String = String::new();
    let mut i: usize = 0;
    while i < bytes.len()
        invariant
            i <= bytes@.len(),
            s@ == hex_of(bytes@.take(i as int)),
        decreases bytes@.len() - i,
    {
        let b: u8 = bytes[i];
        s.push(digit_of(b / 16));
        s.push(digit_of(b % 16));
        i += 1;
        assert(s@ =~= hex_of(bytes@.take(i as int)));
    }
    assert(bytes@.take(bytes@.len() as int) =~= bytes@);
    s
}

/// The checksum of a text: the SHA-256 digest of its UTF-8, in hexadecimal.
pub open spec fn checksum_of(content: Seq<char>) -> Seq<char> {
    hex_of(sha256(encode_utf8(content)))
}

/// A text that fits in a compressed document, whose size is written in 32 bits.
pub open spec fn storable(content: Seq<char>) -> bool {
    let size = encode_utf8(content).len();
    size <= u32::MAX && size * 110 <= usize::MAX
}

/// Whether a text fits in a compressed document.
pub fn is_storable(content: &str) -> (r: bool)
    ensures
        r == storable(content@),
{
    let size: usize = content.as_bytes().len();
    size <= 0xffff_ffff && size <= usize::MAX / 110
}

/// A document whose text is compressed, with the checksum of the text.
#[derive(Debug)]
pub struct CompressedDocument {
    compressed_data: Vec<u8>,
    checksum: String,
}

/// What a compressed document holds.
pub struct DocumentView {
    pub data: Seq<u8>,
    pub checksum: Seq<char>,
}

impl DocumentView {
    /// Whether the document holds the given text.
    pub open spec fn holds(self, content: Seq<char>) -> bool {
        &&& decompressed_text(self.data) == Ok::<Seq<char>, DocumentError>(content)
        &&& self.checksum == checksum_of(content)
    }

    /// The text of the document.
    pub open spec fn content(self) -> Seq<char> {
        decompressed_text(self.data)->Ok_0
    }

    /// Whether the document holds some text.
    pub open spec fn sound(self) -> bool {
        self.holds(self.content())
    }
}

impl View for CompressedDocument {
    type V = DocumentView;

    closed spec fn view(&self) -> DocumentView {
        DocumentView { data: self.compressed_data@, checksum: self.checksum@ }
    }
}

impl CompressedDocument {
    #[verifier::type_invariant]
    spec fn well_formed(self) -> bool {
        self@.sound()
    }

    /// The document with the given text.
    pub fn compress_document(content: &str) -> (doc: CompressedDocument)
        requires
            storable(content@),
        ensures
            doc@.holds(content@),
            doc@.checksum.len() == 64,
    {
        broadcast use {encode_utf8_valid_utf8, encode_utf8_decode_utf8};

        let bytes: &[u8] = content.as_bytes();
        let compressed_data: Vec<u8> = lz4_compress(bytes);
        let checksum: String = hex_text(&sha256_digest(bytes));
        assert(decompressed_text(compressed_data@) == Ok::<Seq<char>, DocumentError>(content@));
        CompressedDocument { compressed_data, checksum }
    }

    /// The text of the document. It can always be had.
    pub fn decompress_document(&self) -> (r: Result<String, DocumentError>)
        ensures
            r matches Ok(s) && self@.holds(s@),
    {
        proof {
            use_type_invariant(self);
        }
        decompress_text(&self.compressed_data)
    }

    /// The size of the compressed data.
    pub fn compressed_size(&self) -> (n: usize)
        ensures
            n == self@.data.len(),
    {
        self.compressed_data.len()
    }

    /// The checksum of the text.
    pub fn checksum(&self) -> (s: &str)
        ensures
            s@ == self@.checksum,
    {
        &self.checksum
    }
}

/// The number that a hexadecimal digit stands for; -1 where it is none.
pub open spec fn digit_value(c: char) -> int {
    if '0' <= c <= '9' {
        c as int - '0' as int
    } else if 'a' <= c <= 'f' {
        c as int - 'a' as int + 10
    } else {
        -1
    }
}

/// Two hexadecimal digits stand for each byte, the greater one first, so that the bytes can be read
/// back.
pub proof fn law_hexadecimal_reads_back(bytes: Seq<u8>, i: int)
    requires
        0 <= i < bytes.len(),
    ensures
        hex_of(bytes).len() == 2 * bytes.len(),
        0 <= digit_value(hex_of(bytes)[2 * i]) < 16,
        0 <= digit_value(hex_of(bytes)[2 * i + 1]) < 16,
        16 * digit_value(hex_of(bytes)[2 * i]) + digit_value(hex_of(bytes)[2 * i + 1]) == bytes[i],
{
    let b = bytes[i] as int;
    assert((2 * i) / 2 == i && (2 * i) % 2 == 0);
    assert((2 * i + 1) / 2 == i && (2 * i + 1) % 2 == 1);
    assert(hex_of(bytes)[2 * i] == hex_digit(b / 16));
    assert(hex_of(bytes)[2 * i + 1] == hex_digit(b % 16));
}

/// The checksum of a text is that of its bytes, and texts with the same bytes have the same one.
pub proof fn law_checksum_is_that_of_the_bytes(content: Seq<char>)
    ensures
        checksum_of(content) == hex_of(sha256(encode_utf8(content))),
{
}

/// A document holds one text at most, under the checksum of that text.
pub proof fn law_document_holds_one_text(doc: DocumentView, a: Seq<char>, b: Seq<char>)
    requires
        doc.holds(a),
        doc.holds(b),
    ensures
        a == b,
        doc.content() == a,
        doc.checksum == checksum_of(a),
        lz4_decompressed(doc.data) is Some,
        valid_utf8(lz4_decompressed(doc.data)->0),
        decode_utf8(lz4_decompressed(doc.data)->0) == a,
{
}

} // verus!

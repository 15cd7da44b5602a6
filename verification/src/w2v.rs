//! The word2vec binary format: a header `"<words> <dimension>\n"` followed,
//! for each word, by the word, a space and `dimension` little-endian 32-bit
//! values. The values are kept as their raw bits (`u32`); a caller that wants
//! floating-point numbers converts them with `f32::from_bits`.
use vstd::prelude::*;
use vstd::utf8::*;
use byteorder::ReadBytesExt;
use crate::text::{
    all_digits, decimal_text, is_ascii_digit, lemma_decimal_digits, lemma_decimal_roundtrip,
    parse_usize, trim_white, trimmed, usize_parse_error_text, usize_text_value, utf8_error_text,
    utf8_lossy_text, utf8_to_string, utf8_to_string_lossy,
};

verus! {

#[verifier::external_type_specification]
#[verifier::external_body]
pub struct ExIoError(std::io::Error);

#[verifier::external_type_specification]
#[verifier::external_body]
pub struct ExTryReserveError(hashbrown::TryReserveError);

// ---------------------------------------------------------------------------
// Errors
// ---------------------------------------------------------------------------

/// Errors of reading a word2vec file.
#[non_exhaustive]
#[derive(Debug)]
pub enum Error {
    /// The file's content does not follow the format; the text says how.
    Format(String),
    /// The file could not be opened.
    Open { path: String, error: std::io::Error },
    /// Reading failed; `desc` says what was being read.
    Read { desc: String, error: std::io::Error },
}

impl Error {
    /// The error for a file at `path` that could not be opened.
    pub fn open_error(path: String, error: std::io::Error) -> (e: Error)
        ensures
            e == (Error::Open { path, error }),
    {
        Error::Open { path, error }
    }

    /// The error for a read, described by `desc`, that failed.
    pub fn read_error(desc: String, error: std::io::Error) -> (e: Error)
        ensures
            e == (Error::Read { desc, error }),
    {
        Error::Read { desc, error }
    }

    /// The message of the error: `"Invalid file format <text>"`,
    /// `"Failed open file <path>"`, or the description of the failed read.
    pub fn message(&self) -> (m: String)
        ensures
            m@ == match self {
                Error::Format(text) => "Invalid file format "@ + text@,
                Error::Open { path, .. } => "Failed open file "@ + path@,
                Error::Read { desc, .. } => desc@,
            },
    {
        match self {
            Error::Format(text) => {
                let mut m = String::from_str("Invalid file format ");
                m.append(text.as_str());
                m
            },
            Error::Open { path, .. } => {
                let mut m = String::from_str("Failed open file ");
                m.append(path.as_str());
                m
            },
            Error::Read { desc, .. } => desc.clone(),
        }
    }
}

// ---------------------------------------------------------------------------
// Reading from a byte buffer
// ---------------------------------------------------------------------------

/// A buffered reader over bytes held in memory; its view is what is left
/// to read.
pub struct ByteReader {
    data: Vec<u8>,
    pos: usize,
}

impl View for ByteReader {
    type V = Seq<u8>;

    closed spec fn view(&self) -> Seq<u8> {
        self.data@.skip(self.pos as int)
    }
}

impl ByteReader {
    #[verifier::type_invariant]
    spec fn inv(self) -> bool {
        self.pos <= self.data.len()
    }

    /// A reader positioned at the start of `data`.
    pub fn new(data: Vec<u8>) -> (r: ByteReader)
        ensures
            r@ == data@,
    {
        let r = ByteReader { data, pos: 0 };
        assert(r.data@.skip(0) =~= r.data@);
        r
    }

    /// The bytes left to read.
    fn rest(&self) -> (r: &[u8])
        ensures
            r@ == self@,
    {
        proof {
            use_type_invariant(self);
        }
        let (_, tail) = self.data.as_slice().split_at(self.pos);
        tail
    }

    /// Skips `n` bytes.
    fn advance(&mut self, n: usize)
        requires
            n <= old(self)@.len(),
        ensures
            final(self)@ == old(self)@.skip(n as int),
    {
        proof {
            use_type_invariant(&*self);
        }
        self.pos = self.pos + n;
        assert(self.data@.skip(self.pos as int) =~= old(self).data@.skip(old(self).pos as int).skip(
            n as int,
        ));
    }

    /// Reads up to and including the first `delim` byte, or to the end when
    /// there is none (what `BufRead::read_until` reads).
    fn read_until(&mut self, delim: u8) -> (chunk: Vec<u8>)
        ensures
            chunk@ == old(self)@.take(chunk_len(old(self)@, delim) as int),
            final(self)@ == old(self)@.skip(chunk_len(old(self)@, delim) as int),
    {
        proof {
            use_type_invariant(&*self);
        }
        let ghost s = self@;
        let start = self.pos;
        let len = self.data.len();
        let mut i = start;
        while i < len && self.data[i] != delim
            invariant
                start <= i <= len,
                len == self.data.len(),
                start == self.pos,
                s == self.data@.skip(start as int),
                forall|j: int| start <= j < i ==> self.data@[j] != delim,
            decreases len - i,
        {
            i = i + 1;
        }
        let end = if i < len {
            i + 1
        } else {
            i
        };
        proof {
            let k = (i - start) as int;
            assert forall|j: int| 0 <= j < k implies s[j] != delim by {
                assert(s[j] == self.data@[start + j]);
            }
            lemma_chunk_len_prefix(s, delim, k);
            let t = s.skip(k);
            if i < len {
                assert(t[0] == self.data@[i as int]);
                assert(chunk_len(t, delim) == 1);
            } else {
                assert(t.len() == 0);
            }
        }
        let mut chunk: Vec<u8> = Vec::new();
        let mut j = start;
        while j < end
            invariant
                start <= j <= end <= len,
                len == self.data.len(),
                start == self.pos,
                chunk@ == self.data@.subrange(start as int, j as int),
            decreases end - j,
        {
            chunk.push(self.data[j]);
            j = j + 1;
            assert(chunk@ =~= self.data@.subrange(start as int, j as int));
        }
        self.pos = end;
        proof {
            assert(chunk@ =~= s.take(chunk_len(s, delim) as int));
            assert(self.data@.skip(end as int) =~= s.skip(chunk_len(s, delim) as int));
        }
        chunk
    }
}

/// How many bytes `read_until(delim)` takes from `s`: up to and including
/// the first `delim`, or all of `s` when there is none.
pub open spec fn chunk_len(s: Seq<u8>, delim: u8) -> nat
    decreases s.len(),
{
    if s.len() == 0 {
        0
    } else if s[0] == delim {
        1
    } else {
        1 + chunk_len(s.drop_first(), delim)
    }
}

/// The field read before `delim`: what `read_until` takes, without its last
/// byte (the delimiter, or the last byte of the input when there is none).
pub open spec fn field_of(s: Seq<u8>, delim: u8) -> Seq<u8> {
    let chunk = s.take(chunk_len(s, delim) as int);
    if chunk.len() == 0 {
        chunk
    } else {
        chunk.drop_last()
    }
}

/// What is left after the field and its delimiter.
pub open spec fn after_field(s: Seq<u8>, delim: u8) -> Seq<u8> {
    s.skip(chunk_len(s, delim) as int)
}

pub proof fn lemma_chunk_len_bound(s: Seq<u8>, delim: u8)
    ensures
        chunk_len(s, delim) <= s.len(),
    decreases s.len(),
{
    if s.len() > 0 && s[0] != delim {
        lemma_chunk_len_bound(s.drop_first(), delim);
    }
}

proof fn lemma_chunk_len_prefix(s: Seq<u8>, delim: u8, k: int)
    requires
        0 <= k <= s.len(),
        forall|j: int| 0 <= j < k ==> s[j] != delim,
    ensures
        chunk_len(s, delim) == k + chunk_len(s.skip(k), delim),
    decreases k,
{
    if k == 0 {
        assert(s.skip(0) =~= s);
    } else {
        let t = s.drop_first();
        assert forall|j: int| 0 <= j < k - 1 implies t[j] != delim by {
            assert(t[j] == s[j + 1]);
        }
        lemma_chunk_len_prefix(t, delim, k - 1);
        assert(t.skip(k - 1) =~= s.skip(k));
    }
}

/// The text of the error for a token that is not valid UTF-8.
pub open spec fn invalid_utf8_message(field: Seq<u8>) -> Seq<char> {
    "Token contains invalid UTF-8: "@ + utf8_error_text(field)
}

/// The text of the error for a header field that is not a number.
pub open spec fn shape_message(field: Seq<char>) -> Seq<char> {
    "Cannot parse shape component '"@ + field + "': "@ + usize_parse_error_text(field)
}

/// Reads the string that ends at the next `delim` (or at the end of the
/// input), and decodes it as UTF-8: strictly, or replacing invalid sequences
/// when `lossy`.
pub fn read_string(reader: &mut ByteReader, delim: u8, lossy: bool) -> (r: Result<String, Error>)
    ensures
        final(reader)@ == after_field(old(reader)@, delim),
        lossy ==> (r matches Ok(s) && s@ == utf8_lossy_text(field_of(old(reader)@, delim))),
        lossy && valid_utf8(field_of(old(reader)@, delim)) ==> (r matches Ok(s) && s@
            == decode_utf8(field_of(old(reader)@, delim))),
        !lossy && valid_utf8(field_of(old(reader)@, delim)) ==> (r matches Ok(s) && s@
            == decode_utf8(field_of(old(reader)@, delim))),
        !lossy && !valid_utf8(field_of(old(reader)@, delim)) ==> (r matches Err(Error::Format(m))
            && m@ == invalid_utf8_message(field_of(old(reader)@, delim))),
{
    let mut buf = reader.read_until(delim);
    buf.pop();
    if lossy {
        Ok(utf8_to_string_lossy(buf.as_slice()))
    } else {
        match utf8_to_string(buf) {
            Ok(s) => Ok(s),
            Err(e) => {
                let mut m = String::from_str("Token contains invalid UTF-8: ");
                m.append(e.as_str());
                Err(Error::Format(m))
            },
        }
    }
}

/// What `read_number` gives for input `s`: the number, or the text of the
/// format error.
pub open spec fn number_model(s: Seq<u8>, delim: u8) -> Result<nat, Seq<char>> {
    let f = field_of(s, delim);
    if !valid_utf8(f) {
        Err(invalid_utf8_message(f))
    } else {
        match usize_text_value(decode_utf8(f)) {
            Some(n) => Ok(n),
            None => Err(shape_message(decode_utf8(f))),
        }
    }
}

/// Reads the decimal number that ends at the next `delim`.
pub fn read_number(reader: &mut ByteReader, delim: u8) -> (r: Result<usize, Error>)
    ensures
        final(reader)@ == after_field(old(reader)@, delim),
        number_model(old(reader)@, delim) matches Ok(n) ==> r == Ok::<usize, Error>(n as usize),
        number_model(old(reader)@, delim) matches Err(msg) ==> (r matches Err(Error::Format(m))
            && m@ == msg),
{
    let field_str = match read_string(reader, delim, false) {
        Ok(s) => s,
        Err(e) => return Err(e),
    };
    match parse_usize(field_str.as_str()) {
        Ok(n) => Ok(n),
        Err(e) => {
            let mut m = String::from_str("Cannot parse shape component '");
            m.append(field_str.as_str());
            m.append("': ");
            m.append(e.as_str());
            Err(Error::Format(m))
        },
    }
}

/// A number written in decimal and ended by a delimiter that is not a digit
/// is read back as that number, and the reader stops right after the
/// delimiter.
pub proof fn lemma_read_number_roundtrip(n: usize, delim: u8, rest: Seq<u8>)
    requires
        !(48 <= delim <= 57),
    ensures
        ({
            let s = encode_utf8(decimal_text(n as nat)) + seq![delim] + rest;
            &&& number_model(s, delim) == Ok::<nat, Seq<char>>(n as nat)
            &&& after_field(s, delim) == rest
        }),
{
    let t = decimal_text(n as nat);
    let e = encode_utf8(t);
    let s = e + seq![delim] + rest;
    lemma_decimal_is_ascii(n as nat);
    is_ascii_chars_encode_utf8(t);
    assert(e =~= Seq::new(t.len(), |i| t[i] as u8));
    assert forall|j: int| 0 <= j < e.len() implies s[j] != delim by {
        assert(s[j] == e[j]);
        assert(is_ascii_digit(t[j]));
    }
    lemma_chunk_len_prefix(s, delim, e.len() as int);
    assert(s.skip(e.len() as int)[0] == delim);
    assert(chunk_len(s.skip(e.len() as int), delim) == 1);
    assert(s.take(chunk_len(s, delim) as int).drop_last() =~= e);
    assert(s.skip(chunk_len(s, delim) as int) =~= rest);
    encode_utf8_valid_utf8(t);
    encode_utf8_decode_utf8(t);
    lemma_decimal_roundtrip(n);
}

proof fn lemma_decimal_is_ascii(n: nat)
    ensures
        is_ascii_chars(decimal_text(n)),
        all_digits(decimal_text(n)),
{
    lemma_decimal_digits(n);
    let t = decimal_text(n);
    assert forall|i: int| 0 <= i < t.len() implies '\0' <= #[trigger] t[i] <= '\u{7f}' by {
        assert(is_ascii_digit(t[i]));
    }
}

// ---------------------------------------------------------------------------
// The table of embeddings
// ---------------------------------------------------------------------------

/// Embeddings by word, held in a `hashbrown::HashMap<String, Vec<u32>>`.
#[verifier::external_body]
pub struct EmbeddingTable {
    map: hashbrown::HashMap<String, Vec<u32>>,
}

/// The words of a table and the raw bits of their vectors.
pub uninterp spec fn table_contents(t: EmbeddingTable) -> Map<Seq<char>, Seq<u32>>;

/// Calls `hashbrown::HashMap::new`: an empty map.
#[verifier::external_body]
fn table_new() -> (r: EmbeddingTable)
    ensures
        table_contents(r) =~= Map::empty(),
{
    EmbeddingTable { map: hashbrown::HashMap::new() }
}

/// Calls `hashbrown::HashMap::try_reserve`: makes room for `additional` more
/// entries or reports why it could not, together with the count that was
/// asked for; the contents stay as they were either way. Whether it succeeds
/// depends on the allocator and is not stated.
#[verifier::external_body]
fn table_try_reserve(t: &mut EmbeddingTable, additional: usize) -> (r: Result<
    (),
    (usize, hashbrown::TryReserveError),
>)
    ensures
        table_contents(*final(t)) == table_contents(*old(t)),
        r matches Err((n, _)) ==> n == additional,
{
    match t.map.try_reserve(additional) {
        Ok(()) => Ok(()),
        Err(e) => Err((additional, e)),
    }
}

/// Calls `hashbrown::HashMap::insert`: maps `k` to `v`, replacing and
/// returning the value that `k` had.
#[verifier::external_body]
fn table_insert(t: &mut EmbeddingTable, k: String, v: Vec<u32>) -> (r: Option<Vec<u32>>)
    ensures
        table_contents(*final(t)) == table_contents(*old(t)).insert(k@, v@),
        r is Some <==> table_contents(*old(t)).contains_key(k@),
        r matches Some(prev) ==> prev@ == table_contents(*old(t))[k@],
{
    t.map.insert(k, v)
}

/// Calls `hashbrown::HashMap::into_iter` and collects the pairs into a `Vec`:
/// every entry once, in an order that the hasher decides.
#[verifier::external_body]
fn table_into_vec(t: EmbeddingTable) -> (r: Vec<(String, Vec<u32>)>)
    ensures
        r@.len() == table_contents(t).len(),
        forall|i: int, j: int| 0 <= i < j < r@.len() ==> r@[i].0@ != r@[j].0@,
        forall|i: int|
            0 <= i < r@.len() ==> table_contents(t).contains_key(#[trigger] r@[i].0@)
                && table_contents(t)[r@[i].0@] == r@[i].1@,
{
    t.map.into_iter().collect()
}

impl EmbeddingTable {
    /// The entries of the table, each word once, in no particular order.
    pub fn into_entries(self) -> (r: Vec<(String, Vec<u32>)>)
        ensures
            r@.len() == table_contents(self).len(),
            forall|i: int, j: int| 0 <= i < j < r@.len() ==> r@[i].0@ != r@[j].0@,
            forall|i: int|
                0 <= i < r@.len() ==> table_contents(self).contains_key(#[trigger] r@[i].0@)
                    && table_contents(self)[r@[i].0@] == r@[i].1@,
    {
        table_into_vec(self)
    }
}

// ---------------------------------------------------------------------------
// Decoding the vectors
// ---------------------------------------------------------------------------

/// The little-endian 32-bit value in the four bytes of `s` from `k` on.
pub open spec fn le_u32(s: Seq<u8>, k: int) -> u32 {
    (s[k] as int + s[k + 1] as int * 0x100 + s[k + 2] as int * 0x1_0000 + s[k + 3] as int
        * 0x100_0000) as u32
}

/// The first `n` little-endian 32-bit values of `s`.
pub open spec fn le_words(s: Seq<u8>, n: nat) -> Seq<u32> {
    Seq::new(n, |i: int| le_u32(s, 4 * i))
}

/// Calls `byteorder::ReadBytesExt::read_u32_into::<LittleEndian>` on a byte
/// slice. Its documentation: the buffer is filled completely or an error is
/// returned, with the errors of `Read::read_exact` (which, on a slice, fails
/// exactly when the slice is shorter than the buffer).
#[verifier::external_body]
fn read_u32_le_into(src: &[u8], dst: &mut Vec<u32>) -> (r: Result<(), std::io::Error>)
    ensures
        final(dst)@.len() == old(dst)@.len(),
        r is Ok <==> src@.len() >= 4 * old(dst)@.len(),
        r is Ok ==> final(dst)@ == le_words(src@, old(dst)@.len()),
{
    let mut reader = src;
    reader.read_u32_into::<byteorder::LittleEndian>(dst.as_mut_slice())
}

// ---------------------------------------------------------------------------
// Reading a whole file
// ---------------------------------------------------------------------------

/// What reading a word2vec file comes to.
pub enum W2vLoad {
    /// Every entry was read.
    Loaded(EmbeddingTable),
    /// Room for the announced number of words (the count given) could not
    /// be reserved; the table was never filled.
    ReserveFailed(usize, hashbrown::TryReserveError),
}

/// The outcome that the format prescribes for a file, as plain values.
pub enum W2vModel {
    Table(Map<Seq<char>, Seq<u32>>),
    FormatError(Seq<char>),
    ReadError(Seq<char>),
    NormalizeUnsupported,
}

/// The outcome of reading `k` more entries of `dim` values from `s` into a
/// table that already holds `acc`.
pub open spec fn entries_model(
    s: Seq<u8>,
    k: nat,
    dim: nat,
    normalize: bool,
    acc: Map<Seq<char>, Seq<u32>>,
) -> W2vModel
    decreases k,
{
    if k == 0 {
        W2vModel::Table(acc)
    } else {
        let f = field_of(s, 0x20);
        let rest = after_field(s, 0x20);
        if !valid_utf8(f) {
            W2vModel::FormatError(invalid_utf8_message(f))
        } else if rest.len() < 4 * dim {
            W2vModel::ReadError("Cannot read word embedding"@)
        } else if normalize {
            W2vModel::NormalizeUnsupported
        } else {
            entries_model(
                rest.skip((4 * dim) as int),
                (k - 1) as nat,
                dim,
                normalize,
                acc.insert(trimmed(decode_utf8(f)), le_words(rest, dim)),
            )
        }
    }
}

/// The header `"<words> <dimension>\n"` reads as two numbers.
pub open spec fn header_ok(s: Seq<u8>) -> bool {
    &&& number_model(s, 0x20) is Ok
    &&& number_model(after_field(s, 0x20), 0x0a) is Ok
}

/// The outcome that the format prescribes for the bytes `s` of a file: the
/// header, then as many entries as it announces; a later entry for a word
/// replaces an earlier one.
pub open spec fn w2v_model(s: Seq<u8>, normalize: bool) -> W2vModel {
    match number_model(s, 0x20) {
        Err(m) => W2vModel::FormatError(m),
        Ok(voc) => {
            let s1 = after_field(s, 0x20);
            match number_model(s1, 0x0a) {
                Err(m) => W2vModel::FormatError(m),
                Ok(dim) => entries_model(after_field(s1, 0x0a), voc, dim, normalize, Map::empty()),
            }
        },
    }
}

/// `r` is the outcome `m`.
pub open spec fn load_matches(r: Result<W2vLoad, Error>, m: W2vModel) -> bool {
    match m {
        W2vModel::Table(t) => r matches Ok(W2vLoad::Loaded(tbl)) && table_contents(tbl) == t,
        W2vModel::FormatError(msg) => r matches Err(Error::Format(x)) && x@ == msg,
        W2vModel::ReadError(desc) => r matches Err(Error::Read { desc: d, .. }) && d@ == desc,
        W2vModel::NormalizeUnsupported => false,
    }
}

/// Reads the embeddings of a word2vec file whose content is `bytes`.
/// Normalising is not supported: with `normalize` set, a file whose first
/// entry can be read is not accepted (see `first_entry_readable`).
pub fn read_w2v_bytes(bytes: Vec<u8>, normalize: bool) -> (r: Result<W2vLoad, Error>)
    requires
        !(w2v_model(bytes@, normalize) is NormalizeUnsupported),
    ensures
        r matches Ok(W2vLoad::ReserveFailed(n, _)) ==> header_ok(bytes@) && number_model(
            bytes@,
            0x20,
        ) == Ok::<nat, Seq<char>>(n as nat),
        !(r matches Ok(W2vLoad::ReserveFailed(_, _))) ==> load_matches(
            r,
            w2v_model(bytes@, normalize),
        ),
{
    let ghost s0 = bytes@;
    let mut reader = ByteReader::new(bytes);
    let voc_size = match read_number(&mut reader, 0x20u8) {
        Ok(n) => n,
        Err(e) => return Err(e),
    };
    let dim = match read_number(&mut reader, 0x0au8) {
        Ok(n) => n,
        Err(e) => return Err(e),
    };
    let mut dict = table_new();
    match table_try_reserve(&mut dict, voc_size) {
        Ok(()) => {},
        Err((n, e)) => return Ok(W2vLoad::ReserveFailed(n, e)),
    }
    let mut idx: usize = 0;
    while idx < voc_size
        invariant
            idx <= voc_size,
            idx > 0 ==> !normalize,
            s0 == bytes@,
            !(w2v_model(s0, normalize) is NormalizeUnsupported),
            w2v_model(s0, normalize) == entries_model(
                reader@,
                (voc_size - idx) as nat,
                dim as nat,
                normalize,
                table_contents(dict),
            ),
        decreases voc_size - idx,
    {
        let ghost s = reader@;
        let word = match read_string(&mut reader, 0x20u8, false) {
            Ok(w) => w,
            Err(e) => {
                assert(!valid_utf8(field_of(s, 0x20)));
                return Err(e);
            },
        };
        let word = trim_white(word.as_str());
        let mut embedding: Vec<u32> = vec![0u32; dim];
        let rest = reader.rest();
        let rest_len = rest.len();
        match read_u32_le_into(rest, &mut embedding) {
            Ok(()) => {},
            Err(e) => {
                let desc = String::from_str("Cannot read word embedding");
                return Err(Error::read_error(desc, e));
            },
        }
        reader.advance(dim * 4);
        table_insert(&mut dict, word.to_owned(), embedding);
        idx = idx + 1;
    }
    Ok(W2vLoad::Loaded(dict))
}

/// Whether the header of `bytes` announces at least one word and the first
/// entry can be read: then reading with `normalize` set is not accepted.
pub fn first_entry_readable(bytes: &Vec<u8>) -> (r: bool)
    ensures
        r == (w2v_model(bytes@, true) is NormalizeUnsupported),
{
    let mut reader = ByteReader::new(bytes.clone());
    let voc_size = match read_number(&mut reader, 0x20u8) {
        Ok(n) => n,
        Err(_) => return false,
    };
    let dim = match read_number(&mut reader, 0x0au8) {
        Ok(n) => n,
        Err(_) => return false,
    };
    if voc_size == 0 {
        return false;
    }
    let ghost s = reader@;
    match read_string(&mut reader, 0x20u8, false) {
        Ok(_) => {},
        Err(_) => return false,
    }
    let rest = reader.rest();
    assert(rest@ == after_field(s, 0x20));
    rest.len() / 4 >= dim
}

// ---------------------------------------------------------------------------
// Writing a file and reading it back
// ---------------------------------------------------------------------------

/// The four little-endian bytes of `x`.
pub open spec fn u32_le_bytes(x: u32) -> Seq<u8> {
    seq![
        (x & 0xff) as u8,
        ((x >> 8u32) & 0xff) as u8,
        ((x >> 16u32) & 0xff) as u8,
        ((x >> 24u32) & 0xff) as u8,
    ]
}

/// The bytes of a vector: its values in little-endian order.
pub open spec fn vector_bytes(v: Seq<u32>) -> Seq<u8>
    decreases v.len(),
{
    if v.len() == 0 {
        Seq::empty()
    } else {
        u32_le_bytes(v[0]) + vector_bytes(v.drop_first())
    }
}

/// The entries of a file: each word, a space and its vector.
pub open spec fn entries_bytes(words: Seq<Seq<char>>, vectors: Seq<Seq<u32>>) -> Seq<u8>
    decreases words.len(),
{
    if words.len() == 0 {
        Seq::empty()
    } else {
        encode_utf8(words[0]) + seq![0x20u8] + vector_bytes(vectors[0]) + entries_bytes(
            words.drop_first(),
            vectors.drop_first(),
        )
    }
}

/// A whole file: the header `"<words> <dim>\n"` and the entries.
pub open spec fn w2v_file_bytes(words: Seq<Seq<char>>, vectors: Seq<Seq<u32>>, dim: nat) -> Seq<
    u8,
> {
    encode_utf8(decimal_text(words.len())) + seq![0x20u8] + encode_utf8(decimal_text(dim)) + seq![
        0x0au8,
    ] + entries_bytes(words, vectors)
}

/// The table that the entries make when inserted in order into `acc`, each
/// word trimmed.
pub open spec fn table_of(
    words: Seq<Seq<char>>,
    vectors: Seq<Seq<u32>>,
    acc: Map<Seq<char>, Seq<u32>>,
) -> Map<Seq<char>, Seq<u32>>
    decreases words.len(),
{
    if words.len() == 0 {
        acc
    } else {
        table_of(words.drop_first(), vectors.drop_first(), acc.insert(trimmed(words[0]), vectors[0]))
    }
}

proof fn lemma_u32_le_roundtrip(x: u32)
    ensures
        le_u32(u32_le_bytes(x), 0) == x,
{
    let b = u32_le_bytes(x);
    let b0 = (x & 0xff) as u8;
    let b1 = ((x >> 8u32) & 0xff) as u8;
    let b2 = ((x >> 16u32) & 0xff) as u8;
    let b3 = ((x >> 24u32) & 0xff) as u8;
    assert(b0 as u32 + (b1 as u32) * 0x100 + (b2 as u32) * 0x1_0000 + (b3 as u32) * 0x100_0000 == x)
        by (bit_vector)
        requires
            b0 == (x & 0xff) as u8,
            b1 == ((x >> 8u32) & 0xff) as u8,
            b2 == ((x >> 16u32) & 0xff) as u8,
            b3 == ((x >> 24u32) & 0xff) as u8,
    ;
    assert(b[0] == b0 && b[1] == b1 && b[2] == b2 && b[3] == b3);
}

proof fn lemma_vector_bytes(v: Seq<u32>)
    ensures
        vector_bytes(v).len() == 4 * v.len(),
        forall|i: int, k: int|
            0 <= i < v.len() && 0 <= k < 4 ==> #[trigger] vector_bytes(v)[4 * i + k]
                == u32_le_bytes(v[i])[k],
    decreases v.len(),
{
    if v.len() > 0 {
        let t = v.drop_first();
        lemma_vector_bytes(t);
        assert forall|i: int, k: int|
            0 <= i < v.len() && 0 <= k < 4 implies #[trigger] vector_bytes(v)[4 * i + k]
            == u32_le_bytes(v[i])[k] by {
            if i > 0 {
                assert(vector_bytes(v)[4 * i + k] == vector_bytes(t)[4 * (i - 1) + k]);
                assert(v[i] == t[i - 1]);
            }
        }
    }
}

proof fn lemma_le_words_of_vector(v: Seq<u32>, rest: Seq<u8>)
    ensures
        le_words(vector_bytes(v) + rest, v.len()) == v,
{
    lemma_vector_bytes(v);
    let s = vector_bytes(v) + rest;
    assert forall|i: int| 0 <= i < v.len() implies #[trigger] le_words(s, v.len())[i] == v[i] by {
        lemma_u32_le_roundtrip(v[i]);
        let b = u32_le_bytes(v[i]);
        assert(s[4 * i + 0] == b[0]);
        assert(s[4 * i + 1] == b[1]);
        assert(s[4 * i + 2] == b[2]);
        assert(s[4 * i + 3] == b[3]);
    }
    assert(le_words(s, v.len()) =~= v);
}

proof fn lemma_scalar_has_no_space(c: char)
    requires
        c != ' ',
    ensures
        forall|k: int| 0 <= k < encode_scalar(c as u32).len() ==> #[trigger] encode_scalar(c as u32)[k] != 0x20,
{
    let u = c as u32;
    assert(u != 0x20);
    assert(u <= 0x7f && u != 0x20 ==> (u & 0x7f) as u8 != 0x20u8) by (bit_vector);
    assert((0xC0u8 | ((u >> 6u32) & 0x1F) as u8) != 0x20u8) by (bit_vector);
    assert((0xE0u8 | ((u >> 12u32) & 0x0F) as u8) != 0x20u8) by (bit_vector);
    assert((0xF0u8 | ((u >> 18u32) & 0x7) as u8) != 0x20u8) by (bit_vector);
    assert((0x80u8 | (u & 0x3F) as u8) != 0x20u8) by (bit_vector);
    assert((0x80u8 | ((u >> 6u32) & 0x3F) as u8) != 0x20u8) by (bit_vector);
    assert((0x80u8 | ((u >> 12u32) & 0x3F) as u8) != 0x20u8) by (bit_vector);
}

proof fn lemma_encoding_has_no_space(w: Seq<char>)
    requires
        forall|j: int| 0 <= j < w.len() ==> w[j] != ' ',
    ensures
        forall|k: int| 0 <= k < encode_utf8(w).len() ==> #[trigger] encode_utf8(w)[k] != 0x20,
    decreases w.len(),
{
    if w.len() > 0 {
        let t = w.drop_first();
        lemma_encoding_has_no_space(t);
        lemma_scalar_has_no_space(w[0]);
        let a = encode_scalar(w[0] as u32);
        let e = encode_utf8(w);
        assert(e =~= a + encode_utf8(t));
        assert forall|k: int| 0 <= k < e.len() implies e[k] != 0x20 by {
            if k < a.len() {
                assert(e[k] == a[k]);
            } else {
                assert(e[k] == encode_utf8(t)[k - a.len()]);
            }
        }
    }
}

/// Reading the entries that `entries_bytes` wrote gives the table that they
/// make.
proof fn lemma_entries_roundtrip(
    words: Seq<Seq<char>>,
    vectors: Seq<Seq<u32>>,
    dim: nat,
    acc: Map<Seq<char>, Seq<u32>>,
)
    requires
        words.len() == vectors.len(),
        forall|i: int| 0 <= i < vectors.len() ==> (#[trigger] vectors[i]).len() == dim,
        forall|i: int, j: int|
            0 <= i < words.len() && 0 <= j < words[i].len() ==> (#[trigger] words[i][j]) != ' ',
    ensures
        entries_model(entries_bytes(words, vectors), words.len(), dim, false, acc) == W2vModel::Table(
            table_of(words, vectors, acc),
        ),
    decreases words.len(),
{
    if words.len() > 0 {
        let w = words[0];
        let v = vectors[0];
        let tail = entries_bytes(words.drop_first(), vectors.drop_first());
        let e = encode_utf8(w);
        let s = entries_bytes(words, vectors);
        assert forall|j: int| 0 <= j < w.len() implies w[j] != ' ' by {
            assert(words[0][j] == w[j]);
        }
        lemma_encoding_has_no_space(w);
        assert(s =~= e + seq![0x20u8] + (vector_bytes(v) + tail));
        assert forall|j: int| 0 <= j < e.len() implies s[j] != 0x20 by {
            assert(s[j] == e[j]);
        }
        lemma_chunk_len_prefix(s, 0x20, e.len() as int);
        assert(s.skip(e.len() as int)[0] == 0x20);
        assert(chunk_len(s.skip(e.len() as int), 0x20) == 1);
        assert(field_of(s, 0x20) =~= e);
        let rest = after_field(s, 0x20);
        assert(rest =~= vector_bytes(v) + tail);
        lemma_vector_bytes(v);
        lemma_le_words_of_vector(v, tail);
        encode_utf8_valid_utf8(w);
        encode_utf8_decode_utf8(w);
        assert(rest.skip((4 * dim) as int) =~= tail);
        let wt = words.drop_first();
        let vt = vectors.drop_first();
        assert forall|i: int| 0 <= i < vt.len() implies (#[trigger] vt[i]).len() == dim by {
            assert(vt[i] == vectors[i + 1]);
        }
        assert forall|i: int, j: int| 0 <= i < wt.len() && 0 <= j < wt[i].len() implies (
        #[trigger] wt[i][j]) != ' ' by {
            assert(wt[i] == words[i + 1]);
        }
        lemma_entries_roundtrip(wt, vt, dim, acc.insert(trimmed(w), v));
    }
}

/// What a file in the word2vec format holds is what reading it gives back:
/// for words without spaces and vectors of the announced dimension, the
/// table maps each (trimmed) word to the vector of its last entry.
pub proof fn lemma_w2v_write_read(words: Seq<Seq<char>>, vectors: Seq<Seq<u32>>, dim: usize)
    requires
        words.len() == vectors.len(),
        words.len() <= usize::MAX,
        forall|i: int| 0 <= i < vectors.len() ==> (#[trigger] vectors[i]).len() == dim,
        forall|i: int, j: int|
            0 <= i < words.len() && 0 <= j < words[i].len() ==> (#[trigger] words[i][j]) != ' ',
    ensures
        w2v_model(w2v_file_bytes(words, vectors, dim as nat), false) == W2vModel::Table(
            table_of(words, vectors, Map::empty()),
        ),
{
    let n = words.len() as usize;
    let body = entries_bytes(words, vectors);
    let s = w2v_file_bytes(words, vectors, dim as nat);
    let s1 = encode_utf8(decimal_text(dim as nat)) + seq![0x0au8] + body;
    assert(s =~= encode_utf8(decimal_text(n as nat)) + seq![0x20u8] + s1);
    lemma_read_number_roundtrip(n, 0x20, s1);
    lemma_read_number_roundtrip(dim, 0x0a, body);
    lemma_entries_roundtrip(words, vectors, dim as nat, Map::empty());
}

} // verus!

//! Start-up configuration: the settings file's values and the application
//! keys read from the secret file.
use vstd::prelude::*;
use vstd::utf8::{
    decode_utf8, encode_utf8, encode_scalar, is_ascii_chars, is_char_boundary, length_of_first_scalar,
    pop_first_scalar, valid_utf8,
};
use crate::text::{line_end, find_line_end};

verus! {

/// Settings read from the configuration file.
pub struct CC {
    /// Names of the lists to check; the empty name stands for the accounts followed.
    pub target_list: Vec<String>,
    /// Column separator of the output rows.
    pub separator: String,
    /// Whether rows are written to a file rather than printed.
    pub file_output: bool,
}

/// Everything the application needs to start.
pub struct AppConfig {
    pub cc: CC,
    pub consumer_key: String,
    pub consumer_secret: String,
}

/// Byte length of the label `consumerKey=` that starts the first line of the secret file.
pub const CONSUMER_KEY_LABEL_LEN: usize = 12;

/// Byte length of the label `consumerSecret=` that starts the second line of the secret file.
pub const CONSUMER_SECRET_LABEL_LEN: usize = 15;

/// What `String::from_utf8_lossy` makes of a byte sequence: each invalid
/// sequence replaced by U+FFFD.
pub uninterp spec fn utf8_lossy(bytes: Seq<u8>) -> Seq<char>;

/// Calls `String::from_utf8_lossy`. Claimed: the result is `utf8_lossy` of the
/// bytes, and valid UTF-8 comes back decoded unchanged, as std documents.
#[verifier::external_body]
fn decode_lossy(bytes: &[u8]) -> (s: String)
    ensures
        s@ == utf8_lossy(bytes@),
        vstd::utf8::valid_utf8(bytes@) ==> s@ == decode_utf8(bytes@),
{
    String::from_utf8_lossy(bytes).into_owned()
}

/// The text after the first `n` bytes of `line`'s UTF-8 encoding, or `None`
/// where `&line[n..]` panics (`n` past the end or inside a character).
pub open spec fn after_bytes(line: Seq<char>, n: int) -> Option<Seq<char>> {
    let bytes = encode_utf8(line);
    if is_char_boundary(bytes, n) {
        Some(decode_utf8(bytes.subrange(n, bytes.len() as int)))
    } else {
        None
    }
}

/// The first line of `text` (up to the first line feed).
pub open spec fn first_line(text: Seq<char>) -> Seq<char> {
    text.take(line_end(text) as int)
}

/// The text after the first line feed.
pub open spec fn after_first_line(text: Seq<char>) -> Seq<char> {
    text.skip(line_end(text) + 1int)
}

/// The consumer key and secret of a secret file's text: the first line
/// without its first 12 bytes and the second line without its first 15.
/// `None` where the original reading panics: no second line, or a line too
/// short or cut inside a character.
pub open spec fn spec_secret_keys(text: Seq<char>) -> Option<(Seq<char>, Seq<char>)> {
    if line_end(text) >= text.len() {
        None
    } else {
        match (
            after_bytes(first_line(text), CONSUMER_KEY_LABEL_LEN as int),
            after_bytes(first_line(after_first_line(text)), CONSUMER_SECRET_LABEL_LEN as int),
        ) {
            (Some(k), Some(s)) => Some((k, s)),
            _ => None,
        }
    }
}

/// `line` without its first `n` bytes, or `None` where that cut is not at a
/// character boundary.
pub fn skip_bytes(line: &str, n: usize) -> (r: Option<String>)
    ensures
        match r {
            Some(s) => after_bytes(line@, n as int) == Some(s@),
            None => after_bytes(line@, n as int) is None,
        },
{
    broadcast use vstd::utf8::encode_utf8_valid_utf8, vstd::utf8::encode_utf8_decode_utf8;
    if line.is_char_boundary(n) {
        let (_, tail) = line.split_at(n);
        let s = tail.to_owned();
        proof {
            assert(s@ == decode_utf8(encode_utf8(tail@)));
        }
        Some(s)
    } else {
        None
    }
}

/// Reads the consumer key and secret out of the secret file's text.
pub fn secret_keys(text: &str) -> (r: Option<(String, String)>)
    ensures
        match r {
            Some((k, s)) => spec_secret_keys(text@) == Some((k@, s@)),
            None => spec_secret_keys(text@) is None,
        },
{
    let n = text.unicode_len();
    let e0 = find_line_end(text);
    proof { crate::text::lemma_line_end(text@); }
    if e0 >= n {
        return None;
    }
    let line0 = text.substring_char(0, e0);
    let rest = text.substring_char(e0 + 1, n);
    assert(line0@ == first_line(text@));
    assert(rest@ =~= after_first_line(text@));
    let e1 = find_line_end(rest);
    proof { crate::text::lemma_line_end(rest@); }
    let line1 = rest.substring_char(0, e1);
    assert(line1@ =~= first_line(after_first_line(text@)));
    let key = skip_bytes(line0, CONSUMER_KEY_LABEL_LEN);
    let secret = skip_bytes(line1, CONSUMER_SECRET_LABEL_LEN);
    match (key, secret) {
        (Some(k), Some(s)) => Some((k, s)),
        _ => None,
    }
}

/// Builds the start-up configuration from the secret file's bytes and the
/// settings read from the configuration file.
pub fn init(secret: &[u8], cc: CC) -> (r: AppConfig)
    requires
        spec_secret_keys(utf8_lossy(secret@)) is Some,
    ensures
        r.cc == cc,
        spec_secret_keys(utf8_lossy(secret@)) == Some((r.consumer_key@, r.consumer_secret@)),
        valid_utf8(secret@) ==> utf8_lossy(secret@) == decode_utf8(secret@),
{
    let text = decode_lossy(secret);
    let (consumer_key, consumer_secret) = secret_keys(text.as_str()).unwrap();
    AppConfig { cc, consumer_key, consumer_secret }
}

/// `init` where the secret file's text holds both keys, `None` where
/// reading them would fail.
pub fn try_init(secret: &[u8], cc: CC) -> (r: Option<AppConfig>)
    ensures
        r is None <==> spec_secret_keys(utf8_lossy(secret@)) is None,
        r matches Some(c) ==> c.cc == cc && spec_secret_keys(utf8_lossy(secret@)) == Some(
            (c.consumer_key@, c.consumer_secret@),
        ),
        valid_utf8(secret@) ==> utf8_lossy(secret@) == decode_utf8(secret@),
{
    let text = decode_lossy(secret);
    if secret_keys(text.as_str()).is_some() {
        Some(init(secret, cc))
    } else {
        None
    }
}


/// UTF-8 encoding distributes over concatenation.
pub proof fn lemma_encode_concat(a: Seq<char>, b: Seq<char>)
    ensures
        encode_utf8(a + b) == encode_utf8(a) + encode_utf8(b),
    decreases a.len(),
{
    if a.len() == 0 {
        assert(a + b =~= b);
    } else {
        assert((a + b).drop_first() =~= a.drop_first() + b);
        assert((a + b)[0] == a[0]);
        lemma_encode_concat(a.drop_first(), b);
    }
}

/// The end of an encoded prefix is a character boundary of the encoding of
/// the whole text.
pub proof fn lemma_boundary_after_prefix(a: Seq<char>, b: Seq<char>)
    ensures
        is_char_boundary(encode_utf8(a + b), encode_utf8(a).len() as int),
    decreases a.len(),
{
    broadcast use vstd::utf8::encode_utf8_valid_utf8;
    lemma_encode_concat(a, b);
    if a.len() > 0 {
        let ab = a + b;
        assert(ab.drop_first() =~= a.drop_first() + b);
        assert(ab[0] == a[0]);
        vstd::utf8::encode_utf8_first_scalar(ab);
        vstd::utf8::encode_utf8_first_scalar(a);
        let bytes = encode_utf8(ab);
        let w = length_of_first_scalar(bytes);
        assert(w == encode_scalar(a[0] as u32).len());
        lemma_encode_concat(a.drop_first(), b);
        assert(encode_utf8(a) == encode_scalar(a[0] as u32) + encode_utf8(a.drop_first()));
        assert(pop_first_scalar(bytes) =~= encode_utf8(ab.drop_first()));
        lemma_boundary_after_prefix(a.drop_first(), b);
        assert(valid_utf8(bytes));
    }
}

/// Cutting off the bytes of an encoded prefix leaves the rest of the text.
pub proof fn lemma_after_prefix_bytes(a: Seq<char>, b: Seq<char>)
    ensures
        after_bytes(a + b, encode_utf8(a).len() as int) == Some(b),
{
    broadcast use vstd::utf8::encode_utf8_decode_utf8;
    lemma_encode_concat(a, b);
    lemma_boundary_after_prefix(a, b);
    let bytes = encode_utf8(a + b);
    assert(bytes.subrange(encode_utf8(a).len() as int, bytes.len() as int) =~= encode_utf8(b));
}

/// A line ends where a text without line feeds is followed by the end or by
/// a line feed.
pub proof fn lemma_line_end_of_prefix(p: Seq<char>, t: Seq<char>)
    requires
        forall|i: int| 0 <= i < p.len() ==> p[i] != '\n',
        t.len() == 0 || t[0] == '\n',
    ensures
        line_end(p + t) == p.len(),
    decreases p.len(),
{
    if p.len() == 0 {
        assert(p + t =~= t);
    } else {
        assert((p + t).drop_first() =~= p.drop_first() + t);
        assert((p + t)[0] == p[0]);
        lemma_line_end_of_prefix(p.drop_first(), t);
    }
}

/// A secret file written as `consumerKey={key}` on the first line and
/// `consumerSecret={secret}` on the second (followed by the end of the
/// text or by more lines) gives back exactly that key and secret.
pub proof fn lemma_secret_file_round_trip(key: Seq<char>, secret: Seq<char>, tail: Seq<char>)
    requires
        forall|i: int| 0 <= i < key.len() ==> key[i] != '\n',
        forall|i: int| 0 <= i < secret.len() ==> secret[i] != '\n',
        tail.len() == 0 || tail[0] == '\n',
    ensures
        spec_secret_keys("consumerKey="@ + key + seq!['\n'] + "consumerSecret="@ + secret + tail)
            == Some((key, secret)),
{
    broadcast use vstd::utf8::is_ascii_chars_encode_utf8;
    reveal_strlit("consumerKey=");
    reveal_strlit("consumerSecret=");
    let l1 = "consumerKey="@;
    let l2 = "consumerSecret="@;
    assert(is_ascii_chars(l1));
    assert(is_ascii_chars(l2));
    assert(encode_utf8(l1).len() == 12);
    assert(encode_utf8(l2).len() == 15);
    let line0 = l1 + key;
    let line1 = l2 + secret;
    let rest = line1 + tail;
    let text = l1 + key + seq!['\n'] + l2 + secret + tail;
    assert(text =~= line0 + (seq!['\n'] + rest));
    assert forall|i: int| 0 <= i < line0.len() implies line0[i] != '\n' by {
        if i >= l1.len() {
            assert(line0[i] == key[i - l1.len()]);
        }
    }
    assert forall|i: int| 0 <= i < line1.len() implies line1[i] != '\n' by {
        if i >= l2.len() {
            assert(line1[i] == secret[i - l2.len()]);
        }
    }
    lemma_line_end_of_prefix(line0, seq!['\n'] + rest);
    lemma_line_end_of_prefix(line1, tail);
    assert(first_line(text) =~= line0);
    assert(after_first_line(text) =~= rest);
    assert(first_line(rest) =~= line1);
    lemma_after_prefix_bytes(l1, key);
    lemma_after_prefix_bytes(l2, secret);
}

} // verus!

//! Text: names in UTF-8, splitting at a separator, and base64.
//!
//! Reading bytes as UTF-8 and decoding base64 are calls into `std` and
//! `base64`, made by the four functions marked `external_body`; splitting is
//! proved here.

use base64::prelude::BASE64_STANDARD;
use base64::Engine;
use vstd::prelude::*;
use vstd::string::StrSliceExecFns;
use vstd::string::StringExecFns;
use vstd::utf8::{decode_utf8, valid_utf8};

verus! {

/// `std::string::FromUtf8Error`, a value that Verus cannot look inside.
#[verifier::external_type_specification]
#[verifier::external_body]
pub struct ExFromUtf8Error(std::string::FromUtf8Error);

/// `base64::DecodeError`, a value that Verus cannot look inside.
#[verifier::external_type_specification]
#[verifier::external_body]
pub struct ExBase64DecodeError(base64::DecodeError);

/// The error that reading `bytes` as UTF-8 reports, where they are not
/// well-formed.
pub uninterp spec fn utf8_error(bytes: Seq<u8>) -> std::string::FromUtf8Error;

/// The message that a UTF-8 error prints.
pub uninterp spec fn utf8_error_message(e: std::string::FromUtf8Error) -> Seq<char>;

/// The bytes that a text stands for in standard, padded base64, or the
/// decoder's error where it is not such an encoding.
pub uninterp spec fn base64_decoded(text: Seq<char>) -> Result<Seq<u8>, base64::DecodeError>;

/// The message that a base64 error prints.
pub uninterp spec fn base64_error_message(e: base64::DecodeError) -> Seq<char>;

/// `String::from_utf8`: the text that `bytes` encode, or the error where
/// they are not well-formed UTF-8.
#[verifier::external_body]
pub(crate) fn string_from_utf8(bytes: Vec<u8>) -> (r: Result<String, std::string::FromUtf8Error>)
    ensures
        match r {
            Ok(text) => valid_utf8(bytes@) && text@ == decode_utf8(bytes@),
            Err(e) => !valid_utf8(bytes@) && e == utf8_error(bytes@),
        },
{
    String::from_utf8(bytes)
}

/// `to_string` of a `FromUtf8Error`: the message it prints.
#[verifier::external_body]
pub(crate) fn utf8_error_text(e: &std::string::FromUtf8Error) -> (text: String)
    ensures
        text@ == utf8_error_message(*e),
{
    e.to_string()
}

/// `Engine::decode` of the standard base64 engine: the bytes that `text`
/// encodes, or the engine's error.
#[verifier::external_body]
pub(crate) fn base64_decode(text: &str) -> (r: Result<Vec<u8>, base64::DecodeError>)
    ensures
        match r {
            Ok(bytes) => base64_decoded(text@) == Ok::<Seq<u8>, base64::DecodeError>(bytes@),
            Err(e) => base64_decoded(text@) == Err::<Seq<u8>, base64::DecodeError>(e),
        },
{
    BASE64_STANDARD.decode(text)
}

/// `to_string` of a `base64::DecodeError`: the message it prints.
#[verifier::external_body]
pub(crate) fn base64_error_text(e: &base64::DecodeError) -> (text: String)
    ensures
        text@ == base64_error_message(*e),
{
    e.to_string()
}

/// How many characters at the front of `s` come before the first `sep`, or
/// the length of `s` where it holds none.
pub open spec fn segment_len(s: Seq<char>, sep: char) -> nat
    decreases s.len(),
{
    if s.len() == 0 || s[0] == sep {
        0
    } else {
        1 + segment_len(s.skip(1), sep)
    }
}

/// The pieces of `s` between occurrences of `sep`. There is always at least
/// one piece; two separators in a row, or one at either end, give an empty
/// piece.
pub open spec fn spec_split(s: Seq<char>, sep: char) -> Seq<Seq<char>>
    decreases s.len(),
{
    let n = segment_len(s, sep);
    if n >= s.len() {
        seq![s]
    } else {
        seq![s.take(n as int)] + spec_split(s.skip(n as int + 1), sep)
    }
}

/// A run of `k` characters other than `sep` at the front of `s` bounds
/// [`segment_len`] from below, and pins it when the run ends there.
pub proof fn lemma_segment_len(s: Seq<char>, sep: char, k: nat)
    requires
        k <= s.len(),
        forall|j: int| 0 <= j < k ==> s[j] != sep,
    ensures
        segment_len(s, sep) >= k,
        segment_len(s, sep) <= s.len(),
        k == s.len() ==> segment_len(s, sep) == k,
        k < s.len() && s[k as int] == sep ==> segment_len(s, sep) == k,
    decreases s.len(),
{
    if s.len() > 0 && s[0] != sep {
        let t = s.skip(1);
        let m = if k > 0 { (k - 1) as nat } else { 0 };
        assert forall|j: int| 0 <= j < m implies t[j] != sep by {
            assert(t[j] == s[j + 1]);
        }
        lemma_segment_len(t, sep, m);
    }
}

/// The views of a run of strings.
pub open spec fn string_views(strings: Seq<String>) -> Seq<Seq<char>> {
    strings.map_values(|s: String| s@)
}

/// Splits `text` at every `sep`.
pub fn split_text(text: &str, sep: char) -> (pieces: Vec<String>)
    ensures
        string_views(pieces@) == spec_split(text@, sep),
{
    let total: usize = text.unicode_len();
    let mut pieces: Vec<String> = Vec::new();
    let mut start: usize = 0;
    let mut i: usize = 0;
    assert(text@.skip(0) =~= text@);
    assert(string_views(pieces@) + spec_split(text@, sep) =~= spec_split(text@, sep));
    for c in it: text.chars()
        invariant
            total == text@.len(),
            i == it.index(),
            it.seq() == text@,
            start <= i <= total,
            forall|j: int| start <= j < i ==> text@[j] != sep,
            spec_split(text@, sep) == string_views(pieces@) + spec_split(
                text@.skip(start as int),
                sep,
            ),
    {
        assert(c == text@[i as int]);
        if c == sep {
            let ghost done = string_views(pieces@);
            let ghost tail = text@.skip(start as int);
            let piece: String = String::from_str(text.substring_char(start, i));
            proof {
                assert forall|j: int| 0 <= j < i - start implies tail[j] != sep by {
                    assert(tail[j] == text@[start + j]);
                }
                lemma_segment_len(tail, sep, (i - start) as nat);
                assert(tail.take(i - start) =~= piece@);
                assert(tail.skip(i - start + 1) =~= text@.skip(i + 1));
            }
            pieces.push(piece);
            proof {
                let rest = spec_split(text@.skip(i + 1), sep);
                assert(string_views(pieces@) =~= done.push(piece@));
                assert(done + (seq![piece@] + rest) =~= done.push(piece@) + rest);
            }
            start = i + 1;
        }
        i = i + 1;
    }
    let ghost done = string_views(pieces@);
    let ghost tail = text@.skip(start as int);
    let piece: String = String::from_str(text.substring_char(start, i));
    proof {
        assert forall|j: int| 0 <= j < i - start implies tail[j] != sep by {
            assert(tail[j] == text@[start + j]);
        }
        lemma_segment_len(tail, sep, (i - start) as nat);
        assert(tail =~= piece@);
    }
    pieces.push(piece);
    assert(string_views(pieces@) =~= done + seq![piece@]);
    pieces
}

/// The pieces of `pieces` with one `sep` between each two.
pub open spec fn spec_join(pieces: Seq<Seq<char>>, sep: char) -> Seq<char>
    decreases pieces.len(),
{
    if pieces.len() == 0 {
        Seq::empty()
    } else if pieces.len() == 1 {
        pieces[0]
    } else {
        pieces[0] + seq![sep] + spec_join(pieces.skip(1), sep)
    }
}

/// What [`segment_len`] measures: the characters before it are no
/// separators, and the one behind them, if there is one, is.
proof fn lemma_segment_end(s: Seq<char>, sep: char)
    ensures
        segment_len(s, sep) <= s.len(),
        forall|j: int| 0 <= j < segment_len(s, sep) ==> s[j] != sep,
        segment_len(s, sep) < s.len() ==> s[segment_len(s, sep) as int] == sep,
    decreases s.len(),
{
    if s.len() > 0 && s[0] != sep {
        let t = s.skip(1);
        lemma_segment_end(t, sep);
        assert forall|j: int| 0 <= j < segment_len(s, sep) implies s[j] != sep by {
            if j > 0 {
                assert(s[j] == t[j - 1]);
            }
        }
        if segment_len(s, sep) < s.len() {
            assert(s[segment_len(s, sep) as int] == t[segment_len(t, sep) as int]);
        }
    }
}

/// Splitting loses nothing and cuts at every separator: there is at least
/// one piece, no piece holds a separator, and the pieces joined by the
/// separator are the text that was split.
pub proof fn lemma_split_join(s: Seq<char>, sep: char)
    ensures
        spec_split(s, sep).len() >= 1,
        spec_join(spec_split(s, sep), sep) == s,
        forall|i: int, j: int|
            0 <= i < spec_split(s, sep).len() && 0 <= j < spec_split(s, sep)[i].len()
                ==> spec_split(s, sep)[i][j] != sep,
    decreases s.len(),
{
    let n = segment_len(s, sep);
    let pieces = spec_split(s, sep);
    lemma_segment_end(s, sep);
    if n < s.len() {
        let head = s.take(n as int);
        let tail = s.skip(n as int + 1);
        let rest = spec_split(tail, sep);
        lemma_split_join(tail, sep);
        assert(pieces =~= seq![head] + rest);
        assert(pieces.skip(1) =~= rest);
        assert(spec_join(pieces, sep) == head + seq![sep] + spec_join(rest, sep));
        assert(head + seq![sep] + tail =~= s);
        assert forall|i: int, j: int|
            0 <= i < pieces.len() && 0 <= j < pieces[i].len() implies pieces[i][j] != sep by {
            if i > 0 {
                assert(pieces[i] == rest[i - 1]);
            }
        }
    }
}

} // verus!

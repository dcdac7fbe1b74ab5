//! Operations on borrowed text, and the text that the boundary hands out.

use vstd::prelude::*;
use vstd::utf8::{encode_scalar, encode_utf8, is_ascii_chars};

verus! {

/// The word that [`contains_hotdog`] looks for.
pub open spec fn hotdog() -> Seq<char> {
    seq!['h', 'o', 't', 'd', 'o', 'g']
}

/// `needle` stands in `hay` at position `at`, character for character.
pub open spec fn occurs_at(hay: Seq<char>, needle: Seq<char>, at: int) -> bool {
    &&& 0 <= at
    &&& at + needle.len() <= hay.len()
    &&& hay.subrange(at, at + needle.len()) == needle
}

/// `needle` stands somewhere in `hay` as a contiguous run of characters.
pub open spec fn occurs_in(hay: Seq<char>, needle: Seq<char>) -> bool {
    exists|at: int| occurs_at(hay, needle, at)
}

/// The characters of `s`, in order.
fn characters(s: &str) -> (out: Vec<char>)
    ensures
        out@ == s@,
{
    let mut out: Vec<char> = Vec::new();
    for c in it: s.chars()
        invariant
            it.seq() == s@,
            out@ == it.seq().take(it.index() as int),
    {
        out.push(c);
        assert(it.seq().take(it.index() + 1) =~= it.seq().take(it.index() as int).push(c));
    }
    assert(s@.take(s@.len() as int) =~= s@);
    out
}

/// Does `hay` hold the six characters of [`hotdog`] from position `at` on?
fn hotdog_at(hay: &Vec<char>, at: usize) -> (found: bool)
    requires
        at + 6 <= hay@.len(),
    ensures
        found == occurs_at(hay@, hotdog(), at as int),
{
    let n: usize = hay.len();
    assert(at + 6 <= n);
    let found = hay[at] == 'h' && hay[at + 1] == 'o' && hay[at + 2] == 't' && hay[at + 3] == 'd'
        && hay[at + 4] == 'o' && hay[at + 5] == 'g';
    proof {
        let run = hay@.subrange(at as int, at + 6);
        if found {
            assert(run =~= hotdog());
        } else {
            assert(run[0] == hay@[at as int]);
            assert(run[1] == hay@[at + 1]);
            assert(run[2] == hay@[at + 2]);
            assert(run[3] == hay@[at + 3]);
            assert(run[4] == hay@[at + 4]);
            assert(run[5] == hay@[at + 5]);
        }
    }
    found
}

/// Tells whether the text contains the word "hotdog".
///
/// The word has to appear as it is written here, in lower case and in one
/// piece; it may be part of a longer word.
pub fn contains_hotdog(s: &str) -> (found: bool)
    ensures
        found == occurs_in(s@, hotdog()),
{
    let hay = characters(s);
    let n: usize = hay.len();
    if n < 6 {
        return false;
    }
    let mut at: usize = 0;
    while at <= n - 6
        invariant
            n == hay@.len(),
            hay@ == s@,
            6 <= n,
            forall|k: int| 0 <= k < at ==> !occurs_at(s@, hotdog(), k),
        decreases n - at,
    {
        if hotdog_at(&hay, at) {
            return true;
        }
        at += 1;
    }
    false
}

/// The number of extended grapheme clusters into which `text` falls apart.
pub uninterp spec fn extended_grapheme_clusters(text: Seq<char>) -> nat;

/// Counts the extended grapheme clusters of `s` with
/// `unicode_segmentation::UnicodeSegmentation::graphemes`, called with
/// `is_extended` set.
///
/// Taken on trust: that the count depends on the code points of `s` alone,
/// and that it is at most the number of those code points. Each cluster that
/// the iterator hands out starts where the one before it ended and holds at
/// least one code point.
#[verifier::external_body]
fn count_grapheme_clusters(s: &str) -> (n: usize)
    ensures
        n == extended_grapheme_clusters(s@),
        n <= s@.len(),
{
    unicode_segmentation::UnicodeSegmentation::graphemes(s, true).count()
}

/// The number of characters of `text` as a reader perceives them: the number
/// of its extended grapheme clusters.
///
/// A cluster holds at least one code point, so the count never exceeds
/// `text.len()`. The definition says so outright, which makes the bound known
/// of every text.
pub open spec fn character_count(text: Seq<char>) -> nat {
    if extended_grapheme_clusters(text) <= text.len() {
        extended_grapheme_clusters(text)
    } else {
        text.len()
    }
}

/// The number of bytes that `text` takes up when it is encoded as UTF-8.
pub open spec fn byte_count(text: Seq<char>) -> nat {
    encode_utf8(text).len()
}

/// Narrows a count to the 32 bits in which it crosses the boundary, keeping
/// its low 32 bits.
pub fn count_to_u32(n: usize) -> (out: u32)
    ensures
        out == (n as int) % 0x1_0000_0000,
        n <= u32::MAX ==> out == n,
{
    let wide: u64 = n as u64;
    (wide % 0x1_0000_0000) as u32
}

/// Counts the characters of the text as a reader perceives them.
///
/// A letter followed by combining marks counts once, and so does an emoji
/// that is made of several code points. The count is narrowed to 32 bits.
pub fn how_many_characters(s: &str) -> (out: u32)
    ensures
        out == character_count(s@) % 0x1_0000_0000,
        character_count(s@) == extended_grapheme_clusters(s@),
        character_count(s@) <= u32::MAX ==> out == character_count(s@),
{
    count_to_u32(count_grapheme_clusters(s))
}

/// Counts the bytes of the text in its UTF-8 encoding.
///
/// The count is narrowed to 32 bits.
pub fn how_many_bytes(s: &str) -> (out: u32)
    ensures
        out == byte_count(s@) % 0x1_0000_0000,
        byte_count(s@) <= u32::MAX ==> out == byte_count(s@),
{
    count_to_u32(s.as_bytes().len())
}

/// A text never has fewer bytes than it has characters. It has as many of the
/// one as of the other exactly when every code point is ASCII, and so takes
/// one byte, and every code point is a cluster by itself.
pub proof fn lemma_bytes_at_least_characters(text: Seq<char>)
    ensures
        byte_count(text) >= character_count(text),
        byte_count(text) == character_count(text) <==> is_ascii_chars(text) && character_count(
            text,
        ) == text.len(),
{
    lemma_bytes_at_least_code_points(text);
}

/// A code point keeps its number when it is taken as a `u32`, and that number
/// is one that UTF-8 can encode.
proof fn lemma_code_point_as_u32(c: char)
    ensures
        c as u32 == c as int,
        vstd::utf8::is_scalar(c as u32),
{
}

/// Every code point takes at least one byte, and exactly one if it is ASCII.
proof fn lemma_bytes_at_least_code_points(text: Seq<char>)
    ensures
        encode_utf8(text).len() >= text.len(),
        encode_utf8(text).len() == text.len() <==> is_ascii_chars(text),
    decreases text.len(),
{
    if text.len() > 0 {
        let first = text[0] as u32;
        let head = encode_scalar(first);
        let rest = text.drop_first();
        lemma_bytes_at_least_code_points(rest);
        lemma_code_point_as_u32(text[0]);
        assert(encode_utf8(text).len() == head.len() + encode_utf8(rest).len());
        assert(1 <= head.len() <= 4);
        assert(head.len() == 1 <==> first <= 0x7f);
        if is_ascii_chars(text) {
            assert('\0' <= text[0] <= '\u{7f}');
            assert forall|i: int| 0 <= i < rest.len() implies '\0' <= #[trigger] rest[i]
                <= '\u{7f}' by {
                assert(rest[i] == text[i + 1]);
            }
        }
        if first <= 0x7f && is_ascii_chars(rest) {
            assert forall|i: int| 0 <= i < text.len() implies '\0' <= #[trigger] text[i]
                <= '\u{7f}' by {
                if i > 0 {
                    assert(text[i] == rest[i - 1]);
                }
            }
        }
    }
}

/// The greeting that [`return_hello_world`] hands out.
pub open spec fn hello_world() -> Seq<char> {
    "Hello, World from a Rust string!"@
}

/// Makes a fresh copy of the greeting, owned by the caller.
///
/// The text holds no NUL character, so it can be handed on as a
/// NUL-terminated string as it is.
pub fn return_hello_world() -> (out: String)
    ensures
        out@ == hello_world(),
        out@.len() == 32,
        forall|i: int| 0 <= i < out@.len() ==> out@[i] != '\0',
{
    proof {
        reveal_strlit("Hello, World from a Rust string!");
    }
    "Hello, World from a Rust string!".to_owned()
}

} // verus!

//! From the bytes of one read to the text that the protocol looks at.

use vstd::prelude::*;
use vstd::utf8::*;

verus! {

/// The characters that Unicode gives the property `White_Space`.
pub open spec fn is_white_space(c: char) -> bool {
    let n = c as u32;
    ||| 0x09 <= n <= 0x0D
    ||| n == 0x20
    ||| n == 0x85
    ||| n == 0xA0
    ||| n == 0x1680
    ||| 0x2000 <= n <= 0x200A
    ||| n == 0x2028
    ||| n == 0x2029
    ||| n == 0x202F
    ||| n == 0x205F
    ||| n == 0x3000
}

/// `s` without the white space at its start.
pub open spec fn skip_leading(s: Seq<char>) -> Seq<char>
    decreases s.len(),
{
    if s.len() > 0 && is_white_space(s.first()) {
        skip_leading(s.drop_first())
    } else {
        s
    }
}

/// `s` without the white space at its end.
pub open spec fn skip_trailing(s: Seq<char>) -> Seq<char>
    decreases s.len(),
{
    if s.len() > 0 && is_white_space(s.last()) {
        skip_trailing(s.drop_last())
    } else {
        s
    }
}

/// `s` without the white space around it.
pub open spec fn trimmed(s: Seq<char>) -> Seq<char> {
    skip_trailing(skip_leading(s))
}

/// What a chunk reads as when nothing but well-formed UTF-8 is taken: the
/// decoded characters, or nothing at all where the bytes are malformed.
pub open spec fn strict_text(bytes: Seq<u8>) -> Seq<char> {
    if valid_utf8(bytes) {
        decode_utf8(bytes)
    } else {
        Seq::empty()
    }
}

/// The character that lossy decoding puts where bytes are malformed.
pub const REPLACEMENT: char = '\u{FFFD}';

/// The text that lossy decoding makes of bytes that are not well-formed
/// UTF-8, each malformed stretch replaced by U+FFFD.
pub uninterp spec fn repaired_text(bytes: Seq<u8>) -> Seq<char>;

/// What a chunk reads as when malformed stretches are replaced, not refused.
pub open spec fn lossy_text(bytes: Seq<u8>) -> Seq<char> {
    if valid_utf8(bytes) {
        decode_utf8(bytes)
    } else {
        repaired_text(bytes)
    }
}

/// `str::trim` of std. Trusted: the slice returned is the argument without
/// the white space at its start and at its end, white space being the
/// characters with Unicode's `White_Space` property, which
/// [`is_white_space`] lists.
#[verifier::external_body]
pub(crate) fn trim(s: &str) -> (r: &str)
    ensures
        r@ == trimmed(s@),
{
    s.trim()
}

/// `core::str::from_utf8` of std, its error dropped. Trusted: it succeeds
/// exactly on well-formed UTF-8, and the slice then holds the characters
/// that the bytes encode.
#[verifier::external_body]
pub(crate) fn utf8_text(bytes: &[u8]) -> (r: Option<&str>)
    ensures
        r is Some <==> valid_utf8(bytes@),
        r is Some ==> r->0@ == decode_utf8(bytes@),
{
    core::str::from_utf8(bytes).ok()
}

/// `String::from_utf8_lossy` of std, as an owned string. Trusted:
/// well-formed bytes come back decoded as they are; of other bytes the
/// result is given a name, and holds the replacement character U+FFFD,
/// which stands in for what was malformed.
#[verifier::external_body]
pub(crate) fn utf8_text_lossy(bytes: &[u8]) -> (r: String)
    ensures
        valid_utf8(bytes@) ==> r@ == decode_utf8(bytes@),
        !valid_utf8(bytes@) ==> r@ == repaired_text(bytes@),
        !valid_utf8(bytes@) ==> r@.contains(REPLACEMENT),
{
    String::from_utf8_lossy(bytes).into_owned()
}

/// The token that a first chunk presents: its strictly decoded text,
/// trimmed. Malformed bytes present the empty token.
pub fn presented_token(chunk: &[u8]) -> (token: String)
    ensures
        token@ == trimmed(strict_text(chunk@)),
{
    let text = match utf8_text(chunk) {
        Some(decoded) => decoded,
        None => "",
    };
    proof {
        reveal_strlit("");
        assert(""@ =~= Seq::<char>::empty());
    }
    trim(text).to_owned()
}

/// Trimming keeps every character that is not white space.
proof fn lemma_trim_keeps(s: Seq<char>, c: char)
    requires
        s.contains(c),
        !is_white_space(c),
    ensures
        trimmed(s).contains(c),
{
    lemma_skip_leading_keeps(s, c);
    lemma_skip_trailing_keeps(skip_leading(s), c);
}

proof fn lemma_skip_leading_keeps(s: Seq<char>, c: char)
    requires
        s.contains(c),
        !is_white_space(c),
    ensures
        skip_leading(s).contains(c),
    decreases s.len(),
{
    if s.len() > 0 && is_white_space(s.first()) {
        let i = choose|i: int| 0 <= i < s.len() && s[i] == c;
        assert(s.drop_first()[i - 1] == c);
        lemma_skip_leading_keeps(s.drop_first(), c);
    }
}

proof fn lemma_skip_trailing_keeps(s: Seq<char>, c: char)
    requires
        s.contains(c),
        !is_white_space(c),
    ensures
        skip_trailing(s).contains(c),
    decreases s.len(),
{
    if s.len() > 0 && is_white_space(s.last()) {
        let i = choose|i: int| 0 <= i < s.len() && s[i] == c;
        assert(s.drop_last()[i] == c);
        lemma_skip_trailing_keeps(s.drop_last(), c);
    }
}

/// The command that a later chunk carries: its lossily decoded text, trimmed.
/// Where the chunk is malformed, the replacement character is still in it.
pub fn command_text(chunk: &[u8]) -> (command: String)
    ensures
        command@ == trimmed(lossy_text(chunk@)),
        !valid_utf8(chunk@) ==> command@.contains(REPLACEMENT),
{
    let raw = utf8_text_lossy(chunk);
    proof {
        if !valid_utf8(chunk@) {
            lemma_trim_keeps(raw@, REPLACEMENT);
        }
    }
    trim(raw.as_str()).to_owned()
}

} // verus!

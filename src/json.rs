use vstd::prelude::*;
use vstd::slice::slice_subrange;

use crate::error::CodecError;
use crate::id::hex_digit;

verus! {

/// How a character stands inside a JSON string literal: quote and
/// backslash behind a backslash, the usual short escapes, other control
/// characters as `\u00XX` in lowercase hexadecimal, everything else as is.
pub open spec fn escaped_char(c: char) -> Seq<char> {
    if c == '"' {
        seq!['\\', '"']
    } else if c == '\\' {
        seq!['\\', '\\']
    } else if c == '\u{8}' {
        seq!['\\', 'b']
    } else if c == '\t' {
        seq!['\\', 't']
    } else if c == '\n' {
        seq!['\\', 'n']
    } else if c == '\u{c}' {
        seq!['\\', 'f']
    } else if c == '\r' {
        seq!['\\', 'r']
    } else if (c as int) < 0x20 {
        seq!['\\', 'u', '0', '0', hex_digit(c as int / 16), hex_digit(c as int % 16)]
    } else {
        seq![c]
    }
}

/// The escaped form of a text.
pub open spec fn escaped(s: Seq<char>) -> Seq<char>
    decreases s.len(),
{
    if s.len() == 0 {
        Seq::empty()
    } else {
        escaped(s.drop_last()) + escaped_char(s.last())
    }
}

/// The JSON string literal that stands for a text: quotes, escapes and all.
pub open spec fn json_quoted(s: Seq<char>) -> Seq<char> {
    seq!['"'] + escaped(s) + seq!['"']
}

/// Neither a quote, a backslash nor a control character.
pub open spec fn is_plain_text(s: Seq<char>) -> bool {
    forall|i: int| 0 <= i < s.len() ==> #[trigger] s[i] != '"' && s[i] != '\\' && (s[i] as int) >= 0x20
}

proof fn lemma_plain_text_escaped(s: Seq<char>)
    requires
        is_plain_text(s),
    ensures
        escaped(s) == s,
    decreases s.len(),
{
    if s.len() > 0 {
        let t = s.drop_last();
        assert(is_plain_text(t)) by {
            assert forall|i: int| 0 <= i < t.len() implies #[trigger] t[i] != '"' && t[i] != '\\'
                && (t[i] as int) >= 0x20 by {
                assert(t[i] == s[i]);
            }
        }
        lemma_plain_text_escaped(t);
        let c = s.last();
        assert(c == s[s.len() - 1]);
        assert(escaped_char(c) == seq![c]);
        assert(t.push(c) =~= s);
        assert(t + seq![c] =~= t.push(c));
    } else {
        assert(s =~= Seq::<char>::empty());
    }
}

/// A text that needs no escaping stands for itself between the quotes.
pub proof fn lemma_plain_text_quoted(s: Seq<char>)
    requires
        is_plain_text(s),
    ensures
        json_quoted(s) == seq!['"'] + s + seq!['"'],
{
    lemma_plain_text_escaped(s);
}

/// Relies on `serde_json::to_string` applied to a string slice, which writes
/// the text between quotes, escaping by serde_json's table, and cannot fail
/// on one.
#[verifier::external_body]
pub(crate) fn quote_json_string(s: &str) -> (r: String)
    ensures
        r@ == json_quoted(s@),
{
    match serde_json::to_string(s) {
        Ok(quoted) => quoted,
        Err(_) => String::new(),
    }
}

/// The format version that leads a JSONB value on the wire.
pub const JSONB_VERSION: u8 = 1;

/// The JSON text of a JSONB column value: what follows its version byte.
pub fn jsonb_document(bytes: &[u8]) -> (r: Result<&[u8], CodecError>)
    ensures
        r is Ok <==> (bytes@.len() >= 1 && bytes@[0] == JSONB_VERSION),
        r matches Ok(text) ==> text@ == bytes@.skip(1),
        r matches Err(e) ==> e == CodecError::UnsupportedDocument,
{
    if bytes.len() == 0 || bytes[0] != JSONB_VERSION {
        return Err(CodecError::UnsupportedDocument);
    }
    let text = slice_subrange(bytes, 1, bytes.len());
    assert(text@ =~= bytes@.skip(1));
    Ok(text)
}

} // verus!

//! The span and error types surfaced by parsing.

use vstd::prelude::*;

verus! {

/// A byte range `(offset, len)` in the source text an item was parsed from.
///
/// Spans record provenance only: they are deliberately excluded from
/// identifier equality and hashing, so that two identifiers parsed from
/// different places with the same spelling are interchangeable.
#[derive(Debug, Clone, Copy, PartialEq, Eq, Structural)]
pub struct SourceSpan {
    /// Byte offset of the start of the range.
    pub offset: usize,
    /// Byte length of the range.
    pub len: usize,
}

impl SourceSpan {
    /// The empty span `(0, 0)`, used where no source location is known.
    pub fn empty() -> (r: Self)
        ensures
            r == (SourceSpan { offset: 0, len: 0 }),
    {
        SourceSpan { offset: 0, len: 0 }
    }
}

/// A parse failure of the current-generation (v2) grammar.
///
/// Legacy-grammar diagnostics are never surfaced: when the legacy fallback is
/// tried and also fails, the caller still receives the v2 error.
#[derive(Debug, Clone)]
pub struct KdlError {
    /// A human-readable description of what was wrong with the input.
    pub message: String,
    /// The byte range of the offending input.
    pub span: SourceSpan,
}

/// The length in bytes of the UTF-8 encoding of a character sequence.
pub open spec fn byte_len(s: Seq<char>) -> usize {
    vstd::utf8::encode_utf8(s).len() as usize
}

/// The diagnostic the current-generation grammar gives for a rejected input:
/// one message for empty input, one for an unterminated quoted token, one for
/// a quoted token whose body does not decode, one for an illegal bare token.
pub open spec fn v2_error_message(s: Seq<char>) -> Seq<char> {
    if s.len() == 0 {
        "expected identifier"@
    } else if s[0] == '"' {
        if s.len() < 2 || s[s.len() - 1] != '"' {
            "unterminated string literal"@
        } else {
            "invalid string literal"@
        }
    } else {
        "invalid bare identifier"@
    }
}

/// The single fixed message for a legacy (v1) parse failure: legacy
/// diagnostics are deliberately not surfaced in any detail.
pub open spec fn v1_error_message() -> Seq<char> {
    "failed to parse v1 identifier"@
}

/// Builds the current-generation parse error for a rejected input, with the
/// message `v2_error_message` assigns to it and the whole input as its span.
pub fn v2_error(s: &str) -> (r: KdlError)
    ensures
        r.message@ == v2_error_message(s@),
        r.span == (SourceSpan { offset: 0, len: byte_len(s@) }),
{
    let n = s.unicode_len();
    let msg: &str = if n == 0 {
        "expected identifier"
    } else if s.get_char(0) == '"' {
        if n < 2 || s.get_char(n - 1) != '"' {
            "unterminated string literal"
        } else {
            "invalid string literal"
        }
    } else {
        "invalid bare identifier"
    };
    KdlError { message: msg.to_owned(), span: SourceSpan { offset: 0, len: s.len() } }
}

/// Builds the fixed legacy parse error, with the whole input as its span.
pub fn v1_error(s: &str) -> (r: KdlError)
    ensures
        r.message@ == v1_error_message(),
        r.span == (SourceSpan { offset: 0, len: byte_len(s@) }),
{
    let msg: &str = "failed to parse v1 identifier";
    KdlError { message: msg.to_owned(), span: SourceSpan { offset: 0, len: s.len() } }
}

impl KdlError {
    /// The error's human-readable message.
    pub fn message(&self) -> (r: &str)
        ensures
            r@ == self.message@,
    {
        self.message.as_str()
    }

    /// The byte range of the offending input.
    pub fn span(&self) -> (r: SourceSpan)
        ensures
            r == self.span,
    {
        self.span
    }
}

} // verus!

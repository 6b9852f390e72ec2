//! The identifier value type: a decoded value, an optional original spelling,
//! and a provenance span.

use vstd::prelude::*;

use crate::error::byte_len;
use crate::error::v1_error;
use crate::error::v1_error_message;
use crate::error::v2_error;
use crate::error::v2_error_message;
use crate::error::KdlError;
use crate::error::SourceSpan;
use crate::grammar;

verus! {

/// A single identifier token of the document format, as used for node names
/// and property keys.
///
/// `value` is the decoded semantic name; `repr`, when present, is the exact
/// source spelling it was parsed from (kept verbatim for lossless
/// re-emission); `span` is the byte range it came from. Equality and hashing
/// use `value` and `repr` only: the span records provenance, not identity.
#[derive(Debug, Clone, Eq)]
pub struct KdlIdentifier {
    /// The decoded semantic name. Setters place arbitrary text here without
    /// validation; rendering decides whether it can be emitted bare.
    pub value: String,
    /// The exact original spelling, or `None` for "auto-format on output".
    pub repr: Option<String>,
    /// The byte range in the source this identifier was parsed from.
    pub span: SourceSpan,
}

/// The view of an optional spelling: the character sequence it holds, if any.
pub open spec fn repr_view(o: Option<String>) -> Option<Seq<char>> {
    match o {
        Some(s) => Some(s@),
        None => None,
    }
}

/// Equality of identifiers: decoded value and spelling both agree; the span
/// is deliberately ignored, so identifiers parsed from different places are
/// interchangeable.
pub open spec fn ident_eq(a: &KdlIdentifier, b: &KdlIdentifier) -> bool {
    a.value@ == b.value@ && repr_view(a.repr) == repr_view(b.repr)
}

/// One step of the hash: fold one more word into the accumulator, modulo
/// the word size.
pub open spec fn hash_push(h: u64, x: u64) -> u64 {
    (((h as int) * 31 + (x as int)) % 0x1_0000_0000_0000_0000) as u64
}

/// Folds a character sequence into the hash accumulator, front to back.
pub open spec fn hash_chars(s: Seq<char>, h: u64) -> u64
    decreases s.len(),
{
    if s.len() == 0 {
        h
    } else {
        hash_chars(s.subrange(1, s.len() as int), hash_push(h, (s[0] as u32) as u64))
    }
}

/// The hash of an identifier: a function of the decoded value and the
/// optional spelling alone, so that the span can never influence it.
pub open spec fn spec_hash_code(value: Seq<char>, repr: Option<Seq<char>>) -> u64 {
    let h = hash_chars(value, 0xcbf29ce484222325);
    match repr {
        None => hash_push(h, 0),
        Some(r) => hash_chars(r, hash_push(h, 1)),
    }
}

impl PartialEq for KdlIdentifier {
    fn eq(&self, other: &Self) -> (r: bool) {
        if !(self.value == other.value) {
            return false;
        }
        match (&self.repr, &other.repr) {
            (Some(a), Some(b)) => *a == *b,
            (None, None) => true,
            _ => false,
        }
    }
}

impl vstd::std_specs::cmp::PartialEqSpecImpl for KdlIdentifier {
    open spec fn obeys_eq_spec() -> bool {
        true
    }

    open spec fn eq_spec(&self, other: &Self) -> bool {
        ident_eq(self, other)
    }
}

impl KdlIdentifier {
    /// The text this identifier renders to: its spelling verbatim when one is
    /// stored, otherwise the canonical spelling of its value.
    pub open spec fn rendered(&self) -> Seq<char> {
        match self.repr {
            Some(r) => r@,
            None => grammar::render_value(self.value@),
        }
    }

    /// The byte length of the rendered text.
    pub open spec fn spec_len(&self) -> usize {
        byte_len(self.rendered())
    }

    /// Gets the string value for this identifier.
    pub fn value(&self) -> (r: &str)
        ensures
            r@ == self.value@,
    {
        self.value.as_str()
    }

    /// Sets the string value for this identifier. The text is not validated:
    /// rendering decides later whether it must be quoted.
    pub fn set_value(&mut self, value: String)
        ensures
            final(self).value == value,
            final(self).repr == old(self).repr,
            final(self).span == old(self).span,
    {
        self.value = value;
    }

    /// Gets this identifier's span.
    pub fn span(&self) -> (r: SourceSpan)
        ensures
            r == self.span,
    {
        self.span
    }

    /// Sets this identifier's span.
    pub fn set_span(&mut self, span: SourceSpan)
        ensures
            final(self).span == span,
            final(self).value == old(self).value,
            final(self).repr == old(self).repr,
    {
        self.span = span;
    }

    /// Gets the custom string representation for this identifier, if any.
    pub fn repr(&self) -> (r: Option<&str>)
        ensures
            (r is Some) == (self.repr is Some),
            r is Some ==> r->0@ == self.repr->0@,
    {
        match &self.repr {
            Some(s) => Some(s.as_str()),
            None => None,
        }
    }

    /// Sets a custom string representation for this identifier, emitted
    /// verbatim by rendering from then on.
    pub fn set_repr(&mut self, repr: String)
        ensures
            final(self).repr == Some(repr),
            final(self).value == old(self).value,
            final(self).span == old(self).span,
    {
        self.repr = Some(repr);
    }

    /// Renders this identifier to text: the stored spelling verbatim when one
    /// is present, else the canonical spelling of the value.
    pub fn render(&self) -> (r: String)
        ensures
            r@ == self.rendered(),
    {
        match &self.repr {
            Some(r) => r.clone(),
            None => grammar::render(self.value.as_str()),
        }
    }

    /// Length in bytes of this identifier when rendered as a string.
    pub fn len(&self) -> (r: usize)
        ensures
            r == self.spec_len(),
    {
        let rendered = self.render();
        rendered.as_str().len()
    }

    /// Returns true if this identifier renders to no text at all.
    pub fn is_empty(&self) -> (r: bool)
        ensures
            r == (self.spec_len() == 0),
    {
        self.len() == 0
    }

    /// Resets this identifier to its default representation: rendering will
    /// re-derive a canonical spelling from the value, bare when legal and
    /// quoted otherwise.
    pub fn clear_format(&mut self)
        ensures
            final(self).repr is None,
            final(self).value == old(self).value,
            final(self).span == old(self).span,
    {
        self.repr = None;
    }

    /// Auto-formats this identifier; the same reset as `clear_format`.
    pub fn autoformat(&mut self)
        ensures
            final(self).repr is None,
            final(self).value == old(self).value,
            final(self).span == old(self).span,
    {
        self.repr = None;
    }

    /// Whether two identifiers name the same thing: their decoded values
    /// agree, whatever their spellings. Use this for semantic lookup; `==`
    /// additionally requires the spellings to agree.
    pub fn semantic_equals(&self, other: &Self) -> (r: bool)
        ensures
            r == (self.value@ == other.value@),
    {
        self.value == other.value
    }

    /// The hash of this identifier, over its value and spelling only: equal
    /// identifiers hash equal even when their spans differ.
    pub fn hash_code(&self) -> (r: u64)
        ensures
            r == spec_hash_code(self.value@, repr_view(self.repr)),
    {
        let h = hash_str(self.value.as_str(), 0xcbf29ce484222325);
        match &self.repr {
            None => hash_push_exec(h, 0),
            Some(rp) => hash_str(rp.as_str(), hash_push_exec(h, 1)),
        }
    }

    /// Parses a string into an identifier.
    ///
    /// The current-generation (v2) grammar is tried first; if it rejects the
    /// input, the legacy (v1) grammar is tried. When both reject it, only the
    /// v2 error is returned: the legacy failure is swallowed entirely.
    pub fn parse(s: &str) -> (r: Result<KdlIdentifier, KdlError>)
        ensures
            (r is Ok) == (grammar::fallback_value(s@) is Some),
            r is Ok ==> r->Ok_0.value@ == grammar::fallback_value(s@)->Some_0,
            r is Ok ==> r->Ok_0.repr is Some && r->Ok_0.repr->0@ == s@,
            r is Ok ==> r->Ok_0.span == (SourceSpan { offset: 0, len: byte_len(s@) }),
            r is Err ==> r->Err_0.message@ == v2_error_message(s@),
            r is Err ==> r->Err_0.span == (SourceSpan { offset: 0, len: byte_len(s@) }),
    {
        Self::parse_with_fallback(s, true)
    }

    /// The parse entry point with the legacy-compatibility knob explicit:
    /// when `v1_fallback` is off, only the current-generation grammar is
    /// tried and its error is returned directly on failure. Either way the
    /// error is always the current-generation one.
    pub fn parse_with_fallback(s: &str, v1_fallback: bool) -> (r: Result<KdlIdentifier, KdlError>)
        ensures
            (r is Ok) == (if v1_fallback {
                grammar::fallback_value(s@) is Some
            } else {
                grammar::token_value(s@, false) is Some
            }),
            r is Ok ==> r->Ok_0.value@ == (if v1_fallback {
                grammar::fallback_value(s@)->Some_0
            } else {
                grammar::token_value(s@, false)->Some_0
            }),
            r is Ok ==> r->Ok_0.repr is Some && r->Ok_0.repr->0@ == s@,
            r is Ok ==> r->Ok_0.span == (SourceSpan { offset: 0, len: byte_len(s@) }),
            r is Err ==> r->Err_0.message@ == v2_error_message(s@),
            r is Err ==> r->Err_0.span == (SourceSpan { offset: 0, len: byte_len(s@) }),
    {
        match grammar::parse_token(s, false) {
            Some(value) => Ok(
                KdlIdentifier {
                    value,
                    repr: Some(s.to_owned()),
                    span: SourceSpan { offset: 0, len: s.len() },
                },
            ),
            None => {
                if v1_fallback {
                    match grammar::parse_token(s, true) {
                        Some(value) => Ok(
                            KdlIdentifier {
                                value,
                                repr: Some(s.to_owned()),
                                span: SourceSpan { offset: 0, len: s.len() },
                            },
                        ),
                        None => Err(v2_error(s)),
                    }
                } else {
                    Err(v2_error(s))
                }
            },
        }
    }

    /// Parses a string against the legacy (v1) grammar alone. The error, when
    /// parsing fails, is a fixed one: legacy diagnostics are not surfaced.
    pub fn parse_v1(s: &str) -> (r: Result<KdlIdentifier, KdlError>)
        ensures
            (r is Ok) == (grammar::token_value(s@, true) is Some),
            r is Ok ==> r->Ok_0.value@ == grammar::token_value(s@, true)->Some_0,
            r is Ok ==> r->Ok_0.repr is Some && r->Ok_0.repr->0@ == s@,
            r is Ok ==> r->Ok_0.span == (SourceSpan { offset: 0, len: byte_len(s@) }),
            r is Err ==> r->Err_0.message@ == v1_error_message(),
            r is Err ==> r->Err_0.span == (SourceSpan { offset: 0, len: byte_len(s@) }),
    {
        match grammar::parse_token(s, true) {
            Some(value) => Ok(
                KdlIdentifier {
                    value,
                    repr: Some(s.to_owned()),
                    span: SourceSpan { offset: 0, len: s.len() },
                },
            ),
            None => Err(v1_error(s)),
        }
    }

    /// Programmatic construction from an owned value: no spelling is stored,
    /// the span is empty, and the text is not validated.
    pub fn from_string(value: String) -> (r: KdlIdentifier)
        ensures
            r.value == value,
            r.repr is None,
            r.span == (SourceSpan { offset: 0, len: 0 }),
    {
        KdlIdentifier { value, repr: None, span: SourceSpan { offset: 0, len: 0 } }
    }

    /// The decoded value, discarding spelling and span.
    pub fn into_value(self) -> (r: String)
        ensures
            r == self.value,
    {
        self.value
    }
}

impl<'a> From<&'a str> for KdlIdentifier {
    /// Programmatic construction: the text becomes the value as given, with
    /// no spelling and an empty span.
    fn from(value: &'a str) -> (r: Self)
        ensures
            r.value@ == value@,
            r.repr is None,
            r.span == (SourceSpan { offset: 0, len: 0 }),
    {
        KdlIdentifier {
            value: value.to_owned(),
            repr: None,
            span: SourceSpan { offset: 0, len: 0 },
        }
    }
}

impl<'a> vstd::std_specs::convert::FromSpecImpl<&'a str> for KdlIdentifier {
    open spec fn obeys_from_spec() -> bool {
        false
    }

    open spec fn from_spec(v: &'a str) -> Self {
        arbitrary()
    }
}

impl From<String> for KdlIdentifier {
    /// Programmatic construction: the string becomes the value as given, with
    /// no spelling and an empty span.
    fn from(value: String) -> (r: Self)
        ensures
            r.value == value,
            r.repr is None,
            r.span == (SourceSpan { offset: 0, len: 0 }),
    {
        KdlIdentifier { value, repr: None, span: SourceSpan { offset: 0, len: 0 } }
    }
}

impl vstd::std_specs::convert::FromSpecImpl<String> for KdlIdentifier {
    open spec fn obeys_from_spec() -> bool {
        false
    }

    open spec fn from_spec(v: String) -> Self {
        arbitrary()
    }
}

impl vstd::std_specs::convert::FromSpecImpl<KdlIdentifier> for String {
    open spec fn obeys_from_spec() -> bool {
        true
    }

    open spec fn from_spec(v: KdlIdentifier) -> String {
        v.value
    }
}

impl From<KdlIdentifier> for String {
    /// The decoded value, discarding spelling and span.
    fn from(value: KdlIdentifier) -> (r: String)
        ensures
            r == value.value,
    {
        value.value
    }
}

impl core::str::FromStr for KdlIdentifier {
    type Err = KdlError;

    /// The same two-grammar parse as `KdlIdentifier::parse`, under the same
    /// contract.
    fn from_str(s: &str) -> (r: Result<KdlIdentifier, KdlError>)
        ensures
            (r is Ok) == (grammar::fallback_value(s@) is Some),
            r is Ok ==> r->Ok_0.value@ == grammar::fallback_value(s@)->Some_0,
            r is Ok ==> r->Ok_0.repr is Some && r->Ok_0.repr->0@ == s@,
            r is Ok ==> r->Ok_0.span == (SourceSpan { offset: 0, len: byte_len(s@) }),
            r is Err ==> r->Err_0.message@ == v2_error_message(s@),
            r is Err ==> r->Err_0.span == (SourceSpan { offset: 0, len: byte_len(s@) }),
    {
        KdlIdentifier::parse(s)
    }
}

fn hash_push_exec(h: u64, x: u64) -> (r: u64)
    ensures
        r == hash_push(h, x),
{
    (((h as u128) * 31 + (x as u128)) % 0x1_0000_0000_0000_0000u128) as u64
}

fn hash_str(s: &str, h0: u64) -> (r: u64)
    ensures
        r == hash_chars(s@, h0),
{
    let n = s.unicode_len();
    let mut h = h0;
    let mut i: usize = 0;
    proof {
        assert(s@.subrange(0, n as int) =~= s@);
    }
    while i < n
        invariant
            0 <= i <= n,
            n == s@.len(),
            hash_chars(s@.subrange(i as int, n as int), h) == hash_chars(s@, h0),
        decreases n - i,
    {
        let ghost rem = s@.subrange(i as int, n as int);
        let c = s.get_char(i);
        assert(rem[0] == c);
        h = hash_push_exec(h, (c as u32) as u64);
        proof {
            assert(rem.subrange(1, rem.len() as int) =~= s@.subrange(i as int + 1, n as int));
        }
        i += 1;
    }
    proof {
        assert(s@.subrange(i as int, n as int).len() == 0);
    }
    h
}

} // verus!

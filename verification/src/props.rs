//! The laws this library states about itself, proved once and for all.

use vstd::prelude::*;

use crate::grammar::bare_ok;
use crate::grammar::fallback_value;
use crate::grammar::lemma_render_round_trip;
use crate::grammar::token_value;
use crate::identifier::ident_eq;
use crate::identifier::repr_view;
use crate::identifier::spec_hash_code;
use crate::identifier::KdlIdentifier;

verus! {

/// Round trip: an identifier that keeps the spelling it was parsed from
/// renders to exactly that spelling. Together with the contract of
/// `KdlIdentifier::parse`, whose successful result stores the whole input as
/// its spelling, rendering a freshly parsed identifier reproduces the input
/// byte for byte.
pub proof fn lemma_round_trip(id: KdlIdentifier, t: Seq<char>)
    requires
        id.repr is Some,
        id.repr->0@ == t,
    ensures
        id.rendered() == t,
{
}

/// Semantic idempotence of autoformat: once the stored spelling is cleared,
/// an identifier whose value is a legal bare token renders as that bare
/// token, and any other value renders to a quoted spelling that the current
/// grammar decodes back to exactly that value.
pub proof fn lemma_autoformat_round_trip(id: KdlIdentifier)
    requires
        id.repr is None,
    ensures
        token_value(id.rendered(), false) == Some(id.value@),
        bare_ok(id.value@, false) ==> id.rendered() == id.value@,
{
    lemma_render_round_trip(id.value@);
}

/// Equality ignores provenance: two identifiers with equal values and equal
/// spellings are equal under `==` and hash alike, whatever their spans.
pub proof fn lemma_eq_ignores_span(a: KdlIdentifier, b: KdlIdentifier)
    requires
        a.value@ == b.value@,
        repr_view(a.repr) == repr_view(b.repr),
    ensures
        ident_eq(&a, &b),
        vstd::std_specs::cmp::PartialEqSpec::eq_spec(&a, &b),
        spec_hash_code(a.value@, repr_view(a.repr)) == spec_hash_code(b.value@, repr_view(b.repr)),
{
}

/// Fallback precedence: whenever the current grammar accepts an input, the
/// two-grammar fallback returns the current grammar's decoding, whatever the
/// legacy grammar would have said.
pub proof fn lemma_fallback_precedence(s: Seq<char>)
    ensures
        token_value(s, false) is Some ==> fallback_value(s) == token_value(s, false),
{
}

/// Fallback error shadowing, spec side: the fallback reports failure exactly
/// when both grammars reject the input. The contract of
/// `KdlIdentifier::parse` adds that the error returned then carries the
/// current grammar's message, never a legacy one.
pub proof fn lemma_fallback_fails_iff_both_fail(s: Seq<char>)
    ensures
        (fallback_value(s) is None) == (token_value(s, false) is None && token_value(s, true)
            is None),
{
}

} // verus!

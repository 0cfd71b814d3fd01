//! String operations of the standard library that the rest of the crate
//! relies on, with the behaviour their documentation gives.

use vstd::prelude::*;

verus! {

/// Whether `a` comes before `b` in the order of strings: at the first place
/// where they differ `a` has the lower code point, or `a` ends there and
/// `b` goes on.
pub open spec fn comes_before(a: Seq<char>, b: Seq<char>) -> bool
    decreases a.len(),
{
    if b.len() == 0 {
        false
    } else if a.len() == 0 {
        true
    } else if a[0] != b[0] {
        (a[0] as int) < (b[0] as int)
    } else {
        comes_before(a.drop_first(), b.drop_first())
    }
}

/// `str::eq`: two string slices are equal exactly when they hold the same
/// characters.
#[verifier::external_body]
pub(crate) fn str_eq(a: &str, b: &str) -> (same: bool)
    ensures
        same == (a@ == b@),
{
    a == b
}

/// `str::strip_prefix`: the rest of `s` after `prefix` when `s` starts with
/// it, and `None` when it does not.
#[verifier::external_body]
pub(crate) fn strip_prefix<'a>(s: &'a str, prefix: &str) -> (rest: Option<&'a str>)
    ensures
        match rest {
            Some(tail) => s@ == prefix@ + tail@,
            None => !prefix@.is_prefix_of(s@),
        },
{
    s.strip_prefix(prefix)
}

/// `str::lt`: string slices are ordered by their bytes, place by place,
/// which is the order of their code points.
#[verifier::external_body]
pub(crate) fn str_lt(a: &str, b: &str) -> (less: bool)
    ensures
        less == comes_before(a@, b@),
{
    a < b
}

/// Of two different strings one comes before the other.
pub proof fn lemma_order_is_total(a: Seq<char>, b: Seq<char>)
    ensures
        a == b || comes_before(a, b) || comes_before(b, a),
    decreases a.len(),
{
    if a.len() == 0 && b.len() == 0 {
        assert(a =~= b);
    } else if a.len() == 0 {
        assert(comes_before(a, b));
    } else if b.len() == 0 {
        assert(comes_before(b, a));
    } else if a[0] == b[0] {
        lemma_order_is_total(a.drop_first(), b.drop_first());
        if a.drop_first() == b.drop_first() {
            assert(a =~= seq![a[0]] + a.drop_first());
            assert(b =~= seq![b[0]] + b.drop_first());
        } else if comes_before(a.drop_first(), b.drop_first()) {
            assert(comes_before(a, b));
        } else {
            assert(comes_before(b, a));
        }
    } else {
        if (a[0] as int) < (b[0] as int) {
            assert(comes_before(a, b));
        } else {
            assert(comes_before(b, a));
        }
    }
}

/// No string comes before itself, and of two strings at most one comes
/// before the other.
pub proof fn lemma_order_is_strict(a: Seq<char>, b: Seq<char>)
    ensures
        !comes_before(a, a),
        !(comes_before(a, b) && comes_before(b, a)),
    decreases a.len(),
{
    if a.len() > 0 {
        lemma_order_is_strict(a.drop_first(), a.drop_first());
        if b.len() > 0 {
            lemma_order_is_strict(a.drop_first(), b.drop_first());
        }
    }
}

/// What comes before a string comes before everything after it.
pub proof fn lemma_order_is_transitive(a: Seq<char>, b: Seq<char>, c: Seq<char>)
    requires
        comes_before(a, b),
        comes_before(b, c),
    ensures
        comes_before(a, c),
    decreases a.len(),
{
    if a.len() > 0 && a[0] == b[0] && b[0] == c[0] {
        lemma_order_is_transitive(a.drop_first(), b.drop_first(), c.drop_first());
    }
}

} // verus!

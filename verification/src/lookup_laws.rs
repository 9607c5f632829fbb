use vstd::prelude::*;

use crate::statics::{decimal, decimal_digits, digit_char, lookup_entry, template_for, TemplateTableView};

verus! {

// ---------------------------------------------------------------------------
// Finding an entry by key
// ---------------------------------------------------------------------------

/// An entry is found exactly when some key equals the one searched for; the
/// value found is that of the first entry with an equal key, and never that
/// of an entry whose key differs.
pub proof fn lemma_lookup_entry_first_equal_key<V>(entries: Seq<(Seq<char>, V)>, key: Seq<char>)
    ensures
        lookup_entry(entries, key) is Some <==> exists|i: int|
            0 <= i < entries.len() && #[trigger] entries[i].0 == key,
        forall|i: int|
            0 <= i < entries.len() && #[trigger] entries[i].0 == key && (forall|j: int|
                0 <= j < i ==> entries[j].0 != key) ==> lookup_entry(entries, key) == Some(
                entries[i].1,
            ),
        lookup_entry(entries, key) matches Some(v) ==> exists|i: int|
            0 <= i < entries.len() && #[trigger] entries[i].0 == key && entries[i].1 == v,
    decreases entries.len(),
{
    if entries.len() > 0 {
        let rest = entries.drop_first();
        lemma_lookup_entry_first_equal_key(rest, key);
        if entries[0].0 != key {
            assert forall|i: int|
                0 < i < entries.len() && #[trigger] entries[i].0 == key implies rest[i - 1].0
                == key by {}
            assert forall|i: int| 0 <= i < rest.len() && #[trigger] rest[i].0 == key implies entries[i
                + 1].0 == key by {}
            assert forall|i: int|
                0 <= i < entries.len() && #[trigger] entries[i].0 == key && (forall|j: int|
                    0 <= j < i ==> entries[j].0 != key) implies lookup_entry(entries, key) == Some(
                entries[i].1,
            ) by {
                assert(rest[i - 1].0 == key);
                assert forall|j: int| 0 <= j < i - 1 implies rest[j].0 != key by {
                    assert(entries[j + 1].0 != key);
                }
            }
            if lookup_entry(entries, key) is Some {
                let v = lookup_entry(entries, key)->0;
                let i = choose|i: int| 0 <= i < rest.len() && #[trigger] rest[i].0 == key && rest[i].1 == v;
                assert(entries[i + 1].0 == key && entries[i + 1].1 == v);
            }
        }
    }
}

/// The template found for an id is the value of the first entry whose key
/// is the decimal rendering of the id; entries under other keys are never
/// returned, and there is none when no key is that rendering.
pub proof fn lemma_template_for_exact_key(t: TemplateTableView, id: i32)
    ensures
        template_for(t, id) is Some <==> exists|i: int|
            0 <= i < t.len() && #[trigger] t[i].0 == decimal(id as int),
        forall|i: int|
            0 <= i < t.len() && #[trigger] t[i].0 == decimal(id as int) && (forall|j: int|
                0 <= j < i ==> t[j].0 != decimal(id as int)) ==> template_for(t, id) == Some(t[i].1),
        template_for(t, id) matches Some(v) ==> exists|i: int|
            0 <= i < t.len() && #[trigger] t[i].0 == decimal(id as int) && t[i].1 == v,
{
    lemma_lookup_entry_first_equal_key(t, decimal(id as int));
}

// ---------------------------------------------------------------------------
// Decimal rendering
// ---------------------------------------------------------------------------

proof fn lemma_digits_shape(n: nat)
    ensures
        decimal_digits(n).len() >= 1,
        n >= 10 ==> decimal_digits(n).len() >= 2,
        decimal_digits(n)[0] != '-',
        decimal_digits(n).last() == digit_char((n % 10) as int),
    decreases n,
{
    if n >= 10 {
        lemma_digits_shape(n / 10);
    }
}

proof fn lemma_digits_injective(n: nat, m: nat)
    requires
        decimal_digits(n) == decimal_digits(m),
    ensures
        n == m,
    decreases n,
{
    lemma_digits_shape(n);
    lemma_digits_shape(m);
    if n >= 10 && m >= 10 {
        assert(decimal_digits(n).drop_last() =~= decimal_digits(n / 10));
        assert(decimal_digits(m).drop_last() =~= decimal_digits(m / 10));
        lemma_digits_injective(n / 10, m / 10);
    }
}

/// Different integers have different decimal renderings, so a template key
/// names at most one id.
pub proof fn lemma_decimal_injective(a: int, b: int)
    requires
        decimal(a) == decimal(b),
    ensures
        a == b,
{
    if a < 0 && b < 0 {
        assert(decimal(a).drop_first() =~= decimal_digits((-a) as nat));
        assert(decimal(b).drop_first() =~= decimal_digits((-b) as nat));
        lemma_digits_injective((-a) as nat, (-b) as nat);
    } else if a >= 0 && b >= 0 {
        lemma_digits_injective(a as nat, b as nat);
    } else if a < 0 {
        lemma_digits_shape(b as nat);
        assert(decimal(a)[0] == '-');
    } else {
        lemma_digits_shape(a as nat);
        assert(decimal(b)[0] == '-');
    }
}

/// The rendering of a one-digit number is that digit alone, and a
/// negative number's rendering is a minus sign before its magnitude's.
pub proof fn lemma_decimal_shape(n: int)
    ensures
        0 <= n < 10 ==> decimal(n) == seq![digit_char(n)],
        n < 0 ==> decimal(n) == seq!['-'] + decimal(-n),
        n >= 10 ==> decimal(n) == decimal(n / 10).push(digit_char(n % 10)),
{
}

} // verus!

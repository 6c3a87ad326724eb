//! Texts in the order of `String` (code point by code point), and lists kept sorted by a
//! text key with the last value given for each key, as a `BTreeMap` keeps them.
use vstd::prelude::*;
use crate::env_file::{last_value, pair_views};
use crate::text::{chars_of, eq_chars};

verus! {

broadcast use vstd::string::group_string_axioms;

/// `a` comes before `b`: at the first position where they differ `a` has the smaller
/// character (code point), or `a` is a proper prefix of `b`.
pub open spec fn text_less(a: Seq<char>, b: Seq<char>) -> bool
    decreases a.len(),
{
    if a.len() == 0 {
        b.len() > 0
    } else if b.len() == 0 {
        false
    } else if a[0] != b[0] {
        a[0] < b[0]
    } else {
        text_less(a.drop_first(), b.drop_first())
    }
}

/// Two texts with the same first character and the same rest are equal.
proof fn lemma_cons_eq(a: Seq<char>, b: Seq<char>)
    requires
        a.len() > 0,
        b.len() > 0,
        a[0] == b[0],
        a.drop_first() == b.drop_first(),
    ensures
        a == b,
{
    assert(a.len() == a.drop_first().len() + 1 && b.len() == b.drop_first().len() + 1);
    assert(a =~= b) by {
        assert forall|i: int| 0 <= i < a.len() implies a[i] == b[i] by {
            if i > 0 {
                assert(a[i] == a.drop_first()[i - 1]);
                assert(b[i] == b.drop_first()[i - 1]);
            }
        }
    }
}

/// The order is strict and total: of two different texts exactly one comes first.
pub proof fn lemma_text_less_total(a: Seq<char>, b: Seq<char>)
    ensures
        !text_less(a, a),
        text_less(a, b) ==> !text_less(b, a),
        a != b ==> text_less(a, b) || text_less(b, a),
    decreases a.len(),
{
    if a.len() > 0 && b.len() > 0 {
        lemma_text_less_total(a.drop_first(), b.drop_first());
        lemma_text_less_total(a.drop_first(), a.drop_first());
        if a[0] == b[0] && a != b {
            if a.drop_first() == b.drop_first() {
                lemma_cons_eq(a, b);
            }
        }
    } else if a.len() > 0 {
        lemma_text_less_total(a.drop_first(), a.drop_first());
    } else if b.len() == 0 {
        assert(a =~= b);
    }
}

/// The order is transitive.
pub proof fn lemma_text_less_transitive(a: Seq<char>, b: Seq<char>, c: Seq<char>)
    requires
        text_less(a, b),
        text_less(b, c),
    ensures
        text_less(a, c),
    decreases a.len(),
{
    if a.len() > 0 && b.len() > 0 && c.len() > 0 {
        if a[0] == b[0] && b[0] == c[0] {
            lemma_text_less_transitive(a.drop_first(), b.drop_first(), c.drop_first());
        }
    }
}

/// Whether `a` comes before `b` in the order of `String`.
pub fn text_less_exec(a: &[char], b: &[char]) -> (r: bool)
    ensures
        r == text_less(a@, b@),
{
    let mut i: usize = 0;
    assert(a@.subrange(0, a.len() as int) =~= a@);
    assert(b@.subrange(0, b.len() as int) =~= b@);
    while i < a.len() && i < b.len()
        invariant
            i <= a.len(),
            i <= b.len(),
            text_less(a@, b@) == text_less(a@.subrange(i as int, a.len() as int), b@.subrange(i as int, b.len() as int)),
        decreases a.len() - i,
    {
        let ghost sa = a@.subrange(i as int, a.len() as int);
        let ghost sb = b@.subrange(i as int, b.len() as int);
        if a[i] != b[i] {
            assert(sa[0] == a[i as int] && sb[0] == b[i as int]);
            return a[i] < b[i];
        }
        assert(sa.drop_first() =~= a@.subrange(i + 1, a.len() as int));
        assert(sb.drop_first() =~= b@.subrange(i + 1, b.len() as int));
        i = i + 1;
    }
    i == a.len() && i < b.len()
}

/// The keys strictly increase along the list.
pub open spec fn keys_ascending(v: Seq<(Seq<char>, Seq<char>)>) -> bool {
    forall|i: int, j: int| 0 <= i < j < v.len() ==> text_less(#[trigger] v[i].0, #[trigger] v[j].0)
}

/// The list holds, for each key of `es`, the value of its last entry, and nothing else.
pub open spec fn holds_last_values(v: Seq<(Seq<char>, Seq<char>)>, es: Seq<(Seq<char>, Seq<char>)>) -> bool {
    &&& forall|i: int| 0 <= i < v.len() ==> last_value(es, #[trigger] v[i].0) == Some(v[i].1)
    &&& forall|k: Seq<char>| #[trigger] last_value(es, k) is Some ==> exists|i: int| 0 <= i < v.len() && v[i].0 == k
}

/// Adding an entry changes the last value of its key only.
proof fn lemma_last_value_push(es: Seq<(Seq<char>, Seq<char>)>, e: (Seq<char>, Seq<char>), k: Seq<char>)
    ensures
        last_value(es.push(e), k) == if k == e.0 {
            Some(e.1)
        } else {
            last_value(es, k)
        },
{
    assert(es.push(e).drop_last() =~= es);
}

/// The entries sorted by key, one per key, each with the value of the key's last entry:
/// what a `BTreeMap` filled with the entries in order holds.
pub fn last_values_by_key(es: &Vec<(String, String)>) -> (r: Vec<(String, String)>)
    ensures
        keys_ascending(pair_views(r@)),
        holds_last_values(pair_views(r@), pair_views(es@)),
{
    let ghost ev = pair_views(es@);
    let mut out: Vec<(String, String)> = Vec::new();
    let mut n: usize = 0;
    while n < es.len()
        invariant
            n <= es.len(),
            ev == pair_views(es@),
            keys_ascending(pair_views(out@)),
            holds_last_values(pair_views(out@), ev.take(n as int)),
        decreases es.len() - n,
    {
        let ghost before = pair_views(out@);
        let ghost prefix = ev.take(n as int);
        let ghost e = ev[n as int];
        assert(ev.take(n + 1) =~= prefix.push(e));
        let key = chars_of(es[n].0.as_str());
        let mut j: usize = 0;
        while j < out.len()
            invariant
                j <= out.len(),
                key@ == e.0,
                pair_views(out@) == before,
                forall|i: int| 0 <= i < j ==> text_less(#[trigger] before[i].0, e.0),
            ensures
                j <= out.len(),
                pair_views(out@) == before,
                forall|i: int| 0 <= i < j ==> text_less(#[trigger] before[i].0, e.0),
                j < out.len() ==> !text_less(before[j as int].0, e.0),
            decreases out.len() - j,
        {
            let kj = chars_of(out[j].0.as_str());
            if !text_less_exec(&kj, &key) {
                break;
            }
            j = j + 1;
        }
        let same = if j < out.len() {
            let kj = chars_of(out[j].0.as_str());
            eq_chars(&kj, &key)
        } else {
            false
        };
        let entry = (es[n].0.clone(), es[n].1.clone());
        if same {
            out.set(j, entry);
            proof {
                let after = pair_views(out@);
                assert(after =~= before.update(j as int, e));
                assert forall|a: int, b: int| 0 <= a < b < after.len() implies text_less(#[trigger] after[a].0, #[trigger] after[b].0) by {
                    assert(after[a].0 == before[a].0);
                    assert(after[b].0 == before[b].0);
                }
                assert forall|i: int| 0 <= i < after.len() implies last_value(prefix.push(e), #[trigger] after[i].0) == Some(after[i].1) by {
                    lemma_last_value_push(prefix, e, after[i].0);
                    if i != j {
                        assert(text_less(before[i].0, before[j as int].0) || text_less(before[j as int].0, before[i].0));
                        lemma_text_less_total(before[i].0, before[i].0);
                    }
                }
                assert forall|k: Seq<char>| #[trigger] last_value(prefix.push(e), k) is Some implies exists|i: int| 0 <= i < after.len() && after[i].0 == k by {
                    lemma_last_value_push(prefix, e, k);
                    if k == e.0 {
                        assert(after[j as int].0 == k);
                    } else {
                        assert(last_value(prefix, k) is Some);
                        let i = choose|i: int| 0 <= i < before.len() && before[i].0 == k;
                        assert(after[i].0 == k);
                    }
                }
            }
        } else {
            out.insert(j, entry);
            proof {
                let after = pair_views(out@);
                assert(after =~= before.insert(j as int, e));
                if j < before.len() {
                    lemma_text_less_total(before[j as int].0, e.0);
                    assert(text_less(e.0, before[j as int].0));
                }
                assert forall|a: int, b: int| 0 <= a < b < after.len() implies text_less(#[trigger] after[a].0, #[trigger] after[b].0) by {
                    if b < j {
                        assert(after[a] == before[a] && after[b] == before[b]);
                    } else if b == j {
                        assert(after[a] == before[a]);
                    } else if a < j {
                        assert(after[a] == before[a] && after[b] == before[b - 1]);
                        assert(text_less(before[a].0, e.0));
                        if b - 1 > j {
                            assert(text_less(before[j as int].0, before[b - 1].0));
                            lemma_text_less_transitive(e.0, before[j as int].0, before[b - 1].0);
                        }
                        lemma_text_less_transitive(before[a].0, e.0, before[b - 1].0);
                    } else if a == j {
                        assert(after[b] == before[b - 1]);
                        if b - 1 > j {
                            assert(text_less(before[j as int].0, before[b - 1].0));
                            lemma_text_less_transitive(e.0, before[j as int].0, before[b - 1].0);
                        }
                    } else {
                        assert(after[a] == before[a - 1] && after[b] == before[b - 1]);
                    }
                }
                assert forall|i: int| 0 <= i < after.len() implies last_value(prefix.push(e), #[trigger] after[i].0) == Some(after[i].1) by {
                    lemma_last_value_push(prefix, e, after[i].0);
                    if i < j {
                        assert(after[i] == before[i]);
                        lemma_text_less_total(before[i].0, e.0);
                        lemma_text_less_total(e.0, e.0);
                    } else if i > j {
                        assert(after[i] == before[i - 1]);
                        assert(text_less(e.0, before[i - 1].0)) by {
                            if i - 1 > j {
                                assert(text_less(before[j as int].0, before[i - 1].0));
                                lemma_text_less_transitive(e.0, before[j as int].0, before[i - 1].0);
                            }
                        }
                        lemma_text_less_total(e.0, e.0);
                    }
                }
                assert forall|k: Seq<char>| #[trigger] last_value(prefix.push(e), k) is Some implies exists|i: int| 0 <= i < after.len() && after[i].0 == k by {
                    lemma_last_value_push(prefix, e, k);
                    if k == e.0 {
                        assert(after[j as int].0 == k);
                    } else {
                        assert(last_value(prefix, k) is Some);
                        let i = choose|i: int| 0 <= i < before.len() && before[i].0 == k;
                        if i < j {
                            assert(after[i].0 == k);
                        } else {
                            assert(after[i + 1].0 == k);
                        }
                    }
                }
            }
        }
        n = n + 1;
    }
    assert(ev.take(es.len() as int) =~= ev);
    out
}

} // verus!

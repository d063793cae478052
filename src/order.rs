//! Lexical order on file names, and sorting by it.
use vstd::prelude::*;
use vstd::relations::*;
use vstd::seq_lib::*;
use vstd::string::*;

verus! {

/// `a` comes no later than `b` when compared character by character, by code
/// point, a proper prefix coming first.
pub open spec fn lex_le(a: Seq<char>, b: Seq<char>) -> bool
    decreases a.len(),
{
    if a.len() == 0 {
        true
    } else if b.len() == 0 {
        false
    } else if a[0] != b[0] {
        (a[0] as int) < (b[0] as int)
    } else {
        lex_le(a.drop_first(), b.drop_first())
    }
}

/// The order relation used to sort names.
pub open spec fn name_order() -> spec_fn(Seq<char>, Seq<char>) -> bool {
    |a: Seq<char>, b: Seq<char>| lex_le(a, b)
}

/// The character sequences of a list of strings.
pub open spec fn views(v: Seq<String>) -> Seq<Seq<char>> {
    v.map_values(|s: String| s@)
}

/// `names` in lexical order.
pub open spec fn sorted_names(names: Seq<Seq<char>>) -> Seq<Seq<char>> {
    names.sort_by(name_order())
}

pub proof fn lemma_lex_reflexive(a: Seq<char>)
    ensures
        lex_le(a, a),
    decreases a.len(),
{
    if a.len() > 0 {
        lemma_lex_reflexive(a.drop_first());
    }
}

pub proof fn lemma_lex_antisymmetric(a: Seq<char>, b: Seq<char>)
    requires
        lex_le(a, b),
        lex_le(b, a),
    ensures
        a == b,
    decreases a.len(),
{
    if a.len() > 0 && b.len() > 0 {
        lemma_lex_antisymmetric(a.drop_first(), b.drop_first());
        assert(a =~= seq![a[0]] + a.drop_first());
        assert(b =~= seq![b[0]] + b.drop_first());
    } else {
        assert(a =~= b);
    }
}

pub proof fn lemma_lex_transitive(a: Seq<char>, b: Seq<char>, c: Seq<char>)
    requires
        lex_le(a, b),
        lex_le(b, c),
    ensures
        lex_le(a, c),
    decreases a.len(),
{
    if a.len() > 0 && b.len() > 0 && c.len() > 0 {
        if a[0] == b[0] && b[0] == c[0] {
            lemma_lex_transitive(a.drop_first(), b.drop_first(), c.drop_first());
        }
    }
}

pub proof fn lemma_lex_total(a: Seq<char>, b: Seq<char>)
    ensures
        lex_le(a, b) || lex_le(b, a),
    decreases a.len(),
{
    if a.len() > 0 && b.len() > 0 {
        if a[0] == b[0] {
            lemma_lex_total(a.drop_first(), b.drop_first());
        }
    }
}

/// Lexical order is a total order.
pub proof fn lemma_name_order_total()
    ensures
        total_ordering(name_order()),
{
    assert forall|a: Seq<char>| #[trigger] name_order()(a, a) by {
        lemma_lex_reflexive(a);
    }
    assert forall|a: Seq<char>, b: Seq<char>|
        #[trigger] name_order()(a, b) && #[trigger] name_order()(b, a) implies a == b by {
        lemma_lex_antisymmetric(a, b);
    }
    assert forall|a: Seq<char>, b: Seq<char>, c: Seq<char>|
        #[trigger] name_order()(a, b) && #[trigger] name_order()(b, c) implies name_order()(
        a,
        c,
    ) by {
        lemma_lex_transitive(a, b, c);
    }
    assert forall|a: Seq<char>, b: Seq<char>|
        #[trigger] name_order()(a, b) || #[trigger] name_order()(b, a) by {
        lemma_lex_total(a, b);
    }
}

/// A common prefix does not change the order of two names.
pub proof fn lemma_lex_common_prefix(p: Seq<char>, a: Seq<char>, b: Seq<char>)
    ensures
        lex_le(p + a, p + b) == lex_le(a, b),
    decreases p.len(),
{
    if p.len() > 0 {
        assert((p + a).drop_first() =~= p.drop_first() + a);
        assert((p + b).drop_first() =~= p.drop_first() + b);
        lemma_lex_common_prefix(p.drop_first(), a, b);
    } else {
        assert(p + a =~= a);
        assert(p + b =~= b);
    }
}

/// Two names free of `c`, each followed by the same tail that starts with
/// `c`, compare as they do with any other such tail.
pub proof fn lemma_lex_tail_swap(s: Seq<char>, t: Seq<char>, x: Seq<char>, y: Seq<char>, c: char)
    requires
        forall|i: int| 0 <= i < s.len() ==> s[i] != c,
        forall|i: int| 0 <= i < t.len() ==> t[i] != c,
        x.len() > 0 && x[0] == c,
        y.len() > 0 && y[0] == c,
    ensures
        lex_le(s + x, t + x) == lex_le(s + y, t + y),
    decreases s.len(),
{
    if s.len() == 0 && t.len() == 0 {
        assert(s + x =~= x);
        assert(t + x =~= x);
        assert(s + y =~= y);
        assert(t + y =~= y);
        lemma_lex_reflexive(x);
        lemma_lex_reflexive(y);
    } else if s.len() == 0 {
        assert(s + x =~= x);
        assert(s + y =~= y);
        assert((t + x)[0] == t[0]);
        assert((t + y)[0] == t[0]);
    } else if t.len() == 0 {
        assert(t + x =~= x);
        assert(t + y =~= y);
        assert((s + x)[0] == s[0]);
        assert((s + y)[0] == s[0]);
    } else {
        assert((s + x)[0] == s[0]);
        assert((s + y)[0] == s[0]);
        assert((t + x)[0] == t[0]);
        assert((t + y)[0] == t[0]);
        if s[0] == t[0] {
            assert((s + x).drop_first() =~= s.drop_first() + x);
            assert((t + x).drop_first() =~= t.drop_first() + x);
            assert((s + y).drop_first() =~= s.drop_first() + y);
            assert((t + y).drop_first() =~= t.drop_first() + y);
            lemma_lex_tail_swap(s.drop_first(), t.drop_first(), x, y, c);
        }
    }
}

/// Whether `a` comes no later than `b` in lexical order.
pub fn name_le(a: &str, b: &str) -> (r: bool)
    ensures
        r == lex_le(a@, b@),
{
    let la = a.unicode_len();
    let lb = b.unicode_len();
    let mut i: usize = 0;
    assert(a@.skip(0) =~= a@);
    assert(b@.skip(0) =~= b@);
    while i < la && i < lb
        invariant
            la == a@.len(),
            lb == b@.len(),
            i <= la,
            i <= lb,
            lex_le(a@, b@) == lex_le(a@.skip(i as int), b@.skip(i as int)),
        decreases la - i,
    {
        let ca = a.get_char(i);
        let cb = b.get_char(i);
        if ca != cb {
            return (ca as u32) < (cb as u32);
        }
        assert(a@.skip(i as int).drop_first() =~= a@.skip(i + 1));
        assert(b@.skip(i as int).drop_first() =~= b@.skip(i + 1));
        i = i + 1;
    }
    i == la
}

/// The names in lexical order.
pub fn sort_names(v: Vec<String>) -> (r: Vec<String>)
    ensures
        views(r@) == sorted_names(views(v@)),
{
    broadcast use group_to_multiset_ensures, to_multiset_insert, to_multiset_build;

    let mut out: Vec<String> = Vec::new();
    let n = v.len();
    let mut i: usize = 0;
    while i < n
        invariant
            n == v.len(),
            i <= n,
            sorted_by(views(out@), name_order()),
            views(out@).to_multiset() == views(v@.subrange(0, i as int)).to_multiset(),
        decreases n - i,
    {
        let x = v[i].clone();
        let mut p: usize = 0;
        while p < out.len() && name_le(out[p].as_str(), x.as_str())
            invariant
                p <= out.len(),
                forall|j: int| 0 <= j < p ==> lex_le(#[trigger] out@[j]@, x@),
            decreases out.len() - p,
        {
            p = p + 1;
        }
        let ghost before = out@;
        proof {
            if p < out.len() {
                lemma_lex_total(out@[p as int]@, x@);
            }
        }
        out.insert(p, x);
        proof {
            lemma_name_order_total();
            assert(views(out@) =~= views(before).insert(p as int, x@));
            assert forall|a: int, b: int|
                0 <= a < b < views(out@).len() implies name_order()(
                #[trigger] views(out@)[a],
                #[trigger] views(out@)[b],
            ) by {
                if b < p {
                } else if a < p && b == p {
                } else if a < p {
                    assert(lex_le(before[a]@, x@));
                    assert(lex_le(x@, before[p as int]@));
                    if b - 1 > p {
                        assert(name_order()(views(before)[p as int], views(before)[b - 1]));
                    } else {
                        lemma_lex_reflexive(before[p as int]@);
                    }
                    lemma_lex_transitive(x@, before[p as int]@, before[b - 1]@);
                    lemma_lex_transitive(before[a]@, x@, before[b - 1]@);
                } else if a == p {
                    if b - 1 > p {
                        assert(name_order()(views(before)[p as int], views(before)[b - 1]));
                    } else {
                        lemma_lex_reflexive(before[p as int]@);
                    }
                    lemma_lex_transitive(x@, before[p as int]@, before[b - 1]@);
                } else {
                    assert(name_order()(views(before)[a - 1], views(before)[b - 1]));
                }
            }
            assert(views(v@.subrange(0, i + 1)) =~= views(v@.subrange(0, i as int)).push(x@));
            to_multiset_insert(views(before), p as int, x@);
            to_multiset_build(views(v@.subrange(0, i as int)), x@);
        }
        i = i + 1;
    }
    proof {
        lemma_name_order_total();
        assert(v@.subrange(0, n as int) =~= v@);
        views(v@).lemma_sort_by_ensures(name_order());
        lemma_sorted_unique(views(out@), sorted_names(views(v@)), name_order());
    }
    out
}

} // verus!

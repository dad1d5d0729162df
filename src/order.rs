//! The order in which listed options are shown: text compared character by
//! character, keys of two texts compared first by the first, and an
//! insertion sort of keyed items.
use vstd::multiset::Multiset;
use vstd::prelude::*;

verus! {

broadcast use vstd::seq_lib::group_to_multiset_ensures;

/// Lexicographic comparison of two texts by their characters: negative,
/// zero or positive as `a` comes before, equals or comes after `b`.
pub open spec fn lex_cmp(a: Seq<char>, b: Seq<char>) -> int
    decreases a.len(),
{
    if a.len() == 0 {
        if b.len() == 0 {
            0
        } else {
            -1
        }
    } else if b.len() == 0 {
        1
    } else if a[0] < b[0] {
        -1
    } else if a[0] > b[0] {
        1
    } else {
        lex_cmp(a.drop_first(), b.drop_first())
    }
}

pub proof fn lemma_cmp_props(a: Seq<char>, b: Seq<char>)
    ensures
        -1 <= lex_cmp(a, b) <= 1,
        lex_cmp(a, b) == -lex_cmp(b, a),
        lex_cmp(a, b) == 0 <==> a == b,
    decreases a.len(),
{
    if a.len() > 0 && b.len() > 0 && a[0] == b[0] {
        lemma_cmp_props(a.drop_first(), b.drop_first());
        if a.drop_first() == b.drop_first() {
            assert(a =~= seq![a[0]] + a.drop_first());
            assert(b =~= seq![b[0]] + b.drop_first());
        }
    }
    if a.len() == 0 && b.len() == 0 {
        assert(a =~= b);
    }
}

pub proof fn lemma_cmp_trans(a: Seq<char>, b: Seq<char>, c: Seq<char>)
    requires
        lex_cmp(a, b) <= 0,
        lex_cmp(b, c) <= 0,
    ensures
        lex_cmp(a, c) <= 0,
        lex_cmp(a, b) < 0 || lex_cmp(b, c) < 0 ==> lex_cmp(a, c) < 0,
    decreases a.len(),
{
    if a.len() > 0 && b.len() > 0 && c.len() > 0 && a[0] == b[0] && b[0] == c[0] {
        lemma_cmp_trans(a.drop_first(), b.drop_first(), c.drop_first());
    }
}

/// A sort key: two texts, compared first by the first.
pub open spec fn key_le(a: (Seq<char>, Seq<char>), b: (Seq<char>, Seq<char>)) -> bool {
    lex_cmp(a.0, b.0) < 0 || (lex_cmp(a.0, b.0) == 0 && lex_cmp(a.1, b.1) <= 0)
}

pub proof fn lemma_key_total(a: (Seq<char>, Seq<char>), b: (Seq<char>, Seq<char>))
    ensures
        key_le(a, b) || key_le(b, a),
{
    lemma_cmp_props(a.0, b.0);
    lemma_cmp_props(a.1, b.1);
}

pub proof fn lemma_key_trans(
    a: (Seq<char>, Seq<char>),
    b: (Seq<char>, Seq<char>),
    c: (Seq<char>, Seq<char>),
)
    requires
        key_le(a, b),
        key_le(b, c),
    ensures
        key_le(a, c),
{
    lemma_cmp_props(a.0, b.0);
    lemma_cmp_props(b.0, c.0);
    lemma_cmp_props(a.0, c.0);
    lemma_cmp_trans(a.0, b.0, c.0);
    if lex_cmp(a.0, b.0) == 0 && lex_cmp(b.0, c.0) == 0 {
        lemma_cmp_trans(a.1, b.1, c.1);
    }
}

/// Compares `a` with `b` as `lex_cmp` does.
pub fn compare(a: &str, b: &str) -> (r: i8)
    ensures
        r as int == lex_cmp(a@, b@),
{
    let n = a.unicode_len();
    let m = b.unicode_len();
    let mut i: usize = 0;
    assert(a@.skip(0) =~= a@);
    assert(b@.skip(0) =~= b@);
    while i < n && i < m
        invariant
            n == a@.len(),
            m == b@.len(),
            i <= n,
            i <= m,
            lex_cmp(a@, b@) == lex_cmp(a@.skip(i as int), b@.skip(i as int)),
        decreases n - i,
    {
        let x = a.get_char(i);
        let y = b.get_char(i);
        assert(a@.skip(i as int)[0] == x);
        assert(b@.skip(i as int)[0] == y);
        if x < y {
            return -1;
        }
        if x > y {
            return 1;
        }
        assert(a@.skip(i as int).drop_first() =~= a@.skip(i + 1));
        assert(b@.skip(i as int).drop_first() =~= b@.skip(i + 1));
        i = i + 1;
    }
    if i == n && i == m {
        0
    } else if i == n {
        -1
    } else {
        1
    }
}

/// Whether the key `a` may stand before the key `b`.
pub fn key_le_exec(a: &(String, String), b: &(String, String)) -> (r: bool)
    ensures
        r == key_le((a.0@, a.1@), (b.0@, b.1@)),
{
    let c = compare(a.0.as_str(), b.0.as_str());
    if c < 0 {
        true
    } else if c > 0 {
        false
    } else {
        compare(a.1.as_str(), b.1.as_str()) <= 0
    }
}

/// Items that are listed in the order of a key of two texts.
pub trait Keyed {
    spec fn key(&self) -> (Seq<char>, Seq<char>);

    fn sort_key(&self) -> (r: (String, String))
        ensures
            (r.0@, r.1@) == self.key(),
    ;
}

pub open spec fn key_of<T: Keyed>(e: T) -> (Seq<char>, Seq<char>) {
    e.key()
}

/// The keys of `s` never decrease.
pub open spec fn sorted_by_key<T: Keyed>(s: Seq<T>) -> bool {
    forall|i: int, j: int| 0 <= i < j < s.len() ==> key_le(key_of(#[trigger] s[i]), key_of(#[trigger] s[j]))
}

/// The items of `s` whose key is `k`, in their order.
pub open spec fn with_key<T: Keyed>(s: Seq<T>, k: (Seq<char>, Seq<char>)) -> Seq<T>
    decreases s.len(),
{
    if s.len() == 0 {
        Seq::empty()
    } else {
        let p = with_key(s.drop_last(), k);
        if s.last().key() == k {
            p.push(s.last())
        } else {
            p
        }
    }
}

proof fn lemma_with_key_add<T: Keyed>(a: Seq<T>, b: Seq<T>, k: (Seq<char>, Seq<char>))
    ensures
        with_key(a + b, k) == with_key(a, k) + with_key(b, k),
    decreases b.len(),
{
    if b.len() == 0 {
        assert(a + b =~= a);
        assert(with_key(a, k) + with_key(b, k) =~= with_key(a, k));
    } else {
        lemma_with_key_add(a, b.drop_last(), k);
        assert((a + b).drop_last() =~= a + b.drop_last());
        assert((a + b).last() == b.last());
        if b.last().key() == k {
            assert(with_key(a, k) + with_key(b.drop_last(), k).push(b.last()) =~= (with_key(a, k)
                + with_key(b.drop_last(), k)).push(b.last()));
        }
    }
}

proof fn lemma_with_key_none<T: Keyed>(s: Seq<T>, k: (Seq<char>, Seq<char>))
    requires
        forall|i: int| 0 <= i < s.len() ==> (#[trigger] s[i]).key() != k,
    ensures
        with_key(s, k) == Seq::<T>::empty(),
    decreases s.len(),
{
    if s.len() > 0 {
        assert forall|i: int| 0 <= i < s.drop_last().len() implies (
        #[trigger] s.drop_last()[i]).key() != k by {
            assert(s.drop_last()[i] == s[i]);
        }
        lemma_with_key_none(s.drop_last(), k);
        assert(s.last() == s[s.len() - 1]);
    }
}

proof fn lemma_with_key_one<T: Keyed>(x: T, k: (Seq<char>, Seq<char>))
    ensures
        with_key(seq![x], k) == (if x.key() == k {
            seq![x]
        } else {
            Seq::<T>::empty()
        }),
{
    let e = Seq::<T>::empty();
    assert(seq![x].drop_last() =~= e);
    assert(with_key(e, k) == e);
    assert(with_key(seq![x].drop_last(), k) == e);
    assert(seq![x].last() == x);
    assert(e.push(x) =~= seq![x]);
}

/// Sorts `items` by their keys; the items of any one key keep their order.
pub fn sort_by_key<T: Keyed>(items: Vec<T>) -> (r: Vec<T>)
    ensures
        sorted_by_key(r@),
        r@.to_multiset() == items@.to_multiset(),
        forall|k: (Seq<char>, Seq<char>)| #[trigger] with_key(r@, k) == with_key(items@, k),
{
    let ghost orig = items@;
    let mut rest = items;
    let mut r: Vec<T> = Vec::new();
    while rest.len() > 0
        invariant
            sorted_by_key(r@),
            r@.to_multiset().add(rest@.to_multiset()) == orig.to_multiset(),
            rest@.len() <= orig.len(),
            rest@ == orig.subrange(orig.len() - rest@.len(), orig.len() as int),
            forall|k: (Seq<char>, Seq<char>)| #[trigger] with_key(r@, k) == with_key(
                orig.subrange(0, orig.len() - rest@.len()),
                k,
            ),
        decreases rest@.len(),
    {
        let ghost rest0 = rest@;
        let ghost i0 = orig.len() - rest0.len();
        let x = rest.remove(0);
        assert(rest0.to_multiset() == rest@.to_multiset().insert(x)) by {
            vstd::seq_lib::to_multiset_remove(rest0, 0);
            assert(rest0.to_multiset().remove(x).insert(x) =~= rest0.to_multiset());
        }
        let xk = x.sort_key();
        let mut j: usize = r.len();
        while j > 0 && !key_le_exec(&r[j - 1].sort_key(), &xk)
            invariant
                j <= r@.len(),
                sorted_by_key(r@),
                (xk.0@, xk.1@) == x.key(),
                forall|k: int| j <= k < r@.len() ==> !key_le(key_of(#[trigger] r@[k]), key_of(x)),
            decreases j,
        {
            j = j - 1;
        }
        let ghost r0 = r@;
        proof {
            assert forall|k: int| j <= k < r0.len() implies key_le(key_of(x), key_of(#[trigger] r0[k])) by {
                lemma_key_total(key_of(x), key_of(r0[k]));
            }
            if j > 0 {
                assert forall|k: int| 0 <= k < j implies key_le(key_of(#[trigger] r0[k]), key_of(x)) by {
                    if k < j - 1 {
                        lemma_key_trans(key_of(r0[k]), key_of(r0[j - 1]), key_of(x));
                    }
                }
            }
        }
        r.insert(j, x);
        proof {
            vstd::seq_lib::to_multiset_insert(r0, j as int, x);
            assert forall|a: int, b: int| 0 <= a < b < r@.len() implies key_le(
                key_of(#[trigger] r@[a]),
                key_of(#[trigger] r@[b]),
            ) by {
                if a < j && b == j {
                } else if a == j {
                    assert(r@[b] == r0[b - 1]);
                } else if b < j {
                } else if a < j {
                    assert(r@[b] == r0[b - 1]);
                    lemma_key_trans(key_of(r0[a]), key_of(x), key_of(r0[b - 1]));
                } else {
                    assert(r@[a] == r0[a - 1]);
                    assert(r@[b] == r0[b - 1]);
                }
            }
            assert(r@.to_multiset().add(rest@.to_multiset()) =~= orig.to_multiset());
            assert(rest@ =~= orig.subrange(orig.len() - rest@.len(), orig.len() as int));
            let pre = orig.subrange(0, i0);
            let pre1 = orig.subrange(0, i0 + 1);
            assert(pre1.drop_last() =~= pre);
            assert(x == rest0[0]);
            assert(pre1.last() == x);
            let a = r0.subrange(0, j as int);
            let b = r0.subrange(j as int, r0.len() as int);
            assert(r0 =~= a + b);
            assert(r@ =~= (a + seq![x]) + b);
            assert forall|k: (Seq<char>, Seq<char>)| #[trigger] with_key(r@, k) == with_key(pre1, k) by {
                lemma_with_key_add(a + seq![x], b, k);
                lemma_with_key_add(a, seq![x], k);
                lemma_with_key_add(a, b, k);
                lemma_with_key_one(x, k);
                if x.key() == k {
                    assert forall|i: int| 0 <= i < b.len() implies (#[trigger] b[i]).key() != k by {
                        assert(b[i] == r0[j + i]);
                        lemma_cmp_props(k.0, k.0);
                        lemma_cmp_props(k.1, k.1);
                    }
                    lemma_with_key_none(b, k);
                    assert(with_key(a, k) + with_key(b, k) =~= with_key(a, k));
                    assert(with_key(a, k) + seq![x] + with_key(b, k) =~= with_key(a, k).push(x));
                } else {
                    assert(with_key(a, k) + Seq::<T>::empty() =~= with_key(a, k));
                }
            }
        }
    }
    assert(orig.subrange(0, orig.len() as int) =~= orig);
    assert(rest@.to_multiset() =~= Multiset::empty());
    assert(r@.to_multiset().add(rest@.to_multiset()) =~= r@.to_multiset());
    r
}

} // verus!

//! Total preorders on sort keys, and a stable sort stated over index permutations.

use vstd::prelude::*;

verus! {

/// A key type with an executable comparison that is a total preorder.
pub trait OrdKey: Sized {
    spec fn le(self, other: Self) -> bool;

    fn le_exec(&self, other: &Self) -> (r: bool)
        ensures
            r == self.le(*other),
    ;

    proof fn lemma_total(a: Self, b: Self)
        ensures
            a.le(b) || b.le(a),
    ;

    proof fn lemma_trans(a: Self, b: Self, c: Self)
        requires
            a.le(b),
            b.le(c),
        ensures
            a.le(c),
    ;
}

/// Lexicographic order on character sequences, comparing characters by code point.
/// On Rust strings this is the order of `String`'s `Ord`, since UTF-8 preserves code-point order.
pub open spec fn lex_le(a: Seq<char>, b: Seq<char>) -> bool
    decreases a.len(),
{
    if a.len() == 0 {
        true
    } else if b.len() == 0 {
        false
    } else if a[0] != b[0] {
        (a[0] as u32) < (b[0] as u32)
    } else {
        lex_le(a.drop_first(), b.drop_first())
    }
}

pub proof fn lemma_lex_total(a: Seq<char>, b: Seq<char>)
    ensures
        lex_le(a, b) || lex_le(b, a),
    decreases a.len(),
{
    if a.len() > 0 && b.len() > 0 && a[0] == b[0] {
        lemma_lex_total(a.drop_first(), b.drop_first());
    }
    if a.len() > 0 && b.len() > 0 && a[0] != b[0] {
        assert((a[0] as u32) != (b[0] as u32)) by {
            vstd::utf8::char_u32_cast(a[0], a[0] as u32);
            vstd::utf8::char_u32_cast(b[0], b[0] as u32);
        }
    }
}

pub proof fn lemma_lex_trans(a: Seq<char>, b: Seq<char>, c: Seq<char>)
    requires
        lex_le(a, b),
        lex_le(b, c),
    ensures
        lex_le(a, c),
    decreases a.len(),
{
    if a.len() > 0 && b.len() > 0 && c.len() > 0 && a[0] == b[0] && b[0] == c[0] {
        lemma_lex_trans(a.drop_first(), b.drop_first(), c.drop_first());
    }
}

pub proof fn lemma_lex_antisym(a: Seq<char>, b: Seq<char>)
    requires
        lex_le(a, b),
        lex_le(b, a),
    ensures
        a == b,
    decreases a.len(),
{
    if a.len() > 0 && b.len() > 0 {
        if a[0] == b[0] {
            lemma_lex_antisym(a.drop_first(), b.drop_first());
            assert(a =~= seq![a[0]] + a.drop_first());
            assert(b =~= seq![b[0]] + b.drop_first());
        }
    }
}

/// Executable lexicographic comparison: `a <= b`.
pub fn lex_le_exec(a: &Vec<char>, b: &Vec<char>) -> (r: bool)
    ensures
        r == lex_le(a@, b@),
{
    let mut i: usize = 0;
    assert(a@.skip(0) =~= a@);
    assert(b@.skip(0) =~= b@);
    while i < a.len() && i < b.len() && a[i] == b[i]
        invariant
            i <= a.len(),
            i <= b.len(),
            a@.take(i as int) == b@.take(i as int),
            lex_le(a@, b@) == lex_le(a@.skip(i as int), b@.skip(i as int)),
        decreases a.len() - i,
    {
        proof {
            let sa = a@.skip(i as int);
            let sb = b@.skip(i as int);
            assert(sa.drop_first() =~= a@.skip(i + 1));
            assert(sb.drop_first() =~= b@.skip(i + 1));
            assert(a@.take(i + 1) =~= a@.take(i as int).push(a@[i as int]));
            assert(b@.take(i + 1) =~= b@.take(i as int).push(b@[i as int]));
        }
        i = i + 1;
    }
    if i == a.len() {
        assert(a@.skip(i as int).len() == 0);
        true
    } else if i == b.len() {
        assert(b@.skip(i as int).len() == 0);
        false
    } else {
        assert(a@.skip(i as int)[0] == a@[i as int]);
        assert(b@.skip(i as int)[0] == b@[i as int]);
        (a[i] as u32) < (b[i] as u32)
    }
}

impl OrdKey for Vec<char> {
    open spec fn le(self, other: Self) -> bool {
        lex_le(self@, other@)
    }

    fn le_exec(&self, other: &Self) -> (r: bool) {
        lex_le_exec(self, other)
    }

    proof fn lemma_total(a: Self, b: Self) {
        lemma_lex_total(a@, b@);
    }

    proof fn lemma_trans(a: Self, b: Self, c: Self) {
        lemma_lex_trans(a@, b@, c@);
    }
}

impl OrdKey for u64 {
    open spec fn le(self, other: Self) -> bool {
        self <= other
    }

    fn le_exec(&self, other: &Self) -> (r: bool) {
        *self <= *other
    }

    proof fn lemma_total(a: Self, b: Self) {
    }

    proof fn lemma_trans(a: Self, b: Self, c: Self) {
    }
}

impl OrdKey for usize {
    open spec fn le(self, other: Self) -> bool {
        self <= other
    }

    fn le_exec(&self, other: &Self) -> (r: bool) {
        *self <= *other
    }

    proof fn lemma_total(a: Self, b: Self) {
    }

    proof fn lemma_trans(a: Self, b: Self, c: Self) {
    }
}

impl OrdKey for i64 {
    open spec fn le(self, other: Self) -> bool {
        self <= other
    }

    fn le_exec(&self, other: &Self) -> (r: bool) {
        *self <= *other
    }

    proof fn lemma_total(a: Self, b: Self) {
    }

    proof fn lemma_trans(a: Self, b: Self, c: Self) {
    }
}

/// `a` goes no later than `b`: ascending order, or descending when `desc`.
pub open spec fn ord_le<K: OrdKey>(a: K, b: K, desc: bool) -> bool {
    if desc {
        b.le(a)
    } else {
        a.le(b)
    }
}

/// `a` and `b` compare equal.
pub open spec fn equiv<K: OrdKey>(a: K, b: K) -> bool {
    a.le(b) && b.le(a)
}

/// `perm` lists each index of `0..n` exactly once.
pub open spec fn is_permutation(perm: Seq<usize>, n: nat) -> bool {
    &&& perm.len() == n
    &&& forall|i: int| 0 <= i < perm.len() ==> (#[trigger] perm[i]) < n
    &&& forall|i: int, j: int| 0 <= i < j < perm.len() ==> perm[i] != perm[j]
    &&& forall|q: int| 0 <= q < n ==> #[trigger] index_listed(perm, q)
}

/// `q` is one of the entries of `perm`.
pub open spec fn index_listed(perm: Seq<usize>, q: int) -> bool {
    exists|i: int| 0 <= i < perm.len() && perm[i] == q
}

/// `perm` orders `keys` as a stable sort does: keys in order, equal keys in their first order.
pub open spec fn is_stable_order<K: OrdKey>(keys: Seq<K>, perm: Seq<usize>, desc: bool) -> bool {
    &&& is_permutation(perm, keys.len())
    &&& forall|i: int, j: int|
        #![trigger perm[i], perm[j]]
        0 <= i < j < perm.len() ==> ord_le(keys[perm[i] as int], keys[perm[j] as int], desc)
    &&& forall|i: int, j: int|
        #![trigger perm[i], perm[j]]
        0 <= i < j < perm.len() && equiv(keys[perm[i] as int], keys[perm[j] as int])
            ==> perm[i] < perm[j]
}

/// `s` lists distinct indices of `keys` in order, equal keys in index order.
pub open spec fn is_sorted_run<K: OrdKey>(keys: Seq<K>, s: Seq<usize>, desc: bool) -> bool {
    &&& forall|i: int| 0 <= i < s.len() ==> (#[trigger] s[i]) < keys.len()
    &&& forall|i: int, j: int| 0 <= i < j < s.len() ==> s[i] != s[j]
    &&& forall|i: int, j: int|
        #![trigger s[i], s[j]]
        0 <= i < j < s.len() ==> ord_le(keys[s[i] as int], keys[s[j] as int], desc)
    &&& forall|i: int, j: int|
        #![trigger s[i], s[j]]
        0 <= i < j < s.len() && equiv(keys[s[i] as int], keys[s[j] as int]) ==> s[i] < s[j]
}

/// Two sorted runs over the same indices are the same run.
pub proof fn lemma_sorted_runs_equal<K: OrdKey>(keys: Seq<K>, a: Seq<usize>, b: Seq<usize>, desc: bool)
    requires
        is_sorted_run(keys, a, desc),
        is_sorted_run(keys, b, desc),
        a.len() == b.len(),
        forall|x: usize| a.contains(x) <==> b.contains(x),
    ensures
        a == b,
    decreases a.len(),
{
    if a.len() == 0 {
        assert(a =~= b);
        return;
    }
    let x = a[0];
    let y = b[0];
    if x != y {
        assert(b.contains(y));
        let p = choose|p: int| 0 <= p < a.len() && a[p] == y;
        assert(a.contains(x));
        let q = choose|q: int| 0 <= q < b.len() && b[q] == x;
        assert(p != 0 && q != 0);
        assert(ord_le(keys[a[0] as int], keys[a[p] as int], desc));
        assert(ord_le(keys[b[0] as int], keys[b[q] as int], desc));
        assert(equiv(keys[x as int], keys[y as int]));
        assert(equiv(keys[a[0] as int], keys[a[p] as int]));
        assert(equiv(keys[b[0] as int], keys[b[q] as int]));
        assert(false);
    }
    let a2 = a.drop_first();
    let b2 = b.drop_first();
    assert forall|z: usize| a2.contains(z) <==> b2.contains(z) by {
        if a2.contains(z) {
            let i = choose|i: int| 0 <= i < a2.len() && a2[i] == z;
            assert(a[i + 1] == z && z != x);
            assert(a.contains(z));
            let j = choose|j: int| 0 <= j < b.len() && b[j] == z;
            assert(j != 0);
            assert(b2[j - 1] == z);
        }
        if b2.contains(z) {
            let i = choose|i: int| 0 <= i < b2.len() && b2[i] == z;
            assert(b[i + 1] == z && z != y);
            assert(b.contains(z));
            let j = choose|j: int| 0 <= j < a.len() && a[j] == z;
            assert(j != 0);
            assert(a2[j - 1] == z);
        }
    }
    assert forall|i: int, j: int| 0 <= i < j < a2.len() implies ord_le(keys[a2[i] as int], keys[a2[j] as int], desc)
        && (equiv(keys[a2[i] as int], keys[a2[j] as int]) ==> a2[i] < a2[j]) by {
        assert(a2[i] == a[i + 1] && a2[j] == a[j + 1]);
    }
    assert forall|i: int, j: int| 0 <= i < j < b2.len() implies ord_le(keys[b2[i] as int], keys[b2[j] as int], desc)
        && (equiv(keys[b2[i] as int], keys[b2[j] as int]) ==> b2[i] < b2[j]) by {
        assert(b2[i] == b[i + 1] && b2[j] == b[j + 1]);
    }
    assert forall|i: int, j: int| 0 <= i < j < a2.len() implies a2[i] != a2[j] by {
        assert(a2[i] == a[i + 1] && a2[j] == a[j + 1]);
    }
    assert forall|i: int, j: int| 0 <= i < j < b2.len() implies b2[i] != b2[j] by {
        assert(b2[i] == b[i + 1] && b2[j] == b[j + 1]);
    }
    assert forall|i: int| 0 <= i < a2.len() implies a2[i] < keys.len() by {
        assert(a2[i] == a[i + 1]);
    }
    assert forall|i: int| 0 <= i < b2.len() implies b2[i] < keys.len() by {
        assert(b2[i] == b[i + 1]);
    }
    lemma_sorted_runs_equal(keys, a2, b2, desc);
    assert forall|i: int| 0 <= i < a.len() implies a[i] == b[i] by {
        if i > 0 {
            assert(a[i] == a2[i - 1] && b[i] == b2[i - 1]);
        }
    }
    assert(a =~= b);
}

/// A stable sort's order is unique: any two stable orders of the same keys agree.
pub proof fn lemma_stable_order_unique<K: OrdKey>(keys: Seq<K>, a: Seq<usize>, b: Seq<usize>, desc: bool)
    requires
        is_stable_order(keys, a, desc),
        is_stable_order(keys, b, desc),
    ensures
        a == b,
{
    assert forall|x: usize| a.contains(x) <==> b.contains(x) by {
        if a.contains(x) {
            let i = choose|i: int| 0 <= i < a.len() && a[i] == x;
            assert(a[i] < keys.len());
            assert(index_listed(b, x as int));
        }
        if b.contains(x) {
            let i = choose|i: int| 0 <= i < b.len() && b[i] == x;
            assert(b[i] < keys.len());
            assert(index_listed(a, x as int));
        }
    }
    lemma_sorted_runs_equal(keys, a, b, desc);
}

proof fn lemma_ord_total<K: OrdKey>(a: K, b: K, desc: bool)
    ensures
        ord_le(a, b, desc) || ord_le(b, a, desc),
{
    K::lemma_total(a, b);
}

proof fn lemma_ord_trans<K: OrdKey>(a: K, b: K, c: K, desc: bool)
    requires
        ord_le(a, b, desc),
        ord_le(b, c, desc),
    ensures
        ord_le(a, c, desc),
{
    if desc {
        K::lemma_trans(c, b, a);
    } else {
        K::lemma_trans(a, b, c);
    }
}

/// `a` goes strictly before `b` in the order chosen by `desc`.
fn strictly_before<K: OrdKey>(a: &K, b: &K, desc: bool) -> (r: bool)
    ensures
        r == (ord_le(*a, *b, desc) && !ord_le(*b, *a, desc)),
{
    let ab = a.le_exec(b);
    let ba = b.le_exec(a);
    if desc {
        ba && !ab
    } else {
        ab && !ba
    }
}

/// The order in which a stable sort of `keys` (ascending, or descending when `desc`)
/// places the indices of `keys`.
pub fn stable_order<K: OrdKey>(keys: &Vec<K>, desc: bool) -> (perm: Vec<usize>)
    ensures
        is_stable_order(keys@, perm@, desc),
{
    let n = keys.len();
    let mut perm: Vec<usize> = Vec::new();
    let mut k: usize = 0;
    while k < n
        invariant
            n == keys.len(),
            k <= n,
            is_stable_order(keys@.take(k as int), perm@, desc),
            forall|i: int| 0 <= i < perm.len() ==> (#[trigger] perm@[i]) < k,
        decreases n - k,
    {
        let ghost old_perm = perm@;
        let mut p: usize = perm.len();
        while p > 0 && strictly_before(&keys[k], &keys[perm[p - 1]], desc)
            invariant
                n == keys.len(),
                k < n,
                perm@ == old_perm,
                p <= perm.len(),
                perm.len() == k,
                forall|i: int| 0 <= i < perm.len() ==> (#[trigger] perm@[i]) < k,
                forall|j: int|
                    p <= j < perm.len() ==> ord_le(keys@[k as int], keys@[perm@[j] as int], desc)
                        && !ord_le(keys@[perm@[j] as int], keys@[k as int], desc),
            decreases p,
        {
            p = p - 1;
        }
        proof {
            let ks = keys@.take(k as int);
            let ks2 = keys@.take(k + 1);
            assert forall|i: int| 0 <= i < old_perm.len() implies ks[old_perm[i] as int]
                == ks2[old_perm[i] as int] && ks[old_perm[i] as int] == keys@[old_perm[i] as int] by {
                assert(old_perm[i] < k);
            }
            if p > 0 {
                lemma_ord_total(keys@[k as int], keys@[old_perm[p - 1] as int], desc);
            }
        }
        perm.insert(p, k);
        proof {
            let ks2 = keys@.take(k + 1);
            let kk = keys@[k as int];
            assert(ks2[k as int] == kk);
            assert forall|i: int| 0 <= i < perm@.len() implies (#[trigger] perm@[i]) < k + 1 by {
                if i < p {
                    assert(perm@[i] == old_perm[i]);
                } else if i > p {
                    assert(perm@[i] == old_perm[i - 1]);
                }
            }
            assert forall|q: int| 0 <= q < k + 1 implies #[trigger] index_listed(perm@, q) by {
                if q == k {
                    assert(perm@[p as int] == k);
                } else {
                    assert(index_listed(old_perm, q));
                    let i0 = choose|i: int| 0 <= i < old_perm.len() && old_perm[i] == q;
                    if i0 < p {
                        assert(perm@[i0] == old_perm[i0]);
                    } else {
                        assert(perm@[i0 + 1] == old_perm[i0]);
                    }
                }
            }
            assert forall|i: int, j: int| 0 <= i < j < perm@.len() implies perm@[i] != perm@[j] by {
                if i < p && j < p {
                    assert(perm@[i] == old_perm[i] && perm@[j] == old_perm[j]);
                } else if i < p && j > p {
                    assert(perm@[i] == old_perm[i] && perm@[j] == old_perm[j - 1]);
                } else if i > p && j > p {
                    assert(perm@[i] == old_perm[i - 1] && perm@[j] == old_perm[j - 1]);
                } else if i == p {
                    assert(perm@[j] == old_perm[j - 1]);
                } else {
                    assert(perm@[i] == old_perm[i]);
                }
            }
            assert forall|i: int, j: int|
                #![trigger perm@[i], perm@[j]]
                0 <= i < j < perm@.len() implies ord_le(
                ks2[perm@[i] as int],
                ks2[perm@[j] as int],
                desc,
            ) && (equiv(ks2[perm@[i] as int], ks2[perm@[j] as int]) ==> perm@[i] < perm@[j]) by {
                if i < p && j < p {
                    assert(perm@[i] == old_perm[i] && perm@[j] == old_perm[j]);
                } else if i < p && j > p {
                    assert(perm@[i] == old_perm[i] && perm@[j] == old_perm[j - 1]);
                    if p > 0 {
                        let a = keys@[old_perm[i] as int];
                        let b = keys@[old_perm[p - 1] as int];
                        let c = keys@[old_perm[j - 1] as int];
                        if i < p - 1 {
                            lemma_ord_trans(a, b, kk, desc);
                        }
                        lemma_ord_trans(a, kk, c, desc);
                    }
                } else if i > p && j > p {
                    assert(perm@[i] == old_perm[i - 1] && perm@[j] == old_perm[j - 1]);
                } else if i == p {
                    assert(perm@[i] == k);
                    assert(perm@[j] == old_perm[j - 1]);
                    if equiv(ks2[perm@[i] as int], ks2[perm@[j] as int]) {
                        if desc {
                        } else {
                        }
                    }
                } else {
                    assert(j == p);
                    assert(perm@[i] == old_perm[i]);
                    assert(perm@[j] == k);
                    let a = keys@[old_perm[i] as int];
                    let b = keys@[old_perm[p - 1] as int];
                    if i < p - 1 {
                        lemma_ord_trans(a, b, kk, desc);
                    }
                }
            }
            assert(is_permutation(perm@, ks2.len()));
            assert(is_stable_order(ks2, perm@, desc));
        }
        k = k + 1;
    }
    assert(keys@.take(n as int) =~= keys@);
    perm
}

/// The index of the first pair whose key is `k`.
pub open spec fn key_index<K, V>(g: Seq<(K, V)>, k: K) -> Option<int>
    decreases g.len(),
{
    if g.len() == 0 {
        None
    } else {
        match key_index(g.drop_last(), k) {
            Some(i) => Some(i),
            None => if g.last().0 == k { Some(g.len() - 1) } else { None },
        }
    }
}

proof fn lemma_key_index_prefix<K, V>(g: Seq<(K, V)>, k: K, n: int)
    requires
        0 <= n <= g.len(),
        key_index(g.take(n), k) is Some,
    ensures
        key_index(g, k) == key_index(g.take(n), k),
    decreases g.len() - n,
{
    if n < g.len() {
        assert(g.take(n + 1).drop_last() =~= g.take(n));
        lemma_key_index_prefix(g, k, n + 1);
    } else {
        assert(g.take(n) =~= g);
    }
}

/// An index found is in range and holds the key.
pub proof fn lemma_key_index_range<K, V>(g: Seq<(K, V)>, k: K)
    ensures
        key_index(g, k) matches Some(i) ==> 0 <= i < g.len() && g[i].0 == k,
    decreases g.len(),
{
    if g.len() > 0 {
        lemma_key_index_range(g.drop_last(), k);
    }
}

/// No pair has key `k`: there is no index.
pub proof fn lemma_key_index_none<K, V>(g: Seq<(K, V)>, k: K)
    requires
        forall|q: int| 0 <= q < g.len() ==> (#[trigger] g[q]).0 != k,
    ensures
        key_index(g, k) is None,
    decreases g.len(),
{
    if g.len() > 0 {
        lemma_key_index_none(g.drop_last(), k);
    }
}

/// The pair at `i` is the first with key `k`.
pub proof fn lemma_key_index_at<K, V>(g: Seq<(K, V)>, k: K, i: int)
    requires
        0 <= i < g.len(),
        g[i].0 == k,
        forall|q: int| 0 <= q < i ==> (#[trigger] g[q]).0 != k,
    ensures
        key_index(g, k) == Some(i),
{
    lemma_key_index_none(g.take(i), k);
    assert(g.take(i + 1).drop_last() =~= g.take(i));
    lemma_key_index_prefix(g, k, i + 1);
}

} // verus!

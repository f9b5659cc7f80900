use vstd::prelude::*;
use vstd::relations::{sorted_by, total_ordering};

use crate::text::Chars;

verus! {

broadcast use vstd::seq_lib::group_to_multiset_ensures;

// ---------------------------------------------------------------------------
// Lexicographic order of character sequences
// ---------------------------------------------------------------------------

/// `a` comes no later than `b` in lexicographic order by code point, the order in
/// which `String`'s `Ord` puts strings (UTF-8 keeps the order of code points).
pub open spec fn lex_le(a: Chars, b: Chars) -> bool
    decreases a.len(),
{
    if a.len() == 0 {
        true
    } else if b.len() == 0 {
        false
    } else if a[0] < b[0] {
        true
    } else if a[0] == b[0] {
        lex_le(a.drop_first(), b.drop_first())
    } else {
        false
    }
}

pub proof fn lemma_lex_reflexive(a: Chars)
    ensures
        lex_le(a, a),
    decreases a.len(),
{
    if a.len() > 0 {
        lemma_lex_reflexive(a.drop_first());
    }
}

pub proof fn lemma_lex_antisymmetric(a: Chars, b: Chars)
    requires
        lex_le(a, b),
        lex_le(b, a),
    ensures
        a == b,
    decreases a.len(),
{
    if a.len() > 0 && b.len() > 0 {
        lemma_lex_antisymmetric(a.drop_first(), b.drop_first());
        assert(a =~= seq![a[0]] + a.drop_first());
        assert(b =~= seq![b[0]] + b.drop_first());
    } else {
        assert(a =~= b);
    }
}

pub proof fn lemma_lex_transitive(a: Chars, b: Chars, c: Chars)
    requires
        lex_le(a, b),
        lex_le(b, c),
    ensures
        lex_le(a, c),
    decreases a.len(),
{
    if a.len() > 0 && b.len() > 0 && c.len() > 0 {
        if a[0] == b[0] && b[0] == c[0] {
            lemma_lex_transitive(a.drop_first(), b.drop_first(), c.drop_first());
        }
    }
}

pub proof fn lemma_lex_total(a: Chars, b: Chars)
    ensures
        lex_le(a, b) || lex_le(b, a),
    decreases a.len(),
{
    if a.len() > 0 && b.len() > 0 {
        if a[0] == b[0] {
            lemma_lex_total(a.drop_first(), b.drop_first());
        }
    }
}

/// Compares two character vectors in lexicographic order.
pub fn chars_le(a: &[char], b: &[char]) -> (r: bool)
    ensures
        r == lex_le(a@, b@),
{
    let mut i: usize = 0;
    assert(a@.skip(0) =~= a@);
    assert(b@.skip(0) =~= b@);
    loop
        invariant
            i <= a@.len(),
            i <= b@.len(),
            lex_le(a@, b@) == lex_le(a@.skip(i as int), b@.skip(i as int)),
        decreases a@.len() - i,
    {
        if i == a.len() {
            return true;
        }
        if i == b.len() {
            return false;
        }
        let x = a[i];
        let y = b[i];
        if x < y {
            return true;
        }
        if x != y {
            return false;
        }
        proof {
            assert(a@.skip(i as int).drop_first() =~= a@.skip(i + 1));
            assert(b@.skip(i as int).drop_first() =~= b@.skip(i + 1));
        }
        i += 1;
    }
}

// ---------------------------------------------------------------------------
// Sort keys
// ---------------------------------------------------------------------------

/// A sort key: a group number, then a text, then the position the item had
/// before sorting. The position makes the order strict, so a sort by it is stable.
pub struct SortKey {
    pub group: u32,
    pub text: Vec<char>,
    pub index: usize,
}

/// The model of a [`SortKey`].
pub type KeyView = (u32, Chars, usize);

impl SortKey {
    pub open spec fn model(&self) -> KeyView {
        (self.group, self.text@, self.index)
    }
}

/// The models of a sequence of keys.
pub open spec fn key_models(s: Seq<SortKey>) -> Seq<KeyView> {
    s.map_values(|k: SortKey| k.model())
}

/// The order of keys: by group, then by text, then by former position.
pub open spec fn key_le(x: KeyView, y: KeyView) -> bool {
    ||| x.0 < y.0
    ||| x.0 == y.0 && x.1 != y.1 && lex_le(x.1, y.1)
    ||| x.0 == y.0 && x.1 == y.1 && x.2 <= y.2
}

pub proof fn lemma_key_le_total_ordering()
    ensures
        total_ordering(key_order()),
{
    let leq = key_order();
    assert forall|x: KeyView| #[trigger] leq(x, x) by {
        lemma_lex_reflexive(x.1);
    }
    assert forall|x: KeyView, y: KeyView| #[trigger] leq(x, y) && #[trigger] leq(y, x) implies x
        == y by {
        if x.0 == y.0 && x.1 != y.1 {
            lemma_lex_antisymmetric(x.1, y.1);
        }
    }
    assert forall|x: KeyView, y: KeyView, z: KeyView| #[trigger] leq(x, y) && #[trigger] leq(
        y,
        z,
    ) implies #[trigger] leq(x, z) by {
        if x.0 == y.0 && y.0 == z.0 {
            if x.1 != y.1 && y.1 != z.1 {
                lemma_lex_transitive(x.1, y.1, z.1);
                if x.1 == z.1 {
                    lemma_lex_antisymmetric(x.1, y.1);
                }
            }
        }
    }
    assert forall|x: KeyView, y: KeyView| #[trigger] leq(x, y) || #[trigger] leq(y, x) by {
        lemma_lex_total(x.1, y.1);
    }
}

/// `key_le` as a relation.
pub open spec fn key_order() -> spec_fn(KeyView, KeyView) -> bool {
    |x: KeyView, y: KeyView| key_le(x, y)
}

/// The ordered form of a sequence of keys.
pub open spec fn sorted_keys(s: Seq<KeyView>) -> Seq<KeyView> {
    s.sort_by(key_order())
}

/// Two sequences ordered by `key_le` that hold the same keys are equal.
pub proof fn lemma_sorted_unique(a: Seq<KeyView>, b: Seq<KeyView>)
    requires
        sorted_by(a, key_order()),
        sorted_by(b, key_order()),
        a.to_multiset() == b.to_multiset(),
    ensures
        a == b,
    decreases a.len(),
{
    lemma_key_le_total_ordering();
    let leq = key_order();
    if a.len() == 0 {
        assert(b.to_multiset().len() == 0);
        assert(b =~= a);
    } else {
        assert(a.to_multiset().len() == a.len());
        assert(b.to_multiset().len() == b.len());
        assert(b.len() == a.len());
        assert(a.to_multiset().count(a[0]) > 0);
        assert(b.contains(a[0]));
        let j = choose|j: int| 0 <= j < b.len() && b[j] == a[0];
        assert(b.to_multiset().count(b[0]) > 0);
        assert(a.contains(b[0]));
        let i = choose|i: int| 0 <= i < a.len() && a[i] == b[0];
        if j > 0 {
            assert(leq(b[0], b[j]));
        } else {
            assert(leq(b[0], b[j]));
        }
        if i > 0 {
            assert(leq(a[0], a[i]));
        } else {
            assert(leq(a[0], a[i]));
        }
        assert(a[0] == b[0]);
        let ra = a.remove(0);
        let rb = b.remove(0);
        assert(ra =~= a.drop_first());
        assert(rb =~= b.drop_first());
        assert(ra.to_multiset() == a.to_multiset().remove(a[0]));
        assert(rb.to_multiset() == b.to_multiset().remove(b[0]));
        assert forall|x: int, y: int| 0 <= x < y < ra.len() implies #[trigger] leq(ra[x], ra[y]) by {
            assert(leq(a[x + 1], a[y + 1]));
        }
        assert forall|x: int, y: int| 0 <= x < y < rb.len() implies #[trigger] leq(rb[x], rb[y]) by {
            assert(leq(b[x + 1], b[y + 1]));
        }
        lemma_sorted_unique(ra, rb);
        assert(a =~= b) by {
            assert forall|k: int| 0 <= k < a.len() implies a[k] == b[k] by {
                if k > 0 {
                    assert(a[k] == ra[k - 1]);
                    assert(b[k] == rb[k - 1]);
                }
            }
        }
    }
}

/// Compares two keys.
pub fn key_leq(x: &SortKey, y: &SortKey) -> (r: bool)
    ensures
        r == key_le(x.model(), y.model()),
{
    if x.group != y.group {
        return x.group < y.group;
    }
    if !crate::text::chars_eq(&x.text, &y.text) {
        return chars_le(&x.text, &y.text);
    }
    x.index <= y.index
}

/// Sorts keys into the order of `key_le`.
pub fn sort_keys(keys: Vec<SortKey>) -> (r: Vec<SortKey>)
    ensures
        key_models(r@) == sorted_keys(key_models(keys@)),
{
    let ghost leq = key_order();
    proof {
        lemma_key_le_total_ordering();
    }
    let ghost orig = key_models(keys@);
    let mut rest = keys;
    let mut out: Vec<SortKey> = Vec::new();
    proof {
        assert(key_models(out@) =~= Seq::<KeyView>::empty());
        assert(key_models(rest@) =~= orig);
    }
    while rest.len() > 0
        invariant
            leq == key_order(),
            total_ordering(leq),
            sorted_by(key_models(out@), leq),
            key_models(out@).to_multiset().add(key_models(rest@).to_multiset())
                == orig.to_multiset(),
        decreases rest@.len(),
    {
        let ghost before_rest = rest@;
        let ghost before_out = key_models(out@);
        let k = rest.pop().unwrap();
        let ghost km = k.model();
        proof {
            assert(key_models(before_rest) =~= key_models(rest@).push(km));
            assert(key_models(before_rest).to_multiset() =~= key_models(rest@).to_multiset().insert(km)) by {
                vstd::seq_lib::lemma_multiset_commutative(key_models(rest@), seq![km]);
                assert(key_models(before_rest) =~= key_models(rest@) + seq![km]);
            }
        }
        let mut p: usize = 0;
        loop
            invariant
                p <= out@.len(),
                key_models(out@) == before_out,
                k.model() == km,
                leq == key_order(),
                forall|q: int| 0 <= q < p ==> #[trigger] leq(before_out[q], km),
            ensures
                p <= out@.len(),
                p < out@.len() ==> !leq(before_out[p as int], km),
                forall|q: int| 0 <= q < p ==> #[trigger] leq(before_out[q], km),
            decreases out@.len() - p,
        {
            if p == out.len() {
                break;
            }
            assert(before_out[p as int] == out@[p as int].model());
            let le = key_leq(&out[p], &k);
            assert(le == key_le(before_out[p as int], km));
            assert(leq(before_out[p as int], km) == key_le(before_out[p as int], km));
            if !le {
                break;
            }
            p += 1;
        }
        proof {
            if p < out@.len() {
                assert(!leq(before_out[p as int], km));
                assert(leq(km, before_out[p as int]));
            }
        }
        out.insert(p, k);
        proof {
            let now = key_models(out@);
            assert(now =~= before_out.insert(p as int, km));
            assert forall|x: int, y: int| 0 <= x < y < now.len() implies #[trigger] leq(
                now[x],
                now[y],
            ) by {
                if y < p {
                    assert(leq(before_out[x], before_out[y]));
                } else if y == p {
                } else if x < p {
                    assert(leq(before_out[x], km));
                    if p < before_out.len() {
                        assert(leq(km, before_out[p as int]));
                        if y - 1 > p {
                            assert(leq(before_out[p as int], before_out[y - 1]));
                        }
                        assert(leq(km, before_out[y - 1]));
                    }
                } else if x == p {
                    assert(leq(km, before_out[p as int]));
                    if y - 1 > p {
                        assert(leq(before_out[p as int], before_out[y - 1]));
                    }
                } else {
                    assert(leq(before_out[x - 1], before_out[y - 1]));
                }
            }
            assert(now.to_multiset() == before_out.to_multiset().insert(km));
        }
    }
    proof {
        let res = key_models(out@);
        assert(key_models(rest@) =~= Seq::<KeyView>::empty());
        assert(res.to_multiset() =~= orig.to_multiset());
        orig.lemma_sort_by_ensures(leq);
        lemma_sorted_unique(res, orig.sort_by(leq));
    }
    out
}

/// Ordering keeps the number of keys.
pub proof fn lemma_sorted_keys_len(s: Seq<KeyView>)
    ensures
        sorted_keys(s).len() == s.len(),
{
    lemma_key_le_total_ordering();
    s.lemma_sort_by_ensures(key_order());
    assert(sorted_keys(s).to_multiset().len() == sorted_keys(s).len());
    assert(s.to_multiset().len() == s.len());
}

/// Every key of the ordered form is a key of the input.
pub proof fn lemma_sorted_keys_contains(s: Seq<KeyView>, k: int)
    requires
        0 <= k < sorted_keys(s).len(),
    ensures
        s.contains(sorted_keys(s)[k]),
        sorted_keys(s).len() == s.len(),
{
    lemma_key_le_total_ordering();
    s.lemma_sort_by_ensures(key_order());
    let all = sorted_keys(s);
    assert(all.contains(all[k]));
    assert(all.to_multiset().count(all[k]) > 0);
    assert(s.to_multiset().count(all[k]) > 0);
    assert(all.to_multiset().len() == all.len());
    assert(s.to_multiset().len() == s.len());
}

/// Sorts keys and gives the former positions they carry, in sorted order.
pub fn sorted_positions(keys: Vec<SortKey>, bound: usize) -> (r: Vec<usize>)
    requires
        forall|i: int| 0 <= i < keys@.len() ==> (#[trigger] keys@[i]).index < bound,
    ensures
        r@.len() == keys@.len(),
        forall|k: int| 0 <= k < r@.len() ==> #[trigger] r@[k] == sorted_keys(key_models(keys@))[k].2,
        forall|k: int| 0 <= k < r@.len() ==> #[trigger] r@[k] < bound,
{
    let ghost ms = key_models(keys@);
    let n = keys.len();
    let sorted = sort_keys(keys);
    let ghost all = sorted_keys(ms);
    proof {
        assert forall|k: int| 0 <= k < all.len() implies #[trigger] all[k].2 < bound by {
            lemma_sorted_keys_contains(ms, k);
            let j = choose|j: int| 0 <= j < ms.len() && ms[j] == all[k];
            assert(ms[j].2 == keys@[j].index);
        }
        if all.len() > 0 {
            lemma_sorted_keys_contains(ms, 0);
        } else {
            lemma_key_le_total_ordering();
            ms.lemma_sort_by_ensures(key_order());
            assert(ms.to_multiset().len() == ms.len());
            assert(all.to_multiset().len() == all.len());
        }
    }
    let mut out: Vec<usize> = Vec::new();
    let mut k: usize = 0;
    while k < sorted.len()
        invariant
            key_models(sorted@) == all,
            all.len() == n,
            k <= sorted@.len(),
            out@.len() == k,
            forall|j: int| 0 <= j < all.len() ==> #[trigger] all[j].2 < bound,
            forall|j: int| 0 <= j < k ==> #[trigger] out@[j] == all[j].2,
        decreases sorted@.len() - k,
    {
        assert(sorted@[k as int].model() == all[k as int]);
        out.push(sorted[k].index);
        k += 1;
    }
    out
}

} // verus!

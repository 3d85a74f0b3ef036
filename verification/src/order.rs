//! The order `String`s sort in: lexicographic by character (code point),
//! which for UTF-8 text is the byte order `str`'s `Ord` uses.
use vstd::prelude::*;
use vstd::relations::{sorted_by, total_ordering};
use vstd::seq_lib::{group_to_multiset_ensures, lemma_sorted_unique, to_multiset_build};

use crate::text::chars_of;

verus! {

broadcast use vstd::string::group_string_axioms;

/// `a` sorts no later than `b`: at the first position where they differ the
/// character of `a` is smaller, or `a` is a prefix of `b`.
pub open spec fn text_le(a: Seq<char>, b: Seq<char>) -> bool
    decreases a.len(),
{
    if a.len() == 0 {
        true
    } else if b.len() == 0 {
        false
    } else if a[0] != b[0] {
        a[0] < b[0]
    } else {
        text_le(a.drop_first(), b.drop_first())
    }
}

/// `text_le` as a relation.
pub open spec fn text_order() -> spec_fn(Seq<char>, Seq<char>) -> bool {
    |a: Seq<char>, b: Seq<char>| text_le(a, b)
}

proof fn lemma_text_le_reflexive(a: Seq<char>)
    ensures
        text_le(a, a),
    decreases a.len(),
{
    if a.len() > 0 {
        lemma_text_le_reflexive(a.drop_first());
    }
}

proof fn lemma_text_le_antisymmetric(a: Seq<char>, b: Seq<char>)
    requires
        text_le(a, b),
        text_le(b, a),
    ensures
        a == b,
    decreases a.len(),
{
    if a.len() > 0 && b.len() > 0 {
        lemma_text_le_antisymmetric(a.drop_first(), b.drop_first());
        assert(a =~= seq![a[0]] + a.drop_first());
        assert(b =~= seq![b[0]] + b.drop_first());
    } else {
        assert(a.len() == 0 && b.len() == 0);
        assert(a =~= b);
    }
}

proof fn lemma_text_le_transitive(a: Seq<char>, b: Seq<char>, c: Seq<char>)
    requires
        text_le(a, b),
        text_le(b, c),
    ensures
        text_le(a, c),
    decreases a.len(),
{
    if a.len() > 0 && b.len() > 0 && c.len() > 0 && a[0] == b[0] && b[0] == c[0] {
        lemma_text_le_transitive(a.drop_first(), b.drop_first(), c.drop_first());
    }
}

proof fn lemma_text_le_total(a: Seq<char>, b: Seq<char>)
    ensures
        text_le(a, b) || text_le(b, a),
    decreases a.len(),
{
    if a.len() > 0 && b.len() > 0 && a[0] == b[0] {
        lemma_text_le_total(a.drop_first(), b.drop_first());
    }
}

/// `text_le` is a total order.
pub proof fn lemma_text_order_total()
    ensures
        total_ordering(text_order()),
{
    let r = text_order();
    assert forall|a: Seq<char>| #[trigger] r(a, a) by {
        lemma_text_le_reflexive(a);
    }
    assert forall|a: Seq<char>, b: Seq<char>| #[trigger] r(a, b) && #[trigger] r(b, a) implies a
        == b by {
        lemma_text_le_antisymmetric(a, b);
    }
    assert forall|a: Seq<char>, b: Seq<char>, c: Seq<char>| #[trigger] r(a, b) && #[trigger] r(
        b,
        c,
    ) implies r(a, c) by {
        lemma_text_le_transitive(a, b, c);
    }
    assert forall|a: Seq<char>, b: Seq<char>| #[trigger] r(a, b) || #[trigger] r(b, a) by {
        lemma_text_le_total(a, b);
    }
}

/// Comparing two texts that agree on their first `i` characters comes down
/// to comparing what follows.
proof fn lemma_text_le_skip(a: Seq<char>, b: Seq<char>, i: int)
    requires
        0 <= i <= a.len(),
        i <= b.len(),
        forall|k: int| 0 <= k < i ==> a[k] == b[k],
    ensures
        text_le(a, b) == text_le(a.skip(i), b.skip(i)),
    decreases i,
{
    if i == 0 {
        assert(a.skip(0) =~= a);
        assert(b.skip(0) =~= b);
    } else {
        assert(a[0] == b[0]);
        lemma_text_le_skip(a.drop_first(), b.drop_first(), i - 1);
        assert(a.drop_first().skip(i - 1) =~= a.skip(i));
        assert(b.drop_first().skip(i - 1) =~= b.skip(i));
    }
}

/// Whether `a` sorts no later than `b`.
pub fn chars_le(a: &[char], b: &[char]) -> (r: bool)
    ensures
        r == text_le(a@, b@),
{
    let mut i: usize = 0;
    while i < a.len() && i < b.len()
        invariant
            i <= a@.len(),
            i <= b@.len(),
            forall|k: int| 0 <= k < i ==> a@[k] == b@[k],
        decreases a@.len() - i,
    {
        let ca = a[i];
        let cb = b[i];
        if ca != cb {
            proof {
                lemma_text_le_skip(a@, b@, i as int);
                assert(a@.skip(i as int)[0] == ca);
                assert(b@.skip(i as int)[0] == cb);
            }
            return ca < cb;
        }
        i = i + 1;
    }
    proof {
        lemma_text_le_skip(a@, b@, i as int);
    }
    i == a.len()
}

/// Inserting `x` after every element that sorts no later than it and before
/// the first that sorts later keeps a sorted sequence sorted.
proof fn lemma_insert_sorted(s: Seq<Seq<char>>, x: Seq<char>, q: int)
    requires
        sorted_by(s, text_order()),
        0 <= q <= s.len(),
        forall|k: int| 0 <= k < q ==> text_le(#[trigger] s[k], x),
        q < s.len() ==> !text_le(s[q], x),
    ensures
        sorted_by(s.insert(q, x), text_order()),
{
    let t = s.insert(q, x);
    assert forall|i: int, j: int| 0 <= i < j < t.len() implies #[trigger] text_order()(
        t[i],
        t[j],
    ) by {
        if j < q {
            assert(text_order()(s[i], s[j]));
        } else if j == q {
            assert(text_le(s[i], x));
        } else if i == q {
            lemma_text_le_total(s[q], x);
            if q < j - 1 {
                assert(text_order()(s[q], s[j - 1]));
                lemma_text_le_transitive(x, s[q], s[j - 1]);
            }
        } else if i < q {
            assert(text_order()(s[i], s[j - 1]));
        } else {
            assert(text_order()(s[i - 1], s[j - 1]));
        }
    }
}

/// Inserting an element anywhere adds it to the multiset of elements.
proof fn lemma_insert_multiset<A>(s: Seq<A>, x: A, q: int)
    requires
        0 <= q <= s.len(),
    ensures
        s.insert(q, x).to_multiset() =~= s.to_multiset().insert(x),
{
    broadcast use group_to_multiset_ensures;

    let t = s.insert(q, x);
    assert(t.remove(q) =~= s);
    assert(t[q] == x);
    assert(t.contains(x));
    assert(t.to_multiset().count(x) > 0);
}

/// `names` in the order `Vec<String>::sort` puts them.
pub fn sort_texts(names: &Vec<String>) -> (r: Vec<String>)
    ensures
        r@.map_values(|s: String| s@) == names@.map_values(|s: String| s@).sort_by(
            text_order(),
        ),
{
    broadcast use group_to_multiset_ensures;

    let ghost input = names@.map_values(|s: String| s@);
    let mut r: Vec<String> = Vec::new();
    let n = names.len();
    assert(r@.map_values(|s: String| s@) =~= Seq::<Seq<char>>::empty());
    assert(input.take(0) =~= Seq::<Seq<char>>::empty());
    for i in 0..n
        invariant
            n == names@.len(),
            input == names@.map_values(|s: String| s@),
            sorted_by(r@.map_values(|s: String| s@), text_order()),
            r@.map_values(|s: String| s@).to_multiset() == input.take(i as int).to_multiset(),
    {
        let x = names[i].clone();
        let xc = chars_of(x.as_str());
        let ghost rv = r@.map_values(|s: String| s@);
        let mut q: usize = 0;
        let mut stop = false;
        while !stop && q < r.len()
            invariant
                q <= r@.len(),
                rv == r@.map_values(|s: String| s@),
                xc@ == x@,
                forall|k: int| 0 <= k < q ==> text_le(#[trigger] rv[k], x@),
                stop ==> q < r@.len() && !text_le(rv[q as int], x@),
            decreases r@.len() - q + (if stop {
                0int
            } else {
                1int
            }),
        {
            let rc = chars_of(r[q].as_str());
            assert(rv[q as int] == r@[q as int]@);
            if chars_le(rc.as_slice(), xc.as_slice()) {
                q = q + 1;
            } else {
                stop = true;
            }
        }
        proof {
            lemma_insert_sorted(rv, x@, q as int);
            lemma_insert_multiset(rv, x@, q as int);
            assert(input[i as int] == x@);
            assert(input.take(i + 1) =~= input.take(i as int).push(x@));
            to_multiset_build(input.take(i as int), x@);
        }
        r.insert(q, x);
        assert(r@.map_values(|s: String| s@) =~= rv.insert(q as int, x@));
    }
    proof {
        assert(input.take(n as int) =~= input);
        lemma_text_order_total();
        input.lemma_sort_by_ensures(text_order());
        lemma_sorted_unique(r@.map_values(|s: String| s@), input.sort_by(text_order()), text_order());
    }
    r
}

} // verus!

//! Deterministic ordering of the filtered set: ascending or descending by
//! price, with ties always broken by ascending identifier, so that repeated
//! identical queries see the same order regardless of snapshot order.

use vstd::prelude::*;
use vstd::relations::{sorted_by, transitive, strongly_connected};
use vstd::seq_lib::lemma_multiset_commutative;
use crate::models::{Offer, OfferView, views_of};
use crate::query::SortOrder;

verus! {

/// The requested total preorder on offers: by price in the requested
/// direction, ties broken by ascending identifier.
pub open spec fn offer_le(ord: SortOrder, a: OfferView, b: OfferView) -> bool {
    match ord {
        SortOrder::PriceAsc => a.price < b.price || (a.price == b.price && a.id <= b.id),
        SortOrder::PriceDesc => b.price < a.price || (a.price == b.price && a.id <= b.id),
    }
}

/// The ordering is transitive, for either direction.
pub proof fn lemma_offer_le_transitive(ord: SortOrder)
    ensures
        transitive(|a: OfferView, b: OfferView| offer_le(ord, a, b)),
{
}

/// The ordering is total: any two offers are comparable, for either
/// direction.
pub proof fn lemma_offer_le_connected(ord: SortOrder)
    ensures
        strongly_connected(|a: OfferView, b: OfferView| offer_le(ord, a, b)),
{
}

/// Two offers each at or before the other agree on the whole sort key: equal
/// price and equal identifier.
pub proof fn lemma_offer_le_antisymmetric_key(ord: SortOrder, a: OfferView, b: OfferView)
    requires
        offer_le(ord, a, b),
        offer_le(ord, b, a),
    ensures
        a.price == b.price,
        a.id == b.id,
{
}

/// Ties on price are always broken by ascending identifier, for either
/// direction.
pub proof fn lemma_offer_le_ties_by_id(ord: SortOrder, a: OfferView, b: OfferView)
    requires
        a.price == b.price,
    ensures
        offer_le(ord, a, b) <==> a.id <= b.id,
{
}

/// The sequence with `o` placed before the first element of `s` that does not
/// precede it.
pub open spec fn insert_sorted(ord: SortOrder, o: OfferView, s: Seq<OfferView>) -> Seq<OfferView>
    decreases s.len(),
{
    if s.len() == 0 {
        seq![o]
    } else if offer_le(ord, o, s[0]) {
        seq![o] + s
    } else {
        seq![s[0]] + insert_sorted(ord, o, s.drop_first())
    }
}

/// The requested ordering of a sequence of offers: each element in turn
/// inserted at its place.
pub open spec fn spec_sorted(ord: SortOrder, s: Seq<OfferView>) -> Seq<OfferView>
    decreases s.len(),
{
    if s.len() == 0 {
        Seq::empty()
    } else {
        insert_sorted(ord, s.first(), spec_sorted(ord, s.drop_first()))
    }
}

/// Inserting into a sorted sequence keeps it sorted and adds exactly the
/// inserted element.
pub proof fn lemma_insert_sorted_ensures(ord: SortOrder, o: OfferView, s: Seq<OfferView>)
    requires
        sorted_by(s, |a: OfferView, b: OfferView| offer_le(ord, a, b)),
    ensures
        sorted_by(insert_sorted(ord, o, s), |a: OfferView, b: OfferView| offer_le(ord, a, b)),
        insert_sorted(ord, o, s).to_multiset() == s.to_multiset().insert(o),
        insert_sorted(ord, o, s).len() == s.len() + 1,
    decreases s.len(),
{
    broadcast use vstd::seq_lib::group_to_multiset_ensures;

    let leq = |a: OfferView, b: OfferView| offer_le(ord, a, b);
    if s.len() == 0 {
        assert(seq![o] =~= Seq::empty().push(o));
        assert(seq![o].to_multiset() =~= s.to_multiset().insert(o));
    } else if offer_le(ord, o, s[0]) {
        let r = seq![o] + s;
        assert forall|i: int, j: int| 0 <= i < j < r.len() implies #[trigger] leq(r[i], r[j]) by {
            lemma_offer_le_transitive(ord);
            if i > 0 {
                assert(leq(s[i - 1], s[j - 1]));
            } else if j > 0 {
                assert(leq(o, s[0]));
                if j > 1 {
                    assert(leq(s[0], s[j - 1]));
                }
            }
        }
        assert(r =~= s.insert(0, o));
        lemma_multiset_commutative(seq![o], s);
        assert(seq![o].to_multiset() =~= Seq::<OfferView>::empty().push(o).to_multiset());
        assert(r.to_multiset() =~= s.to_multiset().insert(o));
    } else {
        let rest = s.drop_first();
        assert forall|i: int, j: int| 0 <= i < j < rest.len() implies #[trigger] leq(
            rest[i],
            rest[j],
        ) by {
            assert(leq(s[i + 1], s[j + 1]));
        }
        lemma_insert_sorted_ensures(ord, o, rest);
        let inner = insert_sorted(ord, o, rest);
        let r = seq![s[0]] + inner;
        assert(r == insert_sorted(ord, o, s));
        // the head still precedes everything behind it
        assert forall|i: int, j: int| 0 <= i < j < r.len() implies #[trigger] leq(r[i], r[j]) by {
            if i > 0 {
                assert(leq(inner[i - 1], inner[j - 1]));
            } else {
                let x = inner[j - 1];
                assert(inner.to_multiset().contains(x));
                assert(rest.to_multiset().insert(o).contains(x));
                lemma_offer_le_connected(ord);
                lemma_offer_le_transitive(ord);
                if x == o {
                    assert(leq(s[0], o));
                } else {
                    assert(rest.to_multiset().contains(x));
                    let k = choose|k: int| 0 <= k < rest.len() && rest[k] == x;
                    if s.len() >= 2 {
                        assert(leq(s[0], s[1]));
                        if k > 0 {
                            assert(leq(rest[0], rest[k]));
                        }
                    }
                }
            }
        }
        lemma_multiset_commutative(seq![s[0]], inner);
        lemma_multiset_commutative(seq![s[0]], rest);
        assert(seq![s[0]] + rest =~= s);
        assert(seq![s[0]].to_multiset() =~= Seq::<OfferView>::empty().push(s[0]).to_multiset());
        assert(r.to_multiset() =~= s.to_multiset().insert(o));
    }
}

/// The requested ordering of a sequence is sorted and is a permutation of it.
pub proof fn lemma_spec_sorted_ensures(ord: SortOrder, s: Seq<OfferView>)
    ensures
        sorted_by(spec_sorted(ord, s), |a: OfferView, b: OfferView| offer_le(ord, a, b)),
        spec_sorted(ord, s).to_multiset() == s.to_multiset(),
        spec_sorted(ord, s).len() == s.len(),
    decreases s.len(),
{
    broadcast use vstd::seq_lib::group_to_multiset_ensures;

    if s.len() == 0 {
    } else {
        lemma_spec_sorted_ensures(ord, s.drop_first());
        lemma_insert_sorted_ensures(ord, s.first(), spec_sorted(ord, s.drop_first()));
        assert(s =~= seq![s.first()] + s.drop_first());
        lemma_multiset_commutative(seq![s.first()], s.drop_first());
        assert(seq![s.first()].to_multiset() =~= Seq::<OfferView>::empty().push(
            s.first(),
        ).to_multiset());
        assert(spec_sorted(ord, s).to_multiset() =~= s.to_multiset());
    }
}

/// Where [`insert_sorted`] places the new element: before position `i`, the
/// first position whose element does not precede `o`.
proof fn lemma_insert_sorted_at(ord: SortOrder, o: OfferView, s: Seq<OfferView>, i: int)
    requires
        0 <= i <= s.len(),
        forall|j: int| 0 <= j < i ==> !offer_le(ord, o, #[trigger] s[j]),
        i < s.len() ==> offer_le(ord, o, s[i]),
    ensures
        insert_sorted(ord, o, s) == s.insert(i, o),
    decreases s.len(),
{
    if s.len() == 0 {
        assert(insert_sorted(ord, o, s) =~= s.insert(0, o));
    } else if i == 0 {
        assert(insert_sorted(ord, o, s) =~= s.insert(0, o));
    } else {
        assert(!offer_le(ord, o, s[0]));
        let rest = s.drop_first();
        lemma_insert_sorted_at(ord, o, rest, i - 1);
        assert(seq![s[0]] + rest.insert(i - 1, o) =~= s.insert(i, o));
    }
}

/// Compares two offers under the requested ordering.
pub fn offer_le_exec(ord: SortOrder, a: &Offer, b: &Offer) -> (r: bool)
    ensures
        r == offer_le(ord, a@, b@),
{
    match ord {
        SortOrder::PriceAsc => a.price < b.price || (a.price == b.price && a.id <= b.id),
        SortOrder::PriceDesc => b.price < a.price || (a.price == b.price && a.id <= b.id),
    }
}

/// Inserts an offer before the first element that does not precede it.
fn insert_offer_sorted(out: &mut Vec<Offer>, o: Offer, ord: SortOrder)
    ensures
        views_of(final(out)@) == insert_sorted(ord, o@, views_of(old(out)@)),
{
    let ghost s = views_of(old(out)@);
    let mut i: usize = 0;
    while i < out.len() && !offer_le_exec(ord, &o, &out[i])
        invariant
            i <= out.len(),
            out@ == old(out)@,
            s == views_of(out@),
            forall|j: int| 0 <= j < i ==> !offer_le(ord, o@, #[trigger] s[j]),
        decreases out.len() - i,
    {
        proof {
            assert(s[i as int] == out@[i as int]@);
        }
        i = i + 1;
    }
    proof {
        if i < out.len() {
            assert(s[i as int] == out@[i as int]@);
        }
        lemma_insert_sorted_at(ord, o@, s, i as int);
    }
    out.insert(i, o);
    proof {
        assert(views_of(final(out)@) =~= s.insert(i as int, o@));
    }
}

/// Sorts offers under the requested ordering; the result is exactly
/// [`spec_sorted`] of the input.
pub fn sort_offers(offers: Vec<Offer>, ord: SortOrder) -> (r: Vec<Offer>)
    ensures
        views_of(r@) == spec_sorted(ord, views_of(offers@)),
{
    let ghost g = offers@;
    let mut v = offers;
    let mut out: Vec<Offer> = Vec::new();
    while v.len() > 0
        invariant
            v@.len() <= g.len(),
            v@ == g.take(v@.len() as int),
            views_of(out@) == spec_sorted(ord, views_of(g.skip(v@.len() as int))),
        decreases v.len(),
    {
        let ghost k = v@.len() as int;
        let o = match v.pop() {
            Some(o) => o,
            None => {
                proof {
                    assert(false);
                }
                return out;
            },
        };
        proof {
            assert(v@ =~= g.take(k - 1));
            assert(o == g[k - 1]);
            let tail = views_of(g.skip(k - 1));
            assert(tail.len() > 0);
            assert(tail.first() == o@);
            assert(tail.drop_first() =~= views_of(g.skip(k)));
        }
        insert_offer_sorted(&mut out, o, ord);
    }
    proof {
        assert(g.skip(0) =~= g);
        assert(g.take(0) =~= Seq::<Offer>::empty());
    }
    out
}

} // verus!

//! The offer store model: the dataset as a sequence of offers with unique
//! identifiers. Inserting an offer whose identifier is already present
//! overwrites it in place; a batch is applied as one whole; a wipe empties
//! the dataset. A snapshot hands a search a consistent copy of the dataset.

use vstd::prelude::*;
use crate::models::{Offer, OfferView, views_of};

verus! {

/// Whether some offer of `s` carries the identifier `id`.
pub open spec fn has_id(s: Seq<OfferView>, id: u128) -> bool {
    exists|i: int| 0 <= i < s.len() && s[i].id == id
}

/// The position of the offer of `s` carrying `id`, when there is one.
pub open spec fn index_of_id(s: Seq<OfferView>, id: u128) -> int {
    choose|i: int| 0 <= i < s.len() && s[i].id == id
}

/// Identifier uniqueness: no two offers of `s` share an identifier.
pub open spec fn ids_unique(s: Seq<OfferView>) -> bool {
    forall|i: int, j: int| 0 <= i < j < s.len() ==> s[i].id != s[j].id
}

/// One upsert: overwrite the offer with the same identifier in place, or
/// append the offer when its identifier is new.
pub open spec fn upsert_one(s: Seq<OfferView>, o: OfferView) -> Seq<OfferView> {
    if has_id(s, o.id) {
        s.update(index_of_id(s, o.id), o)
    } else {
        s.push(o)
    }
}

/// A whole batch of upserts, applied in order.
pub open spec fn upsert_all(s: Seq<OfferView>, batch: Seq<OfferView>) -> Seq<OfferView>
    decreases batch.len(),
{
    if batch.len() == 0 {
        s
    } else {
        upsert_one(upsert_all(s, batch.drop_last()), batch.last())
    }
}

/// The dataset: offers keyed by their identifier.
pub struct OfferStore {
    offers: Vec<Offer>,
}

impl View for OfferStore {
    type V = Seq<OfferView>;

    closed spec fn view(&self) -> Seq<OfferView> {
        views_of(self.offers@)
    }
}

/// An upsert keeps identifiers unique, stores exactly the given offer under
/// its identifier, never creates a second entry for an existing identifier,
/// and leaves every other offer unchanged.
pub proof fn lemma_upsert_one_ensures(s: Seq<OfferView>, o: OfferView)
    requires
        ids_unique(s),
    ensures
        ids_unique(upsert_one(s, o)),
        has_id(upsert_one(s, o), o.id),
        upsert_one(s, o)[index_of_id(upsert_one(s, o), o.id)] == o,
        upsert_one(s, o).len() == if has_id(s, o.id) {
            s.len()
        } else {
            s.len() + 1
        },
        forall|j: int|
            0 <= j < s.len() && s[j].id != o.id ==> upsert_one(s, o)[j] == s[j],
{
    let t = upsert_one(s, o);
    if has_id(s, o.id) {
        let i = index_of_id(s, o.id);
        assert(0 <= i < s.len() && s[i].id == o.id);
        assert(t[i] == o);
        assert(has_id(t, o.id));
        let i2 = index_of_id(t, o.id);
        assert(0 <= i2 < t.len() && t[i2].id == o.id);
        if i2 != i {
            assert(t[i2] == s[i2]);
        }
    } else {
        assert(t[s.len() as int] == o);
        assert(has_id(t, o.id));
        let i2 = index_of_id(t, o.id);
        assert(0 <= i2 < t.len() && t[i2].id == o.id);
        if i2 != s.len() as int {
            assert(s[i2].id == o.id);
            assert(has_id(s, o.id));
        }
    }
}

/// Re-inserting an offer under an existing identifier changes the stored
/// offer — its price included — and does not create a second entry.
pub proof fn lemma_reinsert_updates_in_place(s: Seq<OfferView>, o: OfferView)
    requires
        ids_unique(s),
        has_id(s, o.id),
    ensures
        upsert_all(s, seq![o]).len() == s.len(),
        upsert_all(s, seq![o])[index_of_id(upsert_all(s, seq![o]), o.id)] == o,
        forall|j: int|
            0 <= j < s.len() && s[j].id != o.id ==> upsert_all(s, seq![o])[j] == s[j],
{
    assert(seq![o].drop_last() =~= Seq::<OfferView>::empty());
    assert(upsert_all(s, seq![o].drop_last()) == s);
    assert(upsert_all(s, seq![o]) == upsert_one(s, o));
    lemma_upsert_one_ensures(s, o);
}

/// A batch of offers with pairwise distinct, previously unknown identifiers
/// grows the dataset by exactly the batch's length; a batch into an empty
/// dataset yields exactly the batch's offers, one stored offer per batch
/// entry.
pub proof fn lemma_batch_of_new_ids_adds_all(s: Seq<OfferView>, batch: Seq<OfferView>)
    requires
        ids_unique(s),
        ids_unique(batch),
        forall|i: int| 0 <= i < batch.len() ==> !has_id(s, (#[trigger] batch[i]).id),
    ensures
        ids_unique(upsert_all(s, batch)),
        upsert_all(s, batch).len() == s.len() + batch.len(),
        forall|i: int|
            0 <= i < batch.len() ==> has_id(upsert_all(s, batch), (#[trigger] batch[i]).id),
    decreases batch.len(), 0int,
{
    if batch.len() > 0 {
        let rest = batch.drop_last();
        assert(forall|i: int| 0 <= i < rest.len() ==> rest[i] == batch[i]);
        lemma_batch_of_new_ids_adds_all(s, rest);
        let t = upsert_all(s, rest);
        let o = batch.last();
        if has_id(t, o.id) {
            let i = index_of_id(t, o.id);
            assert(0 <= i < t.len() && t[i].id == o.id);
            if i < s.len() {
                lemma_upsert_all_keeps_prefix(s, rest, i);
                assert(has_id(s, o.id));
            } else {
                lemma_upsert_all_of_new_ids_appends(s, rest, i);
                assert(rest[i - s.len()].id == o.id);
            }
        }
        lemma_upsert_one_ensures(t, o);
        assert forall|i: int|
            0 <= i < batch.len() implies has_id(upsert_all(s, batch), (#[trigger] batch[i]).id) by {
            if i < batch.len() - 1 {
                let w = choose|j: int| 0 <= j < t.len() && t[j].id == batch[i].id;
                assert(upsert_one(t, o)[w].id == batch[i].id);
            }
        }
    }
}

/// Upserting offers with new identifiers leaves the original prefix as it
/// was.
proof fn lemma_upsert_all_keeps_prefix(s: Seq<OfferView>, batch: Seq<OfferView>, i: int)
    requires
        ids_unique(s),
        ids_unique(batch),
        forall|i: int| 0 <= i < batch.len() ==> !has_id(s, (#[trigger] batch[i]).id),
        0 <= i < s.len(),
    ensures
        upsert_all(s, batch)[i] == s[i],
    decreases batch.len(), 2int,
{
    if batch.len() > 0 {
        let rest = batch.drop_last();
        assert(forall|j: int| 0 <= j < rest.len() ==> rest[j] == batch[j]);
        lemma_upsert_all_keeps_prefix(s, rest, i);
        lemma_batch_of_new_ids_adds_all(s, rest);
        let t = upsert_all(s, rest);
        let o = batch.last();
        if has_id(t, o.id) {
            let w = index_of_id(t, o.id);
            if w < s.len() {
                lemma_upsert_all_keeps_prefix(s, rest, w);
                assert(has_id(s, o.id));
            } else {
                lemma_upsert_all_of_new_ids_appends(s, rest, w);
                assert(rest[w - s.len()].id == o.id);
            }
        }
    }
}

/// Upserting offers with new identifiers appends them behind the original
/// offers, in batch order.
proof fn lemma_upsert_all_of_new_ids_appends(s: Seq<OfferView>, batch: Seq<OfferView>, i: int)
    requires
        ids_unique(s),
        ids_unique(batch),
        forall|i: int| 0 <= i < batch.len() ==> !has_id(s, (#[trigger] batch[i]).id),
        s.len() <= i < s.len() + batch.len(),
    ensures
        upsert_all(s, batch).len() == s.len() + batch.len(),
        upsert_all(s, batch)[i] == batch[i - s.len()],
    decreases batch.len(), 1int,
{
    lemma_batch_of_new_ids_adds_all(s, batch);
    let rest = batch.drop_last();
    assert(forall|j: int| 0 <= j < rest.len() ==> rest[j] == batch[j]);
    lemma_batch_of_new_ids_adds_all(s, rest);
    let t = upsert_all(s, rest);
    let o = batch.last();
    if has_id(t, o.id) {
        let w = index_of_id(t, o.id);
        if w < s.len() {
            lemma_upsert_all_keeps_prefix(s, rest, w);
            assert(has_id(s, o.id));
        } else {
            lemma_upsert_all_of_new_ids_appends(s, rest, w);
            assert(rest[w - s.len()].id == o.id);
        }
    }
    if i < s.len() + rest.len() {
        lemma_upsert_all_of_new_ids_appends(s, rest, i);
    }
}

impl OfferStore {
    /// The store's identifiers are unique; every operation keeps this.
    pub open spec fn wf(&self) -> bool {
        ids_unique(self@)
    }

    /// An empty dataset.
    pub fn new() -> (r: OfferStore)
        ensures
            r@ == Seq::<OfferView>::empty(),
            r.wf(),
    {
        let r = OfferStore { offers: Vec::new() };
        proof {
            assert(r@ =~= Seq::<OfferView>::empty());
        }
        r
    }

    /// How many offers are stored.
    pub fn len(&self) -> (r: usize)
        ensures
            r == self@.len(),
    {
        self.offers.len()
    }

    /// The position of the stored offer with this identifier, if any.
    fn find_index(&self, id: u128) -> (r: Option<usize>)
        ensures
            match r {
                Some(i) => i < self@.len() && self@[i as int].id == id,
                None => !has_id(self@, id),
            },
    {
        let mut i: usize = 0;
        while i < self.offers.len()
            invariant
                i <= self.offers@.len(),
                self@ == views_of(self.offers@),
                forall|j: int| 0 <= j < i ==> (#[trigger] self@[j]).id != id,
            decreases self.offers@.len() - i,
        {
            if self.offers[i].id == id {
                return Some(i);
            }
            i = i + 1;
        }
        None
    }

    /// Stores one offer: overwrites the stored offer with the same
    /// identifier, or appends the offer when its identifier is new.
    pub fn put(&mut self, offer: Offer)
        requires
            old(self).wf(),
        ensures
            final(self).wf(),
            final(self)@ == upsert_one(old(self)@, offer@),
    {
        let ghost s = self@;
        match self.find_index(offer.id) {
            Some(i) => {
                proof {
                    assert(has_id(s, offer@.id));
                    let w = index_of_id(s, offer@.id);
                    assert(0 <= w < s.len() && s[w].id == offer@.id);
                    assert(w == i as int);
                }
                self.offers.set(i, offer);
                proof {
                    assert(self@ =~= upsert_one(s, offer@));
                    lemma_upsert_one_ensures(s, offer@);
                }
            },
            None => {
                self.offers.push(offer);
                proof {
                    assert(self@ =~= upsert_one(s, offer@));
                    lemma_upsert_one_ensures(s, offer@);
                }
            },
        }
    }

    /// Stores a whole batch of offers, in order, as one operation.
    pub fn batch_put(&mut self, offers: Vec<Offer>)
        requires
            old(self).wf(),
        ensures
            final(self).wf(),
            final(self)@ == upsert_all(old(self)@, views_of(offers@)),
    {
        let ghost s = self@;
        let ghost batch = views_of(offers@);
        let mut i: usize = 0;
        while i < offers.len()
            invariant
                i <= offers@.len(),
                batch == views_of(offers@),
                self.wf(),
                self@ == upsert_all(s, batch.take(i as int)),
            decreases offers@.len() - i,
        {
            self.put(offers[i].duplicate());
            i = i + 1;
            proof {
                assert(batch.take(i as int).drop_last() =~= batch.take(i - 1));
                assert(batch.take(i as int).last() == offers@[i - 1]@);
            }
        }
        proof {
            assert(batch.take(batch.len() as int) =~= batch);
        }
    }

    /// Removes every stored offer.
    pub fn wipe(&mut self)
        ensures
            final(self).wf(),
            final(self)@ == Seq::<OfferView>::empty(),
    {
        self.offers.clear();
        proof {
            assert(self@ =~= Seq::<OfferView>::empty());
        }
    }

    /// A consistent copy of the whole dataset, for one search to scan.
    pub fn snapshot(&self) -> (r: Vec<Offer>)
        ensures
            views_of(r@) == self@,
    {
        let mut out: Vec<Offer> = Vec::new();
        let mut i: usize = 0;
        while i < self.offers.len()
            invariant
                i <= self.offers@.len(),
                self@ == views_of(self.offers@),
                out@.len() == i,
                views_of(out@) == self@.take(i as int),
            decreases self.offers@.len() - i,
        {
            out.push(self.offers[i].duplicate());
            i = i + 1;
            proof {
                assert(views_of(out@)[i - 1] == out@[i - 1]@);
                assert(out@[i - 1]@ == self.offers@[i - 1]@);
                assert(views_of(out@) =~= self@.take(i as int));
            }
        }
        proof {
            assert(self@.take(self@.len() as int) =~= self@);
        }
        out
    }
}

} // verus!

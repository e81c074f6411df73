//! Filter evaluation: whether one offer satisfies a query, and the filtered
//! subsequence of a snapshot.

use vstd::prelude::*;
use crate::models::{Offer, OfferView, views_of};
use crate::query::QueryView;
use crate::query::Query;

verus! {

/// Whether an offer satisfies every scalar and refinement predicate of a
/// query: region equality; temporal overlap of the inclusive availability
/// window with the queried range; minimum seats; minimum price (inclusive);
/// maximum price (a strictly exclusive upper bound); exact car-type match
/// when requested; exact insurance-flag match when requested; and minimum
/// free kilometers. An absent refinement matches every offer.
pub open spec fn spec_matches(o: OfferView, q: QueryView) -> bool {
    &&& o.most_specific_region_id == q.region_id
    &&& o.start_date <= q.time_range_end
    &&& o.end_date >= q.time_range_start
    &&& (match q.min_number_seats {
        Some(min_seats) => o.number_seats >= min_seats,
        None => true,
    })
    &&& (match q.min_price {
        Some(min_price) => o.price >= min_price,
        None => true,
    })
    &&& (match q.max_price {
        Some(max_price) => o.price < max_price,
        None => true,
    })
    &&& (match q.car_type {
        Some(ct) => o.car_type == ct,
        None => true,
    })
    &&& (match q.only_vollkasko {
        Some(v) => o.has_vollkasko == v,
        None => true,
    })
    &&& (match q.min_free_kilometer {
        Some(min_fk) => o.free_kilometers >= min_fk,
        None => true,
    })
}

/// The subsequence of a snapshot that satisfies the query, in snapshot order.
pub open spec fn spec_filtered(s: Seq<OfferView>, q: QueryView) -> Seq<OfferView> {
    s.filter(|o: OfferView| spec_matches(o, q))
}

/// Evaluates one offer against a query; true iff the offer independently
/// satisfies every predicate of [`spec_matches`].
pub fn matches(o: &Offer, q: &Query) -> (r: bool)
    ensures
        r == spec_matches(o@, q@),
{
    if o.most_specific_region_id != q.region_id {
        return false;
    }
    if o.start_date > q.time_range_end || o.end_date < q.time_range_start {
        return false;
    }
    if let Some(min_seats) = q.min_number_seats {
        if o.number_seats < min_seats {
            return false;
        }
    }
    if let Some(min_price) = q.min_price {
        if o.price < min_price {
            return false;
        }
    }
    if let Some(max_price) = q.max_price {
        if o.price >= max_price {
            return false;
        }
    }
    if let Some(ref ct) = q.car_type {
        if o.car_type != *ct {
            return false;
        }
    }
    if let Some(v) = q.only_vollkasko {
        if o.has_vollkasko != v {
            return false;
        }
    }
    if let Some(min_fk) = q.min_free_kilometer {
        if o.free_kilometers < min_fk {
            return false;
        }
    }
    true
}

/// The offers of a snapshot that satisfy the query, in snapshot order.
pub fn filter_offers(snapshot: &Vec<Offer>, q: &Query) -> (r: Vec<Offer>)
    ensures
        views_of(r@) == spec_filtered(views_of(snapshot@), q@),
{
    let ghost pred = |o: OfferView| spec_matches(o, q@);
    let mut out: Vec<Offer> = Vec::new();
    let mut i: usize = 0;
    while i < snapshot.len()
        invariant
            i <= snapshot.len(),
            views_of(out@) == views_of(snapshot@).take(i as int).filter(pred),
            pred == (|o: OfferView| spec_matches(o, q@)),
        decreases snapshot.len() - i,
    {
        let ghost prefix = views_of(snapshot@).take(i as int);
        if matches(&snapshot[i], q) {
            out.push(snapshot[i].duplicate());
        }
        i = i + 1;
        proof {
            let prefix2 = views_of(snapshot@).take(i as int);
            assert(prefix2.drop_last() =~= prefix);
            assert(prefix2.last() == snapshot@[i - 1]@);
            reveal(Seq::filter);
            if pred(snapshot@[i - 1]@) {
                assert(views_of(out@) =~= prefix.filter(pred).push(snapshot@[i - 1]@));
            } else {
                assert(views_of(out@) =~= prefix.filter(pred));
            }
        }
    }
    proof {
        assert(views_of(snapshot@).take(snapshot@.len() as int) =~= views_of(snapshot@));
    }
    out
}

} // verus!

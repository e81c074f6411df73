//! Page windowing over the ordered filtered set. Pages are 1-indexed; a page
//! whose window starts beyond the end of the set is empty, never an error.

use vstd::prelude::*;
use crate::models::{Offer, OfferView, SearchResultOffer, SearchResultOfferView, result_row_of,
    views_of, copy_bytes};

verus! {

/// The views of a sequence of result rows.
pub open spec fn rows_of(s: Seq<SearchResultOffer>) -> Seq<SearchResultOfferView> {
    s.map_values(|r: SearchResultOffer| r@)
}

/// The window of positions `[(page-1)*page_size, page*page_size)` of the
/// ordered set, cut down to the positions that exist. A window starting at or
/// beyond the end is empty; a window reaching beyond the end holds what is
/// left.
pub open spec fn spec_window(s: Seq<OfferView>, page: u32, page_size: u32) -> Seq<OfferView>
    recommends
        page >= 1,
{
    let start = (page - 1) as int * page_size as int;
    let end = start + page_size as int;
    let lo = if start <= s.len() as int {
        start
    } else {
        s.len() as int
    };
    let hi = if end <= s.len() as int {
        end
    } else {
        s.len() as int
    };
    s.subrange(lo, hi)
}

/// A page beyond the last available one is empty: whenever the window starts
/// at or past the end of the set, no offer is returned.
pub proof fn lemma_page_beyond_end_empty(s: Seq<OfferView>, page: u32, page_size: u32)
    requires
        page >= 1,
        (page - 1) as int * page_size as int >= s.len(),
    ensures
        spec_window(s, page, page_size) == Seq::<OfferView>::empty(),
{
    assert(spec_window(s, page, page_size) =~= Seq::<OfferView>::empty());
}

/// The requested page of the ordered set, as result rows of identifier and
/// payload.
pub fn paginate(offers: &Vec<Offer>, page: u32, page_size: u32) -> (r: Vec<SearchResultOffer>)
    requires
        page >= 1,
    ensures
        rows_of(r@) == spec_window(views_of(offers@), page, page_size).map_values(
            |o: OfferView| result_row_of(o),
        ),
{
    let ghost s = views_of(offers@);
    let ghost target = spec_window(s, page, page_size).map_values(
        |o: OfferView| result_row_of(o),
    );
    proof {
        assert((page as u64 - 1) * (page_size as u64) <= (u32::MAX as u64) * (u32::MAX as u64))
            by (nonlinear_arith)
            requires
                1 <= page <= u32::MAX as u64,
                page_size <= u32::MAX as u64,
        ;
    }
    let start64: u64 = (page as u64 - 1) * (page_size as u64);
    let end64: u64 = start64 + page_size as u64;
    let len64: u64 = offers.len() as u64;
    let lo: usize = if start64 <= len64 {
        start64 as usize
    } else {
        offers.len()
    };
    let hi: usize = if end64 <= len64 {
        end64 as usize
    } else {
        offers.len()
    };
    proof {
        assert(spec_window(s, page, page_size) == s.subrange(lo as int, hi as int));
    }
    let mut out: Vec<SearchResultOffer> = Vec::new();
    let mut i: usize = lo;
    while i < hi
        invariant
            lo <= i <= hi <= offers@.len(),
            s == views_of(offers@),
            spec_window(s, page, page_size) == s.subrange(lo as int, hi as int),
            target == spec_window(s, page, page_size).map_values(
                |o: OfferView| result_row_of(o),
            ),
            out@.len() == i - lo,
            rows_of(out@) == target.take(i - lo),
        decreases hi - i,
    {
        let ghost entry_out = out@;
        let row = SearchResultOffer { id: offers[i].id, data: copy_bytes(&offers[i].data) };
        out.push(row);
        i = i + 1;
        proof {
            let j = i - 1 - lo as int;
            assert(s[i - 1] == offers@[i - 1]@);
            assert(s.subrange(lo as int, hi as int)[j] == s[lo + j]);
            assert(target[j] == result_row_of(s[i - 1]));
            assert(out@[j]@ == target[j]);
            assert forall|m: int| 0 <= m < i - lo implies rows_of(out@)[m] == target[m] by {
                assert(rows_of(out@)[m] == out@[m]@);
                if m < j {
                    assert(out@[m] == entry_out[m]);
                    assert(rows_of(entry_out)[m] == entry_out[m]@);
                    assert(rows_of(entry_out)[m] == target.take(j)[m]);
                }
            }
            assert(rows_of(out@) =~= target.take(i - lo));
        }
    }
    proof {
        assert(target.take(hi - lo) =~= target);
    }
    out
}

} // verus!

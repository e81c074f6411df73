//! One search, end to end: filter the snapshot, aggregate the filtered set,
//! order it deterministically, and cut out the requested page. Entry points
//! for ingestion and for wiping the dataset live here as well.

use vstd::prelude::*;
use crate::models::{Offer, OfferView, SearchResult, views_of, result_row_of};
use crate::query::{Query, QueryView, QueryError, query_well_formed, build_query_spec, build_query};
use crate::filter::{spec_filtered, spec_matches, filter_offers};
use crate::sort::{spec_sorted, sort_offers};
use crate::paginate::{spec_window, rows_of, paginate};
use crate::facets::{count_vk, count_car, price_ranges_spec, free_km_ranges_spec, seats_entries,
    count_bucket, hist_buckets, compute_vollkasko_count, compute_car_type_counts,
    compute_seats_count, compute_price_ranges, compute_free_kilometer_ranges, count_seats};
use crate::store::{OfferStore, upsert_all};

verus! {

/// What a correct search result holds for the dataset `s` and the query `q`:
/// the page is the requested window of the deterministically ordered filtered
/// set, and every aggregate view is computed over that same filtered set.
pub open spec fn spec_search_ok(r: SearchResult, s: Seq<OfferView>, q: QueryView) -> bool {
    let filtered = spec_filtered(s, q);
    let sorted = spec_sorted(q.sort_order, filtered);
    &&& rows_of(r.offers@) == spec_window(sorted, q.page, q.page_size).map_values(
        |o: OfferView| result_row_of(o),
    )
    &&& r.price_ranges@ == price_ranges_spec(filtered, q.price_range_width)
    &&& r.car_type_counts.small == count_car(filtered, "small"@)
    &&& r.car_type_counts.sports == count_car(filtered, "sports"@)
    &&& r.car_type_counts.luxury == count_car(filtered, "luxury"@)
    &&& r.car_type_counts.family == count_car(filtered, "family"@)
    &&& r.seats_count@ == seats_entries(filtered, 256)
    &&& r.free_kilometer_range@ == free_km_ranges_spec(filtered, q.min_free_kilometer_width)
    &&& r.vollkasko_count.true_count == count_vk(filtered, true)
    &&& r.vollkasko_count.false_count == count_vk(filtered, false)
}

/// Runs one search against a snapshot of the dataset.
pub fn search_snapshot(snapshot: &Vec<Offer>, q: &Query) -> (r: SearchResult)
    requires
        query_well_formed(q@),
        snapshot@.len() <= 0xffff_ffff,
    ensures
        spec_search_ok(r, views_of(snapshot@), q@),
{
    let filtered = filter_offers(snapshot, q);
    proof {
        let s = views_of(snapshot@);
        let pred = |o: OfferView| spec_matches(o, q@);
        s.lemma_filter_len(pred);
        assert(spec_filtered(s, q@) == s.filter(pred));
        assert(views_of(filtered@).len() == filtered@.len());
        assert(s.len() == snapshot@.len());
    }
    let vollkasko_count = compute_vollkasko_count(&filtered);
    let car_type_counts = compute_car_type_counts(&filtered);
    let seats_count = compute_seats_count(&filtered);
    let price_ranges = compute_price_ranges(&filtered, q.price_range_width);
    let free_kilometer_range = compute_free_kilometer_ranges(&filtered, q.min_free_kilometer_width);
    let sorted = sort_offers(filtered, q.sort_order);
    let offers = paginate(&sorted, q.page, q.page_size);
    SearchResult {
        offers,
        price_ranges,
        car_type_counts,
        seats_count,
        free_kilometer_range,
        vollkasko_count,
    }
}

/// Why an ingestion request is rejected.
#[derive(Clone, Copy, PartialEq, Eq, Structural, Debug)]
pub enum IngestError {
    EmptyBatch,
}

/// Ingests a batch of offers: an empty batch is rejected with no effect;
/// otherwise every offer of the batch is stored, in order, each one
/// overwriting any stored offer with the same identifier.
pub fn create_offers(store: &mut OfferStore, offers: Vec<Offer>) -> (r: Result<(), IngestError>)
    requires
        old(store).wf(),
    ensures
        final(store).wf(),
        match r {
            Ok(_) => offers@.len() > 0 && final(store)@ == upsert_all(
                old(store)@,
                views_of(offers@),
            ),
            Err(e) => offers@.len() == 0 && e == IngestError::EmptyBatch && final(store)@ == old(
                store,
            )@,
        },
{
    if offers.len() == 0 {
        return Err(IngestError::EmptyBatch);
    }
    store.batch_put(offers);
    Ok(())
}

/// Removes every stored offer; wiping an empty dataset succeeds and is a
/// no-op.
pub fn cleanup_data(store: &mut OfferStore)
    ensures
        final(store).wf(),
        final(store)@ == Seq::<OfferView>::empty(),
{
    store.wipe();
}

/// Validates raw request values and, when they form a valid query, runs the
/// search against a snapshot of the dataset.
pub fn get_offers(
    store: &OfferStore,
    region_id: Option<i32>,
    time_range_start: Option<i64>,
    time_range_end: Option<i64>,
    number_days: Option<i32>,
    sort_order: Option<String>,
    page: Option<u32>,
    page_size: Option<u32>,
    price_range_width: Option<u32>,
    min_free_kilometer_width: Option<u32>,
    min_number_seats: Option<u8>,
    min_price: Option<u16>,
    max_price: Option<u16>,
    car_type: Option<String>,
    only_vollkasko: Option<bool>,
    min_free_kilometer: Option<u16>,
) -> (r: Result<SearchResult, QueryError>)
    requires
        store@.len() <= 0xffff_ffff,
    ensures
        ({
            let expected = build_query_spec(
                region_id,
                time_range_start,
                time_range_end,
                number_days,
                match sort_order {
                    Some(s) => Some(s@),
                    None => None,
                },
                page,
                page_size,
                price_range_width,
                min_free_kilometer_width,
                min_number_seats,
                min_price,
                max_price,
                match car_type {
                    Some(ct) => Some(ct@),
                    None => None,
                },
                only_vollkasko,
                min_free_kilometer,
            );
            match r {
                Ok(res) => expected is Ok && spec_search_ok(res, store@, expected->Ok_0),
                Err(e) => expected is Err && e == expected->Err_0,
            }
        }),
{
    let q = match build_query(
        region_id,
        time_range_start,
        time_range_end,
        number_days,
        sort_order,
        page,
        page_size,
        price_range_width,
        min_free_kilometer_width,
        min_number_seats,
        min_price,
        max_price,
        car_type,
        only_vollkasko,
        min_free_kilometer,
    ) {
        Ok(q) => q,
        Err(e) => {
            return Err(e);
        },
    };
    let snapshot = store.snapshot();
    Ok(search_snapshot(&snapshot, &q))
}

/// A histogram over no offers has no buckets.
proof fn lemma_hist_buckets_empty(vs: Seq<u16>, w: u32, k: int)
    requires
        vs.len() == 0,
    ensures
        hist_buckets(vs, w, k) == Seq::<(u32, u32, u32)>::empty(),
    decreases k,
{
    if k > 0 {
        lemma_hist_buckets_empty(vs, w, k - 1);
        assert(count_bucket(vs, w, k - 1) == 0);
    }
}

/// A seat distribution over no offers has no entries.
proof fn lemma_seats_entries_empty(s: Seq<OfferView>, v: int)
    requires
        s.len() == 0,
    ensures
        seats_entries(s, v) == Seq::<crate::models::SeatsCount>::empty(),
    decreases v,
{
    if v > 0 {
        lemma_seats_entries_empty(s, v - 1);
        assert(count_seats(s, (v - 1) as u8) == 0);
    }
}

/// A search over an empty dataset — such as one taken after a wipe — returns
/// an empty page and all-zero, all-empty aggregates, for every valid query.
pub proof fn lemma_search_after_wipe(q: QueryView)
    requires
        query_well_formed(q),
    ensures
        spec_filtered(Seq::<OfferView>::empty(), q) == Seq::<OfferView>::empty(),
        spec_sorted(q.sort_order, Seq::<OfferView>::empty()) == Seq::<OfferView>::empty(),
        spec_window(Seq::<OfferView>::empty(), q.page, q.page_size) == Seq::<OfferView>::empty(),
        price_ranges_spec(Seq::<OfferView>::empty(), q.price_range_width) == Seq::<
            crate::models::PriceRange,
        >::empty(),
        free_km_ranges_spec(Seq::<OfferView>::empty(), q.min_free_kilometer_width) == Seq::<
            crate::models::FreeKilometerRange,
        >::empty(),
        seats_entries(Seq::<OfferView>::empty(), 256) == Seq::<crate::models::SeatsCount>::empty(),
        count_vk(Seq::<OfferView>::empty(), true) == 0,
        count_vk(Seq::<OfferView>::empty(), false) == 0,
        count_car(Seq::<OfferView>::empty(), "small"@) == 0,
        count_car(Seq::<OfferView>::empty(), "sports"@) == 0,
        count_car(Seq::<OfferView>::empty(), "luxury"@) == 0,
        count_car(Seq::<OfferView>::empty(), "family"@) == 0,
{
    let e = Seq::<OfferView>::empty();
    reveal(Seq::filter);
    assert(spec_filtered(e, q) =~= e);
    assert(spec_window(e, q.page, q.page_size) =~= e);
    lemma_hist_buckets_empty(crate::facets::prices_of(e), q.price_range_width, crate::facets::bucket_limit(q.price_range_width));
    lemma_hist_buckets_empty(crate::facets::free_kms_of(e), q.min_free_kilometer_width, crate::facets::bucket_limit(q.min_free_kilometer_width));
    assert(price_ranges_spec(e, q.price_range_width) =~= Seq::<crate::models::PriceRange>::empty());
    assert(free_km_ranges_spec(e, q.min_free_kilometer_width) =~= Seq::<
        crate::models::FreeKilometerRange,
    >::empty());
    lemma_seats_entries_empty(e, 256);
}

/// A query that every stored offer satisfies — trivial, unfiltered criteria —
/// filters nothing out: the filtered set is the whole dataset, and its
/// ordering holds exactly as many offers as were stored.
pub proof fn lemma_search_returns_all_matching(s: Seq<OfferView>, q: QueryView)
    requires
        forall|i: int| 0 <= i < s.len() ==> spec_matches(#[trigger] s[i], q),
    ensures
        spec_filtered(s, q) == s,
        spec_sorted(q.sort_order, spec_filtered(s, q)).len() == s.len(),
    decreases s.len(),
{
    reveal(Seq::filter);
    if s.len() == 0 {
        assert(spec_filtered(s, q) =~= s);
    } else {
        let rest = s.drop_last();
        assert(forall|i: int| 0 <= i < rest.len() ==> rest[i] == s[i]);
        lemma_search_returns_all_matching(rest, q);
        assert(spec_filtered(rest, q) == rest);
        assert(spec_filtered(s, q) =~= s);
    }
    crate::sort::lemma_spec_sorted_ensures(q.sort_order, spec_filtered(s, q));
}

} // verus!

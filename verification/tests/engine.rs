use offer_search::models::Offer;
use offer_search::query::{Query, SortOrder};
use offer_search::search::{cleanup_data, create_offers, search_snapshot, IngestError};
use offer_search::store::OfferStore;

fn mk_offer(
    id: u128,
    region: i32,
    start: i64,
    end: i64,
    seats: u8,
    price: u16,
    car: &str,
    vollkasko: bool,
    km: u16,
) -> Offer {
    Offer {
        id,
        data: vec![id as u8],
        most_specific_region_id: region,
        start_date: start,
        end_date: end,
        number_seats: seats,
        price,
        car_type: car.to_owned(),
        has_vollkasko: vollkasko,
        free_kilometers: km,
    }
}

fn mk_query(sort: SortOrder, page: u32, page_size: u32) -> Query {
    Query {
        region_id: 1,
        time_range_start: 0,
        time_range_end: 1000,
        number_days: 1,
        sort_order: sort,
        page,
        page_size,
        price_range_width: 100,
        min_free_kilometer_width: 50,
        min_number_seats: None,
        min_price: None,
        max_price: None,
        car_type: None,
        only_vollkasko: None,
        min_free_kilometer: None,
    }
}

fn base_offer() -> Offer {
    mk_offer(1, 1, 100, 200, 4, 150, "small", true, 120)
}

#[test]
fn matches_requires_region_equality() {
    let q = mk_query(SortOrder::PriceAsc, 1, 10);
    assert!(offer_search::filter::matches(&base_offer(), &q));
    let other_region = mk_offer(1, 2, 100, 200, 4, 150, "small", true, 120);
    assert!(!offer_search::filter::matches(&other_region, &q));
}

#[test]
fn matches_temporal_overlap_is_inclusive() {
    let mut q = mk_query(SortOrder::PriceAsc, 1, 10);
    // window ends exactly at the offer's start: still overlaps
    q.time_range_start = 0;
    q.time_range_end = 100;
    assert!(offer_search::filter::matches(&base_offer(), &q));
    // window starts exactly at the offer's end: still overlaps
    q.time_range_start = 200;
    q.time_range_end = 300;
    assert!(offer_search::filter::matches(&base_offer(), &q));
    // window entirely before the offer
    q.time_range_start = 0;
    q.time_range_end = 99;
    assert!(!offer_search::filter::matches(&base_offer(), &q));
    // window entirely after the offer
    q.time_range_start = 201;
    q.time_range_end = 300;
    assert!(!offer_search::filter::matches(&base_offer(), &q));
}

#[test]
fn matches_max_price_is_strictly_exclusive() {
    let mut q = mk_query(SortOrder::PriceAsc, 1, 10);
    q.max_price = Some(150);
    assert!(!offer_search::filter::matches(&base_offer(), &q));
    q.max_price = Some(151);
    assert!(offer_search::filter::matches(&base_offer(), &q));
}

#[test]
fn matches_min_price_is_inclusive() {
    let mut q = mk_query(SortOrder::PriceAsc, 1, 10);
    q.min_price = Some(150);
    assert!(offer_search::filter::matches(&base_offer(), &q));
    q.min_price = Some(151);
    assert!(!offer_search::filter::matches(&base_offer(), &q));
}

#[test]
fn matches_refinements() {
    let mut q = mk_query(SortOrder::PriceAsc, 1, 10);
    q.min_number_seats = Some(5);
    assert!(!offer_search::filter::matches(&base_offer(), &q));
    q.min_number_seats = Some(4);
    assert!(offer_search::filter::matches(&base_offer(), &q));
    q.car_type = Some("sports".to_owned());
    assert!(!offer_search::filter::matches(&base_offer(), &q));
    q.car_type = Some("small".to_owned());
    assert!(offer_search::filter::matches(&base_offer(), &q));
    q.only_vollkasko = Some(false);
    assert!(!offer_search::filter::matches(&base_offer(), &q));
    q.only_vollkasko = Some(true);
    assert!(offer_search::filter::matches(&base_offer(), &q));
    q.min_free_kilometer = Some(121);
    assert!(!offer_search::filter::matches(&base_offer(), &q));
    q.min_free_kilometer = Some(120);
    assert!(offer_search::filter::matches(&base_offer(), &q));
}

#[test]
fn price_histogram_two_offers() {
    let snapshot = vec![
        mk_offer(1, 1, 100, 200, 4, 100, "small", false, 0),
        mk_offer(2, 1, 100, 200, 4, 250, "small", false, 0),
    ];
    let q = mk_query(SortOrder::PriceAsc, 1, 10);
    let r = search_snapshot(&snapshot, &q);
    assert_eq!(r.price_ranges.len(), 2);
    assert_eq!(r.price_ranges[0].start, 100);
    assert_eq!(r.price_ranges[0].end, 200);
    assert_eq!(r.price_ranges[0].count, 1);
    assert_eq!(r.price_ranges[1].start, 200);
    assert_eq!(r.price_ranges[1].end, 300);
    assert_eq!(r.price_ranges[1].count, 1);
}

#[test]
fn unknown_car_type_excluded_from_counts_but_returned() {
    let snapshot = vec![mk_offer(7, 1, 100, 200, 4, 150, "suv", false, 0)];
    let q = mk_query(SortOrder::PriceAsc, 1, 10);
    let r = search_snapshot(&snapshot, &q);
    assert_eq!(r.car_type_counts.small, 0);
    assert_eq!(r.car_type_counts.sports, 0);
    assert_eq!(r.car_type_counts.luxury, 0);
    assert_eq!(r.car_type_counts.family, 0);
    assert_eq!(r.offers.len(), 1);
    assert_eq!(r.offers[0].id, 7);
}

#[test]
fn car_type_counts_sum_over_fixed_set() {
    let snapshot = vec![
        mk_offer(1, 1, 100, 200, 4, 10, "small", false, 0),
        mk_offer(2, 1, 100, 200, 4, 20, "sports", false, 0),
        mk_offer(3, 1, 100, 200, 4, 30, "sports", false, 0),
        mk_offer(4, 1, 100, 200, 4, 40, "luxury", false, 0),
        mk_offer(5, 1, 100, 200, 4, 50, "family", false, 0),
        mk_offer(6, 1, 100, 200, 4, 60, "van", false, 0),
    ];
    let q = mk_query(SortOrder::PriceAsc, 1, 10);
    let r = search_snapshot(&snapshot, &q);
    assert_eq!(r.car_type_counts.small, 1);
    assert_eq!(r.car_type_counts.sports, 2);
    assert_eq!(r.car_type_counts.luxury, 1);
    assert_eq!(r.car_type_counts.family, 1);
    let sum = r.car_type_counts.small
        + r.car_type_counts.sports
        + r.car_type_counts.luxury
        + r.car_type_counts.family;
    assert_eq!(sum, 5);
}

#[test]
fn page_beyond_end_is_empty() {
    let snapshot = vec![
        mk_offer(1, 1, 100, 200, 4, 100, "small", false, 0),
        mk_offer(2, 1, 100, 200, 4, 250, "small", false, 0),
    ];
    let q = mk_query(SortOrder::PriceAsc, 5, 10);
    let r = search_snapshot(&snapshot, &q);
    assert_eq!(r.offers.len(), 0);
    // aggregates still cover the whole filtered set
    assert_eq!(r.vollkasko_count.false_count, 2);
}

#[test]
fn partial_last_page_is_returned() {
    let snapshot = vec![
        mk_offer(1, 1, 100, 200, 4, 10, "small", false, 0),
        mk_offer(2, 1, 100, 200, 4, 20, "small", false, 0),
        mk_offer(3, 1, 100, 200, 4, 30, "small", false, 0),
    ];
    let q = mk_query(SortOrder::PriceAsc, 2, 2);
    let r = search_snapshot(&snapshot, &q);
    assert_eq!(r.offers.len(), 1);
    assert_eq!(r.offers[0].id, 3);
}

#[test]
fn sort_ascending_descending_with_id_ties() {
    let snapshot = vec![
        mk_offer(3, 1, 100, 200, 4, 50, "small", false, 0),
        mk_offer(1, 1, 100, 200, 4, 80, "small", false, 0),
        mk_offer(2, 1, 100, 200, 4, 50, "small", false, 0),
    ];
    let asc = search_snapshot(&snapshot, &mk_query(SortOrder::PriceAsc, 1, 10));
    let asc_ids: Vec<u128> = asc.offers.iter().map(|o| o.id).collect();
    assert_eq!(asc_ids, vec![2, 3, 1]);
    let desc = search_snapshot(&snapshot, &mk_query(SortOrder::PriceDesc, 1, 10));
    let desc_ids: Vec<u128> = desc.offers.iter().map(|o| o.id).collect();
    assert_eq!(desc_ids, vec![1, 2, 3]);
}

#[test]
fn seats_distribution_ascending_distinct() {
    let snapshot = vec![
        mk_offer(1, 1, 100, 200, 7, 10, "small", false, 0),
        mk_offer(2, 1, 100, 200, 2, 20, "small", false, 0),
        mk_offer(3, 1, 100, 200, 7, 30, "small", false, 0),
    ];
    let r = search_snapshot(&snapshot, &mk_query(SortOrder::PriceAsc, 1, 10));
    assert_eq!(r.seats_count.len(), 2);
    assert_eq!(r.seats_count[0].number_seats, 2);
    assert_eq!(r.seats_count[0].count, 1);
    assert_eq!(r.seats_count[1].number_seats, 7);
    assert_eq!(r.seats_count[1].count, 2);
}

#[test]
fn free_kilometer_histogram() {
    let snapshot = vec![
        mk_offer(1, 1, 100, 200, 4, 10, "small", false, 30),
        mk_offer(2, 1, 100, 200, 4, 20, "small", false, 75),
        mk_offer(3, 1, 100, 200, 4, 30, "small", false, 60),
    ];
    let r = search_snapshot(&snapshot, &mk_query(SortOrder::PriceAsc, 1, 10));
    // width 50: bucket [0,50) holds one value, bucket [50,100) holds two
    assert_eq!(r.free_kilometer_range.len(), 2);
    assert_eq!(r.free_kilometer_range[0].start, 0);
    assert_eq!(r.free_kilometer_range[0].end, 50);
    assert_eq!(r.free_kilometer_range[0].count, 1);
    assert_eq!(r.free_kilometer_range[1].start, 50);
    assert_eq!(r.free_kilometer_range[1].end, 100);
    assert_eq!(r.free_kilometer_range[1].count, 2);
}

#[test]
fn vollkasko_counts() {
    let snapshot = vec![
        mk_offer(1, 1, 100, 200, 4, 10, "small", true, 0),
        mk_offer(2, 1, 100, 200, 4, 20, "small", false, 0),
        mk_offer(3, 1, 100, 200, 4, 30, "small", true, 0),
    ];
    let r = search_snapshot(&snapshot, &mk_query(SortOrder::PriceAsc, 1, 10));
    assert_eq!(r.vollkasko_count.true_count, 2);
    assert_eq!(r.vollkasko_count.false_count, 1);
}

#[test]
fn ingest_then_search_returns_all() {
    let mut store = OfferStore::new();
    let batch = vec![
        mk_offer(1, 1, 100, 200, 4, 10, "small", false, 0),
        mk_offer(2, 1, 100, 200, 4, 20, "small", false, 0),
        mk_offer(3, 1, 100, 200, 4, 30, "small", false, 0),
    ];
    assert!(create_offers(&mut store, batch).is_ok());
    assert_eq!(store.len(), 3);
    let r = search_snapshot(&store.snapshot(), &mk_query(SortOrder::PriceAsc, 1, 10));
    assert_eq!(r.offers.len(), 3);
}

#[test]
fn wipe_then_search_is_empty() {
    let mut store = OfferStore::new();
    let batch = vec![mk_offer(1, 1, 100, 200, 4, 10, "small", true, 30)];
    assert!(create_offers(&mut store, batch).is_ok());
    cleanup_data(&mut store);
    assert_eq!(store.len(), 0);
    let r = search_snapshot(&store.snapshot(), &mk_query(SortOrder::PriceAsc, 1, 10));
    assert_eq!(r.offers.len(), 0);
    assert_eq!(r.price_ranges.len(), 0);
    assert_eq!(r.seats_count.len(), 0);
    assert_eq!(r.free_kilometer_range.len(), 0);
    assert_eq!(r.car_type_counts.small, 0);
    assert_eq!(r.car_type_counts.sports, 0);
    assert_eq!(r.car_type_counts.luxury, 0);
    assert_eq!(r.car_type_counts.family, 0);
    assert_eq!(r.vollkasko_count.true_count, 0);
    assert_eq!(r.vollkasko_count.false_count, 0);
}

#[test]
fn empty_batch_is_rejected_without_effect() {
    let mut store = OfferStore::new();
    let r = create_offers(&mut store, Vec::new());
    assert_eq!(r, Err(IngestError::EmptyBatch));
    assert_eq!(store.len(), 0);
}

#[test]
fn reinsert_updates_price_without_duplicate() {
    let mut store = OfferStore::new();
    assert!(create_offers(&mut store, vec![mk_offer(9, 1, 100, 200, 4, 100, "small", false, 0)])
        .is_ok());
    assert!(create_offers(&mut store, vec![mk_offer(9, 1, 100, 200, 4, 250, "small", false, 0)])
        .is_ok());
    assert_eq!(store.len(), 1);
    let r = search_snapshot(&store.snapshot(), &mk_query(SortOrder::PriceAsc, 1, 10));
    assert_eq!(r.offers.len(), 1);
    assert_eq!(r.offers[0].id, 9);
    // the stored price changed: the new price falls in bucket [200, 300)
    assert_eq!(r.price_ranges.len(), 1);
    assert_eq!(r.price_ranges[0].start, 200);
    assert_eq!(r.price_ranges[0].end, 300);
    assert_eq!(r.price_ranges[0].count, 1);
}

#[test]
fn ordering_is_independent_of_snapshot_order() {
    let a = vec![
        mk_offer(1, 1, 100, 200, 4, 30, "small", false, 0),
        mk_offer(2, 1, 100, 200, 4, 10, "small", false, 0),
        mk_offer(3, 1, 100, 200, 4, 20, "small", false, 0),
    ];
    let b = vec![a[2].duplicate(), a[0].duplicate(), a[1].duplicate()];
    let q = mk_query(SortOrder::PriceAsc, 1, 10);
    let ra = search_snapshot(&a, &q);
    let rb = search_snapshot(&b, &q);
    let ids_a: Vec<u128> = ra.offers.iter().map(|o| o.id).collect();
    let ids_b: Vec<u128> = rb.offers.iter().map(|o| o.id).collect();
    assert_eq!(ids_a, vec![2, 3, 1]);
    assert_eq!(ids_a, ids_b);
}

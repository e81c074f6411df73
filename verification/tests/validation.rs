use offer_search::query::{build_query, parse_sort_order, QueryError, SortOrder};
use offer_search::store::OfferStore;
use offer_search::search::get_offers;
use offer_search::wire::{payload_from_wire, payload_to_wire};

fn full_args() -> (
    Option<i32>,
    Option<i64>,
    Option<i64>,
    Option<i32>,
    Option<String>,
    Option<u32>,
    Option<u32>,
    Option<u32>,
    Option<u32>,
) {
    (
        Some(1),
        Some(0),
        Some(1000),
        Some(3),
        Some("price-asc".to_owned()),
        Some(1),
        Some(10),
        Some(100),
        Some(50),
    )
}

fn build(
    args: (
        Option<i32>,
        Option<i64>,
        Option<i64>,
        Option<i32>,
        Option<String>,
        Option<u32>,
        Option<u32>,
        Option<u32>,
        Option<u32>,
    ),
) -> Result<offer_search::query::Query, QueryError> {
    build_query(
        args.0, args.1, args.2, args.3, args.4, args.5, args.6, args.7, args.8, None, None, None,
        None, None, None,
    )
}

#[test]
fn parse_sort_order_accepts_only_known_orders() {
    assert_eq!(parse_sort_order(&"price-asc".to_owned()), Some(SortOrder::PriceAsc));
    assert_eq!(parse_sort_order(&"price-desc".to_owned()), Some(SortOrder::PriceDesc));
    assert_eq!(parse_sort_order(&"price".to_owned()), None);
    assert_eq!(parse_sort_order(&"".to_owned()), None);
    assert_eq!(parse_sort_order(&"PRICE-ASC".to_owned()), None);
}

#[test]
fn build_query_accepts_complete_arguments() {
    let q = build(full_args()).unwrap();
    assert_eq!(q.region_id, 1);
    assert_eq!(q.page, 1);
    assert_eq!(q.page_size, 10);
    assert_eq!(q.sort_order, SortOrder::PriceAsc);
}

#[test]
fn build_query_reports_each_missing_field() {
    let mut a = full_args();
    a.0 = None;
    assert_eq!(build(a).unwrap_err(), QueryError::MissingRegionId);
    let mut a = full_args();
    a.1 = None;
    assert_eq!(build(a).unwrap_err(), QueryError::MissingTimeRangeStart);
    let mut a = full_args();
    a.2 = None;
    assert_eq!(build(a).unwrap_err(), QueryError::MissingTimeRangeEnd);
    let mut a = full_args();
    a.3 = None;
    assert_eq!(build(a).unwrap_err(), QueryError::MissingNumberDays);
    let mut a = full_args();
    a.4 = None;
    assert_eq!(build(a).unwrap_err(), QueryError::MissingSortOrder);
    let mut a = full_args();
    a.5 = None;
    assert_eq!(build(a).unwrap_err(), QueryError::MissingPage);
    let mut a = full_args();
    a.6 = None;
    assert_eq!(build(a).unwrap_err(), QueryError::MissingPageSize);
    let mut a = full_args();
    a.7 = None;
    assert_eq!(build(a).unwrap_err(), QueryError::MissingPriceRangeWidth);
    let mut a = full_args();
    a.8 = None;
    assert_eq!(build(a).unwrap_err(), QueryError::MissingMinFreeKilometerWidth);
}

#[test]
fn build_query_rejects_invalid_values() {
    let mut a = full_args();
    a.4 = Some("cheapest-first".to_owned());
    assert_eq!(build(a).unwrap_err(), QueryError::InvalidSortOrder);
    let mut a = full_args();
    a.5 = Some(0);
    assert_eq!(build(a).unwrap_err(), QueryError::InvalidPage);
    let mut a = full_args();
    a.6 = Some(0);
    assert_eq!(build(a).unwrap_err(), QueryError::InvalidPageSize);
    let mut a = full_args();
    a.7 = Some(0);
    assert_eq!(build(a).unwrap_err(), QueryError::InvalidPriceRangeWidth);
    let mut a = full_args();
    a.8 = Some(0);
    assert_eq!(build(a).unwrap_err(), QueryError::InvalidMinFreeKilometerWidth);
}

#[test]
fn get_offers_validates_before_searching() {
    let store = OfferStore::new();
    let r = get_offers(
        &store, None, Some(0), Some(1000), Some(3), Some("price-asc".to_owned()), Some(1),
        Some(10), Some(100), Some(50), None, None, None, None, None, None,
    );
    assert_eq!(r.unwrap_err(), QueryError::MissingRegionId);
    let r = get_offers(
        &store, Some(1), Some(0), Some(1000), Some(3), Some("price-asc".to_owned()), Some(1),
        Some(10), Some(100), Some(50), None, None, None, None, None, None,
    );
    let res = r.unwrap();
    assert_eq!(res.offers.len(), 0);
}

#[test]
fn payload_round_trips_through_the_wire() {
    let data: Vec<u8> = vec![0, 1, 2, 254, 255, 42];
    let encoded = payload_to_wire(&data);
    assert_eq!(encoded, "AAEC/v8q");
    let decoded = payload_from_wire(&encoded).unwrap();
    assert_eq!(decoded, data);
}

#[test]
fn empty_payload_encodes_to_empty_string() {
    let data: Vec<u8> = Vec::new();
    let encoded = payload_to_wire(&data);
    assert_eq!(encoded, "");
    assert_eq!(payload_from_wire(&encoded).unwrap(), data);
}

#[test]
fn malformed_base64_is_rejected() {
    assert!(payload_from_wire("!!!").is_none());
    assert!(payload_from_wire("AAAAA").is_none());
}

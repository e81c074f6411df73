//! Search queries: the required scalar filter set, the optional refinement
//! set, and validation of raw request values into a well-formed query.

use vstd::prelude::*;

verus! {

/// The deterministic result ordering a query asks for: ascending or
/// descending by price, ties always broken by ascending identifier.
#[derive(Clone, Copy, PartialEq, Eq, Structural, Debug)]
pub enum SortOrder {
    PriceAsc,
    PriceDesc,
}

/// A validated search query. Offers are matched against the required scalar
/// filters and every present optional refinement; absent refinements match
/// everything on their dimension.
#[derive(Debug)]
pub struct Query {
    pub region_id: i32,
    pub time_range_start: i64,
    pub time_range_end: i64,
    pub number_days: i32,
    pub sort_order: SortOrder,
    pub page: u32,
    pub page_size: u32,
    pub price_range_width: u32,
    pub min_free_kilometer_width: u32,
    pub min_number_seats: Option<u8>,
    pub min_price: Option<u16>,
    pub max_price: Option<u16>,
    pub car_type: Option<String>,
    pub only_vollkasko: Option<bool>,
    pub min_free_kilometer: Option<u16>,
}

/// The mathematical value of a [`Query`].
pub ghost struct QueryView {
    pub region_id: i32,
    pub time_range_start: i64,
    pub time_range_end: i64,
    pub number_days: i32,
    pub sort_order: SortOrder,
    pub page: u32,
    pub page_size: u32,
    pub price_range_width: u32,
    pub min_free_kilometer_width: u32,
    pub min_number_seats: Option<u8>,
    pub min_price: Option<u16>,
    pub max_price: Option<u16>,
    pub car_type: Option<Seq<char>>,
    pub only_vollkasko: Option<bool>,
    pub min_free_kilometer: Option<u16>,
}

impl View for Query {
    type V = QueryView;

    open spec fn view(&self) -> QueryView {
        QueryView {
            region_id: self.region_id,
            time_range_start: self.time_range_start,
            time_range_end: self.time_range_end,
            number_days: self.number_days,
            sort_order: self.sort_order,
            page: self.page,
            page_size: self.page_size,
            price_range_width: self.price_range_width,
            min_free_kilometer_width: self.min_free_kilometer_width,
            min_number_seats: self.min_number_seats,
            min_price: self.min_price,
            max_price: self.max_price,
            car_type: match self.car_type {
                Some(ref ct) => Some(ct@),
                None => None,
            },
            only_vollkasko: self.only_vollkasko,
            min_free_kilometer: self.min_free_kilometer,
        }
    }
}

/// A query is well formed when its page coordinates and bucket widths are
/// positive, as validation guarantees.
pub open spec fn query_well_formed(q: QueryView) -> bool {
    &&& q.page >= 1
    &&& q.page_size >= 1
    &&& q.price_range_width > 0
    &&& q.min_free_kilometer_width > 0
}

/// Why a raw request could not be turned into a [`Query`].
#[derive(Clone, Copy, PartialEq, Eq, Structural, Debug)]
pub enum QueryError {
    MissingRegionId,
    MissingTimeRangeStart,
    MissingTimeRangeEnd,
    MissingNumberDays,
    MissingSortOrder,
    MissingPage,
    MissingPageSize,
    MissingPriceRangeWidth,
    MissingMinFreeKilometerWidth,
    InvalidSortOrder,
    InvalidPage,
    InvalidPageSize,
    InvalidPriceRangeWidth,
    InvalidMinFreeKilometerWidth,
}

/// The characters of the sort order naming ascending prices.
pub open spec fn price_asc_chars() -> Seq<char> {
    "price-asc"@
}

/// The characters of the sort order naming descending prices.
pub open spec fn price_desc_chars() -> Seq<char> {
    "price-desc"@
}

/// The sort order a raw string denotes, if any.
pub open spec fn spec_sort_order_of(s: Seq<char>) -> Option<SortOrder> {
    if s == price_asc_chars() {
        Some(SortOrder::PriceAsc)
    } else if s == price_desc_chars() {
        Some(SortOrder::PriceDesc)
    } else {
        None
    }
}

/// Parses a raw sort-order string; every string other than the two known
/// orders is rejected.
pub fn parse_sort_order(s: &String) -> (r: Option<SortOrder>)
    ensures
        r == spec_sort_order_of(s@),
{
    let asc: String = "price-asc".to_owned();
    let desc: String = "price-desc".to_owned();
    if *s == asc {
        Some(SortOrder::PriceAsc)
    } else if *s == desc {
        Some(SortOrder::PriceDesc)
    } else {
        None
    }
}

/// The query (or the error) that validation owes for the given raw values.
///
/// Required values arrive as `None` when the request did not carry them;
/// missing values are reported field by field in a fixed precedence, then the
/// sort order must be a known one and the page coordinates and bucket widths
/// must be positive. Optional refinements are passed through unchanged.
pub open spec fn build_query_spec(
    region_id: Option<i32>,
    time_range_start: Option<i64>,
    time_range_end: Option<i64>,
    number_days: Option<i32>,
    sort_order: Option<Seq<char>>,
    page: Option<u32>,
    page_size: Option<u32>,
    price_range_width: Option<u32>,
    min_free_kilometer_width: Option<u32>,
    min_number_seats: Option<u8>,
    min_price: Option<u16>,
    max_price: Option<u16>,
    car_type: Option<Seq<char>>,
    only_vollkasko: Option<bool>,
    min_free_kilometer: Option<u16>,
) -> Result<QueryView, QueryError> {
    if region_id is None {
        Err(QueryError::MissingRegionId)
    } else if time_range_start is None {
        Err(QueryError::MissingTimeRangeStart)
    } else if time_range_end is None {
        Err(QueryError::MissingTimeRangeEnd)
    } else if number_days is None {
        Err(QueryError::MissingNumberDays)
    } else if sort_order is None {
        Err(QueryError::MissingSortOrder)
    } else if page is None {
        Err(QueryError::MissingPage)
    } else if page_size is None {
        Err(QueryError::MissingPageSize)
    } else if price_range_width is None {
        Err(QueryError::MissingPriceRangeWidth)
    } else if min_free_kilometer_width is None {
        Err(QueryError::MissingMinFreeKilometerWidth)
    } else if spec_sort_order_of(sort_order->0) is None {
        Err(QueryError::InvalidSortOrder)
    } else if page->0 < 1 {
        Err(QueryError::InvalidPage)
    } else if page_size->0 < 1 {
        Err(QueryError::InvalidPageSize)
    } else if price_range_width->0 < 1 {
        Err(QueryError::InvalidPriceRangeWidth)
    } else if min_free_kilometer_width->0 < 1 {
        Err(QueryError::InvalidMinFreeKilometerWidth)
    } else {
        Ok(QueryView {
            region_id: region_id->0,
            time_range_start: time_range_start->0,
            time_range_end: time_range_end->0,
            number_days: number_days->0,
            sort_order: spec_sort_order_of(sort_order->0)->0,
            page: page->0,
            page_size: page_size->0,
            price_range_width: price_range_width->0,
            min_free_kilometer_width: min_free_kilometer_width->0,
            min_number_seats,
            min_price,
            max_price,
            car_type,
            only_vollkasko,
            min_free_kilometer,
        })
    }
}

/// Builds a validated [`Query`] from raw request values, rejecting a request
/// with a missing required field, an unknown sort order, or a non-positive
/// page coordinate or bucket width — exactly as [`build_query_spec`] says.
pub fn build_query(
    region_id: Option<i32>,
    time_range_start: Option<i64>,
    time_range_end: Option<i64>,
    number_days: Option<i32>,
    sort_order: Option<String>,
    page: Option<u32>,
    page_size: Option<u32>,
    price_range_width: Option<u32>,
    min_free_kilometer_width: Option<u32>,
    min_number_seats: Option<u8>,
    min_price: Option<u16>,
    max_price: Option<u16>,
    car_type: Option<String>,
    only_vollkasko: Option<bool>,
    min_free_kilometer: Option<u16>,
) -> (r: Result<Query, QueryError>)
    ensures
        ({
            let expected = build_query_spec(
                region_id,
                time_range_start,
                time_range_end,
                number_days,
                match sort_order {
                    Some(s) => Some(s@),
                    None => None,
                },
                page,
                page_size,
                price_range_width,
                min_free_kilometer_width,
                min_number_seats,
                min_price,
                max_price,
                match car_type {
                    Some(ct) => Some(ct@),
                    None => None,
                },
                only_vollkasko,
                min_free_kilometer,
            );
            match r {
                Ok(q) => expected is Ok && q@ == expected->Ok_0 && query_well_formed(q@),
                Err(e) => expected is Err && e == expected->Err_0,
            }
        }),
{
    let region_id = match region_id {
        Some(v) => v,
        None => { return Err(QueryError::MissingRegionId); },
    };
    let time_range_start = match time_range_start {
        Some(v) => v,
        None => { return Err(QueryError::MissingTimeRangeStart); },
    };
    let time_range_end = match time_range_end {
        Some(v) => v,
        None => { return Err(QueryError::MissingTimeRangeEnd); },
    };
    let number_days = match number_days {
        Some(v) => v,
        None => { return Err(QueryError::MissingNumberDays); },
    };
    let sort_order = match sort_order {
        Some(v) => v,
        None => { return Err(QueryError::MissingSortOrder); },
    };
    let page = match page {
        Some(v) => v,
        None => { return Err(QueryError::MissingPage); },
    };
    let page_size = match page_size {
        Some(v) => v,
        None => { return Err(QueryError::MissingPageSize); },
    };
    let price_range_width = match price_range_width {
        Some(v) => v,
        None => { return Err(QueryError::MissingPriceRangeWidth); },
    };
    let min_free_kilometer_width = match min_free_kilometer_width {
        Some(v) => v,
        None => { return Err(QueryError::MissingMinFreeKilometerWidth); },
    };
    let sort_order = match parse_sort_order(&sort_order) {
        Some(v) => v,
        None => { return Err(QueryError::InvalidSortOrder); },
    };
    if page < 1 {
        return Err(QueryError::InvalidPage);
    }
    if page_size < 1 {
        return Err(QueryError::InvalidPageSize);
    }
    if price_range_width < 1 {
        return Err(QueryError::InvalidPriceRangeWidth);
    }
    if min_free_kilometer_width < 1 {
        return Err(QueryError::InvalidMinFreeKilometerWidth);
    }
    Ok(Query {
        region_id,
        time_range_start,
        time_range_end,
        number_days,
        sort_order,
        page,
        page_size,
        price_range_width,
        min_free_kilometer_width,
        min_number_seats,
        min_price,
        max_price,
        car_type,
        only_vollkasko,
        min_free_kilometer,
    })
}

} // verus!

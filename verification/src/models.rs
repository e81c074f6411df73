//! Data model: offers as stored and filtered, result rows, and the aggregate
//! views returned alongside a page of results.

use vstd::prelude::*;

verus! {

/// One rentable offer: the unit of storage and filtering.
///
/// The identifier is a 128-bit value assigned by the producer; it doubles as
/// the store key. The payload `data` is carried verbatim through filtering
/// and search and never interpreted by the engine.
pub struct Offer {
    pub id: u128,
    pub data: Vec<u8>,
    pub most_specific_region_id: i32,
    pub start_date: i64,
    pub end_date: i64,
    pub number_seats: u8,
    pub price: u16,
    pub car_type: String,
    pub has_vollkasko: bool,
    pub free_kilometers: u16,
}

/// The mathematical value of an [`Offer`]: every field as a plain value.
pub ghost struct OfferView {
    pub id: u128,
    pub data: Seq<u8>,
    pub most_specific_region_id: i32,
    pub start_date: i64,
    pub end_date: i64,
    pub number_seats: u8,
    pub price: u16,
    pub car_type: Seq<char>,
    pub has_vollkasko: bool,
    pub free_kilometers: u16,
}

impl View for Offer {
    type V = OfferView;

    open spec fn view(&self) -> OfferView {
        OfferView {
            id: self.id,
            data: self.data@,
            most_specific_region_id: self.most_specific_region_id,
            start_date: self.start_date,
            end_date: self.end_date,
            number_seats: self.number_seats,
            price: self.price,
            car_type: self.car_type@,
            has_vollkasko: self.has_vollkasko,
            free_kilometers: self.free_kilometers,
        }
    }
}

/// The sequence of offer views of a sequence of offers.
pub open spec fn views_of(s: Seq<Offer>) -> Seq<OfferView> {
    s.map_values(|o: Offer| o@)
}

impl Offer {
    /// An exact copy of the offer, field by field.
    pub fn duplicate(&self) -> (r: Offer)
        ensures
            r@ == self@,
    {
        Offer {
            id: self.id,
            data: copy_bytes(&self.data),
            most_specific_region_id: self.most_specific_region_id,
            start_date: self.start_date,
            end_date: self.end_date,
            number_seats: self.number_seats,
            price: self.price,
            car_type: self.car_type.clone(),
            has_vollkasko: self.has_vollkasko,
            free_kilometers: self.free_kilometers,
        }
    }
}

/// A byte-for-byte copy of a byte vector.
pub fn copy_bytes(b: &Vec<u8>) -> (r: Vec<u8>)
    ensures
        r@ == b@,
{
    let mut out: Vec<u8> = Vec::new();
    let mut i: usize = 0;
    while i < b.len()
        invariant
            i <= b.len(),
            out@ == b@.take(i as int),
        decreases b.len() - i,
    {
        out.push(b[i]);
        i = i + 1;
        proof {
            assert(out@ =~= b@.take(i as int));
        }
    }
    proof {
        assert(b@.take(b.len() as int) =~= b@);
    }
    out
}

/// One row of the returned page: the offer's identifier and its payload.
#[derive(Debug)]
pub struct SearchResultOffer {
    pub id: u128,
    pub data: Vec<u8>,
}

/// The mathematical value of a [`SearchResultOffer`].
pub ghost struct SearchResultOfferView {
    pub id: u128,
    pub data: Seq<u8>,
}

impl View for SearchResultOffer {
    type V = SearchResultOfferView;

    open spec fn view(&self) -> SearchResultOfferView {
        SearchResultOfferView { id: self.id, data: self.data@ }
    }
}

/// The result row an offer contributes to the page.
pub open spec fn result_row_of(o: OfferView) -> SearchResultOfferView {
    SearchResultOfferView { id: o.id, data: o.data }
}

/// One non-empty price-histogram bucket: the half-open range
/// `[start, end)` and the number of filtered offers whose price lies in it.
#[derive(Debug)]
pub struct PriceRange {
    pub start: u32,
    pub end: u32,
    pub count: u32,
}

/// Counters for the four fixed car-type categories. Offers whose car type is
/// outside the fixed set are excluded from all four counters.
#[derive(Debug)]
pub struct CarTypeCount {
    pub small: u32,
    pub sports: u32,
    pub luxury: u32,
    pub family: u32,
}

/// Counts of filtered offers with and without full insurance.
#[derive(Debug)]
pub struct VollkaskoCount {
    pub true_count: u32,
    pub false_count: u32,
}

/// The number of filtered offers with exactly `number_seats` seats.
#[derive(Debug)]
pub struct SeatsCount {
    pub number_seats: u8,
    pub count: u32,
}

/// One non-empty free-kilometers-histogram bucket.
#[derive(Debug)]
pub struct FreeKilometerRange {
    pub start: u32,
    pub end: u32,
    pub count: u32,
}

/// The output of one search: the requested page of matching offers plus the
/// five aggregate views, all computed over the same filtered set.
#[derive(Debug)]
pub struct SearchResult {
    pub offers: Vec<SearchResultOffer>,
    pub price_ranges: Vec<PriceRange>,
    pub car_type_counts: CarTypeCount,
    pub seats_count: Vec<SeatsCount>,
    pub free_kilometer_range: Vec<FreeKilometerRange>,
    pub vollkasko_count: VollkaskoCount,
}

} // verus!

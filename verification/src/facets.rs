//! Facet aggregation: the five aggregate views computed over the filtered
//! offer set. Every facet is computed over the same fully filtered set,
//! uniformly for every request.

use vstd::prelude::*;
use vstd::arithmetic::div_mod::{lemma_div_is_ordered, lemma_fundamental_div_mod};
use vstd::arithmetic::mul::lemma_mul_inequality;
use crate::models::{Offer, OfferView, views_of, PriceRange, CarTypeCount, VollkaskoCount,
    SeatsCount, FreeKilometerRange};

verus! {

/// How many offers of `s` carry the insurance flag `v`.
pub open spec fn count_vk(s: Seq<OfferView>, v: bool) -> nat
    decreases s.len(),
{
    if s.len() == 0 {
        0
    } else {
        count_vk(s.drop_last(), v) + (if s.last().has_vollkasko == v {
            1nat
        } else {
            0nat
        })
    }
}

/// How many offers of `s` have exactly the car type `ct`.
pub open spec fn count_car(s: Seq<OfferView>, ct: Seq<char>) -> nat
    decreases s.len(),
{
    if s.len() == 0 {
        0
    } else {
        count_car(s.drop_last(), ct) + (if s.last().car_type == ct {
            1nat
        } else {
            0nat
        })
    }
}

/// Whether an offer's car type is one of the four fixed categories.
pub open spec fn is_fixed_car(o: OfferView) -> bool {
    ||| o.car_type == "small"@
    ||| o.car_type == "sports"@
    ||| o.car_type == "luxury"@
    ||| o.car_type == "family"@
}

/// How many offers of `s` have a car type in the fixed set.
pub open spec fn count_fixed_car(s: Seq<OfferView>) -> nat
    decreases s.len(),
{
    if s.len() == 0 {
        0
    } else {
        count_fixed_car(s.drop_last()) + (if is_fixed_car(s.last()) {
            1nat
        } else {
            0nat
        })
    }
}

/// How many offers of `s` have exactly `v` seats.
pub open spec fn count_seats(s: Seq<OfferView>, v: u8) -> nat
    decreases s.len(),
{
    if s.len() == 0 {
        0
    } else {
        count_seats(s.drop_last(), v) + (if s.last().number_seats == v {
            1nat
        } else {
            0nat
        })
    }
}

/// How many of the values `vs` fall into bucket `k` of width `w`, that is,
/// lie in `[k*w, (k+1)*w)`.
pub open spec fn count_bucket(vs: Seq<u16>, w: u32, k: int) -> nat
    decreases vs.len(),
{
    if vs.len() == 0 {
        0
    } else {
        count_bucket(vs.drop_last(), w, k) + (if vs.last() as int / w as int == k {
            1nat
        } else {
            0nat
        })
    }
}

/// The non-empty histogram buckets with index below `k`, ascending: for each
/// bucket index with at least one value, the triple of bucket start, bucket
/// end and count.
pub open spec fn hist_buckets(vs: Seq<u16>, w: u32, k: int) -> Seq<(u32, u32, u32)>
    decreases k,
{
    if k <= 0 {
        Seq::empty()
    } else if count_bucket(vs, w, k - 1) > 0 {
        hist_buckets(vs, w, k - 1) + seq![
            (
                (((k - 1) * w as int) as u32),
                ((k * w as int) as u32),
                (count_bucket(vs, w, k - 1) as u32),
            ),
        ]
    } else {
        hist_buckets(vs, w, k - 1)
    }
}

/// The number of bucket indices a histogram of width `w` over 16-bit values
/// must consider: every value's bucket index is below this.
pub open spec fn bucket_limit(w: u32) -> int {
    65535int / w as int + 1
}

/// The prices of a sequence of offers.
pub open spec fn prices_of(s: Seq<OfferView>) -> Seq<u16> {
    s.map_values(|o: OfferView| o.price)
}

/// The free-kilometer allowances of a sequence of offers.
pub open spec fn free_kms_of(s: Seq<OfferView>) -> Seq<u16> {
    s.map_values(|o: OfferView| o.free_kilometers)
}

/// The price histogram of a filtered set: buckets of width `w` starting at 0,
/// zero-count buckets omitted, ascending by start.
pub open spec fn price_ranges_spec(s: Seq<OfferView>, w: u32) -> Seq<PriceRange> {
    hist_buckets(prices_of(s), w, bucket_limit(w)).map_values(
        |b: (u32, u32, u32)| PriceRange { start: b.0, end: b.1, count: b.2 },
    )
}

/// The free-kilometers histogram of a filtered set, under the same bucketing
/// rule as the price histogram.
pub open spec fn free_km_ranges_spec(s: Seq<OfferView>, w: u32) -> Seq<FreeKilometerRange> {
    hist_buckets(free_kms_of(s), w, bucket_limit(w)).map_values(
        |b: (u32, u32, u32)| FreeKilometerRange { start: b.0, end: b.1, count: b.2 },
    )
}

/// The seat-count distribution entries for seat values below `v`, ascending,
/// one entry per seat value present in `s`.
pub open spec fn seats_entries(s: Seq<OfferView>, v: int) -> Seq<SeatsCount>
    decreases v,
{
    if v <= 0 {
        Seq::empty()
    } else if count_seats(s, (v - 1) as u8) > 0 {
        seats_entries(s, v - 1) + seq![
            SeatsCount {
                number_seats: (v - 1) as u8,
                count: count_seats(s, (v - 1) as u8) as u32,
            },
        ]
    } else {
        seats_entries(s, v - 1)
    }
}

/// A seat value never counts more offers than there are.
proof fn lemma_count_seats_le_len(s: Seq<OfferView>, v: u8)
    ensures
        count_seats(s, v) <= s.len(),
    decreases s.len(),
{
    if s.len() > 0 {
        lemma_count_seats_le_len(s.drop_last(), v);
    }
}

/// The shape of the seat distribution entries below `v`: one entry per seat
/// value present in the set, carrying exactly that value's count, ascending,
/// with no entry for an absent value and none missing.
proof fn lemma_seats_entries_shape_rec(s: Seq<OfferView>, v: int)
    requires
        s.len() <= 0xffff_ffff,
        0 <= v <= 256,
    ensures
        ({
            let e = seats_entries(s, v);
            &&& forall|i: int|
                0 <= i < e.len() ==> {
                    &&& (#[trigger] e[i]).number_seats < v
                    &&& e[i].count == count_seats(s, e[i].number_seats)
                    &&& e[i].count > 0
                }
            &&& forall|i: int, j: int|
                0 <= i < j < e.len() ==> (#[trigger] e[i]).number_seats < (
                #[trigger] e[j]).number_seats
            &&& forall|w: u8|
                w < v && count_seats(s, w) > 0 ==> exists|i: int|
                    0 <= i < e.len() && (#[trigger] e[i]).number_seats == w
        }),
    decreases v,
{
    if v > 0 {
        lemma_seats_entries_shape_rec(s, v - 1);
        let prev = seats_entries(s, v - 1);
        let e = seats_entries(s, v);
        lemma_count_seats_le_len(s, (v - 1) as u8);
        if count_seats(s, (v - 1) as u8) > 0 {
            assert(e.len() == prev.len() + 1);
            assert(e[e.len() - 1].number_seats == (v - 1) as u8);
            assert(forall|i: int| 0 <= i < prev.len() ==> e[i] == prev[i]);
        }
        assert forall|w: u8|
            w < v && count_seats(s, w) > 0 implies exists|i: int|
                0 <= i < e.len() && (#[trigger] e[i]).number_seats == w by {
            if w < v - 1 {
                let i = choose|i: int|
                    0 <= i < prev.len() && (#[trigger] prev[i]).number_seats == w;
                assert(e[i].number_seats == w);
            } else {
                assert(e[e.len() - 1].number_seats == w);
            }
        }
    }
}

/// The seat distribution has one entry per seat value present among the
/// offers, carrying exactly that value's count, ascending by seat value, with
/// no entry for any absent value.
pub proof fn lemma_seats_distribution_properties(s: Seq<OfferView>)
    requires
        s.len() <= 0xffff_ffff,
    ensures
        ({
            let e = seats_entries(s, 256);
            &&& forall|i: int|
                0 <= i < e.len() ==> {
                    &&& (#[trigger] e[i]).count == count_seats(s, e[i].number_seats)
                    &&& e[i].count > 0
                }
            &&& forall|i: int, j: int|
                0 <= i < j < e.len() ==> (#[trigger] e[i]).number_seats < (
                #[trigger] e[j]).number_seats
            &&& forall|w: u8|
                count_seats(s, w) > 0 ==> exists|i: int|
                    0 <= i < e.len() && (#[trigger] e[i]).number_seats == w
        }),
{
    lemma_seats_entries_shape_rec(s, 256);
}

/// Counts the offers with and without full insurance.
pub fn compute_vollkasko_count(offers: &Vec<Offer>) -> (r: VollkaskoCount)
    requires
        offers@.len() <= 0xffff_ffff,
    ensures
        r.true_count == count_vk(views_of(offers@), true),
        r.false_count == count_vk(views_of(offers@), false),
{
    let ghost s = views_of(offers@);
    let mut true_count: u32 = 0;
    let mut false_count: u32 = 0;
    let mut i: usize = 0;
    while i < offers.len()
        invariant
            i <= offers@.len(),
            offers@.len() <= 0xffff_ffff,
            s == views_of(offers@),
            true_count == count_vk(s.take(i as int), true),
            false_count == count_vk(s.take(i as int), false),
            true_count <= i,
            false_count <= i,
        decreases offers@.len() - i,
    {
        if offers[i].has_vollkasko {
            true_count = true_count + 1;
        } else {
            false_count = false_count + 1;
        }
        i = i + 1;
        proof {
            assert(s.take(i as int).drop_last() =~= s.take(i - 1));
            assert(s.take(i as int).last() == offers@[i - 1]@);
        }
    }
    proof {
        assert(s.take(s.len() as int) =~= s);
    }
    VollkaskoCount { true_count, false_count }
}

/// Every filtered offer carries the flag or does not: the two counters sum to
/// the size of the set.
pub proof fn lemma_vollkasko_partition(s: Seq<OfferView>)
    ensures
        count_vk(s, true) + count_vk(s, false) == s.len(),
    decreases s.len(),
{
    if s.len() > 0 {
        lemma_vollkasko_partition(s.drop_last());
    }
}

/// Counts the offers in each of the four fixed car-type categories; offers
/// with any other car type are counted by none of them.
pub fn compute_car_type_counts(offers: &Vec<Offer>) -> (r: CarTypeCount)
    requires
        offers@.len() <= 0xffff_ffff,
    ensures
        r.small == count_car(views_of(offers@), "small"@),
        r.sports == count_car(views_of(offers@), "sports"@),
        r.luxury == count_car(views_of(offers@), "luxury"@),
        r.family == count_car(views_of(offers@), "family"@),
{
    let ghost s = views_of(offers@);
    let small_name: String = "small".to_owned();
    let sports_name: String = "sports".to_owned();
    let luxury_name: String = "luxury".to_owned();
    let family_name: String = "family".to_owned();
    let mut small: u32 = 0;
    let mut sports: u32 = 0;
    let mut luxury: u32 = 0;
    let mut family: u32 = 0;
    let mut i: usize = 0;
    while i < offers.len()
        invariant
            i <= offers@.len(),
            offers@.len() <= 0xffff_ffff,
            s == views_of(offers@),
            small_name@ == "small"@,
            sports_name@ == "sports"@,
            luxury_name@ == "luxury"@,
            family_name@ == "family"@,
            small == count_car(s.take(i as int), "small"@),
            sports == count_car(s.take(i as int), "sports"@),
            luxury == count_car(s.take(i as int), "luxury"@),
            family == count_car(s.take(i as int), "family"@),
            small <= i,
            sports <= i,
            luxury <= i,
            family <= i,
        decreases offers@.len() - i,
    {
        if offers[i].car_type == small_name {
            small = small + 1;
        } else if offers[i].car_type == sports_name {
            sports = sports + 1;
        } else if offers[i].car_type == luxury_name {
            luxury = luxury + 1;
        } else if offers[i].car_type == family_name {
            family = family + 1;
        }
        i = i + 1;
        proof {
            lemma_car_names_distinct();
            assert(s.take(i as int).drop_last() =~= s.take(i - 1));
            assert(s.take(i as int).last() == offers@[i - 1]@);
        }
    }
    proof {
        assert(s.take(s.len() as int) =~= s);
    }
    CarTypeCount { small, sports, luxury, family }
}

/// The four fixed category names are pairwise distinct.
proof fn lemma_car_names_distinct()
    ensures
        "small"@ != "sports"@,
        "small"@ != "luxury"@,
        "small"@ != "family"@,
        "sports"@ != "luxury"@,
        "sports"@ != "family"@,
        "luxury"@ != "family"@,
{
    reveal_strlit("small");
    reveal_strlit("sports");
    reveal_strlit("luxury");
    reveal_strlit("family");
    assert("small"@.len() != "sports"@.len());
    assert("small"@.len() != "luxury"@.len());
    assert("small"@.len() != "family"@.len());
    assert("sports"@[0] != "luxury"@[0]);
    assert("sports"@[0] != "family"@[0]);
    assert("luxury"@[0] != "family"@[0]);
}

/// The four category counters sum to the number of offers whose car type is
/// one of the four fixed categories; offers with any other value are excluded
/// from the sum.
pub proof fn lemma_car_type_partition(s: Seq<OfferView>)
    ensures
        count_car(s, "small"@) + count_car(s, "sports"@) + count_car(s, "luxury"@) + count_car(
            s,
            "family"@,
        ) == count_fixed_car(s),
    decreases s.len(),
{
    lemma_car_names_distinct();
    if s.len() > 0 {
        lemma_car_type_partition(s.drop_last());
    }
}

/// Counts the offers with exactly `v` seats.
fn count_seats_exec(offers: &Vec<Offer>, v: u8) -> (c: u32)
    requires
        offers@.len() <= 0xffff_ffff,
    ensures
        c == count_seats(views_of(offers@), v),
{
    let ghost s = views_of(offers@);
    let mut c: u32 = 0;
    let mut i: usize = 0;
    while i < offers.len()
        invariant
            i <= offers@.len(),
            offers@.len() <= 0xffff_ffff,
            s == views_of(offers@),
            c == count_seats(s.take(i as int), v),
            c <= i,
        decreases offers@.len() - i,
    {
        if offers[i].number_seats == v {
            c = c + 1;
        }
        i = i + 1;
        proof {
            assert(s.take(i as int).drop_last() =~= s.take(i - 1));
            assert(s.take(i as int).last() == offers@[i - 1]@);
        }
    }
    proof {
        assert(s.take(s.len() as int) =~= s);
    }
    c
}

/// The seat-count distribution: one entry per seat value present among the
/// filtered offers, ascending by seat value, zero-count values omitted.
pub fn compute_seats_count(offers: &Vec<Offer>) -> (r: Vec<SeatsCount>)
    requires
        offers@.len() <= 0xffff_ffff,
    ensures
        r@ == seats_entries(views_of(offers@), 256),
{
    let ghost s = views_of(offers@);
    let mut out: Vec<SeatsCount> = Vec::new();
    let mut v: u16 = 0;
    while v < 256
        invariant
            v <= 256,
            offers@.len() <= 0xffff_ffff,
            s == views_of(offers@),
            out@ == seats_entries(s, v as int),
        decreases 256 - v,
    {
        let c = count_seats_exec(offers, v as u8);
        if c > 0 {
            out.push(SeatsCount { number_seats: v as u8, count: c });
        }
        v = v + 1;
        proof {
            if c > 0 {
                assert(out@ =~= seats_entries(s, v as int));
            }
        }
    }
    out
}

/// Counts the values in bucket `k` of width `width`.
fn count_bucket_exec(values: &Vec<u16>, width: u32, k: u32) -> (c: u32)
    requires
        width >= 1,
        values@.len() <= 0xffff_ffff,
    ensures
        c == count_bucket(values@, width, k as int),
{
    let ghost vs = values@;
    let mut c: u32 = 0;
    let mut i: usize = 0;
    while i < values.len()
        invariant
            i <= vs.len(),
            vs.len() <= 0xffff_ffff,
            width >= 1,
            vs == values@,
            c == count_bucket(vs.take(i as int), width, k as int),
            c <= i,
        decreases vs.len() - i,
    {
        if (values[i] as u32) / width == k {
            c = c + 1;
        }
        i = i + 1;
        proof {
            assert(vs.take(i as int).drop_last() =~= vs.take(i - 1));
            assert(vs.take(i as int).last() == vs[i - 1]);
        }
    }
    proof {
        assert(vs.take(vs.len() as int) =~= vs);
    }
    c
}

/// The histogram of 16-bit values under buckets of width `width` starting at
/// 0: the non-empty buckets, ascending by start.
fn histogram_u16(values: &Vec<u16>, width: u32) -> (r: Vec<(u32, u32, u32)>)
    requires
        width >= 1,
        values@.len() <= 0xffff_ffff,
    ensures
        r@ == hist_buckets(values@, width, bucket_limit(width)),
{
    let kmax: u32 = 65535 / width + 1;
    let mut out: Vec<(u32, u32, u32)> = Vec::new();
    let mut k: u32 = 0;
    while k < kmax
        invariant
            k <= kmax,
            kmax == bucket_limit(width),
            width >= 1,
            values@.len() <= 0xffff_ffff,
            out@ == hist_buckets(values@, width, k as int),
        decreases kmax - k,
    {
        let c = count_bucket_exec(values, width, k);
        proof {
            let q = 65535int / width as int;
            lemma_fundamental_div_mod(65535int, width as int);
            lemma_mul_inequality(k as int, q, width as int);
            assert(q * width as int == width as int * q) by (nonlinear_arith);
            assert(k as int * width as int <= 65535);
            if k >= 1 {
                assert(width as int <= k as int * width as int) by (nonlinear_arith)
                    requires
                        1 <= k as int,
                        1 <= width as int,
                ;
            }
            assert((k as int + 1) * width as int == k as int * width as int + width as int)
                by (nonlinear_arith);
        }
        if c > 0 {
            let start: u32 = k * width;
            proof {
                assert(k == 0 ==> start == 0) by (nonlinear_arith)
                    requires
                        start == k * width,
                ;
                assert(k == 0 ==> start as int + width as int == width as int);
                assert(k >= 1 ==> start as int + width as int <= 131070);
            }
            let end: u32 = start + width;
            out.push((start, end, c));
        }
        k = k + 1;
        proof {
            if c > 0 {
                assert(out@ =~= hist_buckets(values@, width, k as int));
            }
        }
    }
    out
}

/// Extracts each offer's price.
fn extract_prices(offers: &Vec<Offer>) -> (r: Vec<u16>)
    ensures
        r@ == prices_of(views_of(offers@)),
{
    let mut out: Vec<u16> = Vec::new();
    let mut i: usize = 0;
    while i < offers.len()
        invariant
            i <= offers@.len(),
            out@ == prices_of(views_of(offers@)).take(i as int),
        decreases offers@.len() - i,
    {
        out.push(offers[i].price);
        i = i + 1;
        proof {
            assert(out@ =~= prices_of(views_of(offers@)).take(i as int));
        }
    }
    proof {
        assert(prices_of(views_of(offers@)).take(offers@.len() as int) =~= prices_of(
            views_of(offers@),
        ));
    }
    out
}

/// Extracts each offer's free-kilometer allowance.
fn extract_free_kms(offers: &Vec<Offer>) -> (r: Vec<u16>)
    ensures
        r@ == free_kms_of(views_of(offers@)),
{
    let mut out: Vec<u16> = Vec::new();
    let mut i: usize = 0;
    while i < offers.len()
        invariant
            i <= offers@.len(),
            out@ == free_kms_of(views_of(offers@)).take(i as int),
        decreases offers@.len() - i,
    {
        out.push(offers[i].free_kilometers);
        i = i + 1;
        proof {
            assert(out@ =~= free_kms_of(views_of(offers@)).take(i as int));
        }
    }
    proof {
        assert(free_kms_of(views_of(offers@)).take(offers@.len() as int) =~= free_kms_of(
            views_of(offers@),
        ));
    }
    out
}

/// The price histogram over the filtered offers: half-open buckets of width
/// `width` starting at 0, zero-count buckets omitted, ascending by start.
pub fn compute_price_ranges(offers: &Vec<Offer>, width: u32) -> (r: Vec<PriceRange>)
    requires
        width >= 1,
        offers@.len() <= 0xffff_ffff,
    ensures
        r@ == price_ranges_spec(views_of(offers@), width),
{
    let ghost target = price_ranges_spec(views_of(offers@), width);
    let values = extract_prices(offers);
    let buckets = histogram_u16(&values, width);
    let mut out: Vec<PriceRange> = Vec::new();
    let mut i: usize = 0;
    while i < buckets.len()
        invariant
            i <= buckets@.len(),
            target == buckets@.map_values(
                |b: (u32, u32, u32)| PriceRange { start: b.0, end: b.1, count: b.2 },
            ),
            out@ == target.take(i as int),
        decreases buckets@.len() - i,
    {
        let b = buckets[i];
        out.push(PriceRange { start: b.0, end: b.1, count: b.2 });
        i = i + 1;
        proof {
            assert(out@ =~= target.take(i as int));
        }
    }
    proof {
        assert(target.take(target.len() as int) =~= target);
    }
    out
}

/// The free-kilometers histogram over the filtered offers, under the same
/// bucketing rule as the price histogram.
pub fn compute_free_kilometer_ranges(offers: &Vec<Offer>, width: u32) -> (r: Vec<
    FreeKilometerRange,
>)
    requires
        width >= 1,
        offers@.len() <= 0xffff_ffff,
    ensures
        r@ == free_km_ranges_spec(views_of(offers@), width),
{
    let ghost target = free_km_ranges_spec(views_of(offers@), width);
    let values = extract_free_kms(offers);
    let buckets = histogram_u16(&values, width);
    let mut out: Vec<FreeKilometerRange> = Vec::new();
    let mut i: usize = 0;
    while i < buckets.len()
        invariant
            i <= buckets@.len(),
            target == buckets@.map_values(
                |b: (u32, u32, u32)| FreeKilometerRange { start: b.0, end: b.1, count: b.2 },
            ),
            out@ == target.take(i as int),
        decreases buckets@.len() - i,
    {
        let b = buckets[i];
        out.push(FreeKilometerRange { start: b.0, end: b.1, count: b.2 });
        i = i + 1;
        proof {
            assert(out@ =~= target.take(i as int));
        }
    }
    proof {
        assert(target.take(target.len() as int) =~= target);
    }
    out
}

/// The sum of the counts of a sequence of histogram buckets.
pub open spec fn buckets_count_sum(b: Seq<(u32, u32, u32)>) -> int
    decreases b.len(),
{
    if b.len() == 0 {
        0
    } else {
        buckets_count_sum(b.drop_last()) + b.last().2
    }
}

/// How many of the values lie in a bucket with index below `k`.
pub open spec fn count_below(vs: Seq<u16>, w: u32, k: int) -> nat
    decreases vs.len(),
{
    if vs.len() == 0 {
        0
    } else {
        count_below(vs.drop_last(), w, k) + (if (vs.last() as int / w as int) < k {
            1nat
        } else {
            0nat
        })
    }
}

/// The values below bucket `k` are those below bucket `k - 1` plus those in
/// bucket `k - 1`.
proof fn lemma_count_below_step(vs: Seq<u16>, w: u32, k: int)
    ensures
        count_below(vs, w, k) == count_below(vs, w, k - 1) + count_bucket(vs, w, k - 1),
    decreases vs.len(),
{
    if vs.len() > 0 {
        lemma_count_below_step(vs.drop_last(), w, k);
    }
}

/// No value lies in a bucket with negative index.
proof fn lemma_count_below_zero(vs: Seq<u16>, w: u32)
    requires
        w >= 1,
    ensures
        count_below(vs, w, 0) == 0,
    decreases vs.len(),
{
    if vs.len() > 0 {
        lemma_count_below_zero(vs.drop_last(), w);
        lemma_div_is_ordered(0, vs.last() as int, w as int);
    }
}

/// A bucket never counts more values than there are.
proof fn lemma_count_bucket_le_len(vs: Seq<u16>, w: u32, k: int)
    ensures
        count_bucket(vs, w, k) <= vs.len(),
    decreases vs.len(),
{
    if vs.len() > 0 {
        lemma_count_bucket_le_len(vs.drop_last(), w, k);
    }
}

/// The counts of the first `k` buckets sum to the number of values in a
/// bucket with index below `k`.
proof fn lemma_hist_sum_below(vs: Seq<u16>, w: u32, k: int)
    requires
        w >= 1,
        k >= 0,
        vs.len() <= 0xffff_ffff,
    ensures
        buckets_count_sum(hist_buckets(vs, w, k)) == count_below(vs, w, k),
    decreases k,
{
    if k <= 0 {
        lemma_count_below_zero(vs, w);
    } else {
        lemma_hist_sum_below(vs, w, k - 1);
        lemma_count_below_step(vs, w, k);
        lemma_count_bucket_le_len(vs, w, k - 1);
        if count_bucket(vs, w, k - 1) > 0 {
            let prev = hist_buckets(vs, w, k - 1);
            let b = hist_buckets(vs, w, k);
            assert(b.drop_last() =~= prev);
        }
    }
}

/// Every 16-bit value lies in a bucket with index below [`bucket_limit`].
proof fn lemma_count_below_all(vs: Seq<u16>, w: u32)
    requires
        w >= 1,
    ensures
        count_below(vs, w, bucket_limit(w)) == vs.len(),
    decreases vs.len(),
{
    if vs.len() > 0 {
        lemma_count_below_all(vs.drop_last(), w);
        lemma_div_is_ordered(vs.last() as int, 65535, w as int);
    }
}

/// The bucket counts of a full histogram sum to the number of values.
pub proof fn lemma_histogram_sum(vs: Seq<u16>, w: u32)
    requires
        w >= 1,
        vs.len() <= 0xffff_ffff,
    ensures
        buckets_count_sum(hist_buckets(vs, w, bucket_limit(w))) == vs.len(),
{
    lemma_hist_sum_below(vs, w, bucket_limit(w));
    lemma_count_below_all(vs, w);
}

/// The shape of the first `k` histogram buckets: every bucket starts at a
/// multiple of the width, ends one width later, holds a positive count, ends
/// by `k * w`, and distinct buckets never overlap.
proof fn lemma_hist_shape_rec(vs: Seq<u16>, w: u32, k: int)
    requires
        w >= 1,
        0 <= k <= bucket_limit(w),
        vs.len() <= 0xffff_ffff,
    ensures
        ({
            let b = hist_buckets(vs, w, k);
            &&& forall|i: int|
                0 <= i < b.len() ==> {
                    &&& (#[trigger] b[i]).0 as int % w as int == 0
                    &&& b[i].1 == b[i].0 + w
                    &&& b[i].2 > 0
                    &&& b[i].1 <= k * w as int
                }
            &&& forall|i: int, j: int|
                0 <= i < j < b.len() ==> (#[trigger] b[i]).1 <= (#[trigger] b[j]).0
        }),
    decreases k,
{
    if k <= 0 {
    } else {
        lemma_hist_shape_rec(vs, w, k - 1);
        let prev = hist_buckets(vs, w, k - 1);
        let b = hist_buckets(vs, w, k);
        let q = 65535int / w as int;
        lemma_fundamental_div_mod(65535int, w as int);
        assert(q * w as int == w as int * q) by (nonlinear_arith);
        lemma_mul_inequality(k - 1, q, w as int);
        assert((k - 1) * w as int <= 65535);
        assert((k - 1) * w as int >= 0) by (nonlinear_arith)
            requires
                k - 1 >= 0,
                w as int >= 1,
        ;
        if k - 1 >= 1 {
            assert(w as int <= (k - 1) * w as int) by (nonlinear_arith)
                requires
                    1 <= k - 1,
                    1 <= w as int,
            ;
        } else {
            assert((k - 1) * w as int == 0) by (nonlinear_arith)
                requires
                    k == 1,
            ;
        }
        assert(k * w as int == (k - 1) * w as int + w as int) by (nonlinear_arith);
        assert((k - 1) * w as int <= k * w as int);
        lemma_count_bucket_le_len(vs, w, k - 1);
        if count_bucket(vs, w, k - 1) > 0 {
            let start = ((k - 1) * w as int) as u32;
            let end = (k * w as int) as u32;
            assert(start as int == (k - 1) * w as int);
            assert(end as int == k * w as int);
            assert(start as int % w as int == 0) by (nonlinear_arith)
                requires
                    start as int == (k - 1) * w as int,
                    w as int >= 1,
            ;
            assert(b.drop_last() =~= prev);
            assert forall|i: int| 0 <= i < b.len() implies {
                &&& (#[trigger] b[i]).0 as int % w as int == 0
                &&& b[i].1 == b[i].0 + w
                &&& b[i].2 > 0
                &&& b[i].1 <= k * w as int
            } by {
                if i < b.len() - 1 {
                    assert(b[i] == prev[i]);
                }
            }
            assert forall|i: int, j: int| 0 <= i < j < b.len() implies (#[trigger] b[i]).1 <= (
            #[trigger] b[j]).0 by {
                if j < b.len() - 1 {
                    assert(b[i] == prev[i] && b[j] == prev[j]);
                } else {
                    assert(b[i] == prev[i]);
                    assert(b[i].1 <= (k - 1) * w as int);
                }
            }
        }
    }
}

/// The sum of the counts of a price histogram.
pub open spec fn price_counts_sum(b: Seq<PriceRange>) -> int
    decreases b.len(),
{
    if b.len() == 0 {
        0
    } else {
        price_counts_sum(b.drop_last()) + b.last().count
    }
}

/// The sum of the counts of a free-kilometers histogram.
pub open spec fn free_km_counts_sum(b: Seq<FreeKilometerRange>) -> int
    decreases b.len(),
{
    if b.len() == 0 {
        0
    } else {
        free_km_counts_sum(b.drop_last()) + b.last().count
    }
}

/// Mapping histogram buckets to price ranges keeps the sum of counts.
proof fn lemma_price_sum_map(t: Seq<(u32, u32, u32)>)
    ensures
        price_counts_sum(
            t.map_values(|b: (u32, u32, u32)| PriceRange { start: b.0, end: b.1, count: b.2 }),
        ) == buckets_count_sum(t),
    decreases t.len(),
{
    let f = |b: (u32, u32, u32)| PriceRange { start: b.0, end: b.1, count: b.2 };
    if t.len() > 0 {
        lemma_price_sum_map(t.drop_last());
        assert(t.map_values(f).drop_last() =~= t.drop_last().map_values(f));
    }
}

/// Mapping histogram buckets to free-kilometer ranges keeps the sum of
/// counts.
proof fn lemma_free_km_sum_map(t: Seq<(u32, u32, u32)>)
    ensures
        free_km_counts_sum(
            t.map_values(
                |b: (u32, u32, u32)| FreeKilometerRange { start: b.0, end: b.1, count: b.2 },
            ),
        ) == buckets_count_sum(t),
    decreases t.len(),
{
    let f = |b: (u32, u32, u32)| FreeKilometerRange { start: b.0, end: b.1, count: b.2 };
    if t.len() > 0 {
        lemma_free_km_sum_map(t.drop_last());
        assert(t.map_values(f).drop_last() =~= t.drop_last().map_values(f));
    }
}

/// The price histogram's buckets never overlap, are contiguous multiples of
/// the width starting at 0, hold only positive counts, and their counts sum
/// to the number of offers in the set.
pub proof fn lemma_price_histogram_properties(s: Seq<OfferView>, w: u32)
    requires
        w >= 1,
        s.len() <= 0xffff_ffff,
    ensures
        ({
            let b = price_ranges_spec(s, w);
            &&& price_counts_sum(b) == s.len()
            &&& forall|i: int|
                0 <= i < b.len() ==> {
                    &&& (#[trigger] b[i]).start as int % w as int == 0
                    &&& b[i].end == b[i].start + w
                    &&& b[i].count > 0
                }
            &&& forall|i: int, j: int|
                0 <= i < j < b.len() ==> (#[trigger] b[i]).end <= (#[trigger] b[j]).start
        }),
{
    let t = hist_buckets(prices_of(s), w, bucket_limit(w));
    let b = price_ranges_spec(s, w);
    lemma_histogram_sum(prices_of(s), w);
    lemma_price_sum_map(t);
    lemma_hist_shape_rec(prices_of(s), w, bucket_limit(w));
    assert(forall|i: int| 0 <= i < b.len() ==> b[i] == PriceRange {
        start: t[i].0,
        end: t[i].1,
        count: t[i].2,
    });
}

/// The free-kilometers histogram's buckets never overlap, are contiguous
/// multiples of the width starting at 0, hold only positive counts, and their
/// counts sum to the number of offers in the set.
pub proof fn lemma_free_km_histogram_properties(s: Seq<OfferView>, w: u32)
    requires
        w >= 1,
        s.len() <= 0xffff_ffff,
    ensures
        ({
            let b = free_km_ranges_spec(s, w);
            &&& free_km_counts_sum(b) == s.len()
            &&& forall|i: int|
                0 <= i < b.len() ==> {
                    &&& (#[trigger] b[i]).start as int % w as int == 0
                    &&& b[i].end == b[i].start + w
                    &&& b[i].count > 0
                }
            &&& forall|i: int, j: int|
                0 <= i < j < b.len() ==> (#[trigger] b[i]).end <= (#[trigger] b[j]).start
        }),
{
    let t = hist_buckets(free_kms_of(s), w, bucket_limit(w));
    let b = free_km_ranges_spec(s, w);
    lemma_histogram_sum(free_kms_of(s), w);
    lemma_free_km_sum_map(t);
    lemma_hist_shape_rec(free_kms_of(s), w, bucket_limit(w));
    assert(forall|i: int| 0 <= i < b.len() ==> b[i] == FreeKilometerRange {
        start: t[i].0,
        end: t[i].1,
        count: t[i].2,
    });
}

} // verus!

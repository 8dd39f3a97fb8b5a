use vstd::prelude::*;
use vstd::arithmetic::div_mod::{lemma_fundamental_div_mod, lemma_fundamental_div_mod_converse, lemma_mod_pos_bound};
use crate::bcd::{bit_set, chars_of2, chars_of4, decimal_of, decimal_value, digit_to_rev_bin, lemma_digit_char, pad2, pad4, rev_bits};
use crate::pixel::{Pixel, NUM_LEDS, black, white};

verus! {

/// Which digit of a right-aligned sequence pixel `i` falls under: column
/// `width - 1` holds digit 0.
pub open spec fn digit_index(width: int, i: int) -> int {
    width - 1 - i % width
}

/// Which bit of its digit pixel `i` shows, in a band starting at row `off`.
pub open spec fn bit_row(width: int, off: int, i: int) -> int {
    i / width - off
}

/// Pixel `i` belongs to the drawing of `n` digits in the band at row `off`.
pub open spec fn in_band(n: int, width: int, off: int, i: int) -> bool {
    width > 0 && 0 <= bit_row(width, off, i) < 4 && digit_index(width, i) < n
}

/// White where the bit is one, black where it is zero.
pub open spec fn bit_colour(d: u32, b: int) -> Pixel {
    if bit_set(d, b) { white() } else { black() }
}

/// The colour that the band of `digits` at row `off` gives pixel `i`.
pub open spec fn band_colour(digits: Seq<u32>, width: int, off: int, i: int) -> Pixel {
    bit_colour(digits[digit_index(width, i)], bit_row(width, off, i))
}

/// Draws `digits` right-aligned, one column each, bit 0 at row `y_offset` and
/// bit 3 three rows below. Pixels outside the strip are skipped.
pub fn draw_digits(data: &mut [Pixel; NUM_LEDS], digits: &[u32], width: usize, y_offset: usize)
    requires
        y_offset <= usize::MAX - 3,
    ensures
        forall|i: int| 0 <= i < NUM_LEDS ==> #[trigger] final(data)@[i] == (
            if in_band(digits@.len() as int, width as int, y_offset as int, i) {
                band_colour(digits@, width as int, y_offset as int, i)
            } else {
                old(data)@[i]
            }),
{
    let ghost w = width as int;
    let ghost off = y_offset as int;
    let mut d: usize = 0;
    while d < digits.len() && d < width
        invariant
            y_offset <= usize::MAX - 3,
            w == width,
            off == y_offset,
            d <= digits@.len(),
            d <= width,
            data@.len() == NUM_LEDS,
            forall|i: int| 0 <= i < NUM_LEDS ==> #[trigger] data@[i] == (
                if in_band(digits@.len() as int, w, off, i) && digit_index(w, i) < d {
                    band_colour(digits@, w, off, i)
                } else {
                    old(data)@[i]
                }),
        decreases digits@.len() - d,
    {
        let x = width - d - 1;
        let rev_bin = chars_of4(&digit_to_rev_bin(digits[d]));
        let mut y: usize = 0;
        while y < 4
            invariant
                y_offset <= usize::MAX - 3,
                w == width,
                off == y_offset,
                d < digits@.len(),
                d < width,
                x == width - d - 1,
                rev_bin@ == rev_bits(digits@[d as int]),
                y <= 4,
                data@.len() == NUM_LEDS,
                forall|i: int| 0 <= i < NUM_LEDS ==> #[trigger] data@[i] == (
                    if in_band(digits@.len() as int, w, off, i) && (digit_index(w, i) < d
                        || (digit_index(w, i) == d && bit_row(w, off, i) < y)) {
                        band_colour(digits@, w, off, i)
                    } else {
                        old(data)@[i]
                    }),
            decreases 4 - y,
        {
            let row = y_offset + y;
            proof {
                if row > 0 && width <= NUM_LEDS && row <= NUM_LEDS {
                    assert(row * width <= (NUM_LEDS + 4) * NUM_LEDS) by (nonlinear_arith)
                        requires row <= NUM_LEDS + 4, width <= NUM_LEDS;
                }
                if row > 0 && width > NUM_LEDS {
                    assert(row * width >= width) by (nonlinear_arith) requires row >= 1, width > NUM_LEDS;
                }
                if row > NUM_LEDS && width > 0 {
                    assert(row * width >= row) by (nonlinear_arith) requires row > NUM_LEDS, width >= 1;
                }
                // A pixel is under this digit and bit exactly when it has this index.
                assert forall|i: int| 0 <= i < NUM_LEDS && w > 0 implies
                    (digit_index(w, i) == d && bit_row(w, off, i) == y) <==> i == x + row * w by {
                    lemma_fundamental_div_mod(i, w);
                    lemma_mod_pos_bound(i, w);
                    assert(w * (i / w) == (i / w) * w) by (nonlinear_arith);
                    if i == x + row * w {
                        lemma_fundamental_div_mod_converse(i, w, row as int, x as int);
                    }
                }
            }
            let idx: Option<usize> = if row == 0 {
                Some(x)
            } else if width <= NUM_LEDS && row <= NUM_LEDS {
                Some(x + row * width)
            } else {
                None
            };
            match idx {
                Some(k) => {
                    if k < NUM_LEDS {
                        let ch = rev_bin[y];
                        let p = if ch == '1' { Pixel::full() } else { Pixel::off() };
                        data[k] = p;
                        assert(bit_set(digits@[d as int], y as int) <==> ch == '1');
                    } else {
                        assert(forall|i: int| 0 <= i < NUM_LEDS ==> !(digit_index(w, i) == d && bit_row(w, off, i) == y));
                    }
                },
                None => {
                    assert(row * width >= width);
                    assert(x + row * width >= NUM_LEDS);
                    assert(forall|i: int| 0 <= i < NUM_LEDS ==> !(digit_index(w, i) == d && bit_row(w, off, i) == y));
                },
            }
            y += 1;
        }
        d += 1;
    }
    assert forall|i: int| 0 <= i < NUM_LEDS && in_band(digits@.len() as int, w, off, i) implies
        digit_index(w, i) < d by {
        lemma_mod_pos_bound(i, w);
    }
}

/// Local calendar fields of one instant.
#[derive(Clone, Copy, Debug, PartialEq, Eq, Structural)]
pub struct CalendarFields {
    pub hour: u32,
    pub minute: u32,
    pub second: u32,
    pub day: u32,
    pub month: u32,
    pub year: i32,
}

impl CalendarFields {
    /// Each field in its calendar range, and a year of at most four digits.
    pub open spec fn wf(&self) -> bool {
        &&& self.hour < 24
        &&& self.minute < 60
        &&& self.second < 60
        &&& 1 <= self.day <= 31
        &&& 1 <= self.month <= 12
        &&& self.year_magnitude() < 10000
    }

    /// The year without its sign.
    pub open spec fn year_magnitude(&self) -> int {
        if self.year < 0 { -(self.year as int) } else { self.year as int }
    }
}

/// Hour, minute and second, two digits each.
pub open spec fn time_digits(f: CalendarFields) -> Seq<u32> {
    seq![f.hour / 10, f.hour % 10, f.minute / 10, f.minute % 10, f.second / 10, f.second % 10]
}

/// Day (shown one above the calendar's day of month), month and four-digit year.
pub open spec fn date_digits(f: CalendarFields) -> Seq<u32> {
    let d = f.day + 1;
    let y = f.year_magnitude();
    seq![
        (d / 10) as u32, (d % 10) as u32, f.month / 10, f.month % 10,
        (y / 1000) as u32, ((y / 100) % 10) as u32, ((y / 10) % 10) as u32, (y % 10) as u32,
    ]
}

/// The whole strip showing `f`: the time in rows 0 to 3, the date in rows 5 to
/// 8, every other pixel black.
pub open spec fn clock_face(f: CalendarFields, width: int) -> Seq<Pixel> {
    Seq::new(NUM_LEDS as nat, |i: int|
        if in_band(8, width, 5, i) {
            band_colour(date_digits(f), width, 5, i)
        } else if in_band(6, width, 0, i) {
            band_colour(time_digits(f), width, 0, i)
        } else {
            black()
        })
}

#[verifier::external_type_specification]
#[verifier::external_body]
#[verifier::reject_recursive_types(T)]
pub struct ExHeaplessVec<T, const N: usize>(heapless::Vec<T, N>);

/// The digits held by a `heapless::Vec` of capacity eight.
pub uninterp spec fn digits8(v: heapless::Vec<u32, 8>) -> Seq<u32>;

/// Relies on `heapless::Vec::new`: a new vector is empty.
#[verifier::external_body]
fn new_digits() -> (v: heapless::Vec<u32, 8>)
    ensures
        digits8(v) == Seq::<u32>::empty(),
{
    heapless::Vec::new()
}

/// Relies on `heapless::Vec::push`: the item is appended when there is room;
/// otherwise it is handed back and the vector is unchanged.
#[verifier::external_body]
fn push_digit(v: &mut heapless::Vec<u32, 8>, d: u32) -> (r: Result<(), u32>)
    ensures
        digits8(*old(v)).len() < 8 ==> r is Ok && digits8(*final(v)) == digits8(*old(v)).push(d),
        digits8(*old(v)).len() >= 8 ==> (r matches Err(e) && e == d) && digits8(*final(v)) == digits8(*old(v)),
{
    v.push(d)
}

/// Relies on `heapless::Vec::as_slice`: the items, in order.
#[verifier::external_body]
fn digit_slice(v: &heapless::Vec<u32, 8>) -> (r: &[u32])
    ensures
        r@ == digits8(*v),
{
    v.as_slice()
}

/// Appends the value of each decimal digit character of `text` to `out`.
fn push_digits(out: &mut heapless::Vec<u32, 8>, text: &Vec<char>)
    requires
        forall|k: int| 0 <= k < text@.len() ==> decimal_of(#[trigger] text@[k]) is Some,
        digits8(*old(out)).len() + text@.len() <= 8,
    ensures
        digits8(*final(out)).len() == digits8(*old(out)).len() + text@.len(),
        forall|k: int| 0 <= k < digits8(*old(out)).len() ==> #[trigger] digits8(*final(out))[k] == digits8(*old(out))[k],
        forall|k: int| 0 <= k < text@.len() ==>
            digits8(*final(out))[digits8(*old(out)).len() + k] as int == decimal_of(#[trigger] text@[k])->0,
{
    let mut k: usize = 0;
    while k < text.len()
        invariant
            k <= text@.len(),
            forall|j: int| 0 <= j < text@.len() ==> decimal_of(#[trigger] text@[j]) is Some,
            digits8(*old(out)).len() + text@.len() <= 8,
            digits8(*out).len() == digits8(*old(out)).len() + k,
            forall|j: int| 0 <= j < digits8(*old(out)).len() ==> #[trigger] digits8(*out)[j] == digits8(*old(out))[j],
            forall|j: int| 0 <= j < k ==> digits8(*out)[digits8(*old(out)).len() + j] as int == decimal_of(#[trigger] text@[j])->0,
        decreases text@.len() - k,
    {
        let v = decimal_value(text[k]);
        match v {
            Some(n) => {
                let _ = push_digit(out, n);
            },
            None => {},
        }
        k += 1;
    }
}

/// Sets every pixel to black.
fn clear(data: &mut [Pixel; NUM_LEDS])
    ensures
        forall|i: int| 0 <= i < NUM_LEDS ==> #[trigger] final(data)@[i] == black(),
{
    let mut i: usize = 0;
    while i < NUM_LEDS
        invariant
            i <= NUM_LEDS,
            data@.len() == NUM_LEDS,
            forall|j: int| 0 <= j < i ==> #[trigger] data@[j] == black(),
        decreases NUM_LEDS - i,
    {
        data[i] = Pixel::off();
        i += 1;
    }
}

/// Paints the calendar fields `f` onto a strip `width` columns wide, as
/// binary-coded decimal columns; every pixel outside the digits is black.
pub fn draw_clock(data: &mut [Pixel; NUM_LEDS], f: &CalendarFields, width: usize)
    requires
        f.wf(),
    ensures
        final(data)@ == clock_face(*f, width as int),
{
    clear(data);
    let hour_str = pad2(f.hour);
    let minute_str = pad2(f.minute);
    let second_str = pad2(f.second);
    proof {
        lemma_digit_char((f.hour / 10) as int);
        lemma_digit_char((f.hour % 10) as int);
        lemma_digit_char((f.minute / 10) as int);
        lemma_digit_char((f.minute % 10) as int);
        lemma_digit_char((f.second / 10) as int);
        lemma_digit_char((f.second % 10) as int);
    }
    let mut time_digits_v = new_digits();
    push_digits(&mut time_digits_v, &chars_of2(&hour_str));
    push_digits(&mut time_digits_v, &chars_of2(&minute_str));
    push_digits(&mut time_digits_v, &chars_of2(&second_str));
    assert(digits8(time_digits_v) =~= time_digits(*f));
    draw_digits(data, digit_slice(&time_digits_v), width, 0);

    let day = f.day + 1;
    let month = f.month;
    let year: u32 = if f.year < 0 { (-(f.year as i64)) as u32 } else { f.year as u32 };
    let day_str = pad2(day);
    let month_str = pad2(month);
    let year_str = pad4(year);
    proof {
        lemma_digit_char((day / 10) as int);
        lemma_digit_char((day % 10) as int);
        lemma_digit_char((month / 10) as int);
        lemma_digit_char((month % 10) as int);
        lemma_digit_char((year / 1000) as int);
        lemma_digit_char(((year / 100) % 10) as int);
        lemma_digit_char(((year / 10) % 10) as int);
        lemma_digit_char((year % 10) as int);
    }
    let mut date_digits_v = new_digits();
    push_digits(&mut date_digits_v, &chars_of2(&day_str));
    push_digits(&mut date_digits_v, &chars_of2(&month_str));
    push_digits(&mut date_digits_v, &chars_of4(&year_str));
    assert(digits8(date_digits_v) =~= date_digits(*f));
    draw_digits(data, digit_slice(&date_digits_v), width, 5);
    assert(data@ =~= clock_face(*f, width as int));
}

/// The local calendar fields in the US Central time zone of the instant
/// `micros` microseconds after the Unix epoch, or `None` outside the range of
/// dates that the calendar library represents.
pub uninterp spec fn central_time_of(micros: int) -> Option<CalendarFields>;

/// Relies on chrono's `DateTime::from_timestamp_micros` (`None` out of range),
/// chrono-tz's `US::Central` through `TimeZone::from_utc_datetime`, and on the
/// ranges that chrono's `Timelike` and `Datelike` document for their fields.
#[verifier::external_body]
fn central_time(micros: i64) -> (r: Option<CalendarFields>)
    ensures
        r == central_time_of(micros as int),
        r matches Some(f) ==> f.hour < 24 && f.minute < 60 && f.second < 60 && 1 <= f.day <= 31
            && 1 <= f.month <= 12,
{
    match chrono::DateTime::from_timestamp_micros(micros) {
        Some(utc) => {
            let t = chrono::TimeZone::from_utc_datetime(&chrono_tz::US::Central, &utc.naive_utc());
            Some(CalendarFields {
                hour: chrono::Timelike::hour(&t),
                minute: chrono::Timelike::minute(&t),
                second: chrono::Timelike::second(&t),
                day: chrono::Datelike::day(&t),
                month: chrono::Datelike::month(&t),
                year: chrono::Datelike::year(&t),
            })
        },
        None => None,
    }
}

/// The timestamp can be shown: it fits an `i64`, the calendar covers it, and
/// its year has at most four digits.
pub open spec fn showable(timestamp: u64) -> bool {
    &&& timestamp <= i64::MAX
    &&& central_time_of(timestamp as int) matches Some(f)
    &&& f.year_magnitude() < 10000
}

/// Shows `timestamp` (microseconds since the Unix epoch) on a strip `width`
/// columns wide as the local time and date in US Central time. Returns whether
/// it could be shown; when not, the strip is left all black.
pub fn dttobcd(data: &mut [Pixel; NUM_LEDS], timestamp: u64, width: usize, _height: usize) -> (shown: bool)
    ensures
        shown == showable(timestamp),
        shown ==> final(data)@ == clock_face(central_time_of(timestamp as int)->0, width as int),
        !shown ==> forall|i: int| 0 <= i < NUM_LEDS ==> #[trigger] final(data)@[i] == black(),
{
    clear(data);
    if timestamp > i64::MAX as u64 {
        return false;
    }
    match central_time(timestamp as i64) {
        Some(f) => {
            if f.year <= -10000 || f.year >= 10000 {
                return false;
            }
            draw_clock(data, &f, width);
            true
        },
        None => false,
    }
}

} // verus!

//! The value codec: converts one native, engine-specific column value into
//! destination SQL literal text. Null of any type renders as `NULL`; binary
//! data becomes a quoted hex string; strings are quoted with embedded quotes
//! doubled; the six temporal encodings are decoded into calendar text.

use vstd::prelude::*;
use vstd::string::*;
use crate::strings::{
    dec_str, dec_str_signed, push_char, push_dec_i128, push_dec_u64_padded,
    push_dec_u128_right_padded, zero_pad_left, zero_pad_right,
};

verus! {

/// A fixed-point numeric value with explicit integer and fractional parts.
#[derive(Debug, Clone, Copy)]
pub struct NumericValue {
    pub int_part: i128,
    pub dec_part: i128,
    pub scale: u8,
}

/// A time of day stored as `increments` ticks at `10^(9-scale)` nanoseconds
/// per tick.
#[derive(Debug, Clone, Copy)]
pub struct TimeValue {
    pub increments: u64,
    pub scale: u8,
}

/// A calendar date stored as days since year 1, day 1.
#[derive(Debug, Clone, Copy)]
pub struct DateValue {
    pub days: u32,
}

/// The legacy datetime encoding: days since 1900-01-01 and ticks of 1/300
/// second since midnight.
#[derive(Debug, Clone, Copy)]
pub struct DateTimeValue {
    pub days: i32,
    pub seconds_fragments: u32,
}

/// The small datetime encoding: days since 1900-01-01 and whole minutes
/// since midnight.
#[derive(Debug, Clone, Copy)]
pub struct SmallDateTimeValue {
    pub days: u16,
    pub minutes: u16,
}

/// The datetime2 encoding: a date and a sub-second time of day.
#[derive(Debug, Clone, Copy)]
pub struct DateTime2Value {
    pub date: DateValue,
    pub time: TimeValue,
}

/// A datetime2 together with a signed offset in minutes.
#[derive(Debug, Clone, Copy)]
pub struct DateTimeOffsetValue {
    pub datetime2: DateTime2Value,
    pub offset_minutes: i16,
}

/// One tagged native column value. Every variant carries `None` for a null
/// of that type. Floating-point and GUID values arrive as the decimal text
/// their engine-side representation displays as, since their binary forms
/// stay outside the verified core.
#[derive(Debug, Clone)]
pub enum ColumnValue {
    Binary(Option<Vec<u8>>),
    Bit(Option<bool>),
    TinyInt(Option<u8>),
    SmallInt(Option<i16>),
    Int(Option<i32>),
    BigInt(Option<i64>),
    Float(Option<String>),
    Double(Option<String>),
    Guid(Option<String>),
    Numeric(Option<NumericValue>),
    Text(Option<String>),
    Time(Option<TimeValue>),
    Date(Option<DateValue>),
    SmallDateTime(Option<SmallDateTimeValue>),
    DateTime(Option<DateTimeValue>),
    DateTime2(Option<DateTime2Value>),
    DateTimeOffset(Option<DateTimeOffsetValue>),
    Xml(Option<String>),
}

/// Nanoseconds in one day.
pub open spec fn day_ns() -> int {
    86_400_000_000_000
}

/// `10^k`.
pub open spec fn pow10(k: nat) -> nat
    decreases k,
{
    if k == 0 {
        1
    } else {
        10 * pow10((k - 1) as nat)
    }
}

impl NumericValue {
    /// Both parts stay strictly above the smallest machine value, so their
    /// absolute values exist.
    pub open spec fn wf(&self) -> bool {
        self.int_part > i128::MIN && self.dec_part > i128::MIN
    }
}

impl TimeValue {
    /// The sub-second scale is at most seven digits and the ticks stay
    /// inside one day.
    pub open spec fn spec_ns(&self) -> int {
        self.increments * pow10((9 - self.scale) as nat)
    }

    pub open spec fn wf(&self) -> bool {
        self.scale <= 7 && self.spec_ns() < day_ns()
    }
}

impl DateValue {
    /// Day offsets from year 1 up to 9999-12-31.
    pub open spec fn wf(&self) -> bool {
        self.days <= 3_652_058
    }
}

impl DateTimeValue {
    /// Day offsets from 1900-01-01, reaching back to 1753-01-01 and forward
    /// to 9999-12-31, with ticks inside one day.
    pub open spec fn wf(&self) -> bool {
        -53_690 <= self.days <= 2_958_463 && self.seconds_fragments < 25_920_000
    }
}

impl SmallDateTimeValue {
    /// Whole minutes since midnight stay inside one day.
    pub open spec fn wf(&self) -> bool {
        self.minutes < 1440
    }
}

impl DateTime2Value {
    pub open spec fn wf(&self) -> bool {
        self.date.wf() && self.time.wf()
    }
}

impl DateTimeOffsetValue {
    pub open spec fn wf(&self) -> bool {
        self.datetime2.wf()
    }
}

impl ColumnValue {
    /// The bounds under which every variant renders without overflow.
    pub open spec fn wf(&self) -> bool {
        match *self {
            ColumnValue::Numeric(Option::Some(n)) => n.wf(),
            ColumnValue::Time(Option::Some(t)) => t.wf(),
            ColumnValue::Date(Option::Some(d)) => d.wf(),
            ColumnValue::SmallDateTime(Option::Some(d)) => d.wf(),
            ColumnValue::DateTime(Option::Some(d)) => d.wf(),
            ColumnValue::DateTime2(Option::Some(d)) => d.wf(),
            ColumnValue::DateTimeOffset(Option::Some(d)) => d.wf(),
            _ => true,
        }
    }
}

/// The calendar date that lies `days` days after the first of January of
/// `base_year`, as (year, month, day).
pub uninterp spec fn civil_of_days(base_year: int, days: int) -> (int, int, int);

/// Relies on `chrono::NaiveDate`: adding a day offset to the first of
/// January of the base year and reading the date back through `Datelike`.
/// The offset bounds run from year 1 (for the year-1 base) or 1753-01-01
/// (for the 1900 base, the legacy encoding's earliest date) up to
/// 9999-12-31, which keeps the addition in chrono's range and the year at
/// four digits; month and day ranges are what `Datelike` documents.
#[verifier::external_body]
fn civil_from_days(base_year: i32, days: i64) -> (r: (i32, u8, u8))
    requires
        (base_year == 1 && 0 <= days <= 3_652_058) || (base_year == 1900 && -53_690 <= days
            <= 2_958_463),
    ensures
        (r.0 as int, r.1 as int, r.2 as int) == civil_of_days(base_year as int, days as int),
        1 <= r.0 <= 9999,
        1 <= r.1 <= 12,
        1 <= r.2 <= 31,
{
    let date = chrono::NaiveDate::from_ymd_opt(base_year, 1, 1).expect("valid base date")
        + chrono::Duration::days(days);
    (
        chrono::Datelike::year(&date),
        chrono::Datelike::month(&date) as u8,
        chrono::Datelike::day(&date) as u8,
    )
}

/// The lowercase hex digit for `d` in `0..16`.
pub open spec fn hex_digit_char(d: int) -> char {
    if d == 0 { '0' }
    else if d == 1 { '1' }
    else if d == 2 { '2' }
    else if d == 3 { '3' }
    else if d == 4 { '4' }
    else if d == 5 { '5' }
    else if d == 6 { '6' }
    else if d == 7 { '7' }
    else if d == 8 { '8' }
    else if d == 9 { '9' }
    else if d == 10 { 'a' }
    else if d == 11 { 'b' }
    else if d == 12 { 'c' }
    else if d == 13 { 'd' }
    else if d == 14 { 'e' }
    else { 'f' }
}

/// Two lowercase hex digits per byte, in order.
pub open spec fn hex_of(bytes: Seq<u8>) -> Seq<char>
    decreases bytes.len(),
{
    if bytes.len() == 0 {
        Seq::empty()
    } else {
        seq![
            hex_digit_char(bytes[0] as int / 16),
            hex_digit_char(bytes[0] as int % 16),
        ] + hex_of(bytes.drop_first())
    }
}

/// Relies on `hex::encode`: each byte becomes its two lowercase hex digits,
/// in input order.
#[verifier::external_body]
fn hex_encode(bytes: &Vec<u8>) -> (r: String)
    ensures
        r@ == hex_of(bytes@),
{
    hex::encode(bytes)
}

/// `s` with every single quote doubled.
pub open spec fn escape_quotes(s: Seq<char>) -> Seq<char>
    decreases s.len(),
{
    if s.len() == 0 {
        Seq::empty()
    } else {
        (if s[0] == '\'' {
            seq!['\'', '\'']
        } else {
            seq![s[0]]
        }) + escape_quotes(s.drop_first())
    }
}

/// Quote-doubling splits over concatenation.
proof fn lemma_escape_quotes_concat(a: Seq<char>, b: Seq<char>)
    ensures
        escape_quotes(a + b) == escape_quotes(a) + escape_quotes(b),
    decreases a.len(),
{
    if a.len() == 0 {
        assert(a + b =~= b);
        assert(escape_quotes(a) + escape_quotes(b) =~= escape_quotes(b));
    } else {
        assert((a + b).drop_first() =~= a.drop_first() + b);
        lemma_escape_quotes_concat(a.drop_first(), b);
        assert(escape_quotes(a + b) =~= escape_quotes(a) + escape_quotes(b));
    }
}

/// A single-quote-delimited literal with embedded quotes doubled.
pub open spec fn string_literal_text(s: Seq<char>) -> Seq<char> {
    seq!['\''] + escape_quotes(s) + seq!['\'']
}

/// The `NULL` literal.
pub open spec fn null_text() -> Seq<char> {
    "NULL"@
}

/// Renders a string-like value as a quoted literal, `NULL` when absent.
pub fn format_string_value(value: Option<&str>) -> (r: String)
    ensures
        match value {
            Option::Some(v) => r@ == string_literal_text(v@),
            Option::None => r@ == null_text(),
        },
{
    match value {
        Some(v) => {
            let chars = crate::strings::str_to_chars(v);
            let mut s = String::new();
            push_char(&mut s, '\'');
            let mut i: usize = 0;
            while i < chars.len()
                invariant
                    chars@ == v@,
                    i <= chars@.len(),
                    s@ == seq!['\''] + escape_quotes(v@.take(i as int)),
                decreases chars@.len() - i,
            {
                let c = chars[i];
                if c == '\'' {
                    push_char(&mut s, '\'');
                    push_char(&mut s, '\'');
                } else {
                    push_char(&mut s, c);
                }
                proof {
                    let pre = v@.take(i as int);
                    assert(v@.take(i + 1) =~= pre + seq![c]);
                    lemma_escape_quotes_concat(pre, seq![c]);
                    assert(seq![c].drop_first() =~= Seq::<char>::empty());
                    assert(escape_quotes(seq![c].drop_first()) =~= Seq::<char>::empty());
                    assert(escape_quotes(seq![c]) =~= (if c == '\'' {
                        seq!['\'', '\'']
                    } else {
                        seq![c]
                    }));
                    assert(s@ =~= seq!['\''] + escape_quotes(v@.take(i + 1)));
                }
                i = i + 1;
            }
            push_char(&mut s, '\'');
            proof {
                assert(v@.take(v@.len() as int) =~= v@);
                assert(s@ =~= string_literal_text(v@));
            }
            s
        },
        None => {
            let mut s = String::new();
            s.append("NULL");
            proof {
                assert(s@ =~= null_text());
            }
            s
        },
    }
}

/// Renders an integer value as a plain number, `NULL` when absent.
pub fn format_number_value(value: Option<i64>) -> (r: String)
    ensures
        match value {
            Option::Some(v) => r@ == dec_str_signed(v as int),
            Option::None => r@ == null_text(),
        },
{
    match value {
        Some(v) => {
            let mut s = String::new();
            push_dec_i128(&mut s, v as i128);
            proof {
                assert(s@ =~= dec_str_signed(v as int));
            }
            s
        },
        None => format_string_value(None),
    }
}

/// The literal of a fixed-point numeric: the integer part, a dot, and the
/// fractional digits right-padded with zeros to the scale, quoted.
pub open spec fn numeric_literal_text(n: NumericValue) -> Seq<char> {
    seq!['\''] + dec_str_signed(n.int_part as int) + seq!['.'] + zero_pad_right(
        dec_str((if n.dec_part < 0 {
            -(n.dec_part as int)
        } else {
            n.dec_part as int
        }) as nat),
        n.scale as nat,
    ) + seq!['\'']
}

/// Renders a fixed-point numeric, `NULL` when absent. The fractional digit
/// string is padded on the right, which keeps the stored digits' leading
/// zeros out of the text.
pub fn format_numeric_value(value: Option<NumericValue>) -> (r: String)
    requires
        match value {
            Option::Some(n) => n.wf(),
            Option::None => true,
        },
    ensures
        match value {
            Option::Some(n) => r@ == numeric_literal_text(n),
            Option::None => r@ == null_text(),
        },
{
    match value {
        Some(numeric) => {
            let mut s = String::new();
            push_char(&mut s, '\'');
            push_dec_i128(&mut s, numeric.int_part);
            push_char(&mut s, '.');
            let frac: i128 = if numeric.dec_part < 0 {
                -numeric.dec_part
            } else {
                numeric.dec_part
            };
            push_dec_u128_right_padded(&mut s, frac as u128, numeric.scale as usize);
            push_char(&mut s, '\'');
            proof {
                assert(s@ =~= numeric_literal_text(numeric));
            }
            s
        },
        None => format_string_value(None),
    }
}

/// `HH:MM:SS` for a second count inside one day.
pub open spec fn hms_text(sec: int) -> Seq<char> {
    zero_pad_left(dec_str((sec / 3600) as nat), 2) + ":"@ + zero_pad_left(
        dec_str((sec / 60 % 60) as nat),
        2,
    ) + ":"@ + zero_pad_left(dec_str((sec % 60) as nat), 2)
}

/// Appends `HH:MM:SS` for the given second count.
fn push_hms(s: &mut String, sec: u64)
    ensures
        final(s)@ == old(s)@ + hms_text(sec as int),
{
    push_dec_u64_padded(s, sec / 3600, 2);
    push_char(s, ':');
    push_dec_u64_padded(s, sec / 60 % 60, 2);
    push_char(s, ':');
    push_dec_u64_padded(s, sec % 60, 2);
    proof {
        reveal_strlit(":");
        assert(":"@ =~= seq![':']);
        assert(s@ =~= old(s)@ + hms_text(sec as int));
    }
}

/// `10^k` for small exponents.
fn pow10_u64(k: u8) -> (r: u64)
    requires
        k <= 9,
    ensures
        r == pow10(k as nat),
{
    proof {
        reveal_with_fuel(pow10, 11);
    }
    if k == 0 { 1 }
    else if k == 1 { 10 }
    else if k == 2 { 100 }
    else if k == 3 { 1_000 }
    else if k == 4 { 10_000 }
    else if k == 5 { 100_000 }
    else if k == 6 { 1_000_000 }
    else if k == 7 { 10_000_000 }
    else if k == 8 { 100_000_000 }
    else { 1_000_000_000 }
}

/// The quoted `'HH:MM:SS'` literal of a time of day.
pub open spec fn time_literal_text(t: TimeValue) -> Seq<char> {
    seq!['\''] + hms_text(t.spec_ns() / 1_000_000_000) + seq!['\'']
}

/// Renders a time of day, without sub-second digits; `NULL` when absent.
pub fn format_time(val: &Option<TimeValue>) -> (r: String)
    requires
        match *val {
            Option::Some(t) => t.wf(),
            Option::None => true,
        },
    ensures
        match *val {
            Option::Some(t) => r@ == time_literal_text(t),
            Option::None => r@ == null_text(),
        },
{
    match val {
        Some(t) => {
            let p = pow10_u64(9 - t.scale);
            let ns: u64 = t.increments * p;
            let sec = ns / 1_000_000_000;
            let mut s = String::new();
            push_char(&mut s, '\'');
            push_hms(&mut s, sec);
            push_char(&mut s, '\'');
            proof {
                assert(s@ =~= time_literal_text(*t));
            }
            s
        },
        None => format_string_value(None),
    }
}

/// `YYYY-MM-DD` for the date `days` days after the first of January of
/// `base_year`.
pub open spec fn civil_text(base_year: int, days: int) -> Seq<char> {
    let ymd = civil_of_days(base_year, days);
    zero_pad_left(dec_str(ymd.0 as nat), 4) + "-"@ + zero_pad_left(dec_str(ymd.1 as nat), 2)
        + "-"@ + zero_pad_left(dec_str(ymd.2 as nat), 2)
}

/// Appends `YYYY-MM-DD` for the given day offset.
fn push_civil(s: &mut String, base_year: i32, days: i64)
    requires
        (base_year == 1 && 0 <= days <= 3_652_058) || (base_year == 1900 && -53_690 <= days
            <= 2_958_463),
    ensures
        final(s)@ == old(s)@ + civil_text(base_year as int, days as int),
{
    let (y, mo, d) = civil_from_days(base_year, days);
    push_dec_u64_padded(s, y as u64, 4);
    push_char(s, '-');
    push_dec_u64_padded(s, mo as u64, 2);
    push_char(s, '-');
    push_dec_u64_padded(s, d as u64, 2);
    proof {
        reveal_strlit("-");
        assert("-"@ =~= seq!['-']);
        assert(s@ =~= old(s)@ + civil_text(base_year as int, days as int));
    }
}

/// The quoted `'YYYY-MM-DD'` literal of a date.
pub open spec fn date_literal_text(d: DateValue) -> Seq<char> {
    seq!['\''] + civil_text(1, d.days as int) + seq!['\'']
}

/// Renders a date; `NULL` when absent.
pub fn format_date(val: &Option<DateValue>) -> (r: String)
    requires
        match *val {
            Option::Some(d) => d.wf(),
            Option::None => true,
        },
    ensures
        match *val {
            Option::Some(d) => r@ == date_literal_text(d),
            Option::None => r@ == null_text(),
        },
{
    match val {
        Some(d) => {
            let mut s = String::new();
            push_char(&mut s, '\'');
            push_civil(&mut s, 1, d.days as i64);
            push_char(&mut s, '\'');
            proof {
                assert(s@ =~= date_literal_text(*d));
            }
            s
        },
        None => format_string_value(None),
    }
}

/// The quoted `'YYYY-MM-DD HH:MM:SS'` literal of a legacy datetime: ticks
/// of 1/300 second become milliseconds, whose whole seconds show.
pub open spec fn datetime_literal_text(d: DateTimeValue) -> Seq<char> {
    seq!['\''] + civil_text(1900, d.days as int) + " "@ + hms_text(
        d.seconds_fragments * 1000 / 300 / 1000,
    ) + seq!['\'']
}

/// Renders a legacy datetime; `NULL` when absent.
pub fn format_datetime(val: &Option<DateTimeValue>) -> (r: String)
    requires
        match *val {
            Option::Some(d) => d.wf(),
            Option::None => true,
        },
    ensures
        match *val {
            Option::Some(d) => r@ == datetime_literal_text(d),
            Option::None => r@ == null_text(),
        },
{
    match val {
        Some(d) => {
            let ms: u64 = (d.seconds_fragments as u64) * 1000 / 300;
            let sec = ms / 1000;
            let mut s = String::new();
            push_char(&mut s, '\'');
            push_civil(&mut s, 1900, d.days as i64);
            s.append(" ");
            push_hms(&mut s, sec);
            push_char(&mut s, '\'');
            proof {
                assert(s@ =~= datetime_literal_text(*d));
            }
            s
        },
        None => format_string_value(None),
    }
}

/// The quoted `'YYYY-MM-DD HH:MM:00'` literal of a small datetime: the
/// stored whole minutes since midnight become the hour and minute fields,
/// with no sub-minute resolution.
pub open spec fn small_datetime_literal_text(d: SmallDateTimeValue) -> Seq<char> {
    seq!['\''] + civil_text(1900, d.days as int) + " "@ + hms_text(d.minutes * 60) + seq!['\'']
}

/// Renders a small datetime; `NULL` when absent.
pub fn format_small_datetime(val: &Option<SmallDateTimeValue>) -> (r: String)
    requires
        match *val {
            Option::Some(d) => d.wf(),
            Option::None => true,
        },
    ensures
        match *val {
            Option::Some(d) => r@ == small_datetime_literal_text(d),
            Option::None => r@ == null_text(),
        },
{
    match val {
        Some(d) => {
            let sec: u64 = (d.minutes as u64) * 60;
            let mut s = String::new();
            push_char(&mut s, '\'');
            push_civil(&mut s, 1900, d.days as i64);
            s.append(" ");
            push_hms(&mut s, sec);
            push_char(&mut s, '\'');
            proof {
                assert(s@ =~= small_datetime_literal_text(*d));
            }
            s
        },
        None => format_string_value(None),
    }
}

/// The quoted `'YYYY-MM-DD HH:MM:SS'` literal of a datetime2.
pub open spec fn datetime2_literal_text(d: DateTime2Value) -> Seq<char> {
    seq!['\''] + civil_text(1, d.date.days as int) + " "@ + hms_text(
        d.time.spec_ns() / 1_000_000_000,
    ) + seq!['\'']
}

/// Renders a datetime2; `NULL` when absent.
pub fn format_datetime2(val: &Option<DateTime2Value>) -> (r: String)
    requires
        match *val {
            Option::Some(d) => d.wf(),
            Option::None => true,
        },
    ensures
        match *val {
            Option::Some(d) => r@ == datetime2_literal_text(d),
            Option::None => r@ == null_text(),
        },
{
    match val {
        Some(d) => {
            let p = pow10_u64(9 - d.time.scale);
            let ns: u64 = d.time.increments * p;
            let sec = ns / 1_000_000_000;
            let mut s = String::new();
            push_char(&mut s, '\'');
            push_civil(&mut s, 1, d.date.days as i64);
            s.append(" ");
            push_hms(&mut s, sec);
            push_char(&mut s, '\'');
            proof {
                assert(s@ =~= datetime2_literal_text(*d));
            }
            s
        },
        None => format_string_value(None),
    }
}

/// The time of day of a datetime-with-offset after the stored minute offset
/// is subtracted, wrapped around midnight. Lifting by a large whole number
/// of days keeps the dividend nonnegative without changing the remainder.
pub open spec fn offset_shifted_ns(d: DateTimeOffsetValue) -> int {
    (d.datetime2.time.spec_ns() - d.offset_minutes * 60_000_000_000 + 23_000 * day_ns()) % day_ns()
}

/// The quoted literal of a datetime-with-offset: the date part unchanged,
/// the time of day shifted by the offset, labeled UTC.
pub open spec fn datetime_offset_literal_text(d: DateTimeOffsetValue) -> Seq<char> {
    seq!['\''] + civil_text(1, d.datetime2.date.days as int) + " "@ + hms_text(
        offset_shifted_ns(d) / 1_000_000_000,
    ) + " +0000'"@
}

/// Renders a datetime-with-offset; `NULL` when absent. The minute offset is
/// subtracted from the time of day, which wraps around midnight while the
/// date part stays unchanged, and the result is labeled UTC.
pub fn format_datetime_offset(val: &Option<DateTimeOffsetValue>) -> (r: String)
    requires
        match *val {
            Option::Some(d) => d.wf(),
            Option::None => true,
        },
    ensures
        match *val {
            Option::Some(d) => r@ == datetime_offset_literal_text(d),
            Option::None => r@ == null_text(),
        },
{
    match val {
        Some(d) => {
            let p = pow10_u64(9 - d.datetime2.time.scale);
            let ns: i64 = (d.datetime2.time.increments * p) as i64;
            let lifted: i64 = ns - (d.offset_minutes as i64) * 60_000_000_000
                + 23_000 * 86_400_000_000_000;
            let wrapped: i64 = lifted % 86_400_000_000_000;
            let sec: u64 = (wrapped / 1_000_000_000) as u64;
            let mut s = String::new();
            push_char(&mut s, '\'');
            push_civil(&mut s, 1, d.datetime2.date.days as i64);
            s.append(" ");
            push_hms(&mut s, sec);
            s.append(" +0000'");
            proof {
                assert(s@ =~= datetime_offset_literal_text(*d));
            }
            s
        },
        None => format_string_value(None),
    }
}

/// The destination literal text of one native value.
pub open spec fn column_value_text(v: ColumnValue) -> Seq<char> {
    match v {
        ColumnValue::Binary(Option::Some(bytes)) => "'0x"@ + hex_of(bytes@) + seq!['\''],
        ColumnValue::Bit(Option::Some(b)) => if b {
            "true"@
        } else {
            "false"@
        },
        ColumnValue::TinyInt(Option::Some(n)) => dec_str(n as nat),
        ColumnValue::SmallInt(Option::Some(n)) => dec_str_signed(n as int),
        ColumnValue::Int(Option::Some(n)) => dec_str_signed(n as int),
        ColumnValue::BigInt(Option::Some(n)) => dec_str_signed(n as int),
        ColumnValue::Float(Option::Some(text)) => string_literal_text(text@),
        ColumnValue::Double(Option::Some(text)) => string_literal_text(text@),
        ColumnValue::Guid(Option::Some(text)) => string_literal_text(text@),
        ColumnValue::Numeric(Option::Some(n)) => numeric_literal_text(n),
        ColumnValue::Text(Option::Some(text)) => string_literal_text(text@),
        ColumnValue::Time(Option::Some(t)) => time_literal_text(t),
        ColumnValue::Date(Option::Some(d)) => date_literal_text(d),
        ColumnValue::SmallDateTime(Option::Some(d)) => small_datetime_literal_text(d),
        ColumnValue::DateTime(Option::Some(d)) => datetime_literal_text(d),
        ColumnValue::DateTime2(Option::Some(d)) => datetime2_literal_text(d),
        ColumnValue::DateTimeOffset(Option::Some(d)) => datetime_offset_literal_text(d),
        ColumnValue::Xml(Option::Some(text)) => text@,
        _ => null_text(),
    }
}

/// Renders one native value as destination literal text; null of any type
/// renders as `NULL`.
pub fn format_column_value(item: &ColumnValue) -> (r: String)
    requires
        item.wf(),
    ensures
        r@ == column_value_text(*item),
{
    match item {
        ColumnValue::Binary(Some(bytes)) => {
            let hex = hex_encode(bytes);
            let mut s = String::new();
            s.append("'0x");
            s.append(hex.as_str());
            push_char(&mut s, '\'');
            proof {
                assert(s@ =~= column_value_text(*item));
            }
            s
        },
        ColumnValue::Bit(Some(b)) => {
            let mut s = String::new();
            if *b {
                s.append("true");
            } else {
                s.append("false");
            }
            proof {
                assert(s@ =~= column_value_text(*item));
            }
            s
        },
        ColumnValue::TinyInt(Some(n)) => format_number_value(Some(*n as i64)),
        ColumnValue::SmallInt(Some(n)) => format_number_value(Some(*n as i64)),
        ColumnValue::Int(Some(n)) => format_number_value(Some(*n as i64)),
        ColumnValue::BigInt(Some(n)) => format_number_value(Some(*n)),
        ColumnValue::Float(Some(text)) => format_string_value(Some(text.as_str())),
        ColumnValue::Double(Some(text)) => format_string_value(Some(text.as_str())),
        ColumnValue::Guid(Some(text)) => format_string_value(Some(text.as_str())),
        ColumnValue::Numeric(Some(n)) => format_numeric_value(Some(*n)),
        ColumnValue::Text(Some(text)) => format_string_value(Some(text.as_str())),
        ColumnValue::Time(Some(t)) => format_time(&Some(*t)),
        ColumnValue::Date(Some(d)) => format_date(&Some(*d)),
        ColumnValue::SmallDateTime(Some(d)) => format_small_datetime(&Some(*d)),
        ColumnValue::DateTime(Some(d)) => format_datetime(&Some(*d)),
        ColumnValue::DateTime2(Some(d)) => format_datetime2(&Some(*d)),
        ColumnValue::DateTimeOffset(Some(d)) => format_datetime_offset(&Some(*d)),
        ColumnValue::Xml(Some(text)) => text.clone(),
        _ => format_string_value(None),
    }
}

/// Renders every value of one row, in column order.
pub fn format_row_values(row: &Vec<ColumnValue>) -> (r: Vec<String>)
    requires
        forall|i: int| 0 <= i < row@.len() ==> (#[trigger] row@[i]).wf(),
    ensures
        r@.len() == row@.len(),
        forall|i: int| 0 <= i < row@.len() ==> (#[trigger] r@[i])@ == column_value_text(row@[i]),
{
    let mut out: Vec<String> = Vec::new();
    let mut i: usize = 0;
    while i < row.len()
        invariant
            i <= row@.len(),
            out@.len() == i,
            forall|j: int| 0 <= j < row@.len() ==> (#[trigger] row@[j]).wf(),
            forall|j: int| 0 <= j < i ==> (#[trigger] out@[j])@ == column_value_text(row@[j]),
        decreases row@.len() - i,
    {
        out.push(format_column_value(&row[i]));
        i = i + 1;
    }
    out
}

} // verus!

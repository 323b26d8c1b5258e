//! Timestamps for archive names.
//!
//! An archive is named by its creation time, formatted to second precision
//! as `YYYY-MM-DD_(HH-MM-SS)`. All components are zero-padded to a fixed
//! width, so the names of two snapshots compare lexicographically exactly
//! as their times compare: the name order is the age order, which the
//! retention policy relies on.

use vstd::prelude::*;

verus! {

/// A wall-clock time to second precision, as plain fields.
#[derive(Clone, Copy, PartialEq, Eq, Structural, Debug)]
pub struct Timestamp {
    pub year: u16,
    pub month: u8,
    pub day: u8,
    pub hour: u8,
    pub minute: u8,
    pub second: u8,
}

impl Timestamp {
    /// A well-formed time: each field in its calendar range, and the year
    /// within the four digits the name format carries.
    pub open spec fn wf(self) -> bool {
        &&& self.year <= 9999
        &&& 1 <= self.month <= 12
        &&& 1 <= self.day <= 31
        &&& self.hour <= 23
        &&& self.minute <= 59
        &&& self.second <= 59
    }

    /// Time order on timestamps: years, then months, and so on.
    pub open spec fn lt(self, other: Timestamp) -> bool {
        if self.year != other.year {
            self.year < other.year
        } else if self.month != other.month {
            self.month < other.month
        } else if self.day != other.day {
            self.day < other.day
        } else if self.hour != other.hour {
            self.hour < other.hour
        } else if self.minute != other.minute {
            self.minute < other.minute
        } else {
            self.second < other.second
        }
    }
}

/// The two decimal digits of a value below one hundred.
pub open spec fn two_digits(n: int) -> Seq<u8> {
    seq![(48 + n / 10) as u8, (48 + n % 10) as u8]
}

/// The four decimal digits of a value below ten thousand.
pub open spec fn four_digits(n: int) -> Seq<u8> {
    seq![
        (48 + n / 1000) as u8,
        (48 + (n / 100) % 10) as u8,
        (48 + (n / 10) % 10) as u8,
        (48 + n % 10) as u8,
    ]
}

/// The name stem of a snapshot taken at time `t`:
/// `YYYY-MM-DD_(HH-MM-SS)`.
pub open spec fn stamp_bytes(t: Timestamp) -> Seq<u8> {
    four_digits(t.year as int) + seq![45u8] + two_digits(t.month as int) + seq![45u8]
        + two_digits(t.day as int) + seq![95u8, 40u8] + two_digits(t.hour as int) + seq![45u8]
        + two_digits(t.minute as int) + seq![45u8] + two_digits(t.second as int) + seq![41u8]
}

fn push_two_digits(out: &mut Vec<u8>, n: u8)
    requires
        n <= 99,
    ensures
        final(out)@ == old(out)@ + two_digits(n as int),
{
    out.push(48 + n / 10);
    out.push(48 + n % 10);
    proof {
        assert(final(out)@ =~= old(out)@ + two_digits(n as int));
    }
}

/// Formats a time as an archive name stem.
pub fn format_stamp(t: &Timestamp) -> (r: Vec<u8>)
    requires
        t.wf(),
    ensures
        r@ == stamp_bytes(*t),
{
    let mut r: Vec<u8> = Vec::new();
    r.push(48 + (t.year / 1000) as u8);
    r.push(48 + ((t.year / 100) % 10) as u8);
    r.push(48 + ((t.year / 10) % 10) as u8);
    r.push(48 + (t.year % 10) as u8);
    r.push(45);
    push_two_digits(&mut r, t.month);
    r.push(45);
    push_two_digits(&mut r, t.day);
    r.push(95);
    r.push(40);
    push_two_digits(&mut r, t.hour);
    r.push(45);
    push_two_digits(&mut r, t.minute);
    r.push(45);
    push_two_digits(&mut r, t.second);
    r.push(41);
    proof {
        assert(r@ =~= stamp_bytes(*t));
    }
    r
}

proof fn lemma_two_digits_order(m: int, n: int)
    requires
        0 <= m < n <= 99,
    ensures
        crate::retention::lex_lt(two_digits(m), two_digits(n)),
        two_digits(m).len() == two_digits(n).len(),
{
    let a = two_digits(m);
    let b = two_digits(n);
    assert(a.len() == 2 && b.len() == 2);
    vstd::arithmetic::div_mod::lemma_div_is_ordered(m, n, 10);
    vstd::arithmetic::div_mod::lemma_div_is_ordered(0, m, 10);
    vstd::arithmetic::div_mod::lemma_div_is_ordered(n, 99, 10);
    assert(0 <= m / 10 && n / 10 <= 9);
    if m / 10 < n / 10 {
        assert(a[0] < b[0]);
        assert(crate::retention::lex_lt(a, b));
    } else {
        assert(m / 10 == n / 10);
        vstd::arithmetic::div_mod::lemma_fundamental_div_mod(m, 10);
        vstd::arithmetic::div_mod::lemma_fundamental_div_mod(n, 10);
        assert(m % 10 < n % 10);
        assert(a[0] == b[0]);
        assert(a[1] < b[1]);
        assert(a.drop_first().len() == 1 && b.drop_first().len() == 1);
        assert(a.drop_first()[0] == a[1] && b.drop_first()[0] == b[1]);
        assert(crate::retention::lex_lt(a.drop_first(), b.drop_first()));
        assert(crate::retention::lex_lt(a, b));
    }
}

proof fn lemma_four_digits_split(n: int)
    requires
        0 <= n <= 9999,
    ensures
        four_digits(n) == two_digits(n / 100) + two_digits(n % 100),
{
    vstd::arithmetic::div_mod::lemma_div_denominator(n, 100, 10);
    assert((n / 100) / 10 == n / 1000);
    vstd::arithmetic::div_mod::lemma_mod_breakdown(n, 10, 10);
    assert(n % 100 == 10 * ((n / 10) % 10) + n % 10);
    vstd::arithmetic::div_mod::lemma_mod_mod(n, 10, 10);
    assert((n % 100) % 10 == n % 10);
    assert(0 <= n % 10 < 10) by {
        vstd::arithmetic::div_mod::lemma_mod_bound(n, 10);
    }
    assert(0 <= (n / 10) % 10 < 10) by {
        vstd::arithmetic::div_mod::lemma_mod_bound(n / 10, 10);
        vstd::arithmetic::div_mod::lemma_div_is_ordered(0, n, 10);
    }
    assert((n % 100) / 10 == (n / 10) % 10) by {
        vstd::arithmetic::div_mod::lemma_fundamental_div_mod_converse_div(
            n % 100,
            10,
            (n / 10) % 10,
            n % 10,
        );
    }
    assert(four_digits(n) =~= two_digits(n / 100) + two_digits(n % 100));
}

proof fn lemma_four_digits_order(m: int, n: int)
    requires
        0 <= m < n <= 9999,
    ensures
        crate::retention::lex_lt(four_digits(m), four_digits(n)),
        four_digits(m).len() == four_digits(n).len(),
{
    lemma_four_digits_split(m);
    lemma_four_digits_split(n);
    vstd::arithmetic::div_mod::lemma_div_is_ordered(m, n, 100);
    vstd::arithmetic::div_mod::lemma_div_is_ordered(0, m, 100);
    vstd::arithmetic::div_mod::lemma_div_is_ordered(n, 9999, 100);
    if m / 100 < n / 100 {
        lemma_two_digits_order(m / 100, n / 100);
        crate::retention::lemma_lex_concat_lt(
            two_digits(m / 100),
            two_digits(n / 100),
            two_digits(m % 100),
            two_digits(n % 100),
        );
    } else {
        assert(m / 100 == n / 100);
        vstd::arithmetic::div_mod::lemma_fundamental_div_mod(m, 100);
        vstd::arithmetic::div_mod::lemma_fundamental_div_mod(n, 100);
        vstd::arithmetic::div_mod::lemma_mod_bound(m, 100);
        vstd::arithmetic::div_mod::lemma_mod_bound(n, 100);
        assert(m % 100 < n % 100);
        lemma_two_digits_order(m % 100, n % 100);
        crate::retention::lemma_lex_concat_eq_prefix(
            two_digits(m / 100),
            two_digits(m % 100),
            two_digits(n % 100),
        );
    }
}

/// Name order is age order: the formatted name of an earlier time compares
/// lexicographically below the formatted name of a later one, so the
/// backup directory's name order reproduces the creation order.
pub proof fn lemma_stamp_order(a: Timestamp, b: Timestamp)
    requires
        a.wf(),
        b.wf(),
        a.lt(b),
    ensures
        crate::retention::lex_lt(stamp_bytes(a), stamp_bytes(b)),
{
    let ta = seq![45u8] + two_digits(a.month as int) + seq![45u8] + two_digits(a.day as int)
        + seq![95u8, 40u8] + two_digits(a.hour as int) + seq![45u8] + two_digits(
        a.minute as int,
    ) + seq![45u8] + two_digits(a.second as int) + seq![41u8];
    let tb = seq![45u8] + two_digits(b.month as int) + seq![45u8] + two_digits(b.day as int)
        + seq![95u8, 40u8] + two_digits(b.hour as int) + seq![45u8] + two_digits(
        b.minute as int,
    ) + seq![45u8] + two_digits(b.second as int) + seq![41u8];
    assert(stamp_bytes(a) =~= four_digits(a.year as int) + ta);
    assert(stamp_bytes(b) =~= four_digits(b.year as int) + tb);
    if a.year != b.year {
        lemma_four_digits_order(a.year as int, b.year as int);
        crate::retention::lemma_lex_concat_lt(four_digits(a.year as int), four_digits(b.year as int), ta, tb);
    } else {
        let p1 = four_digits(a.year as int) + seq![45u8];
        let ma = two_digits(a.month as int) + (seq![45u8] + two_digits(a.day as int) + seq![
            95u8,
            40u8,
        ] + two_digits(a.hour as int) + seq![45u8] + two_digits(a.minute as int) + seq![45u8]
            + two_digits(a.second as int) + seq![41u8]);
        let mb = two_digits(b.month as int) + (seq![45u8] + two_digits(b.day as int) + seq![
            95u8,
            40u8,
        ] + two_digits(b.hour as int) + seq![45u8] + two_digits(b.minute as int) + seq![45u8]
            + two_digits(b.second as int) + seq![41u8]);
        assert(stamp_bytes(a) =~= p1 + ma);
        assert(stamp_bytes(b) =~= p1 + mb);
        crate::retention::lemma_lex_concat_eq_prefix(p1, ma, mb);
        if a.month != b.month {
            lemma_two_digits_order(a.month as int, b.month as int);
            crate::retention::lemma_lex_concat_lt(
                two_digits(a.month as int),
                two_digits(b.month as int),
                ma.skip(2),
                mb.skip(2),
            );
            assert(ma =~= two_digits(a.month as int) + ma.skip(2));
            assert(mb =~= two_digits(b.month as int) + mb.skip(2));
        } else {
            let p2 = two_digits(a.month as int) + seq![45u8];
            let da = two_digits(a.day as int) + (seq![95u8, 40u8] + two_digits(a.hour as int)
                + seq![45u8] + two_digits(a.minute as int) + seq![45u8] + two_digits(
                a.second as int,
            ) + seq![41u8]);
            let db = two_digits(b.day as int) + (seq![95u8, 40u8] + two_digits(b.hour as int)
                + seq![45u8] + two_digits(b.minute as int) + seq![45u8] + two_digits(
                b.second as int,
            ) + seq![41u8]);
            assert(ma =~= p2 + da);
            assert(mb =~= p2 + db);
            crate::retention::lemma_lex_concat_eq_prefix(p2, da, db);
            if a.day != b.day {
                lemma_two_digits_order(a.day as int, b.day as int);
                crate::retention::lemma_lex_concat_lt(
                    two_digits(a.day as int),
                    two_digits(b.day as int),
                    da.skip(2),
                    db.skip(2),
                );
                assert(da =~= two_digits(a.day as int) + da.skip(2));
                assert(db =~= two_digits(b.day as int) + db.skip(2));
            } else {
                let p3 = two_digits(a.day as int) + seq![95u8, 40u8];
                let ha = two_digits(a.hour as int) + (seq![45u8] + two_digits(a.minute as int)
                    + seq![45u8] + two_digits(a.second as int) + seq![41u8]);
                let hb = two_digits(b.hour as int) + (seq![45u8] + two_digits(b.minute as int)
                    + seq![45u8] + two_digits(b.second as int) + seq![41u8]);
                assert(da =~= p3 + ha);
                assert(db =~= p3 + hb);
                crate::retention::lemma_lex_concat_eq_prefix(p3, ha, hb);
                if a.hour != b.hour {
                    lemma_two_digits_order(a.hour as int, b.hour as int);
                    crate::retention::lemma_lex_concat_lt(
                        two_digits(a.hour as int),
                        two_digits(b.hour as int),
                        ha.skip(2),
                        hb.skip(2),
                    );
                    assert(ha =~= two_digits(a.hour as int) + ha.skip(2));
                    assert(hb =~= two_digits(b.hour as int) + hb.skip(2));
                } else {
                    let p4 = two_digits(a.hour as int) + seq![45u8];
                    let mia = two_digits(a.minute as int) + (seq![45u8] + two_digits(
                        a.second as int,
                    ) + seq![41u8]);
                    let mib = two_digits(b.minute as int) + (seq![45u8] + two_digits(
                        b.second as int,
                    ) + seq![41u8]);
                    assert(ha =~= p4 + mia);
                    assert(hb =~= p4 + mib);
                    crate::retention::lemma_lex_concat_eq_prefix(p4, mia, mib);
                    if a.minute != b.minute {
                        lemma_two_digits_order(a.minute as int, b.minute as int);
                        crate::retention::lemma_lex_concat_lt(
                            two_digits(a.minute as int),
                            two_digits(b.minute as int),
                            mia.skip(2),
                            mib.skip(2),
                        );
                        assert(mia =~= two_digits(a.minute as int) + mia.skip(2));
                        assert(mib =~= two_digits(b.minute as int) + mib.skip(2));
                    } else {
                        let p5 = two_digits(a.minute as int) + seq![45u8];
                        let sa = two_digits(a.second as int) + seq![41u8];
                        let sb = two_digits(b.second as int) + seq![41u8];
                        assert(mia =~= p5 + sa);
                        assert(mib =~= p5 + sb);
                        crate::retention::lemma_lex_concat_eq_prefix(p5, sa, sb);
                        assert(a.second < b.second);
                        lemma_two_digits_order(a.second as int, b.second as int);
                        crate::retention::lemma_lex_concat_lt(
                            two_digits(a.second as int),
                            two_digits(b.second as int),
                            seq![41u8],
                            seq![41u8],
                        );
                    }
                }
            }
        }
    }
}

/// Relies on chrono::Local::now and the chrono::Datelike / chrono::Timelike
/// accessors for the local wall-clock time: month is 1 to 12, day 1 to 31,
/// hour 0 to 23, minute and second 0 to 59. The year is returned as is.
#[verifier::external_body]
fn local_clock_fields() -> (r: (i32, u32, u32, u32, u32, u32))
    ensures
        1 <= r.1 <= 12,
        1 <= r.2 <= 31,
        r.3 <= 23,
        r.4 <= 59,
        r.5 <= 59,
{
    let now = chrono::Local::now();
    (
        chrono::Datelike::year(&now),
        chrono::Datelike::month(&now),
        chrono::Datelike::day(&now),
        chrono::Timelike::hour(&now),
        chrono::Timelike::minute(&now),
        chrono::Timelike::second(&now),
    )
}

/// Packs six clock fields into a timestamp. Exactly the fields that form
/// a well-formed time are accepted: a year within the four digits an
/// archive name carries, and calendar-range month, day, hour, minute and
/// second.
pub fn timestamp_from_fields(
    year: i32,
    month: u32,
    day: u32,
    hour: u32,
    minute: u32,
    second: u32,
) -> (r: Option<Timestamp>)
    ensures
        r is Some <==> {
            &&& 0 <= year <= 9999
            &&& 1 <= month <= 12
            &&& 1 <= day <= 31
            &&& hour <= 23
            &&& minute <= 59
            &&& second <= 59
        },
        r matches Some(t) ==> {
            &&& t.year == year
            &&& t.month == month
            &&& t.day == day
            &&& t.hour == hour
            &&& t.minute == minute
            &&& t.second == second
            &&& t.wf()
        },
{
    if year < 0 || year > 9999 {
        return None;
    }
    if month < 1 || month > 12 || day < 1 || day > 31 {
        return None;
    }
    if hour > 23 || minute > 59 || second > 59 {
        return None;
    }
    Some(
        Timestamp {
            year: year as u16,
            month: month as u8,
            day: day as u8,
            hour: hour as u8,
            minute: minute as u8,
            second: second as u8,
        },
    )
}

/// Reads the local wall clock as a well-formed timestamp. `None` only for a
/// clock year outside the four digits an archive name carries, since the
/// wrapper already keeps the other fields in range.
pub fn current_timestamp() -> (r: Option<Timestamp>)
    ensures
        r matches Some(t) ==> t.wf(),
{
    let (year, month, day, hour, minute, second) = local_clock_fields();
    timestamp_from_fields(year, month, day, hour, minute, second)
}

} // verus!

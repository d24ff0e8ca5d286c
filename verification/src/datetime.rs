//! Calendar arithmetic for the fallback working-directory guess: a count of
//! days since the Unix epoch converted to a civil date, and the `YYYY-MM-DD`
//! string built from it. The date is taken at a fixed UTC+8 offset,
//! deliberately independent of the host's time zone.

use vstd::prelude::*;

use crate::text::dec_digits;
use crate::text::u64_dec;

verus! {

/// `a - b`, clamped at zero.
pub open spec fn sub_or_zero(a: int, b: int) -> int {
    if a >= b {
        a - b
    } else {
        0
    }
}

/// Civil date (year, month, day) for a count of days since 1970-01-01,
/// following the era-based conversion over 400-year cycles. The two inner
/// subtractions are clamped at zero; for a genuine day count the clamp never
/// fires.
pub open spec fn civil_from_days(days: int) -> (int, int, int) {
    let z = days + 719468;
    let era = z / 146097;
    let doe = z % 146097;
    let yoe = (doe - doe / 1460 + doe / 36524 - doe / 146096) / 365;
    let y = yoe + era * 400;
    let doy = sub_or_zero(doe, 365 * yoe + yoe / 4 - yoe / 100);
    let mp = (5 * doy + 2) / 153;
    let d = sub_or_zero(doy, (153 * mp + 2) / 5) + 1;
    let m = if mp < 10 {
        mp + 3
    } else {
        mp - 9
    };
    ((if m <= 2 {
        y + 1
    } else {
        y
    }), m, d)
}

/// Convert days since 1970-01-01 to a civil (year, month, day).
pub fn days_to_date(days: u64) -> (r: (u64, u64, u64))
    requires
        days <= u64::MAX - 719468,
    ensures
        (r.0 as int, r.1 as int, r.2 as int) == civil_from_days(days as int),
{
    let z = days + 719468;
    let era = z / 146097;
    let doe = z % 146097;
    let a = doe / 1460;
    let b = doe / 36524;
    let c = doe / 146096;
    proof {
        assert(a <= doe && b <= doe && c <= 1) by (nonlinear_arith)
            requires
                a == doe as int / 1460,
                b == doe as int / 36524,
                c == doe as int / 146096,
                0 <= doe < 146097,
        ;
        assert(doe >= 1 ==> a <= doe - 1) by (nonlinear_arith)
            requires
                a == doe as int / 1460,
                0 <= doe < 146097,
        ;
    }
    let yoe = (doe - a + b - c) / 365;
    proof {
        assert(yoe <= 401) by (nonlinear_arith)
            requires
                yoe == (doe - a + b - c) as int / 365,
                0 <= doe - a + b - c < 146101,
        ;
        assert(era <= u64::MAX as int / 146097) by (nonlinear_arith)
            requires
                era == z as int / 146097,
                0 <= z <= u64::MAX,
        ;
        assert(era * 400 <= (u64::MAX as int / 146097) * 400) by (nonlinear_arith)
            requires
                0 <= era <= u64::MAX as int / 146097,
        ;
    }
    let y = yoe + era * 400;
    let t = 365 * yoe + yoe / 4 - yoe / 100;
    let doy = if doe >= t {
        doe - t
    } else {
        0
    };
    let mp = (5 * doy + 2) / 153;
    proof {
        assert(mp <= (5 * 146096 + 2) / 153) by (nonlinear_arith)
            requires
                mp == (5 * doy + 2) as int / 153,
                0 <= doy <= 146096,
        ;
    }
    let u = (153 * mp + 2) / 5;
    let d = (if doy >= u {
        doy - u
    } else {
        0
    }) + 1;
    let m = if mp < 10 {
        mp + 3
    } else {
        mp - 9
    };
    let yy = if m <= 2 {
        y + 1
    } else {
        y
    };
    (yy, m, d)
}

/// A run of `k` zero characters.
pub open spec fn zeros(k: int) -> Seq<char>
    decreases k,
{
    if k <= 0 {
        Seq::empty()
    } else {
        seq!['0'] + zeros(k - 1)
    }
}

pub proof fn lemma_zeros_len(k: int)
    ensures
        zeros(k).len() == (if k >= 0 {
            k
        } else {
            0
        }),
    decreases k,
{
    if k > 0 {
        lemma_zeros_len(k - 1);
    }
}

/// Decimal rendering of `n`, left-padded with zeros to at least `w`
/// characters.
pub open spec fn pad_v(n: nat, w: int) -> Seq<char> {
    let d = dec_digits(n);
    if d.len() >= w {
        d
    } else {
        zeros(w - d.len()) + d
    }
}

/// Zero-padded decimal rendering.
#[verifier::loop_isolation(false)]
pub fn pad_dec(n: u64, width: usize) -> (r: String)
    ensures
        r@ == pad_v(n as nat, width as int),
{
    let mut s = u64_dec(n);
    let ghost dlen = dec_digits(n as nat).len();
    let ghost mut j: int = 0;
    proof {
        lemma_zeros_len(0);
        assert(s@ =~= zeros(0) + dec_digits(n as nat));
    }
    while s.as_str().unicode_len() < width
        invariant
            j >= 0,
            s@ =~= zeros(j) + dec_digits(n as nat),
            s@.len() == j + dlen,
            dlen >= width ==> j == 0,
            dlen < width ==> j + dlen <= width,
        decreases width - s@.len(),
    {
        let mut t = String::from_str("0");
        t.append(s.as_str());
        s = t;
        proof {
            reveal_strlit("0");
            assert(s@ =~= zeros(j + 1) + dec_digits(n as nat));
            lemma_zeros_len(j + 1);
            j = j + 1;
        }
    }
    proof {
        if dlen < width {
            assert(s@.len() == width);
            assert(s@ =~= pad_v(n as nat, width as int));
        } else {
            assert(s@ =~= pad_v(n as nat, width as int));
        }
    }
    s
}

/// The `YYYY-MM-DD` rendering of a civil date (more digits are used when a
/// component outgrows its usual width).
pub open spec fn date_string_v(y: int, m: int, d: int) -> Seq<char> {
    pad_v(y as nat, 4) + "-"@ + pad_v(m as nat, 2) + "-"@ + pad_v(d as nat, 2)
}

/// Render a civil date as `YYYY-MM-DD`.
pub fn date_string(y: u64, m: u64, d: u64) -> (r: String)
    ensures
        r@ == date_string_v(y as int, m as int, d as int),
{
    let mut s = pad_dec(y, 4);
    s.append("-");
    s.append(pad_dec(m, 2).as_str());
    s.append("-");
    s.append(pad_dec(d, 2).as_str());
    proof {
        assert(s@ =~= date_string_v(y as int, m as int, d as int));
    }
    s
}

/// The date string for a given count of seconds since the Unix epoch, at a
/// fixed UTC+8 offset (the shift saturates at the far end of `u64`, where no
/// real clock reaches).
pub open spec fn today_string_v(secs: u64) -> Seq<char> {
    let shifted: int = if secs + 28800 <= u64::MAX {
        secs + 28800
    } else {
        u64::MAX as int
    };
    let days = shifted / 86400;
    let (y, m, d) = civil_from_days(days);
    date_string_v(y, m, d)
}

/// Build the date string for a given clock reading.
pub fn today_from_secs(secs: u64) -> (r: String)
    ensures
        r@ == today_string_v(secs),
{
    let shifted = secs.saturating_add(28800);
    let days = shifted / 86400;
    proof {
        assert(days <= u64::MAX as int / 86400) by (nonlinear_arith)
            requires
                days == shifted as int / 86400,
                0 <= shifted <= u64::MAX,
        ;
    }
    let (y, m, d) = days_to_date(days);
    date_string(y, m, d)
}

/// Relies on std::time::SystemTime::now and duration_since(UNIX_EPOCH): the
/// seconds of the current wall clock since the Unix epoch, or zero when the
/// clock reads earlier than the epoch. Nothing can be promised of a clock's
/// value.
#[verifier::external_body]
fn now_unix_secs() -> u64 {
    match std::time::SystemTime::now().duration_since(std::time::UNIX_EPOCH) {
        Ok(d) => d.as_secs(),
        Err(_) => 0,
    }
}

/// Today's date as a `YYYY-MM-DD` string at a fixed UTC+8 offset. The value
/// depends on the wall clock; whatever the clock reads, the result is the
/// date string for that reading.
pub fn chrono_today() -> (r: String)
    ensures
        exists|secs: u64| r@ == today_string_v(secs),
{
    let secs = now_unix_secs();
    let r = today_from_secs(secs);
    proof {
        assert(r@ == today_string_v(secs));
    }
    r
}

} // verus!

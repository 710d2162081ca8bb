//! The bank API client's logic: request paths, the status decision on every
//! response, and the per-account transaction window in calendar dates.

use vstd::prelude::*;
use crate::text::{dec_str_pad, fmt_pad2, fmt_pad4};

verus! {

/// The bank API's base URL.
pub const BASE_URL: &'static str = "https://openapi.investec.com";

/// The accounts endpoint's path under the base URL.
pub const ACCOUNTS_PATH: &'static str = "za/pb/v1/accounts";

/// A failed bank API request: the response status with its body.
#[derive(Debug)]
pub struct ApiError {
    pub status: u16,
    pub body: String,
}

/// What a response's status decides: the body is handed on exactly on a
/// success status; on any other, status and body are carried back.
pub fn interpret_api_response(status: u16, body: String) -> (r: Result<String, ApiError>)
    ensures
        r is Ok <==> (200 <= status < 300),
        r matches Ok(b) ==> b@ == body@,
        r matches Err(e) ==> e.status == status && e.body@ == body@,
{
    if 200 <= status && status < 300 {
        Ok(body)
    } else {
        Err(ApiError { status, body })
    }
}

/// The balance endpoint's path for one account.
pub fn balance_path(account_id: &str) -> (r: String)
    ensures
        r@ == "za/pb/v1/accounts/"@ + account_id@ + "/balance"@,
{
    let mut p = String::new();
    p.append("za/pb/v1/accounts/");
    p.append(account_id);
    p.append("/balance");
    proof {
        assert(p@ =~= "za/pb/v1/accounts/"@ + account_id@ + "/balance"@);
    }
    p
}

/// The transactions endpoint's path for one account.
pub fn transactions_path(account_id: &str) -> (r: String)
    ensures
        r@ == "za/pb/v1/accounts/"@ + account_id@ + "/transactions"@,
{
    let mut p = String::new();
    p.append("za/pb/v1/accounts/");
    p.append(account_id);
    p.append("/transactions");
    proof {
        assert(p@ =~= "za/pb/v1/accounts/"@ + account_id@ + "/transactions"@);
    }
    p
}

/// A leap year of the proleptic Gregorian calendar.
pub open spec fn is_leap_year(y: int) -> bool {
    (y % 4 == 0 && y % 100 != 0) || y % 400 == 0
}

/// How many days the month has.
pub open spec fn days_in_month(y: int, m: int) -> int {
    if m == 2 {
        if is_leap_year(y) {
            29
        } else {
            28
        }
    } else if m == 4 || m == 6 || m == 9 || m == 11 {
        30
    } else {
        31
    }
}

/// A calendar date the window functions accept: within the four-digit years,
/// with one day of headroom for the next-day step.
pub open spec fn valid_date(y: int, m: int, d: int) -> bool {
    1 <= y <= 9998 && 1 <= m <= 12 && 1 <= d <= days_in_month(y, m)
}

/// The calendar day after `(y, m, d)`.
pub open spec fn spec_next_day(y: int, m: int, d: int) -> (int, int, int) {
    if d < days_in_month(y, m) {
        (y, m, d + 1)
    } else if m < 12 {
        (y, m + 1, 1)
    } else {
        (y + 1, 1, 1)
    }
}

/// A date rendered as `YYYY-MM-DD`.
pub open spec fn spec_format_date(y: int, m: int, d: int) -> Seq<char> {
    dec_str_pad(y as nat, 4) + seq!['-'] + dec_str_pad(m as nat, 2) + seq!['-'] + dec_str_pad(
        d as nat,
        2,
    )
}

/// The calendar day after the given date.
pub fn next_day(y: u64, m: u64, d: u64) -> (r: (u64, u64, u64))
    requires
        valid_date(y as int, m as int, d as int),
    ensures
        (r.0 as int, r.1 as int, r.2 as int) == spec_next_day(y as int, m as int, d as int),
{
    let dim: u64 = if m == 2 {
        let leap = (y % 4 == 0 && y % 100 != 0) || y % 400 == 0;
        if leap {
            29
        } else {
            28
        }
    } else if m == 4 || m == 6 || m == 9 || m == 11 {
        30
    } else {
        31
    };
    if d < dim {
        (y, m, d + 1)
    } else if m < 12 {
        (y, m + 1, 1)
    } else {
        (y + 1, 1, 1)
    }
}

/// Renders a date as `YYYY-MM-DD`.
pub fn format_date(y: u64, m: u64, d: u64) -> (r: String)
    requires
        y <= 9999,
        m <= 99,
        d <= 99,
    ensures
        r@ == spec_format_date(y as int, m as int, d as int),
{
    let mut s = fmt_pad4(y);
    proof {
        reveal_strlit("-");
    }
    s.append("-");
    let mm = fmt_pad2(m);
    s.append(mm.as_str());
    s.append("-");
    let dd = fmt_pad2(d);
    s.append(dd.as_str());
    proof {
        assert(s@ =~= spec_format_date(y as int, m as int, d as int));
    }
    s
}

/// The orchestrator's transaction window for a day: from that day to the
/// next, both as `YYYY-MM-DD`.
pub fn sync_window(y: u64, m: u64, d: u64) -> (r: (String, String))
    requires
        valid_date(y as int, m as int, d as int),
    ensures
        r.0@ == spec_format_date(y as int, m as int, d as int),
        ({
            let n = spec_next_day(y as int, m as int, d as int);
            r.1@ == spec_format_date(n.0, n.1, n.2)
        }),
{
    let from = format_date(y, m, d);
    let (ny, nm, nd) = next_day(y, m, d);
    let to = format_date(ny, nm, nd);
    (from, to)
}

/// Relies on chrono's Utc::now, date_naive and the Datelike accessors: the
/// current UTC calendar date, with the month in 1..=12 and the day in 1..=31
/// as chrono documents; the year and which date it is depend on the clock.
#[verifier::external_body]
pub fn today_utc() -> (r: (i64, u64, u64))
    ensures
        1 <= r.1 <= 12,
        1 <= r.2 <= 31,
{
    let d = chrono::Utc::now().date_naive();
    (
        chrono::Datelike::year(&d) as i64,
        chrono::Datelike::month(&d) as u64,
        chrono::Datelike::day(&d) as u64,
    )
}

/// Today's transaction window: from today (UTC) to tomorrow, both as
/// `YYYY-MM-DD`; nothing when the clock sits outside the four-digit years.
pub fn sync_window_today() -> (r: Option<(String, String)>)
    ensures
        r matches Some(w) ==> exists|y: int, m: int, d: int|
            valid_date(y, m, d) && w.0@ == spec_format_date(y, m, d) && ({
                let n = #[trigger] spec_next_day(y, m, d);
                w.1@ == spec_format_date(n.0, n.1, n.2)
            }),
{
    let (y, m, d) = today_utc();
    if y < 1 || y > 9998 {
        return None;
    }
    let yu: u64 = y as u64;
    let dim: u64 = if m == 2 {
        let leap = (yu % 4 == 0 && yu % 100 != 0) || yu % 400 == 0;
        if leap {
            29
        } else {
            28
        }
    } else if m == 4 || m == 6 || m == 9 || m == 11 {
        30
    } else {
        31
    };
    if d > dim {
        return None;
    }
    let w = sync_window(yu, m, d);
    proof {
        assert(valid_date(yu as int, m as int, d as int));
    }
    Some(w)
}

} // verus!

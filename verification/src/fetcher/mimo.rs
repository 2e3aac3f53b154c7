//! Xiaomi MiMo Token Plan usage.
//!
//! The usage endpoint authenticates with the browser login cookie and has
//! three outcomes (`MimoFetch`): not configured, failed (network or HTTP
//! other than 401/403), or data — where an expired cookie or an API error
//! becomes a placeholder line saying so, instead of N/A.
//!
//! Display rules: the entries `plan_total_token` and
//! `compensation_total_token` get Chinese labels (other names are shown as
//! they are); the detail line shows the used percentage, and for the plan
//! entry the countdown to the end of the billing period, whose end comes
//! from the detail endpoint as Beijing time `yyyy-MM-dd HH:mm:ss`.
use vstd::prelude::*;

use crate::data::{
    items_view, opt_view, MimoFetch, MimoFetchView, MimoResult, QuotaItem, QuotaItemView,
    QuotaResultView, HUNDRED_BITS, ZERO_BITS,
};
use crate::text::{
    chars_eq, chars_of, i64_text, is_empty_string, parse_i64, parse_i64_at, push_all, push_str,
    signed_decimal, split_on, split_pieces, string_of, trim, trimmed,
};

verus! {

// ───────────────────────── labels and texts ─────────────────────────

/// The label of a usage entry: the Chinese name of the two known entries,
/// otherwise the entry's own name.
pub open spec fn mimo_label_spec(name: Seq<char>) -> Seq<char> {
    if name == "plan_total_token"@ {
        "Token Plan 套餐"@
    } else if name == "compensation_total_token"@ {
        "补偿积分"@
    } else {
        name
    }
}

/// The label of the usage entry named `name`.
pub fn mimo_label(name: &str) -> (r: String)
    ensures
        r@ == mimo_label_spec(name@),
{
    let n = chars_of(name);
    let plan = chars_of("plan_total_token");
    let comp = chars_of("compensation_total_token");
    if chars_eq(&n, &plan) {
        String::from_str("Token Plan 套餐")
    } else if chars_eq(&n, &comp) {
        String::from_str("补偿积分")
    } else {
        String::from_str(name)
    }
}

/// The detail line of a usage entry: `已用 {pct}%`, followed by
/// ` · {hint}` for the plan entry when a non-empty reset hint is known
/// (the compensation credit does not reset with the plan period).
pub open spec fn mimo_detail_spec(name: Seq<char>, pct: Seq<char>, hint: Option<Seq<char>>) -> Seq<
    char,
> {
    let base = "已用 "@ + pct + "%"@;
    match hint {
        Some(h) => if name == "plan_total_token"@ && h.len() > 0 {
            base + " · "@ + h
        } else {
            base
        },
        None => base,
    }
}

/// The detail line of a usage entry; `percent_text` is the used percentage
/// already written with one decimal.
pub fn mimo_detail(name: &str, percent_text: &str, reset_hint: &Option<String>) -> (r: String)
    ensures
        r@ == mimo_detail_spec(name@, percent_text@, opt_view(*reset_hint)),
{
    let mut out = chars_of("已用 ");
    push_str(&mut out, percent_text);
    push_str(&mut out, "%");
    let n = chars_of(name);
    let plan = chars_of("plan_total_token");
    match reset_hint {
        Some(h) => {
            if chars_eq(&n, &plan) && !is_empty_string(h) {
                push_str(&mut out, " · ");
                push_str(&mut out, h.as_str());
            }
        },
        None => {},
    }
    string_of(&out)
}

/// The quota line of one usage entry. The amounts are given as bit patterns
/// and their compact texts (`used_text`, `limit_text`, such as `1.2B`);
/// the unit is `Credits` and the right-hand text is `{used} / {limit}`.
pub fn to_quota_item(
    name: &str,
    used_bits: u64,
    limit_bits: u64,
    used_text: &str,
    limit_text: &str,
    percent_text: &str,
    reset_hint: &Option<String>,
) -> (r: QuotaItem)
    ensures
        r@ == (QuotaItemView {
            label: mimo_label_spec(name@),
            display_value: Some(used_text@ + " / "@ + limit_text@),
            used_bits: used_bits,
            total_bits: limit_bits,
            unit: "Credits"@,
            detail: mimo_detail_spec(name@, percent_text@, opt_view(*reset_hint)),
        }),
{
    let mut dv = chars_of(used_text);
    push_str(&mut dv, " / ");
    push_str(&mut dv, limit_text);
    QuotaItem {
        label: mimo_label(name),
        display_value: Some(string_of(&dv)),
        used_bits,
        total_bits: limit_bits,
        unit: String::from_str("Credits"),
        detail: mimo_detail(name, percent_text, reset_hint),
    }
}

// ───────────────────────── results ─────────────────────────

/// The MiMo card with the given quota lines.
pub open spec fn mimo_card(items: Seq<QuotaItemView>) -> QuotaResultView {
    QuotaResultView {
        name: "MiMo"@,
        kind: "quota"@,
        icon: "🧡"@,
        color: "#FF6900"@,
        items: items,
    }
}

/// The single line shown when there is no usage to show: the plan label,
/// 0 of 100 Credits, and `msg` as detail.
pub open spec fn placeholder_line(msg: Seq<char>) -> QuotaItemView {
    QuotaItemView {
        label: "Token Plan 套餐"@,
        display_value: None,
        used_bits: ZERO_BITS,
        total_bits: HUNDRED_BITS,
        unit: "Credits"@,
        detail: msg,
    }
}

/// The MiMo card with one placeholder line carrying `msg` (expired cookie,
/// API error, or no data).
pub fn placeholder_result(msg: String) -> (r: MimoResult)
    ensures
        r@ == mimo_card(seq![placeholder_line(msg@)]),
{
    let mut items: Vec<QuotaItem> = Vec::new();
    items.push(
        QuotaItem {
            label: String::from_str("Token Plan 套餐"),
            display_value: None,
            used_bits: ZERO_BITS,
            total_bits: HUNDRED_BITS,
            unit: String::from_str("Credits"),
            detail: msg,
        },
    );
    let r = MimoResult {
        name: String::from_str("MiMo"),
        kind: String::from_str("quota"),
        icon: String::from_str("🧡"),
        color: String::from_str("#FF6900"),
        items,
    };
    assert(items_view(r.items@) =~= seq![placeholder_line(msg@)]);
    r
}

/// The outcome with the given quota lines.
pub fn mimo_fetched(items: Vec<QuotaItem>) -> (r: MimoFetch)
    ensures
        r@ == MimoFetchView::Fetched(mimo_card(items_view(items@))),
{
    MimoFetch::Fetched(
        MimoResult {
            name: String::from_str("MiMo"),
            kind: String::from_str("quota"),
            icon: String::from_str("🧡"),
            color: String::from_str("#FF6900"),
            items,
        },
    )
}

/// The cookie to send: the trimmed setting, or `None` when it is blank and
/// MiMo is not configured.
pub fn request_cookie(cookie: &str) -> (r: Option<String>)
    ensures
        r is None <==> trim(cookie@).len() == 0,
        r matches Some(c) ==> c@ == trim(cookie@),
{
    let v = chars_of(cookie);
    let t = trimmed(&v);
    if t.len() == 0 {
        None
    } else {
        Some(string_of(&t))
    }
}

/// The placeholder text for an expired cookie (HTTP 401 or 403).
pub open spec fn expired_message() -> Seq<char> {
    "Cookie 已失效 · 请在设置中重新粘贴"@
}

/// What an HTTP status decides on its own: nothing for a success (2xx);
/// the expired-cookie placeholder for 401 and 403; failure otherwise.
pub open spec fn http_outcome_spec(status: u16) -> Option<MimoFetchView> {
    if 200 <= status <= 299 {
        None
    } else if status == 401 || status == 403 {
        Some(MimoFetchView::Fetched(mimo_card(seq![placeholder_line(expired_message())])))
    } else {
        Some(MimoFetchView::Failed)
    }
}

/// The view of an optional outcome.
pub open spec fn opt_fetch_view(o: Option<MimoFetch>) -> Option<MimoFetchView> {
    match o {
        Some(f) => Some(f@),
        None => None,
    }
}

/// What the HTTP status of the usage reply decides; `None` means go on and
/// read the body.
pub fn http_outcome(status: u16) -> (r: Option<MimoFetch>)
    ensures
        opt_fetch_view(r) == http_outcome_spec(status),
{
    if 200 <= status && status <= 299 {
        None
    } else if status == 401 || status == 403 {
        Some(MimoFetch::Fetched(placeholder_result(String::from_str("Cookie 已失效 · 请在设置中重新粘贴"))))
    } else {
        Some(MimoFetch::Failed)
    }
}

/// The placeholder text for an API error `code`: the server's message when
/// it gave a non-empty one, otherwise a hint that the cookie may have
/// expired.
pub open spec fn api_error_message(code: i64, message: Option<Seq<char>>) -> Seq<char> {
    let head = "查询失败 (code "@ + signed_decimal(code as int) + ") · "@;
    match message {
        Some(m) => if m.len() > 0 {
            head + m
        } else {
            head + "Cookie 可能已失效"@
        },
        None => head + "Cookie 可能已失效"@,
    }
}

/// What the decoded usage body decides: an API error (`code != 0`) or an
/// empty item list end the fetch with a placeholder line; `None` means the
/// items are to be shown.
pub open spec fn body_outcome_spec(code: i64, message: Option<Seq<char>>, item_count: nat) -> Option<
    MimoFetchView,
> {
    if code != 0 {
        Some(
            MimoFetchView::Fetched(mimo_card(seq![placeholder_line(api_error_message(code, message))])),
        )
    } else if item_count == 0 {
        Some(MimoFetchView::Fetched(mimo_card(seq![placeholder_line("暂无套餐数据"@)])))
    } else {
        None
    }
}

/// What the decoded usage body decides, given its `code`, `message` and
/// number of usage items.
pub fn body_outcome(code: i64, message: &Option<String>, item_count: usize) -> (r: Option<
    MimoFetch,
>)
    ensures
        opt_fetch_view(r) == body_outcome_spec(code, opt_view(*message), item_count as nat),
{
    if code != 0 {
        let mut m = chars_of("查询失败 (code ");
        let c = i64_text(code);
        push_all(&mut m, &c);
        push_str(&mut m, ") · ");
        match message {
            Some(text) => {
                if is_empty_string(text) {
                    push_str(&mut m, "Cookie 可能已失效");
                } else {
                    push_str(&mut m, text.as_str());
                }
            },
            None => push_str(&mut m, "Cookie 可能已失效"),
        }
        return Some(MimoFetch::Fetched(placeholder_result(string_of(&m))));
    }
    if item_count == 0 {
        return Some(MimoFetch::Fetched(placeholder_result(String::from_str("暂无套餐数据"))));
    }
    None
}

// ───────────────────────── period end and countdown ─────────────────────────

/// The characters that separate the year, month and day (and the time).
pub open spec fn date_separators() -> Seq<char> {
    seq!['-', 'T', ' ']
}

/// Year, month and day from the first three fields of `yyyy-MM-dd ...`
/// (fields cut at `-`, `T` or space, each parsed as `i64`).
pub open spec fn civil_date_of(s: Seq<char>) -> Option<(i64, i64, i64)> {
    let ps = split_on(s, date_separators());
    if ps.len() >= 3 && parse_i64(ps[0]) is Some && parse_i64(ps[1]) is Some && parse_i64(
        ps[2],
    ) is Some {
        Some((parse_i64(ps[0])->0, parse_i64(ps[1])->0, parse_i64(ps[2])->0))
    } else {
        None
    }
}

/// Year, month and day of `yyyy-MM-dd ...`; the separators may be `-`,
/// `T` or a space.
pub fn parse_civil_date(s: &str) -> (r: Option<(i64, i64, i64)>)
    ensures
        r == civil_date_of(s@),
{
    let v = chars_of(s);
    let mut seps: Vec<char> = Vec::new();
    seps.push('-');
    seps.push('T');
    seps.push(' ');
    assert(seps@ =~= date_separators());
    let ps = split_pieces(&v, &seps);
    if ps.len() < 3 {
        return None;
    }
    let y = parse_i64_at(&ps[0], 0, ps[0].len());
    assert(ps@[0]@.subrange(0, ps@[0]@.len() as int) =~= ps@[0]@);
    let m = parse_i64_at(&ps[1], 0, ps[1].len());
    assert(ps@[1]@.subrange(0, ps@[1]@.len() as int) =~= ps@[1]@);
    let d = parse_i64_at(&ps[2], 0, ps[2].len());
    assert(ps@[2]@.subrange(0, ps@[2]@.len() as int) =~= ps@[2]@);
    match (y, m, d) {
        (Some(y), Some(m), Some(d)) => Some((y, m, d)),
        _ => None,
    }
}

/// Division truncated toward zero (Rust's `/` on signed integers), for a
/// positive divisor.
pub open spec fn tdiv(a: int, b: int) -> int {
    if a >= 0 {
        a / b
    } else {
        -((-a) / b)
    }
}

/// The remainder that goes with `tdiv` (Rust's `%` on signed integers).
pub open spec fn trem(a: int, b: int) -> int {
    a - b * tdiv(a, b)
}

/// Days since 1970-01-01 of the proleptic Gregorian date `y-m-d`, by Howard
/// Hinnant's `days_from_civil` with Rust's truncating `/` and `%`.
pub open spec fn civil_days(y: int, m: int, d: int) -> int {
    let y1 = if m <= 2 {
        y - 1
    } else {
        y
    };
    let era = tdiv(
        if y1 >= 0 {
            y1
        } else {
            y1 - 399
        },
        400,
    );
    let yoe = y1 - era * 400;
    let mp = trem(m + 9, 12);
    let doy = tdiv(153 * mp + 2, 5) + d - 1;
    let doe = yoe * 365 + tdiv(yoe, 4) - tdiv(yoe, 100) + doy;
    era * 146097 + doe - 719468
}

/// `x` is a value of `i64`.
pub open spec fn in_i64(x: int) -> bool {
    i64::MIN <= x <= i64::MAX
}

/// Every intermediate value of `civil_days(y, m, d)` is a value of `i64`,
/// so the computation does not overflow.
pub open spec fn civil_fits(y: i64, m: i64, d: i64) -> bool {
    let y1: int = if m <= 2 {
        y - 1
    } else {
        y as int
    };
    let era = tdiv(
        if y1 >= 0 {
            y1
        } else {
            y1 - 399
        },
        400,
    );
    let yoe = y1 - era * 400;
    let mp = trem(m + 9, 12);
    let doy = tdiv(153 * mp + 2, 5) + d - 1;
    let doe = yoe * 365 + tdiv(yoe, 4) - tdiv(yoe, 100) + doy;
    &&& in_i64(y1)
    &&& in_i64(y1 - 399)
    &&& in_i64(m + 9)
    &&& in_i64(tdiv(153 * mp + 2, 5) + d)
    &&& in_i64(doy)
    &&& in_i64(doe)
    &&& in_i64(era * 146097)
    &&& in_i64(era * 146097 + doe)
    &&& in_i64(era * 146097 + doe - 719468)
}

/// Days since the Unix epoch of the proleptic Gregorian date `y-m-d`.
pub fn days_from_civil(y: i64, m: i64, d: i64) -> (r: i64)
    requires
        civil_fits(y, m, d),
    ensures
        r == civil_days(y as int, m as int, d as int),
{
    let y = if m <= 2 {
        y - 1
    } else {
        y
    };
    let era = if y >= 0 {
        y
    } else {
        y - 399
    } / 400;
    assert(era * 400 <= y + 399 && era * 400 >= y - 399) by (nonlinear_arith)
        requires
            era == tdiv(
                if y >= 0 {
                    y as int
                } else {
                    y - 399
                },
                400,
            ),
    ;
    let yoe = y - era * 400;
    let mp = (m + 9) % 12;
    let doy = (153 * mp + 2) / 5 + d - 1;
    let doe = yoe * 365 + yoe / 4 - yoe / 100 + doy;
    era * 146097 + doe - 719468
}

/// Whether `days_until_period_end(s, now_epoch)` stays within `i64`: the
/// date does not parse, or its day count and the difference fit.
pub open spec fn period_end_fits(s: Seq<char>, now_epoch: i64) -> bool {
    match civil_date_of(s) {
        Some((y, m, d)) => civil_fits(y, m, d) && in_i64(
            civil_days(y as int, m as int, d as int) - (now_epoch as int) / 86400,
        ),
        None => true,
    }
}

/// The number of calendar days from the day of `now_epoch` (seconds, with
/// the +8 h Beijing offset already added) to the date at the start of `s`
/// (`yyyy-MM-dd HH:mm:ss`, Beijing time): 0 on the same day, -1 the day
/// before; `None` when the date does not parse.
pub open spec fn days_until_spec(s: Seq<char>, now_epoch: i64) -> Option<i64> {
    match civil_date_of(s) {
        Some((y, m, d)) => Some(
            (civil_days(y as int, m as int, d as int) - (now_epoch as int) / 86400) as i64,
        ),
        None => None,
    }
}

/// The current time as the platform counts days: `unix_now` (the current
/// Unix time in whole seconds) shifted by eight hours to Beijing time, since
/// the period ends are written in Beijing time whatever the user's zone.
pub fn now_epoch_secs(unix_now: u64) -> (r: i64)
    requires
        unix_now + 8 * 3600 <= i64::MAX,
    ensures
        r == unix_now + 8 * 3600,
{
    unix_now as i64 + 8 * 3600
}

/// Whole calendar days from `now_epoch` to the period end written in `s`.
pub fn days_until_period_end(s: &str, now_epoch: i64) -> (r: Option<i64>)
    requires
        period_end_fits(s@, now_epoch),
    ensures
        r == days_until_spec(s@, now_epoch),
{
    match parse_civil_date(s) {
        None => None,
        Some((y, m, d)) => {
            let q = now_epoch / 86400;
            let now_day = if now_epoch < 0 && q * 86400 != now_epoch {
                q - 1
            } else {
                q
            };
            assert(now_day == (now_epoch as int) / 86400) by (nonlinear_arith)
                requires
                    q == tdiv(now_epoch as int, 86400),
                    now_day == (if now_epoch < 0 && q * 86400 != now_epoch {
                        q - 1
                    } else {
                        q as int
                    }),
            ;
            Some(days_from_civil(y, m, d) - now_day)
        },
    }
}

/// `civil_days(y, m, d)` computed without overflow, and whether every
/// intermediate value fits in `i64`.
fn civil_days_checked(y: i64, m: i64, d: i64) -> (r: (bool, i128))
    ensures
        r.0 == civil_fits(y, m, d),
        r.1 == civil_days(y as int, m as int, d as int),
{
    let y1: i128 = if m <= 2 {
        y as i128 - 1
    } else {
        y as i128
    };
    let era: i128 = if y1 >= 0 {
        y1
    } else {
        y1 - 399
    } / 400;
    assert(era * 400 <= y1 + 399 && era * 400 >= y1 - 399) by (nonlinear_arith)
        requires
            era == tdiv(
                if y1 >= 0 {
                    y1 as int
                } else {
                    y1 - 399
                },
                400,
            ),
    ;
    let yoe: i128 = y1 - era * 400;
    let mp: i128 = (m as i128 + 9) % 12;
    let part: i128 = (153 * mp + 2) / 5 + d as i128;
    let doy: i128 = part - 1;
    let doe: i128 = yoe * 365 + yoe / 4 - yoe / 100 + doy;
    let big: i128 = era * 146097;
    let sum: i128 = big + doe;
    let days: i128 = sum - 719468;
    let lo: i128 = -9223372036854775808;
    let hi: i128 = 9223372036854775807;
    let f1 = lo <= y1 && y1 <= hi && lo <= y1 - 399 && y1 - 399 <= hi;
    let f2 = m as i128 + 9 <= hi && lo <= part && part <= hi && lo <= doy && doy <= hi;
    let f3 = lo <= doe && doe <= hi && lo <= big && big <= hi;
    let f4 = lo <= sum && sum <= hi && lo <= days && days <= hi;
    (f1 && f2 && f3 && f4, days)
}

/// Whether the period end in `s` can be counted without overflow; the
/// caller checks this before `days_until_period_end`.
pub fn period_end_in_range(s: &str, now_epoch: i64) -> (r: bool)
    ensures
        r == period_end_fits(s@, now_epoch),
{
    match parse_civil_date(s) {
        None => true,
        Some((y, m, d)) => {
            let (fits, days) = civil_days_checked(y, m, d);
            let q: i128 = now_epoch as i128 / 86400;
            let now_day: i128 = if now_epoch < 0 && q * 86400 != now_epoch as i128 {
                q - 1
            } else {
                q
            };
            assert(now_day == (now_epoch as int) / 86400) by (nonlinear_arith)
                requires
                    q == tdiv(now_epoch as int, 86400),
                    now_day == (if now_epoch < 0 && q * 86400 != now_epoch {
                        q - 1
                    } else {
                        q as int
                    }),
            ;
            let lo: i128 = -9223372036854775808;
            let hi: i128 = 9223372036854775807;
            fits && lo <= days - now_day && days - now_day <= hi
        },
    }
}

/// The countdown text for `days` left in the period: `今日重置` on the last
/// day, `{days}天后重置` before it, nothing once it has passed.
pub open spec fn reset_hint_spec(days: i64) -> Option<Seq<char>> {
    if days == 0 {
        Some("今日重置"@)
    } else if days > 0 {
        Some(signed_decimal(days as int) + "天后重置"@)
    } else {
        None
    }
}

/// The countdown text for `days` left in the period.
pub fn reset_hint_from_days(days: i64) -> (r: Option<String>)
    ensures
        opt_view(r) == reset_hint_spec(days),
{
    if days == 0 {
        Some(String::from_str("今日重置"))
    } else if days > 0 {
        let mut v = i64_text(days);
        push_str(&mut v, "天后重置");
        Some(string_of(&v))
    } else {
        None
    }
}

/// The countdown text for the period end `end` seen at `now_epoch`:
/// nothing when the date does not parse or the period is over.
pub fn reset_hint(end: &str, now_epoch: i64) -> (r: Option<String>)
    requires
        period_end_fits(end@, now_epoch),
    ensures
        opt_view(r) == match days_until_spec(end@, now_epoch) {
            Some(d) => reset_hint_spec(d),
            None => None,
        },
{
    match days_until_period_end(end, now_epoch) {
        Some(d) => reset_hint_from_days(d),
        None => None,
    }
}

// ───────────────────────── the calendar behind `civil_days` ─────────────────────────

/// `y` is a leap year of the proleptic Gregorian calendar.
pub open spec fn is_leap(y: int) -> bool {
    y % 4 == 0 && (y % 100 != 0 || y % 400 == 0)
}

/// The number of days of month `m` (1–12) of year `y`.
pub open spec fn month_len(y: int, m: int) -> int {
    if m == 2 {
        if is_leap(y) {
            29
        } else {
            28
        }
    } else if m == 4 || m == 6 || m == 9 || m == 11 {
        30
    } else {
        31
    }
}

/// `y-m-d` is a date of the calendar.
pub open spec fn valid_date(y: int, m: int, d: int) -> bool {
    1 <= m <= 12 && 1 <= d <= month_len(y, m)
}

/// The day after the valid date `y-m-d`.
pub open spec fn next_date(y: int, m: int, d: int) -> (int, int, int) {
    if d < month_len(y, m) {
        (y, m, d + 1)
    } else if m < 12 {
        (y, m + 1, 1)
    } else {
        (y + 1, 1, 1)
    }
}

/// The era computed with truncating division is the floored quotient.
proof fn lemma_era(y1: int)
    ensures
        tdiv(
            if y1 >= 0 {
                y1
            } else {
                y1 - 399
            },
            400,
        ) == y1 / 400,
{
    if y1 < 0 {
        let q = (399 - y1) / 400;
        let r = (399 - y1) % 400;
        assert(399 - y1 == q * 400 + r && 0 <= r < 400);
        assert(y1 == (-q) * 400 + (399 - r));
        assert(y1 / 400 == -q) by {
            vstd::arithmetic::div_mod::lemma_fundamental_div_mod_converse(y1, 400, -q, 399 - r);
        }
    }
}

/// `civil_days` in terms of the floored era and the year of the era.
proof fn lemma_civil_days_split(y: int, m: int, d: int)
    ensures
        ({
            let y1 = if m <= 2 {
                y - 1
            } else {
                y
            };
            let yoe = y1 % 400;
            let mp = trem(m + 9, 12);
            civil_days(y, m, d) == (y1 / 400) * 146097 + yoe * 365 + yoe / 4 - yoe / 100 + tdiv(
                153 * mp + 2,
                5,
            ) + d - 1 - 719468
        }),
{
    let y1 = if m <= 2 {
        y - 1
    } else {
        y
    };
    lemma_era(y1);
    let era = y1 / 400;
    let yoe = y1 - era * 400;
    assert(yoe == y1 % 400) by {
        vstd::arithmetic::div_mod::lemma_fundamental_div_mod(y1, 400);
    }
    assert(0 <= yoe < 400);
    assert(tdiv(yoe, 4) == yoe / 4);
    assert(tdiv(yoe, 100) == yoe / 100);
}

/// Day 0 is 1970-01-01.
pub proof fn law_epoch_is_day_zero()
    ensures
        civil_days(1970, 1, 1) == 0,
{
    lemma_civil_days_split(1970, 1, 1);
    assert(1969int / 400 == 4);
    assert(1969int % 400 == 369);
    assert(trem(10, 12) == 10);
    assert(tdiv(1532int, 5) == 306);
}

/// `civil_days` counts days: the day after any valid date is numbered one
/// more, across month ends, year ends and leap days alike. With day 0 at
/// 1970-01-01 this makes it the number of days since the epoch.
pub proof fn law_next_day(y: int, m: int, d: int)
    requires
        valid_date(y, m, d),
    ensures
        ({
            let (y2, m2, d2) = next_date(y, m, d);
            civil_days(y2, m2, d2) == civil_days(y, m, d) + 1
        }),
{
    let (y2, m2, d2) = next_date(y, m, d);
    lemma_civil_days_split(y, m, d);
    lemma_civil_days_split(y2, m2, d2);
    if d < month_len(y, m) {
    } else if m < 12 {
        if m == 2 {
            lemma_feb_to_march(y);
        } else {
            lemma_month_offsets(m);
        }
    } else {
        assert(trem(21, 12) == 9);
        assert(trem(10, 12) == 10);
        assert(tdiv(1379int, 5) == 275);
        assert(tdiv(1532int, 5) == 306);
    }
}

/// Within a March-based year, consecutive month starts are a month apart.
proof fn lemma_month_offsets(m: int)
    requires
        1 <= m <= 11,
        m != 2,
    ensures
        tdiv(153 * trem(m + 1 + 9, 12) + 2, 5) - tdiv(153 * trem(m + 9, 12) + 2, 5) == month_len(
            0,
            m,
        ),
{
    if m == 1 {
        assert(trem(10, 12) == 10 && trem(11, 12) == 11);
    } else if m == 3 {
        assert(trem(12, 12) == 0 && trem(13, 12) == 1);
    } else if m == 4 {
        assert(trem(13, 12) == 1 && trem(14, 12) == 2);
    } else if m == 5 {
        assert(trem(14, 12) == 2 && trem(15, 12) == 3);
    } else if m == 6 {
        assert(trem(15, 12) == 3 && trem(16, 12) == 4);
    } else if m == 7 {
        assert(trem(16, 12) == 4 && trem(17, 12) == 5);
    } else if m == 8 {
        assert(trem(17, 12) == 5 && trem(18, 12) == 6);
    } else if m == 9 {
        assert(trem(18, 12) == 6 && trem(19, 12) == 7);
    } else if m == 10 {
        assert(trem(19, 12) == 7 && trem(20, 12) == 8);
    } else {
        assert(trem(20, 12) == 8 && trem(21, 12) == 9);
    }
}

/// From the last day of February to March 1st of year `y`: February has
/// 29 days exactly in leap years.
proof fn lemma_feb_to_march(y: int)
    ensures
        (y / 400) * 146097 + (y % 400) * 365 + (y % 400) / 4 - (y % 400) / 100 - (((y - 1) / 400)
            * 146097 + ((y - 1) % 400) * 365 + ((y - 1) % 400) / 4 - ((y - 1) % 400) / 100 + 337
            + month_len(y, 2) - 1) == 1,
{
    assert(trem(11, 12) == 11);
    let yo = (y - 1) % 400;
    let e = (y - 1) / 400;
    vstd::arithmetic::div_mod::lemma_fundamental_div_mod(y - 1, 400);
    assert(y - 1 == e * 400 + yo && 0 <= yo < 400);
    if yo < 399 {
        assert(y == e * 400 + (yo + 1));
        assert(y / 400 == e && y % 400 == yo + 1) by {
            vstd::arithmetic::div_mod::lemma_fundamental_div_mod_converse(y, 400, e, yo + 1);
        }
        assert(y % 4 == (yo + 1) % 4) by {
            vstd::arithmetic::div_mod::lemma_fundamental_div_mod_converse(y, 4, e * 100 + (yo + 1)
                / 4, (yo + 1) % 4);
        }
        assert(y % 100 == (yo + 1) % 100) by {
            vstd::arithmetic::div_mod::lemma_fundamental_div_mod_converse(y, 100, e * 4 + (yo + 1)
                / 100, (yo + 1) % 100);
        }
        assert(y % 400 != 0);
    } else {
        assert(y == (e + 1) * 400);
        assert(y / 400 == e + 1 && y % 400 == 0) by {
            vstd::arithmetic::div_mod::lemma_fundamental_div_mod_converse(y, 400, e + 1, 0);
        }
        assert(y % 4 == 0 && y % 100 == 0) by {
            vstd::arithmetic::div_mod::lemma_fundamental_div_mod_converse(y, 4, (e + 1) * 100, 0);
            vstd::arithmetic::div_mod::lemma_fundamental_div_mod_converse(y, 100, (e + 1) * 4, 0);
        }
    }
}

// ───────────────────────── the card shows every usage line ─────────────────────────

/// The fetched MiMo card holds exactly the quota lines it is given: one per
/// usage item, in the same order, none dropped or added; and a placeholder
/// card holds just its one line.
pub proof fn law_mimo_card_keeps_every_line(lines: Seq<QuotaItemView>, msg: Seq<char>)
    ensures
        mimo_card(lines).items.len() == lines.len(),
        forall|i: int| 0 <= i < lines.len() ==> #[trigger] mimo_card(lines).items[i] == lines[i],
        mimo_card(lines).name == "MiMo"@,
        mimo_card(seq![placeholder_line(msg)]).items.len() == 1,
        mimo_card(seq![placeholder_line(msg)]).items[0].detail == msg,
{
}

/// Usage entries keep their names as labels, except the two known ones:
/// `plan_total_token` is the Token Plan and `compensation_total_token` the
/// compensation credits; an unknown entry is shown under its own name.
pub proof fn law_unknown_entries_keep_their_name(name: Seq<char>)
    ensures
        name != "plan_total_token"@ && name != "compensation_total_token"@ ==> mimo_label_spec(name)
            == name,
        mimo_label_spec("plan_total_token"@) == "Token Plan 套餐"@,
        mimo_label_spec("compensation_total_token"@) == "补偿积分"@,
{
    reveal_strlit("plan_total_token");
    reveal_strlit("compensation_total_token");
    assert("plan_total_token"@.len() != "compensation_total_token"@.len());
}

} // verus!

//! GLM Coding Plan usage.
//!
//! How the reply's limits become quota lines:
//!   - `TIME_LIMIT` with a positive `usage` → the tool-call line (absolute
//!     counts), put last; the last such limit wins;
//!   - `TOKENS_LIMIT` → a line labelled by its window: unit 3 / number 5 is
//!     the five-hour window, unit 6 / number 1 the week, anything else a
//!     plain token limit; with a positive `usage` it counts tokens,
//!     otherwise it shows the percentage;
//!   - other limit types are ignored;
//!   - no lines → no card; a non-empty level goes into the card title.
//! Amounts are floating point: the library receives them as bit patterns
//! and receives their texts (token counts, percentage, countdown) already
//! written.
use vstd::prelude::*;

use crate::data::{
    items_view, opt_view, GlmResult, GlmView, QuotaItem, QuotaItemView, HUNDRED_BITS, ZERO_BITS,
};
use crate::fetcher::until_reset;
use crate::text::{chars_eq, chars_of, i64_text, is_empty_string, push_all, push_str, signed_decimal, string_of};

verus! {

/// One limit of the reply; the amounts are bit patterns of `f64` values.
pub struct GlmLimit {
    /// `TIME_LIMIT` or `TOKENS_LIMIT`.
    pub limit_type: String,
    pub usage: Option<u64>,
    pub current_value: Option<u64>,
    pub percentage: u64,
    pub unit: Option<i64>,
    pub number: Option<i64>,
}

/// The texts of one limit, written from its floating-point amounts: the
/// used and total token counts, the percentage as a whole number, and the
/// countdown to its reset (empty when there is none).
pub struct GlmLimitTexts {
    pub used_tokens: String,
    pub total_tokens: String,
    pub percent_int: i64,
    pub reset: String,
}

/// The mathematical value of a [`GlmLimit`] with its texts.
pub struct GlmLimitView {
    pub limit_type: Seq<char>,
    pub usage: Option<u64>,
    pub current_value: Option<u64>,
    pub percentage: u64,
    pub unit: Option<i64>,
    pub number: Option<i64>,
    pub used_tokens: Seq<char>,
    pub total_tokens: Seq<char>,
    pub percent_int: i64,
    pub reset: Seq<char>,
}

/// A limit together with its texts.
pub open spec fn limit_view(l: GlmLimit, t: GlmLimitTexts) -> GlmLimitView {
    GlmLimitView {
        limit_type: l.limit_type@,
        usage: l.usage,
        current_value: l.current_value,
        percentage: l.percentage,
        unit: l.unit,
        number: l.number,
        used_tokens: t.used_tokens@,
        total_tokens: t.total_tokens@,
        percent_int: t.percent_int,
        reset: t.reset@,
    }
}

/// The `f64` with bit pattern `bits` is greater than `0.0`: its sign bit is
/// clear, it is not zero, and it is not a NaN (positive infinity counts).
pub open spec fn is_positive(bits: u64) -> bool {
    0 < bits <= 0x7ff0_0000_0000_0000
}

/// Whether the `f64` with bit pattern `bits` is greater than `0.0`.
pub fn positive(bits: u64) -> (r: bool)
    ensures
        r == is_positive(bits),
{
    0 < bits && bits <= 0x7ff0_0000_0000_0000
}

/// The label of a token limit, by its window: `5小时限额` for unit 3 and
/// number 5, `周限额` for unit 6 and number 1, `Token限额` otherwise (a
/// missing unit or number counts as 0).
pub open spec fn limit_label_spec(unit: Option<i64>, number: Option<i64>) -> Seq<char> {
    let u = match unit {
        Some(u) => u,
        None => 0,
    };
    let n = match number {
        Some(n) => n,
        None => 0,
    };
    if u == 3 && n == 5 {
        "5小时限额"@
    } else if u == 6 && n == 1 {
        "周限额"@
    } else {
        "Token限额"@
    }
}

/// The label of a token limit.
pub fn limit_label(unit: Option<i64>, number: Option<i64>) -> (r: String)
    ensures
        r@ == limit_label_spec(unit, number),
{
    let u = match unit {
        Some(u) => u,
        None => 0,
    };
    let n = match number {
        Some(n) => n,
        None => 0,
    };
    if u == 3 && n == 5 {
        String::from_str("5小时限额")
    } else if u == 6 && n == 1 {
        String::from_str("周限额")
    } else {
        String::from_str("Token限额")
    }
}

/// `{reset}后重置`, or nothing when there is no countdown.
pub open spec fn reset_detail(reset: Seq<char>) -> Seq<char> {
    if reset.len() == 0 {
        seq![]
    } else {
        until_reset(reset)
    }
}

/// An optional amount, 0 when it is missing.
pub open spec fn or_zero(v: Option<u64>) -> u64 {
    match v {
        Some(b) => b,
        None => ZERO_BITS,
    }
}

/// The tool-call line of a `TIME_LIMIT` with a positive usage.
pub open spec fn tool_line(l: GlmLimitView) -> Option<QuotaItemView> {
    if l.limit_type == "TIME_LIMIT"@ && l.usage is Some && is_positive(l.usage->0) {
        Some(
            QuotaItemView {
                label: "工具调用"@,
                display_value: None,
                used_bits: or_zero(l.current_value),
                total_bits: l.usage->0,
                unit: "次"@,
                detail: reset_detail(l.reset),
            },
        )
    } else {
        None
    }
}

/// The line of a `TOKENS_LIMIT`: token counts when it has a positive usage,
/// otherwise the percentage out of 100.
pub open spec fn token_line(l: GlmLimitView) -> Option<QuotaItemView> {
    if l.limit_type == "TOKENS_LIMIT"@ {
        let label = limit_label_spec(l.unit, l.number);
        if l.usage is Some && is_positive(l.usage->0) {
            Some(
                QuotaItemView {
                    label: label,
                    display_value: None,
                    used_bits: or_zero(l.current_value),
                    total_bits: l.usage->0,
                    unit: "tokens"@,
                    detail: "已用 "@ + l.used_tokens + " / "@ + l.total_tokens + " ("@
                        + signed_decimal(l.percent_int as int) + "%)"@,
                },
            )
        } else {
            Some(
                QuotaItemView {
                    label: label,
                    display_value: None,
                    used_bits: l.percentage,
                    total_bits: HUNDRED_BITS,
                    unit: "%"@,
                    detail: reset_detail(l.reset),
                },
            )
        }
    } else {
        None
    }
}

/// The token lines of `ls`, in order.
pub open spec fn token_lines(ls: Seq<GlmLimitView>) -> Seq<QuotaItemView>
    decreases ls.len(),
{
    if ls.len() == 0 {
        seq![]
    } else {
        match token_line(ls.last()) {
            Some(q) => token_lines(ls.drop_last()).push(q),
            None => token_lines(ls.drop_last()),
        }
    }
}

/// The tool-call line of the last limit of `ls` that has one.
pub open spec fn last_tool_line(ls: Seq<GlmLimitView>) -> Option<QuotaItemView>
    decreases ls.len(),
{
    if ls.len() == 0 {
        None
    } else {
        match tool_line(ls.last()) {
            Some(q) => Some(q),
            None => last_tool_line(ls.drop_last()),
        }
    }
}

/// All quota lines of `ls`: the token lines, then the tool-call line.
pub open spec fn glm_lines(ls: Seq<GlmLimitView>) -> Seq<QuotaItemView> {
    match last_tool_line(ls) {
        Some(q) => token_lines(ls).push(q),
        None => token_lines(ls),
    }
}

/// The limits of the reply with their texts.
pub open spec fn limits_view(ls: Seq<GlmLimit>, ts: Seq<GlmLimitTexts>) -> Seq<GlmLimitView> {
    Seq::new(ls.len(), |i: int| limit_view(ls[i], ts[i]))
}

/// The line a `TIME_LIMIT` or `TOKENS_LIMIT` gives.
fn limit_line(l: &GlmLimit, t: &GlmLimitTexts) -> (r: (Option<QuotaItem>, Option<QuotaItem>))
    ensures
        match r.0 {
            Some(q) => tool_line(limit_view(*l, *t)) == Some(q@),
            None => tool_line(limit_view(*l, *t)) is None,
        },
        match r.1 {
            Some(q) => token_line(limit_view(*l, *t)) == Some(q@),
            None => token_line(limit_view(*l, *t)) is None,
        },
{
    proof {
        reveal_strlit("TIME_LIMIT");
        reveal_strlit("TOKENS_LIMIT");
        assert("TIME_LIMIT"@.len() != "TOKENS_LIMIT"@.len());
    }
    let ty = chars_of(l.limit_type.as_str());
    let time = chars_of("TIME_LIMIT");
    let tokens = chars_of("TOKENS_LIMIT");
    let positive_usage = match l.usage {
        Some(u) => positive(u),
        None => false,
    };
    let used = match l.current_value {
        Some(b) => b,
        None => ZERO_BITS,
    };
    let reset = if is_empty_string(&t.reset) {
        String::new()
    } else {
        let mut v = chars_of(t.reset.as_str());
        push_str(&mut v, "后重置");
        string_of(&v)
    };
    if chars_eq(&ty, &time) {
        if positive_usage {
            let tool = QuotaItem {
                label: String::from_str("工具调用"),
                display_value: None,
                used_bits: used,
                total_bits: l.usage.unwrap(),
                unit: String::from_str("次"),
                detail: reset,
            };
            return (Some(tool), None);
        }
        return (None, None);
    }
    if chars_eq(&ty, &tokens) {
        let label = limit_label(l.unit, l.number);
        if positive_usage {
            let mut d = chars_of("已用 ");
            push_str(&mut d, t.used_tokens.as_str());
            push_str(&mut d, " / ");
            push_str(&mut d, t.total_tokens.as_str());
            push_str(&mut d, " (");
            let p = i64_text(t.percent_int);
            push_all(&mut d, &p);
            push_str(&mut d, "%)");
            let q = QuotaItem {
                label,
                display_value: None,
                used_bits: used,
                total_bits: l.usage.unwrap(),
                unit: String::from_str("tokens"),
                detail: string_of(&d),
            };
            return (None, Some(q));
        }
        let q = QuotaItem {
            label,
            display_value: None,
            used_bits: l.percentage,
            total_bits: HUNDRED_BITS,
            unit: String::from_str("%"),
            detail: reset,
        };
        return (None, Some(q));
    }
    (None, None)
}

/// The quota lines of the reply's limits (`texts[i]` are the texts of
/// `limits[i]`): the token lines in order, then the last tool-call line.
pub fn glm_items(limits: &Vec<GlmLimit>, texts: &Vec<GlmLimitTexts>) -> (r: Vec<QuotaItem>)
    requires
        limits@.len() == texts@.len(),
    ensures
        items_view(r@) == glm_lines(limits_view(limits@, texts@)),
{
    let ghost ls = limits_view(limits@, texts@);
    let mut items: Vec<QuotaItem> = Vec::new();
    let mut tool: Option<QuotaItem> = None;
    let mut k: usize = 0;
    while k < limits.len()
        invariant
            k <= limits@.len(),
            limits@.len() == texts@.len(),
            ls == limits_view(limits@, texts@),
            items_view(items@) == token_lines(ls.take(k as int)),
            match tool {
                Some(q) => last_tool_line(ls.take(k as int)) == Some(q@),
                None => last_tool_line(ls.take(k as int)) is None,
            },
        decreases limits@.len() - k,
    {
        assert(ls.take(k + 1).drop_last() =~= ls.take(k as int));
        assert(ls.take(k + 1).last() == limit_view(limits@[k as int], texts@[k as int]));
        let ghost before = items_view(items@);
        let (t, q) = limit_line(&limits[k], &texts[k]);
        if let Some(x) = t {
            tool = Some(x);
        }
        if let Some(x) = q {
            items.push(x);
            assert(items_view(items@) =~= before.push(x@));
        }
        k = k + 1;
    }
    assert(ls.take(limits@.len() as int) =~= ls);
    if let Some(x) = tool {
        let ghost before = items_view(items@);
        items.push(x);
        assert(items_view(items@) =~= before.push(x@));
    }
    items
}

/// The GLM card: none without quota lines; otherwise the card, with the
/// plan level when it is not empty.
pub open spec fn glm_card(level: Seq<char>, items: Seq<QuotaItemView>) -> Option<GlmView> {
    if items.len() == 0 {
        None
    } else {
        Some(
            GlmView {
                name: "GLM 智谱AI"@,
                kind: "quota"@,
                icon: "🔷"@,
                color: "#2563EB"@,
                level: if level.len() == 0 {
                    None
                } else {
                    Some(level)
                },
                items: items,
            },
        )
    }
}

/// The view of an optional GLM result.
pub open spec fn opt_result_view(r: Option<GlmResult>) -> Option<GlmView> {
    match r {
        Some(g) => Some(g@),
        None => None,
    }
}

/// The GLM result for the plan `level` and the quota lines `items`.
pub fn glm_result(level: String, items: Vec<QuotaItem>) -> (r: Option<GlmResult>)
    ensures
        opt_result_view(r) == glm_card(level@, items_view(items@)),
{
    if items.len() == 0 {
        return None;
    }
    let lv = if is_empty_string(&level) {
        None
    } else {
        Some(level)
    };
    Some(
        GlmResult {
            name: String::from_str("GLM 智谱AI"),
            kind: String::from_str("quota"),
            icon: String::from_str("🔷"),
            color: String::from_str("#2563EB"),
            level: lv,
            items,
        },
    )
}

/// The GLM result for a decoded reply with `code`, the plan `level` and
/// the limits with their texts (a reply without `data` has an empty level
/// and no limits): nothing unless the code is 200 and some limit gives a
/// quota line.
pub fn glm_reply(code: i64, level: String, limits: &Vec<GlmLimit>, texts: &Vec<GlmLimitTexts>) -> (r: Option<GlmResult>)
    requires
        limits@.len() == texts@.len(),
    ensures
        opt_result_view(r) == if code != 200 {
            None
        } else {
            glm_card(level@, glm_lines(limits_view(limits@, texts@)))
        },
{
    if code != 200 {
        return None;
    }
    let items = glm_items(limits, texts);
    glm_result(level, items)
}

/// The used amount of a limit: its `currentValue`, 0 when it is missing.
pub open spec fn used_amount(l: GlmLimitView) -> u64 {
    match l.current_value {
        Some(v) => v,
        None => ZERO_BITS,
    }
}

/// A reply with a single limit gives the line that limit stands for:
///   - a `TOKENS_LIMIT` with a positive `usage` shows `currentValue` (0 when
///     missing) used of `usage` tokens;
///   - a `TOKENS_LIMIT` without one shows its `percentage` used of 100 %;
///   - a `TIME_LIMIT` with a positive `usage` shows `currentValue` (0 when
///     missing) used of `usage` tool calls;
///   - any other limit gives no line.
pub proof fn law_limit_amounts(l: GlmLimitView)
    ensures
        l.limit_type == "TOKENS_LIMIT"@ && l.usage is Some && is_positive(l.usage->0) ==> {
            let q = glm_lines(seq![l]);
            &&& q.len() == 1
            &&& q[0].used_bits == used_amount(l)
            &&& q[0].total_bits == l.usage->0
            &&& q[0].unit == "tokens"@
            &&& q[0].label == limit_label_spec(l.unit, l.number)
        },
        l.limit_type == "TOKENS_LIMIT"@ && !(l.usage is Some && is_positive(l.usage->0)) ==> {
            let q = glm_lines(seq![l]);
            &&& q.len() == 1
            &&& q[0].used_bits == l.percentage
            &&& q[0].total_bits == HUNDRED_BITS
            &&& q[0].unit == "%"@
            &&& q[0].label == limit_label_spec(l.unit, l.number)
        },
        l.limit_type == "TIME_LIMIT"@ && l.usage is Some && is_positive(l.usage->0) ==> {
            let q = glm_lines(seq![l]);
            &&& q.len() == 1
            &&& q[0].used_bits == used_amount(l)
            &&& q[0].total_bits == l.usage->0
            &&& q[0].unit == "次"@
            &&& q[0].label == "工具调用"@
        },
        l.limit_type != "TOKENS_LIMIT"@ && !(l.limit_type == "TIME_LIMIT"@ && l.usage is Some
            && is_positive(l.usage->0)) ==> glm_lines(seq![l]).len() == 0,
{
    reveal_strlit("TIME_LIMIT");
    reveal_strlit("TOKENS_LIMIT");
    let ls = seq![l];
    assert(ls.drop_last() =~= Seq::<GlmLimitView>::empty());
    assert(ls.last() == l);
    assert(token_lines(ls.drop_last()) =~= Seq::<QuotaItemView>::empty());
    assert(last_tool_line(ls.drop_last()) is None);
    assert(token_lines(ls) == match token_line(l) {
        Some(q) => seq![q],
        None => Seq::<QuotaItemView>::empty(),
    }) by {
        assert(token_lines(ls.drop_last()).push(token_line(l)->0) =~= seq![token_line(l)->0]);
    }
    assert(last_tool_line(ls) == tool_line(l));
    assert("TIME_LIMIT"@.len() != "TOKENS_LIMIT"@.len());
    if l.limit_type == "TOKENS_LIMIT"@ {
        assert(l.limit_type != "TIME_LIMIT"@);
        assert(tool_line(l) is None);
    }
}

/// Every `TOKENS_LIMIT` limit's line is among the token lines.
proof fn lemma_token_lines_contain(ls: Seq<GlmLimitView>, k: int)
    requires
        0 <= k < ls.len(),
        token_line(ls[k]) is Some,
    ensures
        token_lines(ls).contains(token_line(ls[k])->0),
    decreases ls.len(),
{
    let y = ls.drop_last();
    if k < ls.len() - 1 {
        assert(y[k] == ls[k]);
        lemma_token_lines_contain(y, k);
        let t = token_lines(y);
        let j = choose|j: int| 0 <= j < t.len() && t[j] == token_line(ls[k])->0;
        match token_line(ls.last()) {
            Some(q) => assert(token_lines(ls)[j] == t[j]),
            None => {},
        }
    } else {
        let t = token_lines(ls);
        assert(t[t.len() - 1] == token_line(ls[k])->0);
    }
}

/// In a reply with any number of limits, every `TOKENS_LIMIT` limit with a
/// positive `usage` has its line: `currentValue` (0 when missing) used of
/// `usage` tokens; every other `TOKENS_LIMIT` limit has its percentage line
/// out of 100 %.
pub proof fn law_every_token_limit_shown(ls: Seq<GlmLimitView>)
    ensures
        forall|k: int|
            0 <= k < ls.len() && ls[k].limit_type == "TOKENS_LIMIT"@ && ls[k].usage is Some
                && is_positive(ls[k].usage->0) ==> exists|i: int|
                0 <= i < glm_lines(ls).len() && (#[trigger] glm_lines(ls)[i]).used_bits == used_amount(
                    ls[k],
                ) && glm_lines(ls)[i].total_bits == ls[k].usage->0 && glm_lines(ls)[i].unit
                    == "tokens"@,
        forall|k: int|
            0 <= k < ls.len() && ls[k].limit_type == "TOKENS_LIMIT"@ && !(ls[k].usage is Some
                && is_positive(ls[k].usage->0)) ==> exists|i: int|
                0 <= i < glm_lines(ls).len() && (#[trigger] glm_lines(ls)[i]).used_bits
                    == ls[k].percentage && glm_lines(ls)[i].total_bits == HUNDRED_BITS
                    && glm_lines(ls)[i].unit == "%"@,
{
    assert forall|k: int|
        0 <= k < ls.len() && ls[k].limit_type == "TOKENS_LIMIT"@ implies exists|i: int|
            0 <= i < glm_lines(ls).len() && #[trigger] glm_lines(ls)[i] == token_line(ls[k])->0 by {
        lemma_token_lines_contain(ls, k);
        let t = token_lines(ls);
        let j = choose|j: int| 0 <= j < t.len() && t[j] == token_line(ls[k])->0;
        assert(glm_lines(ls)[j] == t[j]);
    }
}

} // verus!

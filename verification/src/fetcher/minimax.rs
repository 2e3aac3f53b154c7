//! MiniMax Coding Plan usage.
//!
//! Display rules (as on MiniMax's own site), per window (five hours, week):
//!   - metered models are those with status 1 (in use) or 2 (quota used
//!     up) and a remaining percentage; the card shows the used percentage,
//!     100 minus their mean remaining percentage;
//!   - with only status-2 models the detail says the quota is used up;
//!   - without any metered model (status 3: not billed / unlimited) the
//!     five-hour window keeps a full-quota placeholder and the weekly one
//!     shows `∞`;
//!   - the reset countdown is the earliest remaining time over all models.
//! The percentages and times are floating point: their mean, minimum and
//! rounding are computed around this module, which decides which models
//! count and what the texts say.
use vstd::prelude::*;

use crate::data::{items_view, opt_view, MinimaxResult, QuotaItem, QuotaItemView, QuotaResultView, HUNDRED_BITS, ZERO_BITS};
use crate::fetcher::until_reset;
use crate::order::{sort_dedup, sorted_unique};
use crate::text::{
    ascii_ci_eq, chars_of, ci_match_at, i64_text, join, join_chars, push_all, push_str,
    signed_decimal, string_of,
};

verus! {

/// The usage of one model in both windows, as the API reports it. The
/// percentages and times are the bit patterns of `f64` values.
pub struct ModelRemain {
    pub model_name: Option<String>,
    pub current_interval_status: Option<i64>,
    pub current_interval_remaining_percent: Option<u64>,
    pub remains_time: Option<u64>,
    pub current_weekly_status: Option<i64>,
    pub current_weekly_remaining_percent: Option<u64>,
    pub weekly_remains_time: Option<u64>,
}

/// The mathematical value of a [`ModelRemain`].
pub struct ModelView {
    pub name: Option<Seq<char>>,
    pub interval_status: Option<i64>,
    pub interval_pct: Option<u64>,
    pub interval_time: Option<u64>,
    pub weekly_status: Option<i64>,
    pub weekly_pct: Option<u64>,
    pub weekly_time: Option<u64>,
}

impl View for ModelRemain {
    type V = ModelView;

    open spec fn view(&self) -> ModelView {
        ModelView {
            name: opt_view(self.model_name),
            interval_status: self.current_interval_status,
            interval_pct: self.current_interval_remaining_percent,
            interval_time: self.remains_time,
            weekly_status: self.current_weekly_status,
            weekly_pct: self.current_weekly_remaining_percent,
            weekly_time: self.weekly_remains_time,
        }
    }
}

/// The views of a list of models.
pub open spec fn models_view(ms: Seq<ModelRemain>) -> Seq<ModelView> {
    ms.map_values(|m: ModelRemain| m@)
}

/// Which window's fields to read.
pub enum Window {
    Interval,
    Weekly,
}

/// The status of model `m` in window `w`.
pub open spec fn status_of(w: Window, m: ModelView) -> Option<i64> {
    match w {
        Window::Interval => m.interval_status,
        Window::Weekly => m.weekly_status,
    }
}

/// The remaining percentage (bits) of model `m` in window `w`.
pub open spec fn pct_of(w: Window, m: ModelView) -> Option<u64> {
    match w {
        Window::Interval => m.interval_pct,
        Window::Weekly => m.weekly_pct,
    }
}

/// The remaining time (bits, milliseconds) of model `m` in window `w`.
pub open spec fn time_of(w: Window, m: ModelView) -> Option<u64> {
    match w {
        Window::Interval => m.interval_time,
        Window::Weekly => m.weekly_time,
    }
}

impl Window {
    /// The status of `m` in this window.
    pub fn status(&self, m: &ModelRemain) -> (r: Option<i64>)
        ensures
            r == status_of(*self, m@),
    {
        match self {
            Window::Interval => m.current_interval_status,
            Window::Weekly => m.current_weekly_status,
        }
    }

    /// The remaining percentage (bits) of `m` in this window.
    pub fn remaining_pct(&self, m: &ModelRemain) -> (r: Option<u64>)
        ensures
            r == pct_of(*self, m@),
    {
        match self {
            Window::Interval => m.current_interval_remaining_percent,
            Window::Weekly => m.current_weekly_remaining_percent,
        }
    }

    /// The remaining time (bits) of `m` in this window.
    pub fn remains_time(&self, m: &ModelRemain) -> (r: Option<u64>)
        ensures
            r == time_of(*self, m@),
    {
        match self {
            Window::Interval => m.remains_time,
            Window::Weekly => m.weekly_remains_time,
        }
    }
}

/// Model `m` has status `code` in window `w` and reports a remaining
/// percentage there.
pub open spec fn in_state(w: Window, m: ModelView, code: i64) -> bool {
    status_of(w, m) == Some(code) && pct_of(w, m) is Some
}

/// The indices, in order, of the models in state `code` in window `w`.
pub open spec fn indices_in_state(ms: Seq<ModelView>, w: Window, code: i64) -> Seq<int>
    decreases ms.len(),
{
    if ms.len() == 0 {
        seq![]
    } else if in_state(w, ms.last(), code) {
        indices_in_state(ms.drop_last(), w, code).push(ms.len() - 1)
    } else {
        indices_in_state(ms.drop_last(), w, code)
    }
}

/// The active models (status 1) followed by the used-up ones (status 2):
/// those whose remaining percentages are averaged.
pub open spec fn metered_spec(ms: Seq<ModelView>, w: Window) -> Seq<int> {
    indices_in_state(ms, w, 1) + indices_in_state(ms, w, 2)
}

/// The indices of the models in state `code` in window `w`.
fn models_in_state(models: &Vec<ModelRemain>, w: &Window, code: i64) -> (r: Vec<usize>)
    ensures
        r@.len() == indices_in_state(models_view(models@), *w, code).len(),
        forall|i: int|
            0 <= i < r@.len() ==> r@[i] as int == #[trigger] indices_in_state(
                models_view(models@),
                *w,
                code,
            )[i],
{
    let ghost ms = models_view(models@);
    let mut r: Vec<usize> = Vec::new();
    let mut k: usize = 0;
    while k < models.len()
        invariant
            k <= models@.len(),
            ms == models_view(models@),
            r@.len() == indices_in_state(ms.take(k as int), *w, code).len(),
            forall|i: int|
                0 <= i < r@.len() ==> r@[i] as int == #[trigger] indices_in_state(
                    ms.take(k as int),
                    *w,
                    code,
                )[i],
        decreases models@.len() - k,
    {
        assert(ms.take(k + 1).drop_last() =~= ms.take(k as int));
        assert(ms.take(k + 1).last() == models@[k as int]@);
        let st = w.status(&models[k]);
        let pct = w.remaining_pct(&models[k]);
        if st == Some(code) && pct.is_some() {
            r.push(k);
        }
        k = k + 1;
    }
    assert(ms.take(models@.len() as int) =~= ms);
    r
}

/// The models whose remaining percentages make up the used percentage of
/// window `w`: the active ones, then the used-up ones. The mean of their
/// remaining percentages is taken around this module; with none, the
/// window shows 100.
pub fn metered_models(models: &Vec<ModelRemain>, w: &Window) -> (r: Vec<usize>)
    ensures
        r@.len() == metered_spec(models_view(models@), *w).len(),
        forall|i: int|
            0 <= i < r@.len() ==> r@[i] as int == #[trigger] metered_spec(
                models_view(models@),
                *w,
            )[i],
{
    let mut a = models_in_state(models, w, 1);
    let mut b = models_in_state(models, w, 2);
    let ghost av = a@;
    let ghost bv = b@;
    a.append(&mut b);
    assert forall|i: int| 0 <= i < a@.len() implies a@[i] as int == #[trigger] metered_spec(
        models_view(models@),
        *w,
    )[i] by {
        if i < av.len() {
            assert(a@[i] == av[i]);
        } else {
            assert(a@[i] == bv[i - av.len()]);
        }
    }
    a
}

/// Whether `name` is `general` up to ASCII case. (`to_lowercase` of a name
/// equals `general` exactly when this holds: the only non-ASCII character
/// whose lower case is ASCII is the Kelvin sign, which lowers to `k`.)
pub open spec fn is_general(name: Seq<char>) -> bool {
    ascii_ci_eq(name, "general"@)
}

/// The names of the active models in window `w` that are worth showing:
/// present, not empty, and not `general`.
pub open spec fn hint_names(ms: Seq<ModelView>, w: Window) -> Seq<Seq<char>>
    decreases ms.len(),
{
    if ms.len() == 0 {
        seq![]
    } else {
        let rest = hint_names(ms.drop_last(), w);
        let m = ms.last();
        if in_state(w, m, 1) && m.name is Some && m.name->0.len() > 0 && !is_general(m.name->0) {
            rest.push(m.name->0)
        } else {
            rest
        }
    }
}

/// The model hint ` (a, b)` of the distinct hint names in order, or nothing.
pub open spec fn model_hint_spec(ms: Seq<ModelView>, w: Window) -> Seq<char> {
    let names = sorted_unique(hint_names(ms, w));
    if names.len() == 0 {
        seq![]
    } else {
        " ("@ + join(names, ", "@) + ")"@
    }
}

/// The detail line of window `w`, given the countdown text `reset` (empty
/// when there is none).
pub open spec fn window_detail_spec(
    ms: Seq<ModelView>,
    w: Window,
    inactive_detail: Seq<char>,
    show_inactive_reset: bool,
    reset: Seq<char>,
) -> Seq<char> {
    let active = indices_in_state(ms, w, 1);
    let exhausted = indices_in_state(ms, w, 2);
    if active.len() == 0 && exhausted.len() > 0 {
        if reset.len() == 0 {
            "额度已用尽"@
        } else {
            "额度已用尽 · "@ + until_reset(reset)
        }
    } else if active.len() + exhausted.len() == 0 {
        if show_inactive_reset && reset.len() > 0 {
            inactive_detail + " · "@ + until_reset(reset)
        } else {
            inactive_detail
        }
    } else if reset.len() == 0 {
        seq![]
    } else {
        until_reset(reset) + model_hint_spec(ms, w)
    }
}

/// The quota line of one window. `reset` is the countdown text of the
/// earliest remaining time (empty when there is none or it is over) and
/// `used_bits` the used percentage of the metered models (100 minus their
/// mean remaining percentage, rounded to one decimal), both computed from
/// the floating-point fields around this module. Without a metered model
/// the line shows 100.
pub open spec fn window_item_spec(
    ms: Seq<ModelView>,
    w: Window,
    label: Seq<char>,
    inactive_detail: Seq<char>,
    show_inactive_reset: bool,
    inactive_display_value: Option<Seq<char>>,
    reset: Seq<char>,
    used_bits: u64,
) -> QuotaItemView {
    QuotaItemView {
        label: label,
        display_value: if metered_spec(ms, w).len() == 0 {
            inactive_display_value
        } else {
            None
        },
        used_bits: if metered_spec(ms, w).len() == 0 {
            HUNDRED_BITS
        } else {
            used_bits
        },
        total_bits: HUNDRED_BITS,
        unit: "%"@,
        detail: window_detail_spec(ms, w, inactive_detail, show_inactive_reset, reset),
    }
}

/// The view of an optional string slice.
pub open spec fn opt_str_view(o: Option<&str>) -> Option<Seq<char>> {
    match o {
        Some(s) => Some(s@),
        None => None,
    }
}

/// The names worth showing in the model hint.
fn collect_hint_names(models: &Vec<ModelRemain>, w: &Window) -> (r: Vec<Vec<char>>)
    ensures
        r@.map_values(|v: Vec<char>| v@) == hint_names(models_view(models@), *w),
{
    let ghost ms = models_view(models@);
    let general = chars_of("general");
    proof {
        reveal_strlit("general");
    }
    let mut r: Vec<Vec<char>> = Vec::new();
    let mut k: usize = 0;
    while k < models.len()
        invariant
            k <= models@.len(),
            ms == models_view(models@),
            general@ == "general"@,
            general@.len() == 7,
            r@.map_values(|v: Vec<char>| v@) == hint_names(ms.take(k as int), *w),
        decreases models@.len() - k,
    {
        assert(ms.take(k + 1).drop_last() =~= ms.take(k as int));
        assert(ms.take(k + 1).last() == models@[k as int]@);
        let ghost before = r@.map_values(|v: Vec<char>| v@);
        let m = &models[k];
        let st = w.status(m);
        let pct = w.remaining_pct(m);
        if st == Some(1i64) && pct.is_some() {
            match &m.model_name {
                Some(n) => {
                    let v = chars_of(n.as_str());
                    let gen = v.len() == 7 && ci_match_at(&v, 0, &general);
                    assert(v.len() == 7 ==> v@.subrange(0, 7) =~= v@);
                    if v.len() > 0 && !gen {
                        r.push(v);
                        assert(r@.map_values(|v: Vec<char>| v@) =~= before.push(n@));
                    }
                },
                None => {},
            }
        }
        k = k + 1;
    }
    assert(ms.take(models@.len() as int) =~= ms);
    r
}

/// The model hint of window `w`.
fn model_hint(models: &Vec<ModelRemain>, w: &Window) -> (r: Vec<char>)
    ensures
        r@ == model_hint_spec(models_view(models@), *w),
{
    let names = collect_hint_names(models, w);
    let sorted = sort_dedup(&names);
    let ghost target = sorted_unique(hint_names(models_view(models@), *w));
    assert(sorted@.map_values(|v: Vec<char>| v@) =~= target);
    if sorted.len() == 0 {
        Vec::new()
    } else {
        let mut out = chars_of(" (");
        let joined = join_chars(&sorted, ", ");
        push_all(&mut out, &joined);
        push_str(&mut out, ")");
        out
    }
}

/// The quota line of window `w`: `label`, the used percentage out of 100
/// `%` (`used_bits`, or 100 when no model is metered), the detail line, and
/// `inactive_display_value` in place of the numbers when no model is
/// metered.
pub fn aggregate_window(
    models: &Vec<ModelRemain>,
    window: &Window,
    label: &str,
    inactive_detail: &str,
    show_inactive_reset: bool,
    inactive_display_value: Option<&str>,
    reset: &str,
    used_bits: u64,
) -> (r: QuotaItem)
    ensures
        r@ == window_item_spec(
            models_view(models@),
            *window,
            label@,
            inactive_detail@,
            show_inactive_reset,
            opt_str_view(inactive_display_value),
            reset@,
            used_bits,
        ),
        metered_spec(models_view(models@), *window).len() == 0 ==> r@.used_bits == HUNDRED_BITS,
        metered_spec(models_view(models@), *window).len() > 0 ==> r@.used_bits == used_bits,
{
    let active = models_in_state(models, window, 1);
    let exhausted = models_in_state(models, window, 2);
    let reset_v = chars_of(reset);
    let ghost ms = models_view(models@);
    let ghost want = window_detail_spec(ms, *window, inactive_detail@, show_inactive_reset, reset@);
    let mut detail: Vec<char> = Vec::new();
    if active.len() == 0 && exhausted.len() > 0 {
        if reset_v.len() > 0 {
            push_str(&mut detail, "额度已用尽 · ");
            push_all(&mut detail, &reset_v);
            push_str(&mut detail, "后重置");
        } else {
            push_str(&mut detail, "额度已用尽");
        }
        assert(detail@ =~= want);
    } else if active.len() == 0 && exhausted.len() == 0 {
        push_str(&mut detail, inactive_detail);
        if show_inactive_reset && reset_v.len() > 0 {
            push_str(&mut detail, " · ");
            push_all(&mut detail, &reset_v);
            push_str(&mut detail, "后重置");
        }
        assert(detail@ =~= want);
    } else if reset_v.len() > 0 {
        push_all(&mut detail, &reset_v);
        push_str(&mut detail, "后重置");
        let hint = model_hint(models, window);
        push_all(&mut detail, &hint);
        assert(detail@ =~= want);
    } else {
        assert(detail@ =~= want);
    }
    let metered_none = active.len() == 0 && exhausted.len() == 0;
    assert(metered_spec(ms, *window).len() == active@.len() + exhausted@.len());
    QuotaItem {
        label: String::from_str(label),
        display_value: if metered_none {
            match inactive_display_value {
                Some(s) => Some(String::from_str(s)),
                None => None,
            }
        } else {
            None
        },
        used_bits: if metered_none {
            HUNDRED_BITS
        } else {
            used_bits
        },
        total_bits: HUNDRED_BITS,
        unit: String::from_str("%"),
        detail: string_of(&detail),
    }
}

/// The two placeholder lines (five-hour and weekly), 0 of 100 `%`, both
/// with `msg` as detail.
pub open spec fn placeholder_items_spec(msg: Seq<char>) -> Seq<QuotaItemView> {
    seq![
        QuotaItemView {
            label: "5小时限额"@,
            display_value: None,
            used_bits: ZERO_BITS,
            total_bits: HUNDRED_BITS,
            unit: "%"@,
            detail: msg,
        },
        QuotaItemView {
            label: "周限额"@,
            display_value: None,
            used_bits: ZERO_BITS,
            total_bits: HUNDRED_BITS,
            unit: "%"@,
            detail: msg,
        },
    ]
}

/// Placeholder lines for an API error or an empty reply.
pub fn placeholder_items(msg: String) -> (r: Vec<QuotaItem>)
    ensures
        items_view(r@) == placeholder_items_spec(msg@),
{
    let mut r: Vec<QuotaItem> = Vec::new();
    r.push(
        QuotaItem {
            label: String::from_str("5小时限额"),
            display_value: None,
            used_bits: ZERO_BITS,
            total_bits: HUNDRED_BITS,
            unit: String::from_str("%"),
            detail: msg.clone(),
        },
    );
    r.push(
        QuotaItem {
            label: String::from_str("周限额"),
            display_value: None,
            used_bits: ZERO_BITS,
            total_bits: HUNDRED_BITS,
            unit: String::from_str("%"),
            detail: msg,
        },
    );
    assert(items_view(r@) =~= placeholder_items_spec(msg@));
    r
}

/// The MiniMax card with the given quota lines.
pub open spec fn minimax_card(items: Seq<QuotaItemView>) -> QuotaResultView {
    QuotaResultView {
        name: "MiniMax"@,
        kind: "quota"@,
        icon: "🟠"@,
        color: "#EA580C"@,
        items: items,
    }
}

/// The MiniMax card with the given quota lines.
pub fn minimax_result(items: Vec<QuotaItem>) -> (r: MinimaxResult)
    ensures
        r@ == minimax_card(items_view(items@)),
{
    MinimaxResult {
        name: String::from_str("MiniMax"),
        kind: String::from_str("quota"),
        icon: String::from_str("🟠"),
        color: String::from_str("#EA580C"),
        items,
    }
}

/// The card for an API error `code` in `base_resp`: placeholder lines
/// saying `API 错误 {code}`.
pub fn api_error_result(code: i64) -> (r: MinimaxResult)
    ensures
        r@ == minimax_card(placeholder_items_spec("API 错误 "@ + signed_decimal(code as int))),
{
    let mut m = chars_of("API 错误 ");
    let c = i64_text(code);
    push_all(&mut m, &c);
    minimax_result(placeholder_items(string_of(&m)))
}

/// The card for a reply without any model: placeholder lines saying
/// `暂无用量数据`.
pub fn no_data_result() -> (r: MinimaxResult)
    ensures
        r@ == minimax_card(placeholder_items_spec("暂无用量数据"@)),
{
    minimax_result(placeholder_items(String::from_str("暂无用量数据")))
}

/// What the status code of `base_resp` decides: an API error for any code
/// other than 0; nothing (go on) for 0 or no code.
pub fn base_resp_outcome(status_code: Option<i64>) -> (r: Option<MinimaxResult>)
    ensures
        match status_code {
            Some(code) => if code != 0 {
                r matches Some(res) && res@ == minimax_card(
                    placeholder_items_spec("API 错误 "@ + signed_decimal(code as int)),
                )
            } else {
                r is None
            },
            None => r is None,
        },
{
    match status_code {
        Some(code) => {
            if code != 0 {
                Some(api_error_result(code))
            } else {
                None
            }
        },
        None => None,
    }
}

/// The card for a decoded reply: an API error when `base_resp` carries a
/// non-zero status code; placeholder lines when there is no model; else
/// the five-hour window (full-quota placeholder `本周期可用` with its reset
/// countdown when unmetered) and the weekly window (`无限额`, shown as `∞`,
/// when unmetered). `interval_reset` / `weekly_reset` are the countdowns to
/// the earliest reset and `interval_used_bits` / `weekly_used_bits` the used
/// percentages of each window, rounded to one decimal.
pub open spec fn minimax_reply_spec(
    status_code: Option<i64>,
    ms: Seq<ModelView>,
    interval_reset: Seq<char>,
    interval_used_bits: u64,
    weekly_reset: Seq<char>,
    weekly_used_bits: u64,
) -> QuotaResultView {
    if status_code is Some && status_code->0 != 0 {
        minimax_card(placeholder_items_spec("API 错误 "@ + signed_decimal(status_code->0 as int)))
    } else if ms.len() == 0 {
        minimax_card(placeholder_items_spec("暂无用量数据"@))
    } else {
        minimax_card(
            seq![
                window_item_spec(
                    ms,
                    Window::Interval,
                    "5小时限额"@,
                    "本周期可用"@,
                    true,
                    None,
                    interval_reset,
                    interval_used_bits,
                ),
                window_item_spec(
                    ms,
                    Window::Weekly,
                    "周限额"@,
                    "无限额"@,
                    false,
                    Some("∞"@),
                    weekly_reset,
                    weekly_used_bits,
                ),
            ],
        )
    }
}

/// The card for a decoded reply with `base_resp.status_code` and the
/// models of `model_remains` (empty when missing or null).
pub fn minimax_reply(
    status_code: Option<i64>,
    models: &Vec<ModelRemain>,
    interval_reset: &str,
    interval_used_bits: u64,
    weekly_reset: &str,
    weekly_used_bits: u64,
) -> (r: MinimaxResult)
    ensures
        r@ == minimax_reply_spec(
            status_code,
            models_view(models@),
            interval_reset@,
            interval_used_bits,
            weekly_reset@,
            weekly_used_bits,
        ),
{
    if let Some(err) = base_resp_outcome(status_code) {
        return err;
    }
    if models.len() == 0 {
        return no_data_result();
    }
    let interval = aggregate_window(
        models,
        &Window::Interval,
        "5小时限额",
        "本周期可用",
        true,
        None,
        interval_reset,
        interval_used_bits,
    );
    let weekly = aggregate_window(
        models,
        &Window::Weekly,
        "周限额",
        "无限额",
        false,
        Some("∞"),
        weekly_reset,
        weekly_used_bits,
    );
    let mut items: Vec<QuotaItem> = Vec::new();
    items.push(interval);
    items.push(weekly);
    let ghost want = seq![items@[0]@, items@[1]@];
    assert(items_view(items@) =~= want);
    minimax_result(items)
}

// ───────────────────────── which models count ─────────────────────────

/// The indices of the models in state `code` are exactly the models with
/// that status and a remaining percentage, each once, in increasing order.
proof fn lemma_indices_in_state(ms: Seq<ModelView>, w: Window, code: i64)
    ensures
        forall|k: int|
            0 <= k < indices_in_state(ms, w, code).len() ==> {
                let j = #[trigger] indices_in_state(ms, w, code)[k];
                &&& 0 <= j < ms.len()
                &&& status_of(w, ms[j]) == Some(code)
                &&& pct_of(w, ms[j]) is Some
            },
        forall|j: int|
            0 <= j < ms.len() && status_of(w, ms[j]) == Some(code) && pct_of(w, ms[j]) is Some
                ==> #[trigger] indices_in_state(ms, w, code).contains(j),
        forall|a: int, b: int|
            0 <= a < b < indices_in_state(ms, w, code).len() ==> #[trigger] indices_in_state(
                ms,
                w,
                code,
            )[a] < #[trigger] indices_in_state(ms, w, code)[b],
    decreases ms.len(),
{
    if ms.len() > 0 {
        let y = ms.drop_last();
        lemma_indices_in_state(y, w, code);
        let iy = indices_in_state(y, w, code);
        let im = indices_in_state(ms, w, code);
        assert forall|k: int| 0 <= k < iy.len() implies iy[k] < y.len() by {}
        assert forall|j: int|
            0 <= j < ms.len() && status_of(w, ms[j]) == Some(code) && pct_of(w, ms[j]) is Some
                implies #[trigger] im.contains(j) by {
            if j < y.len() {
                assert(y[j] == ms[j]);
                assert(iy.contains(j));
                let k = choose|k: int| 0 <= k < iy.len() && iy[k] == j;
                assert(im[k] == j);
            } else {
                assert(im[im.len() - 1] == j);
            }
        }
        assert forall|k: int| 0 <= k < im.len() implies {
            let j = #[trigger] im[k];
            &&& 0 <= j < ms.len()
            &&& status_of(w, ms[j]) == Some(code)
            &&& pct_of(w, ms[j]) is Some
        } by {
            if k < iy.len() {
                assert(im[k] == iy[k]);
                assert(y[iy[k]] == ms[iy[k]]);
            }
        }
    }
}

/// The models averaged into the used percentage of window `w` are exactly
/// those with status 1 (in use) or 2 (used up) there and a remaining
/// percentage: every index listed is such a model, every such model is
/// listed, and none twice. A status-3 (unbilled) model never counts.
pub proof fn law_metered_are_status_one_or_two(ms: Seq<ModelView>, w: Window)
    ensures
        forall|k: int|
            0 <= k < metered_spec(ms, w).len() ==> {
                let j = #[trigger] metered_spec(ms, w)[k];
                &&& 0 <= j < ms.len()
                &&& status_of(w, ms[j]) == Some(1i64) || status_of(w, ms[j]) == Some(2i64)
                &&& pct_of(w, ms[j]) is Some
            },
        forall|j: int|
            0 <= j < ms.len() && (status_of(w, ms[j]) == Some(1i64) || status_of(w, ms[j]) == Some(
                2i64,
            )) && pct_of(w, ms[j]) is Some ==> #[trigger] metered_spec(ms, w).contains(j),
        forall|a: int, b: int|
            0 <= a < metered_spec(ms, w).len() && 0 <= b < metered_spec(ms, w).len() && a != b
                ==> #[trigger] metered_spec(ms, w)[a] != #[trigger] metered_spec(ms, w)[b],
{
    lemma_indices_in_state(ms, w, 1);
    lemma_indices_in_state(ms, w, 2);
    let i1 = indices_in_state(ms, w, 1);
    let i2 = indices_in_state(ms, w, 2);
    let all = metered_spec(ms, w);
    assert(all == i1 + i2);
    assert forall|k: int| 0 <= k < all.len() implies {
        let j = #[trigger] all[k];
        &&& 0 <= j < ms.len()
        &&& status_of(w, ms[j]) == Some(1i64) || status_of(w, ms[j]) == Some(2i64)
        &&& pct_of(w, ms[j]) is Some
    } by {
        if k < i1.len() {
            assert(all[k] == i1[k]);
        } else {
            assert(all[k] == i2[k - i1.len()]);
        }
    }
    assert forall|j: int|
        0 <= j < ms.len() && (status_of(w, ms[j]) == Some(1i64) || status_of(w, ms[j]) == Some(2i64))
            && pct_of(w, ms[j]) is Some implies #[trigger] all.contains(j) by {
        if status_of(w, ms[j]) == Some(1i64) {
            assert(i1.contains(j));
            let k = choose|k: int| 0 <= k < i1.len() && i1[k] == j;
            assert(all[k] == j);
        } else {
            assert(i2.contains(j));
            let k = choose|k: int| 0 <= k < i2.len() && i2[k] == j;
            assert(all[i1.len() + k] == j);
        }
    }
    assert forall|a: int, b: int|
        0 <= a < all.len() && 0 <= b < all.len() && a != b implies #[trigger] all[a] != #[trigger] all[b] by {
        let xa = all[a];
        let xb = all[b];
        if a < i1.len() && b < i1.len() {
            if a < b {
                assert(i1[a] < i1[b]);
            } else {
                assert(i1[b] < i1[a]);
            }
        } else if a >= i1.len() && b >= i1.len() {
            let a2 = a - i1.len();
            let b2 = b - i1.len();
            assert(all[a] == i2[a2]);
            assert(all[b] == i2[b2]);
            if a2 < b2 {
                assert(i2[a2] < i2[b2]);
            } else {
                assert(i2[b2] < i2[a2]);
            }
        } else if a < i1.len() {
            assert(all[a] == i1[a]);
            assert(all[b] == i2[b - i1.len()]);
            assert(status_of(w, ms[xa]) == Some(1i64));
            assert(status_of(w, ms[xb]) == Some(2i64));
        } else {
            assert(all[b] == i1[b]);
            assert(all[a] == i2[a - i1.len()]);
            assert(status_of(w, ms[xb]) == Some(1i64));
            assert(status_of(w, ms[xa]) == Some(2i64));
        }
    }
}

} // verus!

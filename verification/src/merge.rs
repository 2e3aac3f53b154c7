//! Merging each provider's fetch result into the cards read from
//! `balance.json`.
//!
//! The rules, the same for every provider:
//!   - look for the provider's card among the services;
//!       found, with data     → overwrite its fields in place
//!       found, without data  → mark it `loading` (the card shows N/A, not
//!                              the stale file value)
//!   - not found, with data   → append a new card
//!   - GLM cards carry the plan level in their name
//!     (`GLM 智谱AI · {LEVEL}`), so they are matched by prefix
//!   - MiMo has three outcomes: not configured removes its card.
//! Afterwards only the cards of the supported providers (GLM, MiniMax, MiMo)
//! are kept.
use vstd::prelude::*;

use crate::data::{
    blank_service, items_view, services_view, BalanceData, BalanceView, FetchOutcome, GlmResult,
    GlmView, MimoFetch, MimoFetchView, QuotaItem, opt_view, MimoResult, MinimaxResult, QuotaResultView, ServiceInfo,
    ServiceView, copy_items, copy_opt,
};
use crate::text::{
    chars_eq, chars_of, has_prefix, or_default, push_all, push_str, starts_with, string_of, to_uppercase,
    trim, trimmed, uppercase, is_empty_string,
};

verus! {

/// The providers whose cards the merge looks for.
pub enum Provider {
    Glm,
    Minimax,
    Mimo,
}

/// A GLM card: named `GLM 智谱AI`, or that name followed by ` · ` and a level.
pub open spec fn is_glm_name(name: Seq<char>) -> bool {
    name == "GLM 智谱AI"@ || starts_with(name, "GLM 智谱AI · "@)
}

/// A MiniMax card: named `MiniMax`, or by its former name `MiniMax 稀宇科技`.
pub open spec fn is_minimax_name(name: Seq<char>) -> bool {
    name == "MiniMax"@ || name == "MiniMax 稀宇科技"@
}

/// A MiMo card: its name begins with `MiMo`.
pub open spec fn is_mimo_name(name: Seq<char>) -> bool {
    starts_with(name, "MiMo"@)
}

/// Whether a card named `name` belongs to provider `p`.
pub open spec fn provider_matches(p: Provider, name: Seq<char>) -> bool {
    match p {
        Provider::Glm => is_glm_name(name),
        Provider::Minimax => is_minimax_name(name),
        Provider::Mimo => is_mimo_name(name),
    }
}

/// The first index at or after `k` of a card of provider `p`.
pub open spec fn position_from(ss: Seq<ServiceView>, p: Provider, k: int) -> Option<int>
    decreases ss.len() - k,
{
    if k < 0 || k >= ss.len() {
        None
    } else if provider_matches(p, ss[k].name) {
        Some(k)
    } else {
        position_from(ss, p, k + 1)
    }
}

/// The index of the first card of provider `p` (`Iterator::position`).
pub open spec fn position(ss: Seq<ServiceView>, p: Provider) -> Option<int> {
    position_from(ss, p, 0)
}

/// The card `s` marked as having no live data.
pub open spec fn with_loading(s: ServiceView) -> ServiceView {
    ServiceView { loading: true, ..s }
}

/// `s` when it is not empty, otherwise `d`.
pub open spec fn or_else(s: Seq<char>, d: Seq<char>) -> Seq<char> {
    if s.len() == 0 {
        d
    } else {
        s
    }
}

/// The GLM card title: `GLM 智谱AI · {LEVEL}` with the level upper-cased,
/// or `GLM 智谱AI` when there is no level or it is empty.
pub open spec fn glm_title(level: Option<Seq<char>>) -> Seq<char> {
    match level {
        Some(lv) => if lv.len() > 0 {
            "GLM 智谱AI · "@ + uppercase(lv)
        } else {
            "GLM 智谱AI"@
        },
        None => "GLM 智谱AI"@,
    }
}

/// The cards after merging the GLM result.
pub open spec fn merge_glm_spec(ss: Seq<ServiceView>, glm: Option<GlmView>) -> Seq<ServiceView> {
    match position(ss, Provider::Glm) {
        Some(i) => match glm {
            None => ss.update(i, with_loading(ss[i])),
            Some(g) => if g.items.len() == 0 {
                ss.update(i, with_loading(ss[i]))
            } else {
                ss.update(
                    i,
                    ServiceView {
                        name: glm_title(g.level),
                        kind: "quota"@,
                        icon: if g.icon.len() == 0 {
                            ss[i].icon
                        } else {
                            g.icon
                        },
                        color: or_else(g.color, "#2563EB"@),
                        items: g.items,
                        loading: false,
                        ..ss[i]
                    },
                )
            },
        },
        None => match glm {
            Some(g) => if g.items.len() > 0 {
                ss.push(
                    ServiceView {
                        name: glm_title(g.level),
                        kind: "quota"@,
                        icon: or_else(g.icon, "🔷"@),
                        color: or_else(g.color, "#2563EB"@),
                        items: g.items,
                        ..blank_service()
                    },
                )
            } else {
                ss
            },
            None => ss,
        },
    }
}

/// The cards after merging the MiniMax result.
pub open spec fn merge_minimax_spec(ss: Seq<ServiceView>, mm: Option<QuotaResultView>) -> Seq<
    ServiceView,
> {
    match position(ss, Provider::Minimax) {
        Some(i) => match mm {
            None => ss.update(i, with_loading(ss[i])),
            Some(m) => if m.items.len() == 0 {
                ss.update(i, with_loading(ss[i]))
            } else {
                ss.update(
                    i,
                    ServiceView {
                        kind: "quota"@,
                        items: m.items,
                        color: or_else(m.color, "#EA580C"@),
                        icon: if m.icon.len() == 0 {
                            ss[i].icon
                        } else {
                            m.icon
                        },
                        loading: false,
                        ..ss[i]
                    },
                )
            },
        },
        None => match mm {
            Some(m) => if m.items.len() > 0 {
                ss.push(
                    ServiceView {
                        name: "MiniMax"@,
                        kind: "quota"@,
                        icon: or_else(m.icon, "🟠"@),
                        color: or_else(m.color, "#EA580C"@),
                        items: m.items,
                        ..blank_service()
                    },
                )
            } else {
                ss
            },
            None => ss,
        },
    }
}

/// The cards after merging MiMo data (the `Fetched` outcome); `pos` is the
/// index of the existing MiMo card.
pub open spec fn merge_mimo_data_spec(ss: Seq<ServiceView>, pos: Option<int>, m: QuotaResultView) -> Seq<
    ServiceView,
> {
    if m.items.len() == 0 {
        match pos {
            Some(i) => ss.update(i, with_loading(ss[i])),
            None => ss,
        }
    } else {
        let icon = or_else(m.icon, "🧡"@);
        let color = or_else(m.color, "#FF6900"@);
        match pos {
            Some(i) => ss.update(
                i,
                ServiceView {
                    kind: "quota"@,
                    items: m.items,
                    icon: icon,
                    color: color,
                    loading: false,
                    ..ss[i]
                },
            ),
            None => ss.push(
                ServiceView {
                    name: "MiMo"@,
                    kind: "quota"@,
                    icon: icon,
                    color: color,
                    items: m.items,
                    ..blank_service()
                },
            ),
        }
    }
}

/// The cards after merging the MiMo outcome.
pub open spec fn merge_mimo_spec(ss: Seq<ServiceView>, mimo: MimoFetchView) -> Seq<ServiceView> {
    let pos = position(ss, Provider::Mimo);
    match mimo {
        MimoFetchView::NotConfigured => match pos {
            Some(i) => ss.remove(i),
            None => ss,
        },
        MimoFetchView::Failed => match pos {
            Some(i) => ss.update(i, with_loading(ss[i])),
            None => ss,
        },
        MimoFetchView::Fetched(m) => merge_mimo_data_spec(ss, pos, m),
    }
}

/// A card of a supported provider: its trimmed name begins with `GLM`,
/// `MiniMax` or `MiMo`.
pub open spec fn is_supported_name(name: Seq<char>) -> bool {
    let t = trim(name);
    starts_with(t, "GLM"@) || starts_with(t, "MiniMax"@) || starts_with(t, "MiMo"@)
}

/// The cards of supported providers, in their order (`Vec::retain`).
pub open spec fn supported_only(ss: Seq<ServiceView>) -> Seq<ServiceView>
    decreases ss.len(),
{
    if ss.len() == 0 {
        seq![]
    } else if is_supported_name(ss.last().name) {
        supported_only(ss.drop_last()).push(ss.last())
    } else {
        supported_only(ss.drop_last())
    }
}

/// The view of an optional GLM result.
pub open spec fn opt_glm_view(g: Option<GlmResult>) -> Option<GlmView> {
    match g {
        Some(g) => Some(g@),
        None => None,
    }
}

/// The view of an optional MiniMax result.
pub open spec fn opt_minimax_view(m: Option<MinimaxResult>) -> Option<QuotaResultView> {
    match m {
        Some(m) => Some(m@),
        None => None,
    }
}

/// The cards after a whole merge of `outcome`: GLM, then MiniMax, then
/// MiMo, then only the supported providers' cards are kept.
pub open spec fn merged_services(ss: Seq<ServiceView>, outcome: FetchOutcome) -> Seq<ServiceView> {
    supported_only(
        merge_mimo_spec(
            merge_minimax_spec(
                merge_glm_spec(ss, opt_glm_view(outcome.glm)),
                opt_minimax_view(outcome.minimax),
            ),
            outcome.mimo@,
        ),
    )
}

// ───────────────────────── executable merge ─────────────────────────

/// Whether a card named `name` belongs to provider `p`.
pub fn name_matches(p: &Provider, name: &String) -> (r: bool)
    ensures
        r == provider_matches(*p, name@),
{
    let n = chars_of(name.as_str());
    match p {
        Provider::Glm => {
            let whole = chars_of("GLM 智谱AI");
            let prefix = chars_of("GLM 智谱AI · ");
            chars_eq(&n, &whole) || has_prefix(&n, &prefix)
        },
        Provider::Minimax => {
            let a = chars_of("MiniMax");
            let b = chars_of("MiniMax 稀宇科技");
            chars_eq(&n, &a) || chars_eq(&n, &b)
        },
        Provider::Mimo => {
            let prefix = chars_of("MiMo");
            has_prefix(&n, &prefix)
        },
    }
}

/// The index of the first card of provider `p`.
pub fn find_service(services: &Vec<ServiceInfo>, p: &Provider) -> (r: Option<usize>)
    ensures
        position(services_view(services@), *p) == match r {
            Some(i) => Some(i as int),
            None => None::<int>,
        },
        r matches Some(i) ==> i < services@.len(),
{
    let ghost ss = services_view(services@);
    let mut i: usize = 0;
    while i < services.len()
        invariant
            i <= services@.len(),
            ss == services_view(services@),
            position(ss, *p) == position_from(ss, *p, i as int),
        decreases services@.len() - i,
    {
        if name_matches(p, &services[i].name) {
            return Some(i);
        }
        i = i + 1;
    }
    None
}

/// Marks card `i` as having no live data.
fn set_loading(services: &mut Vec<ServiceInfo>, i: usize)
    requires
        i < old(services)@.len(),
    ensures
        services_view(final(services)@) == services_view(old(services)@).update(
            i as int,
            with_loading(services_view(old(services)@)[i as int]),
        ),
{
    let ghost before = services@;
    services[i].loading = true;
    assert(services_view(services@) =~= services_view(before).update(
        i as int,
        with_loading(services_view(before)[i as int]),
    ));
}

/// Replaces card `i` with `s`.
fn replace_service(services: &mut Vec<ServiceInfo>, i: usize, s: ServiceInfo)
    requires
        i < old(services)@.len(),
    ensures
        services_view(final(services)@) == services_view(old(services)@).update(i as int, s@),
{
    let ghost before = services@;
    services.set(i, s);
    assert(services_view(services@) =~= services_view(before).update(i as int, s@));
}

/// Appends card `s`.
fn append_service(services: &mut Vec<ServiceInfo>, s: ServiceInfo)
    ensures
        services_view(final(services)@) == services_view(old(services)@).push(s@),
{
    let ghost before = services@;
    services.push(s);
    assert(services_view(services@) =~= services_view(before).push(s@));
}

/// The GLM card title for an optional plan level.
fn glm_title_text(level: &Option<String>) -> (r: String)
    ensures
        r@ == glm_title(opt_view(*level)),
{
    match level {
        Some(lv) => {
            if is_empty_string(lv) {
                String::from_str("GLM 智谱AI")
            } else {
                let mut v = chars_of("GLM 智谱AI · ");
                let up = to_uppercase(lv.as_str());
                push_str(&mut v, up.as_str());
                string_of(&v)
            }
        },
        None => String::from_str("GLM 智谱AI"),
    }
}

/// A new card with the given identity and quota lines, every other field
/// empty.
fn new_quota_card(name: String, icon: String, color: String, items: Vec<QuotaItem>) -> (r:
    ServiceInfo)
    ensures
        r@ == (ServiceView {
            name: name@,
            kind: "quota"@,
            icon: icon@,
            color: color@,
            items: items_view(items@),
            ..blank_service()
        }),
{
    ServiceInfo {
        name,
        kind: String::from_str("quota"),
        icon,
        color,
        items,
        balance_bits: 0,
        currency: String::new(),
        unit: String::new(),
        detail: String::new(),
        loading: false,
    }
}

/// Merges the GLM result into the cards.
pub fn merge_glm(data: &mut BalanceData, glm: &Option<GlmResult>)
    ensures
        final(data)@ == (BalanceView {
            services: merge_glm_spec(old(data)@.services, opt_glm_view(*glm)),
            ..old(data)@
        }),
{
    let pos = find_service(&data.services, &Provider::Glm);
    match pos {
        Some(i) => {
            match glm {
                None => set_loading(&mut data.services, i),
                Some(g) => {
                    if g.items.len() == 0 {
                        set_loading(&mut data.services, i);
                    } else {
                        let old_svc = &data.services[i];
                        let icon = if is_empty_string(&g.icon) {
                            old_svc.icon.clone()
                        } else {
                            g.icon.clone()
                        };
                        let svc = ServiceInfo {
                            name: glm_title_text(&g.level),
                            kind: String::from_str("quota"),
                            icon,
                            color: or_default(&g.color, "#2563EB"),
                            items: copy_items(&g.items),
                            balance_bits: old_svc.balance_bits,
                            currency: old_svc.currency.clone(),
                            unit: old_svc.unit.clone(),
                            detail: old_svc.detail.clone(),
                            loading: false,
                        };
                        replace_service(&mut data.services, i, svc);
                    }
                },
            }
        },
        None => {
            if let Some(g) = glm {
                if g.items.len() > 0 {
                    let svc = new_quota_card(
                        glm_title_text(&g.level),
                        or_default(&g.icon, "🔷"),
                        or_default(&g.color, "#2563EB"),
                        copy_items(&g.items),
                    );
                    append_service(&mut data.services, svc);
                }
            }
        },
    }
}

/// Merges the MiniMax result into the cards.
pub fn merge_minimax(data: &mut BalanceData, mm: &Option<MinimaxResult>)
    ensures
        final(data)@ == (BalanceView {
            services: merge_minimax_spec(old(data)@.services, opt_minimax_view(*mm)),
            ..old(data)@
        }),
{
    let pos = find_service(&data.services, &Provider::Minimax);
    match pos {
        Some(i) => {
            match mm {
                None => set_loading(&mut data.services, i),
                Some(m) => {
                    if m.items.len() == 0 {
                        set_loading(&mut data.services, i);
                    } else {
                        let old_svc = &data.services[i];
                        let icon = if is_empty_string(&m.icon) {
                            old_svc.icon.clone()
                        } else {
                            m.icon.clone()
                        };
                        let svc = ServiceInfo {
                            name: old_svc.name.clone(),
                            kind: String::from_str("quota"),
                            icon,
                            color: or_default(&m.color, "#EA580C"),
                            items: copy_items(&m.items),
                            balance_bits: old_svc.balance_bits,
                            currency: old_svc.currency.clone(),
                            unit: old_svc.unit.clone(),
                            detail: old_svc.detail.clone(),
                            loading: false,
                        };
                        replace_service(&mut data.services, i, svc);
                    }
                },
            }
        },
        None => {
            if let Some(m) = mm {
                if m.items.len() > 0 {
                    let svc = new_quota_card(
                        String::from_str("MiniMax"),
                        or_default(&m.icon, "🟠"),
                        or_default(&m.color, "#EA580C"),
                        copy_items(&m.items),
                    );
                    append_service(&mut data.services, svc);
                }
            }
        },
    }
}

/// Merges MiMo data into the cards: overwrite the existing card at `pos`,
/// or append a new one.
pub fn merge_ok(data: &mut BalanceData, pos: Option<usize>, m: &MimoResult)
    requires
        pos matches Some(i) ==> i < old(data)@.services.len(),
    ensures
        final(data)@ == (BalanceView {
            services: merge_mimo_data_spec(
                old(data)@.services,
                match pos {
                    Some(i) => Some(i as int),
                    None => None::<int>,
                },
                m@,
            ),
            ..old(data)@
        }),
{
    if m.items.len() == 0 {
        if let Some(i) = pos {
            set_loading(&mut data.services, i);
        }
        return;
    }
    let icon = or_default(&m.icon, "🧡");
    let color = or_default(&m.color, "#FF6900");
    match pos {
        Some(i) => {
            let old_svc = &data.services[i];
            let svc = ServiceInfo {
                name: old_svc.name.clone(),
                kind: String::from_str("quota"),
                icon,
                color,
                items: copy_items(&m.items),
                balance_bits: old_svc.balance_bits,
                currency: old_svc.currency.clone(),
                unit: old_svc.unit.clone(),
                detail: old_svc.detail.clone(),
                loading: false,
            };
            replace_service(&mut data.services, i, svc);
        },
        None => {
            let svc = new_quota_card(String::from_str("MiMo"), icon, color, copy_items(&m.items));
            append_service(&mut data.services, svc);
        },
    }
}

/// Merges the MiMo outcome into the cards: not configured removes the card,
/// a failure marks an existing card loading, data goes through `merge_ok`.
pub fn merge_mimo(data: &mut BalanceData, mimo: &MimoFetch)
    ensures
        final(data)@ == (BalanceView {
            services: merge_mimo_spec(old(data)@.services, mimo@),
            ..old(data)@
        }),
{
    let pos = find_service(&data.services, &Provider::Mimo);
    match mimo {
        MimoFetch::NotConfigured => {
            if let Some(i) = pos {
                let ghost before = data.services@;
                let _removed = data.services.remove(i);
                assert(services_view(data.services@) =~= services_view(before).remove(i as int));
            }
        },
        MimoFetch::Failed => {
            if let Some(i) = pos {
                set_loading(&mut data.services, i);
            }
        },
        MimoFetch::Fetched(m) => merge_ok(data, pos, m),
    }
}

/// Whether a card named `name` belongs to a supported provider.
pub fn supported_name(name: &String) -> (r: bool)
    ensures
        r == is_supported_name(name@),
{
    let n = chars_of(name.as_str());
    let t = trimmed(&n);
    let glm = chars_of("GLM");
    let minimax = chars_of("MiniMax");
    let mimo = chars_of("MiMo");
    has_prefix(&t, &glm) || has_prefix(&t, &minimax) || has_prefix(&t, &mimo)
}

/// Keeps only the cards of supported providers, in order.
pub fn retain_supported(services: &mut Vec<ServiceInfo>)
    ensures
        services_view(final(services)@) == supported_only(services_view(old(services)@)),
{
    let mut kept: Vec<ServiceInfo> = Vec::new();
    let mut rest: Vec<ServiceInfo> = Vec::new();
    std::mem::swap(services, &mut rest);
    let ghost orig = rest@;
    // walk the cards from the back, moving each out; the kept ones are
    // collected in reverse and put back in order below
    let mut rev: Vec<ServiceInfo> = Vec::new();
    while rest.len() > 0
        invariant
            rest@.len() <= orig.len(),
            rest@ == orig.take(rest@.len() as int),
            supported_only(services_view(orig)) == supported_only(services_view(rest@)) + services_view(rev@).reverse(),
        decreases rest@.len(),
    {
        let ghost before = rest@;
        let s = rest.pop().unwrap();
        assert(rest@ =~= before.drop_last());
        assert(services_view(before).drop_last() =~= services_view(rest@));
        if supported_name(&s.name) {
            let ghost rv = rev@;
            rev.push(s);
            assert(services_view(rev@) =~= services_view(rv).push(s@));
            assert(services_view(rev@).reverse() =~= seq![s@] + services_view(rv).reverse());
            assert(supported_only(services_view(before)) =~= supported_only(services_view(rest@)).push(s@));
        } else {
            assert(supported_only(services_view(before)) == supported_only(services_view(rest@)));
        }
        assert(orig.take(rest@.len() as int) =~= orig.take(before.len() as int).drop_last());
    }
    assert(supported_only(services_view(rest@)) =~= seq![]);
    let ghost total = services_view(rev@).reverse();
    while rev.len() > 0
        invariant
            services_view(kept@) + services_view(rev@).reverse() == total,
        decreases rev@.len(),
    {
        let ghost before = rev@;
        let s = rev.pop().unwrap();
        let ghost kb = kept@;
        kept.push(s);
        assert(services_view(rev@) =~= services_view(before).drop_last());
        assert(services_view(kept@) =~= services_view(kb).push(s@));
        assert(services_view(before).reverse() =~= seq![s@] + services_view(rev@).reverse());
        assert(services_view(kept@) + services_view(rev@).reverse() =~= services_view(kb) + services_view(before).reverse());
    }
    assert(services_view(rev@).reverse() =~= seq![]);
    assert(services_view(kept@) =~= total);
    *services = kept;
}

/// Merges a round of fetch results into `data` in place: GLM, then MiniMax,
/// then MiMo, then drops the cards of providers that are no longer
/// supported (such as an old DeepSeek card), which would never refresh.
pub fn merge_api_into(data: &mut BalanceData, outcome: &FetchOutcome)
    ensures
        final(data)@ == (BalanceView {
            services: merged_services(old(data)@.services, *outcome),
            ..old(data)@
        }),
{
    merge_glm(data, &outcome.glm);
    merge_minimax(data, &outcome.minimax);
    merge_mimo(data, &outcome.mimo);
    retain_supported(&mut data.services);
}

} // verus!

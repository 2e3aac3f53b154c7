//! What the whole merge guarantees, beyond each provider's own rule.
use vstd::prelude::*;

use crate::data::{FetchOutcome, GlmView, MimoFetchView, QuotaResultView, ServiceView};
use crate::merge::{
    is_glm_name, is_mimo_name, is_minimax_name, is_supported_name, merge_glm_spec,
    merge_mimo_data_spec, merge_mimo_spec, merge_minimax_spec, merged_services, opt_glm_view,
    opt_minimax_view, or_else, position, position_from, provider_matches, supported_only,
    with_loading, Provider, glm_title,
};
use crate::data::blank_service;
use crate::text::{is_white_space, starts_with, trim, trim_end, trim_start};

verus! {

/// The first card of provider `p`, if there is one.
pub open spec fn provider_card(ss: Seq<ServiceView>, p: Provider) -> Option<ServiceView> {
    match position(ss, p) {
        Some(i) => Some(ss[i]),
        None => None,
    }
}

proof fn lemma_position_from(ss: Seq<ServiceView>, p: Provider, k: int)
    requires
        0 <= k <= ss.len(),
    ensures
        match position_from(ss, p, k) {
            Some(i) => k <= i < ss.len() && provider_matches(p, ss[i].name) && forall|j: int|
                k <= j < i ==> !provider_matches(p, #[trigger] ss[j].name),
            None => forall|j: int| k <= j < ss.len() ==> !provider_matches(p, #[trigger] ss[j].name),
        },
    decreases ss.len() - k,
{
    if k < ss.len() && !provider_matches(p, ss[k].name) {
        lemma_position_from(ss, p, k + 1);
    }
}

/// `position` finds the first matching card, or reports that none matches.
pub proof fn lemma_position(ss: Seq<ServiceView>, p: Provider)
    ensures
        match position(ss, p) {
            Some(i) => 0 <= i < ss.len() && provider_matches(p, ss[i].name) && forall|j: int|
                0 <= j < i ==> !provider_matches(p, #[trigger] ss[j].name),
            None => forall|j: int| 0 <= j < ss.len() ==> !provider_matches(p, #[trigger] ss[j].name),
        },
{
    lemma_position_from(ss, p, 0);
}

/// The position of provider `p` is the same in two lists that agree on
/// which of their common cards are `p`'s, when the longer list's extra
/// cards are not.
proof fn lemma_position_stable(ss: Seq<ServiceView>, tt: Seq<ServiceView>, p: Provider)
    requires
        ss.len() <= tt.len(),
        forall|j: int|
            0 <= j < ss.len() ==> provider_matches(p, #[trigger] tt[j].name) == provider_matches(
                p,
                ss[j].name,
            ),
        forall|j: int| ss.len() <= j < tt.len() ==> !provider_matches(p, #[trigger] tt[j].name),
    ensures
        position(tt, p) == position(ss, p),
{
    lemma_position(ss, p);
    lemma_position(tt, p);
    match position(ss, p) {
        Some(i) => {
            assert(provider_matches(p, tt[i].name));
            match position(tt, p) {
                Some(i2) => {
                    if i2 < i {
                        assert(provider_matches(p, ss[i2].name));
                    }
                    if i2 > i {
                        assert(!provider_matches(p, tt[i].name));
                    }
                },
                None => {
                    assert(!provider_matches(p, tt[i].name));
                },
            }
        },
        None => {
            match position(tt, p) {
                Some(i2) => {
                    if i2 < ss.len() {
                        assert(provider_matches(p, ss[i2].name));
                    }
                },
                None => {},
            }
        },
    }
}

/// The three providers' card names never overlap.
pub proof fn lemma_names_disjoint(n: Seq<char>)
    ensures
        is_glm_name(n) ==> !is_minimax_name(n) && !is_mimo_name(n),
        is_minimax_name(n) ==> !is_mimo_name(n),
{
    reveal_strlit("GLM 智谱AI");
    reveal_strlit("GLM 智谱AI · ");
    reveal_strlit("MiniMax");
    reveal_strlit("MiniMax 稀宇科技");
    reveal_strlit("MiMo");
    if is_glm_name(n) {
        assert(n[0] == 'G') by {
            if n == "GLM 智谱AI"@ {
            } else {
                assert(n.take(("GLM 智谱AI · "@).len() as int)[0] == n[0]);
            }
        }
    }
    if is_mimo_name(n) {
        assert(n.take(4)[0] == n[0]);
        assert(n.take(4)[2] == n[2]);
        assert(n[0] == 'M' && n[2] == 'M');
    }
}

proof fn lemma_trim_start_keeps(s: Seq<char>)
    requires
        s.len() > 0,
        !is_white_space(s[0]),
    ensures
        trim_start(s) == s,
{
}

proof fn lemma_trim_end_keeps_prefix(s: Seq<char>, p: Seq<char>)
    requires
        starts_with(s, p),
        p.len() > 0,
        !is_white_space(p.last()),
    ensures
        starts_with(trim_end(s), p),
    decreases s.len(),
{
    if s.len() > 0 && is_white_space(s.last()) {
        if s.len() == p.len() {
            assert(s.take(p.len() as int) =~= s);
            assert(s.last() == p.last());
        }
        assert(s.drop_last().take(p.len() as int) =~= s.take(p.len() as int));
        lemma_trim_end_keeps_prefix(s.drop_last(), p);
    }
}

/// A name that begins with `p` (whose first and last characters are not
/// white space) still begins with `p` after trimming.
proof fn lemma_trim_keeps_prefix(s: Seq<char>, p: Seq<char>)
    requires
        starts_with(s, p),
        p.len() > 0,
        !is_white_space(p[0]),
        !is_white_space(p.last()),
    ensures
        starts_with(trim(s), p),
{
    assert(s.take(p.len() as int)[0] == s[0]);
    lemma_trim_start_keeps(s);
    lemma_trim_end_keeps_prefix(s, p);
}

/// Every provider card is a supported card.
pub proof fn lemma_provider_names_supported(n: Seq<char>)
    ensures
        (is_glm_name(n) || is_minimax_name(n) || is_mimo_name(n)) ==> is_supported_name(n),
{
    reveal_strlit("GLM 智谱AI");
    reveal_strlit("GLM 智谱AI · ");
    reveal_strlit("MiniMax");
    reveal_strlit("MiniMax 稀宇科技");
    reveal_strlit("MiMo");
    reveal_strlit("GLM");
    let glm = "GLM"@;
    let minimax = "MiniMax"@;
    let mimo = "MiMo"@;
    if is_glm_name(n) {
        let long = "GLM 智谱AI · "@;
        if n == "GLM 智谱AI"@ {
            assert(n.take(3) =~= glm);
        } else {
            assert(n.take(3) =~= long.take(3));
            assert(long.take(3) =~= glm);
        }
        lemma_trim_keeps_prefix(n, glm);
    } else if is_minimax_name(n) {
        if n == "MiniMax"@ {
            assert(n.take(7) =~= minimax);
        } else {
            assert(n.take(7) =~= minimax);
        }
        lemma_trim_keeps_prefix(n, minimax);
    } else if is_mimo_name(n) {
        lemma_trim_keeps_prefix(n, mimo);
    }
}

/// `supported_only` keeps exactly the supported cards.
pub proof fn lemma_supported_only_contains(ss: Seq<ServiceView>, x: ServiceView)
    ensures
        supported_only(ss).contains(x) <==> (ss.contains(x) && is_supported_name(x.name)),
    decreases ss.len(),
{
    if ss.len() > 0 {
        let rest = ss.drop_last();
        lemma_supported_only_contains(rest, x);
        assert(ss =~= rest.push(ss.last()));
        if rest.contains(x) {
            let j = choose|j: int| 0 <= j < rest.len() && rest[j] == x;
            assert(ss[j] == x);
        }
        if ss.contains(x) && x != ss.last() {
            let j = choose|j: int| 0 <= j < ss.len() && ss[j] == x;
            assert(rest[j] == x);
        }
        let r = supported_only(rest);
        if is_supported_name(ss.last().name) {
            assert(supported_only(ss) == r.push(ss.last()));
            if r.contains(x) {
                let j = choose|j: int| 0 <= j < r.len() && r[j] == x;
                assert(r.push(ss.last())[j] == x);
            }
            if r.push(ss.last()).contains(x) && x != ss.last() {
                let j = choose|j: int| 0 <= j < r.len() + 1 && r.push(ss.last())[j] == x;
                assert(r[j] == x);
            }
            assert(r.push(ss.last())[r.len() as int] == ss.last());
        }
    } else {
        assert(supported_only(ss) =~= seq![]);
    }
}

/// Every card left by the merge is a card of a supported provider (GLM,
/// MiniMax, MiMo): retired providers' cards never stay behind.
pub proof fn law_merged_cards_supported(ss: Seq<ServiceView>, outcome: FetchOutcome)
    ensures
        forall|i: int|
            0 <= i < merged_services(ss, outcome).len() ==> is_supported_name(
                #[trigger] merged_services(ss, outcome)[i].name,
            ),
{
    let pre = merge_mimo_spec(
        merge_minimax_spec(
            merge_glm_spec(ss, opt_glm_view(outcome.glm)),
            opt_minimax_view(outcome.minimax),
        ),
        outcome.mimo@,
    );
    assert forall|i: int|
        0 <= i < merged_services(ss, outcome).len() implies is_supported_name(
        #[trigger] merged_services(ss, outcome)[i].name,
    ) by {
        let x = merged_services(ss, outcome)[i];
        assert(supported_only(pre).contains(x));
        lemma_supported_only_contains(pre, x);
    }
}

// ───────────────────────── each step leaves other cards alone ─────────────────────────

/// The GLM step keeps every card that is not a GLM card, at its index,
/// and adds at most a GLM card at the end.
proof fn lemma_glm_step_frame(ss: Seq<ServiceView>, g: Option<GlmView>)
    ensures
        ({
            let tt = merge_glm_spec(ss, g);
            &&& ss.len() <= tt.len() <= ss.len() + 1
            &&& forall|j: int|
                0 <= j < ss.len() && !is_glm_name(ss[j].name) ==> #[trigger] tt[j] == ss[j]
            &&& forall|j: int| 0 <= j < ss.len() ==> is_glm_name(#[trigger] tt[j].name) == is_glm_name(ss[j].name)
            &&& forall|j: int| ss.len() <= j < tt.len() ==> is_glm_name(#[trigger] tt[j].name)
        }),
{
    lemma_position(ss, Provider::Glm);
    reveal_strlit("GLM 智谱AI");
    reveal_strlit("GLM 智谱AI · ");
    let tt = merge_glm_spec(ss, g);
    match position(ss, Provider::Glm) {
        Some(i) => {
            match g {
                Some(gv) => {
                    if gv.items.len() > 0 {
                        lemma_glm_title_is_glm_name(gv.level);
                    }
                },
                None => {},
            }
        },
        None => {
            match g {
                Some(gv) => {
                    if gv.items.len() > 0 {
                        lemma_glm_title_is_glm_name(gv.level);
                        assert(tt[ss.len() as int].name == crate::merge::glm_title(gv.level));
                    }
                },
                None => {},
            }
        },
    }
}

/// A GLM card title is a GLM card name.
proof fn lemma_glm_title_is_glm_name(level: Option<Seq<char>>)
    ensures
        is_glm_name(crate::merge::glm_title(level)),
{
    let t = crate::merge::glm_title(level);
    match level {
        Some(lv) => {
            if lv.len() > 0 {
                let head = "GLM 智谱AI · "@;
                assert(t.take(head.len() as int) =~= head);
            }
        },
        None => {},
    }
}

/// The MiniMax step keeps every card that is not a MiniMax card, at its
/// index, and adds at most a MiniMax card at the end.
proof fn lemma_minimax_step_frame(ss: Seq<ServiceView>, m: Option<QuotaResultView>)
    ensures
        ({
            let tt = merge_minimax_spec(ss, m);
            &&& ss.len() <= tt.len() <= ss.len() + 1
            &&& forall|j: int|
                0 <= j < ss.len() && !is_minimax_name(ss[j].name) ==> #[trigger] tt[j] == ss[j]
            &&& forall|j: int|
                0 <= j < ss.len() ==> (#[trigger] tt[j]).name == ss[j].name
            &&& forall|j: int| ss.len() <= j < tt.len() ==> is_minimax_name(#[trigger] tt[j].name)
        }),
{
    lemma_position(ss, Provider::Minimax);
}

/// The MiMo step keeps every card that is not the first MiMo card, in
/// order; with data it adds at most a MiMo card at the end.
proof fn lemma_mimo_step_keeps(ss: Seq<ServiceView>, mimo: MimoFetchView, x: ServiceView)
    requires
        ss.contains(x),
        !is_mimo_name(x.name),
    ensures
        merge_mimo_spec(ss, mimo).contains(x),
{
    lemma_position(ss, Provider::Mimo);
    let j = choose|j: int| 0 <= j < ss.len() && ss[j] == x;
    let tt = merge_mimo_spec(ss, mimo);
    match position(ss, Provider::Mimo) {
        Some(i) => {
            assert(i != j);
            match mimo {
                MimoFetchView::NotConfigured => {
                    if j < i {
                        assert(tt[j] == x);
                    } else {
                        assert(tt[j - 1] == x);
                    }
                },
                MimoFetchView::Failed => {
                    assert(tt[j] == x);
                },
                MimoFetchView::Fetched(m) => {
                    assert(tt[j] == x);
                },
            }
        },
        None => {
            match mimo {
                MimoFetchView::Fetched(m) => {
                    assert(tt[j] == x);
                },
                _ => {
                    assert(tt[j] == x);
                },
            }
        },
    }
}

/// The MiniMax step keeps every card that is not a MiniMax card.
proof fn lemma_minimax_step_keeps(ss: Seq<ServiceView>, m: Option<QuotaResultView>, x: ServiceView)
    requires
        ss.contains(x),
        !is_minimax_name(x.name),
    ensures
        merge_minimax_spec(ss, m).contains(x),
{
    lemma_minimax_step_frame(ss, m);
    let j = choose|j: int| 0 <= j < ss.len() && ss[j] == x;
    assert(merge_minimax_spec(ss, m)[j] == x);
}

/// A MiniMax or MiMo card written before the later steps survives them and
/// the final filter.
proof fn lemma_survives_after_minimax(tt: Seq<ServiceView>, outcome: FetchOutcome, x: ServiceView)
    requires
        tt.contains(x),
        is_minimax_name(x.name),
    ensures
        supported_only(merge_mimo_spec(tt, outcome.mimo@)).contains(x),
{
    lemma_names_disjoint(x.name);
    lemma_mimo_step_keeps(tt, outcome.mimo@, x);
    lemma_provider_names_supported(x.name);
    lemma_supported_only_contains(merge_mimo_spec(tt, outcome.mimo@), x);
}

// ───────────────────────── each provider's card survives ─────────────────────────

/// The card that the GLM rule leaves as the first GLM card (overwritten,
/// marked loading, or newly appended) is among the cards after the whole
/// merge.
pub proof fn law_glm_card_survives(ss: Seq<ServiceView>, outcome: FetchOutcome)
    ensures
        provider_card(merge_glm_spec(ss, opt_glm_view(outcome.glm)), Provider::Glm) matches Some(c)
            ==> merged_services(ss, outcome).contains(c),
{
    let t1 = merge_glm_spec(ss, opt_glm_view(outcome.glm));
    lemma_position(t1, Provider::Glm);
    if let Some(i) = position(t1, Provider::Glm) {
        let c = t1[i];
        assert(is_glm_name(c.name));
        lemma_names_disjoint(c.name);
        assert(t1.contains(c));
        lemma_minimax_step_keeps(t1, opt_minimax_view(outcome.minimax), c);
        let t2 = merge_minimax_spec(t1, opt_minimax_view(outcome.minimax));
        lemma_mimo_step_keeps(t2, outcome.mimo@, c);
        lemma_provider_names_supported(c.name);
        lemma_supported_only_contains(merge_mimo_spec(t2, outcome.mimo@), c);
    }
}

/// The card that the MiniMax rule leaves as the first MiniMax card of the
/// cards read from the file is among the cards after the whole merge: the
/// GLM step before it neither moves nor touches MiniMax cards.
pub proof fn law_minimax_card_survives(ss: Seq<ServiceView>, outcome: FetchOutcome)
    ensures
        provider_card(merge_minimax_spec(ss, opt_minimax_view(outcome.minimax)), Provider::Minimax)
            matches Some(c) ==> merged_services(ss, outcome).contains(c),
{
    let m = opt_minimax_view(outcome.minimax);
    let t1 = merge_glm_spec(ss, opt_glm_view(outcome.glm));
    lemma_glm_step_frame(ss, opt_glm_view(outcome.glm));
    // the GLM step changes only GLM cards, so MiniMax finds the same card
    assert forall|j: int| 0 <= j < ss.len() implies provider_matches(
        Provider::Minimax,
        #[trigger] t1[j].name,
    ) == provider_matches(Provider::Minimax, ss[j].name) by {
        lemma_names_disjoint(ss[j].name);
        lemma_names_disjoint(t1[j].name);
    }
    assert forall|j: int| ss.len() <= j < t1.len() implies !provider_matches(
        Provider::Minimax,
        #[trigger] t1[j].name,
    ) by {
        lemma_names_disjoint(t1[j].name);
    }
    lemma_position_stable(ss, t1, Provider::Minimax);
    lemma_position(ss, Provider::Minimax);
    let s2 = merge_minimax_spec(ss, m);
    let t2 = merge_minimax_spec(t1, m);
    lemma_position(s2, Provider::Minimax);
    if let Some(k) = position(s2, Provider::Minimax) {
        let c = s2[k];
        match position(ss, Provider::Minimax) {
            Some(i) => {
                lemma_names_disjoint(ss[i].name);
                assert(t1[i] == ss[i]);
                if k != i {
                    // the card at `i` is a MiniMax card in `s2` too
                    assert(is_minimax_name(s2[i].name));
                    if k > i {
                    } else {
                        assert(is_minimax_name(ss[k].name) == is_minimax_name(s2[k].name));
                    }
                }
                assert(t2[i] == c);
                assert(t2.contains(c));
            },
            None => {
                // the card is the appended one
                if k < ss.len() {
                    assert(s2[k] == ss[k]);
                }
                assert(k == ss.len());
                assert(t2[t1.len() as int] == c);
                assert(t2.contains(c));
            },
        }
        lemma_survives_after_minimax(t2, outcome, c);
    }
}

/// The GLM and MiniMax steps leave the MiMo cards where they are, and add
/// none.
proof fn lemma_pre_mimo_frame(ss: Seq<ServiceView>, outcome: FetchOutcome)
    ensures
        ({
            let t2 = merge_minimax_spec(
                merge_glm_spec(ss, opt_glm_view(outcome.glm)),
                opt_minimax_view(outcome.minimax),
            );
            &&& ss.len() <= t2.len()
            &&& forall|j: int|
                0 <= j < ss.len() && is_mimo_name(ss[j].name) ==> #[trigger] t2[j] == ss[j]
            &&& forall|j: int|
                0 <= j < ss.len() ==> is_mimo_name(#[trigger] t2[j].name) == is_mimo_name(ss[j].name)
            &&& forall|j: int| ss.len() <= j < t2.len() ==> !is_mimo_name(#[trigger] t2[j].name)
        }),
{
    let t1 = merge_glm_spec(ss, opt_glm_view(outcome.glm));
    let t2 = merge_minimax_spec(t1, opt_minimax_view(outcome.minimax));
    lemma_glm_step_frame(ss, opt_glm_view(outcome.glm));
    lemma_minimax_step_frame(t1, opt_minimax_view(outcome.minimax));
    assert forall|j: int| 0 <= j < ss.len() && is_mimo_name(ss[j].name) implies #[trigger] t2[j]
        == ss[j] by {
        lemma_names_disjoint(ss[j].name);
        assert(t1[j] == ss[j]);
    }
    assert forall|j: int| 0 <= j < ss.len() implies is_mimo_name(#[trigger] t2[j].name)
        == is_mimo_name(ss[j].name) by {
        lemma_names_disjoint(ss[j].name);
        lemma_names_disjoint(t1[j].name);
        assert(t2[j].name == t1[j].name);
    }
    assert forall|j: int| ss.len() <= j < t2.len() implies !is_mimo_name(#[trigger] t2[j].name) by {
        if j < t1.len() {
            assert(t2[j].name == t1[j].name);
            lemma_names_disjoint(t1[j].name);
        } else {
            lemma_names_disjoint(t2[j].name);
        }
    }
}

/// The card that the MiMo rule leaves as the first MiMo card of the cards
/// read from the file (marked loading, overwritten, appended, or — when
/// MiMo is not configured — the next MiMo card after the removed one) is
/// among the cards after the whole merge.
pub proof fn law_mimo_card_survives(ss: Seq<ServiceView>, outcome: FetchOutcome)
    ensures
        provider_card(merge_mimo_spec(ss, outcome.mimo@), Provider::Mimo) matches Some(c)
            ==> merged_services(ss, outcome).contains(c),
{
    let t2 = merge_minimax_spec(
        merge_glm_spec(ss, opt_glm_view(outcome.glm)),
        opt_minimax_view(outcome.minimax),
    );
    lemma_pre_mimo_frame(ss, outcome);
    lemma_position_stable(ss, t2, Provider::Mimo);
    lemma_position(ss, Provider::Mimo);
    let s3 = merge_mimo_spec(ss, outcome.mimo@);
    let t3 = merge_mimo_spec(t2, outcome.mimo@);
    lemma_position(s3, Provider::Mimo);
    if let Some(k) = position(s3, Provider::Mimo) {
        let c = s3[k];
        match position(ss, Provider::Mimo) {
            Some(i) => {
                match outcome.mimo@ {
                    MimoFetchView::NotConfigured => {
                        if k < i {
                            assert(s3[k] == ss[k]);
                        }
                        assert(s3[k] == ss[k + 1]);
                        assert(t2[k + 1] == ss[k + 1]);
                        assert(t3[k] == c);
                    },
                    MimoFetchView::Failed => {
                        if k != i {
                            assert(is_mimo_name(s3[i].name));
                            if k < i {
                                assert(s3[k] == ss[k]);
                            }
                        }
                        assert(t3[i] == c);
                    },
                    MimoFetchView::Fetched(m) => {
                        if k != i {
                            assert(is_mimo_name(s3[i].name));
                            if k < i {
                                assert(s3[k] == ss[k]);
                            }
                        }
                        assert(t3[i] == c);
                    },
                }
            },
            None => {
                match outcome.mimo@ {
                    MimoFetchView::Fetched(m) => {
                        if k < ss.len() {
                            assert(s3[k] == ss[k]);
                        }
                        if m.items.len() > 0 {
                            assert(t3[t2.len() as int] == c);
                        }
                    },
                    _ => {
                        assert(s3[k] == ss[k]);
                    },
                }
            },
        }
        assert(t3.contains(c));
        lemma_provider_names_supported(c.name);
        lemma_supported_only_contains(t3, c);
    }
}

/// With MiMo not configured and at most one MiMo card in the file (as in
/// the template), no MiMo card is left after the merge: users who never
/// enabled MiMo see no dead card.
pub proof fn law_unconfigured_mimo_removed(ss: Seq<ServiceView>, outcome: FetchOutcome)
    requires
        outcome.mimo@ is NotConfigured,
        forall|i: int, j: int|
            0 <= i < ss.len() && 0 <= j < ss.len() && is_mimo_name(#[trigger] ss[i].name)
                && is_mimo_name(#[trigger] ss[j].name) ==> i == j,
    ensures
        forall|i: int|
            0 <= i < merged_services(ss, outcome).len() ==> !is_mimo_name(
                #[trigger] merged_services(ss, outcome)[i].name,
            ),
{
    let t2 = merge_minimax_spec(
        merge_glm_spec(ss, opt_glm_view(outcome.glm)),
        opt_minimax_view(outcome.minimax),
    );
    lemma_pre_mimo_frame(ss, outcome);
    lemma_position_stable(ss, t2, Provider::Mimo);
    lemma_position(t2, Provider::Mimo);
    let t3 = merge_mimo_spec(t2, outcome.mimo@);
    assert forall|j: int| 0 <= j < t3.len() implies !is_mimo_name(#[trigger] t3[j].name) by {
        match position(t2, Provider::Mimo) {
            Some(i) => {
                let src = if j < i {
                    j
                } else {
                    j + 1
                };
                assert(t3[j] == t2[src]);
                if is_mimo_name(t2[src].name) {
                    assert(src < ss.len());
                    assert(is_mimo_name(ss[src].name));
                    assert(is_mimo_name(ss[i].name));
                }
            },
            None => {
                assert(t3[j] == t2[j]);
            },
        }
    }
    let r = merged_services(ss, outcome);
    assert forall|i: int| 0 <= i < r.len() implies !is_mimo_name(#[trigger] r[i].name) by {
        let x = r[i];
        assert(supported_only(t3).contains(x));
        lemma_supported_only_contains(t3, x);
        let j = choose|j: int| 0 <= j < t3.len() && t3[j] == x;
    }
}

// ───────────────────────── merging twice is merging once ─────────────────────────

/// `position` is `k` when the card at `k` is the first card of provider `p`,
/// and `None` when no card is.
proof fn lemma_position_is(ss: Seq<ServiceView>, p: Provider, k: Option<int>)
    requires
        match k {
            Some(k) => 0 <= k < ss.len() && provider_matches(p, ss[k].name) && forall|j: int|
                0 <= j < k ==> !provider_matches(p, #[trigger] ss[j].name),
            None => forall|j: int| 0 <= j < ss.len() ==> !provider_matches(p, #[trigger] ss[j].name),
        },
    ensures
        position(ss, p) == k,
{
    lemma_position(ss, p);
    match position(ss, p) {
        Some(i) => match k {
            Some(k) => {
                if i < k {
                    assert(!provider_matches(p, ss[i].name));
                }
                if i > k {
                    assert(!provider_matches(p, ss[k].name));
                }
            },
            None => {
                assert(!provider_matches(p, ss[i].name));
            },
        },
        None => match k {
            Some(k) => {
                assert(!provider_matches(p, ss[k].name));
            },
            None => {},
        },
    }
}

/// The first card of provider `p` after pushing `l`.
proof fn lemma_card_push(ss: Seq<ServiceView>, l: ServiceView, p: Provider)
    ensures
        provider_card(ss.push(l), p) == match provider_card(ss, p) {
            Some(c) => Some(c),
            None => if provider_matches(p, l.name) {
                Some(l)
            } else {
                None
            },
        },
{
    let tt = ss.push(l);
    lemma_position(ss, p);
    match position(ss, p) {
        Some(i) => {
            assert(tt[i] == ss[i]);
            assert forall|j: int| 0 <= j < i implies !provider_matches(p, #[trigger] tt[j].name) by {
                assert(tt[j] == ss[j]);
            }
            lemma_position_is(tt, p, Some(i));
        },
        None => {
            assert forall|j: int| 0 <= j < ss.len() implies !provider_matches(p, #[trigger] tt[j].name) by {
                assert(tt[j] == ss[j]);
            }
            if provider_matches(p, l.name) {
                assert(tt[ss.len() as int] == l);
                lemma_position_is(tt, p, Some(ss.len() as int));
            } else {
                assert forall|j: int| 0 <= j < tt.len() implies !provider_matches(p, #[trigger] tt[j].name) by {
                    if j < ss.len() {
                        assert(tt[j] == ss[j]);
                    }
                }
                lemma_position_is(tt, p, None);
            }
        },
    }
}

/// Keeping only the supported cards keeps the first card of every provider.
proof fn lemma_card_supported(ss: Seq<ServiceView>, p: Provider)
    ensures
        provider_card(supported_only(ss), p) == provider_card(ss, p),
    decreases ss.len(),
{
    if ss.len() == 0 {
        lemma_position_is(ss, p, None);
        lemma_position_is(supported_only(ss), p, None);
    } else {
        let y = ss.drop_last();
        let l = ss.last();
        assert(ss =~= y.push(l));
        lemma_card_supported(y, p);
        lemma_card_push(y, l, p);
        lemma_provider_names_supported(l.name);
        if is_supported_name(l.name) {
            lemma_card_push(supported_only(y), l, p);
        }
    }
}

/// Every card of a list of supported cards stays.
proof fn lemma_supported_only_fixed(ss: Seq<ServiceView>)
    requires
        forall|i: int| 0 <= i < ss.len() ==> is_supported_name(#[trigger] ss[i].name),
    ensures
        supported_only(ss) == ss,
    decreases ss.len(),
{
    if ss.len() > 0 {
        let y = ss.drop_last();
        assert forall|i: int| 0 <= i < y.len() implies is_supported_name(#[trigger] y[i].name) by {
            assert(y[i] == ss[i]);
        }
        lemma_supported_only_fixed(y);
        assert(is_supported_name(ss[ss.len() - 1].name));
        assert(ss =~= y.push(ss.last()));
    } else {
        assert(ss =~= seq![]);
    }
}

/// Every card that the filter keeps is supported.
proof fn lemma_supported_only_all(ss: Seq<ServiceView>)
    ensures
        forall|i: int|
            0 <= i < supported_only(ss).len() ==> is_supported_name(#[trigger] supported_only(ss)[i].name),
{
    assert forall|i: int| 0 <= i < supported_only(ss).len() implies is_supported_name(
        #[trigger] supported_only(ss)[i].name,
    ) by {
        let x = supported_only(ss)[i];
        assert(supported_only(ss).contains(x));
        lemma_supported_only_contains(ss, x);
    }
}

/// Replacing a card that is not `p`'s by another that is not keeps `p`'s
/// first card.
proof fn lemma_card_update_other(ss: Seq<ServiceView>, i: int, v: ServiceView, p: Provider)
    requires
        0 <= i < ss.len(),
        !provider_matches(p, ss[i].name),
        !provider_matches(p, v.name),
    ensures
        provider_card(ss.update(i, v), p) == provider_card(ss, p),
{
    let tt = ss.update(i, v);
    lemma_position_stable(ss, tt, p);
    lemma_position(ss, p);
}

/// Replacing `p`'s first card by a card of `p` makes it the first card.
proof fn lemma_card_update_same(ss: Seq<ServiceView>, i: int, v: ServiceView, p: Provider)
    requires
        position(ss, p) == Some(i),
        provider_matches(p, v.name),
    ensures
        provider_card(ss.update(i, v), p) == Some(v),
{
    lemma_position(ss, p);
    let tt = ss.update(i, v);
    lemma_position_stable(ss, tt, p);
}

/// Removing a card that is not `p`'s keeps `p`'s first card.
proof fn lemma_card_remove_other(ss: Seq<ServiceView>, i: int, p: Provider)
    requires
        0 <= i < ss.len(),
        !provider_matches(p, ss[i].name),
    ensures
        provider_card(ss.remove(i), p) == provider_card(ss, p),
{
    let tt = ss.remove(i);
    lemma_position(ss, p);
    match position(ss, p) {
        Some(k) => {
            let k2 = if k < i {
                k
            } else {
                k - 1
            };
            assert(tt[k2] == ss[k]);
            assert forall|j: int| 0 <= j < k2 implies !provider_matches(p, #[trigger] tt[j].name) by {
                if j < i {
                    assert(tt[j] == ss[j]);
                } else {
                    assert(tt[j] == ss[j + 1]);
                }
            }
            lemma_position_is(tt, p, Some(k2));
        },
        None => {
            assert forall|j: int| 0 <= j < tt.len() implies !provider_matches(p, #[trigger] tt[j].name) by {
                if j < i {
                    assert(tt[j] == ss[j]);
                } else {
                    assert(tt[j] == ss[j + 1]);
                }
            }
            lemma_position_is(tt, p, None);
        },
    }
}

/// A card of another provider than GLM is not a GLM card, and so on.
proof fn lemma_other_provider(n: Seq<char>, p: Provider)
    ensures
        p != Provider::Glm && provider_matches(p, n) ==> !is_glm_name(n),
        p != Provider::Minimax && provider_matches(p, n) ==> !is_minimax_name(n),
        p != Provider::Mimo && provider_matches(p, n) ==> !is_mimo_name(n),
{
    lemma_names_disjoint(n);
}

/// The GLM step keeps the first card of the other providers.
proof fn lemma_glm_step_keeps_card(ss: Seq<ServiceView>, g: Option<GlmView>, p: Provider)
    requires
        p != Provider::Glm,
    ensures
        provider_card(merge_glm_spec(ss, g), p) == provider_card(ss, p),
{
    let tt = merge_glm_spec(ss, g);
    lemma_glm_step_frame(ss, g);
    assert forall|j: int| 0 <= j < ss.len() implies provider_matches(p, #[trigger] tt[j].name)
        == provider_matches(p, ss[j].name) by {
        lemma_other_provider(ss[j].name, p);
        lemma_other_provider(tt[j].name, p);
    }
    assert forall|j: int| ss.len() <= j < tt.len() implies !provider_matches(p, #[trigger] tt[j].name) by {
        lemma_other_provider(tt[j].name, p);
    }
    lemma_position_stable(ss, tt, p);
    lemma_position(ss, p);
    if let Some(k) = position(ss, p) {
        lemma_other_provider(ss[k].name, p);
    }
}

/// The MiniMax step keeps the first card of the other providers.
proof fn lemma_minimax_step_keeps_card(ss: Seq<ServiceView>, m: Option<QuotaResultView>, p: Provider)
    requires
        p != Provider::Minimax,
    ensures
        provider_card(merge_minimax_spec(ss, m), p) == provider_card(ss, p),
{
    let tt = merge_minimax_spec(ss, m);
    lemma_minimax_step_frame(ss, m);
    assert forall|j: int| ss.len() <= j < tt.len() implies !provider_matches(p, #[trigger] tt[j].name) by {
        lemma_other_provider(tt[j].name, p);
    }
    lemma_position_stable(ss, tt, p);
    lemma_position(ss, p);
    if let Some(k) = position(ss, p) {
        lemma_other_provider(ss[k].name, p);
    }
}

/// The name of a new MiMo card is a MiMo card name.
proof fn lemma_mimo_name_is_mimo()
    ensures
        is_mimo_name("MiMo"@),
{
    reveal_strlit("MiMo");
    assert("MiMo"@.take(4) =~= "MiMo"@);
}

/// The MiMo step keeps the first card of the other providers.
proof fn lemma_mimo_step_keeps_card(ss: Seq<ServiceView>, mimo: MimoFetchView, p: Provider)
    requires
        p != Provider::Mimo,
    ensures
        provider_card(merge_mimo_spec(ss, mimo), p) == provider_card(ss, p),
{
    lemma_position(ss, Provider::Mimo);
    match position(ss, Provider::Mimo) {
        Some(i) => {
            lemma_other_provider(ss[i].name, p);
            match mimo {
                MimoFetchView::NotConfigured => {
                    lemma_card_remove_other(ss, i, p);
                },
                MimoFetchView::Failed => {
                    lemma_card_update_other(ss, i, with_loading(ss[i]), p);
                },
                MimoFetchView::Fetched(m) => {
                    let tt = merge_mimo_spec(ss, mimo);
                    assert(tt.len() == ss.len());
                    assert(tt == ss.update(i, tt[i]));
                    assert(tt[i].name == ss[i].name);
                    lemma_card_update_other(ss, i, tt[i], p);
                },
            }
        },
        None => {
            match mimo {
                MimoFetchView::Fetched(m) => {
                    if m.items.len() > 0 {
                        let tt = merge_mimo_spec(ss, mimo);
                        let l = tt[ss.len() as int];
                        assert(tt == ss.push(l));
                        lemma_mimo_name_is_mimo();
                        lemma_other_provider(l.name, p);
                        lemma_card_push(ss, l, p);
                    }
                },
                _ => {},
            }
        },
    }
}

/// The first GLM card after the GLM step, given the first one before it.
pub open spec fn glm_card_after(c: Option<ServiceView>, g: Option<GlmView>) -> Option<ServiceView> {
    match c {
        Some(c) => match g {
            Some(gv) => if gv.items.len() > 0 {
                Some(
                    ServiceView {
                        name: glm_title(gv.level),
                        kind: "quota"@,
                        icon: if gv.icon.len() == 0 {
                            c.icon
                        } else {
                            gv.icon
                        },
                        color: or_else(gv.color, "#2563EB"@),
                        items: gv.items,
                        loading: false,
                        ..c
                    },
                )
            } else {
                Some(with_loading(c))
            },
            None => Some(with_loading(c)),
        },
        None => match g {
            Some(gv) => if gv.items.len() > 0 {
                Some(
                    ServiceView {
                        name: glm_title(gv.level),
                        kind: "quota"@,
                        icon: or_else(gv.icon, "🔷"@),
                        color: or_else(gv.color, "#2563EB"@),
                        items: gv.items,
                        ..blank_service()
                    },
                )
            } else {
                None
            },
            None => None,
        },
    }
}

/// The first MiniMax card after the MiniMax step, given the first one
/// before it.
pub open spec fn minimax_card_after(c: Option<ServiceView>, m: Option<QuotaResultView>) -> Option<
    ServiceView,
> {
    match c {
        Some(c) => match m {
            Some(mv) => if mv.items.len() > 0 {
                Some(
                    ServiceView {
                        kind: "quota"@,
                        items: mv.items,
                        color: or_else(mv.color, "#EA580C"@),
                        icon: if mv.icon.len() == 0 {
                            c.icon
                        } else {
                            mv.icon
                        },
                        loading: false,
                        ..c
                    },
                )
            } else {
                Some(with_loading(c))
            },
            None => Some(with_loading(c)),
        },
        None => match m {
            Some(mv) => if mv.items.len() > 0 {
                Some(
                    ServiceView {
                        name: "MiniMax"@,
                        kind: "quota"@,
                        icon: or_else(mv.icon, "🟠"@),
                        color: or_else(mv.color, "#EA580C"@),
                        items: mv.items,
                        ..blank_service()
                    },
                )
            } else {
                None
            },
            None => None,
        },
    }
}

/// The first MiMo card after the MiMo step, given the first one before it,
/// when there is at most one MiMo card.
pub open spec fn mimo_card_after(c: Option<ServiceView>, mimo: MimoFetchView) -> Option<ServiceView> {
    match mimo {
        MimoFetchView::NotConfigured => None,
        MimoFetchView::Failed => match c {
            Some(c) => Some(with_loading(c)),
            None => None,
        },
        MimoFetchView::Fetched(mv) => if mv.items.len() == 0 {
            match c {
                Some(c) => Some(with_loading(c)),
                None => None,
            }
        } else {
            match c {
                Some(c) => Some(
                    ServiceView {
                        kind: "quota"@,
                        items: mv.items,
                        icon: or_else(mv.icon, "🧡"@),
                        color: or_else(mv.color, "#FF6900"@),
                        loading: false,
                        ..c
                    },
                ),
                None => Some(
                    ServiceView {
                        name: "MiMo"@,
                        kind: "quota"@,
                        icon: or_else(mv.icon, "🧡"@),
                        color: or_else(mv.color, "#FF6900"@),
                        items: mv.items,
                        ..blank_service()
                    },
                ),
            }
        },
    }
}

/// At most one card is a MiMo card.
pub open spec fn at_most_one_mimo(ss: Seq<ServiceView>) -> bool {
    forall|i: int, j: int|
        0 <= i < ss.len() && 0 <= j < ss.len() && is_mimo_name(#[trigger] ss[i].name)
            && is_mimo_name(#[trigger] ss[j].name) ==> i == j
}

/// The GLM step's first GLM card.
proof fn lemma_glm_card_after(ss: Seq<ServiceView>, g: Option<GlmView>)
    ensures
        provider_card(merge_glm_spec(ss, g), Provider::Glm) == glm_card_after(
            provider_card(ss, Provider::Glm),
            g,
        ),
{
    lemma_position(ss, Provider::Glm);
    let tt = merge_glm_spec(ss, g);
    match position(ss, Provider::Glm) {
        Some(i) => {
            match g {
                Some(gv) => {
                    if gv.items.len() > 0 {
                        lemma_glm_title_is_glm_name(gv.level);
                    }
                },
                None => {},
            }
            assert(tt == ss.update(i, tt[i]));
            lemma_card_update_same(ss, i, tt[i], Provider::Glm);
        },
        None => {
            match g {
                Some(gv) => {
                    if gv.items.len() > 0 {
                        lemma_glm_title_is_glm_name(gv.level);
                        let l = tt[ss.len() as int];
                        assert(tt == ss.push(l));
                        lemma_card_push(ss, l, Provider::Glm);
                    }
                },
                None => {},
            }
        },
    }
}

/// The MiniMax step's first MiniMax card.
proof fn lemma_minimax_card_after(ss: Seq<ServiceView>, m: Option<QuotaResultView>)
    ensures
        provider_card(merge_minimax_spec(ss, m), Provider::Minimax) == minimax_card_after(
            provider_card(ss, Provider::Minimax),
            m,
        ),
{
    lemma_position(ss, Provider::Minimax);
    let tt = merge_minimax_spec(ss, m);
    match position(ss, Provider::Minimax) {
        Some(i) => {
            assert(tt == ss.update(i, tt[i]));
            lemma_card_update_same(ss, i, tt[i], Provider::Minimax);
        },
        None => {
            match m {
                Some(mv) => {
                    if mv.items.len() > 0 {
                        reveal_strlit("MiniMax");
                        let l = tt[ss.len() as int];
                        assert(tt == ss.push(l));
                        lemma_card_push(ss, l, Provider::Minimax);
                    }
                },
                None => {},
            }
        },
    }
}

/// The MiMo step's first MiMo card, when there is at most one.
proof fn lemma_mimo_card_after(ss: Seq<ServiceView>, mimo: MimoFetchView)
    requires
        mimo is NotConfigured ==> at_most_one_mimo(ss),
    ensures
        provider_card(merge_mimo_spec(ss, mimo), Provider::Mimo) == mimo_card_after(
            provider_card(ss, Provider::Mimo),
            mimo,
        ),
{
    lemma_position(ss, Provider::Mimo);
    let tt = merge_mimo_spec(ss, mimo);
    match position(ss, Provider::Mimo) {
        Some(i) => {
            match mimo {
                MimoFetchView::NotConfigured => {
                    assert forall|j: int| 0 <= j < tt.len() implies !provider_matches(
                        Provider::Mimo,
                        #[trigger] tt[j].name,
                    ) by {
                        if j < i {
                            assert(tt[j] == ss[j]);
                        } else {
                            assert(tt[j] == ss[j + 1]);
                            if is_mimo_name(ss[j + 1].name) {
                                assert(is_mimo_name(ss[i].name));
                            }
                        }
                    }
                    lemma_position_is(tt, Provider::Mimo, None);
                },
                _ => {
                    assert(tt == ss.update(i, tt[i]));
                    assert(tt[i].name == ss[i].name);
                    lemma_card_update_same(ss, i, tt[i], Provider::Mimo);
                },
            }
        },
        None => {
            match mimo {
                MimoFetchView::Fetched(mv) => {
                    if mv.items.len() > 0 {
                        lemma_mimo_name_is_mimo();
                        let l = tt[ss.len() as int];
                        assert(tt == ss.push(l));
                        lemma_card_push(ss, l, Provider::Mimo);
                    }
                },
                _ => {},
            }
        },
    }
}

/// The GLM step changes nothing when the first GLM card already is what
/// the step makes of some card.
proof fn lemma_glm_step_fixed(ss: Seq<ServiceView>, g: Option<GlmView>, c0: Option<ServiceView>)
    requires
        provider_card(ss, Provider::Glm) == glm_card_after(c0, g),
    ensures
        merge_glm_spec(ss, g) == ss,
{
    lemma_position(ss, Provider::Glm);
    let tt = merge_glm_spec(ss, g);
    if let Some(i) = position(ss, Provider::Glm) {
        assert(tt[i] == ss[i]);
        assert(tt =~= ss);
    }
}

/// The MiniMax step changes nothing when the first MiniMax card already is
/// what the step makes of some card.
proof fn lemma_minimax_step_fixed(ss: Seq<ServiceView>, m: Option<QuotaResultView>, c0: Option<ServiceView>)
    requires
        provider_card(ss, Provider::Minimax) == minimax_card_after(c0, m),
    ensures
        merge_minimax_spec(ss, m) == ss,
{
    lemma_position(ss, Provider::Minimax);
    let tt = merge_minimax_spec(ss, m);
    if let Some(i) = position(ss, Provider::Minimax) {
        assert(tt[i] == ss[i]);
        assert(tt =~= ss);
    }
}

/// The MiMo step changes nothing when the first MiMo card already is what
/// the step makes of some card.
proof fn lemma_mimo_step_fixed(ss: Seq<ServiceView>, mimo: MimoFetchView, c0: Option<ServiceView>)
    requires
        provider_card(ss, Provider::Mimo) == mimo_card_after(c0, mimo),
    ensures
        merge_mimo_spec(ss, mimo) == ss,
{
    lemma_position(ss, Provider::Mimo);
    let tt = merge_mimo_spec(ss, mimo);
    if let Some(i) = position(ss, Provider::Mimo) {
        assert(tt[i] == ss[i]);
        assert(tt =~= ss);
    }
}

/// Merging the same fetch outcome a second time changes nothing, when the
/// cards read from the file hold at most one MiMo card (as the template
/// does).
pub proof fn law_merge_idempotent(ss: Seq<ServiceView>, outcome: FetchOutcome)
    requires
        at_most_one_mimo(ss),
    ensures
        merged_services(merged_services(ss, outcome), outcome) == merged_services(ss, outcome),
{
    let g = opt_glm_view(outcome.glm);
    let m = opt_minimax_view(outcome.minimax);
    let mi = outcome.mimo@;
    let t1 = merge_glm_spec(ss, g);
    let t2 = merge_minimax_spec(t1, m);
    let t3 = merge_mimo_spec(t2, mi);
    let r = supported_only(t3);
    assert(r == merged_services(ss, outcome));
    // the first GLM card of the result
    lemma_glm_card_after(ss, g);
    lemma_minimax_step_keeps_card(t1, m, Provider::Glm);
    lemma_mimo_step_keeps_card(t2, mi, Provider::Glm);
    lemma_card_supported(t3, Provider::Glm);
    lemma_glm_step_fixed(r, g, provider_card(ss, Provider::Glm));
    // the first MiniMax card of the result
    lemma_glm_step_keeps_card(ss, g, Provider::Minimax);
    lemma_minimax_card_after(t1, m);
    lemma_mimo_step_keeps_card(t2, mi, Provider::Minimax);
    lemma_card_supported(t3, Provider::Minimax);
    lemma_minimax_step_fixed(r, m, provider_card(t1, Provider::Minimax));
    // the first MiMo card of the result
    lemma_pre_mimo_frame(ss, outcome);
    assert forall|i: int, j: int|
        0 <= i < t2.len() && 0 <= j < t2.len() && is_mimo_name(#[trigger] t2[i].name) && is_mimo_name(
            #[trigger] t2[j].name,
        ) implies i == j by {
        assert(i < ss.len() && j < ss.len());
        assert(is_mimo_name(ss[i].name) && is_mimo_name(ss[j].name));
    }
    lemma_mimo_card_after(t2, mi);
    lemma_card_supported(t3, Provider::Mimo);
    lemma_mimo_step_fixed(r, mi, provider_card(t2, Provider::Mimo));
    // and the filter keeps every card
    lemma_supported_only_all(t3);
    lemma_supported_only_fixed(r);
}

// ───────────────────────── fetched lines are what the card shows ─────────────────────────

/// A GLM result with quota lines overwrites the first GLM card, or becomes
/// one: that card then shows exactly the fetched lines, as live data of a
/// quota card, under the plan's title; after the GLM step and after the
/// whole merge alike.
pub proof fn law_glm_lines_shown(ss: Seq<ServiceView>, outcome: FetchOutcome)
    ensures
        match outcome.glm {
            Some(g) => g@.items.len() > 0 ==> {
                &&& provider_card(merge_glm_spec(ss, Some(g@)), Provider::Glm) matches Some(c)
                    && c.items == g@.items && !c.loading && c.kind == "quota"@ && c.name
                    == glm_title(g@.level)
                &&& provider_card(merged_services(ss, outcome), Provider::Glm) matches Some(c)
                    && c.items == g@.items && !c.loading && c.kind == "quota"@ && c.name
                    == glm_title(g@.level)
            },
            None => true,
        },
{
    if let Some(g) = outcome.glm {
        if g@.items.len() > 0 {
            let gv = opt_glm_view(outcome.glm);
            let t1 = merge_glm_spec(ss, gv);
            let t2 = merge_minimax_spec(t1, opt_minimax_view(outcome.minimax));
            let t3 = merge_mimo_spec(t2, outcome.mimo@);
            lemma_glm_card_after(ss, gv);
            lemma_minimax_step_keeps_card(t1, opt_minimax_view(outcome.minimax), Provider::Glm);
            lemma_mimo_step_keeps_card(t2, outcome.mimo@, Provider::Glm);
            lemma_card_supported(t3, Provider::Glm);
        }
    }
}

/// A MiniMax result with quota lines overwrites the first MiniMax card, or
/// becomes one: that card then shows exactly the fetched lines, as live
/// data of a quota card; after the MiniMax step and after the whole merge
/// alike.
pub proof fn law_minimax_lines_shown(ss: Seq<ServiceView>, outcome: FetchOutcome)
    ensures
        match outcome.minimax {
            Some(m) => m@.items.len() > 0 ==> {
                &&& provider_card(merge_minimax_spec(ss, Some(m@)), Provider::Minimax) matches Some(c)
                    && c.items == m@.items && !c.loading && c.kind == "quota"@
                &&& provider_card(merged_services(ss, outcome), Provider::Minimax) matches Some(c)
                    && c.items == m@.items && !c.loading && c.kind == "quota"@
            },
            None => true,
        },
{
    if let Some(m) = outcome.minimax {
        if m@.items.len() > 0 {
            let mv = opt_minimax_view(outcome.minimax);
            let t1 = merge_glm_spec(ss, opt_glm_view(outcome.glm));
            let t2 = merge_minimax_spec(t1, mv);
            let t3 = merge_mimo_spec(t2, outcome.mimo@);
            lemma_minimax_card_after(ss, mv);
            lemma_glm_step_keeps_card(ss, opt_glm_view(outcome.glm), Provider::Minimax);
            lemma_minimax_card_after(t1, mv);
            lemma_mimo_step_keeps_card(t2, outcome.mimo@, Provider::Minimax);
            lemma_card_supported(t3, Provider::Minimax);
        }
    }
}

/// Fetched MiMo data with quota lines overwrites the first MiMo card, or
/// becomes one: that card then shows exactly the fetched lines, as live
/// data of a quota card; after the MiMo step and after the whole merge
/// alike.
pub proof fn law_mimo_lines_shown(ss: Seq<ServiceView>, outcome: FetchOutcome)
    ensures
        match outcome.mimo@ {
            MimoFetchView::Fetched(m) => m.items.len() > 0 ==> {
                &&& provider_card(merge_mimo_spec(ss, outcome.mimo@), Provider::Mimo) matches Some(c)
                    && c.items == m.items && !c.loading && c.kind == "quota"@
                &&& provider_card(merged_services(ss, outcome), Provider::Mimo) matches Some(c)
                    && c.items == m.items && !c.loading && c.kind == "quota"@
            },
            _ => true,
        },
{
    if let MimoFetchView::Fetched(m) = outcome.mimo@ {
        if m.items.len() > 0 {
            let t1 = merge_glm_spec(ss, opt_glm_view(outcome.glm));
            let t2 = merge_minimax_spec(t1, opt_minimax_view(outcome.minimax));
            let t3 = merge_mimo_spec(t2, outcome.mimo@);
            lemma_mimo_card_after(ss, outcome.mimo@);
            lemma_glm_step_keeps_card(ss, opt_glm_view(outcome.glm), Provider::Mimo);
            lemma_minimax_step_keeps_card(t1, opt_minimax_view(outcome.minimax), Provider::Mimo);
            lemma_mimo_card_after(t2, outcome.mimo@);
            lemma_card_supported(t3, Provider::Mimo);
        }
    }
}

/// A provider whose fetch failed keeps its card, marked as having no live
/// data (shown as N/A rather than as the stale values of the file); nothing
/// else of the card changes.
pub proof fn law_failed_fetch_marks_loading(ss: Seq<ServiceView>, outcome: FetchOutcome)
    ensures
        outcome.glm is None ==> match provider_card(ss, Provider::Glm) {
            Some(old) => provider_card(merged_services(ss, outcome), Provider::Glm) == Some(
                ServiceView { loading: true, ..old },
            ),
            None => provider_card(merged_services(ss, outcome), Provider::Glm) is None,
        },
        outcome.minimax is None ==> match provider_card(ss, Provider::Minimax) {
            Some(old) => provider_card(merged_services(ss, outcome), Provider::Minimax) == Some(
                ServiceView { loading: true, ..old },
            ),
            None => provider_card(merged_services(ss, outcome), Provider::Minimax) is None,
        },
        outcome.mimo@ is Failed ==> match provider_card(ss, Provider::Mimo) {
            Some(old) => provider_card(merged_services(ss, outcome), Provider::Mimo) == Some(
                ServiceView { loading: true, ..old },
            ),
            None => provider_card(merged_services(ss, outcome), Provider::Mimo) is None,
        },
{
    let g = opt_glm_view(outcome.glm);
    let m = opt_minimax_view(outcome.minimax);
    let t1 = merge_glm_spec(ss, g);
    let t2 = merge_minimax_spec(t1, m);
    let t3 = merge_mimo_spec(t2, outcome.mimo@);
    lemma_glm_card_after(ss, g);
    lemma_minimax_step_keeps_card(t1, m, Provider::Glm);
    lemma_mimo_step_keeps_card(t2, outcome.mimo@, Provider::Glm);
    lemma_card_supported(t3, Provider::Glm);
    lemma_glm_step_keeps_card(ss, g, Provider::Minimax);
    lemma_minimax_card_after(t1, m);
    lemma_mimo_step_keeps_card(t2, outcome.mimo@, Provider::Minimax);
    lemma_card_supported(t3, Provider::Minimax);
    lemma_glm_step_keeps_card(ss, g, Provider::Mimo);
    lemma_minimax_step_keeps_card(t1, m, Provider::Mimo);
    if outcome.mimo@ is Failed {
        lemma_mimo_card_after(t2, outcome.mimo@);
    }
    lemma_card_supported(t3, Provider::Mimo);
}

} // verus!

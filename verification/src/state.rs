//! The snapshot shown to the front end: how it is built at startup and
//! after each round of fetches. Holding it between requests, running the
//! fetches and notifying the windows happens around this module.
use vstd::prelude::*;

use crate::data::{services_view, BalanceData, BalanceView, FetchOutcome, ServiceView};
use crate::merge::{is_mimo_name, merge_api_into, merged_services, name_matches, Provider};

verus! {

/// The cards with every one marked as having no live data yet.
pub open spec fn all_loading(ss: Seq<ServiceView>) -> Seq<ServiceView> {
    Seq::new(ss.len(), |i: int| ServiceView { loading: true, ..ss[i] })
}

/// The snapshot at startup: the cards of `balance.json`, each marked
/// loading until the first fetch completes, stamped with `now_bits` (bits
/// of the `f64` Unix time in seconds).
pub fn startup_snapshot(data: BalanceData, now_bits: u64) -> (r: BalanceData)
    ensures
        r@ == (BalanceView {
            services: all_loading(data@.services),
            timestamp_bits: Some(now_bits),
            ..data@
        }),
{
    let BalanceData { title, services, timestamp_bits: _ } = data;
    let mut services = services;
    let ghost orig = services_view(services@);
    let mut i: usize = 0;
    while i < services.len()
        invariant
            i <= services@.len(),
            orig.len() == services@.len(),
            forall|j: int|
                0 <= j < i ==> #[trigger] services_view(services@)[j] == (ServiceView {
                    loading: true,
                    ..orig[j]
                }),
            forall|j: int| i <= j < orig.len() ==> #[trigger] services_view(services@)[j] == orig[j],
        decreases services@.len() - i,
    {
        let ghost before = services_view(services@);
        services[i].loading = true;
        assert(services_view(services@) =~= before.update(
            i as int,
            ServiceView { loading: true, ..before[i as int] },
        ));
        i = i + 1;
    }
    assert(services_view(services@) =~= all_loading(orig));
    BalanceData { title, services, timestamp_bits: Some(now_bits) }
}

/// The snapshot after a round of fetches: `balance.json` as just read,
/// merged with `outcome`, stamped with `now_bits`.
pub fn refreshed_snapshot(data: BalanceData, outcome: &FetchOutcome, now_bits: u64) -> (r: BalanceData)
    ensures
        r@ == (BalanceView {
            services: merged_services(data@.services, *outcome),
            timestamp_bits: Some(now_bits),
            ..data@
        }),
{
    let mut data = data;
    merge_api_into(&mut data, outcome);
    data.timestamp_bits = Some(now_bits);
    data
}

/// Whether the snapshot has a MiMo card (the floating window grows a row
/// for it).
pub fn has_mimo_card(data: &BalanceData) -> (r: bool)
    ensures
        r == exists|i: int|
            0 <= i < data@.services.len() && is_mimo_name(#[trigger] data@.services[i].name),
{
    let mut i: usize = 0;
    while i < data.services.len()
        invariant
            i <= data.services@.len(),
            forall|j: int| 0 <= j < i ==> !is_mimo_name(#[trigger] data@.services[j].name),
        decreases data.services@.len() - i,
    {
        if name_matches(&Provider::Mimo, &data.services[i].name) {
            assert(is_mimo_name(data@.services[i as int].name));
            return true;
        }
        i = i + 1;
    }
    false
}

} // verus!

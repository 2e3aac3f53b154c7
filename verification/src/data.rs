//! The data model: the entries of `balance.json`, the snapshot shown to the
//! front end, and what each provider's fetch hands to the merge.
//!
//! Floating-point quantities (amounts used, totals, balances, time stamps)
//! are carried as the IEEE-754 bit patterns of the `f64` values
//! (`f64::to_bits`); the library moves them around but never computes with
//! them.
use vstd::prelude::*;

verus! {

/// The bit pattern of the `f64` value `1.0`.
pub const ONE_BITS: u64 = 0x3ff0_0000_0000_0000;

/// The bit pattern of the `f64` value `100.0`.
pub const HUNDRED_BITS: u64 = 0x4059_0000_0000_0000;

/// The bit pattern of the `f64` value `0.0`.
pub const ZERO_BITS: u64 = 0;

/// One quota line (used / total), such as a five-hour window.
#[derive(Debug)]
pub struct QuotaItem {
    pub label: String,
    /// Optional text shown in place of the numbers (such as `∞`).
    pub display_value: Option<String>,
    /// Bits of the `f64` amount used.
    pub used_bits: u64,
    /// Bits of the `f64` total.
    pub total_bits: u64,
    pub unit: String,
    /// Detail line (such as a reset countdown); empty when there is none.
    pub detail: String,
}

/// The mathematical value of a [`QuotaItem`].
pub struct QuotaItemView {
    pub label: Seq<char>,
    pub display_value: Option<Seq<char>>,
    pub used_bits: u64,
    pub total_bits: u64,
    pub unit: Seq<char>,
    pub detail: Seq<char>,
}

/// The view of an optional string.
pub open spec fn opt_view(o: Option<String>) -> Option<Seq<char>> {
    match o {
        Some(s) => Some(s@),
        None => None,
    }
}

impl View for QuotaItem {
    type V = QuotaItemView;

    open spec fn view(&self) -> QuotaItemView {
        QuotaItemView {
            label: self.label@,
            display_value: opt_view(self.display_value),
            used_bits: self.used_bits,
            total_bits: self.total_bits,
            unit: self.unit@,
            detail: self.detail@,
        }
    }
}

/// The views of a sequence of quota items.
pub open spec fn items_view(items: Seq<QuotaItem>) -> Seq<QuotaItemView> {
    items.map_values(|q: QuotaItem| q@)
}

/// One provider card (GLM, MiniMax, MiMo, or an entry from `balance.json`).
#[derive(Debug)]
pub struct ServiceInfo {
    pub name: String,
    /// `"quota"` or `"balance"`.
    pub kind: String,
    pub icon: String,
    pub color: String,
    /// Quota lines of a quota card.
    pub items: Vec<QuotaItem>,
    /// Bits of the `f64` balance of a balance card.
    pub balance_bits: u64,
    pub currency: String,
    pub unit: String,
    pub detail: String,
    /// No live data (starting up, or the last fetch failed): the card shows N/A.
    pub loading: bool,
}

/// The mathematical value of a [`ServiceInfo`].
pub struct ServiceView {
    pub name: Seq<char>,
    pub kind: Seq<char>,
    pub icon: Seq<char>,
    pub color: Seq<char>,
    pub items: Seq<QuotaItemView>,
    pub balance_bits: u64,
    pub currency: Seq<char>,
    pub unit: Seq<char>,
    pub detail: Seq<char>,
    pub loading: bool,
}

impl View for ServiceInfo {
    type V = ServiceView;

    open spec fn view(&self) -> ServiceView {
        ServiceView {
            name: self.name@,
            kind: self.kind@,
            icon: self.icon@,
            color: self.color@,
            items: items_view(self.items@),
            balance_bits: self.balance_bits,
            currency: self.currency@,
            unit: self.unit@,
            detail: self.detail@,
            loading: self.loading,
        }
    }
}

/// The views of a sequence of services.
pub open spec fn services_view(ss: Seq<ServiceInfo>) -> Seq<ServiceView> {
    ss.map_values(|s: ServiceInfo| s@)
}

/// A card with every field empty, zero or false: what a new card starts
/// from before the merge fills in its fields.
pub open spec fn blank_service() -> ServiceView {
    ServiceView {
        name: seq![],
        kind: seq![],
        icon: seq![],
        color: seq![],
        items: seq![],
        balance_bits: 0,
        currency: seq![],
        unit: seq![],
        detail: seq![],
        loading: false,
    }
}

impl Default for ServiceInfo {
    fn default() -> (r: ServiceInfo)
        ensures
            r@ == blank_service(),
    {
        let r = ServiceInfo {
            name: String::new(),
            kind: String::new(),
            icon: String::new(),
            color: String::new(),
            items: Vec::new(),
            balance_bits: 0,
            currency: String::new(),
            unit: String::new(),
            detail: String::new(),
            loading: false,
        };
        assert(items_view(r.items@) =~= seq![]);
        r
    }
}

/// The whole of `balance.json`: a title, the cards, and when it was loaded.
#[derive(Debug)]
pub struct BalanceData {
    pub title: String,
    pub services: Vec<ServiceInfo>,
    /// Bits of the `f64` Unix time stamp (seconds) of the last refresh.
    pub timestamp_bits: Option<u64>,
}

/// The mathematical value of a [`BalanceData`].
pub struct BalanceView {
    pub title: Seq<char>,
    pub services: Seq<ServiceView>,
    pub timestamp_bits: Option<u64>,
}

impl View for BalanceData {
    type V = BalanceView;

    open spec fn view(&self) -> BalanceView {
        BalanceView {
            title: self.title@,
            services: services_view(self.services@),
            timestamp_bits: self.timestamp_bits,
        }
    }
}

/// What the DeepSeek fetch shows.
#[derive(Debug)]
pub struct DeepSeekResult {
    pub name: String,
    pub kind: String,
    pub icon: String,
    /// Bits of the `f64` balance.
    pub balance_bits: u64,
    pub currency: String,
    pub unit: String,
    pub detail: String,
    pub color: String,
}

/// The mathematical value of a [`DeepSeekResult`].
pub struct DeepSeekView {
    pub name: Seq<char>,
    pub kind: Seq<char>,
    pub icon: Seq<char>,
    pub balance_bits: u64,
    pub currency: Seq<char>,
    pub unit: Seq<char>,
    pub detail: Seq<char>,
    pub color: Seq<char>,
}

impl View for DeepSeekResult {
    type V = DeepSeekView;

    open spec fn view(&self) -> DeepSeekView {
        DeepSeekView {
            name: self.name@,
            kind: self.kind@,
            icon: self.icon@,
            balance_bits: self.balance_bits,
            currency: self.currency@,
            unit: self.unit@,
            detail: self.detail@,
            color: self.color@,
        }
    }
}

/// What the GLM fetch shows, with the plan level.
#[derive(Debug)]
pub struct GlmResult {
    pub name: String,
    pub kind: String,
    pub icon: String,
    pub color: String,
    pub level: Option<String>,
    pub items: Vec<QuotaItem>,
}

/// The mathematical value of a [`GlmResult`].
pub struct GlmView {
    pub name: Seq<char>,
    pub kind: Seq<char>,
    pub icon: Seq<char>,
    pub color: Seq<char>,
    pub level: Option<Seq<char>>,
    pub items: Seq<QuotaItemView>,
}

impl View for GlmResult {
    type V = GlmView;

    open spec fn view(&self) -> GlmView {
        GlmView {
            name: self.name@,
            kind: self.kind@,
            icon: self.icon@,
            color: self.color@,
            level: opt_view(self.level),
            items: items_view(self.items@),
        }
    }
}

/// What a quota provider without plan level (MiniMax, MiMo) shows.
pub struct QuotaResultView {
    pub name: Seq<char>,
    pub kind: Seq<char>,
    pub icon: Seq<char>,
    pub color: Seq<char>,
    pub items: Seq<QuotaItemView>,
}

/// What the MiniMax fetch shows.
#[derive(Debug)]
pub struct MinimaxResult {
    pub name: String,
    pub kind: String,
    pub icon: String,
    pub color: String,
    pub items: Vec<QuotaItem>,
}

impl View for MinimaxResult {
    type V = QuotaResultView;

    open spec fn view(&self) -> QuotaResultView {
        QuotaResultView {
            name: self.name@,
            kind: self.kind@,
            icon: self.icon@,
            color: self.color@,
            items: items_view(self.items@),
        }
    }
}

/// What the MiMo fetch shows.
#[derive(Debug)]
pub struct MimoResult {
    pub name: String,
    pub kind: String,
    pub icon: String,
    pub color: String,
    pub items: Vec<QuotaItem>,
}

impl View for MimoResult {
    type V = QuotaResultView;

    open spec fn view(&self) -> QuotaResultView {
        QuotaResultView {
            name: self.name@,
            kind: self.kind@,
            icon: self.icon@,
            color: self.color@,
            items: items_view(self.items@),
        }
    }
}

/// The three outcomes of a MiMo fetch.
#[derive(Debug)]
pub enum MimoFetch {
    /// No cookie is configured: the card is removed.
    NotConfigured,
    /// Network or HTTP failure: an existing card is marked loading.
    Failed,
    /// Data, or a placeholder line explaining what went wrong.
    Fetched(MimoResult),
}

/// The mathematical value of a [`MimoFetch`].
pub enum MimoFetchView {
    NotConfigured,
    Failed,
    Fetched(QuotaResultView),
}

impl View for MimoFetch {
    type V = MimoFetchView;

    open spec fn view(&self) -> MimoFetchView {
        match self {
            MimoFetch::NotConfigured => MimoFetchView::NotConfigured,
            MimoFetch::Failed => MimoFetchView::Failed,
            MimoFetch::Fetched(m) => MimoFetchView::Fetched(m@),
        }
    }
}

/// The results of one round of fetches (`None`: no key, failure, or no data).
#[derive(Debug)]
pub struct FetchOutcome {
    pub deepseek: Option<DeepSeekResult>,
    pub glm: Option<GlmResult>,
    pub minimax: Option<MinimaxResult>,
    pub mimo: MimoFetch,
}

// ───────────────────────── copies ─────────────────────────

/// A copy of an optional string.
pub fn copy_opt(o: &Option<String>) -> (r: Option<String>)
    ensures
        opt_view(r) == opt_view(*o),
{
    match o {
        Some(s) => Some(s.clone()),
        None => None,
    }
}

impl QuotaItem {
    /// A copy of this item.
    pub fn copy(&self) -> (r: QuotaItem)
        ensures
            r@ == self@,
    {
        QuotaItem {
            label: self.label.clone(),
            display_value: copy_opt(&self.display_value),
            used_bits: self.used_bits,
            total_bits: self.total_bits,
            unit: self.unit.clone(),
            detail: self.detail.clone(),
        }
    }
}

/// A copy of a list of quota items.
pub fn copy_items(items: &Vec<QuotaItem>) -> (r: Vec<QuotaItem>)
    ensures
        items_view(r@) == items_view(items@),
{
    let mut r: Vec<QuotaItem> = Vec::new();
    let mut i: usize = 0;
    while i < items.len()
        invariant
            i <= items@.len(),
            r@.len() == i,
            forall|j: int| 0 <= j < i ==> (#[trigger] r@[j])@ == items@[j]@,
        decreases items@.len() - i,
    {
        r.push(items[i].copy());
        i = i + 1;
    }
    assert(items_view(r@) =~= items_view(items@));
    r
}

// ───────────────────────── defaults of `balance.json` fields ─────────────────────────

/// The total of a quota line that `balance.json` leaves out: bits of `1.0`.
pub fn default_total() -> (r: u64)
    ensures
        r == ONE_BITS,
{
    ONE_BITS
}

/// The card type that `balance.json` leaves out: `"balance"`.
pub fn default_service_type() -> (r: String)
    ensures
        r@ == "balance"@,
{
    String::from_str("balance")
}

/// The card color that `balance.json` leaves out: `"#888888"`.
pub fn default_color() -> (r: String)
    ensures
        r@ == "#888888"@,
{
    String::from_str("#888888")
}

/// The currency that `balance.json` leaves out: `"¥"`.
pub fn default_currency() -> (r: String)
    ensures
        r@ == "¥"@,
{
    String::from_str("¥")
}

/// The unit that `balance.json` leaves out: `"元"`.
pub fn default_unit() -> (r: String)
    ensures
        r@ == "元"@,
{
    String::from_str("元")
}

/// The title that `balance.json` leaves out: `"AI API 余额监控"`.
pub fn default_title() -> (r: String)
    ensures
        r@ == "AI API 余额监控"@,
{
    String::from_str("AI API 余额监控")
}

} // verus!

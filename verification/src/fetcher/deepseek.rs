//! DeepSeek balance.
//!
//! An unavailable account gets a red placeholder card; otherwise the card
//! shows the first balance entry, its currency (`CNY`, `¥` or none become
//! `¥`), the amount with thousands separators, and is blue above 10 and red
//! otherwise. The amount is floating point: it arrives as its bit pattern
//! and as its text with two decimals (`format!("{:.2}")`).
use vstd::prelude::*;

use crate::data::{DeepSeekResult, DeepSeekView, ZERO_BITS};
use crate::text::{
    chars_eq, chars_of, decimal, parse_u64, parse_u64_at, push_all, push_str, string_of,
    subvec, u64_text,
};

verus! {

/// The digits `ds` with a comma before every group of three counted from
/// the right.
pub open spec fn group_thousands(ds: Seq<char>) -> Seq<char>
    decreases ds.len(),
{
    if ds.len() <= 3 {
        ds
    } else {
        group_thousands(ds.take(ds.len() - 3)) + seq![','] + ds.skip(ds.len() - 3)
    }
}

/// `group_thousands` of the first `len` characters of `ds`.
fn group_prefix(ds: &Vec<char>, len: usize) -> (r: Vec<char>)
    requires
        len <= ds@.len(),
    ensures
        r@ == group_thousands(ds@.take(len as int)),
    decreases len,
{
    if len <= 3 {
        let r = subvec(ds, 0, len);
        assert(r@ =~= ds@.take(len as int));
        r
    } else {
        let mut r = group_prefix(ds, len - 3);
        r.push(',');
        let tail = subvec(ds, len - 3, len);
        push_all(&mut r, &tail);
        assert(ds@.take(len as int).take(len - 3) =~= ds@.take(len - 3));
        assert(ds@.take(len as int).skip(len - 3) =~= ds@.subrange(len - 3, len as int));
        r
    }
}

/// The decimal digits of `n` with a comma before every group of three
/// counted from the right (`1234567` → `1,234,567`).
pub fn insert_commas(n: u64) -> (r: String)
    ensures
        r@ == group_thousands(decimal(n as nat)),
{
    let ds = u64_text(n);
    let g = group_prefix(&ds, ds.len());
    assert(ds@.take(ds@.len() as int) =~= ds@);
    string_of(&g)
}

/// The index of the first `.` in `s` at or after `k`, if any.
pub open spec fn dot_from(s: Seq<char>, k: int) -> Option<int>
    decreases s.len() - k,
{
    if k < 0 || k >= s.len() {
        None
    } else if s[k] == '.' {
        Some(k)
    } else {
        dot_from(s, k + 1)
    }
}

/// `s` without its `-` characters (`str::replace('-', "")`).
pub open spec fn without_dashes(s: Seq<char>) -> Seq<char>
    decreases s.len(),
{
    if s.len() == 0 {
        seq![]
    } else if s.last() == '-' {
        without_dashes(s.drop_last())
    } else {
        without_dashes(s.drop_last()).push(s.last())
    }
}

/// The money text of a number written with two decimals (`fixed`): the
/// integer part with thousands separators (its digits read as `u64`, 0 when
/// that fails), a leading `-` kept, then `.` and the decimals.
pub open spec fn money_text(fixed: Seq<char>) -> Seq<char> {
    let (int_part, dec_part) = match dot_from(fixed, 0) {
        Some(i) => (fixed.take(i), fixed.skip(i + 1)),
        None => (fixed, Seq::<char>::empty()),
    };
    let v: nat = match parse_u64(without_dashes(int_part)) {
        Some(v) => v as nat,
        None => 0,
    };
    let grouped = group_thousands(decimal(v));
    if int_part.len() > 0 && int_part[0] == '-' {
        seq!['-'] + grouped + seq!['.'] + dec_part
    } else {
        grouped + seq!['.'] + dec_part
    }
}

/// Formats an amount for display from its two-decimal text
/// (`format!("{:.2}", v)`), adding thousands separators: `1234567.89` →
/// `1,234,567.89`.
pub fn format_money(fixed: &str) -> (r: String)
    ensures
        r@ == money_text(fixed@),
{
    let s = chars_of(fixed);
    let mut i: usize = 0;
    while i < s.len() && s[i] != '.'
        invariant
            i <= s@.len(),
            dot_from(s@, 0) == dot_from(s@, i as int),
        decreases s@.len() - i,
    {
        i = i + 1;
    }
    let (int_part, dec_part) = if i < s.len() {
        let a = subvec(&s, 0, i);
        let b = subvec(&s, i + 1, s.len());
        assert(a@ =~= s@.take(i as int));
        assert(b@ =~= s@.skip(i + 1));
        (a, b)
    } else {
        let a = subvec(&s, 0, s.len());
        assert(a@ =~= s@);
        (a, Vec::new())
    };
    // the integer digits without any minus sign
    let mut digits: Vec<char> = Vec::new();
    let mut k: usize = 0;
    while k < int_part.len()
        invariant
            k <= int_part@.len(),
            digits@ == without_dashes(int_part@.take(k as int)),
        decreases int_part@.len() - k,
    {
        assert(int_part@.take(k + 1).drop_last() =~= int_part@.take(k as int));
        if int_part[k] != '-' {
            digits.push(int_part[k]);
        }
        k = k + 1;
    }
    assert(int_part@.take(int_part@.len() as int) =~= int_part@);
    let v = match parse_u64_at(&digits, 0, digits.len()) {
        Some(v) => v,
        None => 0,
    };
    assert(digits@.subrange(0, digits@.len() as int) =~= digits@);
    let grouped = insert_commas(v);
    let mut out: Vec<char> = Vec::new();
    if int_part.len() > 0 && int_part[0] == '-' {
        out.push('-');
    }
    push_str(&mut out, grouped.as_str());
    out.push('.');
    push_all(&mut out, &dec_part);
    let r = string_of(&out);
    assert(r@ =~= money_text(fixed@));
    r
}

/// The currency shown for the API's currency code: `¥` for `CNY`, `¥` or
/// no code, otherwise the code itself.
pub open spec fn currency_spec(raw: Seq<char>) -> Seq<char> {
    if raw == "CNY"@ || raw == "¥"@ || raw.len() == 0 {
        "¥"@
    } else {
        raw
    }
}

/// The currency shown for the API's currency code.
pub fn normalize_currency(raw: &str) -> (r: String)
    ensures
        r@ == currency_spec(raw@),
{
    let v = chars_of(raw);
    let cny = chars_of("CNY");
    let yen = chars_of("¥");
    if chars_eq(&v, &cny) || chars_eq(&v, &yen) || v.len() == 0 {
        String::from_str("¥")
    } else {
        String::from_str(raw)
    }
}

/// The `f64` with bit pattern `bits` is greater than `10.0` (bits of 10.0
/// are `0x4024_0000_0000_0000`; larger positive values, up to infinity,
/// have larger bit patterns, and NaNs and negative values are not greater).
pub open spec fn above_ten(bits: u64) -> bool {
    0x4024_0000_0000_0000 < bits <= 0x7ff0_0000_0000_0000
}

/// The card color for a balance: blue above 10, red otherwise.
pub open spec fn balance_color(bits: u64) -> Seq<char> {
    if above_ten(bits) {
        "#4D6BFE"@
    } else {
        "#FF5252"@
    }
}

/// The card for an unavailable account or used-up balance.
pub open spec fn unavailable_card() -> DeepSeekView {
    DeepSeekView {
        name: "DeepSeek"@,
        kind: "balance"@,
        icon: "🟢"@,
        balance_bits: ZERO_BITS,
        currency: "¥"@,
        unit: "元"@,
        detail: "账户不可用或额度耗尽"@,
        color: "#FF5252"@,
    }
}

/// The red placeholder card for an unavailable account.
pub fn unavailable_result() -> (r: DeepSeekResult)
    ensures
        r@ == unavailable_card(),
{
    DeepSeekResult {
        name: String::from_str("DeepSeek"),
        kind: String::from_str("balance"),
        icon: String::from_str("🟢"),
        balance_bits: ZERO_BITS,
        currency: String::from_str("¥"),
        unit: String::from_str("元"),
        detail: String::from_str("账户不可用或额度耗尽"),
        color: String::from_str("#FF5252"),
    }
}

/// The balance card: `total_bits` is the balance (0 when the reply has no
/// balance entry), `currency_raw` its currency code, `fixed` the balance
/// written with two decimals.
pub open spec fn balance_card(total_bits: u64, currency_raw: Seq<char>, fixed: Seq<char>) -> DeepSeekView {
    DeepSeekView {
        name: "DeepSeek"@,
        kind: "balance"@,
        icon: "🟢"@,
        balance_bits: total_bits,
        currency: currency_spec(currency_raw),
        unit: "元"@,
        detail: "剩余 ¥"@ + money_text(fixed),
        color: balance_color(total_bits),
    }
}

/// The balance card of an available account.
pub fn balance_result(total_bits: u64, currency_raw: &str, fixed: &str) -> (r: DeepSeekResult)
    ensures
        r@ == balance_card(total_bits, currency_raw@, fixed@),
{
    let money = format_money(fixed);
    let mut d = chars_of("剩余 ¥");
    push_str(&mut d, money.as_str());
    let above = 0x4024_0000_0000_0000u64 < total_bits && total_bits <= 0x7ff0_0000_0000_0000u64;
    DeepSeekResult {
        name: String::from_str("DeepSeek"),
        kind: String::from_str("balance"),
        icon: String::from_str("🟢"),
        balance_bits: total_bits,
        currency: normalize_currency(currency_raw),
        unit: String::from_str("元"),
        detail: string_of(&d),
        color: if above {
            String::from_str("#4D6BFE")
        } else {
            String::from_str("#FF5252")
        },
    }
}

/// `s` without its commas.
pub open spec fn without_commas(s: Seq<char>) -> Seq<char>
    decreases s.len(),
{
    if s.len() == 0 {
        seq![]
    } else if s.last() == ',' {
        without_commas(s.drop_last())
    } else {
        without_commas(s.drop_last()).push(s.last())
    }
}

proof fn lemma_without_commas_concat(a: Seq<char>, b: Seq<char>)
    ensures
        without_commas(a + b) == without_commas(a) + without_commas(b),
    decreases b.len(),
{
    if b.len() == 0 {
        assert(a + b =~= a);
        assert(without_commas(a) + without_commas(b) =~= without_commas(a));
    } else {
        lemma_without_commas_concat(a, b.drop_last());
        assert((a + b).drop_last() =~= a + b.drop_last());
        assert((a + b).last() == b.last());
        if b.last() != ',' {
            assert(without_commas(a) + without_commas(b.drop_last()).push(b.last()) =~= (
            without_commas(a) + without_commas(b.drop_last())).push(b.last()));
        }
    }
}

proof fn lemma_without_commas_plain(s: Seq<char>)
    requires
        forall|i: int| 0 <= i < s.len() ==> s[i] != ',',
    ensures
        without_commas(s) == s,
    decreases s.len(),
{
    if s.len() > 0 {
        lemma_without_commas_plain(s.drop_last());
        assert(s.drop_last().push(s.last()) =~= s);
    }
}

/// The separators only group the digits: taking the commas out of the
/// grouped text gives the digits back.
pub proof fn law_grouping_keeps_digits(ds: Seq<char>)
    requires
        forall|i: int| 0 <= i < ds.len() ==> ds[i] != ',',
    ensures
        without_commas(group_thousands(ds)) == ds,
    decreases ds.len(),
{
    if ds.len() <= 3 {
        lemma_without_commas_plain(ds);
    } else {
        let head = ds.take(ds.len() - 3);
        let tail = ds.skip(ds.len() - 3);
        law_grouping_keeps_digits(head);
        lemma_without_commas_concat(group_thousands(head) + seq![','], tail);
        lemma_without_commas_concat(group_thousands(head), seq![',']);
        let c: Seq<char> = seq![','];
        assert(c.drop_last() =~= Seq::<char>::empty());
        assert(c.last() == ',');
        assert(without_commas(c.drop_last()) =~= Seq::<char>::empty());
        assert(without_commas(c) =~= Seq::<char>::empty());
        lemma_without_commas_plain(tail);
        assert(head + tail =~= ds);
        assert(without_commas(group_thousands(head)) + Seq::<char>::empty() =~= head);
    }
}

/// The DeepSeek card for a decoded reply: the red placeholder when the
/// account is not available, otherwise the balance card for `total_bits`
/// (bits of the first balance entry, 0.0 when there is none), its currency
/// and its two-decimal text `fixed`.
pub fn deepseek_reply(is_available: bool, total_bits: u64, currency_raw: &str, fixed: &str) -> (r: DeepSeekResult)
    ensures
        r@ == if is_available {
            balance_card(total_bits, currency_raw@, fixed@)
        } else {
            unavailable_card()
        },
{
    if is_available {
        balance_result(total_bits, currency_raw, fixed)
    } else {
        unavailable_result()
    }
}

} // verus!

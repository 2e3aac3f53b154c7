//! What each provider's fetch decides once its reply is in: the labels,
//! texts and placeholder lines of its cards. Sending the requests and
//! decoding the JSON replies happens around this module.
pub mod deepseek;
pub mod glm;
pub mod mimo;
pub mod minimax;

use vstd::prelude::*;

use crate::text::{i64_text, push_all, push_str, signed_decimal, string_of};

verus! {

/// A countdown written from its whole days, hours and minutes:
/// `{d}天{h}小时` when there are days, else `{h}小时{m}分` when there are
/// hours, else `{m}分`.
pub open spec fn duration_text_spec(d: i64, h: i64, m: i64) -> Seq<char> {
    if d > 0 {
        signed_decimal(d as int) + "天"@ + signed_decimal(h as int) + "小时"@
    } else if h > 0 {
        signed_decimal(h as int) + "小时"@ + signed_decimal(m as int) + "分"@
    } else {
        signed_decimal(m as int) + "分"@
    }
}

/// The countdown text of a positive duration split into whole days, hours
/// and minutes.
pub fn duration_text(d: i64, h: i64, m: i64) -> (r: String)
    ensures
        r@ == duration_text_spec(d, h, m),
{
    let mut v: Vec<char> = Vec::new();
    if d > 0 {
        let a = i64_text(d);
        push_all(&mut v, &a);
        push_str(&mut v, "天");
        let b = i64_text(h);
        push_all(&mut v, &b);
        push_str(&mut v, "小时");
    } else if h > 0 {
        let a = i64_text(h);
        push_all(&mut v, &a);
        push_str(&mut v, "小时");
        let b = i64_text(m);
        push_all(&mut v, &b);
        push_str(&mut v, "分");
    } else {
        let a = i64_text(m);
        push_all(&mut v, &a);
        push_str(&mut v, "分");
    }
    string_of(&v)
}

/// `{reset}后重置`: the countdown followed by "until reset".
pub open spec fn until_reset(reset: Seq<char>) -> Seq<char> {
    reset + "后重置"@
}

} // verus!

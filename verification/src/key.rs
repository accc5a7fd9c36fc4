//! The sink's object key: time-partitioned as `{day}/{millis}-{uuid}`,
//! where the day bucket is the millisecond clock rounded down by 86 400.

use vstd::prelude::*;

use crate::ids;
use crate::numfmt::{dec_str, lemma_dec_str_digits, u64_to_dec_string};

verus! {

/// The day bucket of a millisecond timestamp.
pub open spec fn day_bucket(ms: u64) -> u64 {
    (ms - ms % 86400) as u64
}

/// The key written for a payload at time `ms` with a fresh identifier.
pub open spec fn key_str(ms: u64, suffix: Seq<char>) -> Seq<char> {
    dec_str(day_bucket(ms) as nat) + seq!['/'] + dec_str(ms as nat) + seq!['-'] + suffix
}

/// Build the key text for a given clock reading and identifier.
pub fn build_key(cur_ms: u64, suffix: &str) -> (r: String)
    ensures
        r@ == key_str(cur_ms, suffix@),
{
    let cur_day = cur_ms - cur_ms % 86400;
    let mut r = u64_to_dec_string(cur_day);
    proof {
        reveal_strlit("/");
        reveal_strlit("-");
    }
    r.append("/");
    let ms_rendered = u64_to_dec_string(cur_ms);
    r.append(ms_rendered.as_str());
    r.append("-");
    r.append(suffix);
    proof {
        assert(r@ =~= key_str(cur_ms, suffix@));
    }
    r
}

/// Relies on `std::time::SystemTime::now` and
/// `duration_since(UNIX_EPOCH)`: the clock reading in milliseconds since
/// the epoch. The value depends on the wall clock, so nothing is promised
/// of it.
#[verifier::external_body]
fn current_millis() -> u64 {
    match std::time::SystemTime::now().duration_since(std::time::UNIX_EPOCH) {
        Ok(n) => n.as_millis() as u64,
        Err(_) => 0,
    }
}

/// The default sink key for a payload: `{day}/{millis}-{uuid}`, from the
/// clock and a fresh random identifier. The payload bytes do not take
/// part.
pub fn time_based_key_fn(_event: &[u8]) -> (r: String)
    ensures
        exists|ms: u64, suffix: Seq<char>|
            {
                &&& r@ == #[trigger] key_str(ms, suffix)
                &&& suffix.len() == 36
                &&& forall|i: int| 0 <= i < 36 ==> ids::is_key_char(#[trigger] suffix[i])
            },
{
    let cur_ms = current_millis();
    let suffix = ids::fresh_node_key();
    let r = build_key(cur_ms, suffix.as_str());
    proof {
        assert(r@ == key_str(cur_ms, suffix@));
    }
    r
}

/// Key format: for any clock reading and any hyphenated identifier, the
/// key is digits, a slash, digits, a hyphen and the 36 identifier
/// characters, and the leading integer is divisible by 86 400.
pub proof fn lemma_time_key_format(ms: u64, suffix: Seq<char>)
    requires
        suffix.len() == 36,
        forall|i: int| 0 <= i < 36 ==> ids::is_key_char(#[trigger] suffix[i]),
    ensures
        day_bucket(ms) % 86400 == 0,
        key_str(ms, suffix) == dec_str(day_bucket(ms) as nat) + seq!['/'] + dec_str(ms as nat)
            + seq!['-'] + suffix,
        forall|i: int|
            0 <= i < dec_str(day_bucket(ms) as nat).len() ==> '0' <= #[trigger] dec_str(
                day_bucket(ms) as nat,
            )[i] <= '9',
        forall|i: int|
            0 <= i < dec_str(ms as nat).len() ==> '0' <= #[trigger] dec_str(ms as nat)[i] <= '9',
        dec_str(day_bucket(ms) as nat).len() >= 1,
        dec_str(ms as nat).len() >= 1,
{
    lemma_dec_str_digits(day_bucket(ms) as nat);
    lemma_dec_str_digits(ms as nat);
    assert(day_bucket(ms) % 86400 == 0) by (nonlinear_arith);
}

} // verus!

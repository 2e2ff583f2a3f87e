//! Text shown by the web backend: shortened object ids, explorer links and
//! relative times.

use vstd::prelude::*;
use vstd::string::*;
use vstd::utf8::*;

use vstd::arithmetic::div_mod::{lemma_div_denominator, lemma_div_pos_is_pos, lemma_fundamental_div_mod_converse};

use crate::decimal::{int_decimal, lemma_int_decimal_injective, push_decimal};
use crate::text::lemma_encode_utf8_concat;

verus! {

pub const SUI_TX_EXPLORER_URL: &'static str = "https://suivision.xyz/txblock/";

pub const SUI_CHECKPOINT_EXPLORER_URL: &'static str = "https://suivision.xyz/checkpoint/";

pub const SUI_PACKAGE_EXPLORER_URL: &'static str = "https://suivision.xyz/package/";

pub const SUI_ADDRESS_EXPLORER_URL: &'static str = "https://suivision.xyz/account/";

pub const SUI_OBJECT_EXPLORER_URL: &'static str = "https://suivision.xyz/object/";

pub const PHANTOM_OBJECT_PATH: &'static str = "/object/";

pub const PHANTOM_PACKAGE_PATH: &'static str = "/package/";

/// The UTF-8 bytes of the shortened form of an id whose UTF-8 bytes are `b`:
/// ids longer than 14 bytes keep their first 8 and last 6 bytes around
/// "...", shorter ones are kept whole.
pub open spec fn short_id_bytes(b: Seq<u8>) -> Seq<u8> {
    if b.len() > 14 {
        b.subrange(0, 8) + seq![46u8, 46u8, 46u8] + b.subrange(b.len() - 6, b.len() as int)
    } else {
        b
    }
}

/// The ids that can be shortened without cutting a character in two.
pub open spec fn shortenable(b: Seq<u8>) -> bool {
    b.len() > 14 ==> is_char_boundary(b, 8) && is_char_boundary(b, b.len() - 6)
}

/// Shortens a long object id to its first 8 and last 6 bytes joined by "...";
/// an id of at most 14 bytes is returned unchanged.
pub fn short_sui_object_id(id: &str) -> (res: String)
    requires
        shortenable(id.spec_bytes()),
    ensures
        encode_utf8(res@) == short_id_bytes(id.spec_bytes()),
{
    let len = id.as_bytes().len();
    if len > 14 {
        let (head, _) = id.split_at(8);
        let (_, tail) = id.split_at(len - 6);
        let mut res = head.to_owned();
        res.append("...");
        res.append(tail);
        proof {
            reveal_strlit("...");
            lemma_encode_utf8_concat(head@, "..."@);
            lemma_encode_utf8_concat(head@ + "..."@, tail@);
            let dots = "..."@;
            assert(is_ascii_chars(dots));
            is_ascii_chars_encode_utf8(dots);
            assert(encode_utf8(dots) =~= seq![46u8, 46u8, 46u8]);
        }
        res
    } else {
        id.to_owned()
    }
}

/// The shortened form of an ASCII id, character by character: its first 8
/// and last 6 characters around "..." when it is longer than 14 characters.
pub open spec fn short_ascii_id(id: Seq<char>) -> Seq<char> {
    if id.len() > 14 {
        id.subrange(0, 8) + seq!['.', '.', '.'] + id.subrange(id.len() - 6, id.len() as int)
    } else {
        id
    }
}

/// An ASCII id, as Sui object ids are, can always be shortened, and its
/// short form keeps its first 8 and last 6 characters around "..." (17
/// characters in all) when it has more than 14, and is the id itself
/// otherwise.
pub proof fn lemma_short_ascii_id(id: Seq<char>)
    requires
        is_ascii_chars(id),
    ensures
        shortenable(encode_utf8(id)),
        short_id_bytes(encode_utf8(id)) == encode_utf8(short_ascii_id(id)),
        id.len() > 14 ==> short_ascii_id(id).len() == 17,
{
    let b = encode_utf8(id);
    is_ascii_chars_encode_utf8(id);
    encode_utf8_valid_utf8(id);
    if id.len() > 14 {
        is_char_boundary_iff_not_is_continuation_byte(b, 8);
        is_char_boundary_iff_not_is_continuation_byte(b, b.len() - 6);
        let head = id.subrange(0, 8);
        let dots = seq!['.', '.', '.'];
        let tail = id.subrange(id.len() - 6, id.len() as int);
        assert(is_ascii_chars(head));
        assert(is_ascii_chars(dots));
        assert(is_ascii_chars(tail));
        is_ascii_chars_encode_utf8(head);
        is_ascii_chars_encode_utf8(dots);
        is_ascii_chars_encode_utf8(tail);
        lemma_encode_utf8_concat(head, dots);
        lemma_encode_utf8_concat(head + dots, tail);
        assert(encode_utf8(head) =~= b.subrange(0, 8));
        assert(encode_utf8(dots) =~= seq![46u8, 46u8, 46u8]);
        assert(encode_utf8(tail) =~= b.subrange(b.len() - 6, b.len() as int));
        assert(short_id_bytes(b) =~= encode_utf8(short_ascii_id(id)));
    }
}

fn prefixed(prefix: &str, rest: &str) -> (res: String)
    ensures
        res@ == prefix@ + rest@,
{
    let mut res = prefix.to_owned();
    res.append(rest);
    res
}

/// Link to a transaction on the Sui explorer.
pub fn sui_tx_url(tx_digest: &str) -> (res: String)
    ensures
        res@ == SUI_TX_EXPLORER_URL@ + tx_digest@,
{
    prefixed(SUI_TX_EXPLORER_URL, tx_digest)
}

/// Link to a checkpoint on the Sui explorer; the checkpoint number is
/// written in decimal.
pub fn sui_checkpoint_url(checkpoint: &i64) -> (res: String)
    ensures
        res@ == SUI_CHECKPOINT_EXPLORER_URL@ + int_decimal(*checkpoint as int),
{
    let mut res = SUI_CHECKPOINT_EXPLORER_URL.to_owned();
    push_decimal(&mut res, *checkpoint);
    res
}

/// Link to a package on the Sui explorer.
pub fn sui_package_url(package_id: &str) -> (res: String)
    ensures
        res@ == SUI_PACKAGE_EXPLORER_URL@ + package_id@,
{
    prefixed(SUI_PACKAGE_EXPLORER_URL, package_id)
}

/// Link to an account on the Sui explorer.
pub fn sui_address_url(address: &str) -> (res: String)
    ensures
        res@ == SUI_ADDRESS_EXPLORER_URL@ + address@,
{
    prefixed(SUI_ADDRESS_EXPLORER_URL, address)
}

/// Link to an object on the Sui explorer.
pub fn sui_object_url(object_id: &str) -> (res: String)
    ensures
        res@ == SUI_OBJECT_EXPLORER_URL@ + object_id@,
{
    prefixed(SUI_OBJECT_EXPLORER_URL, object_id)
}

/// Path of an upgrade cap's page on this site.
pub fn phantom_cap_url(cap_id: &str) -> (res: String)
    ensures
        res@ == PHANTOM_OBJECT_PATH@ + cap_id@,
{
    prefixed(PHANTOM_OBJECT_PATH, cap_id)
}

/// Path of a package's page on this site.
pub fn phantom_package_url(package_id: &str) -> (res: String)
    ensures
        res@ == PHANTOM_PACKAGE_PATH@ + package_id@,
{
    prefixed(PHANTOM_PACKAGE_PATH, package_id)
}

/// Links built on the same prefix from different ids differ: each link
/// names exactly one transaction, package, account or object.
pub proof fn lemma_link_injective(prefix: Seq<char>, a: Seq<char>, b: Seq<char>)
    requires
        prefix + a == prefix + b,
    ensures
        a == b,
{
    assert(a =~= (prefix + a).subrange(prefix.len() as int, (prefix + a).len() as int));
    assert(b =~= (prefix + b).subrange(prefix.len() as int, (prefix + b).len() as int));
}

/// Different checkpoints have different explorer links.
pub proof fn lemma_checkpoint_url_injective(a: i64, b: i64)
    requires
        SUI_CHECKPOINT_EXPLORER_URL@ + int_decimal(a as int) == SUI_CHECKPOINT_EXPLORER_URL@ + int_decimal(
            b as int,
        ),
    ensures
        a == b,
{
    lemma_link_injective(SUI_CHECKPOINT_EXPLORER_URL@, int_decimal(a as int), int_decimal(b as int));
    lemma_int_decimal_injective(a as int, b as int);
}

/// Integer division rounding toward zero, as Rust's `/` on signed integers.
pub open spec fn trunc_div(a: int, b: int) -> int {
    if a >= 0 {
        a / b
    } else {
        -((-a) / b)
    }
}

/// Nanoseconds in a second.
pub open spec fn nanos_per_sec() -> int {
    1_000_000_000
}

/// Whole seconds in a span of `ns` nanoseconds (rounded toward zero).
pub open spec fn whole_seconds(ns: int) -> int {
    trunc_div(ns, nanos_per_sec())
}

/// Whole days in a span of `ns` nanoseconds (rounded toward zero).
pub open spec fn whole_days(ns: int) -> int {
    trunc_div(whole_seconds(ns), 86_400)
}

/// Whole hours in a span of `ns` nanoseconds (rounded toward zero).
pub open spec fn whole_hours(ns: int) -> int {
    trunc_div(whole_seconds(ns), 3600)
}

/// Whole minutes in a span of `ns` nanoseconds (rounded toward zero).
pub open spec fn whole_minutes(ns: int) -> int {
    trunc_div(whole_seconds(ns), 60)
}

/// The spans that a `chrono::TimeDelta` can hold: at most `i64::MAX`
/// milliseconds either way.
pub open spec fn span_in_range(ns: int) -> bool {
    -(i64::MAX as int) * 1_000_000 <= ns <= (i64::MAX as int) * 1_000_000
}

/// An instant as a `chrono::DateTime<Utc>` holds it: the seconds since the
/// Unix epoch that `timestamp()` gives (a leap second counts as the second
/// before it), and the nanoseconds past that second that
/// `timestamp_subsec_nanos()` gives, which reach 10^9 or more only within a
/// leap second.
#[derive(Clone, Copy, Debug)]
pub struct UtcTime {
    pub secs: i64,
    pub nanos: u32,
}

/// The instants that a `DateTime<Utc>` can be: fewer than 2 * 10^9
/// nanoseconds past the second.
pub open spec fn valid_utc_time(t: UtcTime) -> bool {
    t.nanos < 2_000_000_000
}

/// The second of the day of a second count since the epoch.
pub open spec fn second_of_day(secs: int) -> int {
    secs % 86_400
}

/// The span in nanoseconds from `from` to `to`, as chrono's
/// `signed_duration_since` measures it: the whole days between their dates,
/// plus the time of day of `to` less that of `from`, where a leap second
/// that lies between them counts as one more second.
pub open spec fn span_nanos(from: UtcTime, to: UtcTime) -> int {
    let sf = second_of_day(from.secs as int);
    let st = second_of_day(to.secs as int);
    let leap = if st > sf && from.nanos >= 1_000_000_000 {
        1int
    } else if st < sf && to.nanos >= 1_000_000_000 {
        -1int
    } else {
        0int
    };
    (to.secs - from.secs + leap) * nanos_per_sec() + (to.nanos - from.nanos)
}

/// "{n}d ago", "{n}h ago" or "{n}m ago" for the time elapsed from
/// `timestamp` to `current`: days when at least one whole day has passed,
/// else hours when at least one whole hour has, else minutes.
pub open spec fn time_ago_text(timestamp: UtcTime, current: UtcTime) -> Seq<char> {
    let span = span_nanos(timestamp, current);
    if whole_days(span) > 0 {
        int_decimal(whole_days(span)) + seq!['d', ' ', 'a', 'g', 'o']
    } else if whole_hours(span) > 0 {
        int_decimal(whole_hours(span)) + seq!['h', ' ', 'a', 'g', 'o']
    } else {
        int_decimal(whole_minutes(span)) + seq!['m', ' ', 'a', 'g', 'o']
    }
}

/// Whole units of `unit` seconds in a span, counted from its whole seconds,
/// are its whole units counted directly from its nanoseconds.
proof fn lemma_whole_units(ns: int, unit: int)
    requires
        unit > 0,
    ensures
        trunc_div(whole_seconds(ns), unit) == trunc_div(ns, nanos_per_sec() * unit),
        ns >= 0 ==> trunc_div(ns, nanos_per_sec() * unit) >= 0,
        ns < 0 ==> trunc_div(ns, nanos_per_sec() * unit) <= 0,
{
    if ns >= 0 {
        lemma_div_denominator(ns, nanos_per_sec(), unit);
        lemma_div_pos_is_pos(ns, nanos_per_sec());
        lemma_div_pos_is_pos(ns, nanos_per_sec() * unit);
    } else {
        lemma_div_denominator(-ns, nanos_per_sec(), unit);
        lemma_div_pos_is_pos(-ns, nanos_per_sec());
        lemma_div_pos_is_pos((-ns) / nanos_per_sec(), unit);
        lemma_div_pos_is_pos(-ns, nanos_per_sec() * unit);
    }
}

/// Two instants outside leap seconds are apart by the plain difference of
/// their times in nanoseconds.
pub proof fn lemma_span_is_difference(from: UtcTime, to: UtcTime)
    requires
        from.nanos < 1_000_000_000,
        to.nanos < 1_000_000_000,
    ensures
        span_nanos(from, to) == (to.secs * nanos_per_sec() + to.nanos) - (from.secs * nanos_per_sec()
            + from.nanos),
{
}

/// Once a whole day has passed, the text counts the whole days: a span of at
/// least `n` days and less than `n + 1` days, for any `n` of at least one,
/// reads "{n}d ago".
pub proof fn lemma_time_ago_days(timestamp: UtcTime, current: UtcTime, n: int)
    requires
        n >= 1,
        n * 86_400 * nanos_per_sec() <= span_nanos(timestamp, current),
        span_nanos(timestamp, current) < (n + 1) * 86_400 * nanos_per_sec(),
    ensures
        time_ago_text(timestamp, current) == int_decimal(n) + seq!['d', ' ', 'a', 'g', 'o'],
{
    let span = span_nanos(timestamp, current);
    lemma_whole_units(span, 86_400);
    lemma_fundamental_div_mod_converse(span, nanos_per_sec() * 86_400, n, span - n * 86_400 * nanos_per_sec());
}

/// Under a day, once a whole hour has passed, the text counts the whole
/// hours: a span of at least `n` hours and less than `n + 1`, for `n` from
/// one to 23, reads "{n}h ago".
pub proof fn lemma_time_ago_hours(timestamp: UtcTime, current: UtcTime, n: int)
    requires
        1 <= n < 24,
        n * 3600 * nanos_per_sec() <= span_nanos(timestamp, current),
        span_nanos(timestamp, current) < (n + 1) * 3600 * nanos_per_sec(),
    ensures
        time_ago_text(timestamp, current) == int_decimal(n) + seq!['h', ' ', 'a', 'g', 'o'],
{
    let span = span_nanos(timestamp, current);
    lemma_whole_units(span, 86_400);
    lemma_whole_units(span, 3600);
    lemma_fundamental_div_mod_converse(span, nanos_per_sec() * 86_400, 0, span);
    lemma_fundamental_div_mod_converse(span, nanos_per_sec() * 3600, n, span - n * 3600 * nanos_per_sec());
}

/// Under an hour, the text counts the whole minutes: a span of at least `n`
/// minutes and less than `n + 1`, for `n` from zero to 59, reads "{n}m ago".
pub proof fn lemma_time_ago_minutes(timestamp: UtcTime, current: UtcTime, n: int)
    requires
        0 <= n < 60,
        n * 60 * nanos_per_sec() <= span_nanos(timestamp, current),
        span_nanos(timestamp, current) < (n + 1) * 60 * nanos_per_sec(),
    ensures
        time_ago_text(timestamp, current) == int_decimal(n) + seq!['m', ' ', 'a', 'g', 'o'],
{
    let span = span_nanos(timestamp, current);
    lemma_whole_units(span, 86_400);
    lemma_whole_units(span, 3600);
    lemma_whole_units(span, 60);
    lemma_fundamental_div_mod_converse(span, nanos_per_sec() * 86_400, 0, span);
    lemma_fundamental_div_mod_converse(span, nanos_per_sec() * 3600, 0, span);
    lemma_fundamental_div_mod_converse(span, nanos_per_sec() * 60, n, span - n * 60 * nanos_per_sec());
}

/// A time in the future reads as minutes rounded toward zero: a span above
/// `n - 1` minutes and at most `n` minutes, for any `n` of at most zero,
/// reads "{n}m ago".
pub proof fn lemma_time_ago_future(timestamp: UtcTime, current: UtcTime, n: int)
    requires
        n <= 0,
        (n - 1) * 60 * nanos_per_sec() < span_nanos(timestamp, current),
        span_nanos(timestamp, current) <= n * 60 * nanos_per_sec(),
    ensures
        time_ago_text(timestamp, current) == int_decimal(n) + seq!['m', ' ', 'a', 'g', 'o'],
{
    let span = span_nanos(timestamp, current);
    lemma_whole_units(span, 86_400);
    lemma_whole_units(span, 3600);
    lemma_whole_units(span, 60);
    if span < 0 {
        lemma_fundamental_div_mod_converse(-span, nanos_per_sec() * 60, -n, -span + n * 60 * nanos_per_sec());
    } else {
        lemma_fundamental_div_mod_converse(span, nanos_per_sec() * 60, 0, span);
    }
}

/// chrono `TimeDelta::num_days` on `TimeDelta::new(secs, nanos)`: the whole
/// days of the span of `secs` seconds and `nanos` nanoseconds, rounded
/// toward zero. `new` gives a value exactly on the spans that `requires`
/// admits.
#[verifier::external_body]
fn span_num_days(secs: i64, nanos: u32) -> (days: i64)
    requires
        nanos < 1_000_000_000,
        span_in_range(secs * nanos_per_sec() + nanos),
    ensures
        days == whole_days(secs * nanos_per_sec() + nanos),
{
    chrono::TimeDelta::new(secs, nanos).unwrap().num_days()
}

/// chrono `TimeDelta::num_hours` on `TimeDelta::new(secs, nanos)`: the
/// whole hours of the span, rounded toward zero.
#[verifier::external_body]
fn span_num_hours(secs: i64, nanos: u32) -> (hours: i64)
    requires
        nanos < 1_000_000_000,
        span_in_range(secs * nanos_per_sec() + nanos),
    ensures
        hours == whole_hours(secs * nanos_per_sec() + nanos),
{
    chrono::TimeDelta::new(secs, nanos).unwrap().num_hours()
}

/// chrono `TimeDelta::num_minutes` on `TimeDelta::new(secs, nanos)`: the
/// whole minutes of the span, rounded toward zero.
#[verifier::external_body]
fn span_num_minutes(secs: i64, nanos: u32) -> (minutes: i64)
    requires
        nanos < 1_000_000_000,
        span_in_range(secs * nanos_per_sec() + nanos),
    ensures
        minutes == whole_minutes(secs * nanos_per_sec() + nanos),
{
    chrono::TimeDelta::new(secs, nanos).unwrap().num_minutes()
}

fn second_of_day_of(secs: i64) -> (sod: i64)
    ensures
        sod == second_of_day(secs as int),
{
    let r = secs % 86_400;
    if r < 0 {
        r + 86_400
    } else {
        r
    }
}

/// The span from `from` to `to` as whole seconds (rounded down) and the
/// nanoseconds past them.
fn span_between(from: &UtcTime, to: &UtcTime) -> (res: (i64, u32))
    requires
        valid_utc_time(*from),
        valid_utc_time(*to),
        span_in_range(span_nanos(*from, *to)),
    ensures
        res.1 < 1_000_000_000,
        res.0 * nanos_per_sec() + res.1 == span_nanos(*from, *to),
{
    let sf = second_of_day_of(from.secs);
    let st = second_of_day_of(to.secs);
    let leap: i128 = if st > sf && from.nanos >= 1_000_000_000 {
        1
    } else if st < sf && to.nanos >= 1_000_000_000 {
        -1
    } else {
        0
    };
    let span: i128 = (to.secs as i128 - from.secs as i128 + leap) * 1_000_000_000 + (to.nanos as i128
        - from.nanos as i128);
    let q = span / 1_000_000_000;
    let m = span % 1_000_000_000;
    let (secs, nanos) = if m < 0 {
        (q - 1, m + 1_000_000_000)
    } else {
        (q, m)
    };
    (secs as i64, nanos as u32)
}

/// Relative time from `timestamp` to `current`, in the coarsest unit that
/// is at least one.
pub fn format_time_ago(timestamp: &UtcTime, current: &UtcTime) -> (res: String)
    requires
        valid_utc_time(*timestamp),
        valid_utc_time(*current),
        span_in_range(span_nanos(*timestamp, *current)),
    ensures
        res@ == time_ago_text(*timestamp, *current),
{
    let (secs, nanos) = span_between(timestamp, current);
    let days = span_num_days(secs, nanos);
    let mut res = String::new();
    if days > 0 {
        push_decimal(&mut res, days);
        res.append("d ago");
        proof { reveal_strlit("d ago"); }
    } else {
        let hours = span_num_hours(secs, nanos);
        if hours > 0 {
            push_decimal(&mut res, hours);
            res.append("h ago");
            proof { reveal_strlit("h ago"); }
        } else {
            let minutes = span_num_minutes(secs, nanos);
            push_decimal(&mut res, minutes);
            res.append("m ago");
            proof { reveal_strlit("m ago"); }
        }
    }
    res
}

} // verus!

//! Desktop shell preferences and the account-balance / redeem-history
//! formatting rules (`1 credit = 1 yuan = 1_000_000 micro`).

use vstd::prelude::*;
use crate::asset_map::AssetMap;
use crate::clock::system_unix_secs;
use crate::text::{
    chars_of, chars_starts_with, decimal, owned, push_char, push_chars, push_str,
    push_zero_padded, starts_with, str_eq, string_of, trim, trim_str, u64_to_string, zero_pad,
};

verus! {

/// File name of the preferences document inside the data directory.
pub const PREFS_FILE: &'static str = "desktop-ui.json";

/// One row of the redeem history shown in the account panel.
#[derive(Clone, Debug)]
pub struct RedeemHistoryEntry {
    pub time: String,
    pub code: String,
    pub amount_credits: i64,
}

/// Desktop shell preferences. `redeem_code_overrides` maps a server
/// `cardKeyId` to the code the user typed.
#[derive(Clone, Debug)]
pub struct DesktopUiPrefs {
    pub onboarding_dismissed: bool,
    pub last_tab: Option<String>,
    pub redeem_history: Vec<RedeemHistoryEntry>,
    pub redeem_code_overrides: AssetMap<String>,
}

impl Default for DesktopUiPrefs {
    fn default() -> (p: Self)
        ensures
            !p.onboarding_dismissed,
            p.last_tab is None,
            p.redeem_history@.len() == 0,
            p.redeem_code_overrides.wf(),
            p.redeem_code_overrides.view_map() == Map::<Seq<char>, String>::empty(),
    {
        DesktopUiPrefs {
            onboarding_dismissed: false,
            last_tab: None,
            redeem_history: Vec::new(),
            redeem_code_overrides: AssetMap::new(),
        }
    }
}

/// A credit-ledger entry. `metadata` holds the fields of the entry's JSON
/// metadata object: the key, and the value when it is a JSON string (`None`
/// for any other JSON value).
#[derive(Clone, Debug)]
pub struct LedgerEntry {
    pub entry_id: String,
    pub delta_credits: i64,
    pub balance_after: i64,
    pub source: String,
    pub reference_id: String,
    pub metadata: Vec<(String, Option<String>)>,
    pub created_at: u64,
}

// ---------------------------------------------------------------------------
// Money formatting
// ---------------------------------------------------------------------------

/// Micro credits per credit (and per yuan).
pub open spec fn micro_per_credit() -> int {
    1_000_000
}

/// Thousands separators: `"1234567"` becomes `"1,234,567"`.
pub open spec fn group_digits_spec(s: Seq<char>) -> Seq<char>
    decreases s.len(),
{
    if s.len() <= 3 {
        s
    } else {
        group_digits_spec(s.subrange(0, s.len() - 3)) + seq![','] + s.subrange(
            s.len() - 3,
            s.len() as int,
        )
    }
}

/// `s` without trailing `'0'` characters (`trim_end_matches('0')`).
pub open spec fn trim_end_zeros(s: Seq<char>) -> Seq<char>
    decreases s.len(),
{
    if s.len() > 0 && s.last() == '0' {
        trim_end_zeros(s.drop_last())
    } else {
        s
    }
}

/// Yuan amount of `micro` (its absolute value): grouped whole part, then at
/// least two and at most six fraction digits, trailing zeros dropped.
pub open spec fn yuan_text(micro: int) -> Seq<char> {
    let abs = if micro < 0 { -micro } else { micro };
    let whole = abs / micro_per_credit();
    let frac = abs % micro_per_credit();
    let grouped = group_digits_spec(decimal(whole as nat));
    if frac == 0 {
        grouped + seq!['.', '0', '0']
    } else {
        let trimmed = trim_end_zeros(zero_pad(decimal(frac as nat), 6));
        if trimmed.len() == 1 {
            grouped + seq!['.'] + trimmed + seq!['0']
        } else {
            grouped + seq!['.'] + trimmed
        }
    }
}

/// `"¥"` followed by the yuan amount of the balance; negative balances show 0.
pub open spec fn account_balance_text(credits_micro: int) -> Seq<char> {
    seq!['¥'] + yuan_text(if credits_micro < 0 { 0 } else { credits_micro })
}

/// Inserts thousands separators into a run of digits.
pub fn group_digits(digits: &[char]) -> (out: Vec<char>)
    ensures
        out@ == group_digits_spec(digits@),
{
    let n = digits.len();
    let mut out: Vec<char> = Vec::new();
    if n == 0 {
        assert(out@ =~= digits@);
        return out;
    }
    let first = if n % 3 == 0 { 3 } else { n % 3 };
    let mut k: usize = 0;
    while k < first
        invariant
            k <= first <= 3,
            first <= n,
            n == digits@.len(),
            out@ == digits@.take(k as int),
        decreases first - k,
    {
        out.push(digits[k]);
        k = k + 1;
        assert(out@ =~= digits@.take(k as int));
    }
    assert(out@ == group_digits_spec(digits@.take(k as int)));
    while k < n
        invariant
            1 <= k <= n,
            n == digits@.len(),
            (n - k) % 3 == 0,
            out@ == group_digits_spec(digits@.take(k as int)),
        decreases n - k,
    {
        let ghost before = out@;
        out.push(',');
        out.push(digits[k]);
        out.push(digits[k + 1]);
        out.push(digits[k + 2]);
        proof {
            let t = digits@.take(k + 3);
            assert(t.subrange(0, t.len() - 3) =~= digits@.take(k as int));
            assert(t.subrange(t.len() - 3, t.len() as int) =~= seq![
                digits@[k as int],
                digits@[k + 1],
                digits@[k + 2],
            ]);
            assert(out@ =~= group_digits_spec(t));
        }
        k = k + 3;
    }
    assert(digits@.take(n as int) =~= digits@);
    out
}

/// Drops trailing `'0'` characters.
fn trim_zeros(cs: &mut Vec<char>)
    ensures
        final(cs)@ == trim_end_zeros(old(cs)@),
{
    while cs.len() > 0 && cs[cs.len() - 1] == '0'
        invariant
            trim_end_zeros(cs@) == trim_end_zeros(old(cs)@),
        decreases cs@.len(),
    {
        let ghost before = cs@;
        cs.pop();
        assert(cs@ =~= before.drop_last());
    }
}

/// Yuan amount of `micro`: `"37,550.00"`, `"0.123456"`, `"1.23"`.
pub fn format_yuan_from_micro(micro: i64) -> (out: String)
    ensures
        out@ == yuan_text(micro as int),
{
    let abs: u64 = if micro < 0 { ((-(micro + 1)) as u64) + 1 } else { micro as u64 };
    let whole = abs / 1_000_000;
    let frac = abs % 1_000_000;
    let whole_s = u64_to_string(whole);
    let whole_cs = chars_of(whole_s.as_str());
    let grouped = group_digits(whole_cs.as_slice());
    let mut out = string_of(grouped.as_slice());
    if frac == 0 {
        push_char(&mut out, '.');
        push_char(&mut out, '0');
        push_char(&mut out, '0');
        assert(out@ =~= yuan_text(micro as int));
        return out;
    }
    let mut padded = String::new();
    push_zero_padded(&mut padded, frac, 6);
    let mut frac_cs = chars_of(padded.as_str());
    trim_zeros(&mut frac_cs);
    push_char(&mut out, '.');
    push_chars(&mut out, frac_cs.as_slice());
    if frac_cs.len() == 1 {
        push_char(&mut out, '0');
    }
    assert(out@ =~= yuan_text(micro as int));
    out
}

/// `"¥"` and the yuan amount of the balance; negative balances show `¥0.00`.
pub fn format_account_balance(credits_micro: i64) -> (out: String)
    ensures
        out@ == account_balance_text(credits_micro as int),
{
    let clamped = if credits_micro < 0 { 0 } else { credits_micro };
    let amount = format_yuan_from_micro(clamped);
    let mut out = String::new();
    push_char(&mut out, '¥');
    push_str(&mut out, amount.as_str());
    assert(out@ =~= account_balance_text(credits_micro as int));
    out
}

/// Redeem-history amount with a leading `+`: `"+¥5.00"`.
pub fn format_redeem_amount(amount_credits_micro: i64) -> (out: String)
    ensures
        out@ == seq!['+'] + account_balance_text(amount_credits_micro as int),
{
    let balance = format_account_balance(amount_credits_micro);
    let mut out = String::new();
    push_char(&mut out, '+');
    push_str(&mut out, balance.as_str());
    assert(out@ =~= seq!['+'] + account_balance_text(amount_credits_micro as int));
    out
}

/// What `format_balance_display` shows: the trimmed server string when it is
/// non-empty (prefixed with `¥` unless it already starts with `¥` or `+`),
/// else the formatted micro balance.
pub open spec fn balance_display_text(amount_yuan: Option<Seq<char>>, credits_micro: int) -> Seq<
    char,
> {
    match amount_yuan {
        Some(raw) if trim(raw).len() > 0 => {
            let t = trim(raw);
            if t[0] == '¥' || t[0] == '+' {
                t
            } else {
                seq!['¥'] + t
            }
        },
        _ => account_balance_text(credits_micro),
    }
}

/// Prefers the server-provided yuan string; otherwise formats micro credits.
pub fn format_balance_display(amount_yuan: Option<&str>, credits_micro: i64) -> (out: String)
    ensures
        out@ == balance_display_text(
            match amount_yuan {
                Some(s) => Some(s@),
                None => None,
            },
            credits_micro as int,
        ),
{
    if let Some(raw) = amount_yuan {
        let t = trim_str(raw);
        if t.len() > 0 {
            if t[0] == '¥' || t[0] == '+' {
                return string_of(t.as_slice());
            }
            let mut out = String::new();
            push_char(&mut out, '¥');
            push_chars(&mut out, t.as_slice());
            return out;
        }
    }
    format_account_balance(credits_micro)
}

// ---------------------------------------------------------------------------
// Timestamps
// ---------------------------------------------------------------------------

/// Rust's truncating division on integers (`d > 0`).
pub open spec fn tdiv(a: int, d: int) -> int {
    if a >= 0 {
        a / d
    } else {
        -((-a) / d)
    }
}

/// Rust's remainder, with the sign of the dividend (`d > 0`).
pub open spec fn trem(a: int, d: int) -> int {
    if a >= 0 {
        a % d
    } else {
        -((-a) % d)
    }
}

/// `v` clamped into `lo..=hi`.
pub open spec fn clamp_int(v: int, lo: int, hi: int) -> int {
    if v < lo {
        lo
    } else if v > hi {
        hi
    } else {
        v
    }
}

/// `{v:0width}` for a signed integer: the sign first, then zeros up to `width`.
pub open spec fn int_pad(v: int, width: nat) -> Seq<char> {
    if v < 0 {
        seq!['-'] + zero_pad(decimal((-v) as nat), if width >= 1 { (width - 1) as nat } else { 0 })
    } else {
        zero_pad(decimal(v as nat), width)
    }
}

/// `secs as i64`: values above `i64::MAX` wrap to negative.
pub open spec fn as_i64(secs: nat) -> int {
    if secs <= i64::MAX {
        secs as int
    } else {
        secs - 0x1_0000_0000_0000_0000
    }
}

/// Calendar-ish fields the shell derives from a unix time: years of 365
/// days, months of 30 days, clamped into `1..=12` and `1..=28`.
pub open spec fn unix_fields(secs: nat) -> (int, int, int, int, int, int) {
    let s = as_i64(secs);
    let days = tdiv(s, 86_400);
    let hour = trem(tdiv(s, 3600), 24);
    let minute = trem(tdiv(s, 60), 60);
    let second = trem(s, 60);
    let year = 1970 + tdiv(days, 365);
    let month = clamp_int(tdiv(trem(days, 365), 30), 1, 12);
    let day = clamp_int(trem(trem(days, 365), 30), 1, 28);
    (year, month, day, hour, minute, second)
}

/// `YYYY-MM-DD HH:MM:SS` of [`unix_fields`].
pub open spec fn unix_timestamp_text(secs: nat) -> Seq<char> {
    let f = unix_fields(secs);
    int_pad(f.0, 4) + seq!['-'] + int_pad(f.1, 2) + seq!['-'] + int_pad(f.2, 2) + seq![' ']
        + int_pad(f.3, 2) + seq![':'] + int_pad(f.4, 2) + seq![':'] + int_pad(f.5, 2)
}

/// `YYYY-MM-DD HH:MM` of [`unix_fields`], or `"—"` for 0.
pub open spec fn share_modified_text(secs: nat) -> Seq<char> {
    if secs == 0 {
        seq!['—']
    } else {
        let f = unix_fields(secs);
        int_pad(f.0, 4) + seq!['-'] + int_pad(f.1, 2) + seq!['-'] + int_pad(f.2, 2) + seq![' ']
            + int_pad(f.3, 2) + seq![':'] + int_pad(f.4, 2)
    }
}

/// A signed value carried as sign and magnitude.
struct Signed {
    neg: bool,
    mag: u64,
}

impl Signed {
    spec fn value(self) -> int {
        if self.neg {
            -(self.mag as int)
        } else {
            self.mag as int
        }
    }
}

fn signed_div(a: &Signed, d: u64) -> (r: Signed)
    requires
        d > 0,
    ensures
        r.value() == tdiv(a.value(), d as int),
{
    let m = a.mag / d;
    if a.neg && m > 0 {
        Signed { neg: true, mag: m }
    } else {
        Signed { neg: false, mag: m }
    }
}

fn signed_rem(a: &Signed, d: u64) -> (r: Signed)
    requires
        d > 0,
    ensures
        r.value() == trem(a.value(), d as int),
{
    let m = a.mag % d;
    proof {
        if a.neg && a.mag > 0 {
            assert(-a.value() == a.mag as int);
            assert(trem(a.value(), d as int) == -((a.mag as int) % (d as int)));
        } else if a.neg {
            assert(a.value() == 0);
            assert(0int % (d as int) == 0);
        }
    }
    if a.neg && m > 0 {
        Signed { neg: true, mag: m }
    } else {
        Signed { neg: false, mag: m }
    }
}

fn signed_clamp(a: &Signed, lo: u64, hi: u64) -> (r: u64)
    requires
        lo <= hi,
    ensures
        r as int == clamp_int(a.value(), lo as int, hi as int),
{
    if a.neg && a.mag > 0 {
        lo
    } else if a.mag < lo {
        lo
    } else if a.mag > hi {
        hi
    } else {
        a.mag
    }
}

fn push_signed_padded(out: &mut String, v: &Signed, width: usize)
    requires
        width >= 1,
    ensures
        final(out)@ == old(out)@ + int_pad(v.value(), width as nat),
{
    if v.neg && v.mag > 0 {
        push_char(out, '-');
        push_zero_padded(out, v.mag, width - 1);
        assert(final(out)@ =~= old(out)@ + int_pad(v.value(), width as nat));
    } else {
        push_zero_padded(out, v.mag, width);
    }
}

/// Computes the fields of [`unix_fields`] as signed values.
fn unix_field_values(secs: u64) -> (r: (Signed, u64, u64, Signed, Signed, Signed))
    ensures
        r.0.value() == unix_fields(secs as nat).0,
        r.1 as int == unix_fields(secs as nat).1,
        r.2 as int == unix_fields(secs as nat).2,
        r.3.value() == unix_fields(secs as nat).3,
        r.4.value() == unix_fields(secs as nat).4,
        r.5.value() == unix_fields(secs as nat).5,
{
    let s = if secs <= 0x7fff_ffff_ffff_ffff {
        Signed { neg: false, mag: secs }
    } else {
        Signed { neg: true, mag: (u64::MAX - secs) + 1 }
    };
    assert(s.value() == as_i64(secs as nat));
    let days = signed_div(&s, 86_400);
    let hour = signed_rem(&signed_div(&s, 3600), 24);
    let minute = signed_rem(&signed_div(&s, 60), 60);
    let second = signed_rem(&s, 60);
    let years = signed_div(&days, 365);
    let year = if years.neg {
        if years.mag <= 1970 {
            Signed { neg: false, mag: 1970 - years.mag }
        } else {
            Signed { neg: true, mag: years.mag - 1970 }
        }
    } else {
        Signed { neg: false, mag: 1970 + years.mag }
    };
    let in_year = signed_rem(&days, 365);
    let month = signed_clamp(&signed_div(&in_year, 30), 1, 12);
    let day = signed_clamp(&signed_rem(&in_year, 30), 1, 28);
    (year, month, day, hour, minute, second)
}

/// `YYYY-MM-DD HH:MM:SS` of a unix time (365-day years, 30-day months).
pub fn timestamp_from_unix(secs: u64) -> (out: String)
    ensures
        out@ == unix_timestamp_text(secs as nat),
{
    let (year, month, day, hour, minute, second) = unix_field_values(secs);
    let mut out = String::new();
    push_signed_padded(&mut out, &year, 4);
    push_char(&mut out, '-');
    push_zero_padded(&mut out, month, 2);
    push_char(&mut out, '-');
    push_zero_padded(&mut out, day, 2);
    push_char(&mut out, ' ');
    push_signed_padded(&mut out, &hour, 2);
    push_char(&mut out, ':');
    push_signed_padded(&mut out, &minute, 2);
    push_char(&mut out, ':');
    push_signed_padded(&mut out, &second, 2);
    assert(out@ =~= unix_timestamp_text(secs as nat));
    out
}

/// `YYYY-MM-DD HH:MM` of a share entry's modification time, `"—"` when 0.
pub fn format_share_modified(timestamp: u64) -> (out: String)
    ensures
        out@ == share_modified_text(timestamp as nat),
{
    let mut out = String::new();
    if timestamp == 0 {
        push_char(&mut out, '—');
        assert(out@ =~= share_modified_text(timestamp as nat));
        return out;
    }
    let (year, month, day, hour, minute, _second) = unix_field_values(timestamp);
    push_signed_padded(&mut out, &year, 4);
    push_char(&mut out, '-');
    push_zero_padded(&mut out, month, 2);
    push_char(&mut out, '-');
    push_zero_padded(&mut out, day, 2);
    push_char(&mut out, ' ');
    push_signed_padded(&mut out, &hour, 2);
    push_char(&mut out, ':');
    push_signed_padded(&mut out, &minute, 2);
    assert(out@ =~= share_modified_text(timestamp as nat));
    out
}

/// What `local_timestamp` shows for a clock reading: `"—"` when the clock
/// is before the unix epoch, else [`unix_timestamp_text`].
pub open spec fn local_timestamp_text(now: Option<u64>) -> Seq<char> {
    match now {
        Some(secs) => unix_timestamp_text(secs as nat),
        None => seq!['—'],
    }
}

/// [`local_timestamp_text`] of a given clock reading.
pub fn local_timestamp_at(now: Option<u64>) -> (out: String)
    ensures
        out@ == local_timestamp_text(now),
{
    match now {
        Some(secs) => timestamp_from_unix(secs),
        None => {
            let mut out = String::new();
            push_char(&mut out, '—');
            assert(out@ =~= local_timestamp_text(now));
            out
        },
    }
}

/// The current time as `YYYY-MM-DD HH:MM:SS`, or `"—"` when the clock is
/// before the unix epoch.
pub fn local_timestamp() -> (out: String)
    ensures
        exists|now: Option<u64>| out@ == #[trigger] local_timestamp_text(now),
{
    let now = system_unix_secs();
    let out = local_timestamp_at(now);
    assert(out@ == local_timestamp_text(now));
    out
}

// ---------------------------------------------------------------------------
// Redeem history
// ---------------------------------------------------------------------------

/// Bytes that `c` takes in UTF-8.
pub open spec fn utf8_width(c: char) -> int {
    let u = c as u32;
    if u < 0x80 {
        1
    } else if u < 0x800 {
        2
    } else if u < 0x10000 {
        3
    } else {
        4
    }
}

/// Bytes that `s` takes in UTF-8 (`str::len`).
pub open spec fn utf8_len(s: Seq<char>) -> int
    decreases s.len(),
{
    if s.len() == 0 {
        0
    } else {
        utf8_width(s[0]) + utf8_len(s.drop_first())
    }
}

/// The longest prefix of `s` that fits in `n` bytes.
pub open spec fn byte_prefix(s: Seq<char>, n: int) -> Seq<char>
    decreases s.len(),
{
    if s.len() == 0 || utf8_width(s[0]) > n {
        seq![]
    } else {
        seq![s[0]] + byte_prefix(s.drop_first(), n - utf8_width(s[0]))
    }
}

/// `'T'` replaced by `' '`.
pub open spec fn t_to_space(s: Seq<char>) -> Seq<char> {
    s.map_values(|c: char| if c == 'T' { ' ' } else { c })
}

/// A present, non-blank redeem time: its trimmed text, with an ISO
/// `YYYY-MM-DDTHH:MM:SS...` cut to its first 19 bytes and `T` made a space.
pub open spec fn redeem_time_text(t: Seq<char>) -> Seq<char> {
    if utf8_len(t) >= 19 {
        t_to_space(byte_prefix(t, 19))
    } else {
        t
    }
}

/// The redeem-time text can be cut at byte 19: a long timestamp is shown
/// as its first 19 UTF-8 bytes, which must end between characters.
pub open spec fn redeem_time_cuttable(t: Seq<char>) -> bool {
    utf8_len(t) >= 19 ==> utf8_len(byte_prefix(t, 19)) == 19
}

/// The view of an optional string.
pub open spec fn opt_view(o: Option<&str>) -> Option<Seq<char>> {
    match o {
        Some(s) => Some(s@),
        None => None,
    }
}

/// Whether an optional redeem time is present after trimming.
pub open spec fn present(o: Option<Seq<char>>) -> bool {
    o is Some && trim(o->0).len() > 0
}

fn utf8_width_exec(c: char) -> (w: usize)
    ensures
        w as int == utf8_width(c),
{
    let u = c as u32;
    if u < 0x80 {
        1
    } else if u < 0x800 {
        2
    } else if u < 0x10000 {
        3
    } else {
        4
    }
}

proof fn lemma_utf8_len_skip(s: Seq<char>, i: int)
    requires
        0 <= i < s.len(),
    ensures
        utf8_len(s.skip(i)) == utf8_width(s[i]) + utf8_len(s.skip(i + 1)),
{
    assert(s.skip(i).drop_first() =~= s.skip(i + 1));
}

proof fn lemma_utf8_len_nonneg(s: Seq<char>)
    ensures
        utf8_len(s) >= 0,
    decreases s.len(),
{
    if s.len() > 0 {
        lemma_utf8_len_nonneg(s.drop_first());
    }
}

/// Byte length of a character sequence (`str::len` of its string).
pub fn utf8_len_exec(cs: &[char]) -> (n: u64)
    requires
        cs@.len() < 0x1000_0000,
    ensures
        n as int == utf8_len(cs@),
{
    let mut total: u64 = 0;
    let mut i = cs.len();
    assert(cs@.skip(i as int) =~= seq![]);
    while i > 0
        invariant
            i <= cs@.len() < 0x1000_0000,
            total as int == utf8_len(cs@.skip(i as int)),
            total <= 4 * (cs@.len() - i),
        decreases i,
    {
        proof {
            lemma_utf8_len_skip(cs@, i - 1);
        }
        total = total + utf8_width_exec(cs[i - 1]) as u64;
        i = i - 1;
    }
    assert(cs@.skip(0) =~= cs@);
    total
}

/// The first characters of `t` that fit in 19 bytes, `'T'` made a space.
fn cut_redeem_time(t: &[char]) -> (out: Vec<char>)
    ensures
        out@ == t_to_space(byte_prefix(t@, 19)),
{
    let mut out: Vec<char> = Vec::new();
    let mut rem: usize = 19;
    let mut i: usize = 0;
    assert(t@.skip(0) =~= t@);
    while i < t.len() && utf8_width_exec(t[i]) <= rem
        invariant
            i <= t@.len(),
            rem <= 19,
            t_to_space(byte_prefix(t@, 19)) == out@ + t_to_space(
                byte_prefix(t@.skip(i as int), rem as int),
            ),
        decreases t@.len() - i,
    {
        let c = t[i];
        let w = utf8_width_exec(c);
        proof {
            let rest = t@.skip(i as int);
            assert(rest[0] == c);
            assert(rest.drop_first() =~= t@.skip(i + 1));
            let tail = byte_prefix(t@.skip(i + 1), rem - w);
            assert(byte_prefix(rest, rem as int) == seq![c] + tail);
            assert(t_to_space(seq![c] + tail) =~= seq![if c == 'T' { ' ' } else { c }]
                + t_to_space(tail));
        }
        if c == 'T' {
            out.push(' ');
        } else {
            out.push(c);
        }
        rem = rem - w;
        i = i + 1;
        proof {
            assert(t_to_space(byte_prefix(t@, 19)) =~= out@ + t_to_space(
                byte_prefix(t@.skip(i as int), rem as int),
            ));
        }
    }
    proof {
        let rest = t@.skip(i as int);
        assert(byte_prefix(rest, rem as int) == Seq::<char>::empty());
        assert(t_to_space(Seq::<char>::empty()) =~= Seq::<char>::empty());
        assert(out@ + Seq::<char>::empty() =~= out@);
    }
    out
}

/// [`redeem_time_text`] of an already trimmed, non-empty redeem time.
fn redeem_time_of_trimmed(t: &[char]) -> (out: String)
    requires
        redeem_time_cuttable(t@),
    ensures
        out@ == redeem_time_text(t@),
{
    if t.len() >= 0x1000_0000 {
        // Longer than 19 bytes for certain: every character takes a byte.
        proof {
            lemma_utf8_len_at_least_len(t@);
        }
        let cut = cut_redeem_time(t);
        return string_of(cut.as_slice());
    }
    if utf8_len_exec(t) >= 19 {
        let cut = cut_redeem_time(t);
        string_of(cut.as_slice())
    } else {
        string_of(t)
    }
}

pub proof fn lemma_utf8_len_at_least_len(s: Seq<char>)
    ensures
        utf8_len(s) >= s.len(),
    decreases s.len(),
{
    if s.len() > 0 {
        lemma_utf8_len_at_least_len(s.drop_first());
    }
}

/// The redeem time shown for a present value, or the given fallback
/// clock reading formatted by [`local_timestamp_text`] otherwise.
pub open spec fn redeem_history_time_text(redeemed_at: Option<Seq<char>>, now: Option<u64>) -> Seq<
    char,
> {
    if present(redeemed_at) {
        redeem_time_text(trim(redeemed_at->0))
    } else {
        local_timestamp_text(now)
    }
}

/// The redeem times that can be shown: when present, the trimmed value can
/// be cut at byte 19 (see [`redeem_time_cuttable`]).
pub open spec fn redeem_time_ok(redeemed_at: Option<Seq<char>>) -> bool {
    present(redeemed_at) ==> redeem_time_cuttable(trim(redeemed_at->0))
}

/// Redeem time for display, with an explicit clock reading used when the
/// server gave none.
pub fn redeem_history_time_at(redeemed_at: Option<&str>, now: Option<u64>) -> (out: String)
    requires
        redeem_time_ok(opt_view(redeemed_at)),
    ensures
        out@ == redeem_history_time_text(opt_view(redeemed_at), now),
{
    if let Some(raw) = redeemed_at {
        let t = trim_str(raw);
        if t.len() > 0 {
            return redeem_time_of_trimmed(t.as_slice());
        }
    }
    local_timestamp_at(now)
}

/// Redeem time for display: the server's ISO time normalised to
/// `YYYY-MM-DD HH:MM:SS`, else the current local timestamp.
pub fn redeem_history_time(redeemed_at: Option<&str>) -> (out: String)
    requires
        redeem_time_ok(opt_view(redeemed_at)),
    ensures
        present(opt_view(redeemed_at)) ==> out@ == redeem_time_text(trim(redeemed_at->0@)),
        exists|now: Option<u64>|
            out@ == #[trigger] redeem_history_time_text(opt_view(redeemed_at), now),
{
    if let Some(raw) = redeemed_at {
        let t = trim_str(raw);
        if t.len() > 0 {
            let out = redeem_time_of_trimmed(t.as_slice());
            assert(out@ == redeem_history_time_text(opt_view(redeemed_at), None));
            return out;
        }
    }
    let now = system_unix_secs();
    let out = local_timestamp_at(now);
    assert(out@ == redeem_history_time_text(opt_view(redeemed_at), now));
    out
}

/// Ledger row time: the redeem time from metadata when present, else the
/// entry's creation time.
pub open spec fn ledger_entry_time_text(created_at: u64, redeemed_at: Option<Seq<char>>) -> Seq<
    char,
> {
    if present(redeemed_at) {
        redeem_time_text(trim(redeemed_at->0))
    } else {
        unix_timestamp_text(created_at as nat)
    }
}

/// Time shown for a ledger entry.
pub fn ledger_entry_time(created_at: u64, redeemed_at: Option<&str>) -> (out: String)
    requires
        redeem_time_ok(opt_view(redeemed_at)),
    ensures
        out@ == ledger_entry_time_text(created_at, opt_view(redeemed_at)),
{
    if let Some(raw) = redeemed_at {
        let t = trim_str(raw);
        if t.len() > 0 {
            return redeem_time_of_trimmed(t.as_slice());
        }
    }
    timestamp_from_unix(created_at)
}


/// The first metadata field named `key`: `Some(value)` when there is one.
pub open spec fn metadata_lookup(md: Seq<(String, Option<String>)>, key: Seq<char>) -> Option<
    Option<String>,
>
    decreases md.len(),
{
    if md.len() == 0 {
        None
    } else if md[0].0@ == key {
        Some(md[0].1)
    } else {
        metadata_lookup(md.drop_first(), key)
    }
}

/// The trimmed string value of metadata field `key`, when it is a non-blank string.
pub open spec fn metadata_string_spec(md: Seq<(String, Option<String>)>, key: Seq<char>) -> Option<
    Seq<char>,
> {
    match metadata_lookup(md, key) {
        Some(Some(v)) => if trim(v@).len() > 0 {
            Some(trim(v@))
        } else {
            None
        },
        _ => None,
    }
}

/// The trimmed string value of metadata field `key`, when it is a non-blank string.
pub fn metadata_string(metadata: &[(String, Option<String>)], key: &str) -> (out: Option<String>)
    ensures
        match out {
            Some(s) => metadata_string_spec(metadata@, key@) == Some(s@),
            None => metadata_string_spec(metadata@, key@) is None,
        },
{
    let mut i: usize = 0;
    assert(metadata@.skip(0) =~= metadata@);
    while i < metadata.len()
        invariant
            i <= metadata@.len(),
            metadata_lookup(metadata@, key@) == metadata_lookup(metadata@.skip(i as int), key@),
        decreases metadata@.len() - i,
    {
        let ghost rest = metadata@.skip(i as int);
        assert(rest[0] == metadata@[i as int]);
        if str_eq(metadata[i].0.as_str(), key) {
            match &metadata[i].1 {
                Some(v) => {
                    let t = trim_str(v.as_str());
                    if t.len() > 0 {
                        return Some(string_of(t.as_slice()));
                    }
                    return None;
                },
                None => {
                    return None;
                },
            }
        }
        assert(rest.drop_first() =~= metadata@.skip(i + 1));
        i = i + 1;
    }
    None
}

/// The code the user typed for card key `id`, if any.
pub open spec fn override_lookup(ov: Map<Seq<char>, String>, id: Seq<char>) -> Option<Seq<char>> {
    if ov.contains_key(id) {
        Some(ov[id]@)
    } else {
        None
    }
}

/// The `card_key:` prefix of ledger reference ids.
pub open spec fn card_key_prefix() -> Seq<char> {
    seq!['c', 'a', 'r', 'd', '_', 'k', 'e', 'y', ':']
}

/// Code label of a ledger entry: the card key id when known, else the
/// reference id without its `card_key:` prefix (kept whole when nothing
/// would remain).
pub open spec fn code_label_text(reference_id: Seq<char>, card_key_id: Option<Seq<char>>) -> Seq<
    char,
> {
    match card_key_id {
        Some(id) if id.len() > 0 => id,
        _ => if starts_with(reference_id, card_key_prefix()) && reference_id.len()
            > card_key_prefix().len() {
            reference_id.skip(card_key_prefix().len() as int)
        } else {
            reference_id
        },
    }
}

/// Code label of a ledger entry (see [`code_label_text`]).
pub fn ledger_entry_code_label(entry: &LedgerEntry, card_key_id: Option<&str>) -> (out: String)
    ensures
        out@ == code_label_text(entry.reference_id@, opt_view(card_key_id)),
{
    if let Some(id) = card_key_id {
        let cs = chars_of(id);
        if cs.len() > 0 {
            return string_of(cs.as_slice());
        }
    }
    let r = chars_of(entry.reference_id.as_str());
    let prefix = vec!['c', 'a', 'r', 'd', '_', 'k', 'e', 'y', ':'];
    assert(prefix@ =~= card_key_prefix());
    if chars_starts_with(r.as_slice(), prefix.as_slice()) && r.len() > 9 {
        let mut out: Vec<char> = Vec::new();
        let mut i: usize = 9;
        while i < r.len()
            invariant
                9 <= i <= r@.len(),
                out@ == r@.subrange(9, i as int),
            decreases r@.len() - i,
        {
            out.push(r[i]);
            i = i + 1;
            assert(out@ =~= r@.subrange(9, i as int));
        }
        assert(r@.subrange(9, r@.len() as int) =~= r@.skip(9));
        return string_of(out.as_slice());
    }
    string_of(r.as_slice())
}

/// The metadata key of the card key id.
pub open spec fn card_key_id_key() -> Seq<char> {
    "cardKeyId"@
}

/// The metadata key of the redeem time.
pub open spec fn redeemed_at_key() -> Seq<char> {
    "redeemedAt"@
}

/// The ledger source of card-key redemptions.
pub open spec fn card_key_redeem_source() -> Seq<char> {
    "card_key_redeem"@
}

/// A ledger entry is a redemption: source `card_key_redeem` and a positive amount.
pub open spec fn is_redeem_entry(e: LedgerEntry) -> bool {
    e.source@ == card_key_redeem_source() && e.delta_credits > 0
}

/// The history row of a redemption entry as `(time, code, amount)`.
pub open spec fn redeem_row(e: LedgerEntry, ov: Map<Seq<char>, String>) -> (Seq<char>, Seq<char>, i64) {
    let card = metadata_string_spec(e.metadata@, card_key_id_key());
    let code = match card {
        Some(id) => match override_lookup(ov, id) {
            Some(c) => c,
            None => code_label_text(e.reference_id@, card),
        },
        None => code_label_text(e.reference_id@, card),
    };
    let time = ledger_entry_time_text(
        e.created_at,
        metadata_string_spec(e.metadata@, redeemed_at_key()),
    );
    (time, code, e.delta_credits)
}

/// Rows of the redemption entries, in ledger order.
pub open spec fn redeem_rows(es: Seq<LedgerEntry>, ov: Map<Seq<char>, String>) -> Seq<
    (Seq<char>, Seq<char>, i64),
>
    decreases es.len(),
{
    if es.len() == 0 {
        seq![]
    } else {
        let prev = redeem_rows(es.drop_last(), ov);
        if is_redeem_entry(es.last()) {
            prev.push(redeem_row(es.last(), ov))
        } else {
            prev
        }
    }
}

/// The view of a history row as `(time, code, amount)`.
pub open spec fn entry_view(e: RedeemHistoryEntry) -> (Seq<char>, Seq<char>, i64) {
    (e.time@, e.code@, e.amount_credits)
}

/// Every redemption entry's redeem time can be displayed (see [`redeem_time_ok`]).
pub open spec fn ledger_times_ok(es: Seq<LedgerEntry>) -> bool {
    forall|i: int|
        0 <= i < es.len() && is_redeem_entry(#[trigger] es[i]) ==> redeem_time_ok(
            metadata_string_spec(es[i].metadata@, redeemed_at_key()),
        )
}

/// Redeem history rows of the card-key redemptions in a credit ledger.
pub fn redeem_history_from_ledger(entries: &[LedgerEntry], code_overrides: &AssetMap<String>) -> (out:
    Vec<RedeemHistoryEntry>)
    requires
        ledger_times_ok(entries@),
        code_overrides.wf(),
    ensures
        out@.map_values(|e: RedeemHistoryEntry| entry_view(e)) == redeem_rows(
            entries@,
            code_overrides.view_map(),
        ),
{
    let mut out: Vec<RedeemHistoryEntry> = Vec::new();
    let mut i: usize = 0;
    while i < entries.len()
        invariant
            i <= entries@.len(),
            ledger_times_ok(entries@),
            code_overrides.wf(),
            out@.map_values(|e: RedeemHistoryEntry| entry_view(e)) == redeem_rows(
                entries@.take(i as int),
                code_overrides.view_map(),
            ),
        decreases entries@.len() - i,
    {
        let entry = &entries[i];
        proof {
            assert(entries@.take(i + 1).drop_last() =~= entries@.take(i as int));
            assert(entries@.take(i + 1).last() == entries@[i as int]);
        }
        let is_redeem = str_eq(entry.source.as_str(), "card_key_redeem") && entry.delta_credits > 0;
        if is_redeem {
            let card = metadata_string(entry.metadata.as_slice(), "cardKeyId");
            let code = match &card {
                Some(id) => match code_overrides.get(id.as_str()) {
                    Some(c) => owned(c.as_str()),
                    None => ledger_entry_code_label(entry, Some(id.as_str())),
                },
                None => ledger_entry_code_label(entry, None),
            };
            let redeemed = metadata_string(entry.metadata.as_slice(), "redeemedAt");
            proof {
                assert(is_redeem_entry(entries@[i as int]));
            }
            let time = match &redeemed {
                Some(r) => ledger_entry_time(entry.created_at, Some(r.as_str())),
                None => ledger_entry_time(entry.created_at, None),
            };
            let row = RedeemHistoryEntry { time, code, amount_credits: entry.delta_credits };
            let ghost before = out@;
            out.push(row);
            proof {
                assert(entry_view(row) == redeem_row(entries@[i as int], code_overrides.view_map()));
                assert(out@.map_values(|e: RedeemHistoryEntry| entry_view(e)) =~= before.map_values(
                    |e: RedeemHistoryEntry| entry_view(e),
                ).push(entry_view(row)));
            }
        }
        i = i + 1;
    }
    assert(entries@.take(entries@.len() as int) =~= entries@);
    out
}

} // verus!

//! What the formatting and filtering rules mean, read back from their
//! output: money and time texts, share paths, month lengths and the
//! sidebar's category filter.

use vstd::prelude::*;
use crate::calendar::{days_in_month_spec, leap_year, month_offset, weekday_from_monday};
use crate::prefs::{account_balance_text, group_digits_spec, int_pad, trim_end_zeros, unix_fields, unix_timestamp_text, yuan_text};
use crate::share_nav::path_text;
use crate::sidebar::{row_visible_spec, SearchCategory, SidebarRowKind};
use crate::text::{decimal, digit_char, zero_pad};

verus! {

/// A category of rows (terminals, groups, contacts) lists rows of its own
/// kind only; within that kind it lists what the unfiltered search lists,
/// and the media categories let every kind through alike.
pub proof fn law_row_category_filters_by_kind(
    kind: SidebarRowKind,
    other: SidebarRowKind,
    query: Seq<char>,
    title: Seq<char>,
    preview: Seq<char>,
)
    ensures
        row_visible_spec(Some(SearchCategory::Terminal), kind, query, title, preview) ==> kind
            == SidebarRowKind::Terminal,
        row_visible_spec(Some(SearchCategory::Group), kind, query, title, preview) ==> kind
            == SidebarRowKind::Group,
        row_visible_spec(Some(SearchCategory::Contact), kind, query, title, preview) ==> kind
            == SidebarRowKind::Contact,
        row_visible_spec(Some(SearchCategory::Terminal), SidebarRowKind::Terminal, query, title, preview)
            == row_visible_spec(None, SidebarRowKind::Terminal, query, title, preview),
        row_visible_spec(Some(SearchCategory::Group), SidebarRowKind::Group, query, title, preview)
            == row_visible_spec(None, SidebarRowKind::Group, query, title, preview),
        row_visible_spec(Some(SearchCategory::Contact), SidebarRowKind::Contact, query, title, preview)
            == row_visible_spec(None, SidebarRowKind::Contact, query, title, preview),
        row_visible_spec(None, kind, query, title, preview) == row_visible_spec(None, other, query, title, preview),
        row_visible_spec(Some(SearchCategory::Image), kind, query, title, preview) == row_visible_spec(
            None,
            other,
            query,
            title,
            preview,
        ),
{
}

/// The month after `(year, month)`.
pub open spec fn following_month(year: int, month: int) -> (int, int) {
    if month == 12 {
        (year + 1, 1)
    } else {
        (year, month + 1)
    }
}

/// Month lengths agree with the weekdays: the day after a month's last day
/// falls on the weekday of the next month's first day, so no month has a
/// day too many or too few. A month has 28 to 31 days and a year 365 days,
/// 366 in a leap year.
#[verifier::spinoff_prover]
#[verifier::rlimit(40)]
pub proof fn law_month_lengths_follow_the_week(year: int, month: int)
    requires
        1 <= month <= 12,
    ensures
        weekday_from_monday(year, month, days_in_month_spec(year, month) + 1) == weekday_from_monday(
            following_month(year, month).0,
            following_month(year, month).1,
            1,
        ),
        28 <= days_in_month_spec(year, month) <= 31,
        days_in_month_spec(year, 1) + days_in_month_spec(year, 2) + days_in_month_spec(year, 3)
            + days_in_month_spec(year, 4) + days_in_month_spec(year, 5) + days_in_month_spec(year, 6)
            + days_in_month_spec(year, 7) + days_in_month_spec(year, 8) + days_in_month_spec(year, 9)
            + days_in_month_spec(year, 10) + days_in_month_spec(year, 11) + days_in_month_spec(year, 12)
            == if leap_year(year) { 366int } else { 365int },
{
    let yl = if month < 3 { year - 1 } else { year };
    let a = yl + yl / 4 - yl / 100 + yl / 400;
    let d = days_in_month_spec(year, month);
    let (ny, nm) = following_month(year, month);
    let nyl = if nm < 3 { ny - 1 } else { ny };
    let b = nyl + nyl / 4 - nyl / 100 + nyl / 400;
    assert(weekday_from_monday(year, month, d + 1) == (a + month_offset(month) + d + 7) % 7);
    assert(weekday_from_monday(ny, nm, 1) == (b + month_offset(nm) + 7) % 7);
    if month == 2 {
        assert(yl == year - 1 && nyl == year);
        lemma_year_base_step(year);
        assert(b == a + 1 + (if leap_year(year) { 1int } else { 0int }));
        lemma_same_mod7(a + month_offset(month) + d + 7, b + month_offset(nm) + 7);
    } else {
        assert(nyl == yl);
        lemma_same_mod7(a + month_offset(month) + d + 7, b + month_offset(nm) + 7);
    }
}

proof fn lemma_same_mod7(x: int, y: int)
    requires
        (x - y) % 7 == 0,
    ensures
        x % 7 == y % 7,
{
}

#[verifier::spinoff_prover]
proof fn lemma_year_base_step(year: int)
    ensures
        (year + year / 4 - year / 100 + year / 400) - ((year - 1) + (year - 1) / 4 - (year - 1) / 100
            + (year - 1) / 400) == 1 + (if leap_year(year) { 1int } else { 0int }),
{
    let y = year - 1;
    assert(year / 4 - y / 4 == (if year % 4 == 0 { 1int } else { 0int }));
    assert(year / 100 - y / 100 == (if year % 100 == 0 { 1int } else { 0int }));
    assert(year / 400 - y / 400 == (if year % 400 == 0 { 1int } else { 0int }));
    if year % 400 == 0 {
        assert(year % 100 == 0 && year % 4 == 0);
    } else if year % 100 == 0 {
        assert(year % 4 == 0);
    }
}


/// `t` cut at every `'/'`: the pieces between slashes, in order (the text
/// before the first slash comes first, empty when `t` starts with one).
pub open spec fn split_at_slashes(t: Seq<char>) -> Seq<Seq<char>>
    decreases t.len(),
{
    if t.len() == 0 {
        seq![Seq::<char>::empty()]
    } else {
        let s = split_at_slashes(t.drop_last());
        if t.last() == '/' {
            s.push(Seq::<char>::empty())
        } else {
            s.update(s.len() - 1, s.last().push(t.last()))
        }
    }
}

proof fn lemma_split_nonempty(t: Seq<char>)
    ensures
        split_at_slashes(t).len() >= 1,
    decreases t.len(),
{
    if t.len() > 0 {
        lemma_split_nonempty(t.drop_last());
    }
}

proof fn lemma_split_append_piece(x: Seq<char>, seg: Seq<char>)
    requires
        !seg.contains('/'),
    ensures
        split_at_slashes(x + seg) == split_at_slashes(x).update(
            split_at_slashes(x).len() - 1,
            split_at_slashes(x).last() + seg,
        ),
    decreases seg.len(),
{
    lemma_split_nonempty(x);
    let s = split_at_slashes(x);
    if seg.len() == 0 {
        assert(x + seg =~= x);
        assert(s.last() + seg =~= s.last());
        assert(s.update(s.len() - 1, s.last() + seg) =~= s);
    } else {
        let t = seg.drop_last();
        let c = seg.last();
        assert(!t.contains('/')) by {
            if t.contains('/') {
                let k = choose|k: int| 0 <= k < t.len() && t[k] == '/';
                assert(seg[k] == '/');
            }
        }
        assert(c != '/') by {
            assert(seg[seg.len() - 1] == c);
        }
        lemma_split_append_piece(x, t);
        assert((x + seg).drop_last() =~= x + t);
        assert((x + seg).last() == c);
        let st = split_at_slashes(x + t);
        assert(st.len() == s.len());
        assert(st.last() == s.last() + t);
        assert(st.update(st.len() - 1, st.last().push(c)) =~= s.update(s.len() - 1, s.last() + seg)) by {
            assert((s.last() + t).push(c) =~= s.last() + seg);
        }
    }
}

/// The share path text reads back as its segments: it is `"/"` for the
/// share root, and otherwise cutting it at every `'/'` gives an empty piece
/// (the leading slash) followed by the segments in order, when no segment
/// holds a `'/'`.
#[verifier::spinoff_prover]
#[verifier::rlimit(40)]
pub proof fn law_share_path_text_splits_into_segments(path: Seq<Seq<char>>)
    requires
        forall|i: int| 0 <= i < path.len() ==> !(#[trigger] path[i]).contains('/'),
    ensures
        path.len() == 0 ==> path_text(path) == seq!['/'],
        path.len() > 0 ==> split_at_slashes(path_text(path)) == seq![Seq::<char>::empty()] + path,
    decreases path.len(),
{
    if path.len() == 1 {
        let slash = seq!['/'];
        assert(slash.drop_last() =~= Seq::<char>::empty());
        assert(slash.len() == 1 && slash.last() == '/');
        assert(split_at_slashes(slash.drop_last()) =~= seq![Seq::<char>::empty()]);
        assert(split_at_slashes(slash) =~= seq![Seq::<char>::empty(), Seq::<char>::empty()]);
        lemma_split_append_piece(slash, path[0]);
        assert(Seq::<char>::empty() + path[0] =~= path[0]);
        assert(split_at_slashes(slash + path[0]) =~= seq![Seq::<char>::empty()] + path);
    } else if path.len() > 1 {
        let dl = path.drop_last();
        assert forall|i: int| 0 <= i < dl.len() implies !(#[trigger] dl[i]).contains('/') by {
            assert(dl[i] == path[i]);
        }
        law_share_path_text_splits_into_segments(dl);
        let x = path_text(dl) + seq!['/'];
        assert(x.drop_last() =~= path_text(dl));
        assert(split_at_slashes(x) == split_at_slashes(path_text(dl)).push(Seq::<char>::empty()));
        assert(!path.last().contains('/')) by {
            assert(path[path.len() - 1] == path.last());
        }
        lemma_split_append_piece(x, path.last());
        assert(path_text(path) == x + path.last());
        assert(Seq::<char>::empty() + path.last() =~= path.last());
        assert(split_at_slashes(path_text(path)) =~= seq![Seq::<char>::empty()] + path);
    }
}


/// `v` moved into `lo..=hi`.
pub open spec fn clamp_to(v: int, lo: int, hi: int) -> int {
    if v < lo {
        lo
    } else if v > hi {
        hi
    } else {
        v
    }
}

/// The value of a decimal digit character.
pub open spec fn digit_value(c: char) -> int {
    c as int - '0' as int
}

/// `c` is one of `'0'` to `'9'`.
pub open spec fn is_digit(c: char) -> bool {
    '0' <= c && c <= '9'
}

/// The number written by the two digits of `t` at `at` and `at + 1`.
pub open spec fn two_digit_field(t: Seq<char>, at: int) -> int {
    digit_value(t[at]) * 10 + digit_value(t[at + 1])
}

/// `t` holds two digits at `at` and `at + 1`.
pub open spec fn two_digits_at(t: Seq<char>, at: int) -> bool {
    is_digit(t[at]) && is_digit(t[at + 1])
}

proof fn lemma_digit_char(d: nat)
    requires
        d < 10,
    ensures
        is_digit(digit_char(d)),
        digit_value(digit_char(d)) == d,
{
    assert(('0' as u32) == 48);
}

proof fn lemma_two_digit_pad(v: int)
    requires
        0 <= v < 100,
    ensures
        int_pad(v, 2) == seq![digit_char((v / 10) as nat), digit_char((v % 10) as nat)],
{
    lemma_digit_char((v / 10) as nat);
    lemma_digit_char((v % 10) as nat);
    if v < 10 {
        assert(decimal(v as nat) == seq![digit_char(v as nat)]);
        assert(zero_pad(decimal(v as nat), 2) =~= seq![digit_char(0), digit_char(v as nat)]) by {
            assert(digit_char(0) == '0');
        }
    } else {
        let q = (v / 10) as nat;
        assert(decimal(q) == seq![digit_char(q)]);
        assert(decimal(v as nat) == decimal(q).push(digit_char((v % 10) as nat)));
        assert(decimal(v as nat) =~= seq![digit_char(q), digit_char((v % 10) as nat)]);
    }
}

/// A timestamp ends in `MM-DD HH:MM:SS` read from the clock: the last two
/// digits are the seconds of the minute, the two before the colon the
/// minutes of the hour, then the hours of the day (all zero-padded to two
/// digits), and before them a day of 1 to 28 and a month of 1 to 12.
#[verifier::spinoff_prover]
#[verifier::rlimit(40)]
pub proof fn law_timestamp_reads_back_the_time(secs: nat)
    requires
        secs <= i64::MAX,
    ensures
        ({
            let t = unix_timestamp_text(secs);
            let n = t.len() as int;
            &&& n >= 19
            &&& all_digits(t.subrange(0, n - 15))
            &&& digits_value(t.subrange(0, n - 15)) == 1970 + (secs / 86_400) / 365
            &&& t[n - 15] == '-' && t[n - 12] == '-' && t[n - 9] == ' ' && t[n - 6] == ':' && t[n - 3] == ':'
            &&& two_digits_at(t, n - 2) && two_digit_field(t, n - 2) == secs % 60
            &&& two_digits_at(t, n - 5) && two_digit_field(t, n - 5) == (secs / 60) % 60
            &&& two_digits_at(t, n - 8) && two_digit_field(t, n - 8) == (secs / 3600) % 24
            &&& two_digits_at(t, n - 11) && 1 <= two_digit_field(t, n - 11) <= 28
            &&& two_digits_at(t, n - 14) && 1 <= two_digit_field(t, n - 14) <= 12
            &&& two_digit_field(t, n - 11) == clamp_to(((secs / 86_400) % 365 % 30) as int, 1, 28)
            &&& two_digit_field(t, n - 14) == clamp_to(((secs / 86_400) % 365 / 30) as int, 1, 12)
        }),
{
    let f = unix_fields(secs);
    assert(f.3 == (secs / 3600) % 24);
    assert(f.4 == (secs / 60) % 60);
    assert(f.5 == secs % 60);
    assert(1 <= f.1 <= 12 && 1 <= f.2 <= 28);
    assert(f.0 >= 1970);
    lemma_two_digit_pad(f.1);
    lemma_two_digit_pad(f.2);
    lemma_two_digit_pad(f.3);
    lemma_two_digit_pad(f.4);
    lemma_two_digit_pad(f.5);
    let y = int_pad(f.0, 4);
    assert(y.len() >= 4);
    let mo = int_pad(f.1, 2);
    let d = int_pad(f.2, 2);
    let h = int_pad(f.3, 2);
    let mi = int_pad(f.4, 2);
    let se = int_pad(f.5, 2);
    let tail = seq!['-', mo[0], mo[1], '-', d[0], d[1], ' ', h[0], h[1], ':', mi[0], mi[1], ':', se[0], se[1]];
    let t = unix_timestamp_text(secs);
    assert(t =~= y + tail);
    let n = t.len() as int;
    assert forall|k: int| 0 <= k < 15 implies t[n - 15 + k] == tail[k] by {}
    assert(t.subrange(0, n - 15) =~= y);
    assert(f.0 == 1970 + (secs / 86_400) / 365);
    lemma_decimal_digits(f.0 as nat);
    lemma_zero_pad_value(decimal(f.0 as nat), 4);
}

proof fn lemma_zero_pad_value(s: Seq<char>, w: nat)
    requires
        all_digits(s),
    ensures
        all_digits(zero_pad(s, w)),
        digits_value(zero_pad(s, w)) == digits_value(s),
{
    if s.len() < w {
        let zeros = Seq::new((w - s.len()) as nat, |_i: int| '0');
        let z = zero_pad(s, w);
        assert(z == zeros + s);
        lemma_value_zeros(zeros);
        lemma_value_concat(zeros, s);
        assert forall|i: int| 0 <= i < z.len() implies is_digit(#[trigger] z[i]) by {
            if i >= zeros.len() {
                assert(z[i] == s[i - zeros.len()]);
            }
        }
    }
}


/// `10` to the power `n`.
pub open spec fn pow10(n: nat) -> int
    decreases n,
{
    if n == 0 {
        1
    } else {
        10 * pow10((n - 1) as nat)
    }
}

/// The number a run of decimal digits writes.
pub open spec fn digits_value(s: Seq<char>) -> int
    decreases s.len(),
{
    if s.len() == 0 {
        0
    } else {
        digits_value(s.drop_last()) * 10 + digit_value(s.last())
    }
}

/// Every character of `s` is a decimal digit.
pub open spec fn all_digits(s: Seq<char>) -> bool {
    forall|i: int| 0 <= i < s.len() ==> is_digit(#[trigger] s[i])
}

proof fn lemma_pow10_positive(n: nat)
    ensures
        pow10(n) >= 1,
    decreases n,
{
    if n > 0 {
        lemma_pow10_positive((n - 1) as nat);
    }
}

proof fn lemma_value_concat(a: Seq<char>, b: Seq<char>)
    ensures
        digits_value(a + b) == digits_value(a) * pow10(b.len()) + digits_value(b),
    decreases b.len(),
{
    if b.len() == 0 {
        assert(a + b =~= a);
    } else {
        let b1 = b.drop_last();
        lemma_value_concat(a, b1);
        assert((a + b).drop_last() =~= a + b1);
        assert((a + b).last() == b.last());
        let va = digits_value(a);
        let p = pow10(b1.len());
        assert(pow10(b.len()) == 10 * p);
        assert((va * p + digits_value(b1)) * 10 + digit_value(b.last()) == va * (10 * p) + (digits_value(b1) * 10
            + digit_value(b.last()))) by (nonlinear_arith);
    }
}

proof fn lemma_value_zeros(z: Seq<char>)
    requires
        forall|j: int| 0 <= j < z.len() ==> z[j] == '0',
    ensures
        digits_value(z) == 0,
    decreases z.len(),
{
    if z.len() > 0 {
        lemma_value_zeros(z.drop_last());
    }
}

proof fn lemma_decimal_digits(n: nat)
    ensures
        all_digits(decimal(n)),
        digits_value(decimal(n)) == n,
        decimal(n).len() >= 1,
        n < 1_000_000 ==> decimal(n).len() <= 6,
    decreases n,
{
    let d = decimal(n);
    if n < 10 {
        lemma_digit_char(n);
        assert(d == seq![digit_char(n)]);
        assert(d.drop_last() =~= Seq::<char>::empty());
        assert(d.last() == digit_char(n));
        assert(digits_value(d) == digits_value(d.drop_last()) * 10 + digit_value(d.last()));
    } else {
        lemma_decimal_digits(n / 10);
        lemma_digit_char(n % 10);
        assert(d.drop_last() == decimal(n / 10));
        assert(d.last() == digit_char(n % 10));
        assert(n == (n / 10) * 10 + n % 10);
        assert(digits_value(d) == digits_value(d.drop_last()) * 10 + digit_value(d.last()));
        assert forall|i: int| 0 <= i < d.len() implies is_digit(#[trigger] d[i]) by {
            if i < d.len() - 1 {
                assert(d[i] == decimal(n / 10)[i]);
            }
        }
    }
    if n < 1_000_000 {
        reveal_with_fuel(pow10, 7);
        lemma_decimal_len_bound(n, 6);
    }
}

proof fn lemma_decimal_len_bound(n: nat, k: nat)
    requires
        k >= 1,
        n < pow10(k),
    ensures
        decimal(n).len() <= k,
    decreases n,
{
    reveal_with_fuel(pow10, 2);
    if n >= 10 {
        assert(k >= 2) by {
            if k == 1 {
                assert(pow10(1) == 10);
            }
        }
        assert(pow10(k) == 10 * pow10((k - 1) as nat));
        lemma_decimal_len_bound(n / 10, (k - 1) as nat);
    }
}

proof fn lemma_trim_end_zeros(s: Seq<char>)
    ensures
        trim_end_zeros(s).len() <= s.len(),
        trim_end_zeros(s) == s.subrange(0, trim_end_zeros(s).len() as int),
        forall|j: int| trim_end_zeros(s).len() <= j < s.len() ==> s[j] == '0',
        trim_end_zeros(s).len() > 0 ==> trim_end_zeros(s).last() != '0',
    decreases s.len(),
{
    if s.len() > 0 && s.last() == '0' {
        lemma_trim_end_zeros(s.drop_last());
        let r = trim_end_zeros(s);
        assert(r == trim_end_zeros(s.drop_last()));
        assert(s.drop_last().subrange(0, r.len() as int) =~= s.subrange(0, r.len() as int));
        assert forall|j: int| r.len() <= j < s.len() implies s[j] == '0' by {
            if j < s.len() - 1 {
                assert(s[j] == s.drop_last()[j]);
            }
        }
    } else {
        assert(s.subrange(0, s.len() as int) =~= s);
    }
}

/// The fraction of a yuan amount reads back as the micro amount: after the
/// whole part and a `'.'` come two to six digits that, scaled to six places,
/// write `micro % 1_000_000` exactly, with no trailing zero beyond the first
/// two digits. So `1_050_000` micro reads `1.05`, never `1.50`.
#[verifier::spinoff_prover]
#[verifier::rlimit(40)]
pub proof fn law_yuan_fraction_reads_back(micro: int)
    ensures
        ({
            let a = if micro < 0 { -micro } else { micro };
            let g = group_digits_spec(decimal((a / 1_000_000) as nat));
            let t = yuan_text(micro);
            let d = t.subrange(g.len() as int + 1, t.len() as int);
            &&& t.len() > g.len()
            &&& t.subrange(0, g.len() as int) == g
            &&& digits_value(without_commas(t.subrange(0, g.len() as int))) == a / 1_000_000
            &&& t[g.len() as int] == '.'
            &&& 2 <= d.len() <= 6
            &&& all_digits(d)
            &&& digits_value(d) * pow10((6 - d.len()) as nat) == a % 1_000_000
            &&& d.len() > 2 ==> d.last() != '0'
        }),
{
    reveal_with_fuel(pow10, 7);
    let a = if micro < 0 { -micro } else { micro };
    let f = a % 1_000_000;
    let g = group_digits_spec(decimal((a / 1_000_000) as nat));
    let t = yuan_text(micro);
    let d: Seq<char>;
    if f == 0 {
        d = seq!['0', '0'];
        assert(t =~= g + seq!['.'] + d);
        assert(digits_value(d) == 0) by {
            lemma_value_zeros(d);
        }
        assert forall|i: int| 0 <= i < d.len() implies is_digit(#[trigger] d[i]) by {}
    } else {
        lemma_decimal_digits(f as nat);
        let dec = decimal(f as nat);
        let z = zero_pad(dec, 6);
        let zeros = Seq::new((6 - dec.len()) as nat, |_i: int| '0');
        if dec.len() < 6 {
            assert(z == zeros + dec);
            lemma_value_zeros(zeros);
            lemma_value_concat(zeros, dec);
            assert forall|i: int| 0 <= i < z.len() implies is_digit(#[trigger] z[i]) by {
                if i >= zeros.len() {
                    assert(z[i] == dec[i - zeros.len()]);
                }
            }
        }
        assert(z.len() == 6 && digits_value(z) == f && all_digits(z));
        lemma_trim_end_zeros(z);
        let r = trim_end_zeros(z);
        let rest = z.subrange(r.len() as int, 6);
        assert(z =~= r + rest);
        lemma_value_zeros(rest);
        lemma_value_concat(r, rest);
        assert(digits_value(z) == digits_value(r) * pow10(rest.len()));
        assert(r.len() > 0) by {
            if r.len() == 0 {
                assert(digits_value(r) == 0);
            }
        }
        assert forall|i: int| 0 <= i < r.len() implies is_digit(#[trigger] r[i]) by {
            assert(r[i] == z[i]);
        }
        if r.len() == 1 {
            d = r + seq!['0'];
            assert(t =~= g + seq!['.'] + d);
            lemma_value_concat(r, seq!['0']);
            assert(digits_value(seq!['0']) == 0) by {
                lemma_value_zeros(seq!['0']);
            }
            assert(digits_value(d) == digits_value(r) * 10);
            assert(rest.len() == 5);
            assert(digits_value(d) * pow10(4) == digits_value(r) * pow10(5)) by (nonlinear_arith)
                requires
                    digits_value(d) == digits_value(r) * 10,
                    pow10(4) == 10000,
                    pow10(5) == 100000,
            ;
            assert forall|i: int| 0 <= i < d.len() implies is_digit(#[trigger] d[i]) by {
                if i == 0 {
                    assert(d[0] == r[0]);
                }
            }
        } else {
            d = r;
            assert(t =~= g + seq!['.'] + d);
        }
    }
    assert(t.subrange(0, g.len() as int) =~= g);
    assert(t.subrange(g.len() as int + 1, t.len() as int) =~= d);
    let w = (a / 1_000_000) as nat;
    lemma_decimal_digits(w);
    assert(!decimal(w).contains(',')) by {
        if decimal(w).contains(',') {
            let k = choose|k: int| 0 <= k < decimal(w).len() && decimal(w)[k] == ',';
            assert(is_digit(decimal(w)[k]));
        }
    }
    law_grouping_inserts_separators_every_three(decimal(w));
}


/// `s` without its `','` characters.
pub open spec fn without_commas(s: Seq<char>) -> Seq<char>
    decreases s.len(),
{
    if s.len() == 0 {
        s
    } else if s.last() == ',' {
        without_commas(s.drop_last())
    } else {
        without_commas(s.drop_last()).push(s.last())
    }
}

proof fn lemma_without_commas_concat(a: Seq<char>, b: Seq<char>)
    ensures
        without_commas(a + b) == without_commas(a) + without_commas(b),
    decreases b.len(),
{
    if b.len() == 0 {
        assert(a + b =~= a);
        assert(without_commas(a) + without_commas(b) =~= without_commas(a));
    } else {
        lemma_without_commas_concat(a, b.drop_last());
        assert((a + b).drop_last() =~= a + b.drop_last());
        assert((a + b).last() == b.last());
        if b.last() != ',' {
            assert(without_commas(a) + without_commas(b.drop_last()).push(b.last()) =~= (without_commas(a)
                + without_commas(b.drop_last())).push(b.last()));
        }
    }
}

proof fn lemma_without_commas_plain(s: Seq<char>)
    requires
        !s.contains(','),
    ensures
        without_commas(s) == s,
    decreases s.len(),
{
    if s.len() > 0 {
        assert(!s.drop_last().contains(',')) by {
            if s.drop_last().contains(',') {
                let k = choose|k: int| 0 <= k < s.drop_last().len() && s.drop_last()[k] == ',';
                assert(s[k] == ',');
            }
        }
        assert(s.last() != ',') by {
            assert(s[s.len() - 1] == s.last());
        }
        lemma_without_commas_plain(s.drop_last());
        assert(s.drop_last().push(s.last()) =~= s);
    }
}

/// Thousands grouping only inserts separators: dropping the `','`s gives
/// the digits back, and a `','` stands exactly where a group of three
/// characters ends counting from the right, so every group but the first
/// has three digits and the first has one to three.
#[verifier::spinoff_prover]
#[verifier::rlimit(40)]
pub proof fn law_grouping_inserts_separators_every_three(s: Seq<char>)
    requires
        !s.contains(','),
    ensures
        without_commas(group_digits_spec(s)) == s,
        s.len() > 0 ==> group_digits_spec(s).len() == s.len() + (s.len() - 1) / 3,
        forall|i: int|
            0 <= i < group_digits_spec(s).len() ==> ((#[trigger] group_digits_spec(s)[i] == ',') <==> (
            group_digits_spec(s).len() - 1 - i) % 4 == 3),
    decreases s.len(),
{
    let g = group_digits_spec(s);
    if s.len() <= 3 {
        lemma_without_commas_plain(s);
        assert forall|i: int| 0 <= i < g.len() implies ((#[trigger] g[i] == ',') <==> (g.len() - 1 - i) % 4
            == 3) by {
            assert(g[i] != ',') by {
                if g[i] == ',' {
                    assert(s.contains(','));
                }
            }
        }
    } else {
        let pre = s.subrange(0, s.len() - 3);
        let last3 = s.subrange(s.len() - 3, s.len() as int);
        assert(!pre.contains(',')) by {
            if pre.contains(',') {
                let k = choose|k: int| 0 <= k < pre.len() && pre[k] == ',';
                assert(s[k] == ',');
            }
        }
        assert(!last3.contains(',')) by {
            if last3.contains(',') {
                let k = choose|k: int| 0 <= k < last3.len() && last3[k] == ',';
                assert(s[s.len() - 3 + k] == ',');
            }
        }
        law_grouping_inserts_separators_every_three(pre);
        let gp = group_digits_spec(pre);
        assert(g == gp + seq![','] + last3);
        lemma_without_commas_concat(gp + seq![','], last3);
        lemma_without_commas_concat(gp, seq![',']);
        assert(without_commas(seq![',']) =~= Seq::<char>::empty()) by {
            let c = seq![','];
            assert(c.len() == 1 && c.last() == ',');
            assert(c.drop_last() =~= Seq::<char>::empty());
            assert(without_commas(c.drop_last()) =~= Seq::<char>::empty());
        }
        lemma_without_commas_plain(last3);
        assert(without_commas(g) =~= pre + last3);
        assert(pre + last3 =~= s);
        assert forall|i: int| 0 <= i < g.len() implies ((#[trigger] g[i] == ',') <==> (g.len() - 1 - i) % 4
            == 3) by {
            if i < gp.len() {
                assert(g[i] == gp[i]);
                assert((g.len() - 1 - i) == (gp.len() - 1 - i) + 4);
            } else if i == gp.len() {
                assert(g[i] == ',');
            } else {
                assert(g[i] == last3[i - gp.len() - 1]);
                assert(last3[i - gp.len() - 1] != ',') by {
                    if last3[i - gp.len() - 1] == ',' {
                        assert(last3.contains(','));
                    }
                }
            }
        }
    }
}


/// The account balance is the yuan amount after `'¥'`, and a negative
/// balance reads as a zero one.
pub proof fn law_balance_is_yuan_after_sign(credits_micro: int)
    ensures
        account_balance_text(credits_micro)[0] == '¥',
        credits_micro >= 0 ==> account_balance_text(credits_micro).subrange(
            1,
            account_balance_text(credits_micro).len() as int,
        ) == yuan_text(credits_micro),
        credits_micro < 0 ==> account_balance_text(credits_micro) == account_balance_text(0),
{
    let t = account_balance_text(credits_micro);
    if credits_micro >= 0 {
        assert(t.subrange(1, t.len() as int) =~= yuan_text(credits_micro));
    }
}
} // verus!

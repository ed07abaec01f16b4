//! How durations and ages are shown: "1:02:03", "2:58", "5m", "3d".
use vstd::prelude::*;

use crate::text::{
    all_digits, digit_val, digits_value, index_of_any_from, is_digit, is_ws, lemma_trim_no_ws_ends,
    parse_u64, string_of_all, trim,
};
use crate::timespec::{colon_from, time_spec_eval, time_spec_overflows, time_spec_value};

verus! {

/// The ASCII digit for `d` (0 through 9).
pub open spec fn digit_char(d: int) -> char {
    if d == 0 {
        '0'
    } else if d == 1 {
        '1'
    } else if d == 2 {
        '2'
    } else if d == 3 {
        '3'
    } else if d == 4 {
        '4'
    } else if d == 5 {
        '5'
    } else if d == 6 {
        '6'
    } else if d == 7 {
        '7'
    } else if d == 8 {
        '8'
    } else {
        '9'
    }
}

/// The decimal representation of `n`, without leading zeros.
pub open spec fn decimal(n: nat) -> Seq<char>
    decreases n,
{
    if n < 10 {
        seq![digit_char(n as int)]
    } else {
        decimal(n / 10).push(digit_char((n % 10) as int))
    }
}

/// The decimal representation of `n`, padded with a zero to two digits.
pub open spec fn decimal2(n: nat) -> Seq<char> {
    if n < 10 {
        seq!['0', digit_char(n as int)]
    } else {
        decimal(n)
    }
}

/// A number of seconds as `h:mm:ss`, or `m:ss` under an hour.
pub open spec fn duration_text(s: nat) -> Seq<char> {
    let h = s / 3600;
    let m = (s % 3600) / 60;
    let sec = s % 60;
    if h > 0 {
        decimal(h) + seq![':'] + decimal2(m) + seq![':'] + decimal2(sec)
    } else {
        decimal(m) + seq![':'] + decimal2(sec)
    }
}

/// How long ago `ts` was at `now`, in the largest unit that fits: seconds,
/// minutes, hours, days, weeks (under 30 days), else 30-day months; `-`
/// when `ts` is zero or in the future.
pub open spec fn age_text(ts: nat, now: nat) -> Seq<char> {
    if ts == 0 || ts > now {
        seq!['-']
    } else {
        let delta = (now - ts) as nat;
        if delta < 60 {
            decimal(delta).push('s')
        } else if delta < 3600 {
            decimal(delta / 60).push('m')
        } else if delta < 86400 {
            decimal(delta / 3600).push('h')
        } else if delta < 7 * 86400 {
            decimal(delta / 86400).push('d')
        } else if delta < 30 * 86400 {
            decimal(delta / (7 * 86400)).push('w')
        } else {
            decimal(delta / (30 * 86400)) + seq!['m', 'o']
        }
    }
}

fn digit_to_char(d: u64) -> (c: char)
    requires
        d < 10,
    ensures
        c == digit_char(d as int),
{
    if d == 0 {
        '0'
    } else if d == 1 {
        '1'
    } else if d == 2 {
        '2'
    } else if d == 3 {
        '3'
    } else if d == 4 {
        '4'
    } else if d == 5 {
        '5'
    } else if d == 6 {
        '6'
    } else if d == 7 {
        '7'
    } else if d == 8 {
        '8'
    } else {
        '9'
    }
}

/// Appends the decimal representation of `n`.
pub(crate) fn push_decimal(out: &mut Vec<char>, n: u64)
    ensures
        final(out)@ == old(out)@ + decimal(n as nat),
    decreases n,
{
    if n >= 10 {
        push_decimal(out, n / 10);
    }
    out.push(digit_to_char(n % 10));
    proof {
        if n < 10 {
            assert(n % 10 == n);
        }
    }
    assert(final(out)@ =~= old(out)@ + decimal(n as nat));
}

/// Appends the decimal representation of `n`, padded to two digits.
fn push_decimal2(out: &mut Vec<char>, n: u64)
    ensures
        final(out)@ == old(out)@ + decimal2(n as nat),
{
    if n < 10 {
        out.push('0');
    }
    let ghost mid = out@;
    push_decimal(out, n);
    proof {
        if n < 10 {
            assert(decimal(n as nat) == seq![digit_char(n as int)]);
            assert(final(out)@ =~= old(out)@ + decimal2(n as nat));
        }
    }
}

/// Formats a number of seconds as `h:mm:ss`, or `m:ss` under an hour.
pub fn format_duration(secs: u64) -> (r: String)
    ensures
        r@ == duration_text(secs as nat),
{
    let h = secs / 3600;
    let m = (secs % 3600) / 60;
    let sec = secs % 60;
    let mut out: Vec<char> = Vec::new();
    if h > 0 {
        push_decimal(&mut out, h);
        out.push(':');
        push_decimal2(&mut out, m);
        out.push(':');
        push_decimal2(&mut out, sec);
    } else {
        push_decimal(&mut out, m);
        out.push(':');
        push_decimal2(&mut out, sec);
    }
    assert(out@ =~= duration_text(secs as nat));
    string_of_all(&out)
}

/// Formats how long ago `ts` was at `now` (see `age_text`).
pub fn format_age(ts: u64, now: u64) -> (r: String)
    ensures
        r@ == age_text(ts as nat, now as nat),
{
    let mut out: Vec<char> = Vec::new();
    if ts == 0 || ts > now {
        out.push('-');
    } else {
        let delta = now - ts;
        if delta < 60 {
            push_decimal(&mut out, delta);
            out.push('s');
        } else if delta < 3600 {
            push_decimal(&mut out, delta / 60);
            out.push('m');
        } else if delta < 86400 {
            push_decimal(&mut out, delta / 3600);
            out.push('h');
        } else if delta < 7 * 86400 {
            push_decimal(&mut out, delta / 86400);
            out.push('d');
        } else if delta < 30 * 86400 {
            push_decimal(&mut out, delta / (7 * 86400));
            out.push('w');
        } else {
            push_decimal(&mut out, delta / (30 * 86400));
            out.push('m');
            out.push('o');
        }
    }
    assert(out@ =~= age_text(ts as nat, now as nat));
    string_of_all(&out)
}

// ---------------------------------------------------------------------------
// Laws
// ---------------------------------------------------------------------------

proof fn lemma_digit_char(d: int)
    requires
        0 <= d < 10,
    ensures
        is_digit(digit_char(d)),
        digit_val(digit_char(d)) == d,
        !is_ws(digit_char(d)),
        digit_char(d) != ':',
        digit_char(d) != '+',
{
}

/// The decimal representation is a non-empty string of digits with the
/// number's value.
pub proof fn lemma_decimal(n: nat)
    ensures
        decimal(n).len() > 0,
        all_digits(decimal(n)),
        digits_value(decimal(n)) == n,
        n <= u64::MAX ==> parse_u64(decimal(n)) == Some(n as int),
    decreases n,
{
    let d = decimal(n);
    if n < 10 {
        lemma_digit_char(n as int);
        assert(d.drop_last() =~= Seq::<char>::empty());
        assert(digits_value(Seq::<char>::empty()) == 0);
    } else {
        lemma_decimal(n / 10);
        lemma_digit_char((n % 10) as int);
        assert(d.drop_last() =~= decimal(n / 10));
        assert forall|i: int| 0 <= i < d.len() implies #[trigger] is_digit(d[i]) by {
            if i < d.len() - 1 {
                assert(d[i] == decimal(n / 10)[i]);
            }
        }
        vstd::arithmetic::div_mod::lemma_fundamental_div_mod(n as int, 10);
        assert(digits_value(d) == 10 * digits_value(decimal(n / 10)) + digit_val(d.last()));
    }
    assert(is_digit(d[0]));
    lemma_digit_char(0);
}

/// The two-digit form of a number under 100 parses back to it.
pub proof fn lemma_decimal2(n: nat)
    requires
        n < 100,
    ensures
        decimal2(n).len() > 0,
        all_digits(decimal2(n)),
        parse_u64(decimal2(n)) == Some(n as int),
{
    lemma_decimal(n);
    if n < 10 {
        let d = decimal2(n);
        lemma_digit_char(n as int);
        lemma_digit_char(0);
        let zero = seq!['0'];
        assert(zero.drop_last() =~= Seq::<char>::empty());
        assert(digits_value(Seq::<char>::empty()) == 0);
        assert(digits_value(zero) == 0);
        assert(d.drop_last() =~= zero);
        assert forall|i: int| 0 <= i < d.len() implies #[trigger] is_digit(d[i]) by {}
    }
}

/// Hours, minutes and seconds add back up.
proof fn lemma_hms(n: nat)
    ensures
        (n / 3600) * 3600 + ((n % 3600) / 60) * 60 + n % 60 == n,
        (n % 3600) / 60 < 60,
        n % 60 < 60,
{
    vstd::arithmetic::div_mod::lemma_fundamental_div_mod(n as int, 3600);
    vstd::arithmetic::div_mod::lemma_fundamental_div_mod((n % 3600) as int, 60);
    vstd::arithmetic::div_mod::lemma_mod_mod(n as int, 60, 60);
}

/// The first `:` at or after `start` is at `k` when none comes before it.
proof fn lemma_colon_index(t: Seq<char>, start: nat, k: nat)
    requires
        start <= k <= t.len(),
        forall|j: int| start <= j < k ==> #[trigger] t[j] != ':',
        k < t.len() ==> t[k as int] == ':',
    ensures
        index_of_any_from(t, seq![':'], start) == k,
    decreases k - start,
{
    if start < k {
        assert(!seq![':'].contains(t[start as int])) by {
            if seq![':'].contains(t[start as int]) {
                assert(seq![':'][0] == t[start as int]);
            }
        }
        lemma_colon_index(t, start + 1, k);
    } else if k < t.len() {
        assert(seq![':'][0] == t[k as int]);
    }
}

proof fn lemma_digits_no_colon(s: Seq<char>)
    requires
        all_digits(s),
    ensures
        forall|j: int| 0 <= j < s.len() ==> #[trigger] s[j] != ':',
{
    assert forall|j: int| 0 <= j < s.len() implies #[trigger] s[j] != ':' by {
        assert(is_digit(s[j]));
    }
}

/// A duration of an hour or more, as shown, reads back in the colon form.
proof fn lemma_hms_text_parses(t: Seq<char>, h: nat, m: nat, sec: nat)
    requires
        h > 0,
        h <= u64::MAX,
        m < 60,
        sec < 60,
        t == decimal(h) + seq![':'] + decimal2(m) + seq![':'] + decimal2(sec),
    ensures
        time_spec_eval(t) == (Ok::<int, crate::timespec::TimeSpecError>(
            ((h * 60 + m) * 60 + sec) as int,
        ), ((h * 60 + m) * 60 + sec) as int),
{
    lemma_decimal(h);
    lemma_decimal2(m);
    lemma_decimal2(sec);
    let a = decimal(h);
    let b = decimal2(m);
    let c = decimal2(sec);
    lemma_digits_no_colon(a);
    lemma_digits_no_colon(b);
    lemma_digits_no_colon(c);
    assert(is_digit(a[0]));
    assert(is_digit(c[c.len() - 1]));
    assert(t[0] == a[0]);
    assert(t[t.len() - 1] == c[c.len() - 1]);
    lemma_trim_no_ws_ends(t);
    let ia = a.len();
    let ib = ia + 1 + b.len();
    assert(t[ia as int] == ':');
    assert(t.contains(':'));
    assert forall|j: int| 0 <= j < ia implies #[trigger] t[j] != ':' by {
        assert(t[j] == a[j]);
    }
    lemma_colon_index(t, 0, ia);
    assert(t.subrange(0, ia as int) =~= a);
    assert forall|j: int| ia + 1 <= j < ib implies #[trigger] t[j] != ':' by {
        assert(t[j] == b[j - ia - 1]);
    }
    assert(t[ib as int] == ':');
    lemma_colon_index(t, ia + 1, ib);
    assert(t.subrange((ia + 1) as int, ib as int) =~= b);
    assert forall|j: int| ib + 1 <= j < t.len() implies #[trigger] t[j] != ':' by {
        assert(t[j] == c[j - ib - 1]);
    }
    lemma_colon_index(t, ib + 1, t.len());
    assert(t.subrange((ib + 1) as int, t.len() as int) =~= c);
    assert(colon_from(t, 0, 0, 0) == colon_from(t, ia + 1, h as int, 1));
    assert(colon_from(t, ia + 1, h as int, 1) == colon_from(t, ib + 1, (h * 60 + m) as int, 2));
}

/// A duration under an hour, as shown, reads back in the colon form.
proof fn lemma_ms_text_parses(t: Seq<char>, m: nat, sec: nat)
    requires
        m < 60,
        sec < 60,
        t == decimal(m) + seq![':'] + decimal2(sec),
    ensures
        time_spec_eval(t) == (Ok::<int, crate::timespec::TimeSpecError>((m * 60 + sec) as int), (m * 60
            + sec) as int),
{
    lemma_decimal(m);
    lemma_decimal2(sec);
    let a = decimal(m);
    let c = decimal2(sec);
    lemma_digits_no_colon(a);
    lemma_digits_no_colon(c);
    assert(is_digit(a[0]));
    assert(is_digit(c[c.len() - 1]));
    assert(t[0] == a[0]);
    assert(t[t.len() - 1] == c[c.len() - 1]);
    lemma_trim_no_ws_ends(t);
    let ia = a.len();
    assert(t[ia as int] == ':');
    assert(t.contains(':'));
    assert forall|j: int| 0 <= j < ia implies #[trigger] t[j] != ':' by {
        assert(t[j] == a[j]);
    }
    lemma_colon_index(t, 0, ia);
    assert(t.subrange(0, ia as int) =~= a);
    assert forall|j: int| ia + 1 <= j < t.len() implies #[trigger] t[j] != ':' by {
        assert(t[j] == c[j - ia - 1]);
    }
    lemma_colon_index(t, ia + 1, t.len());
    assert(t.subrange((ia + 1) as int, t.len() as int) =~= c);
    assert(colon_from(t, 0, 0, 0) == colon_from(t, ia + 1, m as int, 1));
}

/// A duration as shown reads back, in the colon form of a time
/// specification, as the same number of seconds.
pub proof fn law_duration_text_parses_back(n: u64)
    ensures
        time_spec_value(duration_text(n as nat)) == Ok::<int, crate::timespec::TimeSpecError>(n as int),
        !time_spec_overflows(duration_text(n as nat)),
{
    let nn = n as nat;
    let h = nn / 3600;
    let m = (nn % 3600) / 60;
    let sec = nn % 60;
    lemma_hms(nn);
    if h > 0 {
        lemma_hms_text_parses(duration_text(nn), h, m, sec);
    } else {
        lemma_ms_text_parses(duration_text(nn), m, sec);
    }
}

} // verus!

//! Time specifications: "178", "178s", "2m58s", "1h2m3s", "2:58", "1:02:03".
use vstd::prelude::*;

use crate::text::{
    all_digits, all_digits_exec, char_is_digit, contains_char_exec, digits_value, index_of_any_exec,
    index_of_any_from, is_digit, lemma_digits_value_nonneg, lemma_index_of_any_bound, parse_u64,
    parse_u64_exec, trim, trimmed_chars, is_ws, lemma_trim_no_ws_ends,
};

verus! {

/// Why a time specification was refused.
#[derive(Debug, Clone, Copy, PartialEq, Eq, Structural)]
pub enum TimeSpecError {
    /// Nothing but whitespace.
    Empty,
    /// A colon-separated part is not a number.
    InvalidColonForm,
    /// More than three colon-separated parts.
    TooManyColons,
    /// A plain number (with or without a trailing `s`) that does not parse.
    InvalidNumber,
    /// An `h`, `m` or `s` unit repeated, or with no digits before it.
    InvalidCompound,
    /// The hour count is too large for a `u64`.
    BadHour,
    /// The minute count is too large for a `u64`.
    BadMinute,
    /// The second count is too large for a `u64`.
    BadSecond,
    /// A character that is neither a digit nor a unit.
    InvalidChar(char),
    /// Digits after an `s` unit.
    TrailingDigitsAfterSeconds,
    /// Trailing seconds too large for a `u64`.
    BadTrailingSeconds,
}

/// A result over `u64`, seen as a result over `int`.
pub open spec fn lift_u64<E>(r: Result<u64, E>) -> Result<int, E> {
    match r {
        Ok(n) => Ok(n as int),
        Err(e) => Err(e),
    }
}

/// The colon form, from the part that starts at `start`: `total` is the value
/// of the parts before it and `nparts` their number. Besides the outcome, the
/// value accumulated when the scan stopped.
pub open spec fn colon_from(t: Seq<char>, start: nat, total: int, nparts: nat) -> (
    Result<int, TimeSpecError>,
    int,
)
    decreases t.len() + 1 - start,
{
    let j = index_of_any_from(t, seq![':'], start);
    match parse_u64(t.subrange(start as int, j as int)) {
        None => (Err(TimeSpecError::InvalidColonForm), total),
        Some(n) => {
            let total2 = total * 60 + n;
            if j >= t.len() {
                if nparts + 1 > 3 {
                    (Err(TimeSpecError::TooManyColons), total2)
                } else {
                    (Ok(total2), total2)
                }
            } else {
                proof {
                    if start <= t.len() {
                        lemma_index_of_any_bound(t, seq![':'], start);
                    }
                }
                colon_from(t, j + 1, total2, nparts + 1)
            }
        },
    }
}

/// The compound form, from index `i`: `total` is what the units before have
/// added up to, `t[num_lo..i]` the digits read since the last unit, and
/// `sh`, `sm`, `ss` whether an `h`, `m`, `s` unit was seen. Besides the
/// outcome, the value accumulated when the scan stopped.
pub open spec fn compound_from(
    t: Seq<char>,
    i: nat,
    total: int,
    num_lo: nat,
    sh: bool,
    sm: bool,
    ss: bool,
) -> (Result<int, TimeSpecError>, int)
    decreases t.len() + 1 - i,
{
    let num = t.subrange(num_lo as int, i as int);
    if i >= t.len() {
        if num_lo < i {
            if ss {
                (Err(TimeSpecError::TrailingDigitsAfterSeconds), total)
            } else {
                match parse_u64(num) {
                    None => (Err(TimeSpecError::BadTrailingSeconds), total),
                    Some(n) => (Ok(total + n), total + n),
                }
            }
        } else {
            (Ok(total), total)
        }
    } else {
        let c = t[i as int];
        if is_digit(c) {
            compound_from(t, i + 1, total, num_lo, sh, sm, ss)
        } else if c == 'h' || c == 'H' {
            if sh || num_lo >= i {
                (Err(TimeSpecError::InvalidCompound), total)
            } else {
                match parse_u64(num) {
                    None => (Err(TimeSpecError::BadHour), total),
                    Some(n) => compound_from(t, i + 1, total + n * 3600, i + 1, true, sm, ss),
                }
            }
        } else if c == 'm' || c == 'M' {
            if sm || num_lo >= i {
                (Err(TimeSpecError::InvalidCompound), total)
            } else {
                match parse_u64(num) {
                    None => (Err(TimeSpecError::BadMinute), total),
                    Some(n) => compound_from(t, i + 1, total + n * 60, i + 1, sh, true, ss),
                }
            }
        } else if c == 's' || c == 'S' {
            if ss || num_lo >= i {
                (Err(TimeSpecError::InvalidCompound), total)
            } else {
                match parse_u64(num) {
                    None => (Err(TimeSpecError::BadSecond), total),
                    Some(n) => compound_from(t, i + 1, total + n, i + 1, sh, sm, true),
                }
            }
        } else {
            (Err(TimeSpecError::InvalidChar(c)), total)
        }
    }
}

/// A plain number read as the whole value.
pub open spec fn plain_number(s: Seq<char>) -> Result<int, TimeSpecError> {
    match parse_u64(s) {
        Some(n) => Ok(n),
        None => Err(TimeSpecError::InvalidNumber),
    }
}

/// How a time specification is read, and the value accumulated on the way.
/// The input is trimmed; then the colon form applies if it holds a `:`, a
/// plain number of seconds if it is digits with or without a trailing `s`,
/// and the compound `h`/`m`/`s` form otherwise.
pub open spec fn time_spec_eval(input: Seq<char>) -> (Result<int, TimeSpecError>, int) {
    let t = trim(input);
    if t.len() == 0 {
        (Err(TimeSpecError::Empty), 0)
    } else if t.contains(':') {
        colon_from(t, 0, 0, 0)
    } else if t.last() == 's' && all_digits(t.drop_last()) {
        (plain_number(t.drop_last()), 0)
    } else if all_digits(t) {
        (plain_number(t), 0)
    } else {
        compound_from(t, 0, 0, 0, false, false, false)
    }
}

/// The value of a time specification in seconds, or why it is refused.
pub open spec fn time_spec_value(input: Seq<char>) -> Result<int, TimeSpecError> {
    time_spec_eval(input).0
}

/// Reading the specification adds up more seconds than a `u64` holds (the
/// arithmetic overflows before an outcome is reached).
pub open spec fn time_spec_overflows(input: Seq<char>) -> bool {
    time_spec_eval(input).1 > u64::MAX
}

pub proof fn lemma_parse_u64_range(s: Seq<char>)
    ensures
        parse_u64(s) matches Some(n) ==> 0 <= n <= u64::MAX,
{
    let body = if s.len() > 0 && s[0] == '+' {
        s.drop_first()
    } else {
        s
    };
    if body.len() > 0 && all_digits(body) {
        lemma_digits_value_nonneg(body);
    }
}

pub proof fn lemma_colon_monotone(t: Seq<char>, start: nat, total: int, nparts: nat)
    requires
        total >= 0,
    ensures
        colon_from(t, start, total, nparts).1 >= total,
    decreases t.len() + 1 - start,
{
    let j = index_of_any_from(t, seq![':'], start);
    lemma_parse_u64_range(t.subrange(start as int, j as int));
    match parse_u64(t.subrange(start as int, j as int)) {
        None => {},
        Some(n) => {
            if j < t.len() {
                if start <= t.len() {
                    lemma_index_of_any_bound(t, seq![':'], start);
                }
                lemma_colon_monotone(t, j + 1, total * 60 + n, nparts + 1);
            }
        },
    }
}

pub proof fn lemma_compound_monotone(
    t: Seq<char>,
    i: nat,
    total: int,
    num_lo: nat,
    sh: bool,
    sm: bool,
    ss: bool,
)
    requires
        total >= 0,
    ensures
        compound_from(t, i, total, num_lo, sh, sm, ss).1 >= total,
    decreases t.len() + 1 - i,
{
    let num = t.subrange(num_lo as int, i as int);
    lemma_parse_u64_range(num);
    if i < t.len() {
        let c = t[i as int];
        if is_digit(c) {
            lemma_compound_monotone(t, i + 1, total, num_lo, sh, sm, ss);
        } else if c == 'h' || c == 'H' {
            if let Some(n) = parse_u64(num) {
                lemma_compound_monotone(t, i + 1, total + n * 3600, i + 1, true, sm, ss);
            }
        } else if c == 'm' || c == 'M' {
            if let Some(n) = parse_u64(num) {
                lemma_compound_monotone(t, i + 1, total + n * 60, i + 1, sh, true, ss);
            }
        } else if c == 's' || c == 'S' {
            if let Some(n) = parse_u64(num) {
                lemma_compound_monotone(t, i + 1, total + n, i + 1, sh, sm, true);
            }
        }
    }
}

fn colon_form(t: &Vec<char>) -> (r: Option<Result<u64, TimeSpecError>>)
    ensures
        r is None <==> colon_from(t@, 0, 0, 0).1 > u64::MAX,
        r matches Some(res) ==> lift_u64(res) == colon_from(t@, 0, 0, 0).0,
{
    let colon: Vec<char> = vec![':'];
    assert(colon@ =~= seq![':']);
    let mut start: usize = 0;
    let mut total: u64 = 0;
    let mut nparts: usize = 0;
    loop
        invariant
            start <= t.len(),
            nparts <= start,
            colon@ == seq![':'],
            colon_from(t@, 0, 0, 0) == colon_from(t@, start as nat, total as int, nparts as nat),
        decreases t.len() + 1 - start,
    {
        let j = index_of_any_exec(t, &colon, start);
        proof {
            lemma_parse_u64_range(t@.subrange(start as int, j as int));
        }
        match parse_u64_exec(t, start, j) {
            None => {
                return Some(Err(TimeSpecError::InvalidColonForm));
            },
            Some(n) => {
                let ghost total2 = total * 60 + n;
                proof {
                    if j < t.len() {
                        lemma_colon_monotone(t@, (j + 1) as nat, total2, (nparts + 1) as nat);
                    }
                }
                let total_next = match total.checked_mul(60) {
                    None => {
                        return None;
                    },
                    Some(a) => match a.checked_add(n) {
                        None => {
                            return None;
                        },
                        Some(b) => b,
                    },
                };
                if j >= t.len() {
                    if nparts + 1 > 3 {
                        return Some(Err(TimeSpecError::TooManyColons));
                    } else {
                        return Some(Ok(total_next));
                    }
                }
                start = j + 1;
                total = total_next;
                nparts = nparts + 1;
            },
        }
    }
}

fn compound_form(t: &Vec<char>) -> (r: Option<Result<u64, TimeSpecError>>)
    ensures
        r is None <==> compound_from(t@, 0, 0, 0, false, false, false).1 > u64::MAX,
        r matches Some(res) ==> lift_u64(res) == compound_from(
            t@,
            0,
            0,
            0,
            false,
            false,
            false,
        ).0,
{
    let n = t.len();
    let mut i: usize = 0;
    let mut total: u64 = 0;
    let mut num_lo: usize = 0;
    let mut sh = false;
    let mut sm = false;
    let mut ss = false;
    while i < n
        invariant
            num_lo <= i <= n,
            n == t.len(),
            compound_from(t@, 0, 0, 0, false, false, false) == compound_from(
                t@,
                i as nat,
                total as int,
                num_lo as nat,
                sh,
                sm,
                ss,
            ),
        decreases n - i,
    {
        let c = t[i];
        proof {
            lemma_parse_u64_range(t@.subrange(num_lo as int, i as int));
        }
        if char_is_digit(c) {
            i += 1;
        } else if c == 'h' || c == 'H' {
            if sh || num_lo >= i {
                return Some(Err(TimeSpecError::InvalidCompound));
            }
            match parse_u64_exec(t, num_lo, i) {
                None => {
                    return Some(Err(TimeSpecError::BadHour));
                },
                Some(v) => {
                    proof {
                        lemma_compound_monotone(
                            t@,
                            (i + 1) as nat,
                            total + v * 3600,
                            (i + 1) as nat,
                            true,
                            sm,
                            ss,
                        );
                    }
                    let add = match v.checked_mul(3600) {
                        None => {
                            return None;
                        },
                        Some(a) => a,
                    };
                    total = match total.checked_add(add) {
                        None => {
                            return None;
                        },
                        Some(b) => b,
                    };
                    sh = true;
                    num_lo = i + 1;
                    i += 1;
                },
            }
        } else if c == 'm' || c == 'M' {
            if sm || num_lo >= i {
                return Some(Err(TimeSpecError::InvalidCompound));
            }
            match parse_u64_exec(t, num_lo, i) {
                None => {
                    return Some(Err(TimeSpecError::BadMinute));
                },
                Some(v) => {
                    proof {
                        lemma_compound_monotone(
                            t@,
                            (i + 1) as nat,
                            total + v * 60,
                            (i + 1) as nat,
                            sh,
                            true,
                            ss,
                        );
                    }
                    let add = match v.checked_mul(60) {
                        None => {
                            return None;
                        },
                        Some(a) => a,
                    };
                    total = match total.checked_add(add) {
                        None => {
                            return None;
                        },
                        Some(b) => b,
                    };
                    sm = true;
                    num_lo = i + 1;
                    i += 1;
                },
            }
        } else if c == 's' || c == 'S' {
            if ss || num_lo >= i {
                return Some(Err(TimeSpecError::InvalidCompound));
            }
            match parse_u64_exec(t, num_lo, i) {
                None => {
                    return Some(Err(TimeSpecError::BadSecond));
                },
                Some(v) => {
                    proof {
                        lemma_compound_monotone(
                            t@,
                            (i + 1) as nat,
                            total + v,
                            (i + 1) as nat,
                            sh,
                            sm,
                            true,
                        );
                    }
                    total = match total.checked_add(v) {
                        None => {
                            return None;
                        },
                        Some(b) => b,
                    };
                    ss = true;
                    num_lo = i + 1;
                    i += 1;
                },
            }
        } else {
            return Some(Err(TimeSpecError::InvalidChar(c)));
        }
    }
    proof {
        lemma_parse_u64_range(t@.subrange(num_lo as int, i as int));
    }
    if num_lo < i {
        if ss {
            return Some(Err(TimeSpecError::TrailingDigitsAfterSeconds));
        }
        match parse_u64_exec(t, num_lo, i) {
            None => Some(Err(TimeSpecError::BadTrailingSeconds)),
            Some(v) => match total.checked_add(v) {
                None => None,
                Some(b) => Some(Ok(b)),
            },
        }
    } else {
        Some(Ok(total))
    }
}

/// Parses a time specification into seconds, or answers `None` where the
/// seconds add up past `u64::MAX` before an outcome is reached.
/// Accepts plain seconds ("178", "178s"), the compound form ("2m58s",
/// "1h2m3s", "90m", "58s2m": `h`, `m`, `s` in any order, each at most once,
/// with bare trailing digits counted as seconds unless an `s` came before) and the colon form ("2:58",
/// "1:02:03").
pub fn try_parse_time_spec(s: &str) -> (r: Option<Result<u64, TimeSpecError>>)
    ensures
        r is None <==> time_spec_overflows(s@),
        r matches Some(res) ==> lift_u64(res) == time_spec_value(s@),
{
    let t = trimmed_chars(s);
    let n = t.len();
    if n == 0 {
        return Some(Err(TimeSpecError::Empty));
    }
    if contains_char_exec(&t, ':') {
        return colon_form(&t);
    }
    if t[n - 1] == 's' && all_digits_exec(&t, 0, n - 1) {
        assert(t@.subrange(0, n - 1) =~= t@.drop_last());
        let r = match parse_u64_exec(&t, 0, n - 1) {
            Some(v) => Ok(v),
            None => Err(TimeSpecError::InvalidNumber),
        };
        return Some(r);
    }
    if all_digits_exec(&t, 0, n) {
        assert(t@.subrange(0, n as int) =~= t@);
        let r = match parse_u64_exec(&t, 0, n) {
            Some(v) => Ok(v),
            None => Err(TimeSpecError::InvalidNumber),
        };
        return Some(r);
    }
    compound_form(&t)
}

/// Parses a time specification into seconds (see `try_parse_time_spec` for
/// the accepted forms), on inputs whose seconds fit in a `u64` all the way.
pub fn parse_time_spec(s: &str) -> (r: Result<u64, TimeSpecError>)
    requires
        !time_spec_overflows(s@),
    ensures
        lift_u64(r) == time_spec_value(s@),
{
    match try_parse_time_spec(s) {
        Some(r) => r,
        None => {
            assert(false);
            Err(TimeSpecError::Empty)
        },
    }
}

/// The number of colons in `t` at or after index `i`.
pub open spec fn colons_from(t: Seq<char>, i: nat) -> nat
    decreases t.len() - i,
{
    if i >= t.len() {
        0
    } else {
        (if t[i as int] == ':' {
            1nat
        } else {
            0nat
        }) + colons_from(t, i + 1)
    }
}

/// A unit letter of the compound form.
pub open spec fn is_unit(c: char) -> bool {
    c == 'h' || c == 'H' || c == 'm' || c == 'M' || c == 's' || c == 'S'
}

proof fn lemma_colons_skip(t: Seq<char>, i: nat, j: nat)
    requires
        i <= j <= t.len(),
        forall|k: int| i <= k < j ==> t[k] != ':',
    ensures
        colons_from(t, i) == colons_from(t, j),
    decreases j - i,
{
    if i < j {
        lemma_colons_skip(t, i + 1, j);
    }
}

proof fn lemma_colon_too_many(t: Seq<char>, start: nat, total: int, nparts: nat)
    requires
        start <= t.len(),
        nparts + colons_from(t, start) + 1 > 3,
    ensures
        colon_from(t, start, total, nparts).0 is Err,
    decreases t.len() + 1 - start,
{
    let j = index_of_any_from(t, seq![':'], start);
    lemma_index_of_any_bound(t, seq![':'], start);
    assert forall|k: int| start <= k < j implies t[k] != ':' by {
        if t[k] == ':' {
            assert(seq![':'][0] == ':');
            assert(seq![':'].contains(t[k]));
        }
    }
    lemma_colons_skip(t, start, j);
    match parse_u64(t.subrange(start as int, j as int)) {
        None => {},
        Some(n) => {
            if j < t.len() {
                assert(seq![':'].contains(t[j as int]));
                assert(t[j as int] == ':');
                assert(colons_from(t, j) == 1 + colons_from(t, j + 1));
                lemma_colon_too_many(t, j + 1, total * 60 + n, nparts + 1);
            }
        },
    }
}

proof fn lemma_compound_bad_char(
    t: Seq<char>,
    i: nat,
    total: int,
    num_lo: nat,
    sh: bool,
    sm: bool,
    ss: bool,
    k: nat,
)
    requires
        i <= k < t.len(),
        !is_digit(t[k as int]),
        !is_unit(t[k as int]),
    ensures
        compound_from(t, i, total, num_lo, sh, sm, ss).0 is Err,
    decreases t.len() + 1 - i,
{
    let num = t.subrange(num_lo as int, i as int);
    let c = t[i as int];
    if is_digit(c) {
        lemma_compound_bad_char(t, i + 1, total, num_lo, sh, sm, ss, k);
    } else if c == 'h' || c == 'H' {
        if let Some(n) = parse_u64(num) {
            if !(sh || num_lo >= i) {
                lemma_compound_bad_char(t, i + 1, total + n * 3600, i + 1, true, sm, ss, k);
            }
        }
    } else if c == 'm' || c == 'M' {
        if let Some(n) = parse_u64(num) {
            if !(sm || num_lo >= i) {
                lemma_compound_bad_char(t, i + 1, total + n * 60, i + 1, sh, true, ss, k);
            }
        }
    } else if c == 's' || c == 'S' {
        if let Some(n) = parse_u64(num) {
            if !(ss || num_lo >= i) {
                lemma_compound_bad_char(t, i + 1, total + n, i + 1, sh, sm, true, k);
            }
        }
    }
}

/// Refused inputs: after trimming, an empty specification, one with more
/// than three colon-separated parts, and one without colons that holds a
/// character other than a digit or an `h`, `m`, `s` unit (either case) are
/// all refused.
pub proof fn law_refused_time_specs(s: Seq<char>)
    requires
        ({
            let t = trim(s);
            ||| t.len() == 0
            ||| (t.contains(':') && colons_from(t, 0) + 1 > 3)
            ||| (!t.contains(':') && exists|k: int|
                0 <= k < t.len() && !is_digit(#[trigger] t[k]) && !is_unit(t[k]))
        }),
    ensures
        time_spec_value(s) is Err,
{
    let t = trim(s);
    if t.len() == 0 {
    } else if t.contains(':') {
        lemma_colon_too_many(t, 0, 0, 0);
    } else {
        let k = choose|k: int| 0 <= k < t.len() && !is_digit(#[trigger] t[k]) && !is_unit(t[k]);
        assert(!all_digits(t));
        if t.last() == 's' {
            assert(k < t.len() - 1);
            assert(t.drop_last()[k] == t[k]);
            assert(!all_digits(t.drop_last()));
        }
        lemma_compound_bad_char(t, 0, 0, 0, false, false, false, k as nat);
    }
}

proof fn lemma_compound_skip_digits(
    t: Seq<char>,
    i: nat,
    j: nat,
    total: int,
    num_lo: nat,
    sh: bool,
    sm: bool,
    ss: bool,
)
    requires
        i <= j <= t.len(),
        forall|k: int| i <= k < j ==> is_digit(#[trigger] t[k]),
    ensures
        compound_from(t, i, total, num_lo, sh, sm, ss) == compound_from(t, j, total, num_lo, sh, sm, ss),
    decreases j - i,
{
    if i < j {
        assert(is_digit(t[i as int]));
        lemma_compound_skip_digits(t, i + 1, j, total, num_lo, sh, sm, ss);
    }
}

/// `a`, a unit letter, then `b`, with `a` and `b` non-empty runs of digits.
proof fn lemma_unit_then_digits(a: Seq<char>, u: char, b: Seq<char>)
    requires
        a.len() > 0,
        b.len() > 0,
        all_digits(a),
        all_digits(b),
        u == 'h' || u == 'm' || u == 's',
    ensures
        ({
            let t = a + seq![u] + b;
            &&& trim(t) == t
            &&& !t.contains(':')
            &&& !all_digits(t)
            &&& !(t.last() == 's' && all_digits(t.drop_last()))
            &&& t.subrange(0, a.len() as int) == a
            &&& t.subrange(a.len() + 1int, t.len() as int) == b
            &&& t[a.len() as int] == u
            &&& forall|k: int| 0 <= k < a.len() ==> is_digit(#[trigger] t[k])
            &&& forall|k: int| a.len() + 1 <= k < t.len() ==> is_digit(#[trigger] t[k])
        }),
{
    let t = a + seq![u] + b;
    assert(is_digit(a[0]));
    assert(is_digit(b[b.len() - 1]));
    assert(t[0] == a[0]);
    assert(t[t.len() - 1] == b[b.len() - 1]);
    lemma_trim_no_ws_ends(t);
    assert forall|k: int| 0 <= k < a.len() implies is_digit(#[trigger] t[k]) by {
        assert(t[k] == a[k]);
        assert(is_digit(a[k]));
    }
    assert forall|k: int| a.len() + 1 <= k < t.len() implies is_digit(#[trigger] t[k]) by {
        assert(t[k] == b[k - a.len() - 1]);
        assert(is_digit(b[k - a.len() - 1]));
    }
    assert(!t.contains(':')) by {
        if t.contains(':') {
            let j = choose|j: int| 0 <= j < t.len() && t[j] == ':';
            if j != a.len() {
                assert(is_digit(t[j]));
            }
        }
    }
    assert(!is_digit(t[a.len() as int]));
    assert(t.drop_last()[a.len() as int] == t[a.len() as int]);
    assert(t.subrange(0, a.len() as int) =~= a);
    assert(t.subrange(a.len() + 1int, t.len() as int) =~= b);
}

/// Compound units add up, and bare digits at the end count as seconds when
/// no `s` unit came before: for runs of digits `a` and `b` whose values fit
/// in a `u64`, "<a>m<b>" is `60 a + b` seconds and "<a>h<b>" is
/// `3600 a + b` seconds, while "<a>s<b>" is refused for its trailing digits.
pub proof fn law_trailing_digits_are_seconds(a: Seq<char>, b: Seq<char>)
    requires
        a.len() > 0,
        b.len() > 0,
        all_digits(a),
        all_digits(b),
        digits_value(a) <= u64::MAX,
        digits_value(b) <= u64::MAX,
    ensures
        time_spec_value(a + seq!['m'] + b) == Ok::<int, TimeSpecError>(
            60 * digits_value(a) + digits_value(b),
        ),
        time_spec_value(a + seq!['h'] + b) == Ok::<int, TimeSpecError>(
            3600 * digits_value(a) + digits_value(b),
        ),
        time_spec_value(a + seq!['s'] + b) == Err::<int, TimeSpecError>(
            TimeSpecError::TrailingDigitsAfterSeconds,
        ),
{
    let la = a.len();
    assert(a[0] != '+') by {
        assert(is_digit(a[0]));
    }
    assert(b[0] != '+') by {
        assert(is_digit(b[0]));
    }
    assert(parse_u64(a) == Some(digits_value(a)));
    assert(parse_u64(b) == Some(digits_value(b)));
    let tm = a + seq!['m'] + b;
    lemma_unit_then_digits(a, 'm', b);
    lemma_compound_skip_digits(tm, 0, la, 0, 0, false, false, false);
    lemma_compound_skip_digits(
        tm,
        la + 1,
        tm.len(),
        digits_value(a) * 60,
        la + 1,
        false,
        true,
        false,
    );
    let th = a + seq!['h'] + b;
    lemma_unit_then_digits(a, 'h', b);
    lemma_compound_skip_digits(th, 0, la, 0, 0, false, false, false);
    lemma_compound_skip_digits(
        th,
        la + 1,
        th.len(),
        digits_value(a) * 3600,
        la + 1,
        true,
        false,
        false,
    );
    let ts = a + seq!['s'] + b;
    lemma_unit_then_digits(a, 's', b);
    lemma_compound_skip_digits(ts, 0, la, 0, 0, false, false, false);
    lemma_compound_skip_digits(ts, la + 1, ts.len(), digits_value(a), la + 1, false, false, true);
}

/// Plain seconds read the same with or without a trailing `s`: "178" and
/// "178s" are both 178 seconds (and neither overflows).
pub proof fn law_seconds_suffix(d: Seq<char>)
    requires
        d.len() > 0,
        all_digits(d),
    ensures
        time_spec_value(d.push('s')) == time_spec_value(d),
        time_spec_value(d) == plain_number(d),
        !time_spec_overflows(d),
        !time_spec_overflows(d.push('s')),
{
    let ds = d.push('s');
    assert(is_digit(d[0]));
    assert(is_digit(d[d.len() - 1]));
    assert(ds[0] == d[0]);
    lemma_trim_no_ws_ends(d);
    lemma_trim_no_ws_ends(ds);
    assert(!d.contains(':')) by {
        if d.contains(':') {
            let j = choose|j: int| 0 <= j < d.len() && d[j] == ':';
            assert(is_digit(d[j]));
        }
    }
    assert(!ds.contains(':')) by {
        if ds.contains(':') {
            let j = choose|j: int| 0 <= j < ds.len() && ds[j] == ':';
            if j < d.len() {
                assert(ds[j] == d[j]);
                assert(is_digit(d[j]));
            }
        }
    }
    assert(ds.drop_last() =~= d);
}

} // verus!

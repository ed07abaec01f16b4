//! Character-level string primitives: the model that every parser of the
//! library is specified against, and executable counterparts proved to agree
//! with it.
use vstd::prelude::*;
use vstd::string::*;

verus! {

// ---------------------------------------------------------------------------
// Character classes
// ---------------------------------------------------------------------------

/// The Unicode `White_Space` property, which `char::is_whitespace` and
/// `str::trim` go by.
pub open spec fn is_ws(c: char) -> bool {
    let n = c as u32;
    ||| (9 <= n && n <= 13)
    ||| n == 32
    ||| n == 0x85
    ||| n == 0xa0
    ||| n == 0x1680
    ||| (0x2000 <= n && n <= 0x200a)
    ||| n == 0x2028
    ||| n == 0x2029
    ||| n == 0x202f
    ||| n == 0x205f
    ||| n == 0x3000
}

/// An ASCII decimal digit.
pub open spec fn is_digit(c: char) -> bool {
    '0' as u32 <= c as u32 && c as u32 <= '9' as u32
}

/// The value of an ASCII decimal digit.
pub open spec fn digit_val(c: char) -> int {
    c as u32 - '0' as u32
}

/// `char::is_ascii_alphanumeric`.
pub open spec fn is_ascii_alnum(c: char) -> bool {
    let n = c as u32;
    ||| ('0' as u32 <= n && n <= '9' as u32)
    ||| ('a' as u32 <= n && n <= 'z' as u32)
    ||| ('A' as u32 <= n && n <= 'Z' as u32)
}

/// Every character of `s` is an ASCII digit (true of the empty sequence).
pub open spec fn all_digits(s: Seq<char>) -> bool {
    forall|i: int| 0 <= i < s.len() ==> #[trigger] is_digit(s[i])
}

pub fn char_is_ws(c: char) -> (b: bool)
    ensures
        b == is_ws(c),
{
    let n = c as u32;
    (9 <= n && n <= 13) || n == 32 || n == 0x85 || n == 0xa0 || n == 0x1680 || (0x2000 <= n && n
        <= 0x200a) || n == 0x2028 || n == 0x2029 || n == 0x202f || n == 0x205f || n == 0x3000
}

pub fn char_is_digit(c: char) -> (b: bool)
    ensures
        b == is_digit(c),
{
    '0' as u32 <= c as u32 && c as u32 <= '9' as u32
}

pub fn char_is_ascii_alnum(c: char) -> (b: bool)
    ensures
        b == is_ascii_alnum(c),
{
    let n = c as u32;
    ('0' as u32 <= n && n <= '9' as u32) || ('a' as u32 <= n && n <= 'z' as u32) || ('A' as u32
        <= n && n <= 'Z' as u32)
}

// ---------------------------------------------------------------------------
// Conversions between strings and character vectors
// ---------------------------------------------------------------------------

/// `String::push`: appends one character at the end of the string.
#[verifier::external_body]
fn push_char(s: &mut String, c: char)
    ensures
        final(s)@ == old(s)@.push(c),
{
    s.push(c);
}

/// The characters of `s`, in order.
pub fn chars_of(s: &str) -> (v: Vec<char>)
    ensures
        v@ == s@,
{
    let n = s.unicode_len();
    let mut v: Vec<char> = Vec::new();
    let mut i: usize = 0;
    while i < n
        invariant
            i <= n,
            n == s@.len(),
            v@ == s@.subrange(0, i as int),
        decreases n - i,
    {
        v.push(s.get_char(i));
        i += 1;
    }
    assert(v@ =~= s@);
    v
}

/// The string made of `v[lo..hi]`.
pub fn string_of(v: &Vec<char>, lo: usize, hi: usize) -> (s: String)
    requires
        lo <= hi <= v.len(),
    ensures
        s@ == v@.subrange(lo as int, hi as int),
{
    let mut s = String::new();
    let mut i = lo;
    while i < hi
        invariant
            lo <= i <= hi,
            hi <= v.len(),
            s@ == v@.subrange(lo as int, i as int),
        decreases hi - i,
    {
        push_char(&mut s, v[i]);
        assert(v@.subrange(lo as int, i + 1) =~= v@.subrange(lo as int, i as int).push(v@[i as int]));
        i += 1;
    }
    s
}

/// The string made of all of `v`.
pub fn string_of_all(v: &Vec<char>) -> (s: String)
    ensures
        s@ == v@,
{
    let s = string_of(v, 0, v.len());
    assert(v@.subrange(0, v@.len() as int) =~= v@);
    s
}

/// The vector made of `v[lo..hi]`.
pub fn subvec(v: &Vec<char>, lo: usize, hi: usize) -> (r: Vec<char>)
    requires
        lo <= hi <= v.len(),
    ensures
        r@ == v@.subrange(lo as int, hi as int),
{
    let mut r: Vec<char> = Vec::new();
    let mut i = lo;
    while i < hi
        invariant
            lo <= i <= hi,
            hi <= v.len(),
            r@ == v@.subrange(lo as int, i as int),
        decreases hi - i,
    {
        r.push(v[i]);
        assert(v@.subrange(lo as int, i + 1) =~= v@.subrange(lo as int, i as int).push(v@[i as int]));
        i += 1;
    }
    r
}

/// Concatenation of two character vectors.
pub fn concat_chars(a: &Vec<char>, b: &Vec<char>) -> (r: Vec<char>)
    ensures
        r@ == a@ + b@,
{
    let mut r: Vec<char> = Vec::new();
    let mut i: usize = 0;
    while i < a.len()
        invariant
            i <= a.len(),
            r@ == a@.subrange(0, i as int),
        decreases a.len() - i,
    {
        r.push(a[i]);
        assert(a@.subrange(0, i + 1) =~= a@.subrange(0, i as int).push(a@[i as int]));
        i += 1;
    }
    let mut j: usize = 0;
    while j < b.len()
        invariant
            j <= b.len(),
            i == a.len(),
            r@ == a@ + b@.subrange(0, j as int),
        decreases b.len() - j,
    {
        r.push(b[j]);
        assert(b@.subrange(0, j + 1) =~= b@.subrange(0, j as int).push(b@[j as int]));
        assert(a@ + b@.subrange(0, j + 1) =~= (a@ + b@.subrange(0, j as int)).push(b@[j as int]));
        j += 1;
    }
    assert(b@.subrange(0, b@.len() as int) =~= b@);
    r
}

// ---------------------------------------------------------------------------
// trim
// ---------------------------------------------------------------------------

/// Index of the first non-whitespace character at or after `i` (or the length).
pub open spec fn skip_ws_from(s: Seq<char>, i: nat) -> nat
    decreases s.len() + 1 - i,
{
    if i >= s.len() {
        s.len()
    } else if !is_ws(s[i as int]) {
        i
    } else {
        skip_ws_from(s, i + 1)
    }
}

/// One past the last non-whitespace character before `j` (or 0).
pub open spec fn trim_end_at(s: Seq<char>, j: nat) -> nat
    decreases j,
{
    if j == 0 {
        0
    } else if !is_ws(s[j - 1]) {
        j
    } else {
        trim_end_at(s, (j - 1) as nat)
    }
}

/// `str::trim`: `s` without leading and trailing whitespace.
pub open spec fn trim(s: Seq<char>) -> Seq<char> {
    let lo = skip_ws_from(s, 0);
    let hi = trim_end_at(s, s.len());
    if hi <= lo {
        Seq::empty()
    } else {
        s.subrange(lo as int, hi as int)
    }
}

pub proof fn lemma_trim_end_at_bound(s: Seq<char>, j: nat)
    ensures
        trim_end_at(s, j) <= j,
    decreases j,
{
    if j > 0 && is_ws(s[j - 1]) {
        lemma_trim_end_at_bound(s, (j - 1) as nat);
    }
}

pub proof fn lemma_skip_ws_bound(s: Seq<char>, i: nat)
    requires
        i <= s.len(),
    ensures
        i <= skip_ws_from(s, i) <= s.len(),
    decreases s.len() + 1 - i,
{
    if i < s.len() && is_ws(s[i as int]) {
        lemma_skip_ws_bound(s, i + 1);
    }
}

/// A string that neither starts nor ends with whitespace is its own trim.
pub proof fn lemma_trim_no_ws_ends(s: Seq<char>)
    requires
        s.len() > 0,
        !is_ws(s[0]),
        !is_ws(s[s.len() - 1]),
    ensures
        trim(s) == s,
{
    assert(skip_ws_from(s, 0) == 0);
    assert(trim_end_at(s, s.len()) == s.len());
    assert(s.subrange(0, s.len() as int) =~= s);
}

/// The characters of `s`, trimmed.
pub fn trimmed_chars(s: &str) -> (t: Vec<char>)
    ensures
        t@ == trim(s@),
{
    let v = chars_of(s);
    let n = v.len();
    let mut lo: usize = 0;
    while lo < n
        invariant
            lo <= n,
            n == v@.len(),
            skip_ws_from(v@, 0) == skip_ws_from(v@, lo as nat),
        ensures
            lo <= n,
            skip_ws_from(v@, 0) == lo,
        decreases n - lo,
    {
        if !char_is_ws(v[lo]) {
            break;
        }
        lo += 1;
    }
    let mut hi: usize = n;
    while hi > 0
        invariant
            hi <= n,
            n == v@.len(),
            trim_end_at(v@, n as nat) == trim_end_at(v@, hi as nat),
        ensures
            hi <= n,
            trim_end_at(v@, n as nat) == hi,
        decreases hi,
    {
        if !char_is_ws(v[hi - 1]) {
            break;
        }
        hi -= 1;
    }
    if hi <= lo {
        let e: Vec<char> = Vec::new();
        assert(e@ =~= trim(s@));
        e
    } else {
        subvec(&v, lo, hi)
    }
}

// ---------------------------------------------------------------------------
// Searching
// ---------------------------------------------------------------------------

/// `p` occurs in `s` at index `i`.
pub open spec fn occurs_at(s: Seq<char>, p: Seq<char>, i: int) -> bool {
    0 <= i && i + p.len() <= s.len() && s.subrange(i, i + p.len()) == p
}

/// The first index at or after `i` at which `p` occurs in `s`.
pub open spec fn find_from(s: Seq<char>, p: Seq<char>, i: nat) -> Option<nat>
    decreases s.len() + 1 - i,
{
    if i + p.len() > s.len() {
        None
    } else if s.subrange(i as int, (i + p.len()) as int) == p {
        Some(i)
    } else {
        find_from(s, p, i + 1)
    }
}

/// `str::find`: the first index at which `p` occurs in `s`.
pub open spec fn find(s: Seq<char>, p: Seq<char>) -> Option<nat> {
    find_from(s, p, 0)
}

/// `str::starts_with`.
pub open spec fn starts_with(s: Seq<char>, p: Seq<char>) -> bool {
    p.len() <= s.len() && s.subrange(0, p.len() as int) == p
}

/// The first index at or after `i` whose character is one of `ds` (or the length).
pub open spec fn index_of_any_from(s: Seq<char>, ds: Seq<char>, i: nat) -> nat
    decreases s.len() + 1 - i,
{
    if i >= s.len() {
        s.len()
    } else if ds.contains(s[i as int]) {
        i
    } else {
        index_of_any_from(s, ds, i + 1)
    }
}

/// The part of `s` before its first character from `ds`: the first piece
/// that `str::split` yields for that set of delimiters.
pub open spec fn prefix_before_any(s: Seq<char>, ds: Seq<char>) -> Seq<char> {
    s.subrange(0, index_of_any_from(s, ds, 0) as int)
}

/// The part of `s` after its first `c`, if it has one: `split_once(c).1`.
pub open spec fn after_char(s: Seq<char>, c: char) -> Option<Seq<char>> {
    let j = index_of_any_from(s, seq![c], 0);
    if j < s.len() {
        Some(s.subrange((j + 1) as int, s.len() as int))
    } else {
        None
    }
}

pub proof fn lemma_index_of_any_bound(s: Seq<char>, ds: Seq<char>, i: nat)
    requires
        i <= s.len(),
    ensures
        i <= index_of_any_from(s, ds, i) <= s.len(),
        index_of_any_from(s, ds, i) < s.len() ==> ds.contains(
            s[index_of_any_from(s, ds, i) as int],
        ),
        forall|k: int| i <= k < index_of_any_from(s, ds, i) ==> !ds.contains(#[trigger] s[k]),
    decreases s.len() + 1 - i,
{
    if i < s.len() && !ds.contains(s[i as int]) {
        lemma_index_of_any_bound(s, ds, i + 1);
    }
}

pub proof fn lemma_find_from_bound(s: Seq<char>, p: Seq<char>, i: nat)
    ensures
        find_from(s, p, i) matches Some(k) ==> i <= k && k + p.len() <= s.len() && s.subrange(
            k as int,
            (k + p.len()) as int,
        ) == p,
    decreases s.len() + 1 - i,
{
    if i + p.len() <= s.len() && s.subrange(i as int, (i + p.len()) as int) != p {
        lemma_find_from_bound(s, p, i + 1);
    }
}

/// Whether `p` occurs in `v` at index `i`.
pub fn occurs_at_exec(v: &Vec<char>, p: &Vec<char>, i: usize) -> (b: bool)
    requires
        i + p.len() <= v.len(),
    ensures
        b == (v@.subrange(i as int, i + p@.len()) == p@),
{
    let mut k: usize = 0;
    while k < p.len()
        invariant
            k <= p.len(),
            i + p.len() <= v.len(),
            forall|j: int| 0 <= j < k ==> v@[i + j] == p@[j],
        decreases p.len() - k,
    {
        if v[i + k] != p[k] {
            assert(v@.subrange(i as int, i + p@.len())[k as int] != p@[k as int]);
            return false;
        }
        k += 1;
    }
    assert(v@.subrange(i as int, i + p@.len()) =~= p@);
    true
}

/// The first index at or after `start` at which `p` occurs in `v`.
pub fn find_from_exec(v: &Vec<char>, p: &Vec<char>, start: usize) -> (r: Option<usize>)
    requires
        start <= v.len(),
    ensures
        r matches Some(k) ==> find_from(v@, p@, start as nat) == Some(k as nat),
        r is None ==> find_from(v@, p@, start as nat) is None,
{
    if p.len() > v.len() {
        return None;
    }
    let last = v.len() - p.len();
    let mut i = start;
    while i <= last
        invariant
            start <= i,
            last + p.len() == v.len(),
            find_from(v@, p@, start as nat) == find_from(v@, p@, i as nat),
        decreases last + 1 - i,
    {
        if occurs_at_exec(v, p, i) {
            return Some(i);
        }
        if i == last {
            assert(find_from(v@, p@, i as nat) == find_from(v@, p@, (i + 1) as nat));
            assert(find_from(v@, p@, (i + 1) as nat) is None);
            return None;
        }
        i += 1;
    }
    None
}

/// Whether `p` occurs anywhere in `v`.
pub fn contains_exec(v: &Vec<char>, p: &Vec<char>) -> (b: bool)
    ensures
        b == find(v@, p@) is Some,
{
    find_from_exec(v, p, 0).is_some()
}

/// The first index at or after `start` whose character is one of `ds`.
pub fn index_of_any_exec(v: &Vec<char>, ds: &Vec<char>, start: usize) -> (r: usize)
    requires
        start <= v.len(),
    ensures
        r == index_of_any_from(v@, ds@, start as nat),
        start <= r <= v.len(),
{
    let mut i = start;
    while i < v.len()
        invariant
            start <= i <= v.len(),
            index_of_any_from(v@, ds@, start as nat) == index_of_any_from(v@, ds@, i as nat),
        ensures
            start <= i <= v.len(),
            index_of_any_from(v@, ds@, start as nat) == i,
        decreases v.len() - i,
    {
        let c = v[i];
        let mut found = false;
        let mut k: usize = 0;
        while k < ds.len()
            invariant
                k <= ds.len(),
                found == (exists|j: int| 0 <= j < k && ds@[j] == c),
            decreases ds.len() - k,
        {
            if ds[k] == c {
                found = true;
            }
            k += 1;
        }
        if found {
            assert(ds@.contains(c));
            break;
        }
        assert(!ds@.contains(c));
        i += 1;
    }
    i
}

/// Whether `v` starts with `p`.
pub fn starts_with_exec(v: &Vec<char>, p: &Vec<char>) -> (b: bool)
    ensures
        b == starts_with(v@, p@),
{
    if p.len() > v.len() {
        false
    } else {
        occurs_at_exec(v, p, 0)
    }
}

/// Whether `c` occurs in `v`.
pub fn contains_char_exec(v: &Vec<char>, c: char) -> (b: bool)
    ensures
        b == v@.contains(c),
{
    let mut i: usize = 0;
    while i < v.len()
        invariant
            i <= v.len(),
            forall|j: int| 0 <= j < i ==> v@[j] != c,
        decreases v.len() - i,
    {
        if v[i] == c {
            return true;
        }
        i += 1;
    }
    false
}

/// Whether every character of `v[lo..hi]` is an ASCII digit.
pub fn all_digits_exec(v: &Vec<char>, lo: usize, hi: usize) -> (b: bool)
    requires
        lo <= hi <= v.len(),
    ensures
        b == all_digits(v@.subrange(lo as int, hi as int)),
{
    let mut i = lo;
    while i < hi
        invariant
            lo <= i <= hi,
            hi <= v.len(),
            forall|j: int| lo <= j < i ==> is_digit(v@[j]),
        decreases hi - i,
    {
        if !char_is_digit(v[i]) {
            assert(!is_digit(v@.subrange(lo as int, hi as int)[i - lo]));
            return false;
        }
        i += 1;
    }
    assert forall|j: int| 0 <= j < hi - lo implies #[trigger] is_digit(
        v@.subrange(lo as int, hi as int)[j],
    ) by {
        assert(v@.subrange(lo as int, hi as int)[j] == v@[lo + j]);
    }
    true
}

// ---------------------------------------------------------------------------
// Decimal numbers
// ---------------------------------------------------------------------------

/// The value of a string of decimal digits.
pub open spec fn digits_value(s: Seq<char>) -> int
    decreases s.len(),
{
    if s.len() == 0 {
        0
    } else {
        10 * digits_value(s.drop_last()) + digit_val(s.last())
    }
}

/// `<u64 as FromStr>::from_str`: an optional `+`, then one or more ASCII
/// digits whose value fits in a `u64`.
pub open spec fn parse_u64(s: Seq<char>) -> Option<int> {
    let body = if s.len() > 0 && s[0] == '+' {
        s.drop_first()
    } else {
        s
    };
    if body.len() > 0 && all_digits(body) && digits_value(body) <= u64::MAX {
        Some(digits_value(body))
    } else {
        None
    }
}

pub proof fn lemma_digits_value_nonneg(s: Seq<char>)
    requires
        all_digits(s),
    ensures
        digits_value(s) >= 0,
    decreases s.len(),
{
    if s.len() > 0 {
        assert(is_digit(s[s.len() - 1]));
        assert(all_digits(s.drop_last())) by {
            assert forall|i: int| 0 <= i < s.drop_last().len() implies #[trigger] is_digit(
                s.drop_last()[i],
            ) by {
                assert(is_digit(s[i]));
            }
        }
        lemma_digits_value_nonneg(s.drop_last());
    }
}

/// The value of a prefix of a digit string is at most the value of the whole.
pub proof fn lemma_digits_value_prefix(s: Seq<char>, k: int)
    requires
        all_digits(s),
        0 <= k <= s.len(),
    ensures
        digits_value(s.subrange(0, k)) <= digits_value(s),
    decreases s.len(),
{
    if k < s.len() {
        let d = s.drop_last();
        assert(all_digits(d)) by {
            assert forall|i: int| 0 <= i < d.len() implies #[trigger] is_digit(d[i]) by {
                assert(is_digit(s[i]));
            }
        }
        assert(d.subrange(0, k) =~= s.subrange(0, k));
        lemma_digits_value_prefix(d, k);
        lemma_digits_value_nonneg(d);
        assert(is_digit(s[s.len() - 1]));
    } else {
        assert(s.subrange(0, k) =~= s);
    }
}

/// `<u64 as FromStr>::from_str` on `v[lo..hi]`.
pub fn parse_u64_exec(v: &Vec<char>, lo: usize, hi: usize) -> (r: Option<u64>)
    requires
        lo <= hi <= v.len(),
    ensures
        r matches Some(n) ==> parse_u64(v@.subrange(lo as int, hi as int)) == Some(n as int),
        r is None ==> parse_u64(v@.subrange(lo as int, hi as int)) is None,
{
    let ghost s = v@.subrange(lo as int, hi as int);
    let mut start = lo;
    if lo < hi && v[lo] == '+' {
        start = lo + 1;
    }
    let ghost body = v@.subrange(start as int, hi as int);
    assert(body == (if s.len() > 0 && s[0] == '+' {
        s.drop_first()
    } else {
        s
    })) by {
        if lo < hi && v@[lo as int] == '+' {
            assert(body =~= s.drop_first());
        } else {
            assert(body =~= s);
        }
    }
    if start == hi {
        return None;
    }
    if !all_digits_exec(v, start, hi) {
        return None;
    }
    let mut acc: u64 = 0;
    let mut i = start;
    while i < hi
        invariant
            start <= i <= hi,
            hi <= v.len(),
            body == v@.subrange(start as int, hi as int),
            s == v@.subrange(lo as int, hi as int),
            body == (if s.len() > 0 && s[0] == '+' {
                s.drop_first()
            } else {
                s
            }),
            all_digits(body),
            acc as int == digits_value(v@.subrange(start as int, i as int)),
        decreases hi - i,
    {
        let ghost pre = v@.subrange(start as int, i as int);
        let ghost next = v@.subrange(start as int, i + 1);
        assert(next.drop_last() =~= pre);
        assert(is_digit(body[i - start]));
        assert(body[i - start] == v@[i as int]);
        let d = (v[i] as u32 - '0' as u32) as u64;
        assert(digits_value(next) == 10 * digits_value(pre) + d);
        proof {
            assert(body.subrange(0, i + 1 - start) =~= next);
            lemma_digits_value_prefix(body, i + 1 - start);
        }
        if acc > 1844674407370955161 || (acc == 1844674407370955161 && d > 5) {
            // the value of the whole exceeds u64::MAX
            assert(digits_value(next) > u64::MAX);
            assert(digits_value(body) > u64::MAX);
            assert(parse_u64(s) is None);
            return None;
        }
        acc = acc * 10 + d;
        i += 1;
    }
    assert(v@.subrange(start as int, hi as int) =~= body);
    Some(acc)
}

/// The first non-whitespace index from `i` is whitespace-free, and all
/// before it from `i` are whitespace.
pub proof fn lemma_skip_ws_stops(s: Seq<char>, i: nat)
    requires
        i <= s.len(),
    ensures
        skip_ws_from(s, i) < s.len() ==> !is_ws(s[skip_ws_from(s, i) as int]),
    decreases s.len() + 1 - i,
{
    if i < s.len() && is_ws(s[i as int]) {
        lemma_skip_ws_stops(s, i + 1);
    }
}

pub proof fn lemma_trim_end_stops(s: Seq<char>, j: nat)
    requires
        j <= s.len(),
    ensures
        trim_end_at(s, j) > 0 ==> !is_ws(s[trim_end_at(s, j) - 1]),
    decreases j,
{
    if j > 0 && is_ws(s[j - 1]) {
        lemma_trim_end_stops(s, (j - 1) as nat);
    }
}

/// A non-empty trimmed string starts and ends with non-whitespace.
pub proof fn lemma_trim_ends(s: Seq<char>)
    ensures
        trim(s).len() > 0 ==> !is_ws(trim(s)[0]) && !is_ws(trim(s)[trim(s).len() - 1]),
        trim(s).len() <= s.len(),
{
    let lo = skip_ws_from(s, 0);
    let hi = trim_end_at(s, s.len());
    lemma_skip_ws_bound(s, 0);
    lemma_trim_end_at_bound(s, s.len());
    lemma_skip_ws_stops(s, 0);
    lemma_trim_end_stops(s, s.len());
    if hi > lo {
        assert(trim(s)[0] == s[lo as int]);
        assert(trim(s)[trim(s).len() - 1] == s[hi - 1]);
    }
}

/// Trimming twice is trimming once.
pub proof fn lemma_trim_idempotent(s: Seq<char>)
    ensures
        trim(trim(s)) == trim(s),
{
    lemma_trim_ends(s);
    let t = trim(s);
    if t.len() > 0 {
        lemma_trim_no_ws_ends(t);
    } else {
        assert(skip_ws_from(t, 0) == 0);
        assert(trim_end_at(t, 0) == 0);
        assert(trim(t) =~= t);
    }
}

/// `p` occurs in `s` as a contiguous run of characters.
pub open spec fn occurs_in(s: Seq<char>, p: Seq<char>) -> bool {
    exists|k: int, e: int| 0 <= k <= e <= s.len() && #[trigger] s.subrange(k, e) == p
}

/// A sequence occurs in itself.
pub proof fn lemma_occurs_whole(s: Seq<char>)
    ensures
        occurs_in(s, s),
{
    assert(s.subrange(0, s.len() as int) =~= s);
}

/// What occurs in a part of `u` occurs in `u`.
pub proof fn lemma_occurs_sub(u: Seq<char>, c: int, d: int, p: Seq<char>)
    requires
        0 <= c <= d <= u.len(),
        occurs_in(u.subrange(c, d), p),
    ensures
        occurs_in(u, p),
{
    let v = u.subrange(c, d);
    let (k, e) = choose|k: int, e: int| 0 <= k <= e <= v.len() && #[trigger] v.subrange(k, e) == p;
    assert(u.subrange(c + k, c + e) =~= v.subrange(k, e));
}

/// Some character of `p`, put at index `j` of `q`, disagrees with `q`
/// (within `q`).
pub open spec fn mismatch_at(q: Seq<char>, p: Seq<char>, j: int) -> bool {
    exists|i: int| 0 <= i < p.len() && j + i < q.len() && #[trigger] p[i] != q[j + i]
}

/// No occurrence of `p` starts at an index of `q`, even one that runs past
/// its end.
pub open spec fn starts_nowhere_in(q: Seq<char>, p: Seq<char>) -> bool {
    forall|j: int| 0 <= j < q.len() ==> #[trigger] mismatch_at(q, p, j)
}

/// Some character of `p` from index `j` on disagrees with `q` when `p[j..]`
/// is laid over the start of `q`.
pub open spec fn overlap_mismatch(p: Seq<char>, q: Seq<char>, j: int) -> bool {
    exists|i: int| j <= i < p.len() && i - j < q.len() && #[trigger] p[i] != q[i - j]
}

/// No occurrence of `p` that starts before `q` runs into it.
pub open spec fn runs_into_nowhere(p: Seq<char>, q: Seq<char>) -> bool {
    forall|j: int| 1 <= j < p.len() ==> #[trigger] overlap_mismatch(p, q, j)
}

/// No occurrence of `p` in `x + q + y` starts before `q`.
pub proof fn lemma_none_before(x: Seq<char>, q: Seq<char>, y: Seq<char>, p: Seq<char>, k: int)
    requires
        !occurs_in(x, p),
        runs_into_nowhere(p, q),
        0 <= k < x.len(),
    ensures
        !occurs_at(x + q + y, p, k),
{
    let s = x + q + y;
    let e = k + p.len();
    if occurs_at(s, p, k) {
        if e <= x.len() {
            assert(x.subrange(k, e) =~= s.subrange(k, e));
            assert(occurs_in(x, p));
        } else {
            let j = x.len() - k;
            assert(overlap_mismatch(p, q, j));
            let i = choose|i: int| j <= i < p.len() && i - j < q.len() && #[trigger] p[i] != q[i - j];
            assert(p[i] == s.subrange(k, e)[i]);
            assert(s[k + i] == q[i - j]);
        }
    }
}

/// No occurrence of `p` in `x + q + y` starts inside `q`.
pub proof fn lemma_none_inside(x: Seq<char>, q: Seq<char>, y: Seq<char>, p: Seq<char>, k: int)
    requires
        starts_nowhere_in(q, p),
        x.len() <= k < x.len() + q.len(),
    ensures
        !occurs_at(x + q + y, p, k),
{
    let s = x + q + y;
    let e = k + p.len();
    if occurs_at(s, p, k) {
        let j = k - x.len();
        assert(mismatch_at(q, p, j));
        let i = choose|i: int| 0 <= i < p.len() && j + i < q.len() && #[trigger] p[i] != q[j + i];
        assert(p[i] == s.subrange(k, e)[i]);
        assert(s[k + i] == q[j + i]);
    }
}

/// `p` occurs in `x + q + y` only where it occurs in `x` or in `y`, when it
/// can neither start inside `q` nor run into it from before.
pub proof fn lemma_no_occurrence_across(x: Seq<char>, q: Seq<char>, y: Seq<char>, p: Seq<char>)
    requires
        !occurs_in(x, p),
        !occurs_in(y, p),
        starts_nowhere_in(q, p),
        runs_into_nowhere(p, q),
    ensures
        !occurs_in(x + q + y, p),
{
    let s = x + q + y;
    if occurs_in(s, p) {
        let (k, e) = choose|k: int, e: int| 0 <= k <= e <= s.len() && #[trigger] s.subrange(k, e) == p;
        assert(s.subrange(k, e).len() == p.len());
        assert(occurs_at(s, p, k));
        if k < x.len() {
            lemma_none_before(x, q, y, p, k);
        } else if k < x.len() + q.len() {
            lemma_none_inside(x, q, y, p, k);
        } else {
            let o = x.len() + q.len();
            assert(y.subrange(k - o, e - o) =~= s.subrange(k, e));
            assert(occurs_in(y, p));
        }
    }
}

/// `p` is found in `s` exactly when it occurs in `s`.
pub proof fn lemma_find_iff_occurs(s: Seq<char>, p: Seq<char>)
    ensures
        find(s, p) is Some <==> occurs_in(s, p),
{
    lemma_find_from_bound(s, p, 0);
    if let Some(k) = find(s, p) {
        assert(s.subrange(k as int, (k + p.len()) as int) == p);
    }
    if occurs_in(s, p) {
        let (k, e) = choose|k: int, e: int| 0 <= k <= e <= s.len() && #[trigger] s.subrange(k, e) == p;
        assert(s.subrange(k, e).len() == p.len());
        lemma_find_when_occurs(s, p, 0, k as nat);
    }
}

/// `p` is not found in `s` when it does not occur there.
pub proof fn lemma_find_none(s: Seq<char>, p: Seq<char>)
    requires
        !occurs_in(s, p),
    ensures
        find(s, p) is None,
{
    lemma_find_from_bound(s, p, 0);
    if let Some(k) = find(s, p) {
        assert(s.subrange(k as int, (k + p.len()) as int) == p);
        assert(occurs_in(s, p));
    }
}

/// `p` is found from `i` at `k` when it occurs at `k` and at no index from
/// `i` up to `k`.
pub proof fn lemma_find_first(s: Seq<char>, p: Seq<char>, i: nat, k: nat)
    requires
        i <= k,
        occurs_at(s, p, k as int),
        forall|j: int| i <= j < k ==> !#[trigger] occurs_at(s, p, j),
    ensures
        find_from(s, p, i) == Some(k),
    decreases k - i,
{
    if i < k {
        assert(!occurs_at(s, p, i as int));
        lemma_find_first(s, p, i + 1, k);
    }
}

/// Where `p` is found from `i`, it occurs, and at no index before that.
pub proof fn lemma_find_is_first(s: Seq<char>, p: Seq<char>, i: nat)
    ensures
        find_from(s, p, i) matches Some(k) ==> occurs_at(s, p, k as int) && forall|j: int|
            i <= j < k ==> !#[trigger] occurs_at(s, p, j),
    decreases s.len() + 1 - i,
{
    if i + p.len() <= s.len() && s.subrange(i as int, (i + p.len()) as int) != p {
        lemma_find_is_first(s, p, i + 1);
    }
}

/// `p` is found from `i` on when it occurs at some `k >= i`.
pub proof fn lemma_find_when_occurs(s: Seq<char>, p: Seq<char>, i: nat, k: nat)
    requires
        i <= k,
        k + p.len() <= s.len(),
        s.subrange(k as int, (k + p.len()) as int) == p,
    ensures
        find_from(s, p, i) is Some,
    decreases k - i,
{
    if i < k && s.subrange(i as int, (i + p.len()) as int) != p {
        lemma_find_when_occurs(s, p, i + 1, k);
    }
}

/// `p` (non-empty) is found at `k` when its first character does not occur
/// from `i` up to `k` and `p` occurs at `k`.
pub proof fn lemma_find_first_at(s: Seq<char>, p: Seq<char>, i: nat, k: nat)
    requires
        p.len() > 0,
        i <= k,
        k + p.len() <= s.len(),
        s.subrange(k as int, (k + p.len()) as int) == p,
        forall|j: int| i <= j < k ==> #[trigger] s[j] != p[0],
    ensures
        find_from(s, p, i) == Some(k),
    decreases k - i,
{
    if i < k {
        assert(s.subrange(i as int, (i + p.len()) as int)[0] == s[i as int]);
        lemma_find_first_at(s, p, i + 1, k);
    }
}

/// `p` (of length two) is not found from `i` on when no occurrence of its
/// first character is followed by its second.
pub proof fn lemma_find_pair_absent(s: Seq<char>, p: Seq<char>, i: nat)
    requires
        p.len() == 2,
        forall|j: int| i <= j && j + 1 < s.len() && #[trigger] s[j] == p[0] ==> s[j + 1] != p[1],
    ensures
        find_from(s, p, i) is None,
    decreases s.len() + 1 - i,
{
    if i + 2 <= s.len() {
        if s.subrange(i as int, (i + 2) as int) == p {
            assert(s.subrange(i as int, (i + 2) as int)[0] == s[i as int]);
            assert(s.subrange(i as int, (i + 2) as int)[1] == s[(i + 1) as int]);
        }
        lemma_find_pair_absent(s, p, i + 1);
    }
}

/// No character of `ds` occurs in `s`: the first delimiter is at the end.
pub proof fn lemma_index_of_any_absent(s: Seq<char>, ds: Seq<char>, i: nat)
    requires
        i <= s.len(),
        forall|j: int| i <= j < s.len() ==> !ds.contains(#[trigger] s[j]),
    ensures
        index_of_any_from(s, ds, i) == s.len(),
    decreases s.len() + 1 - i,
{
    if i < s.len() {
        lemma_index_of_any_absent(s, ds, i + 1);
    }
}

/// The first character from `ds` at or after `i` is at `k` when none comes
/// before it.
pub proof fn lemma_index_of_any_at(s: Seq<char>, ds: Seq<char>, i: nat, k: nat)
    requires
        i <= k <= s.len(),
        forall|j: int| i <= j < k ==> !ds.contains(#[trigger] s[j]),
        k < s.len() ==> ds.contains(s[k as int]),
    ensures
        index_of_any_from(s, ds, i) == k,
    decreases k - i,
{
    if i < k {
        lemma_index_of_any_at(s, ds, i + 1, k);
    }
}

} // verus!

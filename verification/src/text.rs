//! Character-level text operations with exact specifications over
//! `Seq<char>`: trimming, searching, splitting, replacing, and the decimal
//! rendering and parsing of unsigned integers.

use vstd::prelude::*;
use vstd::string::*;

verus! {

// ---------------------------------------------------------------------
// Specifications
// ---------------------------------------------------------------------

/// The Unicode `White_Space` property, as `char::is_whitespace` tests it.
pub open spec fn is_white_space(c: char) -> bool {
    let u = c as u32;
    ||| 9 <= u <= 13
    ||| u == 32
    ||| u == 0x85
    ||| u == 0xa0
    ||| u == 0x1680
    ||| 0x2000 <= u <= 0x200a
    ||| u == 0x2028
    ||| u == 0x2029
    ||| u == 0x202f
    ||| u == 0x205f
    ||| u == 0x3000
}

/// The characters that a trim removes: white space, or one given character.
pub open spec fn trim_pred(ws: bool, ch: char) -> spec_fn(char) -> bool {
    |c: char| if ws { is_white_space(c) } else { c == ch }
}

/// `s` without its leading characters that satisfy `p`.
pub open spec fn drop_leading(s: Seq<char>, p: spec_fn(char) -> bool) -> Seq<char>
    decreases s.len(),
{
    if s.len() > 0 && p(s[0]) {
        drop_leading(s.drop_first(), p)
    } else {
        s
    }
}

/// `s` without its trailing characters that satisfy `p`.
pub open spec fn drop_trailing(s: Seq<char>, p: spec_fn(char) -> bool) -> Seq<char>
    decreases s.len(),
{
    if s.len() > 0 && p(s.last()) {
        drop_trailing(s.drop_last(), p)
    } else {
        s
    }
}

/// `s` without the characters satisfying `p` at either end.
pub open spec fn trim_by(s: Seq<char>, p: spec_fn(char) -> bool) -> Seq<char> {
    drop_trailing(drop_leading(s, p), p)
}

/// What `str::trim` returns.
pub open spec fn spec_trim(s: Seq<char>) -> Seq<char> {
    trim_by(s, trim_pred(true, ' '))
}

/// What `str::trim_matches(c)` returns for a single character `c`.
pub open spec fn spec_trim_char(s: Seq<char>, c: char) -> Seq<char> {
    trim_by(s, trim_pred(false, c))
}

/// `p` occurs in `s` at position `i`.
pub open spec fn occurs_at(s: Seq<char>, p: Seq<char>, i: int) -> bool {
    0 <= i && i + p.len() <= s.len() && s.subrange(i, i + p.len()) =~= p
}

/// The first position at or after `i` where `p` occurs in `s`.
pub open spec fn first_at_or_after(s: Seq<char>, p: Seq<char>, i: int) -> Option<int>
    decreases s.len() + 1 - i,
{
    if i < 0 || i + p.len() > s.len() {
        None
    } else if occurs_at(s, p, i) {
        Some(i)
    } else {
        first_at_or_after(s, p, i + 1)
    }
}

/// The first position where `p` occurs in `s`, as `str::find` returns it.
pub open spec fn spec_find(s: Seq<char>, p: Seq<char>) -> Option<int> {
    first_at_or_after(s, p, 0)
}

/// `p` occurs somewhere in `s`, as `str::contains` answers.
pub open spec fn spec_contains(s: Seq<char>, p: Seq<char>) -> bool {
    spec_find(s, p) is Some
}

/// `s` begins with `p`, as `str::starts_with` answers.
pub open spec fn spec_starts_with(s: Seq<char>, p: Seq<char>) -> bool {
    p.len() <= s.len() && s.subrange(0, p.len() as int) =~= p
}

/// The `n`-th piece (counting from 0) of the part of `s` from `off` on,
/// split at the non-overlapping occurrences of the non-empty `p`, as
/// `str::split(p).nth(n)` yields it.
pub open spec fn split_nth_from(s: Seq<char>, p: Seq<char>, off: int, n: nat) -> Option<Seq<char>>
    decreases n,
{
    match first_at_or_after(s, p, off) {
        Some(i) => if n == 0 {
            Some(s.subrange(off, i))
        } else {
            split_nth_from(s, p, i + p.len(), (n - 1) as nat)
        },
        None => if n == 0 {
            Some(s.subrange(off, s.len() as int))
        } else {
            None
        },
    }
}

/// What `s.split(p).nth(n)` yields, for a non-empty `p`.
pub open spec fn spec_split_nth(s: Seq<char>, p: Seq<char>, n: nat) -> Option<Seq<char>> {
    split_nth_from(s, p, 0, n)
}

/// The part of `s` from `off` on, with each non-overlapping occurrence of
/// the non-empty `from` replaced by `to`, scanning left to right.
pub open spec fn replace_from(s: Seq<char>, from: Seq<char>, to: Seq<char>, off: int) -> Seq<char>
    decreases s.len() + 1 - off,
{
    if from.len() == 0 || off < 0 || off > s.len() {
        s
    } else {
        match first_at_or_after(s, from, off) {
            Some(i) => {
                proof {
                    lemma_first_at_or_after(s, from, off);
                }
                s.subrange(off, i) + to + replace_from(s, from, to, i + from.len())
            },
            None => s.subrange(off, s.len() as int),
        }
    }
}

/// What `s.replace(from, to)` returns, for a non-empty `from`.
pub open spec fn spec_replace(s: Seq<char>, from: Seq<char>, to: Seq<char>) -> Seq<char> {
    replace_from(s, from, to, 0)
}

/// The ASCII decimal digits.
pub open spec fn digit_chars() -> Seq<char> {
    seq!['0', '1', '2', '3', '4', '5', '6', '7', '8', '9']
}

/// The shortest decimal rendering of `n`, as `to_string` gives it.
pub open spec fn decimal(n: nat) -> Seq<char>
    decreases n,
{
    if n < 10 {
        seq![digit_chars()[n as int]]
    } else {
        decimal(n / 10).push(digit_chars()[(n % 10) as int])
    }
}

/// `c` is an ASCII decimal digit.
pub open spec fn is_digit(c: char) -> bool {
    48 <= (c as u32) <= 57
}

/// The value of the ASCII digit `c`.
pub open spec fn digit_value(c: char) -> nat {
    ((c as u32) - 48) as nat
}

/// The value of a string of decimal digits.
pub open spec fn digits_value(s: Seq<char>) -> nat
    decreases s.len(),
{
    if s.len() == 0 {
        0
    } else {
        digits_value(s.drop_last()) * 10 + digit_value(s.last())
    }
}

/// The digits that an unsigned integer parse reads: an optional leading `+`
/// is dropped; an empty string, or a lone `+`, has none.
pub open spec fn unsigned_digits(s: Seq<char>) -> Option<Seq<char>> {
    if s.len() == 0 {
        None
    } else if s[0] == '+' {
        if s.len() == 1 {
            None
        } else {
            Some(s.drop_first())
        }
    } else {
        Some(s)
    }
}

/// What `str::parse` gives for an unsigned integer type whose largest
/// value is `max`: the value of the digits, if they are all digits and the
/// value fits; otherwise nothing.
pub open spec fn spec_parse_unsigned(s: Seq<char>, max: nat) -> Option<nat> {
    match unsigned_digits(s) {
        Some(d) => if (forall|i: int| 0 <= i < d.len() ==> is_digit(#[trigger] d[i]))
            && digits_value(d) <= max {
            Some(digits_value(d))
        } else {
            None
        },
        None => None,
    }
}

// ---------------------------------------------------------------------
// Lemmas
// ---------------------------------------------------------------------

/// A found position lies at or after the start, is an occurrence, and no
/// earlier position from the start is one.
pub proof fn lemma_first_at_or_after(s: Seq<char>, p: Seq<char>, i: int)
    requires
        0 <= i,
    ensures
        match first_at_or_after(s, p, i) {
            Some(j) => i <= j && occurs_at(s, p, j) && (forall|k: int|
                i <= k < j ==> !occurs_at(s, p, k)),
            None => forall|k: int| i <= k ==> !occurs_at(s, p, k),
        },
    decreases s.len() + 1 - i,
{
    if i + p.len() > s.len() {
    } else if occurs_at(s, p, i) {
    } else {
        lemma_first_at_or_after(s, p, i + 1);
    }
}

proof fn lemma_digits_value_prefix(d: Seq<char>, i: int)
    requires
        0 <= i < d.len(),
    ensures
        digits_value(d.take(i + 1)) == digits_value(d.take(i)) * 10 + digit_value(d[i]),
{
    assert(d.take(i + 1).drop_last() =~= d.take(i));
}

proof fn lemma_digits_value_grows(d: Seq<char>, i: int, j: int)
    requires
        0 <= i <= j <= d.len(),
    ensures
        digits_value(d.take(i)) <= digits_value(d.take(j)),
    decreases j - i,
{
    if i < j {
        lemma_digits_value_grows(d, i, j - 1);
        lemma_digits_value_prefix(d, j - 1);
    }
}

// ---------------------------------------------------------------------
// Laws
// ---------------------------------------------------------------------

proof fn lemma_drop_leading_shape(s: Seq<char>, p: spec_fn(char) -> bool)
    ensures
        drop_leading(s, p).len() <= s.len(),
        drop_leading(s, p) =~= s.subrange(s.len() - drop_leading(s, p).len(), s.len() as int),
        drop_leading(s, p).len() == 0 || !p(drop_leading(s, p)[0]),
    decreases s.len(),
{
    if s.len() > 0 && p(s[0]) {
        lemma_drop_leading_shape(s.drop_first(), p);
    }
}

proof fn lemma_drop_trailing_shape(s: Seq<char>, p: spec_fn(char) -> bool)
    ensures
        drop_trailing(s, p).len() <= s.len(),
        drop_trailing(s, p) =~= s.subrange(0, drop_trailing(s, p).len() as int),
        drop_trailing(s, p).len() == 0 || !p(drop_trailing(s, p).last()),
    decreases s.len(),
{
    if s.len() > 0 && p(s.last()) {
        lemma_drop_trailing_shape(s.drop_last(), p);
    }
}

/// Trimming twice is trimming once: a trimmed text neither starts nor ends
/// with a character that the trim removes.
pub proof fn law_trim_idempotent(s: Seq<char>, ws: bool, ch: char)
    ensures
        trim_by(trim_by(s, trim_pred(ws, ch)), trim_pred(ws, ch)) == trim_by(s, trim_pred(ws, ch)),
        trim_by(s, trim_pred(ws, ch)).len() > 0 ==> !trim_pred(ws, ch)(trim_by(s, trim_pred(ws, ch))[0])
            && !trim_pred(ws, ch)(trim_by(s, trim_pred(ws, ch)).last()),
{
    let p = trim_pred(ws, ch);
    let u = drop_leading(s, p);
    let t = drop_trailing(u, p);
    lemma_drop_leading_shape(s, p);
    lemma_drop_trailing_shape(u, p);
    if t.len() > 0 {
        assert(t[0] == u[0]);
    }
    assert(drop_leading(t, p) == t);
    assert(drop_trailing(t, p) == t);
}

proof fn lemma_digit_chars(k: int)
    requires
        0 <= k < 10,
    ensures
        is_digit(digit_chars()[k]),
        digit_value(digit_chars()[k]) == k,
{
    let d = digit_chars();
    assert(d[0] == '0' && d[1] == '1' && d[2] == '2' && d[3] == '3' && d[4] == '4' && d[5] == '5'
        && d[6] == '6' && d[7] == '7' && d[8] == '8' && d[9] == '9');
}

proof fn lemma_decimal_digits(n: nat)
    ensures
        decimal(n).len() > 0,
        forall|i: int| 0 <= i < decimal(n).len() ==> is_digit(#[trigger] decimal(n)[i]),
        digits_value(decimal(n)) == n,
    decreases n,
{
    if n < 10 {
        lemma_digit_chars(n as int);
        assert(decimal(n).drop_last() =~= Seq::<char>::empty());
        assert(digits_value(Seq::<char>::empty()) == 0);
        assert(decimal(n).last() == digit_chars()[n as int]);
        assert(digits_value(decimal(n)) == digits_value(decimal(n).drop_last()) * 10 + digit_value(
            decimal(n).last(),
        ));
    } else {
        lemma_decimal_digits(n / 10);
        lemma_digit_chars((n % 10) as int);
        assert(decimal(n).drop_last() =~= decimal(n / 10));
        assert(decimal(n).last() == digit_chars()[(n % 10) as int]);
        assert(digits_value(decimal(n)) == digits_value(decimal(n).drop_last()) * 10 + digit_value(
            decimal(n).last(),
        ));
        assert((n / 10) * 10 + n % 10 == n) by (nonlinear_arith);
    }
}

/// Parsing the decimal rendering of a number gives the number back.
pub proof fn law_parse_decimal(n: nat, max: nat)
    requires
        n <= max,
    ensures
        spec_parse_unsigned(decimal(n), max) == Some(n),
{
    lemma_decimal_digits(n);
    let d = decimal(n);
    assert(is_digit(d[0]));
    assert(unsigned_digits(d) == Some(d));
}

/// Different numbers have different decimal renderings.
pub proof fn law_decimal_injective(a: nat, b: nat)
    ensures
        decimal(a) == decimal(b) ==> a == b,
{
    lemma_decimal_digits(a);
    lemma_decimal_digits(b);
}

/// A text without the searched part is left unchanged by a replacement.
pub proof fn law_replace_absent(s: Seq<char>, from: Seq<char>, to: Seq<char>)
    requires
        from.len() > 0,
        !spec_contains(s, from),
    ensures
        spec_replace(s, from, to) == s,
{
    assert(s.subrange(0, s.len() as int) =~= s);
}

// ---------------------------------------------------------------------
// Executable operations
// ---------------------------------------------------------------------

/// Copies the characters of `s` into a vector.
pub fn chars_of(s: &str) -> (v: Vec<char>)
    ensures
        v@ == s@,
{
    let mut v: Vec<char> = Vec::new();
    for c in it: s.chars()
        invariant
            v@ == it.seq().take(it.index() as int),
            it.seq() == s@,
    {
        v.push(c);
    }
    v
}

/// Owned copy of the characters `from..to` of `s`.
pub fn substring(s: &str, from: usize, to: usize) -> (r: String)
    requires
        from <= to <= s@.len(),
    ensures
        r@ == s@.subrange(from as int, to as int),
{
    s.substring_char(from, to).to_owned()
}

/// Concatenation of two strings.
pub fn concatenate(a: &str, b: &str) -> (r: String)
    ensures
        r@ == a@ + b@,
{
    let mut r = a.to_owned();
    r.append(b);
    r
}

/// Whether `c` is white space in the sense of `char::is_whitespace`.
pub fn is_white_space_exec(c: char) -> (b: bool)
    ensures
        b == is_white_space(c),
{
    let u = c as u32;
    (9 <= u && u <= 13) || u == 32 || u == 0x85 || u == 0xa0 || u == 0x1680 || (0x2000 <= u && u
        <= 0x200a) || u == 0x2028 || u == 0x2029 || u == 0x202f || u == 0x205f || u == 0x3000
}

fn trim_pred_exec(ws: bool, ch: char, c: char) -> (b: bool)
    ensures
        b == trim_pred(ws, ch)(c),
{
    if ws {
        is_white_space_exec(c)
    } else {
        c == ch
    }
}

/// Bounds of the part of `v` left once a trim by `trim_pred(ws, ch)` has
/// removed characters from both ends.
fn trim_span(v: &Vec<char>, ws: bool, ch: char) -> (r: (usize, usize))
    ensures
        r.0 <= r.1 <= v@.len(),
        v@.subrange(r.0 as int, r.1 as int) == trim_by(v@, trim_pred(ws, ch)),
{
    let ghost p = trim_pred(ws, ch);
    let n = v.len();
    let mut i: usize = 0;
    assert(v@.subrange(0, n as int) =~= v@);
    while i < n && trim_pred_exec(ws, ch, v[i])
        invariant
            i <= n == v@.len(),
            p == trim_pred(ws, ch),
            drop_leading(v@, p) == drop_leading(v@.subrange(i as int, n as int), p),
        decreases n - i,
    {
        assert(v@.subrange(i as int, n as int).drop_first() =~= v@.subrange(i + 1, n as int));
        i = i + 1;
    }
    assert(drop_leading(v@.subrange(i as int, n as int), p) == v@.subrange(i as int, n as int));
    let mut j: usize = n;
    while j > i && trim_pred_exec(ws, ch, v[j - 1])
        invariant
            i <= j <= n == v@.len(),
            p == trim_pred(ws, ch),
            drop_trailing(v@.subrange(i as int, n as int), p) == drop_trailing(
                v@.subrange(i as int, j as int),
                p,
            ),
        decreases j - i,
    {
        assert(v@.subrange(i as int, j as int).drop_last() =~= v@.subrange(i as int, j - 1));
        j = j - 1;
    }
    (i, j)
}

/// `str::trim`: `s` without leading and trailing white space.
pub fn trim(s: &str) -> (r: String)
    ensures
        r@ == spec_trim(s@),
{
    let v = chars_of(s);
    let (i, j) = trim_span(&v, true, ' ');
    substring(s, i, j)
}

/// `str::trim_matches(c)`: `s` without leading and trailing copies of `c`.
pub fn trim_char(s: &str, c: char) -> (r: String)
    ensures
        r@ == spec_trim_char(s@, c),
{
    let v = chars_of(s);
    let (i, j) = trim_span(&v, false, c);
    substring(s, i, j)
}

/// Whether `p` occurs in `v` at position `i`.
fn occurs_at_exec(v: &Vec<char>, p: &Vec<char>, i: usize) -> (b: bool)
    requires
        i + p@.len() <= v@.len(),
    ensures
        b == occurs_at(v@, p@, i as int),
{
    let m = p.len();
    let n = v.len();
    let mut k: usize = 0;
    while k < m
        invariant
            k <= m == p@.len(),
            n == v@.len(),
            i + m <= n,
            forall|t: int| 0 <= t < k ==> v@[i + t] == p@[t],
        decreases m - k,
    {
        if v[i + k] != p[k] {
            assert(v@.subrange(i as int, i + m)[k as int] != p@[k as int]);
            return false;
        }
        k = k + 1;
    }
    assert(v@.subrange(i as int, i + m) =~= p@);
    true
}

/// The first position at or after `start` where `p` occurs in `v`.
pub fn find_from(v: &Vec<char>, p: &Vec<char>, start: usize) -> (r: Option<usize>)
    ensures
        match r {
            Some(i) => first_at_or_after(v@, p@, start as int) == Some(i as int) && start <= i && i
                + p@.len() <= v@.len(),
            None => first_at_or_after(v@, p@, start as int) is None,
        },
{
    let n = v.len();
    let m = p.len();
    if m > n {
        return None;
    }
    let mut i = start;
    while i <= n - m
        invariant
            start <= i,
            m <= n,
            n == v@.len(),
            m == p@.len(),
            first_at_or_after(v@, p@, start as int) == first_at_or_after(v@, p@, i as int),
        decreases n - i,
    {
        if occurs_at_exec(v, p, i) {
            return Some(i);
        }
        i = i + 1;
    }
    None
}

/// `str::find`: the first position (in characters) where `p` occurs in `s`.
pub fn find(s: &str, p: &str) -> (r: Option<usize>)
    ensures
        match r {
            Some(i) => spec_find(s@, p@) == Some(i as int),
            None => spec_find(s@, p@) is None,
        },
{
    let v = chars_of(s);
    let pv = chars_of(p);
    find_from(&v, &pv, 0)
}

/// `str::contains`: whether `p` occurs in `s`.
pub fn contains(s: &str, p: &str) -> (b: bool)
    ensures
        b == spec_contains(s@, p@),
{
    find(s, p).is_some()
}

/// `str::starts_with`: whether `s` begins with `p`.
pub fn starts_with(s: &str, p: &str) -> (b: bool)
    ensures
        b == spec_starts_with(s@, p@),
{
    let v = chars_of(s);
    let pv = chars_of(p);
    if pv.len() > v.len() {
        return false;
    }
    let b = occurs_at_exec(&v, &pv, 0);
    b
}

/// `str::strip_prefix`: the rest of `s` after the prefix `p`, if `s`
/// begins with `p`.
pub fn strip_prefix(s: &str, p: &str) -> (r: Option<String>)
    ensures
        match r {
            Some(t) => spec_starts_with(s@, p@) && t@ == s@.subrange(p@.len() as int, s@.len() as int),
            None => !spec_starts_with(s@, p@),
        },
{
    if starts_with(s, p) {
        let n = s.unicode_len();
        let m = p.unicode_len();
        Some(substring(s, m, n))
    } else {
        None
    }
}

/// `str::split(p).nth(n)` for a non-empty `p`.
pub fn split_nth(s: &str, p: &str, n: usize) -> (r: Option<String>)
    requires
        p@.len() > 0,
    ensures
        match r {
            Some(t) => spec_split_nth(s@, p@, n as nat) == Some(t@),
            None => spec_split_nth(s@, p@, n as nat) is None,
        },
{
    let v = chars_of(s);
    let pv = chars_of(p);
    let len = v.len();
    let m = pv.len();
    let mut off: usize = 0;
    let mut k: usize = 0;
    while k < n
        invariant
            k <= n,
            off <= len == v@.len() == s@.len(),
            m == pv@.len() == p@.len(),
            pv@ == p@,
            v@ == s@,
            spec_split_nth(s@, p@, n as nat) == split_nth_from(s@, p@, off as int, (n - k) as nat),
        decreases n - k,
    {
        match find_from(&v, &pv, off) {
            Some(i) => {
                off = i + m;
                k = k + 1;
            },
            None => {
                return None;
            },
        }
    }
    match find_from(&v, &pv, off) {
        Some(i) => Some(substring(s, off, i)),
        None => Some(substring(s, off, len)),
    }
}

/// `str::replace(from, to)` for a non-empty `from`.
pub fn replace(s: &str, from: &str, to: &str) -> (r: String)
    requires
        from@.len() > 0,
    ensures
        r@ == spec_replace(s@, from@, to@),
{
    let v = chars_of(s);
    let fv = chars_of(from);
    let len = v.len();
    let m = fv.len();
    let mut out = String::new();
    let mut off: usize = 0;
    loop
        invariant
            off <= len == v@.len() == s@.len(),
            m == fv@.len() == from@.len() > 0,
            fv@ == from@,
            v@ == s@,
            out@ + replace_from(s@, from@, to@, off as int) == spec_replace(s@, from@, to@),
        decreases len - off,
    {
        match find_from(&v, &fv, off) {
            Some(i) => {
                let piece = substring(s, off, i);
                out.append(piece.as_str());
                out.append(to);
                assert(out@ + replace_from(s@, from@, to@, i + m) =~= spec_replace(
                    s@,
                    from@,
                    to@,
                ));
                off = i + m;
            },
            None => {
                let piece = substring(s, off, len);
                out.append(piece.as_str());
                return out;
            },
        }
    }
}

/// The decimal rendering of a digit below ten.
fn digit_string(d: u64) -> (r: String)
    requires
        d < 10,
    ensures
        r@ == seq![digit_chars()[d as int]],
{
    let digits = "0123456789";
    proof {
        reveal_strlit("0123456789");
    }
    assert(digits@ =~= digit_chars());
    let r = substring(digits, d as usize, d as usize + 1);
    assert(r@ =~= seq![digit_chars()[d as int]]);
    r
}

/// `u64::to_string`: the decimal rendering of `n`.
pub fn decimal_u64(n: u64) -> (r: String)
    ensures
        r@ == decimal(n as nat),
    decreases n,
{
    if n < 10 {
        digit_string(n)
    } else {
        let mut r = decimal_u64(n / 10);
        let d = digit_string(n % 10);
        r.append(d.as_str());
        r
    }
}

/// `usize::to_string`: the decimal rendering of `n`.
pub fn decimal_usize(n: usize) -> (r: String)
    ensures
        r@ == decimal(n as nat),
{
    decimal_u64(n as u64)
}

/// `str::parse::<u64>`: the value that `s` denotes, if it is an unsigned
/// decimal number that fits in 64 bits.
#[verifier::rlimit(40)]
pub fn parse_u64(s: &str) -> (r: Option<u64>)
    ensures
        match r {
            Some(x) => spec_parse_unsigned(s@, u64::MAX as nat) == Some(x as nat),
            None => spec_parse_unsigned(s@, u64::MAX as nat) is None,
        },
{
    let v = chars_of(s);
    let n = v.len();
    if n == 0 {
        return None;
    }
    let start: usize = if v[0] == '+' {
        if n == 1 {
            return None;
        }
        1
    } else {
        0
    };
    let ghost d = v@.subrange(start as int, n as int);
    assert(unsigned_digits(s@) == Some(d)) by {
        if start == 1 {
            assert(s@.drop_first() =~= d);
        } else {
            assert(s@ =~= d);
        }
    }
    let mut acc: u64 = 0;
    let mut i: usize = start;
    while i < n
        invariant
            start <= i <= n == v@.len(),
            v@ == s@,
            d == v@.subrange(start as int, n as int),
            unsigned_digits(s@) == Some(d),
            acc as nat == digits_value(d.take(i - start)),
            forall|t: int| 0 <= t < i - start ==> is_digit(#[trigger] d[t]),
        decreases n - i,
    {
        let c = v[i];
        let u = c as u32;
        if u < 48 || u > 57 {
            assert(!is_digit(d[i - start]));
            return None;
        }
        proof {
            lemma_digits_value_prefix(d, i - start);
        }
        let digit = (u - 48) as u64;
        match acc.checked_mul(10) {
            Some(a10) => match a10.checked_add(digit) {
                Some(a) => {
                    acc = a;
                },
                None => {
                    proof {
                        lemma_digits_value_grows(d, i - start + 1, d.len() as int);
                        assert(d.take(d.len() as int) =~= d);
                    }
                    return None;
                },
            },
            None => {
                proof {
                    lemma_digits_value_grows(d, i - start + 1, d.len() as int);
                    assert(d.take(d.len() as int) =~= d);
                }
                return None;
            },
        }
        i = i + 1;
    }
    assert(d.take(n - start) =~= d);
    Some(acc)
}

/// `str::parse::<usize>`: the value that `s` denotes, if it is an unsigned
/// decimal number that fits in a `usize`.
pub fn parse_usize(s: &str) -> (r: Option<usize>)
    ensures
        match r {
            Some(x) => spec_parse_unsigned(s@, usize::MAX as nat) == Some(x as nat),
            None => spec_parse_unsigned(s@, usize::MAX as nat) is None,
        },
{
    match parse_u64(s) {
        Some(x) => if x <= usize::MAX as u64 {
            Some(x as usize)
        } else {
            None
        },
        None => None,
    }
}

} // verus!

//! Text primitives over the character view of strings.

use vstd::prelude::*;
use vstd::string::*;

verus! {

/// Unicode `White_Space`, the property that `char::is_whitespace` tests.
pub open spec fn is_ws(c: char) -> bool {
    ||| ('\u{9}' <= c && c <= '\u{d}')
    ||| c == ' '
    ||| c == '\u{85}'
    ||| c == '\u{a0}'
    ||| c == '\u{1680}'
    ||| ('\u{2000}' <= c && c <= '\u{200a}')
    ||| c == '\u{2028}'
    ||| c == '\u{2029}'
    ||| c == '\u{202f}'
    ||| c == '\u{205f}'
    ||| c == '\u{3000}'
}

/// Whether `c` is a whitespace character.
pub fn is_whitespace(c: char) -> (r: bool)
    ensures
        r == is_ws(c),
{
    ('\u{9}' <= c && c <= '\u{d}') || c == ' ' || c == '\u{85}' || c == '\u{a0}' || c == '\u{1680}'
        || ('\u{2000}' <= c && c <= '\u{200a}') || c == '\u{2028}' || c == '\u{2029}' || c
        == '\u{202f}' || c == '\u{205f}' || c == '\u{3000}'
}

/// The characters of a string, collected into a vector.
pub fn chars_of(s: &str) -> (v: Vec<char>)
    ensures
        v@ == s@,
{
    let n = s.unicode_len();
    let mut v: Vec<char> = Vec::new();
    let mut i: usize = 0;
    while i < n
        invariant
            n == s@.len(),
            i <= n,
            v@ == s@.subrange(0, i as int),
        decreases n - i,
    {
        let c = s.get_char(i);
        v.push(c);
        i = i + 1;
    }
    v
}

/// `needle` occurs in `hay` starting at character index `i`.
pub open spec fn occurs_at(hay: Seq<char>, needle: Seq<char>, i: int) -> bool {
    0 <= i && i + needle.len() <= hay.len() && hay.subrange(i, i + needle.len()) == needle
}

/// `needle` occurs somewhere in `hay` (the empty needle occurs everywhere).
pub open spec fn seq_contains(hay: Seq<char>, needle: Seq<char>) -> bool {
    exists|i: int| occurs_at(hay, needle, i)
}

fn occurs_at_exec(hay: &Vec<char>, needle: &Vec<char>, i: usize) -> (r: bool)
    requires
        i + needle@.len() <= hay@.len(),
        hay@.len() <= usize::MAX,
    ensures
        r == occurs_at(hay@, needle@, i as int),
{
    let mut j: usize = 0;
    while j < needle.len()
        invariant
            i + needle@.len() <= hay@.len(),
            hay@.len() <= usize::MAX,
            j <= needle@.len(),
            forall|k: int| 0 <= k < j ==> hay@[i + k] == needle@[k],
        decreases needle@.len() - j,
    {
        if hay[i + j] != needle[j] {
            assert(hay@.subrange(i as int, i + needle@.len())[j as int] != needle@[j as int]);
            return false;
        }
        j = j + 1;
    }
    assert(hay@.subrange(i as int, i + needle@.len()) =~= needle@);
    true
}

/// First character index at which `needle` occurs in `hay`.
pub fn find_seq(hay: &Vec<char>, needle: &Vec<char>) -> (r: Option<usize>)
    ensures
        match r {
            Some(i) => occurs_at(hay@, needle@, i as int) && forall|k: int|
                0 <= k < i ==> !occurs_at(hay@, needle@, k),
            None => !seq_contains(hay@, needle@),
        },
{
    if needle.len() > hay.len() {
        return None;
    }
    let last = hay.len() - needle.len();
    let mut i: usize = 0;
    while i <= last
        invariant
            last == hay@.len() - needle@.len(),
            hay@.len() <= usize::MAX,
            i <= last,
            forall|k: int| 0 <= k < i ==> !occurs_at(hay@, needle@, k),
        ensures
            forall|k: int| 0 <= k <= last ==> !occurs_at(hay@, needle@, k),
        decreases last - i,
    {
        if occurs_at_exec(hay, needle, i) {
            return Some(i);
        }
        if i == last {
            break;
        }
        i = i + 1;
    }
    None
}

/// Whether `needle` occurs in `hay`.
pub fn contains(hay: &str, needle: &str) -> (r: bool)
    ensures
        r == seq_contains(hay@, needle@),
{
    let h = chars_of(hay);
    let n = chars_of(needle);
    find_seq(&h, &n).is_some()
}


/// Index of the first non-whitespace character at or after `i`.
pub open spec fn trim_start_index(s: Seq<char>, i: int) -> int
    decreases s.len() - i,
{
    if i >= s.len() {
        s.len() as int
    } else if !is_ws(s[i]) {
        i
    } else {
        trim_start_index(s, i + 1)
    }
}

/// One past the last non-whitespace character before `j` (0 when there is none).
pub open spec fn trim_end_index(s: Seq<char>, j: int) -> int
    decreases j,
{
    if j <= 0 {
        0
    } else if !is_ws(s[j - 1]) {
        j
    } else {
        trim_end_index(s, j - 1)
    }
}

/// `s` without leading whitespace.
pub open spec fn trim_start_spec(s: Seq<char>) -> Seq<char> {
    s.subrange(trim_start_index(s, 0), s.len() as int)
}

/// `s` without trailing whitespace.
pub open spec fn trim_end_spec(s: Seq<char>) -> Seq<char> {
    s.subrange(0, trim_end_index(s, s.len() as int))
}

/// `s` without leading and trailing whitespace.
pub open spec fn trim_spec(s: Seq<char>) -> Seq<char> {
    trim_end_spec(trim_start_spec(s))
}

proof fn lemma_trim_start_index_bounds(s: Seq<char>, i: int)
    requires
        0 <= i <= s.len(),
    ensures
        i <= trim_start_index(s, i) <= s.len(),
    decreases s.len() - i,
{
    if i < s.len() && is_ws(s[i]) {
        lemma_trim_start_index_bounds(s, i + 1);
    }
}

proof fn lemma_trim_end_index_bounds(s: Seq<char>, j: int)
    requires
        0 <= j <= s.len(),
    ensures
        0 <= trim_end_index(s, j) <= j,
    decreases j,
{
    if j > 0 && is_ws(s[j - 1]) {
        lemma_trim_end_index_bounds(s, j - 1);
    }
}

/// The string without leading whitespace.
pub fn trim_start(s: &str) -> (r: &str)
    ensures
        r@ == trim_start_spec(s@),
{
    let v = chars_of(s);
    let n = v.len();
    let mut i: usize = 0;
    while i < n && is_whitespace(v[i])
        invariant
            n == v@.len(),
            v@ == s@,
            i <= n,
            trim_start_index(v@, i as int) == trim_start_index(v@, 0),
        decreases n - i,
    {
        i = i + 1;
    }
    s.substring_char(i, n)
}

/// The string without trailing whitespace.
pub fn trim_end(s: &str) -> (r: &str)
    ensures
        r@ == trim_end_spec(s@),
{
    let v = chars_of(s);
    let n = v.len();
    let mut j: usize = n;
    while j > 0 && is_whitespace(v[j - 1])
        invariant
            n == v@.len(),
            v@ == s@,
            j <= n,
            trim_end_index(v@, j as int) == trim_end_index(v@, n as int),
        decreases j,
    {
        j = j - 1;
    }
    s.substring_char(0, j)
}

/// The string without leading and trailing whitespace.
pub fn trim(s: &str) -> (r: &str)
    ensures
        r@ == trim_spec(s@),
{
    trim_end(trim_start(s))
}

/// Whether `s` begins with `p`.
pub fn starts_with(s: &str, p: &str) -> (r: bool)
    ensures
        r == p@.is_prefix_of(s@),
{
    let sv = chars_of(s);
    let pv = chars_of(p);
    if pv.len() > sv.len() {
        return false;
    }
    let r = occurs_at_exec(&sv, &pv, 0);
    proof {
        assert(r == (sv@.subrange(0, pv@.len() as int) == pv@));
        if r {
            assert forall|k: int| 0 <= k < pv@.len() implies pv@[k] == sv@[k] by {
                assert(sv@.subrange(0, pv@.len() as int)[k] == sv@[k]);
            }
        } else {
            if pv@.is_prefix_of(sv@) {
                assert(sv@.subrange(0, pv@.len() as int) =~= pv@);
            }
        }
    }
    r
}

/// `s` with the prefix `p` removed, when `s` begins with `p`.
pub open spec fn strip_prefix_spec(s: Seq<char>, p: Seq<char>) -> Option<Seq<char>> {
    if p.is_prefix_of(s) {
        Some(s.subrange(p.len() as int, s.len() as int))
    } else {
        None
    }
}

/// The rest of `s` after the prefix `p`, or `None` when `s` does not begin with `p`.
pub fn strip_prefix<'a>(s: &'a str, p: &str) -> (r: Option<&'a str>)
    ensures
        r.is_some() == strip_prefix_spec(s@, p@).is_some(),
        r.is_some() ==> r.unwrap()@ == strip_prefix_spec(s@, p@).unwrap(),
{
    if starts_with(s, p) {
        let n = s.unicode_len();
        let k = p.unicode_len();
        Some(s.substring_char(k, n))
    } else {
        None
    }
}


/// Index of the first `c` at or after `i`, or the length when there is none.
pub open spec fn index_of_from(s: Seq<char>, c: char, i: int) -> int
    decreases s.len() - i,
{
    if i >= s.len() {
        s.len() as int
    } else if s[i] == c {
        i
    } else {
        index_of_from(s, c, i + 1)
    }
}

pub proof fn lemma_index_of_from_bounds(s: Seq<char>, c: char, i: int)
    requires
        0 <= i,
    ensures
        i <= index_of_from(s, c, i) || (i > s.len() && index_of_from(s, c, i) == s.len()),
        index_of_from(s, c, i) <= s.len() || i > s.len(),
        index_of_from(s, c, i) < s.len() ==> s[index_of_from(s, c, i)] == c,
        forall|k: int| i <= k < index_of_from(s, c, i) ==> s[k] != c,
    decreases s.len() - i,
{
    if i < s.len() && s[i] != c {
        lemma_index_of_from_bounds(s, c, i + 1);
    }
}

/// A line without the carriage return that ends it, if any.
pub open spec fn strip_cr(line: Seq<char>) -> Seq<char> {
    if line.len() > 0 && line.last() == '\r' {
        line.drop_last()
    } else {
        line
    }
}

/// The lines of `s` from character index `i` on: split at `\n`, a `\r` before the
/// `\n` dropped, and no empty line after a final `\n`.
pub open spec fn lines_from(s: Seq<char>, i: int) -> Seq<Seq<char>>
    decreases s.len() - i,
{
    if i < 0 || i >= s.len() {
        Seq::empty()
    } else {
        let k = index_of_from(s, '\n', i);
        if k < s.len() {
            proof {
                lemma_index_of_from_bounds(s, '\n', i);
            }
            seq![strip_cr(s.subrange(i, k))] + lines_from(s, k + 1)
        } else {
            seq![s.subrange(i, s.len() as int)]
        }
    }
}

/// The lines of `s`, as `str::lines` gives them.
pub open spec fn lines_spec(s: Seq<char>) -> Seq<Seq<char>> {
    lines_from(s, 0)
}

/// The views of a sequence of string slices.
pub open spec fn views(v: Seq<&str>) -> Seq<Seq<char>> {
    v.map_values(|l: &str| l@)
}

/// The views of a sequence of owned strings.
pub open spec fn string_views(v: Seq<String>) -> Seq<Seq<char>> {
    v.map_values(|l: String| l@)
}

/// The lines of `s`.
pub fn split_lines<'a>(s: &'a str) -> (r: Vec<&'a str>)
    ensures
        views(r@) == lines_spec(s@),
{
    let v = chars_of(s);
    let n = v.len();
    let mut out: Vec<&'a str> = Vec::new();
    let mut start: usize = 0;
    while start < n
        invariant
            n == v@.len(),
            v@ == s@,
            start <= n,
            views(out@) + lines_from(v@, start as int) == lines_spec(v@),
        decreases n - start,
    {
        let mut j: usize = start;
        while j < n && v[j] != '\n'
            invariant
                n == v@.len(),
                start <= j <= n,
                index_of_from(v@, '\n', j as int) == index_of_from(v@, '\n', start as int),
            decreases n - j,
        {
            j = j + 1;
        }
        proof {
            lemma_index_of_from_bounds(v@, '\n', start as int);
        }
        let ghost before = views(out@);
        if j < n {
            let mut e = j;
            if e > start && v[e - 1] == '\r' {
                e = e - 1;
            }
            let line = s.substring_char(start, e);
            out.push(line);
            proof {
                assert(strip_cr(v@.subrange(start as int, j as int)) =~= v@.subrange(
                    start as int,
                    e as int,
                ));
                assert(views(out@) =~= before.push(line@));
                assert(lines_from(v@, start as int) =~= seq![line@] + lines_from(v@, j + 1));
                assert(before + lines_from(v@, start as int) =~= views(out@) + lines_from(
                    v@,
                    j + 1,
                ));
            }
            start = j + 1;
        } else {
            let line = s.substring_char(start, n);
            out.push(line);
            proof {
                assert(views(out@) =~= before.push(line@));
                assert(lines_from(v@, start as int) =~= seq![line@]);
                assert(lines_from(v@, n as int) =~= Seq::<Seq<char>>::empty());
                assert(before + lines_from(v@, start as int) =~= views(out@) + lines_from(
                    v@,
                    n as int,
                ));
            }
            start = n;
        }
    }
    proof {
        assert(lines_from(v@, start as int) =~= Seq::<Seq<char>>::empty());
        assert(views(out@) + Seq::<Seq<char>>::empty() =~= views(out@));
    }
    out
}


/// `String::push`: appends one character.
#[verifier::external_body]
pub(crate) fn push_char(s: &mut String, c: char)
    ensures
        final(s)@ == old(s)@.push(c),
{
    s.push(c);
}

/// The owned string with the same characters as `s`.
pub fn owned(s: &str) -> (r: String)
    ensures
        r@ == s@,
{
    s.to_owned()
}

/// The concatenation of `a` and `b`.
pub fn concat2(a: &str, b: &str) -> (r: String)
    ensures
        r@ == a@ + b@,
{
    let mut r = owned(a);
    r.append(b);
    r
}

/// The concatenation of `a`, `b` and `c`.
pub fn concat3(a: &str, b: &str, c: &str) -> (r: String)
    ensures
        r@ == a@ + b@ + c@,
{
    let mut r = owned(a);
    r.append(b);
    r.append(c);
    r
}

/// The concatenation of four pieces.
pub fn concat4(a: &str, b: &str, c: &str, d: &str) -> (r: String)
    ensures
        r@ == a@ + b@ + c@ + d@,
{
    let mut r = concat3(a, b, c);
    r.append(d);
    r
}

/// The decimal digit character for `d` (taken modulo ten).
pub open spec fn digit_char(d: nat) -> char {
    let d = d % 10;
    if d == 0 {
        '0'
    } else if d == 1 {
        '1'
    } else if d == 2 {
        '2'
    } else if d == 3 {
        '3'
    } else if d == 4 {
        '4'
    } else if d == 5 {
        '5'
    } else if d == 6 {
        '6'
    } else if d == 7 {
        '7'
    } else if d == 8 {
        '8'
    } else {
        '9'
    }
}

/// The decimal rendering of `n`, without sign or leading zeros.
pub open spec fn decimal(n: nat) -> Seq<char>
    decreases n,
{
    if n < 10 {
        seq![digit_char(n)]
    } else {
        decimal(n / 10).push(digit_char(n % 10))
    }
}

fn digit_char_exec(d: u64) -> (c: char)
    requires
        d < 10,
    ensures
        c == digit_char(d as nat),
{
    if d == 0 {
        '0'
    } else if d == 1 {
        '1'
    } else if d == 2 {
        '2'
    } else if d == 3 {
        '3'
    } else if d == 4 {
        '4'
    } else if d == 5 {
        '5'
    } else if d == 6 {
        '6'
    } else if d == 7 {
        '7'
    } else if d == 8 {
        '8'
    } else {
        '9'
    }
}

fn decimal_chars(n: u64) -> (r: Vec<char>)
    ensures
        r@ == decimal(n as nat),
    decreases n,
{
    if n < 10 {
        let mut v = Vec::new();
        v.push(digit_char_exec(n));
        v
    } else {
        let mut v = decimal_chars(n / 10);
        v.push(digit_char_exec(n % 10));
        v
    }
}

/// The decimal rendering of `n`.
pub fn decimal_string(n: u64) -> (r: String)
    ensures
        r@ == decimal(n as nat),
{
    let v = decimal_chars(n);
    let mut r = String::new();
    let mut i: usize = 0;
    while i < v.len()
        invariant
            i <= v@.len(),
            r@ == v@.subrange(0, i as int),
        decreases v@.len() - i,
    {
        push_char(&mut r, v[i]);
        proof {
            assert(v@.subrange(0, i + 1) =~= v@.subrange(0, i as int).push(v@[i as int]));
        }
        i = i + 1;
    }
    proof {
        assert(v@.subrange(0, v@.len() as int) =~= v@);
    }
    r
}

/// The value of an ASCII decimal digit.
pub open spec fn digit_value(c: char) -> int {
    c as int - '0' as int
}

/// Whether `c` is an ASCII decimal digit.
pub open spec fn is_digit(c: char) -> bool {
    '0' <= c && c <= '9'
}

/// The value of a sequence of decimal digits.
pub open spec fn digits_value(d: Seq<char>) -> int
    decreases d.len(),
{
    if d.len() == 0 {
        0
    } else {
        digits_value(d.drop_last()) * 10 + digit_value(d.last())
    }
}

/// The text after an optional leading `+`.
pub open spec fn unsigned_digits(s: Seq<char>) -> Seq<char> {
    if s.len() > 0 && s[0] == '+' {
        s.drop_first()
    } else {
        s
    }
}

/// What `str::parse` gives for an unsigned integer type without bound: an optional
/// `+` then at least one ASCII digit, and nothing else.
pub open spec fn parse_unsigned(s: Seq<char>) -> Option<int> {
    let d = unsigned_digits(s);
    if d.len() > 0 && (forall|i: int| 0 <= i < d.len() ==> is_digit(d[i])) {
        Some(digits_value(d))
    } else {
        None
    }
}

proof fn lemma_digits_value_nonneg(d: Seq<char>)
    requires
        forall|i: int| 0 <= i < d.len() ==> is_digit(d[i]),
    ensures
        digits_value(d) >= 0,
    decreases d.len(),
{
    if d.len() > 0 {
        lemma_digits_value_nonneg(d.drop_last());
    }
}

proof fn lemma_digits_value_monotone(d: Seq<char>, k: int)
    requires
        0 <= k <= d.len(),
        forall|i: int| 0 <= i < d.len() ==> is_digit(d[i]),
    ensures
        digits_value(d.subrange(0, k)) <= digits_value(d),
    decreases d.len() - k,
{
    if k < d.len() {
        lemma_digits_value_monotone(d, k + 1);
        let p = d.subrange(0, k + 1);
        assert(p.drop_last() =~= d.subrange(0, k));
        lemma_digits_value_nonneg(d.subrange(0, k));
    } else {
        assert(d.subrange(0, k) =~= d);
    }
}

/// `str::parse::<u64>`: the value when the text is a valid unsigned decimal that fits.
pub fn parse_u64(s: &str) -> (r: Option<u64>)
    ensures
        r.is_some() <==> (parse_unsigned(s@).is_some() && parse_unsigned(s@).unwrap()
            <= u64::MAX),
        r.is_some() ==> r.unwrap() == parse_unsigned(s@).unwrap(),
{
    let v = chars_of(s);
    let n = v.len();
    let mut start: usize = 0;
    if n > 0 && v[0] == '+' {
        start = 1;
    }
    let ghost d = unsigned_digits(v@);
    assert(d =~= v@.subrange(start as int, n as int));
    if start == n {
        return None;
    }
    let mut acc: u64 = 0;
    let mut i: usize = start;
    while i < n
        invariant
            n == v@.len(),
            start <= i <= n,
            start < n,
            d == v@.subrange(start as int, n as int),
            v@ == s@,
            d == unsigned_digits(s@),
            forall|k: int| start <= k < i ==> is_digit(v@[k]),
            acc == digits_value(v@.subrange(start as int, i as int)),
        decreases n - i,
    {
        let c = v[i];
        if !('0' <= c && c <= '9') {
            proof {
                assert(d[i - start] == c);
                assert(!is_digit(d[i - start]));
                assert(!(forall|k: int| 0 <= k < d.len() ==> is_digit(d[k])));
                assert(parse_unsigned(s@).is_none());
            }
            return None;
        }
        let dv: u64 = if c == '0' { 0 } else if c == '1' { 1 } else if c == '2' { 2 } else if c
            == '3' { 3 } else if c == '4' { 4 } else if c == '5' { 5 } else if c == '6' { 6 } else if c
            == '7' { 7 } else if c == '8' { 8 } else { 9 };
        let ghost pre = v@.subrange(start as int, i as int);
        let ghost next = v@.subrange(start as int, i + 1);
        proof {
            assert(next.drop_last() =~= pre);
            assert(next.last() == c);
            assert(dv == digit_value(c));
            assert(digits_value(next) == acc * 10 + dv);
        }
        if acc > (u64::MAX - dv) / 10 {
            proof {
                assert(digits_value(next) > u64::MAX) by (nonlinear_arith)
                    requires
                        digits_value(next) == acc * 10 + dv,
                        acc > (u64::MAX - dv) / 10,
                        dv <= 9,
                ;
                // the rest of the text either is not all digits, or only grows the value
                if forall|k: int| 0 <= k < d.len() ==> is_digit(d[k]) {
                    assert(d.subrange(0, i + 1 - start) =~= next);
                    lemma_digits_value_monotone(d, i + 1 - start);
                    assert(digits_value(d) > u64::MAX);
                }
                assert(!(parse_unsigned(s@).is_some() && parse_unsigned(s@).unwrap() <= u64::MAX));
            }
            return None;
        }
        acc = acc * 10 + dv;
        i = i + 1;
    }
    proof {
        assert(v@.subrange(start as int, n as int) == d);
        assert forall|k: int| 0 <= k < d.len() implies is_digit(d[k]) by {
            assert(d[k] == v@[start + k]);
        }
    }
    Some(acc)
}


/// `s` without every trailing `c`.
pub open spec fn trim_end_char_spec(s: Seq<char>, c: char) -> Seq<char>
    decreases s.len(),
{
    if s.len() > 0 && s.last() == c {
        trim_end_char_spec(s.drop_last(), c)
    } else {
        s
    }
}

/// `str::trim_end_matches` with a single character.
pub fn trim_end_char(s: &str, c: char) -> (r: &str)
    ensures
        r@ == trim_end_char_spec(s@, c),
{
    let v = chars_of(s);
    let mut j: usize = v.len();
    proof {
        assert(v@.subrange(0, v@.len() as int) =~= v@);
    }
    while j > 0 && v[j - 1] == c
        invariant
            j <= v@.len(),
            v@ == s@,
            trim_end_char_spec(v@.subrange(0, j as int), c) == trim_end_char_spec(v@, c),
        decreases j,
    {
        proof {
            assert(v@.subrange(0, j as int).drop_last() =~= v@.subrange(0, j - 1));
        }
        j = j - 1;
    }
    s.substring_char(0, j)
}

/// Index of the first whitespace character at or after `i`, or the length.
pub open spec fn ws_index_from(s: Seq<char>, i: int) -> int
    decreases s.len() - i,
{
    if i < 0 || i >= s.len() {
        s.len() as int
    } else if is_ws(s[i]) {
        i
    } else {
        ws_index_from(s, i + 1)
    }
}

/// The first whitespace-separated word of `s`, as `split_whitespace().next()` gives it.
pub open spec fn first_word_spec(s: Seq<char>) -> Option<Seq<char>> {
    let a = trim_start_index(s, 0);
    if a >= s.len() {
        None
    } else {
        Some(s.subrange(a, ws_index_from(s, a)))
    }
}

proof fn lemma_ws_index_from_bounds(s: Seq<char>, i: int)
    requires
        0 <= i <= s.len(),
    ensures
        i <= ws_index_from(s, i) <= s.len(),
    decreases s.len() - i,
{
    if i < s.len() && !is_ws(s[i]) {
        lemma_ws_index_from_bounds(s, i + 1);
    }
}

/// The first whitespace-separated word of `s`.
pub fn first_word<'a>(s: &'a str) -> (r: Option<&'a str>)
    ensures
        r.is_some() == first_word_spec(s@).is_some(),
        r.is_some() ==> r.unwrap()@ == first_word_spec(s@).unwrap(),
{
    let v = chars_of(s);
    let n = v.len();
    let mut i: usize = 0;
    while i < n && is_whitespace(v[i])
        invariant
            n == v@.len(),
            v@ == s@,
            i <= n,
            trim_start_index(v@, i as int) == trim_start_index(v@, 0),
        decreases n - i,
    {
        i = i + 1;
    }
    if i == n {
        return None;
    }
    let mut j: usize = i;
    while j < n && !is_whitespace(v[j])
        invariant
            n == v@.len(),
            v@ == s@,
            i <= j <= n,
            ws_index_from(v@, j as int) == ws_index_from(v@, i as int),
        decreases n - j,
    {
        j = j + 1;
    }
    Some(s.substring_char(i, j))
}

/// Index of the last `c` before `j`, or -1.
pub open spec fn last_index_of_before(s: Seq<char>, c: char, j: int) -> int
    decreases j,
{
    if j <= 0 {
        -1
    } else if s[j - 1] == c {
        j - 1
    } else {
        last_index_of_before(s, c, j - 1)
    }
}

proof fn lemma_last_index_of_before(s: Seq<char>, c: char, j: int)
    requires
        0 <= j <= s.len(),
    ensures
        -1 <= last_index_of_before(s, c, j) < j,
    decreases j,
{
    if j > 0 && s[j - 1] != c {
        lemma_last_index_of_before(s, c, j - 1);
    }
}

/// The part after the last `c`, as the second half of `rsplit_once(c)` gives it.
pub open spec fn after_last_spec(s: Seq<char>, c: char) -> Option<Seq<char>> {
    let k = last_index_of_before(s, c, s.len() as int);
    if k < 0 {
        None
    } else {
        Some(s.subrange(k + 1, s.len() as int))
    }
}

/// The text after the last `c` in `s`, when `s` holds `c`.
pub fn after_last<'a>(s: &'a str, c: char) -> (r: Option<&'a str>)
    ensures
        r.is_some() == after_last_spec(s@, c).is_some(),
        r.is_some() ==> r.unwrap()@ == after_last_spec(s@, c).unwrap(),
{
    let v = chars_of(s);
    let n = v.len();
    let mut j: usize = n;
    while j > 0 && v[j - 1] != c
        invariant
            n == v@.len(),
            v@ == s@,
            j <= n,
            last_index_of_before(v@, c, j as int) == last_index_of_before(v@, c, n as int),
        decreases j,
    {
        j = j - 1;
    }
    if j == 0 {
        None
    } else {
        Some(s.substring_char(j, n))
    }
}

/// The part after the first occurrence of `needle`, as `find` and slicing give it.
#[verifier::opaque]
pub open spec fn after_first_spec(s: Seq<char>, needle: Seq<char>) -> Option<Seq<char>> {
    if seq_contains(s, needle) {
        let i = choose|i: int| occurs_at(s, needle, i) && forall|k: int|
            0 <= k < i ==> !occurs_at(s, needle, k);
        Some(s.subrange(i + needle.len(), s.len() as int))
    } else {
        None
    }
}

/// The text after the first occurrence of `needle` in `s`.
pub fn after_first<'a>(s: &'a str, needle: &str) -> (r: Option<&'a str>)
    ensures
        r.is_some() == after_first_spec(s@, needle@).is_some(),
        r.is_some() ==> r.unwrap()@ == after_first_spec(s@, needle@).unwrap(),
{
    let v = chars_of(s);
    let nv = chars_of(needle);
    let vl = v.len();
    reveal(after_first_spec);
    match find_seq(&v, &nv) {
        Some(i) => {
            proof {
                let w = choose|w: int| occurs_at(v@, nv@, w) && forall|k: int|
                    0 <= k < w ==> !occurs_at(v@, nv@, k);
                assert(occurs_at(v@, nv@, i as int));
                if w < i {
                    assert(!occurs_at(v@, nv@, w));
                }
                if w > i {
                    assert(!occurs_at(v@, nv@, i as int));
                }
                assert(w == i);
                assert(i + nv@.len() <= v@.len());
            }
            Some(s.substring_char(i + nv.len(), vl))
        },
        None => None,
    }
}


/// The pieces of `s` from `i` on, split at each `c` (as `str::split` gives them, a
/// trailing separator leaving an empty last piece).
pub open spec fn split_from(s: Seq<char>, c: char, i: int) -> Seq<Seq<char>>
    decreases s.len() - i + 1,
{
    if i < 0 || i > s.len() {
        Seq::empty()
    } else {
        let k = index_of_from(s, c, i);
        if k < s.len() {
            proof {
                lemma_index_of_from_bounds(s, c, i);
            }
            seq![s.subrange(i, k)] + split_from(s, c, k + 1)
        } else {
            seq![s.subrange(i, s.len() as int)]
        }
    }
}

/// At most `n` pieces of `s` from `i` on, split at `c`, the last holding the rest (as
/// `str::splitn` gives them).
pub open spec fn splitn_from(s: Seq<char>, c: char, i: int, n: nat) -> Seq<Seq<char>>
    decreases n,
{
    if n == 0 || i < 0 || i > s.len() {
        Seq::empty()
    } else if n == 1 {
        seq![s.subrange(i, s.len() as int)]
    } else {
        let k = index_of_from(s, c, i);
        if k < s.len() {
            seq![s.subrange(i, k)] + splitn_from(s, c, k + 1, (n - 1) as nat)
        } else {
            seq![s.subrange(i, s.len() as int)]
        }
    }
}

/// `s` split at each `c`.
pub fn split_char<'a>(s: &'a str, c: char) -> (r: Vec<&'a str>)
    ensures
        views(r@) == split_from(s@, c, 0),
{
    let v = chars_of(s);
    let n = v.len();
    let mut out: Vec<&'a str> = Vec::new();
    let mut start: usize = 0;
    let mut done = false;
    while !done
        invariant
            n == v@.len(),
            v@ == s@,
            start <= n,
            !done ==> views(out@) + split_from(v@, c, start as int) == split_from(v@, c, 0),
            done ==> views(out@) == split_from(v@, c, 0),
        decreases n - start + (if done { 0int } else { 1int }),
    {
        let mut j: usize = start;
        while j < n && v[j] != c
            invariant
                n == v@.len(),
                start <= j <= n,
                index_of_from(v@, c, j as int) == index_of_from(v@, c, start as int),
            decreases n - j,
        {
            j = j + 1;
        }
        proof {
            lemma_index_of_from_bounds(v@, c, start as int);
        }
        let ghost before = views(out@);
        let piece = s.substring_char(start, j);
        out.push(piece);
        if j < n {
            proof {
                assert(views(out@) =~= before.push(piece@));
                assert(split_from(v@, c, start as int) =~= seq![piece@] + split_from(v@, c, j + 1));
                assert(before + split_from(v@, c, start as int) =~= views(out@) + split_from(v@, c, j + 1));
            }
            start = j + 1;
        } else {
            proof {
                assert(views(out@) =~= before.push(piece@));
                assert(split_from(v@, c, start as int) =~= seq![piece@]);
            }
            done = true;
        }
    }
    out
}

/// At most `n` pieces of `s` split at `c`, the last holding the rest.
pub fn splitn_char<'a>(s: &'a str, c: char, n: usize) -> (r: Vec<&'a str>)
    ensures
        views(r@) == splitn_from(s@, c, 0, n as nat),
{
    let v = chars_of(s);
    let len = v.len();
    let mut out: Vec<&'a str> = Vec::new();
    if n == 0 {
        proof {
            assert(views(out@) =~= Seq::<Seq<char>>::empty());
        }
        return out;
    }
    let mut start: usize = 0;
    let mut left: usize = n;
    let mut done = false;
    while !done
        invariant
            len == v@.len(),
            v@ == s@,
            start <= len,
            left >= 1,
            !done ==> views(out@) + splitn_from(v@, c, start as int, left as nat) == splitn_from(v@, c, 0, n as nat),
            done ==> views(out@) == splitn_from(v@, c, 0, n as nat),
        decreases left + (if done { 0int } else { 1int }),
    {
        let ghost before = views(out@);
        if left == 1 {
            let piece = s.substring_char(start, len);
            out.push(piece);
            proof {
                assert(views(out@) =~= before.push(piece@));
                assert(splitn_from(v@, c, start as int, 1) =~= seq![piece@]);
            }
            done = true;
        } else {
            let mut j: usize = start;
            while j < len && v[j] != c
                invariant
                    len == v@.len(),
                    start <= j <= len,
                    index_of_from(v@, c, j as int) == index_of_from(v@, c, start as int),
                decreases len - j,
            {
                j = j + 1;
            }
            proof {
                lemma_index_of_from_bounds(v@, c, start as int);
            }
            let piece = s.substring_char(start, j);
            out.push(piece);
            if j < len {
                proof {
                    assert(views(out@) =~= before.push(piece@));
                    assert(splitn_from(v@, c, start as int, left as nat) =~= seq![piece@] + splitn_from(
                        v@,
                        c,
                        j + 1,
                        (left - 1) as nat,
                    ));
                    assert(before + splitn_from(v@, c, start as int, left as nat) =~= views(out@)
                        + splitn_from(v@, c, j + 1, (left - 1) as nat));
                }
                start = j + 1;
                left = left - 1;
            } else {
                proof {
                    assert(views(out@) =~= before.push(piece@));
                    assert(splitn_from(v@, c, start as int, left as nat) =~= seq![piece@]);
                }
                done = true;
            }
        }
    }
    out
}

/// `s` without its leading line breaks (`\n` and `\r`).
pub open spec fn trim_start_breaks_spec(s: Seq<char>) -> Seq<char>
    decreases s.len(),
{
    if s.len() > 0 && (s[0] == '\n' || s[0] == '\r') {
        trim_start_breaks_spec(s.drop_first())
    } else {
        s
    }
}

/// `s` without its leading line breaks.
pub fn trim_start_breaks(s: &str) -> (r: &str)
    ensures
        r@ == trim_start_breaks_spec(s@),
{
    let v = chars_of(s);
    let n = v.len();
    let mut i: usize = 0;
    proof {
        assert(v@.subrange(0, n as int) =~= v@);
    }
    while i < n && (v[i] == '\n' || v[i] == '\r')
        invariant
            n == v@.len(),
            v@ == s@,
            i <= n,
            trim_start_breaks_spec(v@.subrange(i as int, n as int)) == trim_start_breaks_spec(v@),
        decreases n - i,
    {
        proof {
            assert(v@.subrange(i as int, n as int).drop_first() =~= v@.subrange(i + 1, n as int));
        }
        i = i + 1;
    }
    s.substring_char(i, n)
}

/// The lines joined with `\n` between them.
pub open spec fn join_lines_spec(ls: Seq<Seq<char>>) -> Seq<char>
    decreases ls.len(),
{
    if ls.len() == 0 {
        Seq::empty()
    } else if ls.len() == 1 {
        ls[0]
    } else {
        join_lines_spec(ls.drop_last()) + seq!['\n'] + ls.last()
    }
}

/// The lines joined with `\n` between them.
pub fn join_lines(ls: &Vec<String>) -> (r: String)
    ensures
        r@ == join_lines_spec(string_views(ls@)),
{
    let mut out = String::new();
    let mut i: usize = 0;
    while i < ls.len()
        invariant
            i <= ls@.len(),
            out@ == join_lines_spec(string_views(ls@.take(i as int))),
        decreases ls@.len() - i,
    {
        let ghost before = out@;
        if i > 0 {
            push_char(&mut out, '\n');
        }
        out.append(ls[i].as_str());
        proof {
            let t = string_views(ls@.take(i + 1));
            assert(t.drop_last() =~= string_views(ls@.take(i as int)));
            assert(t.last() == ls@[i as int]@);
            if i == 0 {
                assert(out@ =~= t[0]);
            } else {
                assert(out@ =~= before + seq!['\n'] + ls@[i as int]@);
            }
        }
        i = i + 1;
    }
    proof {
        assert(ls@.take(ls@.len() as int) =~= ls@);
    }
    out
}

} // verus!

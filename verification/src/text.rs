//! Character-sequence helpers shared by the parsers of this crate.
//!
//! Every text function works on the `Seq<char>` view of a string and is
//! specified by a recursive or quantified spec function of the same name.
use vstd::prelude::*;
use vstd::utf8::is_ascii_chars;

verus! {

broadcast use vstd::string::group_string_axioms;

/// Unicode `White_Space` property, as used by `str::trim` and `char::is_whitespace`.
pub open spec fn is_ws(c: char) -> bool {
    let v = c as u32;
    (0x9 <= v && v <= 0xd) || v == 0x20 || v == 0x85 || v == 0xa0 || v == 0x1680 || (0x2000 <= v
        && v <= 0x200a) || v == 0x2028 || v == 0x2029 || v == 0x202f || v == 0x205f || v == 0x3000
}

/// `s` without its leading white space.
pub open spec fn trim_start(s: Seq<char>) -> Seq<char>
    decreases s.len(),
{
    if s.len() > 0 && is_ws(s[0]) {
        trim_start(s.drop_first())
    } else {
        s
    }
}

/// `s` without its trailing white space.
pub open spec fn trim_end(s: Seq<char>) -> Seq<char>
    decreases s.len(),
{
    if s.len() > 0 && is_ws(s.last()) {
        trim_end(s.drop_last())
    } else {
        s
    }
}

/// `s` without leading and trailing white space (`str::trim`).
pub open spec fn trim(s: Seq<char>) -> Seq<char> {
    trim_end(trim_start(s))
}

/// ASCII lower-casing of one character (`char::to_ascii_lowercase`).
pub open spec fn lower_char(c: char) -> char {
    if 'A' <= c && c <= 'Z' {
        ((c as u32) + 32) as char
    } else {
        c
    }
}

/// ASCII lower-casing of a sequence (`str::to_ascii_lowercase`).
pub open spec fn lower(s: Seq<char>) -> Seq<char> {
    s.map_values(|c: char| lower_char(c))
}

/// `needle` occurs in `hay` starting at index `i`.
pub open spec fn occurs_at(hay: Seq<char>, needle: Seq<char>, i: int) -> bool {
    0 <= i && i + needle.len() <= hay.len() && hay.subrange(i, i + needle.len()) == needle
}

/// `needle` occurs somewhere in `hay` (`str::contains`).
pub open spec fn contains(hay: Seq<char>, needle: Seq<char>) -> bool {
    exists|i: int| #[trigger] occurs_at(hay, needle, i)
}

/// `s` begins with `p` (`str::starts_with`).
pub open spec fn starts_with(s: Seq<char>, p: Seq<char>) -> bool {
    occurs_at(s, p, 0)
}

/// `s` ends with `p` (`str::ends_with`).
pub open spec fn ends_with(s: Seq<char>, p: Seq<char>) -> bool {
    occurs_at(s, p, s.len() - p.len())
}

/// Appends one character to a string (`String::push`).
#[verifier::external_body]
pub(crate) fn push_char(s: &mut String, c: char)
    ensures
        final(s)@ == old(s)@.push(c),
{
    s.push(c);
}

/// The characters of `s`, in order.
pub fn chars_of(s: &str) -> (v: Vec<char>)
    ensures
        v@ == s@,
{
    let mut v: Vec<char> = Vec::new();
    for c in it: s.chars()
        invariant
            it.seq() == s@,
            v@ == it.seq().take(it.index()),
    {
        v.push(c);
    }
    v
}

/// A string holding the characters of `v`.
pub fn string_of(v: &[char]) -> (s: String)
    ensures
        s@ == v@,
{
    let mut s = String::new();
    for i in 0..v.len()
        invariant
            s@ == v@.take(i as int),
    {
        push_char(&mut s, v[i]);
        assert(v@.take(i + 1) =~= v@.take(i as int).push(v@[i as int]));
    }
    assert(v@.take(v.len() as int) =~= v@);
    s
}

/// Appends the characters of `v` to `s`.
pub fn push_chars(s: &mut String, v: &[char])
    ensures
        final(s)@ == old(s)@ + v@,
{
    for i in 0..v.len()
        invariant
            s@ == old(s)@ + v@.take(i as int),
    {
        push_char(s, v[i]);
        assert(v@.take(i + 1) =~= v@.take(i as int).push(v@[i as int]));
    }
    assert(v@.take(v.len() as int) =~= v@);
}

/// Appends the characters of `t` to `s`.
pub fn push_str_chars(s: &mut String, t: &str)
    ensures
        final(s)@ == old(s)@ + t@,
{
    let v = chars_of(t);
    push_chars(s, &v);
}

/// `char::is_whitespace`.
pub fn is_whitespace(c: char) -> (b: bool)
    ensures
        b == is_ws(c),
{
    let v = c as u32;
    (0x9 <= v && v <= 0xd) || v == 0x20 || v == 0x85 || v == 0xa0 || v == 0x1680 || (0x2000 <= v
        && v <= 0x200a) || v == 0x2028 || v == 0x2029 || v == 0x202f || v == 0x205f || v == 0x3000
}

proof fn lemma_trim_start_step(s: Seq<char>, i: int)
    requires
        0 <= i < s.len(),
        is_ws(s[i]),
    ensures
        trim_start(s.subrange(i, s.len() as int)) == trim_start(s.subrange(i + 1, s.len() as int)),
{
    assert(s.subrange(i, s.len() as int).drop_first() =~= s.subrange(i + 1, s.len() as int));
}

proof fn lemma_trim_end_step(s: Seq<char>, a: int, j: int)
    requires
        0 <= a < j <= s.len(),
        is_ws(s[j - 1]),
    ensures
        trim_end(s.subrange(a, j)) == trim_end(s.subrange(a, j - 1)),
{
    assert(s.subrange(a, j).drop_last() =~= s.subrange(a, j - 1));
}

/// Bounds `(start, end)` of the trimmed part of `s`.
pub fn trim_bounds(s: &[char]) -> (r: (usize, usize))
    ensures
        r.0 <= r.1 <= s.len(),
        s@.subrange(r.0 as int, r.1 as int) == trim(s@),
{
    let mut i: usize = 0;
    assert(s@.subrange(0, s@.len() as int) =~= s@);
    while i < s.len() && is_whitespace(s[i])
        invariant
            i <= s.len(),
            trim_start(s@) == trim_start(s@.subrange(i as int, s.len() as int)),
        decreases s.len() - i,
    {
        proof {
            lemma_trim_start_step(s@, i as int);
        }
        i = i + 1;
    }
    let ghost t = s@.subrange(i as int, s.len() as int);
    assert(trim_start(s@) == t);
    let mut j: usize = s.len();
    while j > i && is_whitespace(s[j - 1])
        invariant
            i <= j <= s.len(),
            trim_start(s@) == s@.subrange(i as int, s.len() as int),
            trim(s@) == trim_end(s@.subrange(i as int, j as int)),
        decreases j,
    {
        proof {
            lemma_trim_end_step(s@, i as int, j as int);
        }
        j = j - 1;
    }
    (i, j)
}

/// The trimmed characters of `s` (`str::trim`).
pub fn trim_chars(s: &[char]) -> (r: Vec<char>)
    ensures
        r@ == trim(s@),
{
    let (a, b) = trim_bounds(s);
    slice_chars(s, a, b)
}

/// Copy of `s[a..b]`.
pub fn slice_chars(s: &[char], a: usize, b: usize) -> (r: Vec<char>)
    requires
        a <= b <= s.len(),
    ensures
        r@ == s@.subrange(a as int, b as int),
{
    let mut r: Vec<char> = Vec::new();
    let mut k = a;
    while k < b
        invariant
            a <= k <= b <= s.len(),
            r@ == s@.subrange(a as int, k as int),
        decreases b - k,
    {
        r.push(s[k]);
        assert(s@.subrange(a as int, k + 1) =~= s@.subrange(a as int, k as int).push(s@[k as int]));
        k = k + 1;
    }
    r
}

/// The trimmed characters of a string.
pub fn trim_str(s: &str) -> (r: Vec<char>)
    ensures
        r@ == trim(s@),
{
    let v = chars_of(s);
    trim_chars(&v)
}

/// `char::to_ascii_lowercase`.
pub fn lower_ascii_char(c: char) -> (r: char)
    ensures
        r == lower_char(c),
{
    if 'A' <= c && c <= 'Z' {
        let b = (c as u32) + 32;
        assert(b < 128);
        let r = (b as u8) as char;
        r
    } else {
        c
    }
}

/// ASCII lower-casing of `s`.
pub fn lower_chars(s: &[char]) -> (r: Vec<char>)
    ensures
        r@ == lower(s@),
{
    let mut r: Vec<char> = Vec::new();
    for i in 0..s.len()
        invariant
            r@ == lower(s@.take(i as int)),
    {
        r.push(lower_ascii_char(s[i]));
        assert(lower(s@.take(i + 1)) =~= lower(s@.take(i as int)).push(lower_char(s@[i as int])));
    }
    assert(s@.take(s.len() as int) =~= s@);
    r
}

/// `s` with every `from` replaced by `to` (`str::replace` with one-character patterns).
pub open spec fn replace_char(s: Seq<char>, from: char, to: char) -> Seq<char> {
    s.map_values(|c: char| if c == from { to } else { c })
}

/// `str::replace` of one character by another.
pub fn replace_char_exec(s: &[char], from: char, to: char) -> (r: Vec<char>)
    ensures
        r@ == replace_char(s@, from, to),
{
    let mut r: Vec<char> = Vec::new();
    for i in 0..s.len()
        invariant
            r@ == replace_char(s@.take(i as int), from, to),
    {
        let c = if s[i] == from { to } else { s[i] };
        r.push(c);
        assert(replace_char(s@.take(i + 1), from, to) =~= replace_char(s@.take(i as int), from, to).push(c));
    }
    assert(s@.take(s.len() as int) =~= s@);
    r
}

/// The pieces of `s` between occurrences of `c` (`str::split` with a character): always at
/// least one piece, empty pieces included.
pub open spec fn split_char(s: Seq<char>, c: char) -> Seq<Seq<char>>
    decreases s.len(),
{
    let i = find_char(s, c);
    if 0 <= i < s.len() {
        seq![s.subrange(0, i)] + split_char(s.subrange(i + 1, s.len() as int), c)
    } else {
        seq![s]
    }
}

/// The pieces of `s` between occurrences of `c` (`str::split`).
pub fn split_char_exec(s: &[char], c: char) -> (r: Vec<Vec<char>>)
    ensures
        views(r@) == split_char(s@, c),
{
    let mut out: Vec<Vec<char>> = Vec::new();
    let mut current: Vec<char> = Vec::new();
    let mut start: usize = 0;
    let mut i: usize = 0;
    assert(s@.subrange(0, s.len() as int) =~= s@);
    assert(views(out@) =~= Seq::<Seq<char>>::empty());
    while i < s.len()
        invariant
            start <= i <= s.len(),
            current@ == s@.subrange(start as int, i as int),
            forall|k: int| start <= k < i ==> s@[k] != c,
            split_char(s@, c) == views(out@) + split_char(s@.subrange(start as int, s.len() as int), c),
        decreases s.len() - i,
    {
        if s[i] == c {
            let ghost rest = s@.subrange(start as int, s.len() as int);
            proof {
                assert forall|k: int| 0 <= k < i - start implies rest[k] != c by {
                    assert(rest[k] == s@[start + k]);
                }
                lemma_find_char_at(rest, c, i - start);
                assert(rest.subrange(0, i - start) =~= current@);
                assert(rest.subrange(i - start + 1, rest.len() as int) =~= s@.subrange(
                    i + 1,
                    s.len() as int,
                ));
            }
            let ghost before = views(out@);
            let piece = current;
            out.push(piece);
            proof {
                assert(views(out@) =~= before.push(rest.subrange(0, i - start)));
                assert(split_char(s@, c) =~= views(out@) + split_char(s@.subrange(i + 1, s.len() as int), c));
            }
            current = Vec::new();
            start = i + 1;
        } else {
            current.push(s[i]);
            assert(s@.subrange(start as int, i + 1) =~= s@.subrange(start as int, i as int).push(
                s@[i as int],
            ));
        }
        i = i + 1;
    }
    let ghost rest = s@.subrange(start as int, s.len() as int);
    proof {
        assert forall|k: int| 0 <= k < rest.len() implies rest[k] != c by {
            assert(rest[k] == s@[start + k]);
        }
        lemma_find_char_at(rest, c, rest.len() as int);
    }
    let ghost before = views(out@);
    out.push(current);
    assert(views(out@) =~= before.push(rest));
    assert(views(out@) =~= split_char(s@, c));
    out
}

/// An ASCII decimal digit.
pub open spec fn is_digit(c: char) -> bool {
    '0' <= c && c <= '9'
}

/// Every character of `s` is a decimal digit.
pub open spec fn all_digits(s: Seq<char>) -> bool {
    forall|i: int| 0 <= i < s.len() ==> is_digit(#[trigger] s[i])
}

/// The number written by the decimal digits `s` (0 for no digit).
pub open spec fn digits_value(s: Seq<char>) -> int
    decreases s.len(),
{
    if s.len() == 0 {
        0
    } else {
        digits_value(s.drop_last()) * 10 + ((s.last() as int) - 48)
    }
}

/// `s` without one leading `+`.
pub open spec fn unsigned_digits(s: Seq<char>) -> Seq<char> {
    if s.len() > 0 && s[0] == '+' {
        s.drop_first()
    } else {
        s
    }
}

/// `str::parse::<u64>`: an optional `+`, then at least one decimal digit, no more than
/// `u64::MAX`.
pub open spec fn parse_u64(s: Seq<char>) -> Option<u64> {
    let d = unsigned_digits(s);
    if d.len() > 0 && all_digits(d) && digits_value(d) <= u64::MAX {
        Some(digits_value(d) as u64)
    } else {
        None
    }
}

/// A digit string never denotes less than any of its prefixes.
pub proof fn lemma_digits_value_prefix(s: Seq<char>, j: int)
    requires
        all_digits(s),
        0 <= j <= s.len(),
    ensures
        0 <= digits_value(s.take(j)) <= digits_value(s),
    decreases s.len(),
{
    if s.len() > 0 {
        let p = s.drop_last();
        assert(all_digits(p)) by {
            assert forall|i: int| 0 <= i < p.len() implies is_digit(#[trigger] p[i]) by {
                assert(p[i] == s[i]);
            }
        }
        assert(is_digit(s[s.len() - 1]));
        if j < s.len() {
            lemma_digits_value_prefix(p, j);
            assert(p.take(j) =~= s.take(j));
            lemma_digits_value_prefix(p, p.len() as int);
            assert(p.take(p.len() as int) =~= p);
        } else {
            assert(s.take(j) =~= s);
            lemma_digits_value_prefix(p, p.len() as int);
            assert(p.take(p.len() as int) =~= p);
        }
    } else {
        assert(s.take(j) =~= s);
    }
}

/// `str::parse::<u64>` on characters.
pub fn parse_u64_exec(s: &[char]) -> (r: Option<u64>)
    ensures
        r == parse_u64(s@),
{
    let start: usize = if s.len() > 0 && s[0] == '+' { 1 } else { 0 };
    let ghost d = unsigned_digits(s@);
    assert(d =~= s@.subrange(start as int, s.len() as int));
    if start >= s.len() {
        return None;
    }
    let mut v: u64 = 0;
    let mut i: usize = start;
    assert(d.take(0) =~= Seq::<char>::empty());
    while i < s.len()
        invariant
            start <= i <= s.len(),
            d == s@.subrange(start as int, s.len() as int),
            d == unsigned_digits(s@),
            all_digits(d.take(i - start)),
            v == digits_value(d.take(i - start)),
        decreases s.len() - i,
    {
        let c = s[i];
        assert(d[i - start] == c);
        if !('0' <= c && c <= '9') {
            assert(!is_digit(d[i - start]));
            return None;
        }
        let dv: u64 = ((c as u32) - 48) as u64;
        let ghost next = d.take(i - start + 1);
        assert(next.drop_last() =~= d.take(i - start));
        assert(next.last() == c);
        assert(all_digits(next)) by {
            assert forall|k: int| 0 <= k < next.len() implies is_digit(#[trigger] next[k]) by {
                if k < next.len() - 1 {
                    assert(next[k] == d.take(i - start)[k]);
                }
            }
        }
        assert(digits_value(next) == v * 10 + dv);
        if v > 1844674407370955161 || (v == 1844674407370955161 && dv > 5) {
            proof {
                if all_digits(d) {
                    lemma_digits_value_prefix(d, i - start + 1);
                }
            }
            return None;
        }
        v = v * 10 + dv;
        i = i + 1;
    }
    assert(d.take(i - start) =~= d);
    Some(v)
}

/// `str::parse::<i32>`: an optional sign, then at least one decimal digit, within the
/// range of `i32`.
pub open spec fn parse_i32(s: Seq<char>) -> Option<i32> {
    if s.len() > 0 && s[0] == '-' {
        let d = s.drop_first();
        if d.len() > 0 && all_digits(d) && digits_value(d) <= 2147483648 {
            Some((0 - digits_value(d)) as i32)
        } else {
            None
        }
    } else {
        match parse_u64(s) {
            Some(n) => if n <= 2147483647 {
                Some(n as i32)
            } else {
                None
            },
            None => None,
        }
    }
}

/// `str::parse::<i32>` on characters.
pub fn parse_i32_exec(s: &[char]) -> (r: Option<i32>)
    ensures
        r == parse_i32(s@),
{
    if s.len() > 0 && s[0] == '-' {
        let d = slice_chars(s, 1, s.len());
        assert(d@ =~= s@.drop_first());
        if d.len() == 0 || d[0] == '+' {
            assert(d@.len() > 0 ==> !is_digit(d@[0]));
            return None;
        }
        assert(unsigned_digits(d@) == d@);
        match parse_u64_exec(&d) {
            Some(n) => {
                proof {
                    lemma_digits_value_prefix(d@, d@.len() as int);
                    assert(d@.take(d@.len() as int) =~= d@);
                }
                if n <= 2147483648 {
                    let v: i64 = 0 - (n as i64);
                    Some(v as i32)
                } else {
                    None
                }
            },
            None => None,
        }
    } else {
        match parse_u64_exec(s) {
            Some(n) => if n <= 2147483647 {
                Some(n as i32)
            } else {
                None
            },
            None => None,
        }
    }
}

/// The decimal digits of `n`, without leading zeros.
pub open spec fn nat_decimal(n: nat) -> Seq<char>
    decreases n,
{
    if n < 10 {
        seq![((n + 48) as u8) as char]
    } else {
        nat_decimal(n / 10).push((((n % 10) + 48) as u8) as char)
    }
}

/// `i` in decimal, with a leading `-` when negative (`Display` of integers).
pub open spec fn int_decimal(i: int) -> Seq<char> {
    if i < 0 {
        seq!['-'] + nat_decimal((-i) as nat)
    } else {
        nat_decimal(i as nat)
    }
}

/// The decimal digits of `n`.
pub fn u64_decimal(n: u64) -> (r: Vec<char>)
    ensures
        r@ == nat_decimal(n as nat),
    decreases n,
{
    let d: u8 = (n % 10) as u8 + 48;
    if n < 10 {
        let mut v: Vec<char> = Vec::new();
        v.push(d as char);
        v
    } else {
        let mut v = u64_decimal(n / 10);
        v.push(d as char);
        v
    }
}

/// `i` in decimal, as `Display` writes a signed integer.
pub fn i64_decimal(i: i64) -> (r: Vec<char>)
    ensures
        r@ == int_decimal(i as int),
{
    if i < 0 {
        let m: u64 = if i == i64::MIN {
            9223372036854775808
        } else {
            (-i) as u64
        };
        let digits = u64_decimal(m);
        let mut v: Vec<char> = Vec::new();
        v.push('-');
        let mut k: usize = 0;
        while k < digits.len()
            invariant
                k <= digits.len(),
                v@ == seq!['-'] + digits@.take(k as int),
            decreases digits.len() - k,
        {
            v.push(digits[k]);
            assert(digits@.take(k + 1) =~= digits@.take(k as int).push(digits@[k as int]));
            k = k + 1;
        }
        assert(digits@.take(digits.len() as int) =~= digits@);
        v
    } else {
        u64_decimal(i as u64)
    }
}

/// `s` with every non-overlapping occurrence of `pat`, from left to right, replaced by
/// `rep` (`str::replace`); an empty pattern leaves `s` as it is.
pub open spec fn replace_all(s: Seq<char>, pat: Seq<char>, rep: Seq<char>) -> Seq<char>
    decreases s.len(),
{
    if pat.len() == 0 || s.len() < pat.len() {
        s
    } else if s.subrange(0, pat.len() as int) == pat {
        rep + replace_all(s.subrange(pat.len() as int, s.len() as int), pat, rep)
    } else {
        seq![s[0]] + replace_all(s.drop_first(), pat, rep)
    }
}

/// `str::replace` with a non-empty pattern.
pub fn replace_all_exec(s: &[char], pat: &[char], rep: &[char]) -> (r: Vec<char>)
    requires
        pat.len() > 0,
    ensures
        r@ == replace_all(s@, pat@, rep@),
{
    let mut out: Vec<char> = Vec::new();
    let mut i: usize = 0;
    assert(s@.subrange(0, s.len() as int) =~= s@);
    while i < s.len()
        invariant
            i <= s.len(),
            pat.len() > 0,
            replace_all(s@, pat@, rep@) == out@ + replace_all(
                s@.subrange(i as int, s.len() as int),
                pat@,
                rep@,
            ),
        decreases s.len() - i,
    {
        let ghost rest = s@.subrange(i as int, s.len() as int);
        if pat.len() <= s.len() - i && occurs_at_exec(s, pat, i) {
            assert(rest.subrange(0, pat.len() as int) =~= s@.subrange(i as int, i + pat.len()));
            assert(rest.subrange(pat.len() as int, rest.len() as int) =~= s@.subrange(
                i + pat.len(),
                s.len() as int,
            ));
            let ghost before = out@;
            let mut k: usize = 0;
            while k < rep.len()
                invariant
                    k <= rep.len(),
                    out@ == before + rep@.take(k as int),
                decreases rep.len() - k,
            {
                out.push(rep[k]);
                assert(rep@.take(k + 1) =~= rep@.take(k as int).push(rep@[k as int]));
                k = k + 1;
            }
            assert(rep@.take(rep.len() as int) =~= rep@);
            assert(before + (rep@ + replace_all(s@.subrange(i + pat.len(), s.len() as int), pat@, rep@))
                =~= out@ + replace_all(s@.subrange(i + pat.len(), s.len() as int), pat@, rep@));
            i = i + pat.len();
        } else {
            proof {
                assert(rest.drop_first() =~= s@.subrange(i + 1, s.len() as int));
                if rest.len() < pat@.len() {
                    assert(rest =~= seq![rest[0]] + rest.drop_first());
                    assert(rest.drop_first().len() < pat@.len());
                } else {
                    assert(rest.subrange(0, pat.len() as int) != pat@) by {
                        if rest.subrange(0, pat.len() as int) == pat@ {
                            assert(s@.subrange(i as int, i + pat.len()) =~= rest.subrange(
                                0,
                                pat.len() as int,
                            ));
                        }
                    }
                }
            }
            let ghost before = out@;
            out.push(s[i]);
            assert(before + (seq![s@[i as int]] + replace_all(s@.subrange(i + 1, s.len() as int), pat@, rep@))
                =~= out@ + replace_all(s@.subrange(i + 1, s.len() as int), pat@, rep@));
            i = i + 1;
        }
    }
    assert(out@ + replace_all(s@.subrange(i as int, s.len() as int), pat@, rep@) =~= out@);
    out
}

/// Index of the first occurrence of `p` in `s` at or after `i`, or `s.len()` when there is none.
pub open spec fn find_sub_from(s: Seq<char>, p: Seq<char>, i: int) -> int
    decreases s.len() + 1 - i,
{
    if i < 0 || i + p.len() > s.len() {
        s.len() as int
    } else if occurs_at(s, p, i) {
        i
    } else {
        find_sub_from(s, p, i + 1)
    }
}

/// `str::split_once` around the first occurrence of a string.
pub open spec fn split_once_sub(s: Seq<char>, p: Seq<char>) -> Option<(Seq<char>, Seq<char>)> {
    let i = find_sub_from(s, p, 0);
    if occurs_at(s, p, i) {
        Some((s.subrange(0, i), s.subrange(i + p.len(), s.len() as int)))
    } else {
        None
    }
}

/// `str::split_once` around the first occurrence of `p`.
pub fn split_once_sub_exec(s: &[char], p: &[char]) -> (r: Option<(Vec<char>, Vec<char>)>)
    ensures
        match split_once_sub(s@, p@) {
            Some((a, b)) => r matches Some((x, y)) && x@ == a && y@ == b,
            None => r is None,
        },
{
    if p.len() > s.len() {
        return None;
    }
    let last = s.len() - p.len();
    let mut i: usize = 0;
    loop
        invariant
            i <= last,
            last == s.len() - p.len(),
            find_sub_from(s@, p@, 0) == find_sub_from(s@, p@, i as int),
        ensures
            i == last,
            !occurs_at(s@, p@, last as int),
            find_sub_from(s@, p@, 0) == find_sub_from(s@, p@, i as int),
        decreases last - i,
    {
        if occurs_at_exec(s, p, i) {
            return Some((slice_chars(s, 0, i), slice_chars(s, i + p.len(), s.len())));
        }
        if i == last {
            break;
        }
        i = i + 1;
    }
    assert(find_sub_from(s@, p@, last as int + 1) == s@.len());
    assert(find_sub_from(s@, p@, 0) == s@.len());
    None
}

/// Trimming the end of a sequence that starts with a non-space keeps that first character.
pub proof fn lemma_trim_end_keeps_first(s: Seq<char>)
    requires
        s.len() > 0,
        !is_ws(s[0]),
    ensures
        trim_end(s).len() > 0,
        trim_end(s)[0] == s[0],
    decreases s.len(),
{
    if is_ws(s.last()) && s.len() > 1 {
        lemma_trim_end_keeps_first(s.drop_last());
    }
}

/// `trim_end` of `c` followed by `t`, by `trim_end(t)`.
pub proof fn lemma_trim_end_cons(s: Seq<char>)
    requires
        s.len() > 0,
    ensures
        trim_end(s) == if trim_end(s.drop_first()).len() > 0 {
            seq![s[0]] + trim_end(s.drop_first())
        } else {
            trim_end(seq![s[0]])
        },
    decreases s.len(),
{
    let t = s.drop_first();
    if s.len() == 1 {
        assert(t.len() == 0);
        assert(s =~= seq![s[0]]);
    } else if is_ws(s.last()) {
        let d = s.drop_last();
        lemma_trim_end_cons(d);
        assert(d.drop_first() =~= t.drop_last());
        assert(t.last() == s.last());
        assert(d[0] == s[0]);
    } else {
        assert(t.last() == s.last());
        assert(seq![s[0]] + t =~= s);
    }
}

/// `trim_end` removes nothing more when applied twice.
pub proof fn lemma_trim_end_idem(s: Seq<char>)
    ensures
        trim_end(trim_end(s)) == trim_end(s),
    decreases s.len(),
{
    if s.len() > 0 && is_ws(s.last()) {
        lemma_trim_end_idem(s.drop_last());
    }
}

/// ASCII upper-casing of one character (`char::to_ascii_uppercase`).
pub open spec fn upper_char(c: char) -> char {
    if 'a' <= c && c <= 'z' {
        ((c as u32) - 32) as char
    } else {
        c
    }
}

/// ASCII upper-casing of a sequence (`str::to_ascii_uppercase`).
pub open spec fn upper(s: Seq<char>) -> Seq<char> {
    s.map_values(|c: char| upper_char(c))
}

/// ASCII upper- or lower-casing of a sequence.
pub open spec fn ascii_cased(s: Seq<char>, up: bool) -> Seq<char> {
    if up {
        upper(s)
    } else {
        lower(s)
    }
}

/// An ASCII character.
pub open spec fn ascii_char(c: char) -> bool {
    '\0' <= c && c <= '\u{7f}'
}

/// ASCII case changes keep white space, stay ASCII, and lower-casing forgets them.
pub proof fn lemma_ascii_case_char(c: char)
    ensures
        is_ws(lower_char(c)) == is_ws(c),
        is_ws(upper_char(c)) == is_ws(c),
        lower_char(upper_char(c)) == lower_char(c),
        lower_char(lower_char(c)) == lower_char(c),
        ascii_char(c) ==> ascii_char(upper_char(c)) && ascii_char(lower_char(c)),
{
}

/// The case-changed sequence, one character at a time.
proof fn lemma_ascii_cased_index(s: Seq<char>, up: bool)
    ensures
        ascii_cased(s, up).len() == s.len(),
        forall|i: int| 0 <= i < s.len() ==> #[trigger] ascii_cased(s, up)[i] == if up {
            upper_char(s[i])
        } else {
            lower_char(s[i])
        },
{
}

/// Changing ASCII case and start-trimming commute.
proof fn lemma_trim_start_cased(s: Seq<char>, up: bool)
    ensures
        trim_start(ascii_cased(s, up)) == ascii_cased(trim_start(s), up),
    decreases s.len(),
{
    lemma_ascii_cased_index(s, up);
    if s.len() > 0 {
        lemma_ascii_case_char(s[0]);
        if is_ws(s[0]) {
            lemma_ascii_cased_index(s.drop_first(), up);
            assert(ascii_cased(s, up).drop_first() =~= ascii_cased(s.drop_first(), up));
            lemma_trim_start_cased(s.drop_first(), up);
        }
    }
}

/// Changing ASCII case and end-trimming commute.
proof fn lemma_trim_end_cased(s: Seq<char>, up: bool)
    ensures
        trim_end(ascii_cased(s, up)) == ascii_cased(trim_end(s), up),
    decreases s.len(),
{
    lemma_ascii_cased_index(s, up);
    if s.len() > 0 {
        lemma_ascii_case_char(s.last());
        if is_ws(s.last()) {
            lemma_ascii_cased_index(s.drop_last(), up);
            assert(ascii_cased(s, up).drop_last() =~= ascii_cased(s.drop_last(), up));
            lemma_trim_end_cased(s.drop_last(), up);
        }
    }
}

/// Changing ASCII case and trimming commute.
pub proof fn lemma_trim_cased(s: Seq<char>, up: bool)
    ensures
        trim(ascii_cased(s, up)) == ascii_cased(trim(s), up),
{
    lemma_trim_start_cased(s, up);
    lemma_trim_end_cased(trim_start(s), up);
}

/// Trimming keeps a text ASCII.
pub proof fn lemma_trim_keeps_ascii(s: Seq<char>)
    requires
        is_ascii_chars(s),
    ensures
        is_ascii_chars(trim_start(s)),
        is_ascii_chars(trim(s)),
    decreases s.len(),
{
    if s.len() > 0 && is_ws(s[0]) {
        assert(is_ascii_chars(s.drop_first())) by {
            assert forall|i: int| 0 <= i < s.drop_first().len() implies ascii_char(#[trigger] s.drop_first()[i]) by {
                assert(s.drop_first()[i] == s[i + 1]);
            }
        }
        lemma_trim_keeps_ascii(s.drop_first());
    }
    lemma_trim_end_keeps_ascii(trim_start(s));
}

/// End-trimming keeps a text ASCII.
proof fn lemma_trim_end_keeps_ascii(s: Seq<char>)
    requires
        is_ascii_chars(s),
    ensures
        is_ascii_chars(trim_end(s)),
    decreases s.len(),
{
    if s.len() > 0 && is_ws(s.last()) {
        assert(is_ascii_chars(s.drop_last())) by {
            assert forall|i: int| 0 <= i < s.drop_last().len() implies ascii_char(#[trigger] s.drop_last()[i]) by {
                assert(s.drop_last()[i] == s[i]);
            }
        }
        lemma_trim_end_keeps_ascii(s.drop_last());
    }
}

/// Case changes keep a text ASCII, and lower-casing after one gives the plain lower-casing.
pub proof fn lemma_cased_then_lower(s: Seq<char>, up: bool)
    requires
        is_ascii_chars(s),
    ensures
        is_ascii_chars(ascii_cased(s, up)),
        lower(ascii_cased(s, up)) == lower(s),
{
    lemma_ascii_cased_index(s, up);
    assert forall|i: int| 0 <= i < s.len() implies ascii_char(#[trigger] ascii_cased(s, up)[i])
        && lower(ascii_cased(s, up))[i] == lower(s)[i] by {
        lemma_ascii_case_char(s[i]);
    }
    assert(lower(ascii_cased(s, up)) =~= lower(s));
}

/// Every character of `s` is white space.
pub open spec fn all_ws(s: Seq<char>) -> bool {
    forall|i: int| 0 <= i < s.len() ==> is_ws(#[trigger] s[i])
}

/// Leading white space makes no difference to a start-trim.
pub proof fn lemma_trim_start_skips_ws(a: Seq<char>, x: Seq<char>)
    requires
        all_ws(a),
    ensures
        trim_start(a + x) == trim_start(x),
    decreases a.len(),
{
    if a.len() > 0 {
        assert((a + x)[0] == a[0]);
        assert((a + x).drop_first() =~= a.drop_first() + x);
        assert(all_ws(a.drop_first())) by {
            assert forall|i: int| 0 <= i < a.drop_first().len() implies is_ws(#[trigger] a.drop_first()[i]) by {
                assert(a.drop_first()[i] == a[i + 1]);
            }
        }
        lemma_trim_start_skips_ws(a.drop_first(), x);
    } else {
        assert(a + x =~= x);
    }
}

/// Trailing white space makes no difference to an end-trim.
pub proof fn lemma_trim_end_skips_ws(x: Seq<char>, b: Seq<char>)
    requires
        all_ws(b),
    ensures
        trim_end(x + b) == trim_end(x),
    decreases b.len(),
{
    if b.len() > 0 {
        assert((x + b).last() == b.last());
        assert((x + b).drop_last() =~= x + b.drop_last());
        assert(all_ws(b.drop_last())) by {
            assert forall|i: int| 0 <= i < b.drop_last().len() implies is_ws(#[trigger] b.drop_last()[i]) by {
                assert(b.drop_last()[i] == b[i]);
            }
        }
        lemma_trim_end_skips_ws(x, b.drop_last());
    } else {
        assert(x + b =~= x);
    }
}

/// White space around a text makes no difference to its trim.
pub proof fn lemma_trim_surrounding_ws(a: Seq<char>, x: Seq<char>, b: Seq<char>)
    requires
        all_ws(a),
        all_ws(b),
    ensures
        trim(a + x + b) == trim(x),
{
    assert(a + x + b =~= a + (x + b));
    lemma_trim_start_skips_ws(a, x + b);
    lemma_trim_commute(x + b);
    lemma_trim_end_skips_ws(x, b);
    lemma_trim_commute(x);
}

/// Trimming the start and trimming the end commute.
pub proof fn lemma_trim_commute(s: Seq<char>)
    ensures
        trim_start(trim_end(s)) == trim_end(trim_start(s)),
    decreases s.len(),
{
    if s.len() == 0 {
    } else if is_ws(s[0]) {
        let t = s.drop_first();
        lemma_trim_commute(t);
        lemma_trim_end_cons(s);
        if trim_end(t).len() > 0 {
            let u = seq![s[0]] + trim_end(t);
            assert(u.drop_first() =~= trim_end(t));
        } else {
            assert(seq![s[0]].drop_last().len() == 0);
            assert(trim_end(seq![s[0]]) == trim_end(seq![s[0]].drop_last()));
        }
    } else {
        lemma_trim_end_keeps_first(s);
    }
}

/// `trim` is also the start-trim of the end-trim.
pub proof fn lemma_trim_alt(s: Seq<char>)
    ensures
        trim(s) == trim_start(trim_end(s)),
{
    lemma_trim_commute(s);
}

/// Trimming after an end-trim gives the plain trim.
pub proof fn lemma_trim_of_trim_end(s: Seq<char>)
    ensures
        trim(trim_end(s)) == trim(s),
{
    lemma_trim_commute(trim_end(s));
    lemma_trim_end_idem(s);
    lemma_trim_commute(s);
}

/// The end-trim of a sequence whose part `a` ends in a non-space is `a` then the end-trim of
/// the rest.
pub proof fn lemma_trim_end_after(a: Seq<char>, v: Seq<char>)
    requires
        a.len() > 0,
        !is_ws(a.last()),
    ensures
        trim_end(a + v) == a + trim_end(v),
    decreases v.len(),
{
    if v.len() == 0 {
        assert(a + v =~= a);
        assert(a + trim_end(v) =~= a);
    } else if is_ws(v.last()) {
        assert((a + v).drop_last() =~= a + v.drop_last());
        lemma_trim_end_after(a, v.drop_last());
    } else {
        assert((a + v).last() == v.last());
    }
}

/// A trimmed sequence neither starts nor ends with white space.
pub proof fn lemma_trim_ends(s: Seq<char>)
    ensures
        trim(s).len() > 0 ==> !is_ws(trim(s)[0]) && !is_ws(trim(s).last()),
    decreases s.len(),
{
    lemma_trim_start_first(s);
    let t = trim_start(s);
    if trim_end(t).len() > 0 {
        lemma_trim_end_last(t);
        lemma_trim_end_keeps_first(t);
    }
}

/// A start-trimmed sequence does not start with white space.
pub proof fn lemma_trim_start_first(s: Seq<char>)
    ensures
        trim_start(s).len() > 0 ==> !is_ws(trim_start(s)[0]),
    decreases s.len(),
{
    if s.len() > 0 && is_ws(s[0]) {
        lemma_trim_start_first(s.drop_first());
    }
}

/// An end-trimmed sequence does not end with white space.
pub proof fn lemma_trim_end_last(s: Seq<char>)
    ensures
        trim_end(s).len() > 0 ==> !is_ws(trim_end(s).last()),
    decreases s.len(),
{
    if s.len() > 0 && is_ws(s.last()) {
        lemma_trim_end_last(s.drop_last());
    }
}

/// Dropping one final carriage return does not change the trim.
pub proof fn lemma_trim_strip_cr(s: Seq<char>)
    ensures
        trim(strip_cr(s)) == trim(s),
{
    lemma_trim_alt(s);
    lemma_trim_alt(strip_cr(s));
}

/// `split_once` around the first `c` of `a`, `c` and `w`, when `a` holds no `c`.
pub proof fn lemma_split_once_at(a: Seq<char>, c: char, w: Seq<char>)
    requires
        forall|i: int| 0 <= i < a.len() ==> a[i] != c,
    ensures
        split_once(a + seq![c] + w, c) == Some((a, w)),
{
    let s = a + seq![c] + w;
    assert forall|i: int| 0 <= i < a.len() implies s[i] != c by {
        assert(s[i] == a[i]);
    }
    lemma_find_char_at(s, c, a.len() as int);
    assert(s.subrange(0, a.len() as int) =~= a);
    assert(s.subrange(a.len() as int + 1, s.len() as int) =~= w);
}

/// The words of `s` (`str::split_whitespace`): the maximal runs of characters that are not
/// white space, in order.
pub open spec fn words(s: Seq<char>) -> Seq<Seq<char>>
    decreases s.len(),
{
    if s.len() == 0 {
        Seq::empty()
    } else {
        let p = words(s.drop_last());
        let c = s.last();
        if is_ws(c) {
            p
        } else if s.len() >= 2 && !is_ws(s[s.len() - 2]) {
            p.update(p.len() - 1, p.last().push(c))
        } else {
            p.push(seq![c])
        }
    }
}

/// A text that ends in a non-space character has a word.
pub proof fn lemma_words_nonempty(s: Seq<char>)
    requires
        s.len() > 0,
        !is_ws(s.last()),
    ensures
        words(s).len() > 0,
    decreases s.len(),
{
    if s.len() >= 2 && !is_ws(s[s.len() - 2]) {
        lemma_words_nonempty(s.drop_last());
    }
}

/// The words of `s` (`str::split_whitespace`).
pub fn words_exec(s: &[char]) -> (r: Vec<Vec<char>>)
    ensures
        views(r@) == words(s@),
{
    let mut out: Vec<Vec<char>> = Vec::new();
    assert(views(out@) =~= Seq::<Seq<char>>::empty());
    assert(s@.take(0) =~= Seq::<char>::empty());
    for i in 0..s.len()
        invariant
            views(out@) == words(s@.take(i as int)),
    {
        let c = s[i];
        let ghost t = s@.take(i + 1);
        assert(t.drop_last() =~= s@.take(i as int));
        assert(t.last() == c);
        if !is_whitespace(c) {
            if i >= 1 && !is_whitespace(s[i - 1]) {
                assert(t[t.len() - 2] == s@[i - 1]);
                proof {
                    let u = s@.take(i as int);
                    assert(u.last() == s@[i - 1]);
                    lemma_words_nonempty(u);
                }
                let last = out.len() - 1;
                let mut word = out[last].clone();
                let ghost before = views(out@);
                word.push(c);
                out.set(last, word);
                assert(views(out@) =~= before.update(before.len() - 1, before.last().push(c)));
            } else {
                let ghost before = views(out@);
                let mut word: Vec<char> = Vec::new();
                word.push(c);
                out.push(word);
                assert(views(out@) =~= before.push(seq![c]));
            }
        }
    }
    assert(s@.take(s.len() as int) =~= s@);
    out
}

/// `s` without its leading white space (`str::trim_start`).
pub fn trim_start_chars(s: &[char]) -> (r: Vec<char>)
    ensures
        r@ == trim_start(s@),
{
    let mut i: usize = 0;
    assert(s@.subrange(0, s@.len() as int) =~= s@);
    while i < s.len() && is_whitespace(s[i])
        invariant
            i <= s.len(),
            trim_start(s@) == trim_start(s@.subrange(i as int, s.len() as int)),
        decreases s.len() - i,
    {
        proof {
            lemma_trim_start_step(s@, i as int);
        }
        i = i + 1;
    }
    slice_chars(s, i, s.len())
}

/// `a == b` on character sequences.
pub fn eq_chars(a: &[char], b: &[char]) -> (r: bool)
    ensures
        r == (a@ == b@),
{
    if a.len() != b.len() {
        return false;
    }
    for i in 0..a.len()
        invariant
            a.len() == b.len(),
            forall|k: int| 0 <= k < i ==> a@[k] == b@[k],
    {
        if a[i] != b[i] {
            return false;
        }
    }
    assert(a@ =~= b@);
    true
}

/// `a@ == b@` where `b` is a string.
pub fn eq_str(a: &[char], b: &str) -> (r: bool)
    ensures
        r == (a@ == b@),
{
    let bv = chars_of(b);
    eq_chars(a, &bv)
}

/// `needle` occurs in `hay` at `i`.
pub fn occurs_at_exec(hay: &[char], needle: &[char], i: usize) -> (r: bool)
    ensures
        r == occurs_at(hay@, needle@, i as int),
{
    if i > hay.len() || needle.len() > hay.len() - i {
        return false;
    }
    for k in 0..needle.len()
        invariant
            i + needle.len() <= hay.len(),
            forall|m: int| 0 <= m < k ==> hay@[i + m] == needle@[m],
    {
        if hay[i + k] != needle[k] {
            assert(hay@.subrange(i as int, i + needle.len())[k as int] != needle@[k as int]);
            return false;
        }
    }
    assert(hay@.subrange(i as int, i + needle.len()) =~= needle@);
    true
}

/// `str::contains` on character sequences.
pub fn contains_chars(hay: &[char], needle: &[char]) -> (r: bool)
    ensures
        r == contains(hay@, needle@),
{
    if needle.len() > hay.len() {
        assert forall|i: int| !occurs_at(hay@, needle@, i) by {}
        return false;
    }
    let last = hay.len() - needle.len();
    let mut i: usize = 0;
    while i <= last
        invariant
            last == hay.len() - needle.len(),
            i <= last + 1,
            forall|k: int| 0 <= k < i ==> !occurs_at(hay@, needle@, k),
        ensures
            forall|k: int| 0 <= k <= last ==> !occurs_at(hay@, needle@, k),
        decreases last + 1 - i,
    {
        if occurs_at_exec(hay, needle, i) {
            return true;
        }
        if i == last {
            break;
        }
        i = i + 1;
    }
    assert forall|k: int| !occurs_at(hay@, needle@, k) by {
        if 0 <= k <= last {
        }
    }
    false
}

/// `str::contains` with a string needle.
pub fn contains_str(hay: &[char], needle: &str) -> (r: bool)
    ensures
        r == contains(hay@, needle@),
{
    let n = chars_of(needle);
    contains_chars(hay, &n)
}

/// `str::starts_with` with a string prefix.
pub fn starts_with_str(s: &[char], p: &str) -> (r: bool)
    ensures
        r == starts_with(s@, p@),
{
    let pv = chars_of(p);
    occurs_at_exec(s, &pv, 0)
}

/// `str::ends_with` with a string suffix.
pub fn ends_with_str(s: &[char], p: &str) -> (r: bool)
    ensures
        r == ends_with(s@, p@),
{
    let pv = chars_of(p);
    if pv.len() > s.len() {
        return false;
    }
    occurs_at_exec(s, &pv, s.len() - pv.len())
}

/// Index of the first `c` in `s`, or `s.len()` when there is none.
pub open spec fn find_char(s: Seq<char>, c: char) -> int
    decreases s.len(),
{
    if s.len() == 0 {
        0
    } else if s[0] == c {
        0
    } else {
        1 + find_char(s.drop_first(), c)
    }
}

/// `find_char` is an index of `c`, or the length; no `c` comes before it.
pub proof fn lemma_find_char(s: Seq<char>, c: char)
    ensures
        0 <= find_char(s, c) <= s.len(),
        find_char(s, c) < s.len() ==> s[find_char(s, c)] == c,
        forall|k: int| 0 <= k < find_char(s, c) ==> s[k] != c,
    decreases s.len(),
{
    if s.len() > 0 && s[0] != c {
        lemma_find_char(s.drop_first(), c);
        assert forall|k: int| 0 <= k < find_char(s, c) implies s[k] != c by {
            if k > 0 {
                assert(s[k] == s.drop_first()[k - 1]);
            }
        }
    }
}

/// The index of the first `c` is `i` when `s[i] == c` and no `c` comes before.
pub proof fn lemma_find_char_at(s: Seq<char>, c: char, i: int)
    requires
        0 <= i <= s.len(),
        i < s.len() ==> s[i] == c,
        forall|k: int| 0 <= k < i ==> s[k] != c,
    ensures
        find_char(s, c) == i,
    decreases s.len(),
{
    if s.len() > 0 && i > 0 {
        assert forall|k: int| 0 <= k < i - 1 implies s.drop_first()[k] != c by {
            assert(s.drop_first()[k] == s[k + 1]);
        }
        lemma_find_char_at(s.drop_first(), c, i - 1);
    }
}

/// `s` without one trailing carriage return.
pub open spec fn strip_cr(s: Seq<char>) -> Seq<char> {
    if s.len() > 0 && s.last() == '\r' {
        s.drop_last()
    } else {
        s
    }
}

/// The lines of `s` (`str::lines`): split after each `\n`, each line without its `\n` and
/// then one `\r` before it; no empty line after a final `\n`.
pub open spec fn lines(s: Seq<char>) -> Seq<Seq<char>>
    decreases s.len(),
{
    if s.len() == 0 {
        Seq::empty()
    } else {
        let i = find_char(s, '\n');
        if 0 <= i < s.len() {
            seq![strip_cr(s.subrange(0, i))] + lines(s.subrange(i + 1, s.len() as int))
        } else {
            seq![s]
        }
    }
}

/// `str::split_once` around the first `c`.
pub open spec fn split_once(s: Seq<char>, c: char) -> Option<(Seq<char>, Seq<char>)> {
    let i = find_char(s, c);
    if 0 <= i < s.len() {
        Some((s.subrange(0, i), s.subrange(i + 1, s.len() as int)))
    } else {
        None
    }
}

/// Index of the first `c` in `s`, or `s.len()`.
pub fn find_char_exec(s: &[char], c: char) -> (r: usize)
    ensures
        r == find_char(s@, c),
{
    let mut i: usize = 0;
    while i < s.len() && s[i] != c
        invariant
            i <= s.len(),
            forall|k: int| 0 <= k < i ==> s@[k] != c,
        decreases s.len() - i,
    {
        i = i + 1;
    }
    proof {
        lemma_find_char_at(s@, c, i as int);
    }
    i
}

/// `str::split_once` around the first `c`.
pub fn split_once_exec(s: &[char], c: char) -> (r: Option<(Vec<char>, Vec<char>)>)
    ensures
        match split_once(s@, c) {
            Some((a, b)) => r matches Some((x, y)) && x@ == a && y@ == b,
            None => r is None,
        },
{
    let i = find_char_exec(s, c);
    proof {
        lemma_find_char(s@, c);
    }
    if i < s.len() {
        Some((slice_chars(s, 0, i), slice_chars(s, i + 1, s.len())))
    } else {
        None
    }
}

/// `strip_cr` on an owned line.
fn strip_cr_exec(v: Vec<char>) -> (r: Vec<char>)
    ensures
        r@ == strip_cr(v@),
{
    let mut v = v;
    if v.len() > 0 && v[v.len() - 1] == '\r' {
        v.pop();
    }
    v
}

/// The character sequences held by a vector of character vectors.
pub open spec fn views(v: Seq<Vec<char>>) -> Seq<Seq<char>> {
    v.map_values(|x: Vec<char>| x@)
}

/// The lines of `s` (`str::lines`).
pub fn lines_exec(s: &[char]) -> (r: Vec<Vec<char>>)
    ensures
        views(r@) == lines(s@),
{
    let mut out: Vec<Vec<char>> = Vec::new();
    let mut current: Vec<char> = Vec::new();
    let mut start: usize = 0;
    let mut i: usize = 0;
    assert(s@.subrange(0, s.len() as int) =~= s@);
    assert(views(out@) =~= Seq::<Seq<char>>::empty());
    while i < s.len()
        invariant
            start <= i <= s.len(),
            current@ == s@.subrange(start as int, i as int),
            forall|k: int| start <= k < i ==> s@[k] != '\n',
            lines(s@) == views(out@) + lines(s@.subrange(start as int, s.len() as int)),
        decreases s.len() - i,
    {
        if s[i] == '\n' {
            let ghost rest = s@.subrange(start as int, s.len() as int);
            proof {
                assert forall|k: int| 0 <= k < i - start implies rest[k] != '\n' by {
                    assert(rest[k] == s@[start + k]);
                }
                lemma_find_char_at(rest, '\n', i - start);
                assert(rest.subrange(0, i - start) =~= current@);
                assert(rest.subrange(i - start + 1, rest.len() as int) =~= s@.subrange(
                    i + 1,
                    s.len() as int,
                ));
            }
            let line = strip_cr_exec(current);
            let ghost before = views(out@);
            out.push(line);
            proof {
                assert(views(out@) =~= before.push(strip_cr(rest.subrange(0, i - start))));
                assert(lines(rest) == seq![strip_cr(rest.subrange(0, i - start))] + lines(
                    s@.subrange(i + 1, s.len() as int),
                ));
                assert(lines(s@) =~= views(out@) + lines(s@.subrange(i + 1, s.len() as int)));
            }
            current = Vec::new();
            start = i + 1;
        } else {
            current.push(s[i]);
            assert(s@.subrange(start as int, i + 1) =~= s@.subrange(start as int, i as int).push(
                s@[i as int],
            ));
        }
        i = i + 1;
    }
    let ghost rest = s@.subrange(start as int, s.len() as int);
    proof {
        assert forall|k: int| 0 <= k < rest.len() implies rest[k] != '\n' by {
            assert(rest[k] == s@[start + k]);
        }
        lemma_find_char_at(rest, '\n', rest.len() as int);
    }
    if current.len() > 0 {
        out.push(current);
    }
    assert(views(out@) =~= lines(s@));
    out
}

} // verus!

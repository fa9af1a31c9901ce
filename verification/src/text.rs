//! Character-level string helpers shared by the rest of the library.
use vstd::prelude::*;
use vstd::string::*;

verus! {

/// The characters of `s`, in order.
pub fn chars_of(s: &str) -> (v: Vec<char>)
    ensures
        v@ == s@,
{
    let n = s.unicode_len();
    let mut v: Vec<char> = Vec::new();
    let mut i: usize = 0;
    while i < n
        invariant
            n == s@.len(),
            i <= n,
            v@ == s@.subrange(0, i as int),
        decreases n - i,
    {
        let c = s.get_char(i);
        v.push(c);
        i += 1;
        assert(v@ =~= s@.subrange(0, i as int));
    }
    v
}

/// Appends one character: `String::push` from std.
#[verifier::external_body]
pub(crate) fn push_char(s: &mut String, c: char)
    ensures
        final(s)@ == old(s)@.push(c),
{
    s.push(c);
}

/// A string made of the characters of `v`, in order.
pub fn string_of(v: &[char]) -> (s: String)
    ensures
        s@ == v@,
{
    let mut s = String::new();
    let mut i: usize = 0;
    while i < v.len()
        invariant
            i <= v@.len(),
            s@ == v@.subrange(0, i as int),
        decreases v@.len() - i,
    {
        push_char(&mut s, v[i]);
        i += 1;
        assert(s@ =~= v@.subrange(0, i as int));
    }
    assert(s@ =~= v@);
    s
}

} // verus!

verus! {

/// Whether `c` has the Unicode `White_Space` property, the set of characters that
/// `char::is_whitespace`, `str::trim` and the regex class `\s` treat as white space.
pub open spec fn is_white_space(c: char) -> bool {
    let u = c as u32;
    ||| 9 <= u <= 13
    ||| u == 32
    ||| u == 0x85
    ||| u == 0xa0
    ||| u == 0x1680
    ||| 0x2000 <= u <= 0x200a
    ||| u == 0x2028
    ||| u == 0x2029
    ||| u == 0x202f
    ||| u == 0x205f
    ||| u == 0x3000
}

/// Tests `c` for the `White_Space` property.
pub fn is_white_space_char(c: char) -> (b: bool)
    ensures
        b == is_white_space(c),
{
    let u = c as u32;
    (9 <= u && u <= 13) || u == 32 || u == 0x85 || u == 0xa0 || u == 0x1680 || (0x2000 <= u && u
        <= 0x200a) || u == 0x2028 || u == 0x2029 || u == 0x202f || u == 0x205f || u == 0x3000
}

/// `s` without its leading white space.
pub open spec fn trim_start_ws(s: Seq<char>) -> Seq<char>
    decreases s.len(),
{
    if s.len() > 0 && is_white_space(s[0]) {
        trim_start_ws(s.drop_first())
    } else {
        s
    }
}

/// `s` without its trailing white space.
pub open spec fn trim_end_ws(s: Seq<char>) -> Seq<char>
    decreases s.len(),
{
    if s.len() > 0 && is_white_space(s.last()) {
        trim_end_ws(s.drop_last())
    } else {
        s
    }
}

/// `s` without leading and trailing white space, as `str::trim` gives it.
pub open spec fn trim_ws(s: Seq<char>) -> Seq<char> {
    trim_end_ws(trim_start_ws(s))
}

/// The characters of `s` without leading and trailing white space.
pub fn trim_chars(s: &[char]) -> (t: Vec<char>)
    ensures
        t@ == trim_ws(s@),
{
    let n = s.len();
    let mut i: usize = 0;
    assert(s@.subrange(0, n as int) =~= s@);
    while i < n && is_white_space_char(s[i])
        invariant
            n == s@.len(),
            i <= n,
            trim_start_ws(s@) == trim_start_ws(s@.subrange(i as int, n as int)),
        decreases n - i,
    {
        assert(s@.subrange(i as int, n as int).drop_first() =~= s@.subrange(i + 1, n as int));
        i += 1;
    }
    assert(trim_start_ws(s@.subrange(i as int, n as int)) == s@.subrange(i as int, n as int));
    let mut j: usize = n;
    while j > i && is_white_space_char(s[j - 1])
        invariant
            n == s@.len(),
            i <= j <= n,
            trim_ws(s@) == trim_end_ws(s@.subrange(i as int, j as int)),
        decreases j,
    {
        assert(s@.subrange(i as int, j as int).drop_last() =~= s@.subrange(i as int, j - 1));
        j -= 1;
    }
    assert(trim_end_ws(s@.subrange(i as int, j as int)) == s@.subrange(i as int, j as int));
    let mut t: Vec<char> = Vec::new();
    let mut k: usize = i;
    while k < j
        invariant
            n == s@.len(),
            i <= k <= j <= n,
            t@ == s@.subrange(i as int, k as int),
        decreases j - k,
    {
        t.push(s[k]);
        k += 1;
        assert(t@ =~= s@.subrange(i as int, k as int));
    }
    t
}

/// Name for what `str::to_lowercase` returns: the lowercase equivalent of a string
/// under the Unicode case mappings.
pub uninterp spec fn lowercase(s: Seq<char>) -> Seq<char>;

/// `str::to_lowercase` from std.
#[verifier::external_body]
pub(crate) fn to_lowercase(s: &str) -> (r: String)
    ensures
        r@ == lowercase(s@),
{
    s.to_lowercase()
}

/// `s` with every `from` replaced by `to`.
pub open spec fn replace_char(s: Seq<char>, from: char, to: char) -> Seq<char> {
    s.map_values(|c: char| if c == from { to } else { c })
}

/// The characters of `s` with every `from` replaced by `to`.
pub fn replace_char_in(s: &[char], from: char, to: char) -> (t: Vec<char>)
    ensures
        t@ == replace_char(s@, from, to),
        t@.len() == s@.len(),
        forall|i: int| 0 <= i < s@.len() ==> #[trigger] t@[i] == (if s@[i] == from { to } else { s@[i] }),
{
    let mut t: Vec<char> = Vec::new();
    let mut i: usize = 0;
    while i < s.len()
        invariant
            i <= s@.len(),
            t@ == replace_char(s@.subrange(0, i as int), from, to),
        decreases s@.len() - i,
    {
        let c = s[i];
        if c == from {
            t.push(to);
        } else {
            t.push(c);
        }
        i += 1;
        assert(t@ =~= replace_char(s@.subrange(0, i as int), from, to));
    }
    assert(s@.subrange(0, s@.len() as int) =~= s@);
    t
}

/// `s` without any occurrence of `c`.
pub open spec fn remove_char(s: Seq<char>, c: char) -> Seq<char>
    decreases s.len(),
{
    if s.len() == 0 {
        s
    } else if s.last() == c {
        remove_char(s.drop_last(), c)
    } else {
        remove_char(s.drop_last(), c).push(s.last())
    }
}

/// The characters of `s` without any occurrence of `c`.
pub fn remove_char_from(s: &[char], c: char) -> (t: Vec<char>)
    ensures
        t@ == remove_char(s@, c),
        t@ == s@.filter(|x: char| x != c),
{
    proof {
        law_remove_char_keeps_the_rest_in_order(s@, c);
    }
    let mut t: Vec<char> = Vec::new();
    let mut i: usize = 0;
    while i < s.len()
        invariant
            i <= s@.len(),
            t@ == remove_char(s@.subrange(0, i as int), c),
        decreases s@.len() - i,
    {
        assert(s@.subrange(0, i + 1).drop_last() =~= s@.subrange(0, i as int));
        if s[i] != c {
            t.push(s[i]);
        }
        i += 1;
    }
    assert(s@.subrange(0, s@.len() as int) =~= s@);
    t
}

} // verus!

verus! {

/// The ASCII digit for `d` (0 through 9).
pub open spec fn digit_char(d: nat) -> char {
    ((d + 48) as u32) as char
}

/// Whether `c` is one of the ASCII digits `0` through `9`.
pub open spec fn is_digit(c: char) -> bool {
    48 <= (c as u32) <= 57
}

/// The number an ASCII digit stands for.
pub open spec fn digit_value(c: char) -> nat {
    ((c as u32) - 48) as nat
}

/// The decimal text of `n`, as `usize`'s `Display` writes it: no sign, no leading zero.
pub open spec fn decimal(n: nat) -> Seq<char>
    decreases n,
{
    if n < 10 {
        seq![digit_char(n)]
    } else {
        decimal(n / 10).push(digit_char(n % 10))
    }
}

/// The number that a run of decimal digits denotes.
pub open spec fn digits_value(d: Seq<char>) -> nat
    decreases d.len(),
{
    if d.len() == 0 {
        0
    } else {
        digits_value(d.drop_last()) * 10 + digit_value(d.last())
    }
}

/// Whether every character of `d` is a decimal digit.
pub open spec fn all_digits(d: Seq<char>) -> bool {
    forall|i: int| 0 <= i < d.len() ==> is_digit(#[trigger] d[i])
}

/// `s` without one leading `+`.
pub open spec fn unsigned_digits(s: Seq<char>) -> Seq<char> {
    if s.len() > 0 && s[0] == '+' {
        s.drop_first()
    } else {
        s
    }
}

/// What `str::parse::<usize>` accepts and gives: an optional `+` then at least one
/// decimal digit, denoting a number that fits in `usize`.
pub open spec fn parse_decimal(s: Seq<char>) -> Option<nat> {
    let d = unsigned_digits(s);
    if d.len() > 0 && all_digits(d) && digits_value(d) <= usize::MAX {
        Some(digits_value(d))
    } else {
        None
    }
}

/// The ASCII digit for `d`.
pub fn digit_of(d: u32) -> (c: char)
    requires
        d < 10,
    ensures
        c == digit_char(d as nat),
        is_digit(c),
        digit_value(c) == d,
{
    let b: u8 = (d + 48) as u8;
    let c = b as char;
    assert(c as u32 == d + 48);
    c
}

/// The decimal text of `n`.
pub fn decimal_chars(n: usize) -> (v: Vec<char>)
    ensures
        v@ == decimal(n as nat),
    decreases n,
{
    let d = digit_of((n % 10) as u32);
    if n < 10 {
        let mut v: Vec<char> = Vec::new();
        v.push(d);
        assert(v@ =~= seq![digit_char(n as nat)]);
        v
    } else {
        let mut v = decimal_chars(n / 10);
        v.push(d);
        v
    }
}

/// A value no smaller than any prefix of the same run of digits.
pub proof fn lemma_digits_value_prefix(d: Seq<char>, k: int)
    requires
        0 <= k <= d.len(),
    ensures
        digits_value(d.take(k)) <= digits_value(d),
    decreases d.len(),
{
    if k < d.len() {
        lemma_digits_value_prefix(d.drop_last(), k);
        assert(d.drop_last().take(k) =~= d.take(k));
    } else {
        assert(d.take(k) =~= d);
    }
}

/// Parses `s` as `str::parse::<usize>` does.
pub fn parse_usize(s: &str) -> (r: Option<usize>)
    ensures
        r is Some <==> parse_decimal(s@) is Some,
        r matches Some(v) ==> parse_decimal(s@) == Some(v as nat),
{
    let cs = chars_of(s);
    let n = cs.len();
    let start: usize = if n > 0 && cs[0] == '+' { 1 } else { 0 };
    let ghost d = unsigned_digits(s@);
    assert(d =~= cs@.subrange(start as int, n as int));
    if start == n {
        return None;
    }
    let mut acc: usize = 0;
    let mut i: usize = start;
    while i < n
        invariant
            cs@ == s@,
            n == cs@.len(),
            start <= i <= n,
            d == cs@.subrange(start as int, n as int),
            d == unsigned_digits(s@),
            all_digits(d.take(i - start)),
            acc as nat == digits_value(d.take(i - start)),
        decreases n - i,
    {
        let c = cs[i];
        let u = c as u32;
        assert(d[i - start] == c);
        if u < 48 || u > 57 {
            assert(!is_digit(d[i - start]));
            assert(!all_digits(d));
            return None;
        }
        assert(d.take(i + 1 - start).drop_last() =~= d.take(i - start));
        let next = match acc.checked_mul(10) {
            Some(m) => m.checked_add((u - 48) as usize),
            None => None,
        };
        match next {
            Some(v) => {
                acc = v;
            },
            None => {
                proof {
                    let p = d.take(i + 1 - start);
                    assert(p.last() == c);
                    assert(digits_value(p) == acc * 10 + (u - 48));
                    lemma_digits_value_prefix(d, i + 1 - start);
                    if all_digits(d) {
                        assert(digits_value(d) > usize::MAX);
                    }
                }
                return None;
            },
        }
        i += 1;
    }
    assert(d.take(n - start) =~= d);
    Some(acc)
}

/// Every decimal text denotes its number and reads back as it, and only zero is written
/// with a leading `0`.
pub proof fn lemma_decimal_digits(n: nat)
    ensures
        decimal(n).len() > 0,
        n >= 1 ==> decimal(n)[0] != '0',
        n == 0 ==> decimal(n) == seq!['0'],
        all_digits(decimal(n)),
        is_digit(decimal(n)[0]),
        digits_value(decimal(n)) == n,
    decreases n,
{
    if n < 10 {
        let d = decimal(n);
        assert(d.drop_last() =~= Seq::<char>::empty());
        assert(digits_value(d.drop_last()) == 0);
        assert(digit_value(d.last()) == n);
        assert(is_digit(d[0]));
        assert(d[0] == digit_char(n));
        assert(('0' as u32) == 48);
        assert(n >= 1 ==> (digit_char(n) as u32) != 48);
        assert(n == 0 ==> d =~= seq!['0']);
    } else {
        lemma_decimal_digits(n / 10);
        let d = decimal(n);
        assert(d.drop_last() =~= decimal(n / 10));
        assert(d[0] == decimal(n / 10)[0]);
        assert(digit_value(d.last()) == n % 10);
        assert(n == (n / 10) * 10 + n % 10) by (nonlinear_arith);
        assert forall|i: int| 0 <= i < d.len() implies is_digit(#[trigger] d[i]) by {
            if i < d.len() - 1 {
                assert(d[i] == decimal(n / 10)[i]);
            }
        }
    }
}

} // verus!

verus! {

/// The decimal text of a `usize` parses back to the same number.
pub proof fn lemma_decimal_reads_back(n: nat)
    requires
        n <= usize::MAX,
    ensures
        parse_decimal(decimal(n)) == Some(n),
{
    lemma_decimal_digits(n);
    assert(decimal(n)[0] != '+');
    assert(unsigned_digits(decimal(n)) == decimal(n));
}

/// A string made of `a` followed by `b`.
pub fn concat_str(a: &str, b: &str) -> (s: String)
    ensures
        s@ == a@ + b@,
{
    let mut s = String::from_str(a);
    s.append(b);
    s
}

} // verus!

verus! {

/// Removing a character keeps every other character, in order, and nothing else: it is
/// the sequence filtered by "is not that character".
pub proof fn law_remove_char_keeps_the_rest_in_order(s: Seq<char>, c: char)
    ensures
        remove_char(s, c) == s.filter(|x: char| x != c),
    decreases s.len(),
{
    reveal_with_fuel(Seq::filter, 1);
    if s.len() > 0 {
        law_remove_char_keeps_the_rest_in_order(s.drop_last(), c);
    }
    assert(remove_char(s, c) =~= s.filter(|x: char| x != c));
}

/// Trimming leaves a stretch of the text: everything cut before or after it is white
/// space, and the stretch, where not empty, neither starts nor ends with white space.
pub proof fn law_trim_cuts_only_white_space(s: Seq<char>)
    ensures
        exists|a: int, b: int|
            0 <= a <= b <= s.len() && #[trigger] s.subrange(a, b) == trim_ws(s) && (forall|i: int|
                0 <= i < a ==> is_white_space(#[trigger] s[i])) && (forall|i: int|
                b <= i < s.len() ==> is_white_space(#[trigger] s[i])) && (a < b ==> !is_white_space(s[a])
                && !is_white_space(s[b - 1])),
{
    lemma_trim_start(s);
    let a = choose|a: int|
        0 <= a <= s.len() && #[trigger] s.subrange(a, s.len() as int) == trim_start_ws(s) && (forall|i: int|
            0 <= i < a ==> is_white_space(#[trigger] s[i])) && (a < s.len() ==> !is_white_space(s[a]));
    let t = s.subrange(a, s.len() as int);
    lemma_trim_end(t);
    let b = choose|b: int|
        0 <= b <= t.len() && #[trigger] t.subrange(0, b) == trim_end_ws(t) && (forall|i: int|
            b <= i < t.len() ==> is_white_space(#[trigger] t[i])) && (b > 0 ==> !is_white_space(t[b - 1]));
    assert(s.subrange(a, a + b) =~= t.subrange(0, b));
    assert forall|i: int| a + b <= i < s.len() implies is_white_space(#[trigger] s[i]) by {
        assert(s[i] == t[i - a]);
    }
    if a < a + b {
        assert(s[a] == t[0]);
        assert(s[a + b - 1] == t[b - 1]);
    }
}

proof fn lemma_trim_start(s: Seq<char>)
    ensures
        exists|a: int|
            0 <= a <= s.len() && #[trigger] s.subrange(a, s.len() as int) == trim_start_ws(s) && (
            forall|i: int| 0 <= i < a ==> is_white_space(#[trigger] s[i])) && (a < s.len()
                ==> !is_white_space(s[a])),
    decreases s.len(),
{
    if s.len() > 0 && is_white_space(s[0]) {
        let r = s.drop_first();
        lemma_trim_start(r);
        let a = choose|a: int|
            0 <= a <= r.len() && #[trigger] r.subrange(a, r.len() as int) == trim_start_ws(r) && (
            forall|i: int| 0 <= i < a ==> is_white_space(#[trigger] r[i])) && (a < r.len()
                ==> !is_white_space(r[a]));
        assert(s.subrange(a + 1, s.len() as int) =~= r.subrange(a, r.len() as int));
        assert forall|i: int| 0 <= i < a + 1 implies is_white_space(#[trigger] s[i]) by {
            if i > 0 {
                assert(s[i] == r[i - 1]);
            }
        }
        if a + 1 < s.len() {
            assert(s[a + 1] == r[a]);
        }
    } else {
        assert(s.subrange(0, s.len() as int) =~= s);
    }
}

proof fn lemma_trim_end(s: Seq<char>)
    ensures
        exists|b: int|
            0 <= b <= s.len() && #[trigger] s.subrange(0, b) == trim_end_ws(s) && (forall|i: int|
                b <= i < s.len() ==> is_white_space(#[trigger] s[i])) && (b > 0 ==> !is_white_space(
                s[b - 1],
            )),
    decreases s.len(),
{
    if s.len() > 0 && is_white_space(s.last()) {
        let r = s.drop_last();
        lemma_trim_end(r);
        let b = choose|b: int|
            0 <= b <= r.len() && #[trigger] r.subrange(0, b) == trim_end_ws(r) && (forall|i: int|
                b <= i < r.len() ==> is_white_space(#[trigger] r[i])) && (b > 0 ==> !is_white_space(
                r[b - 1],
            ));
        assert(s.subrange(0, b) =~= r.subrange(0, b));
        assert forall|i: int| b <= i < s.len() implies is_white_space(#[trigger] s[i]) by {
            if i < r.len() {
                assert(s[i] == r[i]);
            }
        }
        if b > 0 {
            assert(s[b - 1] == r[b - 1]);
        }
    } else {
        assert(s.subrange(0, s.len() as int) =~= s);
    }
}

} // verus!

verus! {

/// Only text made of ASCII digits, after at most one leading `+`, reads as a number, and
/// the number fits in `usize`; text with any other character reads as nothing.
pub proof fn law_parse_reads_only_digits(s: Seq<char>)
    ensures
        parse_decimal(s) matches Some(v) ==> v <= usize::MAX && s.len() > 0 && (forall|i: int|
            0 <= i < s.len() ==> (i == 0 && s[i] == '+') || (48 <= (#[trigger] s[i] as u32)
                <= 57)) && !(s.len() == 1 && s[0] == '+'),
{
    if parse_decimal(s) is Some {
        let d = unsigned_digits(s);
        assert forall|i: int| 0 <= i < s.len() implies (i == 0 && s[i] == '+') || (48 <= (
        #[trigger] s[i] as u32) <= 57) by {
            if s.len() > 0 && s[0] == '+' {
                if i > 0 {
                    assert(s[i] == d[i - 1]);
                    assert(is_digit(d[i - 1]));
                }
            } else {
                assert(is_digit(d[i]));
            }
        }
    }
}

} // verus!

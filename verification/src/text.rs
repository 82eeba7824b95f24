//! Character and string helpers shared by the whole library: the
//! whitespace set, trimming, equality, searching, prefix tests and
//! decimal conversions, each pinned to a spec function over `Seq<char>`.

use vstd::prelude::*;

verus! {

/// The characters this library treats as whitespace: exactly those
/// with the Unicode White_Space property, the set `char::is_whitespace`
/// accepts.
pub open spec fn is_space(c: char) -> bool {
    c == ' ' || c == '\t' || c == '\n' || c == '\r' || c == '\x0b' || c == '\x0c' || c
        == '\u{0085}' || c == '\u{00A0}' || c == '\u{1680}' || ('\u{2000}' <= c && c
        <= '\u{200A}') || c == '\u{2028}' || c == '\u{2029}' || c == '\u{202F}' || c
        == '\u{205F}' || c == '\u{3000}'
}

/// Executable test for [`is_space`].
pub fn space_char(c: char) -> (r: bool)
    ensures
        r == is_space(c),
{
    c == ' ' || c == '\t' || c == '\n' || c == '\r' || c == '\x0b' || c == '\x0c' || c
        == '\u{0085}' || c == '\u{00A0}' || c == '\u{1680}' || (c >= '\u{2000}' && c
        <= '\u{200A}') || c == '\u{2028}' || c == '\u{2029}' || c == '\u{202F}' || c
        == '\u{205F}' || c == '\u{3000}'
}

/// Index of the first non-whitespace character at or after `i`,
/// or `s.len()` if there is none.
pub open spec fn first_non_space(s: Seq<char>, i: int) -> int
    decreases s.len() - i,
{
    if i < 0 || i >= s.len() {
        s.len() as int
    } else if !is_space(s[i]) {
        i
    } else {
        first_non_space(s, i + 1)
    }
}

/// End (exclusive) of the last non-whitespace character strictly before
/// `j`, or `0` if there is none.
pub open spec fn last_non_space_end(s: Seq<char>, j: int) -> int
    decreases j,
{
    if j <= 0 || j > s.len() {
        0
    } else if !is_space(s[j - 1]) {
        j
    } else {
        last_non_space_end(s, j - 1)
    }
}

/// `s` with leading and trailing whitespace removed.
pub open spec fn trim_spec(s: Seq<char>) -> Seq<char> {
    let a = first_non_space(s, 0);
    let b = last_non_space_end(s, s.len() as int);
    if a >= b {
        Seq::empty()
    } else {
        s.subrange(a, b)
    }
}

pub proof fn lemma_first_non_space(s: Seq<char>, i: int)
    requires
        0 <= i <= s.len(),
    ensures
        i <= first_non_space(s, i) <= s.len(),
        forall|k: int| i <= k < first_non_space(s, i) ==> is_space(s[k]),
        first_non_space(s, i) < s.len() ==> !is_space(s[first_non_space(s, i)]),
    decreases s.len() - i,
{
    if i < s.len() && is_space(s[i]) {
        lemma_first_non_space(s, i + 1);
    }
}

pub proof fn lemma_last_non_space_end(s: Seq<char>, j: int)
    requires
        0 <= j <= s.len(),
    ensures
        0 <= last_non_space_end(s, j) <= j,
        forall|k: int| last_non_space_end(s, j) <= k < j ==> is_space(s[k]),
        last_non_space_end(s, j) > 0 ==> !is_space(s[last_non_space_end(s, j) - 1]),
    decreases j,
{
    if j > 0 && is_space(s[j - 1]) {
        lemma_last_non_space_end(s, j - 1);
    }
}

/// Trimming keeps exactly the span between the outer runs of whitespace;
/// in particular the result is empty iff the string is all whitespace.
pub proof fn lemma_trim_spec(s: Seq<char>)
    ensures
        trim_spec(s).len() <= s.len(),
        (trim_spec(s).len() == 0) <==> (forall|k: int| 0 <= k < s.len() ==> is_space(s[k])),
        trim_spec(s).len() > 0 ==> !is_space(trim_spec(s)[0]),
        trim_spec(s).len() > 0 ==> !is_space(trim_spec(s)[trim_spec(s).len() - 1]),
{
    lemma_first_non_space(s, 0);
    lemma_last_non_space_end(s, s.len() as int);
    let a = first_non_space(s, 0);
    let b = last_non_space_end(s, s.len() as int);
    if a < b {
        assert(!is_space(s[a]));
        assert(trim_spec(s)[0] == s[a]);
        assert(trim_spec(s)[trim_spec(s).len() - 1] == s[b - 1]);
    } else {
        if a < s.len() {
            assert(!is_space(s[a]));
            assert(b <= a);
            assert(is_space(s[a]));
        }
    }
}

/// `s` with leading and trailing whitespace removed.
pub fn trim(s: &str) -> (r: &str)
    ensures
        r@ == trim_spec(s@),
{
    proof {
        lemma_first_non_space(s@, 0);
        lemma_last_non_space_end(s@, s@.len() as int);
    }
    let len = s.unicode_len();
    let mut a: usize = 0;
    while a < len && space_char(s.get_char(a))
        invariant
            0 <= a <= len,
            len == s@.len(),
            first_non_space(s@, 0) == first_non_space(s@, a as int),
        decreases len - a,
    {
        a = a + 1;
    }
    proof {
        assert(first_non_space(s@, 0) == a as int);
    }
    let mut b: usize = len;
    while b > a && space_char(s.get_char(b - 1))
        invariant
            a <= b <= len,
            len == s@.len(),
            a as int == first_non_space(s@, 0),
            last_non_space_end(s@, len as int) == last_non_space_end(s@, b as int),
        decreases b,
    {
        b = b - 1;
    }
    proof {
        if b > a {
            assert(last_non_space_end(s@, b as int) == b as int);
        } else {
            assert(b == a);
            lemma_last_non_space_end(s@, b as int);
            assert(last_non_space_end(s@, b as int) == 0);
            if last_non_space_end(s@, len as int) > a as int {
                assert(false);
            }
            assert(trim_spec(s@) =~= Seq::<char>::empty());
        }
    }
    if b > a {
        s.substring_char(a, b)
    } else {
        proof {
            reveal_strlit("");
        }
        let r = "";
        proof {
            assert(r@ =~= Seq::<char>::empty());
        }
        r
    }
}

/// Character-for-character string equality.
pub fn str_eq(a: &str, b: &str) -> (r: bool)
    ensures
        r == (a@ == b@),
{
    let n = a.unicode_len();
    if n != b.unicode_len() {
        return false;
    }
    let mut i: usize = 0;
    while i < n
        invariant
            0 <= i <= n,
            n == a@.len() == b@.len(),
            forall|k: int| 0 <= k < i ==> a@[k] == b@[k],
        decreases n - i,
    {
        if a.get_char(i) != b.get_char(i) {
            return false;
        }
        i = i + 1;
    }
    proof {
        assert(a@ =~= b@);
    }
    true
}

/// `p` is a prefix of `s`.
pub open spec fn starts_with(s: Seq<char>, p: Seq<char>) -> bool {
    p.len() <= s.len() && s.subrange(0, p.len() as int) == p
}

/// Executable test for [`starts_with`].
pub fn str_starts_with(s: &str, p: &str) -> (r: bool)
    ensures
        r == starts_with(s@, p@),
{
    let pn = p.unicode_len();
    if pn > s.unicode_len() {
        return false;
    }
    let mut i: usize = 0;
    while i < pn
        invariant
            0 <= i <= pn,
            pn == p@.len() <= s@.len(),
            forall|k: int| 0 <= k < i ==> s@[k] == p@[k],
        decreases pn - i,
    {
        if s.get_char(i) != p.get_char(i) {
            proof {
                assert(s@.subrange(0, pn as int)[i as int] != p@[i as int]);
            }
            return false;
        }
        i = i + 1;
    }
    proof {
        assert(s@.subrange(0, pn as int) =~= p@);
    }
    true
}

/// Index of the first occurrence of `c` at or after `i`, if any.
pub open spec fn find_char(s: Seq<char>, c: char, i: int) -> Option<int>
    decreases s.len() - i,
{
    if i < 0 || i >= s.len() {
        None
    } else if s[i] == c {
        Some(i)
    } else {
        find_char(s, c, i + 1)
    }
}

pub proof fn lemma_find_char(s: Seq<char>, c: char, i: int)
    requires
        0 <= i <= s.len(),
    ensures
        match find_char(s, c, i) {
            Some(j) => i <= j < s.len() && s[j] == c && forall|k: int| i <= k < j ==> s[k] != c,
            None => forall|k: int| i <= k < s.len() ==> s[k] != c,
        },
    decreases s.len() - i,
{
    if i < s.len() && s[i] != c {
        lemma_find_char(s, c, i + 1);
    }
}

/// Index of the first occurrence of `c` in `s`, if any.
pub fn find_first(s: &str, c: char) -> (r: Option<usize>)
    ensures
        match r {
            Some(j) => find_char(s@, c, 0) == Some(j as int),
            None => find_char(s@, c, 0) is None,
        },
{
    let n = s.unicode_len();
    let mut i: usize = 0;
    while i < n
        invariant
            0 <= i <= n,
            n == s@.len(),
            find_char(s@, c, 0) == find_char(s@, c, i as int),
        decreases n - i,
    {
        if s.get_char(i) == c {
            return Some(i);
        }
        i = i + 1;
    }
    None
}

/// The pieces of `s` between non-overlapping occurrences of `sep`,
/// leftmost first; a string without `sep` is one piece, and separators
/// at the edges yield empty pieces, as `str::split` has it.
pub open spec fn split_by(s: Seq<char>, sep: Seq<char>) -> Seq<Seq<char>>
    decreases s.len(),
    when sep.len() > 0
    via split_by_dec
{
    match crate::interp::first_occur(s, sep, 0) {
        None => seq![s],
        Some(f) => seq![s.subrange(0, f)].add(
            split_by(s.subrange(f + sep.len() as int, s.len() as int), sep),
        ),
    }
}

#[via_fn]
proof fn split_by_dec(s: Seq<char>, sep: Seq<char>) {
    crate::interp::lemma_first_occur(s, sep, 0);
}

/// Splits `s` at every non-overlapping occurrence of `sep`.
pub fn split_str(s: &str, sep: &str) -> (r: Vec<String>)
    requires
        sep@.len() > 0,
    ensures
        r.deep_view() == split_by(s@, sep@),
{
    let mut out: Vec<String> = Vec::new();
    let mut rest = String::from_str(s);
    proof {
        assert(out.deep_view() =~= Seq::<Seq<char>>::empty());
    }
    loop
        invariant
            sep@.len() > 0,
            out.deep_view().add(split_by(rest@, sep@)) == split_by(s@, sep@),
        decreases rest@.len(),
    {
        let ghost dv0 = out.deep_view();
        match crate::interp::find_occurrence(rest.as_str(), sep) {
            None => {
                out.push(rest);
                proof {
                    assert(out.deep_view() =~= dv0.push(split_by(s@, sep@)[dv0.len() as int]));
                    assert(out.deep_view() =~= split_by(s@, sep@));
                }
                return out;
            },
            Some(f) => {
                proof {
                    crate::interp::lemma_first_occur(rest@, sep@, 0);
                }
                let ghost rest_old = rest@;
                let rn = rest.unicode_len();
                let pn = sep.unicode_len();
                let piece = String::from_str(rest.as_str().substring_char(0, f));
                let tail = String::from_str(rest.as_str().substring_char(f + pn, rn));
                out.push(piece);
                rest = tail;
                proof {
                    assert(split_by(rest_old, sep@) == seq![rest_old.subrange(0, f as int)].add(
                        split_by(rest@, sep@),
                    ));
                    assert(out.deep_view() =~= dv0.push(rest_old.subrange(0, f as int)));
                    assert(out.deep_view().add(split_by(rest@, sep@)) =~= split_by(s@, sep@));
                }
            },
        }
    }
}

/// The two characters agree up to ASCII case.
pub open spec fn char_eq_nocase(a: char, b: char) -> bool {
    a == b || (65 <= a as int <= 90 && b as int == a as int + 32) || (65 <= b as int <= 90
        && a as int == b as int + 32)
}

/// The two strings agree up to ASCII case.
pub open spec fn eq_nocase(a: Seq<char>, b: Seq<char>) -> bool {
    a.len() == b.len() && forall|i: int| 0 <= i < a.len() ==> char_eq_nocase(a[i], b[i])
}

/// Executable test for [`eq_nocase`].
pub fn str_eq_nocase(a: &str, b: &str) -> (r: bool)
    ensures
        r == eq_nocase(a@, b@),
{
    let n = a.unicode_len();
    if n != b.unicode_len() {
        return false;
    }
    let mut i: usize = 0;
    while i < n
        invariant
            0 <= i <= n,
            n == a@.len() == b@.len(),
            forall|k: int| 0 <= k < i ==> char_eq_nocase(a@[k], b@[k]),
        decreases n - i,
    {
        let x = a.get_char(i) as u32;
        let y = b.get_char(i) as u32;
        let same = x == y || (65 <= x && x <= 90 && y == x + 32) || (65 <= y && y <= 90 && x == y
            + 32);
        if !same {
            return false;
        }
        i = i + 1;
    }
    true
}

/// `c` is a decimal digit.
pub open spec fn is_digit(c: char) -> bool {
    '0' <= c && c <= '9'
}

/// Numeric value of a digit character.
pub open spec fn digit_val(c: char) -> int {
    c as int - '0' as int
}

/// Every character of `s` is a digit, and there is at least one.
pub open spec fn all_digits(s: Seq<char>) -> bool {
    s.len() > 0 && forall|i: int| 0 <= i < s.len() ==> is_digit(s[i])
}

/// Value of a digit string read in base ten.
pub open spec fn dec_val(s: Seq<char>) -> int
    decreases s.len(),
{
    if s.len() == 0 {
        0
    } else {
        dec_val(s.drop_last()) * 10 + digit_val(s.last())
    }
}

pub proof fn lemma_dec_val_bounds(s: Seq<char>)
    requires
        forall|i: int| 0 <= i < s.len() ==> is_digit(s[i]),
    ensures
        dec_val(s) >= 0,
        s.len() > 0 ==> dec_val(s) >= dec_val(s.drop_last()),
    decreases s.len(),
{
    if s.len() > 0 {
        lemma_dec_val_bounds(s.drop_last());
        assert(dec_val(s.drop_last()) * 10 >= dec_val(s.drop_last())) by (nonlinear_arith)
            requires
                dec_val(s.drop_last()) >= 0,
        ;
    }
}

/// The digit body of `s` after an optional leading `+`, when `s` has the
/// shape of an unsigned decimal number.
pub open spec fn unsigned_body(s: Seq<char>) -> Seq<char> {
    if s.len() > 0 && s[0] == '+' {
        s.drop_first()
    } else {
        s
    }
}

/// What parsing `s` as a `u32` returns: the base-ten value of the digits
/// after an optional `+`, or nothing when the shape or the range is wrong.
pub open spec fn spec_parse_u32(s: Seq<char>) -> Option<u32> {
    let body = unsigned_body(s);
    if all_digits(body) && dec_val(body) <= u32::MAX {
        Some(dec_val(body) as u32)
    } else {
        None
    }
}

/// Parses an unsigned decimal number with an optional leading `+`,
/// rejecting anything else and any value over `u32::MAX`.
pub fn parse_u32(s: &str) -> (r: Option<u32>)
    ensures
        r == spec_parse_u32(s@),
{
    let n = s.unicode_len();
    let start: usize = if n > 0 && s.get_char(0) == '+' {
        1
    } else {
        0
    };
    let ghost body = unsigned_body(s@);
    proof {
        assert(body =~= s@.subrange(start as int, n as int));
    }
    if start >= n {
        return None;
    }
    let mut acc: u32 = 0;
    let mut i: usize = start;
    while i < n
        invariant
            start <= i <= n,
            n == s@.len(),
            body == unsigned_body(s@),
            body == s@.subrange(start as int, n as int),
            forall|k: int| start <= k < i ==> is_digit(s@[k]),
            acc as int == dec_val(body.take(i - start)),
        decreases n - i,
    {
        let c = s.get_char(i);
        if c < '0' || c > '9' {
            proof {
                assert(body[i - start] == s@[i as int]);
                assert(!all_digits(body));
            }
            return None;
        }
        let d: u32 = (c as u32) - 48;
        proof {
            assert(body.take(i + 1 - start).drop_last() =~= body.take(i - start));
            assert(body.take(i + 1 - start).last() == s@[i as int]);
            assert(d == digit_val(s@[i as int]));
        }
        let step = match acc.checked_mul(10) {
            Some(m) => m.checked_add(d),
            None => None,
        };
        match step {
            Some(v) => {
                acc = v;
            },
            None => {
                proof {
                    let pre = body.take(i + 1 - start);
                    assert(dec_val(pre) > u32::MAX);
                    if all_digits(body) {
                        lemma_dec_val_prefix_le(body, (i + 1 - start) as int);
                        assert(dec_val(body) > u32::MAX);
                    }
                }
                return None;
            },
        }
        i = i + 1;
    }
    proof {
        assert(body.take(n - start) =~= body);
    }
    Some(acc)
}

/// The value of a digit string is at least the value of any of its
/// prefixes.
pub proof fn lemma_dec_val_prefix_le(s: Seq<char>, m: int)
    requires
        0 <= m <= s.len(),
        forall|i: int| 0 <= i < s.len() ==> is_digit(s[i]),
    ensures
        dec_val(s.take(m)) <= dec_val(s),
    decreases s.len() - m,
{
    if m < s.len() {
        lemma_dec_val_prefix_le(s, m + 1);
        let p = s.take(m + 1);
        assert(p.drop_last() =~= s.take(m));
        lemma_dec_val_bounds(s.take(m));
        assert(dec_val(s.take(m)) * 10 >= dec_val(s.take(m))) by (nonlinear_arith)
            requires
                dec_val(s.take(m)) >= 0,
        ;
        assert(dec_val(s.take(m)) <= dec_val(p));
    } else {
        assert(s.take(m) =~= s);
    }
}

/// What parsing `s` as an `i32` returns: a sign character `+` or `-`
/// followed by digits, in the range of `i32`.
/// The digit body of `s` after an optional leading sign.
pub open spec fn signed_body(s: Seq<char>) -> Seq<char> {
    if s.len() > 0 && (s[0] == '-' || s[0] == '+') {
        s.drop_first()
    } else {
        s
    }
}

pub open spec fn spec_parse_i32(s: Seq<char>) -> Option<i32> {
    let neg = s.len() > 0 && s[0] == '-';
    let body = signed_body(s);
    if all_digits(body) {
        if neg && -dec_val(body) >= i32::MIN {
            Some((-dec_val(body)) as i32)
        } else if !neg && dec_val(body) <= i32::MAX {
            Some(dec_val(body) as i32)
        } else {
            None
        }
    } else {
        None
    }
}

/// Parses a signed decimal number as `i32::from_str` does: optional
/// sign, then digits, rejecting values out of range.
pub fn parse_i32(s: &str) -> (r: Option<i32>)
    ensures
        r == spec_parse_i32(s@),
{
    let n = s.unicode_len();
    let neg = n > 0 && s.get_char(0) == '-';
    let start: usize = if n > 0 && (s.get_char(0) == '-' || s.get_char(0) == '+') {
        1
    } else {
        0
    };
    let ghost body = signed_body(s@);
    proof {
        assert(body =~= s@.subrange(start as int, n as int));
    }
    if start >= n {
        return None;
    }
    let mut acc: u64 = 0;
    let mut i: usize = start;
    while i < n
        invariant
            start <= i <= n,
            n == s@.len(),
            body == signed_body(s@),
            body == s@.subrange(start as int, n as int),
            forall|k: int| start <= k < i ==> is_digit(s@[k]),
            acc as int == dec_val(body.take(i - start)),
            acc <= 0x8000_0000u64,
        decreases n - i,
    {
        let c = s.get_char(i);
        if c < '0' || c > '9' {
            proof {
                assert(body[i - start] == s@[i as int]);
                assert(!all_digits(body));
            }
            return None;
        }
        let d: u64 = (c as u64) - 48;
        proof {
            assert(body.take(i + 1 - start).drop_last() =~= body.take(i - start));
            assert(body.take(i + 1 - start).last() == s@[i as int]);
            assert(d == digit_val(s@[i as int]));
        }
        let v = acc * 10 + d;
        if v > 0x8000_0000u64 {
            proof {
                let pre = body.take(i + 1 - start);
                assert(dec_val(pre) > 0x8000_0000);
                if all_digits(body) {
                    lemma_dec_val_prefix_le(body, (i + 1 - start) as int);
                    assert(dec_val(body) > 0x8000_0000);
                }
            }
            return None;
        }
        acc = v;
        i = i + 1;
    }
    proof {
        assert(body.take(n - start) =~= body);
        lemma_dec_val_bounds(body);
    }
    if neg {
        if acc == 0x8000_0000u64 {
            Some(i32::MIN)
        } else {
            Some(-(acc as i32))
        }
    } else if acc <= 0x7fff_ffff {
        Some(acc as i32)
    } else {
        None
    }
}

/// Decimal digit character for a value below ten.
pub open spec fn digit_char(d: int) -> char {
    if d == 0 {
        '0'
    } else if d == 1 {
        '1'
    } else if d == 2 {
        '2'
    } else if d == 3 {
        '3'
    } else if d == 4 {
        '4'
    } else if d == 5 {
        '5'
    } else if d == 6 {
        '6'
    } else if d == 7 {
        '7'
    } else if d == 8 {
        '8'
    } else {
        '9'
    }
}

/// Decimal representation of a non-negative value, without leading
/// zeros (a lone zero for zero itself).
pub open spec fn dec_str(n: int) -> Seq<char>
    decreases n,
{
    if n < 10 {
        seq![digit_char(n)]
    } else {
        dec_str(n / 10).push(digit_char(n % 10))
    }
}

fn append_digit(s: &mut String, d: u32)
    requires
        d < 10,
    ensures
        final(s)@ == old(s)@.push(digit_char(d as int)),
{
    proof {
        reveal_strlit("0");
        reveal_strlit("1");
        reveal_strlit("2");
        reveal_strlit("3");
        reveal_strlit("4");
        reveal_strlit("5");
        reveal_strlit("6");
        reveal_strlit("7");
        reveal_strlit("8");
        reveal_strlit("9");
    }
    let t = if d == 0 {
        "0"
    } else if d == 1 {
        "1"
    } else if d == 2 {
        "2"
    } else if d == 3 {
        "3"
    } else if d == 4 {
        "4"
    } else if d == 5 {
        "5"
    } else if d == 6 {
        "6"
    } else if d == 7 {
        "7"
    } else if d == 8 {
        "8"
    } else {
        "9"
    };
    s.append(t);
    proof {
        assert(final(s)@ =~= old(s)@.push(digit_char(d as int)));
    }
}

/// Decimal representation of `n`.
pub fn u32_to_string(n: u32) -> (r: String)
    ensures
        r@ == dec_str(n as int),
    decreases n,
{
    if n < 10 {
        let mut r = String::new();
        append_digit(&mut r, n);
        proof {
            assert(r@ =~= seq![digit_char(n as int)]);
        }
        r
    } else {
        let mut r = u32_to_string(n / 10);
        append_digit(&mut r, n % 10);
        r
    }
}

/// Decimal representation of `n`.
pub fn u64_to_string(n: u64) -> (r: String)
    ensures
        r@ == dec_str(n as int),
    decreases n,
{
    if n < 10 {
        let mut r = String::new();
        append_digit(&mut r, n as u32);
        proof {
            assert(r@ =~= seq![digit_char(n as int)]);
        }
        r
    } else {
        let mut r = u64_to_string(n / 10);
        append_digit(&mut r, (n % 10) as u32);
        r
    }
}

/// Decimal representation of `n`, with a leading minus sign when `n`
/// is negative.
pub open spec fn dec_str_signed(n: int) -> Seq<char> {
    if n < 0 {
        seq!['-'].add(dec_str(-n))
    } else {
        dec_str(n)
    }
}

/// Decimal representation of `n`, with a sign when negative.
pub fn i32_to_string(n: i32) -> (r: String)
    ensures
        r@ == dec_str_signed(n as int),
{
    if n >= 0 {
        u32_to_string(n as u32)
    } else {
        let m: u32 = if n == i32::MIN {
            0x8000_0000u32
        } else {
            (-n) as u32
        };
        let mut r = String::new();
        proof {
            reveal_strlit("-");
        }
        r.append("-");
        let d = u32_to_string(m);
        let out = r.concat(d.as_str());
        proof {
            assert(out@ =~= dec_str_signed(n as int));
        }
        out
    }
}

} // verus!

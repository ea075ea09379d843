//! Text primitives over `Seq<char>` views: Unicode whitespace trimming,
//! ASCII case folding, prefix handling and decimal rendering.

use vstd::prelude::*;

verus! {

/// The view of an optional owned text.
pub open spec fn owned_text_view(o: Option<String>) -> Option<Seq<char>> {
    match o {
        Some(s) => Some(s@),
        None => None,
    }
}

/// The view of an optional borrowed text.
pub open spec fn text_view(o: Option<&str>) -> Option<Seq<char>> {
    match o {
        Some(s) => Some(s@),
        None => None,
    }
}

/// The Unicode `White_Space` property: the characters that `char::is_whitespace`
/// (and therefore `str::trim`) treats as whitespace.
pub open spec fn is_white_space(c: char) -> bool {
    ||| ('\u{9}' <= c && c <= '\u{d}')
    ||| c == ' '
    ||| c == '\u{85}'
    ||| c == '\u{a0}'
    ||| c == '\u{1680}'
    ||| ('\u{2000}' <= c && c <= '\u{200a}')
    ||| c == '\u{2028}'
    ||| c == '\u{2029}'
    ||| c == '\u{202f}'
    ||| c == '\u{205f}'
    ||| c == '\u{3000}'
}

/// Whether `c` has the Unicode `White_Space` property.
pub fn is_whitespace(c: char) -> (b: bool)
    ensures
        b == is_white_space(c),
{
    ('\u{9}' <= c && c <= '\u{d}') || c == ' ' || c == '\u{85}' || c == '\u{a0}' || c
        == '\u{1680}' || ('\u{2000}' <= c && c <= '\u{200a}') || c == '\u{2028}' || c
        == '\u{2029}' || c == '\u{202f}' || c == '\u{205f}' || c == '\u{3000}'
}

/// `s` with all leading and trailing whitespace removed.
pub open spec fn trimmed(s: Seq<char>) -> Seq<char>
    decreases s.len(),
{
    if s.len() > 0 && is_white_space(s[0]) {
        trimmed(s.drop_first())
    } else if s.len() > 0 && is_white_space(s.last()) {
        trimmed(s.drop_last())
    } else {
        s
    }
}

/// Dropping a run of leading whitespace does not change the trimmed text.
proof fn lemma_trimmed_skip_front(s: Seq<char>, a: int)
    requires
        0 <= a <= s.len(),
        forall|k: int| 0 <= k < a ==> is_white_space(#[trigger] s[k]),
    ensures
        trimmed(s) == trimmed(s.subrange(a, s.len() as int)),
    decreases a,
{
    if a > 0 {
        assert(s.drop_first() =~= s.subrange(1, s.len() as int));
        let t = s.drop_first();
        assert forall|k: int| 0 <= k < a - 1 implies is_white_space(#[trigger] t[k]) by {
            assert(t[k] == s[k + 1]);
        }
        lemma_trimmed_skip_front(t, a - 1);
        assert(t.subrange(a - 1, t.len() as int) =~= s.subrange(a, s.len() as int));
    } else {
        assert(s.subrange(0, s.len() as int) =~= s);
    }
}

/// When the text starts with a non-whitespace character, dropping a run of
/// trailing whitespace does not change the trimmed text.
proof fn lemma_trimmed_skip_back(s: Seq<char>, b: int)
    requires
        1 <= b <= s.len(),
        !is_white_space(s[0]),
        forall|k: int| b <= k < s.len() ==> is_white_space(#[trigger] s[k]),
    ensures
        trimmed(s) == trimmed(s.subrange(0, b)),
    decreases s.len() - b,
{
    if b < s.len() {
        let t = s.drop_last();
        assert(t =~= s.subrange(0, s.len() - 1));
        assert(is_white_space(s[s.len() - 1]));
        assert(trimmed(s) == trimmed(t));
        assert forall|k: int| b <= k < t.len() implies is_white_space(#[trigger] t[k]) by {
            assert(t[k] == s[k]);
        }
        lemma_trimmed_skip_back(t, b);
        assert(t.subrange(0, b) =~= s.subrange(0, b));
    } else {
        assert(s.subrange(0, b) =~= s);
    }
}

/// `s` without leading and trailing whitespace, as `str::trim` returns it.
pub fn trim(s: &str) -> (r: &str)
    ensures
        r@ == trimmed(s@),
{
    let n = s.unicode_len();
    let mut a: usize = 0;
    while a < n && is_whitespace(s.get_char(a))
        invariant
            n == s@.len(),
            a <= n,
            forall|k: int| 0 <= k < a ==> is_white_space(#[trigger] s@[k]),
        decreases n - a,
    {
        a = a + 1;
    }
    proof {
        lemma_trimmed_skip_front(s@, a as int);
    }
    if a == n {
        proof {
            assert(s@.subrange(a as int, n as int).len() == 0);
        }
        return s.substring_char(n, n);
    }
    let mut b: usize = n;
    while b > a + 1 && is_whitespace(s.get_char(b - 1))
        invariant
            n == s@.len(),
            a < n,
            a + 1 <= b <= n,
            forall|k: int| b <= k < n ==> is_white_space(#[trigger] s@[k]),
        decreases b,
    {
        b = b - 1;
    }
    let ghost t = s@.subrange(a as int, n as int);
    proof {
        assert(!is_white_space(t[0]));
        assert forall|k: int| b - a <= k < t.len() implies is_white_space(#[trigger] t[k]) by {
            assert(t[k] == s@[k + a]);
        }
        lemma_trimmed_skip_back(t, b - a);
        let u = t.subrange(0, b - a);
        assert(u =~= s@.subrange(a as int, b as int));
        assert(u.len() > 0 && !is_white_space(u[0]));
        assert(!is_white_space(u.last()));
    }
    s.substring_char(a, b)
}

/// `c` with an ASCII capital letter mapped to its small letter; every other
/// character is left as it is.
pub open spec fn ascii_lower(c: char) -> char {
    if 'A' <= c && c <= 'Z' {
        ((c as u32) + 32) as char
    } else {
        c
    }
}

/// The ASCII-case-insensitive equality of `str::eq_ignore_ascii_case`: the
/// same number of characters, equal after ASCII letters are folded.
pub open spec fn equal_ignoring_ascii_case(a: Seq<char>, b: Seq<char>) -> bool {
    &&& a.len() == b.len()
    &&& forall|i: int| 0 <= i < a.len() ==> #[trigger] ascii_lower(a[i]) == ascii_lower(b[i])
}

fn to_ascii_lower(c: char) -> (r: char)
    ensures
        r == ascii_lower(c),
{
    if 'A' <= c && c <= 'Z' {
        ((c as u8) + 32) as char
    } else {
        c
    }
}

/// Whether `a` and `b` are equal up to the case of ASCII letters.
pub fn eq_ignore_ascii_case(a: &str, b: &str) -> (r: bool)
    ensures
        r == equal_ignoring_ascii_case(a@, b@),
{
    let n = a.unicode_len();
    if n != b.unicode_len() {
        return false;
    }
    let mut i: usize = 0;
    while i < n
        invariant
            n == a@.len(),
            n == b@.len(),
            i <= n,
            forall|k: int| 0 <= k < i ==> #[trigger] ascii_lower(a@[k]) == ascii_lower(b@[k]),
        decreases n - i,
    {
        if to_ascii_lower(a.get_char(i)) != to_ascii_lower(b.get_char(i)) {
            return false;
        }
        i = i + 1;
    }
    true
}

/// Whether `a` and `b` hold the same characters.
pub fn same_text(a: &str, b: &str) -> (r: bool)
    ensures
        r == (a@ == b@),
{
    let n = a.unicode_len();
    if n != b.unicode_len() {
        return false;
    }
    let mut i: usize = 0;
    while i < n
        invariant
            n == a@.len(),
            n == b@.len(),
            i <= n,
            forall|k: int| 0 <= k < i ==> a@[k] == b@[k],
        decreases n - i,
    {
        if a.get_char(i) != b.get_char(i) {
            return false;
        }
        i = i + 1;
    }
    assert(a@ =~= b@);
    true
}

/// `s` without any run of leading `c` characters (`str::trim_start_matches`
/// with a single character).
pub open spec fn without_leading(s: Seq<char>, c: char) -> Seq<char>
    decreases s.len(),
{
    if s.len() > 0 && s[0] == c {
        without_leading(s.drop_first(), c)
    } else {
        s
    }
}

/// What remains after removing a run of leading `c` does not start with `c`.
pub proof fn without_leading_starts_otherwise(s: Seq<char>, c: char)
    ensures
        without_leading(s, c).len() > 0 ==> without_leading(s, c)[0] != c,
    decreases s.len(),
{
    if s.len() > 0 && s[0] == c {
        without_leading_starts_otherwise(s.drop_first(), c);
    }
}

proof fn lemma_without_leading_skip(s: Seq<char>, c: char, a: int)
    requires
        0 <= a <= s.len(),
        forall|k: int| 0 <= k < a ==> #[trigger] s[k] == c,
    ensures
        without_leading(s, c) == without_leading(s.subrange(a, s.len() as int), c),
    decreases a,
{
    if a > 0 {
        let t = s.drop_first();
        assert forall|k: int| 0 <= k < a - 1 implies #[trigger] t[k] == c by {
            assert(t[k] == s[k + 1]);
        }
        lemma_without_leading_skip(t, c, a - 1);
        assert(t.subrange(a - 1, t.len() as int) =~= s.subrange(a, s.len() as int));
    } else {
        assert(s.subrange(0, s.len() as int) =~= s);
    }
}

/// `s` without its run of leading `c` characters.
pub fn trim_start_char(s: &str, c: char) -> (r: &str)
    ensures
        r@ == without_leading(s@, c),
{
    let n = s.unicode_len();
    let mut a: usize = 0;
    while a < n && s.get_char(a) == c
        invariant
            n == s@.len(),
            a <= n,
            forall|k: int| 0 <= k < a ==> #[trigger] s@[k] == c,
        decreases n - a,
    {
        a = a + 1;
    }
    proof {
        lemma_without_leading_skip(s@, c, a as int);
    }
    s.substring_char(a, n)
}

/// The rest of `s` after `prefix`, when `s` starts with `prefix`
/// (`str::strip_prefix`).
pub open spec fn after_prefix(s: Seq<char>, prefix: Seq<char>) -> Option<Seq<char>> {
    if prefix.len() <= s.len() && s.subrange(0, prefix.len() as int) == prefix {
        Some(s.subrange(prefix.len() as int, s.len() as int))
    } else {
        None
    }
}

/// The rest of `s` after `prefix`, or `None` when `s` does not start with it.
pub fn strip_prefix<'a>(s: &'a str, prefix: &str) -> (r: Option<&'a str>)
    ensures
        match r {
            Some(rest) => after_prefix(s@, prefix@) == Some(rest@),
            None => after_prefix(s@, prefix@) is None,
        },
{
    let n = s.unicode_len();
    let m = prefix.unicode_len();
    if m > n {
        return None;
    }
    let mut i: usize = 0;
    while i < m
        invariant
            n == s@.len(),
            m == prefix@.len(),
            m <= n,
            i <= m,
            forall|k: int| 0 <= k < i ==> s@[k] == prefix@[k],
        decreases m - i,
    {
        if s.get_char(i) != prefix.get_char(i) {
            proof {
                assert(s@.subrange(0, m as int)[i as int] != prefix@[i as int]);
            }
            return None;
        }
        i = i + 1;
    }
    assert(s@.subrange(0, m as int) =~= prefix@);
    Some(s.substring_char(m, n))
}

/// Whether `c` occurs in `s`.
pub fn contains_char(s: &str, c: char) -> (r: bool)
    ensures
        r == s@.contains(c),
{
    let n = s.unicode_len();
    let mut i: usize = 0;
    while i < n
        invariant
            n == s@.len(),
            i <= n,
            forall|k: int| 0 <= k < i ==> s@[k] != c,
        decreases n - i,
    {
        if s.get_char(i) == c {
            assert(s@[i as int] == c);
            return true;
        }
        i = i + 1;
    }
    false
}

/// The characters of `s` before its first `c`, or `None` when `c` does not
/// occur (the first half of `str::split_once`).
pub open spec fn before_first(s: Seq<char>, c: char) -> Option<Seq<char>>
    decreases s.len(),
{
    if s.len() == 0 {
        None
    } else if s[0] == c {
        Some(Seq::<char>::empty())
    } else {
        match before_first(s.drop_first(), c) {
            Some(rest) => Some(seq![s[0]] + rest),
            None => None,
        }
    }
}

proof fn lemma_before_first(s: Seq<char>, c: char, i: int)
    requires
        0 <= i <= s.len(),
        forall|k: int| 0 <= k < i ==> s[k] != c,
    ensures
        i < s.len() && s[i] == c ==> before_first(s, c) == Some(s.subrange(0, i)),
        i == s.len() ==> before_first(s, c) is None,
    decreases i,
{
    if i > 0 {
        let t = s.drop_first();
        lemma_before_first(t, c, i - 1);
        assert(seq![s[0]] + t.subrange(0, i - 1) =~= s.subrange(0, i));
    } else if s.len() > 0 {
        assert(s.subrange(0, 0) =~= Seq::<char>::empty());
    }
}

/// The text before the first `c` holds no `c` and is followed by `c` in the
/// text; there is none exactly when the text holds no `c`.
pub proof fn lemma_before_first_shape(s: Seq<char>, c: char)
    ensures
        before_first(s, c) is None <==> !s.contains(c),
        before_first(s, c) matches Some(h) ==> {
            &&& !h.contains(c)
            &&& h.len() < s.len()
            &&& s.subrange(0, h.len() as int) == h
            &&& s[h.len() as int] == c
        },
    decreases s.len(),
{
    if s.len() > 0 {
        let t = s.drop_first();
        lemma_before_first_shape(t, c);
        if s[0] == c {
            assert(s.contains(c)) by { assert(s[0] == c); }
            assert(s.subrange(0, 0) =~= Seq::<char>::empty());
        } else {
            if s.contains(c) {
                let i = choose|i: int| 0 <= i < s.len() && s[i] == c;
                assert(t[i - 1] == c);
            }
            if t.contains(c) {
                let i = choose|i: int| 0 <= i < t.len() && t[i] == c;
                assert(s[i + 1] == c);
            }
            match before_first(t, c) {
                Some(rest) => {
                    let h = seq![s[0]] + rest;
                    assert(s.subrange(0, h.len() as int) =~= h) by {
                        assert(t.subrange(0, rest.len() as int) == rest);
                    }
                    assert(s[h.len() as int] == t[rest.len() as int]);
                    if h.contains(c) {
                        let i = choose|i: int| 0 <= i < h.len() && h[i] == c;
                        assert(rest[i - 1] == c);
                    }
                },
                None => {},
            }
        }
    }
}

/// The text of `s` before its first `c`, or `None` when `s` holds no `c`.
pub fn split_before(s: &str, c: char) -> (r: Option<&str>)
    ensures
        match r {
            Some(head) => before_first(s@, c) == Some(head@),
            None => before_first(s@, c) is None,
        },
{
    let n = s.unicode_len();
    let mut i: usize = 0;
    while i < n
        invariant
            n == s@.len(),
            i <= n,
            forall|k: int| 0 <= k < i ==> s@[k] != c,
        decreases n - i,
    {
        if s.get_char(i) == c {
            proof {
                lemma_before_first(s@, c, i as int);
            }
            return Some(s.substring_char(0, i));
        }
        i = i + 1;
    }
    proof {
        lemma_before_first(s@, c, n as int);
    }
    None
}

/// The decimal digit character for `d < 10`.
pub open spec fn digit_char(d: nat) -> char {
    ((48 + d) as u32) as char
}

/// The decimal representation of `n`, most significant digit first, without
/// leading zeros (`0` is `"0"`).
pub open spec fn decimal(n: nat) -> Seq<char>
    decreases n,
{
    if n < 10 {
        seq![digit_char(n)]
    } else {
        decimal(n / 10).push(digit_char(n % 10))
    }
}

/// The number that a text of decimal digits stands for.
pub open spec fn digits_value(s: Seq<char>) -> nat
    decreases s.len(),
{
    if s.len() == 0 {
        0
    } else {
        digits_value(s.drop_last()) * 10 + ((s.last() as u32) - 48) as nat
    }
}

/// The decimal text of `n` is made of digits, starts with a non-zero digit
/// unless `n` is zero, and stands for `n`.
pub proof fn lemma_decimal_digits(n: nat)
    ensures
        decimal(n).len() > 0,
        forall|i: int| 0 <= i < decimal(n).len() ==> '0' <= #[trigger] decimal(n)[i] <= '9',
        n > 0 ==> decimal(n)[0] != '0',
        digits_value(decimal(n)) == n,
    decreases n,
{
    if n >= 10 {
        lemma_decimal_digits(n / 10);
        let d = decimal(n / 10);
        let s = decimal(n);
        assert(s.drop_last() =~= d);
        assert forall|i: int| 0 <= i < s.len() implies '0' <= #[trigger] s[i] <= '9' by {
            if i < d.len() {
                assert(s[i] == d[i]);
            }
        }
        assert(s[0] == d[0]);
        assert((digit_char(n % 10) as u32) == 48 + n % 10);
        assert(s.last() == digit_char(n % 10));
        assert(digits_value(s) == digits_value(d) * 10 + n % 10);
        assert((n / 10) * 10 + n % 10 == n) by (nonlinear_arith);
        assert(digits_value(s) == n);
    } else {
        let s = decimal(n);
        assert((digit_char(n) as u32) == 48 + n);
        assert(s.drop_last() =~= Seq::<char>::empty());
        assert(digits_value(s.drop_last()) == 0);
        assert(s.last() == digit_char(n));
        assert(digits_value(s) == n);
    }
}

/// The decimal representation of an integer, with a `-` before negative ones.
pub open spec fn signed_decimal(n: int) -> Seq<char> {
    if n < 0 {
        seq!['-'] + decimal((-n) as nat)
    } else {
        decimal(n as nat)
    }
}

fn digit_text(d: u64) -> (r: &'static str)
    requires
        d < 10,
    ensures
        r@ == seq![digit_char(d as nat)],
{
    proof {
        reveal_strlit("0");
        reveal_strlit("1");
        reveal_strlit("2");
        reveal_strlit("3");
        reveal_strlit("4");
        reveal_strlit("5");
        reveal_strlit("6");
        reveal_strlit("7");
        reveal_strlit("8");
        reveal_strlit("9");
    }
    if d == 0 {
        "0"
    } else if d == 1 {
        "1"
    } else if d == 2 {
        "2"
    } else if d == 3 {
        "3"
    } else if d == 4 {
        "4"
    } else if d == 5 {
        "5"
    } else if d == 6 {
        "6"
    } else if d == 7 {
        "7"
    } else if d == 8 {
        "8"
    } else {
        "9"
    }
}

/// The decimal text of `n`, as `u64::to_string` writes it.
pub fn u64_to_decimal(n: u64) -> (r: String)
    ensures
        r@ == decimal(n as nat),
    decreases n,
{
    if n < 10 {
        let mut s = String::new();
        s.append(digit_text(n));
        assert(s@ =~= decimal(n as nat));
        s
    } else {
        let mut s = u64_to_decimal(n / 10);
        s.append(digit_text(n % 10));
        s
    }
}

/// The decimal text of `n`, as `i64::to_string` writes it.
pub fn i64_to_decimal(n: i64) -> (r: String)
    ensures
        r@ == signed_decimal(n as int),
{
    if n < 0 {
        let magnitude: u64 = ((-(n + 1)) as u64) + 1;
        let digits = u64_to_decimal(magnitude);
        let mut s = String::new();
        s.append("-");
        proof {
            reveal_strlit("-");
        }
        s.append(digits.as_str());
        s
    } else {
        u64_to_decimal(n as u64)
    }
}

/// Unicode upper-casing of a whole text, as `str::to_uppercase` computes it.
pub uninterp spec fn uppercased(s: Seq<char>) -> Seq<char>;

/// Calls `str::to_uppercase`, which replaces each character by its Unicode
/// uppercase mapping, one character at a time. The result is named as a
/// function of the input text; of the Unicode case tables only these facts
/// are stated: on ASCII text the letters `a`-`z` become `A`-`Z` and every
/// other character stays as it is; an ASCII small letter and its capital map
/// alike, so texts that differ only in ASCII case upper-case to the same
/// text; and no uppercase mapping yields an ASCII small letter.
#[verifier::external_body]
pub(crate) fn to_uppercase(s: &str) -> (r: String)
    ensures
        r@ == uppercased(s@),
        is_ascii_text(s@) ==> r@ == s@.map_values(|c: char| ascii_upper(c)),
        r@ == uppercased(s@.map_values(|c: char| ascii_lower(c))),
        r@ == uppercased(s@.map_values(|c: char| ascii_upper(c))),
        forall|i: int| 0 <= i < r@.len() ==> !is_ascii_small(#[trigger] r@[i]),
{
    s.to_uppercase()
}

/// Whether every character of `s` is ASCII.
pub open spec fn is_ascii_text(s: Seq<char>) -> bool {
    forall|i: int| 0 <= i < s.len() ==> (#[trigger] s[i] as u32) < 128
}

/// `c` with an ASCII small letter mapped to its capital letter; every other
/// character is left as it is.
pub open spec fn ascii_upper(c: char) -> char {
    if 'a' <= c && c <= 'z' {
        ((c as u32) - 32) as char
    } else {
        c
    }
}

/// Whether `c` is an ASCII small letter.
pub open spec fn is_ascii_small(c: char) -> bool {
    'a' <= c && c <= 'z'
}

/// ASCII case mapping keeps characters ASCII, keeps whitespace and
/// non-whitespace apart, and upper-casing after either mapping is plain
/// upper-casing.
pub proof fn lemma_ascii_case_char(c: char)
    ensures
        (c as u32) < 128 ==> (ascii_upper(c) as u32) < 128 && (ascii_lower(c) as u32) < 128,
        is_white_space(ascii_upper(c)) == is_white_space(c),
        is_white_space(ascii_lower(c)) == is_white_space(c),
        ascii_upper(ascii_upper(c)) == ascii_upper(c),
        ascii_upper(ascii_lower(c)) == ascii_upper(c),
        !is_ascii_small(ascii_upper(c)),
{
}

/// Trimming commutes with a character mapping that keeps whitespace and
/// non-whitespace apart.
pub proof fn lemma_trimmed_map(s: Seq<char>, f: spec_fn(char) -> char)
    requires
        forall|c: char| #[trigger] is_white_space(f(c)) == is_white_space(c),
    ensures
        trimmed(s.map_values(f)) == trimmed(s).map_values(f),
    decreases s.len(),
{
    let m = s.map_values(f);
    if s.len() > 0 && is_white_space(s[0]) {
        assert(is_white_space(f(s[0])));
        assert(m.drop_first() =~= s.drop_first().map_values(f));
        lemma_trimmed_map(s.drop_first(), f);
    } else if s.len() > 0 && is_white_space(s.last()) {
        assert(is_white_space(f(s.last())));
        assert(!is_white_space(f(s[0])));
        assert(m.drop_last() =~= s.drop_last().map_values(f));
        lemma_trimmed_map(s.drop_last(), f);
    } else {
        if s.len() > 0 {
            assert(!is_white_space(f(s[0])));
            assert(!is_white_space(f(s.last())));
        }
    }
}

/// The trimmed text neither starts nor ends with whitespace, and is ASCII
/// when the text is.
pub proof fn lemma_trimmed_shape(s: Seq<char>)
    ensures
        trimmed(s).len() > 0 ==> !is_white_space(trimmed(s)[0]) && !is_white_space(
            trimmed(s).last(),
        ),
        is_ascii_text(s) ==> is_ascii_text(trimmed(s)),
    decreases s.len(),
{
    if s.len() > 0 && is_white_space(s[0]) {
        let t = s.drop_first();
        lemma_trimmed_shape(t);
        if is_ascii_text(s) {
            assert forall|i: int| 0 <= i < t.len() implies (#[trigger] t[i] as u32) < 128 by {
                assert(t[i] == s[i + 1]);
            }
        }
    } else if s.len() > 0 && is_white_space(s.last()) {
        let t = s.drop_last();
        lemma_trimmed_shape(t);
        if is_ascii_text(s) {
            assert forall|i: int| 0 <= i < t.len() implies (#[trigger] t[i] as u32) < 128 by {
                assert(t[i] == s[i]);
            }
        }
    }
}

/// Trimming removes only whitespace, and only from the two ends: when a
/// text is some whitespace, then a core that neither starts nor ends with
/// whitespace (or nothing), then some whitespace, its trimmed text is that
/// core.
pub proof fn trimming_keeps_the_core(s: Seq<char>, a: int, b: int)
    requires
        0 <= a <= b <= s.len(),
        forall|k: int| 0 <= k < a ==> is_white_space(#[trigger] s[k]),
        forall|k: int| b <= k < s.len() ==> is_white_space(#[trigger] s[k]),
        a < b ==> !is_white_space(s[a]) && !is_white_space(s[b - 1]),
    ensures
        trimmed(s) == s.subrange(a, b),
{
    if a < b {
        lemma_trimmed_skip_front(s, a);
        let t = s.subrange(a, s.len() as int);
        assert forall|k: int| b - a <= k < t.len() implies is_white_space(#[trigger] t[k]) by {
            assert(t[k] == s[k + a]);
        }
        lemma_trimmed_skip_back(t, b - a);
        let u = t.subrange(0, b - a);
        assert(u =~= s.subrange(a, b));
        lemma_trimmed_unchanged(u);
    } else {
        assert forall|k: int| 0 <= k < s.len() implies is_white_space(#[trigger] s[k]) by {
            if k >= a {
                assert(b <= k);
            }
        }
        lemma_trimmed_skip_front(s, s.len() as int);
        assert(s.subrange(s.len() as int, s.len() as int) =~= s.subrange(a, b));
    }
}

/// `s` with its ASCII capitals folded to small letters.
pub open spec fn ascii_folded(s: Seq<char>) -> Seq<char> {
    Seq::new(s.len(), |i: int| ascii_lower(s[i]))
}

/// Equality up to ASCII case is equality after folding ASCII capitals to
/// small letters.
pub proof fn ascii_case_equality_is_folded_equality(a: Seq<char>, b: Seq<char>)
    ensures
        equal_ignoring_ascii_case(a, b) <==> ascii_folded(a) == ascii_folded(b),
{
    let fa = ascii_folded(a);
    let fb = ascii_folded(b);
    if equal_ignoring_ascii_case(a, b) {
        assert(fa =~= fb);
    }
    if fa == fb {
        assert(a.len() == fa.len());
        assert forall|i: int| 0 <= i < a.len() implies #[trigger] ascii_lower(a[i]) == ascii_lower(b[i]) by {
            assert(fa[i] == fb[i]);
        }
    }
}

/// Removing a prefix gives back exactly what follows it.
pub proof fn prefix_removal_inverts_concatenation(prefix: Seq<char>, rest: Seq<char>, s: Seq<char>)
    ensures
        after_prefix(prefix + rest, prefix) == Some(rest),
        after_prefix(s, prefix) matches Some(r) ==> s == prefix + r,
{
    let t = prefix + rest;
    assert(t.subrange(0, prefix.len() as int) =~= prefix);
    assert(t.subrange(prefix.len() as int, t.len() as int) =~= rest);
    if after_prefix(s, prefix) is Some {
        assert(s =~= prefix + s.subrange(prefix.len() as int, s.len() as int));
    }
}

/// The decimal text of an integer is a `-` and the digits of its magnitude
/// for negative integers, and the digits alone otherwise.
pub proof fn signed_decimal_shape(n: int)
    ensures
        n < 0 ==> signed_decimal(n)[0] == '-' && signed_decimal(n).drop_first() == decimal((-n) as nat)
            && digits_value(signed_decimal(n).drop_first()) == -n,
        n >= 0 ==> digits_value(signed_decimal(n)) == n,
{
    if n < 0 {
        lemma_decimal_digits((-n) as nat);
        assert((seq!['-'] + decimal((-n) as nat)).drop_first() =~= decimal((-n) as nat));
    } else {
        lemma_decimal_digits(n as nat);
    }
}

/// A text that neither starts nor ends with whitespace is its own trimmed
/// text.
pub proof fn lemma_trimmed_unchanged(s: Seq<char>)
    requires
        s.len() > 0 ==> !is_white_space(s[0]) && !is_white_space(s.last()),
    ensures
        trimmed(s) == s,
{
}

/// What remains after removing leading `c` is a tail of the text.
pub proof fn lemma_without_leading_tail(s: Seq<char>, c: char)
    ensures
        without_leading(s, c).len() <= s.len(),
        without_leading(s, c) =~= s.subrange(s.len() - without_leading(s, c).len(), s.len() as int),
    decreases s.len(),
{
    if s.len() > 0 && s[0] == c {
        lemma_without_leading_tail(s.drop_first(), c);
    } else {
        assert(s.subrange(0, s.len() as int) =~= s);
    }
}

} // verus!

//! Character-level helpers on string views: white space, trimming, ASCII case folding,
//! character-wise comparison and decimal digits.

use vstd::prelude::*;

verus! {

/// White space in the sense of Unicode's `White_Space` property, which is what
/// `char::is_whitespace` and `str::trim` go by.
pub open spec fn is_white_space(c: char) -> bool {
    let u = c as u32;
    ||| 0x9 <= u <= 0xd
    ||| u == 0x20
    ||| u == 0x85
    ||| u == 0xa0
    ||| u == 0x1680
    ||| 0x2000 <= u <= 0x200a
    ||| u == 0x2028
    ||| u == 0x2029
    ||| u == 0x202f
    ||| u == 0x205f
    ||| u == 0x3000
}

/// The index of the first character at or after `i` that is not white space
/// (the length when there is none).
pub open spec fn leading_end(s: Seq<char>, i: int) -> int
    decreases s.len() - i,
{
    if 0 <= i < s.len() && is_white_space(s[i]) {
        leading_end(s, i + 1)
    } else {
        i
    }
}

/// The index just past the last character before `j`, and at or after `lo`,
/// that is not white space (`lo` when there is none).
pub open spec fn trailing_start(s: Seq<char>, lo: int, j: int) -> int
    decreases j - lo,
{
    if lo < j && j <= s.len() && is_white_space(s[j - 1]) {
        trailing_start(s, lo, j - 1)
    } else {
        j
    }
}

/// `s` without its leading and trailing white space.
pub open spec fn trim(s: Seq<char>) -> Seq<char> {
    let a = leading_end(s, 0);
    s.subrange(a, trailing_start(s, a, s.len() as int))
}

/// ASCII upper-case letters mapped to lower case, every other character kept.
pub open spec fn ascii_lower_char(c: char) -> char {
    if 'A' <= c <= 'Z' {
        ((c as u32) + 32) as char
    } else {
        c
    }
}

pub open spec fn ascii_lowercase(s: Seq<char>) -> Seq<char> {
    s.map_values(|c: char| ascii_lower_char(c))
}

/// ASCII lower-case letters mapped to upper case, every other character kept.
pub open spec fn ascii_upper_char(c: char) -> char {
    if 'a' <= c <= 'z' {
        ((c as u32) - 32) as char
    } else {
        c
    }
}

pub open spec fn ascii_uppercase(s: Seq<char>) -> Seq<char> {
    s.map_values(|c: char| ascii_upper_char(c))
}

/// Whether `c` is white space (see `is_white_space`).
pub fn white_space(c: char) -> (b: bool)
    ensures
        b == is_white_space(c),
{
    let u = c as u32;
    (0x9 <= u && u <= 0xd) || u == 0x20 || u == 0x85 || u == 0xa0 || u == 0x1680 || (0x2000
        <= u && u <= 0x200a) || u == 0x2028 || u == 0x2029 || u == 0x202f || u == 0x205f || u
        == 0x3000
}

/// `s` without leading and trailing white space, as `str::trim` gives it.
pub fn trim_str(s: &str) -> (t: &str)
    ensures
        t@ == trim(s@),
{
    let n = s.unicode_len();
    let mut i: usize = 0;
    while i < n && white_space(s.get_char(i))
        invariant
            n == s@.len(),
            i <= n,
            leading_end(s@, i as int) == leading_end(s@, 0),
        decreases n - i,
    {
        i = i + 1;
    }
    assert(leading_end(s@, i as int) == i);
    let mut j: usize = n;
    while j > i && white_space(s.get_char(j - 1))
        invariant
            n == s@.len(),
            i <= j <= n,
            leading_end(s@, 0) == i,
            trailing_start(s@, i as int, j as int) == trailing_start(s@, i as int, n as int),
        decreases j,
    {
        j = j - 1;
    }
    s.substring_char(i, j)
}

/// Whether the ASCII-lower-cased characters of `s` are exactly those of `word`.
pub fn lowercase_equals(s: &str, word: &str) -> (b: bool)
    ensures
        b == (ascii_lowercase(s@) == word@),
{
    let n = s.unicode_len();
    if n != word.unicode_len() {
        assert(ascii_lowercase(s@).len() != word@.len());
        return false;
    }
    let mut i: usize = 0;
    while i < n
        invariant
            n == s@.len(),
            n == word@.len(),
            i <= n,
            forall|k: int| 0 <= k < i ==> ascii_lower_char(#[trigger] s@[k]) == word@[k],
        decreases n - i,
    {
        let c = s.get_char(i);
        let lower = if 'A' <= c && c <= 'Z' {
            upper_to_lower(c)
        } else {
            c
        };
        if lower != word.get_char(i) {
            assert(ascii_lowercase(s@)[i as int] != word@[i as int]);
            return false;
        }
        i = i + 1;
    }
    assert(ascii_lowercase(s@) =~= word@);
    true
}

/// The lower-case letter of an ASCII upper-case letter.
fn upper_to_lower(c: char) -> (l: char)
    requires
        'A' <= c <= 'Z',
    ensures
        l == ascii_lower_char(c),
{
    let u = (c as u32) + 32;
    let lower: u8 = u as u8;
    lower as char
}

/// Whether the characters of `s` from `from` up to `to` are exactly those of `word`.
pub fn slice_equals(s: &str, from: usize, to: usize, word: &str) -> (b: bool)
    requires
        from <= to <= s@.len(),
    ensures
        b == (s@.subrange(from as int, to as int) == word@),
{
    let len = to - from;
    if len != word.unicode_len() {
        assert(s@.subrange(from as int, to as int).len() != word@.len());
        return false;
    }
    let mut k: usize = 0;
    while k < len
        invariant
            from <= to <= s@.len(),
            len == to - from,
            len == word@.len(),
            k <= len,
            forall|m: int| 0 <= m < k ==> s@[from + m] == #[trigger] word@[m],
        decreases len - k,
    {
        if s.get_char(from + k) != word.get_char(k) {
            assert(s@.subrange(from as int, to as int)[k as int] != word@[k as int]);
            return false;
        }
        k = k + 1;
    }
    assert(s@.subrange(from as int, to as int) =~= word@);
    true
}

/// The character of the decimal digit `d`.
pub open spec fn digit_char(d: int) -> char {
    (48 + d) as char
}

/// `n` written in decimal, without leading zeros, as `u64::to_string` writes it.
pub open spec fn decimal(n: nat) -> Seq<char>
    decreases n,
{
    if n < 10 {
        seq![digit_char(n as int)]
    } else {
        decimal(n / 10).push(digit_char((n % 10) as int))
    }
}

/// `v` in reverse order.
pub open spec fn reversed(v: Seq<char>) -> Seq<char> {
    Seq::new(v.len(), |k: int| v[v.len() - 1 - k])
}

/// Whether `s` is `n` written in decimal.
pub fn equals_decimal(s: &str, n: u64) -> (b: bool)
    ensures
        b == (s@ == decimal(n as nat)),
{
    let mut digits: Vec<char> = Vec::new();
    let mut m: u64 = n;
    while m >= 10
        invariant
            decimal(n as nat) == decimal(m as nat) + reversed(digits@),
        decreases m,
    {
        let ghost old_digits = digits@;
        let d: u8 = (m % 10) as u8;
        digits.push((48u8 + d) as char);
        assert(reversed(digits@) =~= seq![digit_char((m % 10) as int)] + reversed(old_digits));
        assert(decimal(m as nat) + reversed(old_digits) =~= decimal((m / 10) as nat) + reversed(
            digits@,
        ));
        m = m / 10;
    }
    let last: u8 = m as u8;
    digits.push((48u8 + last) as char);
    assert(decimal(n as nat) =~= reversed(digits@));
    let total = digits.len();
    if s.unicode_len() != total {
        return false;
    }
    let mut k: usize = 0;
    while k < total
        invariant
            total == digits@.len(),
            total == s@.len(),
            decimal(n as nat) == reversed(digits@),
            k <= total,
            forall|j: int| 0 <= j < k ==> s@[j] == #[trigger] reversed(digits@)[j],
        decreases total - k,
    {
        if s.get_char(k) != digits[total - 1 - k] {
            assert(s@[k as int] != reversed(digits@)[k as int]);
            return false;
        }
        k = k + 1;
    }
    assert(s@ =~= reversed(digits@));
    true
}

/// Whether `a` and `b` hold the same characters.
pub fn str_equals(a: &str, b: &str) -> (r: bool)
    ensures
        r == (a@ == b@),
{
    let r = slice_equals(a, 0, a.unicode_len(), b);
    assert(a@.subrange(0, a@.len() as int) =~= a@);
    r
}

/// Where the leading white space of `s` from `i` on ends.
pub proof fn lemma_leading_end(s: Seq<char>, i: int)
    requires
        0 <= i <= s.len(),
    ensures
        i <= leading_end(s, i) <= s.len(),
        leading_end(s, i) < s.len() ==> !is_white_space(s[leading_end(s, i)]),
    decreases s.len() - i,
{
    if i < s.len() && is_white_space(s[i]) {
        lemma_leading_end(s, i + 1);
    }
}

/// Where the trailing white space of `s` before `j`, and at or after `lo`, starts.
pub proof fn lemma_trailing_start(s: Seq<char>, lo: int, j: int)
    requires
        0 <= lo <= j <= s.len(),
    ensures
        lo <= trailing_start(s, lo, j) <= j,
        trailing_start(s, lo, j) > lo ==> !is_white_space(s[trailing_start(s, lo, j) - 1]),
    decreases j - lo,
{
    if lo < j && is_white_space(s[j - 1]) {
        lemma_trailing_start(s, lo, j - 1);
    }
}

/// Trimming twice trims no more than trimming once.
pub proof fn lemma_trim_idempotent(s: Seq<char>)
    ensures
        trim(trim(s)) == trim(s),
{
    let a = leading_end(s, 0);
    lemma_leading_end(s, 0);
    let b = trailing_start(s, a, s.len() as int);
    lemma_trailing_start(s, a, s.len() as int);
    let t = trim(s);
    assert(t.len() == b - a);
    if t.len() > 0 {
        assert(t[0] == s[a]);
        assert(leading_end(t, 0) == 0);
        assert(t[t.len() - 1] == s[b - 1]);
        assert(trailing_start(t, 0, t.len() as int) == t.len());
        assert(trim(t) =~= t);
    } else {
        assert(trim(t) =~= t);
    }
}

/// A character map that keeps white space and non-white space apart leaves the trimmed
/// bounds where they are.
pub proof fn lemma_trim_bounds_of_map(s: Seq<char>, f: spec_fn(char) -> char, i: int, lo: int, j: int)
    requires
        forall|c: char| #[trigger] is_white_space(f(c)) == is_white_space(c),
        0 <= i <= s.len(),
        0 <= lo <= j <= s.len(),
    ensures
        leading_end(s.map_values(f), i) == leading_end(s, i),
        trailing_start(s.map_values(f), lo, j) == trailing_start(s, lo, j),
    decreases s.len() - i + (j - lo),
{
    let m = s.map_values(f);
    if i < s.len() {
        assert(m[i] == f(s[i]));
        lemma_trim_bounds_of_map(s, f, i + 1, lo, j);
    }
    if lo < j {
        assert(m[j - 1] == f(s[j - 1]));
        lemma_trim_bounds_of_map(s, f, i, lo, j - 1);
    }
}

/// Mapping characters by `f` before trimming and lower-casing changes nothing, when `f`
/// keeps white space apart and lower-cases to what its argument lower-cases to.
pub proof fn lemma_lowercase_trim_of_map(s: Seq<char>, f: spec_fn(char) -> char)
    requires
        forall|c: char| #[trigger] is_white_space(f(c)) == is_white_space(c),
        forall|c: char| #[trigger] ascii_lower_char(f(c)) == ascii_lower_char(c),
    ensures
        ascii_lowercase(trim(s.map_values(f))) == ascii_lowercase(trim(s)),
{
    let m = s.map_values(f);
    lemma_trim_bounds_of_map(s, f, 0, 0, s.len() as int);
    let a = leading_end(s, 0);
    lemma_leading_end(s, 0);
    lemma_trim_bounds_of_map(s, f, 0, a, s.len() as int);
    let b = trailing_start(s, a, s.len() as int);
    lemma_trailing_start(s, a, s.len() as int);
    assert(trim(m) == m.subrange(a, b));
    assert forall|k: int| 0 <= k < b - a implies #[trigger] ascii_lowercase(trim(m))[k]
        == ascii_lowercase(trim(s))[k] by {
        assert(m[a + k] == f(s[a + k]));
    }
    assert(ascii_lowercase(trim(m)) =~= ascii_lowercase(trim(s)));
}

/// ASCII case mapping keeps white space apart and lower-cases to the same character.
pub proof fn lemma_case_maps()
    ensures
        forall|c: char| #[trigger] is_white_space(ascii_upper_char(c)) == is_white_space(c),
        forall|c: char| #[trigger] ascii_lower_char(ascii_upper_char(c)) == ascii_lower_char(c),
        forall|c: char| #[trigger] is_white_space(ascii_lower_char(c)) == is_white_space(c),
        forall|c: char| #[trigger] ascii_lower_char(ascii_lower_char(c)) == ascii_lower_char(c),
{
}

/// The number that a run of decimal digits spells, read from the left
/// (`v = v * 10 + d` for each digit `d`).
pub open spec fn decimal_value(s: Seq<char>) -> int
    decreases s.len(),
{
    if s.len() == 0 {
        0
    } else {
        decimal_value(s.drop_last()) * 10 + ((s.last() as u32) - 48)
    }
}

/// `s` is a run of decimal digits without a leading zero (a lone `0` allowed).
pub open spec fn plain_decimal(s: Seq<char>) -> bool {
    &&& s.len() >= 1
    &&& forall|k: int| 0 <= k < s.len() ==> '0' <= #[trigger] s[k] <= '9'
    &&& s[0] == '0' ==> s.len() == 1
}

/// A digit run without a leading zero and with more than one digit spells at least 10.
proof fn lemma_decimal_value_lower(s: Seq<char>)
    requires
        plain_decimal(s),
    ensures
        decimal_value(s) >= 0,
        s[0] != '0' ==> decimal_value(s) >= 1,
        s.len() >= 2 ==> decimal_value(s) >= 10,
    decreases s.len(),
{
    let t = s.drop_last();
    assert(0 <= (s.last() as u32) - 48 <= 9);
    if s.len() >= 2 {
        assert(t[0] == s[0]);
        assert forall|k: int| 0 <= k < t.len() implies '0' <= #[trigger] t[k] <= '9' by {
            assert(t[k] == s[k]);
        }
        assert(s[0] != '0');
        lemma_decimal_value_lower(t);
    } else {
        assert(t.len() == 0);
        assert(decimal_value(t) == 0);
        assert(s.last() == s[0]);
    }
}

/// `n` in decimal is a digit run without a leading zero that reads back, from the left,
/// as `n`; and it is the only such run.
pub proof fn lemma_decimal_reads_back(n: nat)
    ensures
        plain_decimal(decimal(n)),
        decimal_value(decimal(n)) == n,
        forall|s: Seq<char>| plain_decimal(s) && decimal_value(s) == n ==> s == decimal(n),
    decreases n,
{
    let d = decimal(n);
    if n < 10 {
        assert(d.drop_last().len() == 0);
        assert(decimal_value(d.drop_last()) == 0);
        assert(d.last() == digit_char(n as int));
    } else {
        lemma_decimal_reads_back(n / 10);
        let h = decimal(n / 10);
        assert(d.drop_last() =~= h);
        assert(d[0] == h[0]);
        assert(n / 10 >= 1);
        assert(h[0] != '0') by {
            if h[0] == '0' {
                assert(h.len() == 1);
                assert(decimal_value(h) == 0) by {
                    assert(h.drop_last().len() == 0);
                    assert(decimal_value(h.drop_last()) == 0);
                    assert(h.last() == h[0]);
                }
            }
        }
        assert((n / 10) * 10 + n % 10 == n) by (nonlinear_arith);
    }
    assert forall|s: Seq<char>| plain_decimal(s) && decimal_value(s) == n implies s == decimal(n) by {
        lemma_decimal_unique(s, n);
    }
}

/// A digit run without a leading zero that reads back as `n` is `n` in decimal.
proof fn lemma_decimal_unique(s: Seq<char>, n: nat)
    requires
        plain_decimal(s),
        decimal_value(s) == n,
    ensures
        s == decimal(n),
    decreases s.len(),
{
    let t = s.drop_last();
    let last = s.last();
    assert(decimal_value(s) == decimal_value(t) * 10 + ((last as u32) - 48));
    assert(0 <= (last as u32) - 48 <= 9);
    if s.len() == 1 {
        assert(t.len() == 0);
        assert(decimal_value(t) == 0);
        assert(n < 10);
        assert(last == s[0]);
        assert(s =~= seq![digit_char(n as int)]);
    } else {
        assert(t[0] == s[0]);
        assert forall|k: int| 0 <= k < t.len() implies '0' <= #[trigger] t[k] <= '9' by {
            assert(t[k] == s[k]);
        }
        assert(s[0] != '0');
        assert(plain_decimal(t));
        lemma_decimal_value_lower(t);
        let v = decimal_value(t);
        assert(0 <= (last as u32) - 48 < 10);
        assert(n / 10 == v && n % 10 == (last as u32) - 48) by (nonlinear_arith)
            requires
                n == v * 10 + ((last as u32) - 48),
                0 <= (last as u32) - 48 < 10,
                v >= 0,
        ;
        lemma_decimal_unique(t, v as nat);
        assert(n >= 10);
        assert(s =~= decimal((n / 10) as nat).push(digit_char((n % 10) as int)));
    }
}

/// Trimming commutes with a character map that keeps white space apart.
pub proof fn lemma_trim_of_map(s: Seq<char>, f: spec_fn(char) -> char)
    requires
        forall|c: char| #[trigger] is_white_space(f(c)) == is_white_space(c),
    ensures
        trim(s.map_values(f)) == trim(s).map_values(f),
{
    let a = leading_end(s, 0);
    lemma_leading_end(s, 0);
    lemma_trim_bounds_of_map(s, f, 0, a, s.len() as int);
    let b = trailing_start(s, a, s.len() as int);
    lemma_trailing_start(s, a, s.len() as int);
    let m = s.map_values(f);
    assert(trim(m) == m.subrange(a, b));
    assert forall|k: int| 0 <= k < b - a implies #[trigger] trim(m)[k] == trim(s).map_values(f)[k] by {
        assert(m[a + k] == f(s[a + k]));
    }
    assert(trim(m) =~= trim(s).map_values(f));
}

/// `s` in decimal digits is `n` exactly when it is a run of digits without a leading
/// zero that reads back, from the left, as `n`.
pub proof fn lemma_decimal_text(s: Seq<char>, n: nat)
    ensures
        s == decimal(n) <==> plain_decimal(s) && decimal_value(s) == n,
{
    lemma_decimal_reads_back(n);
}

} // verus!

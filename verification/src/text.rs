//! Character-level helpers for the device paths, names and protocol lines
//! that the rest of the library inspects. Every helper is stated over the
//! `Seq<char>` view of the string.
use vstd::prelude::*;

verus! {

/// ASCII lowercase of one character; every other character is unchanged.
pub open spec fn ascii_lower(c: char) -> char {
    if 'A' <= c && c <= 'Z' {
        ((c as u32) + 32) as char
    } else {
        c
    }
}

/// ASCII lowercase of a whole character sequence.
pub open spec fn lower_seq(s: Seq<char>) -> Seq<char> {
    Seq::new(s.len(), |i: int| ascii_lower(s[i]))
}

/// Unicode `White_Space`, the set that `char::is_whitespace` and `str::trim` use.
pub open spec fn is_space(c: char) -> bool {
    let u = c as u32;
    (0x09 <= u && u <= 0x0D) || u == 0x20 || u == 0x85 || u == 0xA0 || u == 0x1680 || (0x2000
        <= u && u <= 0x200A) || u == 0x2028 || u == 0x2029 || u == 0x202F || u == 0x205F || u
        == 0x3000
}

/// Index of the first non-space character (the length when there is none).
pub open spec fn trim_start_index(s: Seq<char>) -> int
    decreases s.len(),
{
    if s.len() == 0 {
        0
    } else if is_space(s[0]) {
        1 + trim_start_index(s.drop_first())
    } else {
        0
    }
}

/// Index just past the last non-space character (0 when there is none).
pub open spec fn trim_end_index(s: Seq<char>) -> int
    decreases s.len(),
{
    if s.len() == 0 {
        0
    } else if is_space(s.last()) {
        trim_end_index(s.drop_last())
    } else {
        s.len() as int
    }
}

/// `s` without leading and trailing white space (what `str::trim` returns).
pub open spec fn trim_seq(s: Seq<char>) -> Seq<char> {
    let start = trim_start_index(s);
    let end = trim_end_index(s);
    if start < end {
        s.subrange(start, end)
    } else {
        Seq::empty()
    }
}

/// `t` occurs in `s` at position `i`.
pub open spec fn occurs_at(s: Seq<char>, t: Seq<char>, i: int) -> bool {
    0 <= i && i + t.len() <= s.len() && s.subrange(i, i + t.len()) == t
}

/// `t` occurs somewhere in `s` (what `str::contains` decides).
pub open spec fn seq_contains(s: Seq<char>, t: Seq<char>) -> bool {
    exists|i: int| occurs_at(s, t, i)
}

pub open spec fn seq_starts_with(s: Seq<char>, t: Seq<char>) -> bool {
    occurs_at(s, t, 0)
}

pub open spec fn seq_ends_with(s: Seq<char>, t: Seq<char>) -> bool {
    occurs_at(s, t, s.len() - t.len())
}

/// The value of a digit in the given radix (2..=16), if it is one.
pub open spec fn digit_value(c: char, radix: u32) -> Option<int> {
    let v: int = if '0' <= c && c <= '9' {
        c as u32 - ('0' as u32)
    } else if 'a' <= c && c <= 'f' {
        c as u32 - ('a' as u32) + 10
    } else if 'A' <= c && c <= 'F' {
        c as u32 - ('A' as u32) + 10
    } else {
        radix as int
    };
    if v < radix {
        Some(v)
    } else {
        None
    }
}

pub open spec fn all_digits(s: Seq<char>, radix: u32) -> bool {
    forall|i: int| 0 <= i < s.len() ==> #[trigger] digit_value(s[i], radix) is Some
}

/// The number that a sequence of digits denotes (most significant first).
pub open spec fn digits_value(s: Seq<char>, radix: u32) -> int
    decreases s.len(),
{
    if s.len() == 0 {
        0
    } else {
        digits_value(s.drop_last(), radix) * radix + digit_value(s.last(), radix).unwrap()
    }
}

/// What `u64::from_str_radix` (and `str::parse` in radix 10) accepts for an
/// unsigned integer at most `max`: an optional `+`, then at least one digit.
pub open spec fn parse_unsigned(s: Seq<char>, radix: u32, max: int) -> Option<int> {
    let body = if s.len() > 0 && s[0] == '+' {
        s.drop_first()
    } else {
        s
    };
    if body.len() > 0 && all_digits(body, radix) && digits_value(body, radix) <= max {
        Some(digits_value(body, radix))
    } else {
        None
    }
}

/// The shortest decimal spelling of a number.
pub open spec fn decimal_seq(n: nat) -> Seq<char>
    decreases n,
{
    if n < 10 {
        seq![(('0' as u32) + n) as char]
    } else {
        decimal_seq(n / 10).push((('0' as u32) + (n % 10)) as char)
    }
}

/// Unicode lowercase mapping of a string, as `str::to_lowercase` computes it.
pub uninterp spec fn unicode_lowercase(s: Seq<char>) -> Seq<char>;

/// Calls `str::to_lowercase`. Its result is a function of the characters of
/// `s` alone (Unicode's fixed case tables); which function is left to the
/// name, except on ASCII text, where Unicode lowercasing maps `A`-`Z` to
/// `a`-`z` and keeps every other character.
#[verifier::external_body]
pub fn to_unicode_lowercase(s: &str) -> (r: String)
    ensures
        r@ == unicode_lowercase(s@),
        (forall|i: int| 0 <= i < s@.len() ==> (#[trigger] s@[i] as u32) < 128) ==> r@ == lower_seq(
            s@,
        ),
{
    s.to_lowercase()
}

/// Calls `String::push`, which appends one character.
#[verifier::external_body]
pub fn push_char(s: &mut String, c: char)
    ensures
        final(s)@ == old(s)@.push(c),
{
    s.push(c)
}

/// The characters of a string, in order.
pub fn chars_of(s: &str) -> (v: Vec<char>)
    ensures
        v@ == s@,
{
    let n = s.unicode_len();
    let mut v: Vec<char> = Vec::new();
    let mut i: usize = 0;
    while i < n
        invariant
            n == s@.len(),
            i <= n,
            v@ == s@.subrange(0, i as int),
        decreases n - i,
    {
        let c = s.get_char(i);
        v.push(c);
        i = i + 1;
        assert(v@ =~= s@.subrange(0, i as int));
    }
    assert(v@ =~= s@);
    v
}

/// A string made of the given characters.
pub fn string_of(v: &[char]) -> (s: String)
    ensures
        s@ == v@,
{
    let mut s = String::new();
    let mut i: usize = 0;
    while i < v.len()
        invariant
            i <= v@.len(),
            s@ == v@.subrange(0, i as int),
        decreases v@.len() - i,
    {
        push_char(&mut s, v[i]);
        i = i + 1;
        assert(s@ =~= v@.subrange(0, i as int));
    }
    assert(s@ =~= v@);
    s
}

/// Appends the characters of `t` to `s`.
pub fn push_str(s: &mut String, t: &str)
    ensures
        final(s)@ == old(s)@ + t@,
{
    let cs = chars_of(t);
    let ghost start = s@;
    let mut i: usize = 0;
    while i < cs.len()
        invariant
            cs@ == t@,
            i <= cs@.len(),
            s@ == start + cs@.subrange(0, i as int),
        decreases cs@.len() - i,
    {
        push_char(s, cs[i]);
        i = i + 1;
        assert(s@ =~= start + cs@.subrange(0, i as int));
    }
    assert(cs@.subrange(0, cs@.len() as int) =~= cs@);
}

pub fn lower_char(c: char) -> (r: char)
    ensures
        r == ascii_lower(c),
{
    if 'A' <= c && c <= 'Z' {
        let b = c as u8;
        assert(b as u32 == c as u32);
        let r = (b + 32) as char;
        r
    } else {
        c
    }
}

/// ASCII lowercase of every character (what `to_ascii_lowercase` does).
pub fn lower_chars(v: &[char]) -> (r: Vec<char>)
    ensures
        r@ == lower_seq(v@),
{
    let mut r: Vec<char> = Vec::new();
    let mut i: usize = 0;
    while i < v.len()
        invariant
            i <= v@.len(),
            r@ == lower_seq(v@.subrange(0, i as int)),
        decreases v@.len() - i,
    {
        r.push(lower_char(v[i]));
        i = i + 1;
        assert(r@ =~= lower_seq(v@.subrange(0, i as int)));
    }
    assert(v@.subrange(0, v@.len() as int) =~= v@);
    r
}

pub fn is_space_char(c: char) -> (r: bool)
    ensures
        r == is_space(c),
{
    let u = c as u32;
    (0x09 <= u && u <= 0x0D) || u == 0x20 || u == 0x85 || u == 0xA0 || u == 0x1680 || (0x2000 <= u
        && u <= 0x200A) || u == 0x2028 || u == 0x2029 || u == 0x202F || u == 0x205F || u == 0x3000
}

proof fn lemma_trim_start_bounds(s: Seq<char>)
    ensures
        0 <= trim_start_index(s) <= s.len(),
        forall|k: int| 0 <= k < trim_start_index(s) ==> is_space(#[trigger] s[k]),
        trim_start_index(s) < s.len() ==> !is_space(s[trim_start_index(s)]),
    decreases s.len(),
{
    if s.len() > 0 && is_space(s[0]) {
        lemma_trim_start_bounds(s.drop_first());
        assert forall|k: int| 0 <= k < trim_start_index(s) implies is_space(#[trigger] s[k]) by {
            if k > 0 {
                assert(s[k] == s.drop_first()[k - 1]);
            }
        }
    }
}

proof fn lemma_trim_start_step(s: Seq<char>, i: int)
    requires
        0 <= i <= s.len(),
        forall|k: int| 0 <= k < i ==> is_space(#[trigger] s[k]),
    ensures
        i < s.len() && !is_space(s[i]) ==> trim_start_index(s) == i,
        i == s.len() ==> trim_start_index(s) == s.len(),
    decreases i,
{
    if i > 0 {
        assert(is_space(s[0]));
        let t = s.drop_first();
        assert forall|k: int| 0 <= k < i - 1 implies is_space(#[trigger] t[k]) by {
            assert(t[k] == s[k + 1]);
        }
        lemma_trim_start_step(t, i - 1);
        if i < s.len() {
            assert(t[i - 1] == s[i]);
        }
    }
}

proof fn lemma_trim_end_step(s: Seq<char>, j: int)
    requires
        0 <= j <= s.len(),
        forall|k: int| j <= k < s.len() ==> is_space(#[trigger] s[k]),
    ensures
        j > 0 && !is_space(s[j - 1]) ==> trim_end_index(s) == j,
        j == 0 ==> trim_end_index(s) == 0,
    decreases s.len() - j,
{
    if j < s.len() {
        assert(is_space(s.last()));
        let t = s.drop_last();
        assert forall|k: int| j <= k < t.len() implies is_space(#[trigger] t[k]) by {
            assert(t[k] == s[k]);
        }
        lemma_trim_end_step(t, j);
        if j > 0 {
            assert(t[j - 1] == s[j - 1]);
        }
    } else if s.len() > 0 && j > 0 {
        assert(s.last() == s[j - 1]);
    } else if s.len() > 0 {
        assert(false);
    }
}

/// The characters of `v` without leading and trailing white space.
pub fn trim_chars(v: &[char]) -> (r: Vec<char>)
    ensures
        r@ == trim_seq(v@),
{
    let n = v.len();
    let mut i: usize = 0;
    while i < n && is_space_char(v[i])
        invariant
            n == v@.len(),
            i <= n,
            forall|k: int| 0 <= k < i ==> is_space(#[trigger] v@[k]),
        decreases n - i,
    {
        i = i + 1;
    }
    let mut j: usize = n;
    while j > i && is_space_char(v[j - 1])
        invariant
            n == v@.len(),
            i <= j <= n,
            forall|k: int| j <= k < n ==> is_space(#[trigger] v@[k]),
        decreases j,
    {
        j = j - 1;
    }
    proof {
        lemma_trim_start_step(v@, i as int);
        lemma_trim_start_bounds(v@);
        if j > i {
            lemma_trim_end_step(v@, j as int);
        } else {
            // everything from i on is space, so the end index is at most i
            assert forall|k: int| i <= k < n implies is_space(#[trigger] v@[k]) by {
                if k < j {
                    assert(false);
                }
            }
            assert forall|k: int| 0 <= k < n implies is_space(#[trigger] v@[k]) by {}
            lemma_trim_end_step(v@, 0);
        }
    }
    let mut r: Vec<char> = Vec::new();
    let mut k: usize = i;
    while k < j
        invariant
            n == v@.len(),
            i <= k <= j <= n,
            r@ == v@.subrange(i as int, k as int),
        decreases j - k,
    {
        r.push(v[k]);
        k = k + 1;
        assert(r@ =~= v@.subrange(i as int, k as int));
    }
    proof {
        if !(i < j) {
            assert(r@ =~= Seq::<char>::empty());
        }
    }
    r
}

/// Whether `t` occurs in `s` at position `i`.
pub fn occurs_at_exec(s: &[char], t: &[char], i: usize) -> (r: bool)
    ensures
        r == occurs_at(s@, t@, i as int),
{
    if i > s.len() || t.len() > s.len() - i {
        return false;
    }
    let mut k: usize = 0;
    while k < t.len()
        invariant
            i + t@.len() <= s@.len(),
            i + t.len() <= s.len(),
            k <= t@.len(),
            forall|m: int| 0 <= m < k ==> s@[i + m] == t@[m],
        decreases t@.len() - k,
    {
        if s[i + k] != t[k] {
            assert(s@.subrange(i as int, i + t@.len())[k as int] != t@[k as int]);
            return false;
        }
        k = k + 1;
    }
    assert(s@.subrange(i as int, i + t@.len()) =~= t@);
    true
}

/// Whether `t` occurs anywhere in `s`.
pub fn contains_chars(s: &[char], t: &[char]) -> (r: bool)
    ensures
        r == seq_contains(s@, t@),
{
    if t.len() > s.len() {
        assert forall|i: int| !occurs_at(s@, t@, i) by {}
        return false;
    }
    let last = s.len() - t.len();
    let mut i: usize = 0;
    loop
        invariant
            last == s@.len() - t@.len(),
            i <= last,
            forall|m: int| 0 <= m < i ==> !occurs_at(s@, t@, m),
        ensures
            forall|m: int| 0 <= m <= last ==> !occurs_at(s@, t@, m),
        decreases last - i,
    {
        if occurs_at_exec(s, t, i) {
            return true;
        }
        if i == last {
            break;
        }
        i = i + 1;
    }
    assert forall|m: int| !occurs_at(s@, t@, m) by {
        if 0 <= m <= last {
        }
    }
    false
}

pub fn starts_with_chars(s: &[char], t: &[char]) -> (r: bool)
    ensures
        r == seq_starts_with(s@, t@),
{
    occurs_at_exec(s, t, 0)
}

pub fn ends_with_chars(s: &[char], t: &[char]) -> (r: bool)
    ensures
        r == seq_ends_with(s@, t@),
{
    if t.len() > s.len() {
        return false;
    }
    occurs_at_exec(s, t, s.len() - t.len())
}

/// Two character sequences are equal.
pub fn chars_equal(a: &[char], b: &[char]) -> (r: bool)
    ensures
        r == (a@ == b@),
{
    if a.len() != b.len() {
        return false;
    }
    let r = occurs_at_exec(a, b, 0);
    proof {
        if r {
            assert(a@.subrange(0, a@.len() as int) =~= a@);
        } else {
            assert(a@ != b@) by {
                if a@ == b@ {
                    assert(a@.subrange(0, a@.len() as int) =~= a@);
                }
            }
        }
    }
    r
}

pub fn digit_of(c: char, radix: u32) -> (r: Option<u32>)
    requires
        2 <= radix <= 16,
    ensures
        match r {
            Some(v) => digit_value(c, radix) == Some(v as int),
            None => digit_value(c, radix) is None,
        },
{
    let v: u32 = if '0' <= c && c <= '9' {
        (c as u32) - ('0' as u32)
    } else if 'a' <= c && c <= 'f' {
        (c as u32) - ('a' as u32) + 10
    } else if 'A' <= c && c <= 'F' {
        (c as u32) - ('A' as u32) + 10
    } else {
        radix
    };
    if v < radix {
        Some(v)
    } else {
        None
    }
}

proof fn lemma_digits_value_bounds(s: Seq<char>, radix: u32)
    requires
        2 <= radix <= 16,
        all_digits(s, radix),
    ensures
        digits_value(s, radix) >= 0,
    decreases s.len(),
{
    if s.len() > 0 {
        let t = s.drop_last();
        assert forall|i: int| 0 <= i < t.len() implies #[trigger] digit_value(t[i], radix) is Some by {
            assert(t[i] == s[i]);
        }
        lemma_digits_value_bounds(t, radix);
        assert(digit_value(s[s.len() - 1], radix) is Some);
        assert(digits_value(t, radix) * radix >= 0) by (nonlinear_arith)
            requires
                digits_value(t, radix) >= 0,
                radix >= 2,
        ;
    }
}

proof fn lemma_digits_value_monotone(s: Seq<char>, radix: u32)
    requires
        2 <= radix <= 16,
        all_digits(s, radix),
        s.len() > 0,
    ensures
        digits_value(s, radix) >= digits_value(s.drop_last(), radix),
{
    let t = s.drop_last();
    assert forall|i: int| 0 <= i < t.len() implies #[trigger] digit_value(t[i], radix) is Some by {
        assert(t[i] == s[i]);
    }
    lemma_digits_value_bounds(t, radix);
    assert(digit_value(s[s.len() - 1], radix) is Some);
    assert(digits_value(t, radix) * radix >= digits_value(t, radix)) by (nonlinear_arith)
        requires
            digits_value(t, radix) >= 0,
            radix >= 2,
    ;
}

/// Parses an unsigned integer at most `max` the way `from_str_radix` does.
pub fn parse_unsigned_chars(s: &[char], radix: u32, max: u64) -> (r: Option<u64>)
    requires
        2 <= radix <= 16,
    ensures
        match r {
            Some(v) => parse_unsigned(s@, radix, max as int) == Some(v as int),
            None => parse_unsigned(s@, radix, max as int) is None,
        },
{
    let start: usize = if s.len() > 0 && s[0] == '+' {
        1
    } else {
        0
    };
    let ghost body = if s@.len() > 0 && s@[0] == '+' {
        s@.drop_first()
    } else {
        s@
    };
    assert(body =~= s@.subrange(start as int, s@.len() as int));
    if start >= s.len() {
        assert(body.len() == 0);
        return None;
    }
    let mut acc: u64 = 0;
    let mut i: usize = start;
    while i < s.len()
        invariant
            2 <= radix <= 16,
            start <= i <= s@.len(),
            body == (if s@.len() > 0 && s@[0] == '+' {
                s@.drop_first()
            } else {
                s@
            }),
            body =~= s@.subrange(start as int, s@.len() as int),
            all_digits(body.subrange(0, i - start), radix),
            acc as int == digits_value(body.subrange(0, i - start), radix),
            acc <= max,
        decreases s@.len() - i,
    {
        let ghost prefix = body.subrange(0, i - start);
        let ghost next = body.subrange(0, i + 1 - start);
        assert(next.drop_last() =~= prefix);
        assert(next.last() == s@[i as int]);
        match digit_of(s[i], radix) {
            None => {
                assert(!all_digits(body, radix)) by {
                    assert(body[i - start] == s@[i as int]);
                    assert(digit_value(body[i - start], radix) is None);
                }
                return None;
            },
            Some(d) => {
                assert(all_digits(next, radix)) by {
                    assert forall|k: int| 0 <= k < next.len() implies #[trigger] digit_value(
                        next[k],
                        radix,
                    ) is Some by {
                        if k < prefix.len() {
                            assert(next[k] == prefix[k]);
                        }
                    }
                }
                assert((acc as u128) * (radix as u128) <= (u64::MAX as u128) * 16) by (
                nonlinear_arith)
                    requires
                        acc <= u64::MAX,
                        radix <= 16,
                ;
                let wide: u128 = (acc as u128) * (radix as u128) + (d as u128);
                assert(wide as int == digits_value(next, radix));
                if wide > max as u128 {
                    proof {
                        // every longer prefix is at least as large
                        lemma_prefix_value_monotone(body, radix, i + 1 - start);
                    }
                    return None;
                }
                acc = wide as u64;
                i = i + 1;
            },
        }
    }
    assert(body.subrange(0, i - start) =~= body);
    Some(acc)
}

proof fn lemma_prefix_value_monotone(body: Seq<char>, radix: u32, n: int)
    requires
        2 <= radix <= 16,
        0 <= n <= body.len(),
        all_digits(body.subrange(0, n), radix),
    ensures
        all_digits(body, radix) ==> digits_value(body, radix) >= digits_value(
            body.subrange(0, n),
            radix,
        ),
    decreases body.len() - n,
{
    if all_digits(body, radix) && n < body.len() {
        let longer = body.subrange(0, n + 1);
        assert forall|k: int| 0 <= k < longer.len() implies #[trigger] digit_value(
            longer[k],
            radix,
        ) is Some by {
            assert(longer[k] == body[k]);
        }
        lemma_prefix_value_monotone(body, radix, n + 1);
        assert(longer.drop_last() =~= body.subrange(0, n));
        lemma_digits_value_monotone(longer, radix);
    } else if n == body.len() {
        assert(body.subrange(0, n) =~= body);
    }
}

/// The shortest decimal spelling of `n`.
pub fn decimal_string(n: u64) -> (s: String)
    ensures
        s@ == decimal_seq(n as nat),
    decreases n,
{
    if n < 10 {
        let mut s = String::new();
        let c = ((n as u8) + 48) as char;
        push_char(&mut s, c);
        assert(s@ =~= decimal_seq(n as nat));
        s
    } else {
        let mut s = decimal_string(n / 10);
        let c = (((n % 10) as u8) + 48) as char;
        push_char(&mut s, c);
        assert(s@ =~= decimal_seq(n as nat));
        s
    }
}


/// The decimal spelling of a number is a non-empty run of ASCII digits
/// that denotes the number again.
pub proof fn lemma_decimal_digits(n: nat)
    ensures
        decimal_seq(n).len() >= 1,
        forall|i: int| 0 <= i < decimal_seq(n).len() ==> '0' <= #[trigger] decimal_seq(n)[i] <= '9',
        all_digits(decimal_seq(n), 10),
        digits_value(decimal_seq(n), 10) == n,
    decreases n,
{
    let d = decimal_seq(n);
    if n < 10 {
        let c = (('0' as u32) + n) as char;
        assert(d == seq![c]);
        assert(c as u32 == 48 + n);
        assert(d.drop_last() =~= Seq::<char>::empty());
        assert(digit_value(c, 10) == Some(n as int));
        assert(d.last() == c);
        assert(digits_value(d.drop_last(), 10) == 0);
        assert(digits_value(d, 10) == digits_value(d.drop_last(), 10) * 10 + digit_value(d.last(), 10).unwrap());
    } else {
        lemma_decimal_digits(n / 10);
        let prev = decimal_seq(n / 10);
        let c = (('0' as u32) + (n % 10)) as char;
        assert(d == prev.push(c));
        assert(c as u32 == 48 + n % 10);
        assert(digit_value(c, 10) == Some((n % 10) as int));
        assert(d.drop_last() =~= prev);
        assert forall|i: int| 0 <= i < d.len() implies '0' <= #[trigger] d[i] <= '9' by {
            if i < prev.len() {
                assert(d[i] == prev[i]);
            }
        }
        assert forall|i: int| 0 <= i < d.len() implies #[trigger] digit_value(d[i], 10) is Some by {
            if i < prev.len() {
                assert(d[i] == prev[i]);
                assert(digit_value(prev[i], 10) is Some);
            }
        }
        assert(d.last() == c);
        assert(digits_value(d, 10) == digits_value(d.drop_last(), 10) * 10 + digit_value(d.last(), 10).unwrap());
        assert(digits_value(d, 10) == (n / 10) * 10 + n % 10);
        assert((n / 10) * 10 + n % 10 == n);
    }
}

} // verus!

//! Character-level helpers shared by the wire codecs: splitting, trimming,
//! decimal parsing and formatting, all specified over `Seq<char>`.
use vstd::prelude::*;
use vstd::string::*;

verus! {

// ===================== std wrappers =====================

/// Appends one character to a `String`.
///
/// Wraps `String::push`; the contract states that the view grows by exactly that character.
#[verifier::external_body]
pub(crate) fn push_char(s: &mut String, c: char)
    ensures
        final(s)@ == old(s)@.push(c),
{
    s.push(c);
}

/// Name for what `str::to_lowercase` returns (Unicode lower-case mapping of every character).
pub uninterp spec fn lowercase(s: Seq<char>) -> Seq<char>;

/// The character with ASCII `A`..`Z` mapped to `a`..`z`; any other character as it is.
pub open spec fn ascii_lower_char(c: char) -> char {
    if 'A' <= c && c <= 'Z' {
        ((c as u32) + 32) as char
    } else {
        c
    }
}

/// Every character of `s` is ASCII.
pub open spec fn is_ascii_text(s: Seq<char>) -> bool {
    forall|i: int| 0 <= i < s.len() ==> (#[trigger] s[i] as u32) < 128
}

/// Every character of `s` is ASCII or a CJK unified ideograph (U+4E00..U+9FFF, characters
/// without case).
pub open spec fn is_ascii_or_cjk_text(s: Seq<char>) -> bool {
    forall|i: int| 0 <= i < s.len() ==> (#[trigger] s[i] as u32) < 128 || (0x4E00 <= (s[i] as u32) && (s[i] as u32) <= 0x9FFF)
}

/// `s` with ASCII upper-case letters made lower-case.
pub open spec fn ascii_lowercase(s: Seq<char>) -> Seq<char> {
    s.map_values(|c: char| ascii_lower_char(c))
}

/// Wraps `str::to_lowercase`; its result is named by `lowercase`. On text of ASCII characters
/// and CJK unified ideographs the Unicode lower-case mapping maps `A`..`Z` to `a`..`z` and
/// keeps every other character (the ideographs have no case).
#[verifier::external_body]
pub(crate) fn to_lowercase(s: &str) -> (r: String)
    ensures
        r@ == lowercase(s@),
        is_ascii_or_cjk_text(s@) ==> r@ == ascii_lowercase(s@),
{
    s.to_lowercase()
}

// ===================== basic conversions =====================

/// The characters of `s`, in order.
pub fn chars_of(s: &str) -> (r: Vec<char>)
    ensures
        r@ == s@,
{
    let mut r: Vec<char> = Vec::new();
    for c in it: s.chars()
        invariant
            r@ == it.seq().take(it.index() as int),
            it.seq() == s@,
    {
        r.push(c);
    }
    r
}

/// Appends every character of `t` to `s`.
pub fn push_chars(s: &mut String, t: &[char])
    ensures
        final(s)@ == old(s)@ + t@,
{
    let ghost start = s@;
    let mut i: usize = 0;
    while i < t.len()
        invariant
            i <= t.len(),
            s@ == start + t@.take(i as int),
        decreases t.len() - i,
    {
        push_char(s, t[i]);
        i = i + 1;
        assert(t@.take(i as int) == t@.take((i - 1) as int).push(t@[i - 1]));
    }
    assert(t@.take(t.len() as int) == t@);
}

/// Appends the characters of `t` to `s`.
pub fn push_str(s: &mut String, t: &str)
    ensures
        final(s)@ == old(s)@ + t@,
{
    let v = chars_of(t);
    push_chars(s, v.as_slice());
}

/// A new `String` holding exactly the characters `v`.
pub fn string_of(v: &[char]) -> (r: String)
    ensures
        r@ == v@,
{
    let mut s = String::new();
    push_chars(&mut s, v);
    s
}

/// A new `String` with the same characters as `t`.
pub fn owned(t: &str) -> (r: String)
    ensures
        r@ == t@,
{
    let v = chars_of(t);
    string_of(v.as_slice())
}

/// Whether two strings hold the same characters.
pub fn str_eq(a: &str, b: &str) -> (r: bool)
    ensures
        r == (a@ == b@),
{
    let x = chars_of(a);
    let y = chars_of(b);
    chars_eq(x.as_slice(), y.as_slice())
}

/// Whether two character slices are equal.
pub fn chars_eq(x: &[char], y: &[char]) -> (r: bool)
    ensures
        r == (x@ == y@),
{
    if x.len() != y.len() {
        return false;
    }
    let mut i: usize = 0;
    while i < x.len()
        invariant
            x.len() == y.len(),
            i <= x.len(),
            x@.take(i as int) == y@.take(i as int),
        decreases x.len() - i,
    {
        if x[i] != y[i] {
            assert(x@[i as int] != y@[i as int]);
            return false;
        }
        assert(x@.take(i + 1) == x@.take(i as int).push(x@[i as int]));
        assert(y@.take(i + 1) == y@.take(i as int).push(y@[i as int]));
        i = i + 1;
    }
    assert(x@.take(x.len() as int) == x@);
    assert(y@.take(y.len() as int) == y@);
    true
}

// ===================== prefix / substring =====================

/// `p` is a prefix of `s`.
pub open spec fn is_prefix(p: Seq<char>, s: Seq<char>) -> bool {
    p.len() <= s.len() && s.take(p.len() as int) == p
}

/// `n` occurs somewhere inside `h`.
pub open spec fn contains_seq(h: Seq<char>, n: Seq<char>) -> bool {
    exists|i: int| 0 <= i && i + n.len() <= h.len() && #[trigger] h.subrange(i, i + n.len()) == n
}

/// Whether `p` is a prefix of `s`.
pub fn starts_with(s: &[char], p: &[char]) -> (r: bool)
    ensures
        r == is_prefix(p@, s@),
{
    if p.len() > s.len() {
        return false;
    }
    let mut i: usize = 0;
    while i < p.len()
        invariant
            p.len() <= s.len(),
            i <= p.len(),
            s@.take(i as int) == p@.take(i as int),
        decreases p.len() - i,
    {
        if s[i] != p[i] {
            assert(s@.take(p.len() as int)[i as int] == s@[i as int]);
            return false;
        }
        assert(s@.take(i + 1) == s@.take(i as int).push(s@[i as int]));
        assert(p@.take(i + 1) == p@.take(i as int).push(p@[i as int]));
        i = i + 1;
    }
    assert(p@.take(p.len() as int) == p@);
    true
}

/// Whether the characters `n` occur inside `h` at position `at`.
fn occurs_at(h: &[char], n: &[char], at: usize) -> (r: bool)
    requires
        at + n.len() <= h.len(),
    ensures
        r == (h@.subrange(at as int, at + n.len()) == n@),
{
    let mut i: usize = 0;
    while i < n.len()
        invariant
            at + n.len() <= h.len(),
            i <= n.len(),
            h@.subrange(at as int, at + i) == n@.take(i as int),
        decreases n.len() - i,
    {
        if h[at + i] != n[i] {
            assert(h@.subrange(at as int, at + n.len())[i as int] == h@[at + i]);
            return false;
        }
        assert(h@.subrange(at as int, at + i + 1) == h@.subrange(at as int, at + i).push(h@[at + i]));
        assert(n@.take(i + 1) == n@.take(i as int).push(n@[i as int]));
        i = i + 1;
    }
    assert(n@.take(n.len() as int) == n@);
    true
}

/// Whether `n` occurs inside `h`.
pub fn contains(h: &[char], n: &[char]) -> (r: bool)
    ensures
        r == contains_seq(h@, n@),
{
    if n.len() > h.len() {
        return false;
    }
    if n.len() == 0 {
        assert(h@.subrange(0int, 0int + n@.len()) == n@);
        return true;
    }
    let mut at: usize = 0;
    let last = h.len() - n.len();
    while at <= last
        invariant
            1 <= n.len() <= h.len(),
            last == h.len() - n.len(),
            at <= last + 1,
            forall|j: int| 0 <= j < at ==> #[trigger] h@.subrange(j, j + n.len()) != n@,
        decreases last + 1 - at,
    {
        if occurs_at(h, n, at) {
            return true;
        }
        at = at + 1;
    }
    assert forall|j: int| 0 <= j && j + n.len() <= h.len() implies #[trigger] h@.subrange(j, j + n.len()) != n@ by {
        assert(j < at);
    }
    false
}

/// Whether the text `h` contains the text `n`.
pub fn str_contains(h: &str, n: &str) -> (r: bool)
    ensures
        r == contains_seq(h@, n@),
{
    let x = chars_of(h);
    let y = chars_of(n);
    contains(x.as_slice(), y.as_slice())
}

/// Whether the text `s` starts with the text `p`.
pub fn str_starts_with(s: &str, p: &str) -> (r: bool)
    ensures
        r == is_prefix(p@, s@),
{
    let x = chars_of(s);
    let y = chars_of(p);
    starts_with(x.as_slice(), y.as_slice())
}

// ===================== splitting =====================

/// Splits `s` at every occurrence of `sep` (like `str::split`): always at least one part.
pub open spec fn split_seq(s: Seq<char>, sep: char) -> Seq<Seq<char>>
    decreases s.len(),
{
    if s.len() == 0 {
        seq![Seq::<char>::empty()]
    } else {
        let p = split_seq(s.drop_last(), sep);
        if s.last() == sep {
            p.push(Seq::<char>::empty())
        } else {
            p.update(p.len() - 1, p.last().push(s.last()))
        }
    }
}

/// The index of the first `sep` in `s`, if any.
pub open spec fn first_index(s: Seq<char>, sep: char) -> Option<int> {
    if exists|i: int| 0 <= i < s.len() && s[i] == sep && forall|j: int| 0 <= j < i ==> s[j] != sep {
        Some(choose|i: int| 0 <= i < s.len() && s[i] == sep && forall|j: int| 0 <= j < i ==> s[j] != sep)
    } else {
        None
    }
}

/// A found first index is in range, holds `sep`, and no earlier position does.
pub proof fn lemma_first_index(s: Seq<char>, sep: char)
    ensures
        first_index(s, sep) matches Some(i) ==> 0 <= i < s.len() && s[i] == sep && forall|j: int| 0 <= j < i ==> s[j] != sep,
        first_index(s, sep) is None ==> !s.contains(sep),
{
    if first_index(s, sep) is None && s.contains(sep) {
        let k = choose|k: int| 0 <= k < s.len() && s[k] == sep;
        lemma_min_index(s, sep, k);
    }
}

proof fn lemma_min_index(s: Seq<char>, sep: char, k: int)
    requires
        0 <= k < s.len(),
        s[k] == sep,
    ensures
        exists|i: int| 0 <= i < s.len() && s[i] == sep && forall|j: int| 0 <= j < i ==> s[j] != sep,
    decreases k,
{
    if exists|j: int| 0 <= j < k && s[j] == sep {
        let j = choose|j: int| 0 <= j < k && s[j] == sep;
        lemma_min_index(s, sep, j);
    } else {
        assert(0 <= k < s.len() && s[k] == sep && forall|j: int| 0 <= j < k ==> s[j] != sep);
    }
}

/// Splits `s` at the first `sep` only (like `str::split_once`).
pub open spec fn split_once_seq(s: Seq<char>, sep: char) -> Option<(Seq<char>, Seq<char>)> {
    match first_index(s, sep) {
        Some(i) => Some((s.take(i), s.skip(i + 1))),
        None => None,
    }
}

pub proof fn lemma_split_nonempty(s: Seq<char>, sep: char)
    ensures
        split_seq(s, sep).len() >= 1,
    decreases s.len(),
{
    if s.len() > 0 {
        lemma_split_nonempty(s.drop_last(), sep);
    }
}

/// Without a separator, splitting gives back the whole sequence.
pub proof fn lemma_split_no_sep(s: Seq<char>, sep: char)
    requires
        !s.contains(sep),
    ensures
        split_seq(s, sep) == seq![s],
    decreases s.len(),
{
    if s.len() > 0 {
        assert(!s.drop_last().contains(sep)) by {
            if s.drop_last().contains(sep) {
                let k = choose|k: int| 0 <= k < s.drop_last().len() && s.drop_last()[k] == sep;
                assert(s[k] == sep);
            }
        }
        lemma_split_no_sep(s.drop_last(), sep);
        assert(s.last() != sep) by {
            assert(s[s.len() - 1] == s.last());
        }
        assert(s.drop_last().push(s.last()) == s);
        assert(seq![s.drop_last()].update(0, s.drop_last().push(s.last())) =~= seq![s]);
    } else {
        assert(s =~= Seq::<char>::empty());
    }
}

/// Splitting `x + [sep] + y` gives the parts of `x` followed by the parts of `y`.
pub proof fn lemma_split_concat(x: Seq<char>, y: Seq<char>, sep: char)
    ensures
        split_seq(x + seq![sep] + y, sep) == split_seq(x, sep) + split_seq(y, sep),
    decreases y.len(),
{
    lemma_split_nonempty(x, sep);
    lemma_split_nonempty(y, sep);
    if y.len() == 0 {
        let s = x + seq![sep];
        assert(s.drop_last() == x);
        assert(x + seq![sep] + y == s);
        assert(split_seq(y, sep) == seq![Seq::<char>::empty()]);
        assert(split_seq(x, sep).push(Seq::<char>::empty()) == split_seq(x, sep) + seq![Seq::<char>::empty()]);
    } else {
        let y0 = y.drop_last();
        let c = y.last();
        lemma_split_concat(x, y0, sep);
        lemma_split_nonempty(y0, sep);
        let s = x + seq![sep] + y;
        assert(s.drop_last() == x + seq![sep] + y0);
        assert(s.last() == c);
        let px = split_seq(x, sep);
        let py0 = split_seq(y0, sep);
        assert(y0.push(c) == y);
        if c == sep {
            assert((px + py0).push(Seq::<char>::empty()) == px + py0.push(Seq::<char>::empty()));
        } else {
            let a = px + py0;
            assert(a.update(a.len() - 1, a.last().push(c)) == px + py0.update(py0.len() - 1, py0.last().push(c)));
        }
    }
}

/// Joins `parts` with `sep` between them.
pub open spec fn join_seq(parts: Seq<Seq<char>>, sep: char) -> Seq<char>
    decreases parts.len(),
{
    if parts.len() == 0 {
        Seq::<char>::empty()
    } else if parts.len() == 1 {
        parts[0]
    } else {
        join_seq(parts.drop_last(), sep) + seq![sep] + parts.last()
    }
}

/// Splitting what was joined gives back the parts, provided no part holds the separator.
pub proof fn lemma_split_join(parts: Seq<Seq<char>>, sep: char)
    requires
        parts.len() >= 1,
        forall|i: int| 0 <= i < parts.len() ==> !(#[trigger] parts[i]).contains(sep),
    ensures
        split_seq(join_seq(parts, sep), sep) == parts,
    decreases parts.len(),
{
    if parts.len() == 1 {
        lemma_split_no_sep(parts[0], sep);
        assert(parts == seq![parts[0]]);
    } else {
        let init = parts.drop_last();
        assert forall|i: int| 0 <= i < init.len() implies !(#[trigger] init[i]).contains(sep) by {
            assert(init[i] == parts[i]);
        }
        lemma_split_join(init, sep);
        lemma_split_concat(join_seq(init, sep), parts.last(), sep);
        assert(!parts[parts.len() - 1].contains(sep));
        lemma_split_no_sep(parts.last(), sep);
        assert(init + seq![parts.last()] == parts);
    }
}

/// Splits `s` at every `sep` into a vector of owned strings.
pub fn split_chars(s: &[char], sep: char) -> (r: Vec<String>)
    ensures
        r@.len() == split_seq(s@, sep).len(),
        forall|i: int| 0 <= i < r@.len() ==> (#[trigger] r@[i])@ == split_seq(s@, sep)[i],
{
    let mut parts: Vec<String> = Vec::new();
    let mut cur: Vec<char> = Vec::new();
    let mut i: usize = 0;
    while i < s.len()
        invariant
            i <= s.len(),
            parts@.len() + 1 == split_seq(s@.take(i as int), sep).len(),
            forall|k: int| 0 <= k < parts@.len() ==> (#[trigger] parts@[k])@ == split_seq(s@.take(i as int), sep)[k],
            cur@ == split_seq(s@.take(i as int), sep).last(),
        decreases s.len() - i,
    {
        let c = s[i];
        let ghost prev = split_seq(s@.take(i as int), sep);
        assert(s@.take(i + 1).drop_last() == s@.take(i as int));
        assert(s@.take(i + 1).last() == c);
        if c == sep {
            let seg = string_of(cur.as_slice());
            parts.push(seg);
            cur = Vec::new();
            proof {
                let now = split_seq(s@.take(i + 1), sep);
                assert(now == prev.push(Seq::<char>::empty()));
                assert forall|k: int| 0 <= k < parts@.len() implies (#[trigger] parts@[k])@ == now[k] by {
                    if k < parts@.len() - 1 {
                    } else {
                        assert(now[k] == prev[k]);
                    }
                }
            }
        } else {
            cur.push(c);
            proof {
                let now = split_seq(s@.take(i + 1), sep);
                assert(now == prev.update(prev.len() - 1, prev.last().push(c)));
                assert forall|k: int| 0 <= k < parts@.len() implies (#[trigger] parts@[k])@ == now[k] by {
                    assert(now[k] == prev[k]);
                }
            }
        }
        i = i + 1;
    }
    assert(s@.take(s.len() as int) == s@);
    let last = string_of(cur.as_slice());
    parts.push(last);
    parts
}

/// Splits the text `s` at every `sep`.
pub fn split(s: &str, sep: char) -> (r: Vec<String>)
    ensures
        r@.len() == split_seq(s@, sep).len(),
        forall|i: int| 0 <= i < r@.len() ==> (#[trigger] r@[i])@ == split_seq(s@, sep)[i],
{
    let v = chars_of(s);
    split_chars(v.as_slice(), sep)
}

/// Index of the first `sep` in `s`.
pub fn find_char(s: &[char], sep: char) -> (r: Option<usize>)
    ensures
        r matches Some(i) ==> first_index(s@, sep) == Some(i as int),
        r is None ==> first_index(s@, sep) is None,
{
    let mut i: usize = 0;
    while i < s.len()
        invariant
            i <= s.len(),
            forall|j: int| 0 <= j < i ==> s@[j] != sep,
        decreases s.len() - i,
    {
        if s[i] == sep {
            proof {
                assert(0 <= i < s@.len() && s@[i as int] == sep && forall|j: int| 0 <= j < i ==> s@[j] != sep);
                let k = choose|k: int| 0 <= k < s@.len() && s@[k] == sep && forall|j: int| 0 <= j < k ==> s@[j] != sep;
                if k < i {
                } else if k > i {
                    assert(s@[i as int] != sep);
                }
            }
            return Some(i);
        }
        i = i + 1;
    }
    None
}


/// Characters `a..b` of `v`.
pub fn sub_chars(v: &[char], a: usize, b: usize) -> (r: Vec<char>)
    requires
        a <= b <= v@.len(),
    ensures
        r@ == v@.subrange(a as int, b as int),
{
    let mut r: Vec<char> = Vec::new();
    let mut i: usize = a;
    while i < b
        invariant
            a <= i <= b <= v.len(),
            r@ == v@.subrange(a as int, i as int),
        decreases b - i,
    {
        r.push(v[i]);
        i = i + 1;
        assert(v@.subrange(a as int, i as int) == v@.subrange(a as int, i - 1).push(v@[i - 1]));
    }
    r
}

/// Name-free wrapper of `std::str::from_utf8`: the text of valid UTF-8 bytes.
#[verifier::external_body]
pub(crate) fn utf8_text(bytes: &[u8]) -> (r: Option<String>)
    ensures
        r is Some <==> vstd::utf8::valid_utf8(bytes@),
        r matches Some(s) ==> s@ == vstd::utf8::decode_utf8(bytes@),
{
    match std::str::from_utf8(bytes) {
        Ok(s) => Some(s.to_string()),
        Err(_) => None,
    }
}

proof fn lemma_digit_char(d: nat)
    requires
        d < 10,
    ensures
        digit_value(digit_char(d)) == d,
        is_digit(digit_char(d)),
{
}

/// The digits of a number are digits.
pub proof fn lemma_dec_digits(n: nat)
    ensures
        dec_digits(n).len() > 0,
        all_digits(dec_digits(n)),
        digits_value(dec_digits(n)) == n,
    decreases n,
{
    lemma_digit_char(n % 10);
    if n >= 10 {
        let m: nat = n / 10;
        lemma_dec_digits(m);
        assert(digits_value(dec_digits(m)) == m);
        let d = dec_digits(n);
        assert(d == dec_digits(m).push(digit_char(n % 10)));
        assert(d.last() == digit_char(n % 10));
        assert(n == (n / 10) * 10 + n % 10);
        assert(d.len() > 0);
        assert(digits_value(d) == digits_value(d.drop_last()) * 10 + digit_value(d.last()));
        assert(d.drop_last() == dec_digits(m));
        assert(digits_value(d.drop_last()) == m);
        assert(digit_value(d.last()) == n % 10);
        assert(digits_value(d) == (n / 10) * 10 + n % 10);
        assert forall|i: int| 0 <= i < d.len() implies is_digit(#[trigger] d[i]) by {
            if i < d.len() - 1 {
                assert(d[i] == dec_digits(n / 10)[i]);
            }
        }
    } else {
        lemma_digit_char(n);
        assert(dec_digits(n).drop_last() =~= Seq::<char>::empty());
        assert(dec_digits(n).last() == digit_char(n));
        assert(digits_value(dec_digits(n)) == digits_value(dec_digits(n).drop_last()) * 10 + digit_value(dec_digits(n).last()));
        assert(digits_value(Seq::<char>::empty()) == 0);
    }
}

/// Parsing the decimal digits of a value in range gives the value back.
pub proof fn lemma_parse_unsigned_dec(n: nat, max: nat)
    requires
        n <= max,
    ensures
        parse_unsigned(dec_digits(n), max) == Some(n),
{
    lemma_dec_digits(n);
    assert(is_digit(dec_digits(n)[0]));
}

/// Parsing `+digits` gives the value back.
pub proof fn lemma_parse_plus_dec(n: nat, max: nat)
    requires
        n <= max,
    ensures
        parse_signed(seq!['+'] + dec_digits(n), max) == Some(n as int),
        parse_unsigned(seq!['+'] + dec_digits(n), max) == Some(n),
{
    lemma_dec_digits(n);
    let s = seq!['+'] + dec_digits(n);
    assert(s.drop_first() == dec_digits(n));
}

/// Parsing a signed decimal value in range gives it back.
pub proof fn lemma_parse_signed_dec(v: int, max: nat)
    requires
        -(max as int) - 1 <= v <= max,
    ensures
        parse_signed(dec_int(v), max) == Some(v),
{
    if v < 0 {
        lemma_dec_digits((-v) as nat);
        let s = seq!['-'] + dec_digits((-v) as nat);
        assert(s.drop_first() == dec_digits((-v) as nat));
    } else {
        lemma_dec_digits(v as nat);
        assert(is_digit(dec_digits(v as nat)[0]));
    }
}

/// Decimal text holds no character other than digits and an optional leading `-`.
pub proof fn lemma_dec_int_no_char(v: int, c: char)
    requires
        !is_digit(c),
        c != '-',
    ensures
        !dec_int(v).contains(c),
        !dec_digits((if v < 0 { -v } else { v }) as nat).contains(c),
{
    let n = (if v < 0 { -v } else { v }) as nat;
    lemma_dec_digits(n);
    if dec_digits(n).contains(c) {
        let k = choose|k: int| 0 <= k < dec_digits(n).len() && dec_digits(n)[k] == c;
        assert(is_digit(dec_digits(n)[k]));
    }
    if dec_int(v).contains(c) {
        let k = choose|k: int| 0 <= k < dec_int(v).len() && dec_int(v)[k] == c;
        if v < 0 {
            assert(dec_int(v)[k] == (seq!['-'] + dec_digits(n))[k]);
            if k > 0 {
                assert(dec_int(v)[k] == dec_digits(n)[k - 1]);
            }
        } else {
            assert(is_digit(dec_digits(n)[k]));
        }
    }
}

// ===================== whitespace =====================

/// `char::is_whitespace`: the Unicode `White_Space` property.
pub open spec fn is_ws(c: char) -> bool {
    ||| ('\u{9}' <= c && c <= '\u{d}')
    ||| c == ' '
    ||| c == '\u{85}'
    ||| c == '\u{a0}'
    ||| c == '\u{1680}'
    ||| ('\u{2000}' <= c && c <= '\u{200a}')
    ||| c == '\u{2028}'
    ||| c == '\u{2029}'
    ||| c == '\u{202f}'
    ||| c == '\u{205f}'
    ||| c == '\u{3000}'
}

/// Exec form of `is_ws`.
pub fn is_whitespace(c: char) -> (r: bool)
    ensures
        r == is_ws(c),
{
    ('\u{9}' <= c && c <= '\u{d}') || c == ' ' || c == '\u{85}' || c == '\u{a0}' || c == '\u{1680}'
        || ('\u{2000}' <= c && c <= '\u{200a}') || c == '\u{2028}' || c == '\u{2029}'
        || c == '\u{202f}' || c == '\u{205f}' || c == '\u{3000}'
}

/// Number of leading whitespace characters.
pub open spec fn lead_ws(s: Seq<char>) -> nat
    decreases s.len(),
{
    if s.len() > 0 && is_ws(s[0]) {
        1 + lead_ws(s.drop_first())
    } else {
        0
    }
}

/// Number of trailing whitespace characters.
pub open spec fn trail_ws(s: Seq<char>) -> nat
    decreases s.len(),
{
    if s.len() > 0 && is_ws(s.last()) {
        1 + trail_ws(s.drop_last())
    } else {
        0
    }
}

/// `str::trim`: `s` without leading and trailing whitespace.
pub open spec fn trim_seq(s: Seq<char>) -> Seq<char> {
    let a = s.skip(lead_ws(s) as int);
    a.take(a.len() - trail_ws(a))
}

/// `s` neither starts nor ends with whitespace.
pub open spec fn is_trimmed(s: Seq<char>) -> bool {
    s.len() == 0 || (!is_ws(s[0]) && !is_ws(s.last()))
}

/// Trimming text that neither starts nor ends with whitespace leaves it as it is.
pub proof fn lemma_trim_trimmed(s: Seq<char>)
    requires
        is_trimmed(s),
    ensures
        trim_seq(s) == s,
{
    assert(lead_ws(s) == 0);
    assert(s.skip(0) =~= s);
    assert(trail_ws(s) == 0);
    assert(s.take(s.len() as int) =~= s);
}

proof fn lemma_trail_ws_bound(s: Seq<char>)
    ensures
        trail_ws(s) <= s.len(),
        s.len() > 0 && trail_ws(s) == s.len() ==> is_ws(s[0]),
    decreases s.len(),
{
    if s.len() > 0 && is_ws(s.last()) {
        lemma_trail_ws_bound(s.drop_last());
        if s.len() > 1 {
            assert(s.drop_last()[0] == s[0]);
        }
    }
}

/// Trimming text that is all whitespace leaves nothing.
pub proof fn lemma_trim_all_ws(s: Seq<char>)
    requires
        forall|i: int| 0 <= i < s.len() ==> is_ws(#[trigger] s[i]),
    ensures
        trim_seq(s).len() == 0,
{
    lemma_lead_ws_char(s, s.len());
    assert(s.skip(s.len() as int).len() == 0);
}

/// Trimming text whose first character is not whitespace keeps that character first.
pub proof fn lemma_trim_keeps_first(s: Seq<char>)
    requires
        s.len() > 0,
        !is_ws(s[0]),
    ensures
        trim_seq(s).len() > 0,
        trim_seq(s)[0] == s[0],
{
    assert(lead_ws(s) == 0);
    assert(s.skip(0) =~= s);
    lemma_trail_ws_bound(s);
}

proof fn lemma_lead_ws_bound(s: Seq<char>)
    ensures
        lead_ws(s) <= s.len(),
        forall|j: int| 0 <= j < lead_ws(s) ==> is_ws(#[trigger] s[j]),
        lead_ws(s) < s.len() ==> !is_ws(s[lead_ws(s) as int]),
    decreases s.len(),
{
    if s.len() > 0 && is_ws(s[0]) {
        lemma_lead_ws_bound(s.drop_first());
        assert forall|j: int| 0 <= j < lead_ws(s) implies is_ws(#[trigger] s[j]) by {
            if j > 0 {
                assert(s[j] == s.drop_first()[j - 1]);
            }
        }
    }
}

proof fn lemma_lead_ws_char(s: Seq<char>, k: nat)
    requires
        k <= s.len(),
        forall|j: int| 0 <= j < k ==> is_ws(#[trigger] s[j]),
        k < s.len() ==> !is_ws(s[k as int]),
    ensures
        lead_ws(s) == k,
    decreases s.len(),
{
    if s.len() > 0 && is_ws(s[0]) {
        assert(k > 0);
        assert forall|j: int| 0 <= j < k - 1 implies is_ws(#[trigger] s.drop_first()[j]) by {
            assert(s.drop_first()[j] == s[j + 1]);
        }
        lemma_lead_ws_char(s.drop_first(), (k - 1) as nat);
    } else if k > 0 {
        assert(is_ws(s[0]));
    }
}

proof fn lemma_trail_ws_char(s: Seq<char>, k: nat)
    requires
        k <= s.len(),
        forall|j: int| s.len() - k <= j < s.len() ==> is_ws(#[trigger] s[j]),
        k < s.len() ==> !is_ws(s[s.len() - k - 1]),
    ensures
        trail_ws(s) == k,
    decreases s.len(),
{
    if s.len() > 0 && is_ws(s.last()) {
        assert(k > 0) by {
            if k == 0 {
                assert(s[s.len() - 1] == s.last());
            }
        }
        let t = s.drop_last();
        assert forall|j: int| t.len() - (k - 1) <= j < t.len() implies is_ws(#[trigger] t[j]) by {
            assert(t[j] == s[j]);
        }
        if k - 1 < t.len() {
            assert(t[t.len() - (k - 1) - 1] == s[s.len() - k - 1]);
        }
        lemma_trail_ws_char(t, (k - 1) as nat);
    } else if k > 0 {
        assert(is_ws(s[s.len() - 1]));
    }
}

/// `str::trim` on a character slice.
pub fn trim_chars(s: &[char]) -> (r: Vec<char>)
    ensures
        r@ == trim_seq(s@),
{
    let mut a: usize = 0;
    while a < s.len() && is_whitespace(s[a])
        invariant
            a <= s.len(),
            forall|j: int| 0 <= j < a ==> is_ws(#[trigger] s@[j]),
        decreases s.len() - a,
    {
        a = a + 1;
    }
    proof {
        lemma_lead_ws_char(s@, a as nat);
    }
    let mut b: usize = s.len();
    while b > a && is_whitespace(s[b - 1])
        invariant
            a <= b <= s.len(),
            forall|j: int| b <= j < s.len() ==> is_ws(#[trigger] s@[j]),
        decreases b - a,
    {
        b = b - 1;
    }
    let ghost rest = s@.skip(a as int);
    proof {
        assert forall|j: int| rest.len() - (s.len() - b) <= j < rest.len() implies is_ws(#[trigger] rest[j]) by {
            assert(rest[j] == s@[a + j]);
        }
        if s.len() - b < rest.len() {
            assert(rest[rest.len() - (s.len() - b) - 1] == s@[b - 1]);
        }
        lemma_trail_ws_char(rest, (s.len() - b) as nat);
    }
    let mut r: Vec<char> = Vec::new();
    let mut i: usize = a;
    while i < b
        invariant
            a <= i <= b <= s.len(),
            r@ == s@.subrange(a as int, i as int),
        decreases b - i,
    {
        r.push(s[i]);
        i = i + 1;
        assert(s@.subrange(a as int, i as int) == s@.subrange(a as int, i - 1).push(s@[i - 1]));
    }
    assert(rest.take(rest.len() - (s.len() - b)) == s@.subrange(a as int, b as int));
    r
}

/// `str::trim` on text.
pub fn trim(s: &str) -> (r: Vec<char>)
    ensures
        r@ == trim_seq(s@),
{
    let v = chars_of(s);
    trim_chars(v.as_slice())
}

// ===================== decimal numbers =====================

pub open spec fn is_digit(c: char) -> bool {
    '0' <= c && c <= '9'
}

pub open spec fn all_digits(s: Seq<char>) -> bool {
    forall|i: int| 0 <= i < s.len() ==> is_digit(#[trigger] s[i])
}

pub open spec fn digit_value(c: char) -> nat {
    if c == '1' { 1 } else if c == '2' { 2 } else if c == '3' { 3 } else if c == '4' { 4 }
    else if c == '5' { 5 } else if c == '6' { 6 } else if c == '7' { 7 } else if c == '8' { 8 }
    else if c == '9' { 9 } else { 0 }
}

/// The character of a decimal digit.
pub open spec fn digit_char(d: nat) -> char {
    if d == 1 { '1' } else if d == 2 { '2' } else if d == 3 { '3' } else if d == 4 { '4' }
    else if d == 5 { '5' } else if d == 6 { '6' } else if d == 7 { '7' } else if d == 8 { '8' }
    else if d == 9 { '9' } else { '0' }
}

fn digit_of(c: char) -> (r: u64)
    ensures
        r == digit_value(c),
{
    if c == '1' { 1 } else if c == '2' { 2 } else if c == '3' { 3 } else if c == '4' { 4 }
    else if c == '5' { 5 } else if c == '6' { 6 } else if c == '7' { 7 } else if c == '8' { 8 }
    else if c == '9' { 9 } else { 0 }
}

fn char_of_digit(d: u64) -> (r: char)
    ensures
        r == digit_char(d as nat),
{
    if d == 1 { '1' } else if d == 2 { '2' } else if d == 3 { '3' } else if d == 4 { '4' }
    else if d == 5 { '5' } else if d == 6 { '6' } else if d == 7 { '7' } else if d == 8 { '8' }
    else if d == 9 { '9' } else { '0' }
}

/// Value of a string of decimal digits.
pub open spec fn digits_value(s: Seq<char>) -> nat
    decreases s.len(),
{
    if s.len() == 0 {
        0
    } else {
        digits_value(s.drop_last()) * 10 + digit_value(s.last())
    }
}

/// Magnitude accepted by `FromStr` of an unsigned integer: an optional `+`, then one or more digits.
pub open spec fn unsigned_magnitude(s: Seq<char>) -> Option<nat> {
    let d = if s.len() > 0 && s[0] == '+' { s.drop_first() } else { s };
    if d.len() > 0 && all_digits(d) {
        Some(digits_value(d))
    } else {
        None
    }
}

/// `str::parse::<uN>()` for an unsigned type whose largest value is `max`.
pub open spec fn parse_unsigned(s: Seq<char>, max: nat) -> Option<nat> {
    match unsigned_magnitude(s) {
        Some(v) => if v <= max { Some(v) } else { None },
        None => None,
    }
}

/// `str::parse::<iN>()` for a signed type with range `[-(max + 1), max]`.
pub open spec fn parse_signed(s: Seq<char>, max: nat) -> Option<int> {
    if s.len() > 0 && s[0] == '-' {
        let d = s.drop_first();
        if d.len() > 0 && all_digits(d) && digits_value(d) <= max + 1 {
            Some(-(digits_value(d) as int))
        } else {
            None
        }
    } else {
        match unsigned_magnitude(s) {
            Some(v) => if v <= max { Some(v as int) } else { None },
            None => None,
        }
    }
}

proof fn lemma_digits_prefix_le(s: Seq<char>, i: int)
    requires
        0 <= i <= s.len(),
    ensures
        digits_value(s.take(i)) <= digits_value(s),
    decreases s.len() - i,
{
    if i < s.len() {
        lemma_digits_prefix_le(s, i + 1);
        assert(s.take(i + 1).drop_last() == s.take(i));
    } else {
        assert(s.take(i) == s);
    }
}

/// Parses a nonempty string of digits whose value must not exceed `max`.
fn parse_digits(d: &[char], max: u64) -> (r: Option<u64>)
    requires
        max < u64::MAX / 16,
    ensures
        r matches Some(v) ==> d@.len() > 0 && all_digits(d@) && v == digits_value(d@) && v <= max,
        r is None ==> !(d@.len() > 0 && all_digits(d@) && digits_value(d@) <= max),
{
    if d.len() == 0 {
        return None;
    }
    let mut acc: u64 = 0;
    let mut i: usize = 0;
    while i < d.len()
        invariant
            i <= d.len(),
            max < u64::MAX / 16,
            acc <= max,
            all_digits(d@.take(i as int)),
            acc == digits_value(d@.take(i as int)),
        decreases d.len() - i,
    {
        let c = d[i];
        if !('0' <= c && c <= '9') {
            assert(!is_digit(d@[i as int]));
            return None;
        }
        let dv = digit_of(c);
        assert(d@.take(i + 1).drop_last() == d@.take(i as int));
        assert(d@.take(i + 1).last() == c);
        acc = acc * 10 + dv;
        i = i + 1;
        assert(all_digits(d@.take(i as int))) by {
            assert forall|k: int| 0 <= k < i implies is_digit(#[trigger] d@.take(i as int)[k]) by {
                if k < i - 1 {
                    assert(d@.take(i as int)[k] == d@.take(i - 1)[k]);
                }
            }
        }
        if acc > max {
            proof {
                lemma_digits_prefix_le(d@, i as int);
            }
            return None;
        }
    }
    assert(d@.take(d.len() as int) == d@);
    Some(acc)
}

/// `str::parse::<u64>()` limited to values up to `max` (the largest value of the target type).
fn parse_unsigned_max(s: &str, max: u64) -> (r: Option<u64>)
    requires
        max < u64::MAX / 16,
    ensures
        r matches Some(v) ==> parse_unsigned(s@, max as nat) == Some(v as nat),
        r is None ==> parse_unsigned(s@, max as nat) is None,
{
    let v = chars_of(s);
    if v.len() > 0 && v[0] == '+' {
        let mut rest: Vec<char> = Vec::new();
        let mut i: usize = 1;
        while i < v.len()
            invariant
                1 <= i <= v.len(),
                rest@ == v@.subrange(1, i as int),
            decreases v.len() - i,
        {
            rest.push(v[i]);
            i = i + 1;
            assert(v@.subrange(1, i as int) == v@.subrange(1, i - 1).push(v@[i - 1]));
        }
        assert(rest@ == v@.drop_first());
        parse_digits(rest.as_slice(), max)
    } else {
        parse_digits(v.as_slice(), max)
    }
}

/// `str::parse::<u32>()`.
pub fn parse_u32(s: &str) -> (r: Option<u32>)
    ensures
        r matches Some(v) ==> parse_unsigned(s@, u32::MAX as nat) == Some(v as nat),
        r is None ==> parse_unsigned(s@, u32::MAX as nat) is None,
{
    match parse_unsigned_max(s, u32::MAX as u64) {
        Some(v) => Some(v as u32),
        None => None,
    }
}

/// `str::parse::<u16>()`.
pub fn parse_u16(s: &str) -> (r: Option<u16>)
    ensures
        r matches Some(v) ==> parse_unsigned(s@, u16::MAX as nat) == Some(v as nat),
        r is None ==> parse_unsigned(s@, u16::MAX as nat) is None,
{
    match parse_unsigned_max(s, u16::MAX as u64) {
        Some(v) => Some(v as u16),
        None => None,
    }
}

/// `str::parse::<i32>()`.
pub fn parse_i32(s: &str) -> (r: Option<i32>)
    ensures
        r matches Some(v) ==> parse_signed(s@, i32::MAX as nat) == Some(v as int),
        r is None ==> parse_signed(s@, i32::MAX as nat) is None,
{
    let v = chars_of(s);
    if v.len() > 0 && v[0] == '-' {
        let mut rest: Vec<char> = Vec::new();
        let mut i: usize = 1;
        while i < v.len()
            invariant
                1 <= i <= v.len(),
                rest@ == v@.subrange(1, i as int),
            decreases v.len() - i,
        {
            rest.push(v[i]);
            i = i + 1;
            assert(v@.subrange(1, i as int) == v@.subrange(1, i - 1).push(v@[i - 1]));
        }
        assert(rest@ == v@.drop_first());
        match parse_digits(rest.as_slice(), 2147483648u64) {
            Some(m) => Some((0i64 - m as i64) as i32),
            None => None,
        }
    } else {
        match parse_unsigned_max(s, i32::MAX as u64) {
            Some(m) => Some(m as i32),
            None => None,
        }
    }
}

/// Parses a nonempty string of digits whose value must not exceed `max` (wide accumulator).
fn parse_digits_wide(d: &[char], max: u128) -> (r: Option<u128>)
    requires
        max < u128::MAX / 16,
    ensures
        r matches Some(v) ==> d@.len() > 0 && all_digits(d@) && v == digits_value(d@) && v <= max,
        r is None ==> !(d@.len() > 0 && all_digits(d@) && digits_value(d@) <= max),
{
    if d.len() == 0 {
        return None;
    }
    let mut acc: u128 = 0;
    let mut i: usize = 0;
    while i < d.len()
        invariant
            i <= d.len(),
            max < u128::MAX / 16,
            acc <= max,
            all_digits(d@.take(i as int)),
            acc == digits_value(d@.take(i as int)),
        decreases d.len() - i,
    {
        let c = d[i];
        if !('0' <= c && c <= '9') {
            assert(!is_digit(d@[i as int]));
            return None;
        }
        let dv = digit_of(c) as u128;
        assert(d@.take(i + 1).drop_last() == d@.take(i as int));
        assert(d@.take(i + 1).last() == c);
        acc = acc * 10 + dv;
        i = i + 1;
        assert(all_digits(d@.take(i as int))) by {
            assert forall|k: int| 0 <= k < i implies is_digit(#[trigger] d@.take(i as int)[k]) by {
                if k < i - 1 {
                    assert(d@.take(i as int)[k] == d@.take(i - 1)[k]);
                }
            }
        }
        if acc > max {
            proof {
                lemma_digits_prefix_le(d@, i as int);
            }
            return None;
        }
    }
    assert(d@.take(d.len() as int) == d@);
    Some(acc)
}

/// `str::parse::<i64>()`.
pub fn parse_i64_text(s: &str) -> (r: Option<i64>)
    ensures
        r matches Some(v) ==> parse_signed(s@, i64::MAX as nat) == Some(v as int),
        r is None ==> parse_signed(s@, i64::MAX as nat) is None,
{
    let v = chars_of(s);
    if v.len() > 0 && (v[0] == '-' || v[0] == '+') {
        let mut rest: Vec<char> = Vec::new();
        let mut i: usize = 1;
        while i < v.len()
            invariant
                1 <= i <= v.len(),
                rest@ == v@.subrange(1, i as int),
            decreases v.len() - i,
        {
            rest.push(v[i]);
            i = i + 1;
            assert(v@.subrange(1, i as int) == v@.subrange(1, i - 1).push(v@[i - 1]));
        }
        assert(rest@ == v@.drop_first());
        if v[0] == '-' {
            match parse_digits_wide(rest.as_slice(), 9223372036854775808u128) {
                Some(m) => Some((0i128 - m as i128) as i64),
                None => None,
            }
        } else {
            match parse_digits_wide(rest.as_slice(), 9223372036854775807u128) {
                Some(m) => Some(m as i64),
                None => None,
            }
        }
    } else {
        match parse_digits_wide(v.as_slice(), 9223372036854775807u128) {
            Some(m) => Some(m as i64),
            None => None,
        }
    }
}

/// `str::parse::<u64>()`.
pub fn parse_u64_text(s: &str) -> (r: Option<u64>)
    ensures
        r matches Some(v) ==> parse_unsigned(s@, u64::MAX as nat) == Some(v as nat),
        r is None ==> parse_unsigned(s@, u64::MAX as nat) is None,
{
    let v = chars_of(s);
    if v.len() > 0 && v[0] == '+' {
        let mut rest: Vec<char> = Vec::new();
        let mut i: usize = 1;
        while i < v.len()
            invariant
                1 <= i <= v.len(),
                rest@ == v@.subrange(1, i as int),
            decreases v.len() - i,
        {
            rest.push(v[i]);
            i = i + 1;
            assert(v@.subrange(1, i as int) == v@.subrange(1, i - 1).push(v@[i - 1]));
        }
        assert(rest@ == v@.drop_first());
        match parse_digits_wide(rest.as_slice(), 18446744073709551615u128) {
            Some(m) => Some(m as u64),
            None => None,
        }
    } else {
        match parse_digits_wide(v.as_slice(), 18446744073709551615u128) {
            Some(m) => Some(m as u64),
            None => None,
        }
    }
}

/// Decimal digits of `n` (no sign, no leading zeros).
pub open spec fn dec_digits(n: nat) -> Seq<char>
    decreases n,
{
    if n < 10 {
        seq![digit_char(n)]
    } else {
        dec_digits(n / 10).push(digit_char(n % 10))
    }
}

/// `i64`'s `Display`: an optional `-` and the decimal digits.
pub open spec fn dec_int(v: int) -> Seq<char> {
    if v < 0 {
        seq!['-'] + dec_digits((-v) as nat)
    } else {
        dec_digits(v as nat)
    }
}

/// Appends the decimal digits of `n` to `s`.
pub fn push_dec(s: &mut String, n: u64)
    ensures
        final(s)@ == old(s)@ + dec_digits(n as nat),
    decreases n,
{
    if n >= 10 {
        push_dec(s, n / 10);
    }
    let d = char_of_digit(n % 10);
    push_char(s, d);
    proof {
        if n < 10 {
            assert(old(s)@.push(d) == old(s)@ + seq![d]);
        }
    }
}

/// Appends the decimal form of a signed value to `s`.
pub fn push_int(s: &mut String, v: i64)
    ensures
        final(s)@ == old(s)@ + dec_int(v as int),
{
    if v < 0 {
        push_char(s, '-');
        let m: u64 = if v == i64::MIN { 9223372036854775808u64 } else { (0 - v) as u64 };
        push_dec(s, m);
        assert(seq!['-'] + dec_digits((-v) as nat) == seq!['-'] + dec_digits(m as nat));
    } else {
        push_dec(s, v as u64);
    }
}

// ===================== ordering =====================

/// Lexicographic order of texts by code point (the order of their UTF-8 bytes).
pub open spec fn text_lt(a: Seq<char>, b: Seq<char>) -> bool
    decreases a.len(),
{
    if a.len() == 0 {
        b.len() > 0
    } else if b.len() == 0 {
        false
    } else if a[0] == b[0] {
        text_lt(a.drop_first(), b.drop_first())
    } else {
        a[0] < b[0]
    }
}

/// No text is below itself.
pub proof fn lemma_text_lt_irreflexive(a: Seq<char>)
    ensures
        !text_lt(a, a),
    decreases a.len(),
{
    if a.len() > 0 {
        lemma_text_lt_irreflexive(a.drop_first());
    }
}

/// The order is transitive.
pub proof fn lemma_text_lt_transitive(a: Seq<char>, b: Seq<char>, c: Seq<char>)
    requires
        text_lt(a, b),
        text_lt(b, c),
    ensures
        text_lt(a, c),
    decreases a.len(),
{
    if a.len() > 0 && b.len() > 0 && c.len() > 0 && a[0] == b[0] && b[0] == c[0] {
        lemma_text_lt_transitive(a.drop_first(), b.drop_first(), c.drop_first());
    }
}

/// Two different texts are ordered one way or the other, never both.
pub proof fn lemma_text_lt_total(a: Seq<char>, b: Seq<char>)
    ensures
        a != b ==> (text_lt(a, b) || text_lt(b, a)),
        !(text_lt(a, b) && text_lt(b, a)),
    decreases a.len(),
{
    if a.len() > 0 && b.len() > 0 {
        lemma_text_lt_total(a.drop_first(), b.drop_first());
        if a[0] == b[0] && a != b {
            assert(a =~= seq![a[0]] + a.drop_first());
            assert(b =~= seq![b[0]] + b.drop_first());
            assert(a.drop_first() != b.drop_first());
        }
    } else if a.len() == 0 && b.len() == 0 {
        assert(a =~= b);
    }
}

/// Whether `a` comes before `b` (code point order).
pub fn str_lt(a: &str, b: &str) -> (r: bool)
    ensures
        r == text_lt(a@, b@),
{
    let x = chars_of(a);
    let y = chars_of(b);
    let mut i: usize = 0;
    assert(x@.skip(0) =~= x@);
    assert(y@.skip(0) =~= y@);
    while i < x.len() && i < y.len()
        invariant
            i <= x.len(),
            i <= y.len(),
            text_lt(a@, b@) == text_lt(x@.skip(i as int), y@.skip(i as int)),
            x@ == a@,
            y@ == b@,
        decreases x.len() - i,
    {
        assert(x@.skip(i as int)[0] == x@[i as int]);
        assert(y@.skip(i as int)[0] == y@[i as int]);
        if x[i] != y[i] {
            return x[i] < y[i];
        }
        assert(x@.skip(i as int).drop_first() =~= x@.skip(i + 1));
        assert(y@.skip(i as int).drop_first() =~= y@.skip(i + 1));
        i = i + 1;
    }
    i == x.len() && i < y.len()
}

// ===================== trailing characters =====================

/// `s` without its trailing run of `c` (like `str::trim_end_matches` with one character).
pub open spec fn trim_end_char(s: Seq<char>, c: char) -> Seq<char>
    decreases s.len(),
{
    if s.len() > 0 && s.last() == c {
        trim_end_char(s.drop_last(), c)
    } else {
        s
    }
}

/// `s` without its trailing run of `c`.
pub fn trim_end_matches_char(s: &str, c: char) -> (r: String)
    ensures
        r@ == trim_end_char(s@, c),
{
    let v = chars_of(s);
    let mut n: usize = v.len();
    assert(v@.take(n as int) =~= v@);
    while n > 0 && v[n - 1] == c
        invariant
            n <= v.len(),
            v@ == s@,
            trim_end_char(s@, c) == trim_end_char(v@.take(n as int), c),
        decreases n,
    {
        assert(v@.take(n as int).drop_last() =~= v@.take(n - 1));
        n = n - 1;
    }
    let w = sub_chars(v.as_slice(), 0, n);
    assert(w@ =~= v@.take(n as int));
    string_of(w.as_slice())
}

/// Removing a trailing `c` from text that does not end with it changes nothing.
pub proof fn lemma_trim_end_plus(d: Seq<char>, c: char)
    requires
        d.len() == 0 || d.last() != c,
    ensures
        trim_end_char(d + seq![c], c) == d,
        trim_end_char(d, c) == d,
{
    let e = d + seq![c];
    assert(e.drop_last() =~= d);
    assert(e.len() > 0 && e.last() == c);
    assert(trim_end_char(e, c) == trim_end_char(d, c));
}

} // verus!

//! Text: trimming, decimal numerals, ASCII classes and message building.
use vstd::prelude::*;
use vstd::string::*;

verus! {

// ---------------------------------------------------------------------------
// std functions on text
// ---------------------------------------------------------------------------

/// `String::push` appends the given character at the end of the string.
pub assume_specification[ String::push ](s: &mut String, c: char)
    ensures
        final(s)@ == old(s)@.push(c),
;

/// The text that `str::to_uppercase` gives for a string.
pub uninterp spec fn unicode_uppercase(s: Seq<char>) -> Seq<char>;

/// The text that `str::to_lowercase` gives for a string.
pub uninterp spec fn unicode_lowercase(s: Seq<char>) -> Seq<char>;

/// The text that the `Debug` format of a string slice gives: quoted, with
/// special characters escaped.
pub uninterp spec fn debug_quoted(s: Seq<char>) -> Seq<char>;

/// Calls `str::to_uppercase`. The result depends on the text alone, and on a
/// text of ASCII characters it maps `a` to `z` to `A` to `Z` and keeps the rest.
#[verifier::external_body]
pub(crate) fn to_uppercase(s: &str) -> (r: String)
    ensures
        r@ == unicode_uppercase(s@),
        is_ascii_text(s@) ==> r@ == ascii_uppercase(s@),
{
    s.to_uppercase()
}

/// Calls `str::to_lowercase`. The result depends on the text alone, and on a
/// text of ASCII characters it maps `A` to `Z` to `a` to `z` and keeps the rest.
#[verifier::external_body]
pub(crate) fn to_lowercase(s: &str) -> (r: String)
    ensures
        r@ == unicode_lowercase(s@),
        is_ascii_text(s@) ==> r@ == ascii_lowercase(s@),
{
    s.to_lowercase()
}

/// Formats a string slice with its std `Debug` impl; the result depends on the
/// text alone.
#[verifier::external_body]
pub(crate) fn debug_text(s: &str) -> (r: String)
    ensures
        r@ == debug_quoted(s@),
{
    format!("{:?}", s)
}

// ---------------------------------------------------------------------------
// Comparing and joining
// ---------------------------------------------------------------------------

/// Whether two texts are the same.
pub fn same(a: &str, b: &str) -> (r: bool)
    ensures
        r == (a@ == b@),
{
    a.to_owned() == b.to_owned()
}

/// Two texts one after the other.
pub fn join2(a: &str, b: &str) -> (r: String)
    ensures
        r@ == a@ + b@,
{
    let mut out = a.to_owned();
    out.append(b);
    out
}

/// Three texts one after the other.
pub fn join3(a: &str, b: &str, c: &str) -> (r: String)
    ensures
        r@ == a@ + b@ + c@,
{
    let mut out = a.to_owned();
    out.append(b);
    out.append(c);
    out
}

/// A copy of an optional text.
pub fn copy_opt(s: &Option<String>) -> (r: Option<String>)
    ensures
        r == *s,
{
    match s {
        Some(t) => Some(t.clone()),
        None => None,
    }
}

// ---------------------------------------------------------------------------
// ASCII
// ---------------------------------------------------------------------------

pub open spec fn is_ascii_text(s: Seq<char>) -> bool {
    forall|i: int| 0 <= i < s.len() ==> (#[trigger] s[i] as u32) < 128
}

pub open spec fn upper_char(c: char) -> char {
    if 'a' <= c <= 'z' {
        (c as u32 - 32) as char
    } else {
        c
    }
}

pub open spec fn lower_char(c: char) -> char {
    if 'A' <= c <= 'Z' {
        (c as u32 + 32) as char
    } else {
        c
    }
}

/// The text with `a` to `z` mapped to `A` to `Z`.
pub open spec fn ascii_uppercase(s: Seq<char>) -> Seq<char> {
    s.map_values(|c: char| upper_char(c))
}

/// The text with `A` to `Z` mapped to `a` to `z`.
pub open spec fn ascii_lowercase(s: Seq<char>) -> Seq<char> {
    s.map_values(|c: char| lower_char(c))
}

pub open spec fn is_digit(c: char) -> bool {
    '0' <= c <= '9'
}

pub open spec fn is_alphanumeric(c: char) -> bool {
    is_digit(c) || 'a' <= c <= 'z' || 'A' <= c <= 'Z'
}

pub open spec fn is_hex(c: char) -> bool {
    is_digit(c) || 'a' <= c <= 'f' || 'A' <= c <= 'F'
}

/// The upper-case form of one ASCII character.
pub fn upper_of(c: char) -> (r: char)
    ensures
        r == upper_char(c),
{
    if 'a' <= c && c <= 'z' {
        let code: u8 = c as u8;
        (code - 32) as char
    } else {
        c
    }
}

// ---------------------------------------------------------------------------
// Trimming
// ---------------------------------------------------------------------------

/// The Unicode property `White_Space`.
pub open spec fn is_space(c: char) -> bool {
    let n = c as u32;
    ||| 9 <= n <= 13
    ||| n == 32
    ||| n == 0x85
    ||| n == 0xa0
    ||| n == 0x1680
    ||| 0x2000 <= n <= 0x200a
    ||| n == 0x2028
    ||| n == 0x2029
    ||| n == 0x202f
    ||| n == 0x205f
    ||| n == 0x3000
}

/// The text without the white space at its two ends.
pub open spec fn trimmed(s: Seq<char>) -> Seq<char>
    decreases s.len(),
{
    if s.len() == 0 {
        s
    } else if is_space(s.first()) {
        trimmed(s.drop_first())
    } else if is_space(s.last()) {
        trimmed(s.drop_last())
    } else {
        s
    }
}

fn space(c: char) -> (r: bool)
    ensures
        r == is_space(c),
{
    let n: u32 = c as u32;
    (9 <= n && n <= 13) || n == 32 || n == 0x85 || n == 0xa0 || n == 0x1680
        || (0x2000 <= n && n <= 0x200a) || n == 0x2028 || n == 0x2029 || n == 0x202f
        || n == 0x205f || n == 0x3000
}

/// The text without the white space at its two ends.
pub fn trim<'a>(s: &'a str) -> (r: &'a str)
    ensures
        r@ == trimmed(s@),
{
    let chars: Vec<char> = chars_of(s);
    let mut lo: usize = 0;
    let mut hi: usize = chars.len();
    assert(s@.subrange(0, hi as int) =~= s@);
    while lo < hi && space(chars[lo])
        invariant
            lo <= hi == chars@.len(),
            chars@ == s@,
            trimmed(s@.subrange(lo as int, hi as int)) == trimmed(s@),
        decreases hi - lo,
    {
        let ghost cur = s@.subrange(lo as int, hi as int);
        assert(cur.drop_first() =~= s@.subrange(lo + 1, hi as int));
        lo = lo + 1;
    }
    while lo < hi && space(chars[hi - 1])
        invariant
            lo <= hi <= chars@.len(),
            chars@ == s@,
            lo < hi ==> !is_space(s@[lo as int]),
            trimmed(s@.subrange(lo as int, hi as int)) == trimmed(s@),
        decreases hi - lo,
    {
        let ghost cur = s@.subrange(lo as int, hi as int);
        assert(cur.first() == s@[lo as int]);
        assert(cur.last() == s@[hi - 1]);
        assert(cur.drop_last() =~= s@.subrange(lo as int, hi - 1));
        hi = hi - 1;
    }
    let ghost cur = s@.subrange(lo as int, hi as int);
    assert(trimmed(cur) == cur) by {
        if cur.len() > 0 {
            assert(cur.first() == s@[lo as int]);
            assert(cur.last() == s@[hi - 1]);
        }
    }
    s.substring_char(lo, hi)
}

/// The characters of a text.
pub fn chars_of(s: &str) -> (v: Vec<char>)
    ensures
        v@ == s@,
{
    let mut v: Vec<char> = Vec::new();
    for c in it: s.chars()
        invariant
            v@ == it.seq().take(it.index() as int),
            it.seq() == s@,
    {
        v.push(c);
    }
    v
}

/// A trimmed text that is not empty, or nothing.
pub open spec fn non_blank(s: Option<Seq<char>>) -> Option<Seq<char>> {
    match s {
        Some(t) if trimmed(t).len() > 0 => Some(trimmed(t)),
        _ => None,
    }
}

/// The view of an optional text.
pub open spec fn opt_view(s: Option<String>) -> Option<Seq<char>> {
    match s {
        Some(t) => Some(t@),
        None => None,
    }
}

/// Trims an optional text and drops it where nothing is left.
pub fn keep_non_blank(s: &Option<String>) -> (r: Option<String>)
    ensures
        opt_view(r) == non_blank(opt_view(*s)),
{
    match s {
        Some(t) => {
            let u = trim(t.as_str());
            if u.is_empty() {
                None
            } else {
                Some(u.to_owned())
            }
        },
        None => None,
    }
}

/// The pattern that finds a text anywhere: the trimmed text between two percent
/// signs; none for a blank text.
pub open spec fn like_pattern_of(s: Option<Seq<char>>) -> Option<Seq<char>> {
    match non_blank(s) {
        Some(t) => Some("%"@ + t + "%"@),
        None => None,
    }
}

/// The pattern that finds a text anywhere.
pub fn like_pattern(s: &Option<String>) -> (r: Option<String>)
    ensures
        opt_view(r) == like_pattern_of(opt_view(*s)),
{
    match keep_non_blank(s) {
        Some(t) => Some(join3("%", t.as_str(), "%")),
        None => None,
    }
}

// ---------------------------------------------------------------------------
// Decimal numerals
// ---------------------------------------------------------------------------

pub open spec fn digit_char(d: int) -> char {
    (48 + d) as char
}

pub open spec fn digit_value(c: char) -> int {
    c as int - 48
}

/// The decimal digits of a natural number, without leading zeros.
pub open spec fn digits(n: nat) -> Seq<char>
    decreases n,
{
    if n < 10 {
        seq![digit_char(n as int)]
    } else {
        digits(n / 10).push(digit_char((n % 10) as int))
    }
}

/// A whole number in decimal notation.
pub open spec fn decimal(i: int) -> Seq<char> {
    if i < 0 {
        seq!['-'] + digits((-i) as nat)
    } else {
        digits(i as nat)
    }
}

/// The number that a sequence of digits stands for.
pub open spec fn digits_value(s: Seq<char>) -> int
    decreases s.len(),
{
    if s.len() == 0 {
        0
    } else {
        digits_value(s.drop_last()) * 10 + digit_value(s.last())
    }
}

pub open spec fn all_digits(s: Seq<char>) -> bool {
    forall|i: int| 0 <= i < s.len() ==> is_digit(#[trigger] s[i])
}

/// An optional sign followed by at least one digit and nothing else: the number
/// it stands for.
pub open spec fn numeral_value(s: Seq<char>) -> Option<int> {
    let signed = s.len() > 0 && (s[0] == '-' || s[0] == '+');
    let body = if signed {
        s.drop_first()
    } else {
        s
    };
    if body.len() > 0 && all_digits(body) {
        Some(
            if signed && s[0] == '-' {
                -digits_value(body)
            } else {
                digits_value(body)
            },
        )
    } else {
        None
    }
}

/// The `i64` that a text denotes, where it denotes one.
pub open spec fn parsed_i64(s: Seq<char>) -> Option<i64> {
    match numeral_value(s) {
        Some(n) if i64::MIN <= n <= i64::MAX => Some(n as i64),
        _ => None,
    }
}

proof fn lemma_digits_value_bound(s: Seq<char>)
    requires
        all_digits(s),
    ensures
        0 <= digits_value(s),
    decreases s.len(),
{
    if s.len() > 0 {
        assert(is_digit(s[s.len() - 1]));
        assert(all_digits(s.drop_last())) by {
            assert forall|i: int| 0 <= i < s.drop_last().len() implies is_digit(
                #[trigger] s.drop_last()[i],
            ) by {
                assert(is_digit(s[i]));
            }
        }
        lemma_digits_value_bound(s.drop_last());
    }
}

/// A longer run of digits stands for a number at least as large.
proof fn lemma_digits_value_monotone(s: Seq<char>, k: int)
    requires
        all_digits(s),
        0 <= k <= s.len(),
    ensures
        0 <= digits_value(s.take(k)) <= digits_value(s),
    decreases s.len(),
{
    lemma_digits_value_bound(s);
    if k < s.len() {
        assert(all_digits(s.drop_last())) by {
            assert forall|i: int| 0 <= i < s.drop_last().len() implies is_digit(
                #[trigger] s.drop_last()[i],
            ) by {
                assert(is_digit(s[i]));
            }
        }
        assert(is_digit(s[s.len() - 1]));
        assert(s.drop_last().take(k) =~= s.take(k));
        lemma_digits_value_monotone(s.drop_last(), k);
        lemma_digits_value_bound(s.drop_last());
    } else {
        assert(s.take(k) =~= s);
    }
}

/// The `i64` that a text denotes: an optional sign and at least one digit, in
/// range.
pub fn parse_i64(s: &str) -> (r: Option<i64>)
    ensures
        r == parsed_i64(s@),
{
    let chars: Vec<char> = chars_of(s);
    let n: usize = chars.len();
    let signed: bool = n > 0 && (chars[0] == '-' || chars[0] == '+');
    let start: usize = if signed {
        1
    } else {
        0
    };
    let negative: bool = signed && chars[0] == '-';
    let ghost body = s@.subrange(start as int, n as int);
    assert(body =~= if signed {
        s@.drop_first()
    } else {
        s@
    });
    if start == n {
        return None;
    }
    let mut acc: i128 = 0;
    let mut i: usize = start;
    while i < n
        invariant
            start <= i <= n,
            n == chars@.len(),
            chars@ == s@,
            body == s@.subrange(start as int, n as int),
            signed == (s@.len() > 0 && (s@[0] == '-' || s@[0] == '+')),
            negative == (signed && s@[0] == '-'),
            start == if signed {
                1int
            } else {
                0int
            },
            body == if signed {
                s@.drop_first()
            } else {
                s@
            },
            forall|j: int| 0 <= j < i - start ==> is_digit(#[trigger] body[j]),
            acc == digits_value(body.take(i - start)),
            0 <= acc <= 0x8000_0000_0000_0000,
        decreases n - i,
    {
        let c: char = chars[i];
        assert(body[i - start] == c);
        if !('0' <= c && c <= '9') {
            assert(!is_digit(body[i - start]));
            assert(!all_digits(body));
            return None;
        }
        let d: i128 = (c as u32 - 48) as i128;
        assert(body.take(i - start + 1).drop_last() =~= body.take(i - start));
        assert(body.take(i - start + 1).last() == c);
        acc = acc * 10 + d;
        i = i + 1;
        if acc > 0x8000_0000_0000_0000 {
            proof {
                if all_digits(body) {
                    lemma_digits_value_monotone(body, i - start);
                }
            }
            return None;
        }
    }
    assert(body.take(n - start) =~= body);
    assert(all_digits(body));
    if negative {
        Some((-acc) as i64)
    } else if acc <= 0x7fff_ffff_ffff_ffff {
        Some(acc as i64)
    } else {
        None
    }
}

fn digit_of(d: u128) -> (c: char)
    requires
        d < 10,
    ensures
        c == digit_char(d as int),
{
    let b: u8 = 48 + (d as u8);
    b as char
}

fn digits_text(n: u128) -> (r: String)
    ensures
        r@ == digits(n as nat),
    decreases n,
{
    if n < 10 {
        let mut out = String::new();
        out.push(digit_of(n));
        assert(out@ =~= digits(n as nat));
        out
    } else {
        let mut out = digits_text(n / 10);
        out.push(digit_of(n % 10));
        out
    }
}

/// A whole number in decimal notation.
pub fn decimal_text(i: i128) -> (r: String)
    requires
        i > i128::MIN,
    ensures
        r@ == decimal(i as int),
{
    if i < 0 {
        let mut out = String::new();
        out.push('-');
        let body = digits_text((-i) as u128);
        out.append(body.as_str());
        assert(out@ =~= decimal(i as int));
        out
    } else {
        digits_text(i as u128)
    }
}

/// An `i64` in decimal notation.
pub fn id_text(i: i64) -> (r: String)
    ensures
        r@ == decimal(i as int),
{
    decimal_text(i as i128)
}

/// A list of numbers in brackets, separated by a comma and a space.
pub open spec fn list_text(ids: Seq<i64>) -> Seq<char> {
    seq!['['] + joined(ids) + seq![']']
}

pub open spec fn joined(ids: Seq<i64>) -> Seq<char>
    decreases ids.len(),
{
    if ids.len() == 0 {
        Seq::empty()
    } else if ids.len() == 1 {
        decimal(ids[0] as int)
    } else {
        joined(ids.drop_last()) + seq![',', ' '] + decimal(ids.last() as int)
    }
}

/// A list of numbers in brackets, separated by a comma and a space.
pub fn ids_text(ids: &Vec<i64>) -> (r: String)
    ensures
        r@ == list_text(ids@),
{
    let mut out = String::new();
    out.push('[');
    let mut i: usize = 0;
    while i < ids.len()
        invariant
            i <= ids@.len(),
            out@ == seq!['['] + joined(ids@.take(i as int)),
        decreases ids@.len() - i,
    {
        if i > 0 {
            out.push(',');
            out.push(' ');
        }
        out.append(id_text(ids[i]).as_str());
        assert(ids@.take(i + 1).drop_last() =~= ids@.take(i as int));
        if i == 0 {
            assert(ids@.take(0) =~= Seq::<i64>::empty());
        }
        assert(out@ =~= seq!['['] + joined(ids@.take(i + 1)));
        i = i + 1;
    }
    assert(ids@.take(ids@.len() as int) =~= ids@);
    out.push(']');
    assert(out@ =~= list_text(ids@));
    out
}

/// An optional number in the `Debug` notation of `Option`.
pub open spec fn option_text(v: Option<i64>) -> Seq<char> {
    match v {
        Some(n) => "Some("@ + decimal(n as int) + ")"@,
        None => "None"@,
    }
}

/// An optional number in the `Debug` notation of `Option`.
pub fn opt_id_text(v: Option<i64>) -> (r: String)
    ensures
        r@ == option_text(v),
{
    match v {
        Some(n) => join3("Some(", id_text(n).as_str(), ")"),
        None => "None".to_owned(),
    }
}

// ---------------------------------------------------------------------------
// Laws
// ---------------------------------------------------------------------------

proof fn lemma_digits_shape(n: nat)
    ensures
        digits(n).len() > 0,
        all_digits(digits(n)),
        digits_value(digits(n)) == n,
    decreases n,
{
    if n < 10 {
        let s = digits(n);
        assert(s.drop_last() =~= Seq::<char>::empty());
        assert(s.last() == digit_char(n as int));
        assert(digits_value(s.drop_last()) == 0);
        assert(is_digit(s[0]));
    } else {
        lemma_digits_shape(n / 10);
        let s = digits(n);
        assert(s.drop_last() =~= digits(n / 10));
        assert(s.last() == digit_char((n % 10) as int));
        assert forall|i: int| 0 <= i < s.len() implies is_digit(#[trigger] s[i]) by {
            if i < s.len() - 1 {
                assert(s[i] == digits(n / 10)[i]);
            }
        }
    }
}

/// The decimal notation of an identifier is read back as that identifier.
pub proof fn decimal_is_read_back(i: i64)
    ensures
        parsed_i64(decimal(i as int)) == Some(i),
{
    if i < 0 {
        let n = (-i) as nat;
        lemma_digits_shape(n);
        assert(decimal(i as int).drop_first() =~= digits(n));
    } else {
        let n = i as nat;
        lemma_digits_shape(n);
        let s = decimal(i as int);
        assert(is_digit(s[0]));
        assert(s[0] != '-' && s[0] != '+');
    }
}

/// Different whole numbers have different decimal notations, and none of them
/// holds a colon.
pub proof fn decimal_is_unambiguous(i: i64, j: i64)
    ensures
        decimal(i as int) == decimal(j as int) ==> i == j,
        !decimal(i as int).contains(':'),
{
    decimal_is_read_back(i);
    decimal_is_read_back(j);
    let n = if i < 0 {
        (-i) as nat
    } else {
        i as nat
    };
    lemma_digits_shape(n);
    assert forall|k: int| 0 <= k < decimal(i as int).len() implies decimal(i as int)[k] != ':' by {
        if i < 0 {
            if k > 0 {
                assert(decimal(i as int)[k] == digits(n)[k - 1]);
                assert(is_digit(digits(n)[k - 1]));
            }
        } else {
            assert(is_digit(digits(n)[k]));
        }
    }
}

/// The stretch of a text that trimming keeps.
proof fn lemma_trimmed_bounds(s: Seq<char>) -> (r: (int, int))
    ensures
        0 <= r.0 <= r.1 <= s.len(),
        trimmed(s) == s.subrange(r.0, r.1),
    decreases s.len(),
{
    if s.len() == 0 {
        assert(s.subrange(0, 0) =~= s);
        (0, 0)
    } else if is_space(s.first()) {
        let (lo, hi) = lemma_trimmed_bounds(s.drop_first());
        assert(s.subrange(lo + 1, hi + 1) =~= s.drop_first().subrange(lo, hi));
        (lo + 1, hi + 1)
    } else if is_space(s.last()) {
        let (lo, hi) = lemma_trimmed_bounds(s.drop_last());
        assert(s.subrange(lo, hi) =~= s.drop_last().subrange(lo, hi));
        (lo, hi)
    } else {
        assert(s.subrange(0, s.len() as int) =~= s);
        (0, s.len() as int)
    }
}

proof fn lemma_trimmed_ends(s: Seq<char>)
    ensures
        trimmed(s).len() > 0 ==> !is_space(trimmed(s).first()) && !is_space(trimmed(s).last()),
    decreases s.len(),
{
    if s.len() > 0 {
        if is_space(s.first()) {
            lemma_trimmed_ends(s.drop_first());
        } else if is_space(s.last()) {
            lemma_trimmed_ends(s.drop_last());
        }
    }
}

/// Trimming twice is trimming once; nothing white is left at either end, and
/// what is left is a stretch of the text.
pub proof fn trimming_is_idempotent(s: Seq<char>)
    ensures
        trimmed(trimmed(s)) == trimmed(s),
        trimmed(s).len() > 0 ==> !is_space(trimmed(s).first()) && !is_space(trimmed(s).last()),
        exists|lo: int, hi: int|
            0 <= lo <= hi <= s.len() && trimmed(s) == #[trigger] s.subrange(lo, hi),
{
    lemma_trimmed_ends(s);
    let (lo, hi) = lemma_trimmed_bounds(s);
    assert(trimmed(s) == s.subrange(lo, hi));
}

} // verus!

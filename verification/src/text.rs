//! Text the service reads from its operators and writes to its clients: decimal
//! numbers, trimmed settings and ASCII case.

use vstd::hash_set::StringHashSet;
use vstd::prelude::*;

verus! {

broadcast use vstd::string::group_string_axioms;

/// The decimal digit `d` as a character, for `d` in `0..=9`.
pub open spec fn digit_char(d: nat) -> char {
    ('0' as u32 + d) as char
}

/// `n` written in decimal, without leading zeros.
pub open spec fn decimal(n: nat) -> Seq<char>
    decreases n,
{
    if n < 10 {
        seq![digit_char(n)]
    } else {
        decimal(n / 10).push(digit_char(n % 10))
    }
}

/// `n` written in decimal, with a sign where it is negative.
pub open spec fn signed_decimal(n: int) -> Seq<char> {
    if n < 0 {
        seq!['-'] + decimal((-n) as nat)
    } else {
        decimal(n as nat)
    }
}

/// The value a run of decimal digits stands for.
pub open spec fn digits_value(s: Seq<char>) -> nat
    decreases s.len(),
{
    if s.len() == 0 {
        0
    } else {
        digits_value(s.drop_last()) * 10 + digit_value(s.last())
    }
}

/// The value of one decimal digit.
pub open spec fn digit_value(c: char) -> nat {
    (c as u32 - '0' as u32) as nat
}

pub open spec fn is_digit(c: char) -> bool {
    '0' <= c <= '9'
}

pub open spec fn all_digits(s: Seq<char>) -> bool {
    forall|i: int| 0 <= i < s.len() ==> is_digit(#[trigger] s[i])
}

/// The number `s` spells: decimal digits, optionally behind a plus sign.
pub open spec fn unsigned_value(s: Seq<char>) -> Option<nat> {
    let digits = if s.len() > 0 && s[0] == '+' { s.skip(1) } else { s };
    if digits.len() > 0 && all_digits(digits) {
        Some(digits_value(digits))
    } else {
        None
    }
}

/// Unicode's `White_Space` property.
pub open spec fn is_white(c: char) -> bool {
    ||| '\u{9}' <= c <= '\u{d}'
    ||| c == ' '
    ||| c == '\u{85}'
    ||| c == '\u{a0}'
    ||| c == '\u{1680}'
    ||| '\u{2000}' <= c <= '\u{200a}'
    ||| c == '\u{2028}'
    ||| c == '\u{2029}'
    ||| c == '\u{202f}'
    ||| c == '\u{205f}'
    ||| c == '\u{3000}'
}

pub open spec fn all_white(s: Seq<char>) -> bool {
    forall|i: int| 0 <= i < s.len() ==> is_white(#[trigger] s[i])
}

/// `s` without the white space in front of its text.
pub open spec fn trim_front(s: Seq<char>) -> Seq<char>
    decreases s.len(),
{
    if s.len() > 0 && is_white(s[0]) {
        trim_front(s.skip(1))
    } else {
        s
    }
}

/// `s` without the white space behind its text.
pub open spec fn trim_back(s: Seq<char>) -> Seq<char>
    decreases s.len(),
{
    if s.len() > 0 && is_white(s.last()) {
        trim_back(s.drop_last())
    } else {
        s
    }
}

/// `s` without the white space around its text.
pub open spec fn trimmed(s: Seq<char>) -> Seq<char> {
    trim_back(trim_front(s))
}

pub open spec fn ascii_upper(c: char) -> char {
    if 'a' <= c <= 'z' {
        (c as u32 - 32) as char
    } else {
        c
    }
}

pub open spec fn ascii_lower(c: char) -> char {
    if 'A' <= c <= 'Z' {
        (c as u32 + 32) as char
    } else {
        c
    }
}

/// `s` with every ASCII letter in lower case.
pub open spec fn lower_text(s: Seq<char>) -> Seq<char> {
    s.map_values(|c: char| ascii_lower(c))
}

/// `s` with every ASCII letter in upper case.
pub open spec fn upper_text(s: Seq<char>) -> Seq<char> {
    s.map_values(|c: char| ascii_upper(c))
}

/// The text of each string of a list.
pub open spec fn texts(list: Seq<String>) -> Seq<Seq<char>> {
    list.map_values(|s: String| s@)
}

/// The text of a string that may be absent.
pub open spec fn opt_text(s: Option<String>) -> Option<Seq<char>> {
    match s {
        Some(s) => Some(s@),
        None => None,
    }
}

/// The texts of a list behind one another, with `separator` between two neighbours.
pub open spec fn joined(parts: Seq<Seq<char>>, separator: Seq<char>) -> Seq<char>
    decreases parts.len(),
{
    if parts.len() == 0 {
        seq![]
    } else if parts.len() == 1 {
        parts[0]
    } else {
        joined(parts.drop_last(), separator) + separator + parts.last()
    }
}

/// `String::push` appends one character.
pub assume_specification[ String::push ](s: &mut String, c: char)
    ensures
        final(s)@ == old(s)@.push(c),
;

/// `str::to_ascii_uppercase` maps `a` to `z` onto `A` to `Z` and leaves every other
/// character alone.
pub assume_specification[ str::to_ascii_uppercase ](s: &str) -> (res: String)
    ensures
        res@ == upper_text(s@),
;

/// `str::to_ascii_lowercase` maps `A` to `Z` onto `a` to `z` and leaves every other
/// character alone.
pub assume_specification[ str::to_ascii_lowercase ](s: &str) -> (res: String)
    ensures
        res@ == lower_text(s@),
;

/// Whether two texts are the same.
pub fn same_text(a: &str, b: &str) -> (same: bool)
    ensures
        same == (a@ == b@),
{
    a.to_owned() == b.to_owned()
}

/// Whether an optional text is present and equal to `b`.
pub fn is_text(a: &Option<String>, b: &str) -> (same: bool)
    ensures
        same == (opt_text(*a) == Some(b@)),
{
    match a {
        Some(a) => same_text(a.as_str(), b),
        None => false,
    }
}

fn digit_of(d: u128) -> (c: char)
    requires
        d < 10,
    ensures
        c == digit_char(d as nat),
{
    match d {
        0 => '0',
        1 => '1',
        2 => '2',
        3 => '3',
        4 => '4',
        5 => '5',
        6 => '6',
        7 => '7',
        8 => '8',
        _ => '9',
    }
}

/// `n` in decimal.
pub fn decimal_text(n: u128) -> (s: String)
    ensures
        s@ == decimal(n as nat),
    decreases n,
{
    if n < 10 {
        let mut s = String::new();
        s.push(digit_of(n));
        assert(s@ =~= seq![digit_char(n as nat)]);
        s
    } else {
        let mut s = decimal_text(n / 10);
        s.push(digit_of(n % 10));
        s
    }
}

/// `n` in decimal, with its sign.
pub fn signed_decimal_text(n: i64) -> (s: String)
    ensures
        s@ == signed_decimal(n as int),
{
    if n < 0 {
        let magnitude: u64 = (-(n + 1)) as u64 + 1;
        let mut s = String::new();
        s.push('-');
        let digits = decimal_text(magnitude as u128);
        s.append(digits.as_str());
        assert(s@ =~= seq!['-'] + decimal((-n) as nat));
        s
    } else {
        decimal_text(n as u128)
    }
}

fn white(c: char) -> (w: bool)
    ensures
        w == is_white(c),
{
    ('\u{9}' <= c && c <= '\u{d}') || c == ' ' || c == '\u{85}' || c == '\u{a0}' || c == '\u{1680}'
        || ('\u{2000}' <= c && c <= '\u{200a}') || c == '\u{2028}' || c == '\u{2029}' || c
        == '\u{202f}' || c == '\u{205f}' || c == '\u{3000}'
}

/// The characters of a text.
pub fn chars_of(s: &str) -> (chars: Vec<char>)
    ensures
        chars@ == s@,
{
    let mut chars: Vec<char> = Vec::new();
    for c in it: s.chars()
        invariant
            chars@ == it.seq().take(it.index() as int),
            it.seq() == s@,
    {
        chars.push(c);
    }
    chars
}

proof fn trim_front_of_prefix(s: Seq<char>, from: int)
    requires
        0 <= from <= s.len(),
        forall|i: int| 0 <= i < from ==> is_white(#[trigger] s[i]),
        from < s.len() ==> !is_white(s[from]),
    ensures
        trim_front(s) == s.skip(from),
    decreases from,
{
    if from > 0 {
        let rest = s.skip(1);
        assert(is_white(s[0]));
        assert forall|i: int| 0 <= i < from - 1 implies is_white(#[trigger] rest[i]) by {
            assert(rest[i] == s[i + 1]);
        }
        trim_front_of_prefix(rest, from - 1);
        assert(rest.skip(from - 1) =~= s.skip(from));
    } else {
        assert(s.skip(0) =~= s);
    }
}

proof fn trim_back_of_suffix(s: Seq<char>, to: int)
    requires
        0 <= to <= s.len(),
        forall|i: int| to <= i < s.len() ==> is_white(#[trigger] s[i]),
        to > 0 ==> !is_white(s[to - 1]),
    ensures
        trim_back(s) == s.take(to),
    decreases s.len() - to,
{
    if to < s.len() {
        let rest = s.drop_last();
        assert(is_white(s[s.len() - 1]));
        trim_back_of_suffix(rest, to);
        assert(rest.take(to) =~= s.take(to));
    } else {
        assert(s.take(to) =~= s);
    }
}

/// The text without the white space around it.
pub fn trim(s: &str) -> (t: &str)
    ensures
        t@ == trimmed(s@),
{
    let chars = chars_of(s);
    let n: usize = chars.len();
    let mut from: usize = 0;
    while from < n && white(chars[from])
        invariant
            n == chars.len(),
            from <= n,
            forall|i: int| 0 <= i < from ==> is_white(#[trigger] chars@[i]),
        decreases n - from,
    {
        from = from + 1;
    }
    let mut to: usize = n;
    while to > from && white(chars[to - 1])
        invariant
            n == chars.len(),
            from <= to <= n,
            forall|i: int| to <= i < n ==> is_white(#[trigger] chars@[i]),
        decreases to,
    {
        to = to - 1;
    }
    proof {
        trim_front_of_prefix(s@, from as int);
        let rest = s@.skip(from as int);
        assert forall|i: int| to - from <= i < rest.len() implies is_white(#[trigger] rest[i]) by {
            assert(rest[i] == chars@[i + from]);
        }
        trim_back_of_suffix(rest, to - from);
        assert(rest.take(to - from) =~= s@.subrange(from as int, to as int));
    }
    s.substring_char(from, to)
}

/// Trimming leaves nothing exactly of the texts that are white space throughout.
pub proof fn trimmed_is_empty_iff_white(s: Seq<char>)
    ensures
        trimmed(s).len() == 0 <==> all_white(s),
{
    trim_front_drops_white(s);
    trim_back_drops_white(trim_front(s));
    if all_white(s) {
        if trim_front(s).len() > 0 {
            let k = s.len() - trim_front(s).len();
            assert(trim_front(s) == s.skip(k));
            assert(is_white(s[k]));
            assert(trim_front(s)[0] == s[k]);
        }
    } else {
        let f = trim_front(s);
        let k = s.len() - f.len();
        assert(f == s.skip(k));
        if f.len() == 0 {
            assert forall|i: int| 0 <= i < s.len() implies is_white(#[trigger] s[i]) by {}
        }
        let b = trim_back(f);
        if b.len() == 0 {
            assert(is_white(f[0]));
        }
    }
}

proof fn trim_front_drops_white(s: Seq<char>)
    ensures
        trim_front(s).len() <= s.len(),
        trim_front(s) == s.skip(s.len() - trim_front(s).len()),
        forall|i: int| 0 <= i < s.len() - trim_front(s).len() ==> is_white(#[trigger] s[i]),
        trim_front(s).len() > 0 ==> !is_white(trim_front(s)[0]),
    decreases s.len(),
{
    if s.len() > 0 && is_white(s[0]) {
        let rest = s.skip(1);
        trim_front_drops_white(rest);
        let f = trim_front(s);
        let k = s.len() - f.len();
        assert(rest.skip(k - 1) =~= s.skip(k));
        assert forall|i: int| 0 <= i < k implies is_white(#[trigger] s[i]) by {
            if i > 0 {
                assert(rest[i - 1] == s[i]);
            }
        }
    } else {
        assert(s.skip(0) =~= s);
    }
}

proof fn trim_back_drops_white(s: Seq<char>)
    ensures
        trim_back(s).len() <= s.len(),
        trim_back(s) == s.take(trim_back(s).len() as int),
        forall|i: int| trim_back(s).len() <= i < s.len() ==> is_white(#[trigger] s[i]),
    decreases s.len(),
{
    if s.len() > 0 && is_white(s.last()) {
        let rest = s.drop_last();
        trim_back_drops_white(rest);
        let b = trim_back(s);
        assert(rest.take(b.len() as int) =~= s.take(b.len() as int));
        assert forall|i: int| b.len() <= i < s.len() implies is_white(#[trigger] s[i]) by {
            if i < s.len() - 1 {
                assert(rest[i] == s[i]);
            }
        }
    } else {
        assert(s.take(s.len() as int) =~= s);
    }
}

proof fn digits_value_grows(s: Seq<char>, k: int)
    requires
        0 <= k <= s.len(),
        all_digits(s),
    ensures
        digits_value(s.take(k)) <= digits_value(s),
    decreases s.len() - k,
{
    if k < s.len() {
        assert(s.take(k + 1).drop_last() =~= s.take(k));
        assert(digits_value(s.take(k + 1)) >= digits_value(s.take(k)));
        digits_value_grows(s, k + 1);
    } else {
        assert(s.take(k) =~= s);
    }
}

/// Reads an unsigned decimal number no larger than `max`.
pub fn parse_unsigned(s: &str, max: u64) -> (n: Option<u64>)
    ensures
        n == (match unsigned_value(s@) {
            Some(v) if v <= max => Some(v as u64),
            _ => None::<u64>,
        }),
{
    let chars = chars_of(s);
    let from: usize = if chars.len() > 0 && chars[0] == '+' { 1 } else { 0 };
    let ghost digits = if from == 1 { s@.skip(1) } else { s@ };
    if chars.len() == from {
        return None;
    }
    let mut value: u64 = 0;
    let mut i: usize = from;
    while i < chars.len()
        invariant
            chars@ == s@,
            from <= 1,
            from <= i <= chars.len(),
            digits == (if from == 1 { s@.skip(1) } else { s@ }),
            digits.len() == chars.len() - from,
            digits.len() > 0,
            forall|k: int| 0 <= k < i - from ==> is_digit(#[trigger] digits[k]),
            value == digits_value(digits.take(i - from)),
            value <= max,
            unsigned_value(s@) == (if all_digits(digits) {
                Some(digits_value(digits))
            } else {
                None
            }),
        decreases chars.len() - i,
    {
        let c = chars[i];
        assert(digits[i - from] == c);
        if c < '0' || c > '9' {
            assert(!is_digit(digits[i - from]));
            return None;
        }
        let d: u64 = c as u64 - '0' as u64;
        let ghost next = digits.take(i - from + 1);
        proof {
            assert(next.drop_last() =~= digits.take(i - from));
            assert(next.last() == c);
            assert(digits_value(next) == value * 10 + d);
            if all_digits(digits) {
                digits_value_grows(digits, i - from + 1);
            }
        }
        match value.checked_mul(10) {
            None => {
                return None;
            },
            Some(tens) => match tens.checked_add(d) {
                None => {
                    return None;
                },
                Some(sum) => {
                    if sum > max {
                        return None;
                    }
                    value = sum;
                },
            },
        }
        i = i + 1;
    }
    assert(digits.take(digits.len() as int) =~= digits);
    assert(all_digits(digits));
    Some(value)
}

/// The setting an operator made: a positive decimal number no larger than `max`, with
/// white space around it ignored.
pub open spec fn positive_setting(raw: Option<Seq<char>>, max: nat) -> Option<nat> {
    match raw {
        Some(s) => match unsigned_value(trimmed(s)) {
            Some(v) if 0 < v <= max => Some(v),
            _ => None,
        },
        None => None,
    }
}

/// The setting in force: what the operator set, or `default` where they set nothing, zero
/// or something that is no number.
pub open spec fn setting(raw: Option<Seq<char>>, max: nat, default: nat) -> nat {
    match positive_setting(raw, max) {
        Some(v) => v,
        None => default,
    }
}

/// The text of an optional setting.
pub open spec fn raw_text(raw: Option<&str>) -> Option<Seq<char>> {
    match raw {
        Some(s) => Some(s@),
        None => None,
    }
}

/// Resolves one setting.
pub fn read_setting(raw: Option<&str>, max: u64, default: u64) -> (n: u64)
    ensures
        n == setting(raw_text(raw), max as nat, default as nat),
{
    match raw {
        None => default,
        Some(raw) => {
            let t = trim(raw);
            match parse_unsigned(t, max) {
                Some(n) => if n > 0 {
                    n
                } else {
                    default
                },
                None => default,
            }
        },
    }
}

/// Joins texts with a separator between neighbours.
pub fn join_texts(parts: &Vec<String>, separator: &str) -> (s: String)
    ensures
        s@ == joined(texts(parts@), separator@),
{
    let mut s = String::new();
    let mut i: usize = 0;
    while i < parts.len()
        invariant
            i <= parts.len(),
            s@ == joined(texts(parts@).take(i as int), separator@),
        decreases parts.len() - i,
    {
        let ghost all = texts(parts@);
        assert(all.take(i + 1).drop_last() =~= all.take(i as int));
        if i > 0 {
            s.append(separator);
        }
        s.append(parts[i].as_str());
        assert(all.take(i + 1).last() == parts@[i as int]@);
        if i == 0 {
            assert(s@ =~= all.take(1)[0]);
        }
        i = i + 1;
    }
    assert(texts(parts@).take(parts.len() as int) =~= texts(parts@));
    s
}

/// The length of a text's UTF-8 encoding.
pub open spec fn byte_len(s: Seq<char>) -> usize {
    vstd::utf8::encode_utf8(s).len() as usize
}

/// The length of a text's UTF-8 encoding.
pub fn byte_length(s: &str) -> (n: usize)
    ensures
        n == byte_len(s@),
{
    s.len()
}

/// A copy of an optional text.
pub fn copy_opt(s: &Option<String>) -> (c: Option<String>)
    ensures
        c == *s,
{
    match s {
        Some(s) => Some(s.clone()),
        None => None,
    }
}

/// The set of the texts of a list.
pub fn text_set(list: &Vec<String>) -> (set: StringHashSet)
    ensures
        forall|s: Seq<char>| #[trigger] set@.contains(s) <==> texts(list@).contains(s),
{
    let mut set = StringHashSet::new();
    let mut i: usize = 0;
    while i < list.len()
        invariant
            i <= list.len(),
            forall|s: Seq<char>| #[trigger]
                set@.contains(s) <==> exists|k: int| 0 <= k < i && #[trigger] texts(list@)[k] == s,
        decreases list.len() - i,
    {
        let ghost before = set@;
        set.insert(list[i].clone());
        assert forall|s: Seq<char>| #[trigger] set@.contains(s) <==> exists|k: int|
            0 <= k < i + 1 && #[trigger] texts(list@)[k] == s by {
            if set@.contains(s) && !before.contains(s) {
                assert(texts(list@)[i as int] == s);
            }
            if before.contains(s) {
                let k = choose|k: int| 0 <= k < i && #[trigger] texts(list@)[k] == s;
                assert(texts(list@)[k] == s);
            }
        }
        i = i + 1;
    }
    set
}

/// Two texts as one from which both can be read back: the length of the first, a colon, and
/// the two behind one another.
pub open spec fn paired(a: Seq<char>, b: Seq<char>) -> Seq<char> {
    decimal(a.len()) + seq![':'] + a + b
}

/// Two texts as one.
pub fn pair_text(a: &str, b: &str) -> (s: String)
    ensures
        s@ == paired(a@, b@),
{
    let mut s = decimal_text(a.unicode_len() as u128);
    s.push(':');
    s.append(a);
    s.append(b);
    assert(s@ =~= paired(a@, b@));
    s
}

proof fn decimal_is_digits(n: nat)
    ensures
        decimal(n).len() > 0,
        all_digits(decimal(n)),
    decreases n,
{
    if n >= 10 {
        decimal_is_digits(n / 10);
        assert(decimal(n).last() == digit_char(n % 10));
    }
}

proof fn decimal_injective(a: nat, b: nat)
    requires
        decimal(a) == decimal(b),
    ensures
        a == b,
    decreases a,
{
    decimal_is_digits(a / 10);
    decimal_is_digits(b / 10);
    if a < 10 && b < 10 {
        assert(decimal(a)[0] == digit_char(a));
        assert(decimal(b)[0] == digit_char(b));
    } else if a < 10 {
        assert(decimal(b).len() == decimal(b / 10).len() + 1);
        assert(decimal(a).len() == 1);
    } else if b < 10 {
        assert(decimal(a).len() == decimal(a / 10).len() + 1);
        assert(decimal(b).len() == 1);
    } else {
        assert(decimal(a).drop_last() =~= decimal(a / 10));
        assert(decimal(b).drop_last() =~= decimal(b / 10));
        assert(decimal(a).last() == digit_char(a % 10));
        assert(decimal(b).last() == digit_char(b % 10));
        assert(a % 10 == b % 10);
        decimal_injective(a / 10, b / 10);
        assert(a == (a / 10) * 10 + a % 10);
        assert(b == (b / 10) * 10 + b % 10);
    }
}

/// Two pairs of texts that are one text are one pair.
pub proof fn paired_injective(a: Seq<char>, b: Seq<char>, c: Seq<char>, d: Seq<char>)
    requires
        paired(a, b) == paired(c, d),
    ensures
        a == c,
        b == d,
{
    let p = decimal(a.len());
    let q = decimal(c.len());
    decimal_is_digits(a.len());
    decimal_is_digits(c.len());
    let s = paired(a, b);
    let t = paired(c, d);
    assert(s[p.len() as int] == ':');
    assert(t[q.len() as int] == ':');
    if p.len() < q.len() {
        assert(t[p.len() as int] == q[p.len() as int]);
        assert(is_digit(q[p.len() as int]));
    } else if q.len() < p.len() {
        assert(s[q.len() as int] == p[q.len() as int]);
        assert(is_digit(p[q.len() as int]));
    }
    assert(s.take(p.len() as int) =~= p);
    assert(t.take(q.len() as int) =~= q);
    decimal_injective(a.len(), c.len());
    let from: int = p.len() as int + 1;
    assert(s.subrange(from, from + a.len()) =~= a);
    assert(t.subrange(from, from + c.len()) =~= c);
    assert(s.skip(from + a.len()) =~= b);
    assert(t.skip(from + c.len()) =~= d);
}

/// A number that is written down is read back as itself, and is written without a leading zero.
pub proof fn a_written_number_is_read_back(n: nat)
    ensures
        unsigned_value(decimal(n)) == Some(n),
        n > 0 ==> decimal(n)[0] != '0',
        n < 10 <==> decimal(n).len() == 1,
    decreases n,
{
    decimal_is_digits(n);
    assert(is_digit(decimal(n)[0]));
    written_digits_are_worth_the_number(n);
    if n >= 10 {
        a_written_number_is_read_back(n / 10);
        decimal_is_digits(n / 10);
        assert(decimal(n)[0] == decimal(n / 10)[0]);
    }
}

proof fn written_digits_are_worth_the_number(n: nat)
    ensures
        digits_value(decimal(n)) == n,
    decreases n,
{
    if n < 10 {
        let s = decimal(n);
        assert(s.drop_last() =~= seq![]);
        assert(digits_value(s.drop_last()) == 0);
        assert(s.last() == digit_char(n));
    } else {
        written_digits_are_worth_the_number(n / 10);
        assert(decimal(n).drop_last() =~= decimal(n / 10));
        assert(decimal(n).last() == digit_char(n % 10));
    }
}

/// A negative number is a hyphen in front of what its magnitude is written as.
pub proof fn a_sign_stands_in_front(n: int)
    ensures
        n >= 0 ==> signed_decimal(n) == decimal(n as nat),
        n < 0 ==> signed_decimal(n)[0] == '-' && signed_decimal(n).skip(1) == decimal((-n) as nat),
{
    if n < 0 {
        assert(signed_decimal(n).skip(1) =~= decimal((-n) as nat));
    }
}

/// Trimming takes the white space off both ends of a text and nothing else: what is left is a
/// stretch of the text that does not begin or end in white space, and everything in front of it
/// and behind it is white space.
pub proof fn trimming_takes_white_space_off_both_ends(s: Seq<char>)
    ensures
        exists|from: int, to: int|
            0 <= from <= to <= s.len() && #[trigger] s.subrange(from, to) == trimmed(s) && (
            forall|i: int| 0 <= i < from ==> is_white(#[trigger] s[i])) && forall|i: int|
                to <= i < s.len() ==> is_white(#[trigger] s[i]),
        trimmed(s).len() > 0 ==> !is_white(trimmed(s)[0]) && !is_white(trimmed(s).last()),
{
    trim_front_drops_white(s);
    let f = trim_front(s);
    trim_back_drops_white(f);
    let b = trim_back(f);
    let from = s.len() - f.len();
    let to = from + b.len();
    assert(s.subrange(from, to) =~= b);
    assert forall|i: int| to <= i < s.len() implies is_white(#[trigger] s[i]) by {
        assert(f[i - from] == s[i]);
    }
    trimmed_ends_in_text(f);
    if b.len() > 0 {
        assert(b[0] == f[0]);
    }
}

proof fn trimmed_ends_in_text(s: Seq<char>)
    ensures
        trim_back(s).len() > 0 ==> !is_white(trim_back(s).last()),
    decreases s.len(),
{
    if s.len() > 0 && is_white(s.last()) {
        trimmed_ends_in_text(s.drop_last());
    }
}

/// An operator's setting is in force exactly if it is a positive number that is not too large,
/// however much white space stands around it; otherwise the default is.
pub proof fn a_setting_is_in_force_if_it_can_be(
    raw: Seq<char>,
    max: nat,
    default: nat,
    n: nat,
)
    ensures
        setting(None, max, default) == default,
        trimmed(raw) == decimal(n) && 0 < n && n <= max ==> setting(Some(raw), max, default) == n,
        trimmed(raw) == decimal(n) && (n == 0 || n > max) ==> setting(Some(raw), max, default)
            == default,
        unsigned_value(trimmed(raw)) is None ==> setting(Some(raw), max, default) == default,
        0 < default && default <= max ==> 0 < setting(Some(raw), max, default) && setting(
            Some(raw),
            max,
            default,
        ) <= max,
{
    a_written_number_is_read_back(n);
}

/// Joined texts stand behind one another with one separator between two neighbours and none at
/// the ends: one text more adds a separator, where there is something in front, and the text.
pub proof fn a_separator_stands_between_neighbours(
    parts: Seq<Seq<char>>,
    more: Seq<char>,
    separator: Seq<char>,
)
    ensures
        joined(seq![], separator) == Seq::<char>::empty(),
        joined(parts.push(more), separator) == (if parts.len() == 0 {
            more
        } else {
            joined(parts, separator) + separator + more
        }),
{
    assert(parts.push(more).drop_last() =~= parts);
    assert(parts.push(more).last() == more);
}

/// Changing the case of a text changes its ASCII letters and nothing else, and either way back
/// gives the same text again.
pub proof fn case_changes_only_letters(s: Seq<char>, i: int)
    requires
        0 <= i < s.len(),
    ensures
        lower_text(s).len() == s.len(),
        upper_text(s).len() == s.len(),
        !('A' <= s[i] <= 'Z') ==> lower_text(s)[i] == s[i],
        !('a' <= s[i] <= 'z') ==> upper_text(s)[i] == s[i],
        !('A' <= lower_text(s)[i] <= 'Z'),
        !('a' <= upper_text(s)[i] <= 'z'),
        lower_text(upper_text(s))[i] == lower_text(s)[i],
        upper_text(lower_text(s))[i] == upper_text(s)[i],
        s[i] == 'A' ==> lower_text(s)[i] == 'a',
        s[i] == 'a' ==> upper_text(s)[i] == 'A',
        'A' <= s[i] <= 'Z' ==> lower_text(s)[i] as int - 'a' as int == s[i] as int - 'A' as int,
{
}

} // verus!

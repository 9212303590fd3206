//! Small helpers for the decimal text that addresses, identifiers and tables use.

use vstd::prelude::*;
use vstd::string::StringExecFns;

verus! {

/// The character that stands for the decimal digit `d`.
pub open spec fn digit_char(d: int) -> char {
    if d == 0 {
        '0'
    } else if d == 1 {
        '1'
    } else if d == 2 {
        '2'
    } else if d == 3 {
        '3'
    } else if d == 4 {
        '4'
    } else if d == 5 {
        '5'
    } else if d == 6 {
        '6'
    } else if d == 7 {
        '7'
    } else if d == 8 {
        '8'
    } else {
        '9'
    }
}

/// The decimal numeral of `n`, without leading zeros.
pub open spec fn decimal(n: nat) -> Seq<char>
    decreases n,
{
    if n < 10 {
        seq![digit_char(n as int)]
    } else {
        decimal(n / 10).push(digit_char((n % 10) as int))
    }
}

/// The value of a decimal digit character, if it is one.
pub open spec fn digit_value(c: char) -> Option<int> {
    if c == '0' {
        Some(0)
    } else if c == '1' {
        Some(1)
    } else if c == '2' {
        Some(2)
    } else if c == '3' {
        Some(3)
    } else if c == '4' {
        Some(4)
    } else if c == '5' {
        Some(5)
    } else if c == '6' {
        Some(6)
    } else if c == '7' {
        Some(7)
    } else if c == '8' {
        Some(8)
    } else if c == '9' {
        Some(9)
    } else {
        None
    }
}

fn digit_str(d: u64) -> (r: &'static str)
    requires
        d < 10,
    ensures
        r@ == seq![digit_char(d as int)],
{
    proof {
        reveal_strlit("0");
        reveal_strlit("1");
        reveal_strlit("2");
        reveal_strlit("3");
        reveal_strlit("4");
        reveal_strlit("5");
        reveal_strlit("6");
        reveal_strlit("7");
        reveal_strlit("8");
        reveal_strlit("9");
    }
    let r = if d == 0 {
        "0"
    } else if d == 1 {
        "1"
    } else if d == 2 {
        "2"
    } else if d == 3 {
        "3"
    } else if d == 4 {
        "4"
    } else if d == 5 {
        "5"
    } else if d == 6 {
        "6"
    } else if d == 7 {
        "7"
    } else if d == 8 {
        "8"
    } else {
        "9"
    };
    assert(r@ =~= seq![digit_char(d as int)]);
    r
}

/// Appends the decimal numeral of `n` to `out`.
pub fn push_decimal(out: &mut String, n: u64)
    ensures
        final(out)@ == old(out)@ + decimal(n as nat),
    decreases n,
{
    if n < 10 {
        out.append(digit_str(n));
    } else {
        push_decimal(out, n / 10);
        out.append(digit_str(n % 10));
        assert(decimal(n as nat) =~= decimal((n / 10) as nat) + seq![digit_char((n % 10) as int)]);
    }
}

/// The decimal numeral of `n` as an owned string.
pub fn decimal_string(n: u64) -> (r: String)
    ensures
        r@ == decimal(n as nat),
{
    let mut out = String::new();
    push_decimal(&mut out, n);
    out
}

/// The characters of `s`, in order.
pub fn chars_of(s: &str) -> (v: Vec<char>)
    ensures
        v@ == s@,
{
    let mut v: Vec<char> = Vec::new();
    for c in it: s.chars()
        invariant
            v@ == it.seq().take(it.index() as int),
    {
        v.push(c);
    }
    v
}

fn digit_of(c: char) -> (r: Option<u8>)
    ensures
        match r {
            Some(d) => digit_value(c) == Some(d as int),
            None => digit_value(c) is None,
        },
{
    if c == '0' {
        Some(0)
    } else if c == '1' {
        Some(1)
    } else if c == '2' {
        Some(2)
    } else if c == '3' {
        Some(3)
    } else if c == '4' {
        Some(4)
    } else if c == '5' {
        Some(5)
    } else if c == '6' {
        Some(6)
    } else if c == '7' {
        Some(7)
    } else if c == '8' {
        Some(8)
    } else if c == '9' {
        Some(9)
    } else {
        None
    }
}

/// True when every character of `s` is a decimal digit.
pub open spec fn all_digits(s: Seq<char>) -> bool {
    forall|i: int| 0 <= i < s.len() ==> (#[trigger] digit_value(s[i])) is Some
}

/// The number that a run of decimal digits writes, most significant digit first.
pub open spec fn digits_value(s: Seq<char>) -> nat
    decreases s.len(),
{
    if s.len() == 0 {
        0
    } else {
        let d = digit_value(s.last());
        (digits_value(s.drop_last()) * 10 + if d is Some { d.unwrap() } else { 0 }) as nat
    }
}

/// Why a run of characters is not a number within a bound.
#[derive(Clone, Copy, Debug, PartialEq, Eq, Structural)]
pub enum NumError {
    /// No characters at all.
    Empty,
    /// A character that is not a decimal digit, after digits that stay within the bound.
    InvalidDigit,
    /// The digits in front write a number above the bound.
    TooLarge,
}

/// The number of decimal digits with which `s` begins.
pub open spec fn leading_digits(s: Seq<char>) -> nat
    decreases s.len(),
{
    if s.len() == 0 || digit_value(s[0]) is None {
        0
    } else {
        1 + leading_digits(s.drop_first())
    }
}

/// What reading `s` as a decimal number no larger than `max` gives. The characters are
/// read from the front, and the first that cannot be taken decides: a digit that brings
/// the number above `max` makes it too large, whatever follows; a character that is no
/// digit is an invalid digit.
pub open spec fn read_decimal(s: Seq<char>, max: nat) -> Result<nat, NumError> {
    if s.len() == 0 {
        Err(NumError::Empty)
    } else if digits_value(s.take(leading_digits(s) as int)) > max {
        Err(NumError::TooLarge)
    } else if leading_digits(s) < s.len() {
        Err(NumError::InvalidDigit)
    } else {
        Ok(digits_value(s))
    }
}

proof fn lemma_digits_value_monotone(s: Seq<char>, k: int)
    requires
        0 <= k <= s.len(),
    ensures
        digits_value(s.take(k)) <= digits_value(s),
    decreases s.len() - k,
{
    if k < s.len() {
        let t = s.take(k + 1);
        assert(t.drop_last() =~= s.take(k));
        lemma_digits_value_monotone(s, k + 1);
    } else {
        assert(s.take(k) =~= s);
    }
}

/// Where the first `k` characters of `s` are digits, `s` begins with at least `k` digits,
/// and with `k` exactly where the next character is none.
pub proof fn lemma_leading_digits(s: Seq<char>, k: int)
    requires
        0 <= k <= s.len(),
        forall|j: int| 0 <= j < k ==> (#[trigger] digit_value(s[j])) is Some,
    ensures
        k <= leading_digits(s) <= s.len(),
        k < s.len() && digit_value(s[k]) is None ==> leading_digits(s) == k,
    decreases s.len(),
{
    if s.len() > 0 && digit_value(s[0]) is Some {
        let t = s.drop_first();
        if k == 0 {
            lemma_leading_digits(t, 0);
        } else {
            assert forall|j: int| 0 <= j < k - 1 implies (#[trigger] digit_value(t[j])) is Some by {
                assert(t[j] == s[j + 1]);
                assert(digit_value(s[j + 1]) is Some);
            }
            if k < s.len() {
                assert(t[k - 1] == s[k]);
            }
            lemma_leading_digits(t, k - 1);
        }
    } else if s.len() > 0 {
        if k > 0 {
            assert(digit_value(s[0]) is Some);
        }
    }
}

/// A number is read exactly from text that holds digits only and writes a number within
/// the bound.
pub proof fn lemma_read_decimal_ok(s: Seq<char>, max: nat)
    ensures
        read_decimal(s, max) is Ok <==> s.len() > 0 && all_digits(s) && digits_value(s) <= max,
        read_decimal(s, max) is Ok ==> read_decimal(s, max) == Ok::<nat, NumError>(digits_value(s)),
{
    if s.len() > 0 {
        if all_digits(s) {
            lemma_leading_digits(s, s.len() as int);
            assert(s.take(s.len() as int) =~= s);
        } else {
            let i = choose|i: int| 0 <= i < s.len() && (#[trigger] digit_value(s[i])) is None;
            lemma_leading_within(s, i);
        }
        if leading_digits(s) == s.len() {
            assert(s.take(s.len() as int) =~= s);
            lemma_leading_are_digits(s);
        }
    }
}

/// The digits in front end before a character that is no digit.
proof fn lemma_leading_within(s: Seq<char>, i: int)
    requires
        0 <= i < s.len(),
        digit_value(s[i]) is None,
    ensures
        leading_digits(s) <= i,
    decreases s.len(),
{
    if i > 0 && digit_value(s[0]) is Some {
        let t = s.drop_first();
        assert(t[i - 1] == s[i]);
        lemma_leading_within(t, i - 1);
    }
}

/// The characters in front that count as digits are digits.
proof fn lemma_leading_are_digits(s: Seq<char>)
    ensures
        forall|j: int| 0 <= j < leading_digits(s) ==> (#[trigger] digit_value(s[j])) is Some,
        leading_digits(s) <= s.len(),
    decreases s.len(),
{
    if s.len() > 0 && digit_value(s[0]) is Some {
        let t = s.drop_first();
        lemma_leading_are_digits(t);
        assert forall|j: int| 0 <= j < leading_digits(s) implies (#[trigger] digit_value(s[j])) is Some by {
            if j > 0 {
                assert(t[j - 1] == s[j]);
                assert(digit_value(t[j - 1]) is Some);
            }
        }
    }
}

impl NumError {
    /// The words that describe this error.
    pub open spec fn text(self) -> Seq<char> {
        match self {
            NumError::Empty => "cannot parse integer from empty string"@,
            NumError::InvalidDigit => "invalid digit found in string"@,
            NumError::TooLarge => "number too large to fit in target type"@,
        }
    }

    /// The words that describe this error, as an owned string.
    pub fn message(&self) -> (r: String)
        ensures
            r@ == self.text(),
    {
        match self {
            NumError::Empty => "cannot parse integer from empty string".to_owned(),
            NumError::InvalidDigit => "invalid digit found in string".to_owned(),
            NumError::TooLarge => "number too large to fit in target type".to_owned(),
        }
    }
}

/// What reading `s` as an unsigned number no larger than `max` gives: decimal digits, with
/// one optional `+` in front.
pub open spec fn read_unsigned(s: Seq<char>, max: nat) -> Result<nat, NumError> {
    if s.len() == 0 {
        Err(NumError::Empty)
    } else if s[0] == '+' {
        if s.len() == 1 {
            Err(NumError::InvalidDigit)
        } else {
            read_decimal(s.subrange(1, s.len() as int), max)
        }
    } else {
        read_decimal(s, max)
    }
}

/// Reads the characters `chars[from..to]` as a decimal number no larger than `max`.
pub fn parse_decimal(chars: &Vec<char>, from: usize, to: usize, max: u64) -> (r: Result<u64, NumError>)
    requires
        from <= to <= chars.len(),
    ensures
        match r {
            Ok(n) => read_decimal(chars@.subrange(from as int, to as int), max as nat) == Ok::<nat, NumError>(n as nat),
            Err(e) => read_decimal(chars@.subrange(from as int, to as int), max as nat) == Err::<nat, NumError>(e),
        },
        r matches Ok(n) ==> n <= max,
{
    let ghost s = chars@.subrange(from as int, to as int);
    if from == to {
        return Err(NumError::Empty);
    }
    let mut acc: u64 = 0;
    let mut k: usize = from;
    assert(s.take(0) =~= Seq::<char>::empty());
    while k < to
        invariant
            from <= k <= to <= chars.len(),
            from < to,
            s == chars@.subrange(from as int, to as int),
            forall|j: int| 0 <= j < k - from ==> (#[trigger] digit_value(s[j])) is Some,
            acc == digits_value(s.take(k - from)),
            acc <= max,
        decreases to - k,
    {
        let d = digit_of(chars[k]);
        assert(s[k - from] == chars[k as int]);
        match d {
            None => {
                proof {
                    lemma_leading_digits(s, k - from);
                }
                return Err(NumError::InvalidDigit);
            },
            Some(dv8) => {
                let dv: u64 = dv8 as u64;
                proof {
                    let t = s.take(k - from + 1);
                    assert(t.drop_last() =~= s.take(k - from));
                    assert(t.last() == s[k - from]);
                    assert(digits_value(t) == acc * 10 + dv);
                    lemma_leading_digits(s, k - from + 1);
                    let lead = leading_digits(s) as int;
                    let u = s.take(lead);
                    assert(u.take(k - from + 1) =~= t);
                    lemma_digits_value_monotone(u, k - from + 1);
                }
                if dv > max || acc > (max - dv) / 10 {
                    return Err(NumError::TooLarge);
                }
                acc = acc * 10 + dv;
                k = k + 1;
            },
        }
    }
    proof {
        lemma_leading_digits(s, s.len() as int);
        assert(s.take(to - from) =~= s);
    }
    Ok(acc)
}

/// Reads all of `s` as an unsigned number no larger than `max`.
pub fn parse_unsigned(s: &str, max: u64) -> (r: Result<u64, NumError>)
    ensures
        match r {
            Ok(n) => read_unsigned(s@, max as nat) == Ok::<nat, NumError>(n as nat),
            Err(e) => read_unsigned(s@, max as nat) == Err::<nat, NumError>(e),
        },
        r matches Ok(n) ==> n <= max,
{
    let chars = chars_of(s);
    let n = chars.len();
    if n == 0 {
        return Err(NumError::Empty);
    }
    if chars[0] == '+' {
        if n == 1 {
            return Err(NumError::InvalidDigit);
        }
        parse_decimal(&chars, 1, n, max)
    } else {
        assert(chars@.subrange(0, n as int) =~= chars@);
        parse_decimal(&chars, 0, n, max)
    }
}

/// The position of the first `c` in `s`, or -1 where there is none.
pub open spec fn index_of(s: Seq<char>, c: char) -> int
    decreases s.len(),
{
    if s.len() == 0 {
        -1
    } else if s[0] == c {
        0
    } else {
        let r = index_of(s.drop_first(), c);
        if r < 0 {
            -1
        } else {
            r + 1
        }
    }
}

/// The pieces of `s` between occurrences of `sep`; a text without `sep` is one piece.
pub open spec fn split(s: Seq<char>, sep: char) -> Seq<Seq<char>>
    decreases s.len(),
{
    let i = index_of(s, sep);
    if 0 <= i < s.len() {
        seq![s.take(i)] + split(s.skip(i + 1), sep)
    } else {
        seq![s]
    }
}

/// `index_of` finds the first position, and only a position that holds `c`.
pub proof fn lemma_index_of(s: Seq<char>, c: char)
    ensures
        -1 <= index_of(s, c) < s.len(),
        index_of(s, c) >= 0 ==> s[index_of(s, c)] == c,
        forall|k: int| 0 <= k < s.len() && (index_of(s, c) < 0 || k < index_of(s, c)) ==> s[k] != c,
    decreases s.len(),
{
    if s.len() > 0 && s[0] != c {
        let t = s.drop_first();
        lemma_index_of(t, c);
        assert forall|k: int| 0 <= k < s.len() && (index_of(s, c) < 0 || k < index_of(s, c)) implies s[k]
            != c by {
            if k > 0 {
                assert(t[k - 1] == s[k]);
            }
        }
    }
}

/// Where `j` is the first position of `c` in `s`, `index_of` is `j`.
pub proof fn lemma_index_of_first(s: Seq<char>, c: char, j: int)
    requires
        0 <= j < s.len(),
        s[j] == c,
        forall|k: int| 0 <= k < j ==> s[k] != c,
    ensures
        index_of(s, c) == j,
{
    lemma_index_of(s, c);
}

/// Where `c` does not occur in `s`, `index_of` is -1.
pub proof fn lemma_index_of_none(s: Seq<char>, c: char)
    requires
        forall|k: int| 0 <= k < s.len() ==> s[k] != c,
    ensures
        index_of(s, c) == -1,
{
    lemma_index_of(s, c);
}

/// Cuts `chars` at every `sep` and returns the pieces as [`split`] gives them.
pub fn split_chars(chars: &Vec<char>, sep: char) -> (parts: Vec<Vec<char>>)
    ensures
        parts.len() == split(chars@, sep).len(),
        forall|i: int| 0 <= i < parts.len() ==> (#[trigger] parts[i])@ == split(chars@, sep)[i],
{
    let mut parts: Vec<Vec<char>> = Vec::new();
    let mut cur: Vec<char> = Vec::new();
    let ghost mut done: Seq<Seq<char>> = Seq::empty();
    let mut start: usize = 0;
    let mut i: usize = 0;
    let n = chars.len();
    proof {
        assert(chars@.skip(0) =~= chars@);
        assert(done + split(chars@, sep) =~= split(chars@, sep));
        assert(cur@ =~= chars@.subrange(0, 0));
    }
    while i < n
        invariant
            start <= i <= n == chars.len(),
            cur@ == chars@.subrange(start as int, i as int),
            forall|k: int| start <= k < i ==> chars[k] != sep,
            parts.len() == done.len(),
            forall|k: int| 0 <= k < parts.len() ==> (#[trigger] parts[k])@ == done[k],
            split(chars@, sep) == done + split(chars@.skip(start as int), sep),
        decreases n - i,
    {
        let c = chars[i];
        if c == sep {
            proof {
                let rest = chars@.skip(start as int);
                assert forall|k: int| 0 <= k < i - start implies rest[k] != sep by {
                    assert(rest[k] == chars[start + k]);
                }
                lemma_index_of_first(rest, sep, i - start);
                assert(rest.take(i - start) =~= cur@);
                assert(rest.skip(i - start + 1) =~= chars@.skip(i + 1));
                assert(done + (seq![cur@] + split(chars@.skip(i + 1), sep)) =~= done.push(cur@) + split(
                    chars@.skip(i + 1),
                    sep,
                ));
                done = done.push(cur@);
            }
            parts.push(cur);
            cur = Vec::new();
            start = i + 1;
            assert(cur@ =~= chars@.subrange(start as int, start as int));
        } else {
            cur.push(c);
            assert(cur@ =~= chars@.subrange(start as int, i + 1));
        }
        i = i + 1;
    }
    proof {
        let rest = chars@.skip(start as int);
        assert forall|k: int| 0 <= k < rest.len() implies rest[k] != sep by {
            assert(rest[k] == chars[start + k]);
        }
        lemma_index_of_none(rest, sep);
        assert(rest =~= cur@);
        assert(split(rest, sep) =~= seq![cur@]);
        assert(done + seq![cur@] =~= done.push(cur@));
    }
    parts.push(cur);
    parts
}

/// `String::push` appends the given character to the end of the string.
pub assume_specification[ String::push ](s: &mut String, c: char)
    ensures
        final(s)@ == old(s)@.push(c),
;

/// Appends the characters of `chars` to `out`.
pub fn push_chars(out: &mut String, chars: &Vec<char>)
    ensures
        final(out)@ == old(out)@ + chars@,
{
    let n = chars.len();
    let mut i: usize = 0;
    assert(out@ =~= old(out)@ + chars@.take(0));
    while i < n
        invariant
            i <= n == chars.len(),
            out@ == old(out)@ + chars@.take(i as int),
        decreases n - i,
    {
        out.push(chars[i]);
        assert(out@ =~= old(out)@ + chars@.take(i + 1));
        i = i + 1;
    }
    assert(chars@.take(n as int) =~= chars@);
}

/// The string that `chars` spell.
pub fn string_of(chars: &Vec<char>) -> (s: String)
    ensures
        s@ == chars@,
{
    let mut s = String::new();
    push_chars(&mut s, chars);
    assert(s@ =~= chars@);
    s
}

/// The position of the first `c` in `chars`, if there is one.
pub fn find_char(chars: &Vec<char>, c: char) -> (r: Option<usize>)
    ensures
        match r {
            Some(i) => index_of(chars@, c) == i && i < chars@.len(),
            None => index_of(chars@, c) == -1,
        },
{
    let n = chars.len();
    let mut i: usize = 0;
    while i < n
        invariant
            i <= n == chars.len(),
            forall|k: int| 0 <= k < i ==> chars@[k] != c,
        decreases n - i,
    {
        if chars[i] == c {
            proof {
                lemma_index_of_first(chars@, c, i as int);
            }
            return Some(i);
        }
        i = i + 1;
    }
    proof {
        lemma_index_of_none(chars@, c);
    }
    None
}

/// A copy of `chars[from..to]`.
pub fn copy_chars(chars: &Vec<char>, from: usize, to: usize) -> (r: Vec<char>)
    requires
        from <= to <= chars.len(),
    ensures
        r@ == chars@.subrange(from as int, to as int),
{
    let mut out: Vec<char> = Vec::new();
    let mut i: usize = from;
    assert(out@ =~= chars@.subrange(from as int, i as int));
    while i < to
        invariant
            from <= i <= to <= chars.len(),
            out@ == chars@.subrange(from as int, i as int),
        decreases to - i,
    {
        out.push(chars[i]);
        i = i + 1;
        assert(out@ =~= chars@.subrange(from as int, i as int));
    }
    out
}

/// True when `chars` spell `s`.
pub fn chars_eq_str(chars: &Vec<char>, s: &str) -> (r: bool)
    ensures
        r == (chars@ == s@),
{
    let other = chars_of(s);
    if chars.len() != other.len() {
        return false;
    }
    let n = chars.len();
    let mut i: usize = 0;
    while i < n
        invariant
            i <= n == chars.len(),
            n == other.len(),
            other@ == s@,
            forall|k: int| 0 <= k < i ==> chars@[k] == other@[k],
        decreases n - i,
    {
        if chars[i] != other[i] {
            return false;
        }
        i = i + 1;
    }
    assert(chars@ =~= s@);
    true
}

/// True when `a` and `b` are the same text.
pub fn str_eq(a: &str, b: &str) -> (r: bool)
    ensures
        r == (a@ == b@),
{
    let chars = chars_of(a);
    chars_eq_str(&chars, b)
}

/// The character that stands for the hexadecimal digit `d`, in upper case.
pub open spec fn hex_char(d: int) -> char {
    if d < 10 {
        digit_char(d)
    } else if d == 10 {
        'A'
    } else if d == 11 {
        'B'
    } else if d == 12 {
        'C'
    } else if d == 13 {
        'D'
    } else if d == 14 {
        'E'
    } else {
        'F'
    }
}

/// The two hexadecimal digits of the byte `b`, in upper case.
pub open spec fn hex_byte(b: u8) -> Seq<char> {
    seq![hex_char((b / 16) as int), hex_char((b % 16) as int)]
}

fn hex_digit(d: u8) -> (r: char)
    requires
        d < 16,
    ensures
        r == hex_char(d as int),
{
    if d == 0 {
        '0'
    } else if d == 1 {
        '1'
    } else if d == 2 {
        '2'
    } else if d == 3 {
        '3'
    } else if d == 4 {
        '4'
    } else if d == 5 {
        '5'
    } else if d == 6 {
        '6'
    } else if d == 7 {
        '7'
    } else if d == 8 {
        '8'
    } else if d == 9 {
        '9'
    } else if d == 10 {
        'A'
    } else if d == 11 {
        'B'
    } else if d == 12 {
        'C'
    } else if d == 13 {
        'D'
    } else if d == 14 {
        'E'
    } else {
        'F'
    }
}

/// Appends the two hexadecimal digits of `b` to `out`.
pub fn push_hex_byte(out: &mut String, b: u8)
    ensures
        final(out)@ == old(out)@ + hex_byte(b),
{
    out.push(hex_digit(b / 16));
    out.push(hex_digit(b % 16));
    assert(out@ =~= old(out)@ + hex_byte(b));
}

/// `n` times the character `c`.
pub open spec fn repeated(c: char, n: nat) -> Seq<char> {
    Seq::new(n, |i: int| c)
}

/// The text `s`, with spaces after it up to the width `width` where it is shorter.
pub open spec fn padded(s: Seq<char>, width: nat) -> Seq<char> {
    if s.len() < width {
        s + repeated(' ', (width - s.len()) as nat)
    } else {
        s
    }
}

/// Appends `n` times the character `c` to `out`.
pub fn push_repeated(out: &mut String, c: char, n: usize)
    ensures
        final(out)@ == old(out)@ + repeated(c, n as nat),
{
    let mut i: usize = 0;
    assert(out@ =~= old(out)@ + repeated(c, 0));
    while i < n
        invariant
            i <= n,
            out@ == old(out)@ + repeated(c, i as nat),
        decreases n - i,
    {
        out.push(c);
        i = i + 1;
        assert(out@ =~= old(out)@ + repeated(c, i as nat));
    }
}

/// Appends `s` to `out`, with spaces after it up to the width `width`.
pub fn push_padded(out: &mut String, s: &str, width: usize)
    ensures
        final(out)@ == old(out)@ + padded(s@, width as nat),
{
    let chars = chars_of(s);
    let n = chars.len();
    out.append(s);
    if n < width {
        push_repeated(out, ' ', width - n);
    }
    assert(out@ =~= old(out)@ + padded(s@, width as nat));
}

} // verus!

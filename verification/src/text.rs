//! Small verified operations on text: comparison, prefixes and decimal
//! numbers. Text is viewed as its sequence of characters.

use vstd::prelude::*;
use vstd::string::*;

verus! {

/// `prefix` stands at the start of `s`.
pub open spec fn is_prefix(prefix: Seq<char>, s: Seq<char>) -> bool {
    prefix.len() <= s.len() && s.subrange(0, prefix.len() as int) == prefix
}

/// Whether two pieces of text hold the same characters.
pub fn str_eq(a: &str, b: &str) -> (r: bool)
    ensures
        r == (a@ == b@),
{
    let n: usize = a.unicode_len();
    if b.unicode_len() != n {
        return false;
    }
    let mut i: usize = 0;
    while i < n
        invariant
            i <= n,
            n == a@.len(),
            n == b@.len(),
            forall|j: int| 0 <= j < i ==> a@[j] == b@[j],
        decreases n - i,
    {
        if a.get_char(i) != b.get_char(i) {
            return false;
        }
        i = i + 1;
    }
    assert(a@ =~= b@);
    true
}

/// Whether `s` begins with `prefix`.
pub fn starts_with(s: &str, prefix: &str) -> (r: bool)
    ensures
        r == is_prefix(prefix@, s@),
{
    let n: usize = prefix.unicode_len();
    if s.unicode_len() < n {
        return false;
    }
    let mut i: usize = 0;
    while i < n
        invariant
            i <= n,
            n == prefix@.len(),
            n <= s@.len(),
            forall|j: int| 0 <= j < i ==> s@[j] == prefix@[j],
        decreases n - i,
    {
        if s.get_char(i) != prefix.get_char(i) {
            assert(s@.subrange(0, n as int)[i as int] == s@[i as int]);
            return false;
        }
        i = i + 1;
    }
    assert(s@.subrange(0, n as int) =~= prefix@);
    true
}

/// The value of a decimal digit, or `None` for any other character.
pub open spec fn digit_value(c: char) -> Option<nat> {
    if '0' <= c && c <= '9' {
        Some((c as u32 - '0' as u32) as nat)
    } else {
        None
    }
}

/// Every character of `s` is a decimal digit.
pub open spec fn all_digits(s: Seq<char>) -> bool {
    forall|i: int| 0 <= i < s.len() ==> (#[trigger] digit_value(s[i])).is_some()
}

/// The number that a run of decimal digits writes, most significant first.
pub open spec fn digits_value(s: Seq<char>) -> nat
    decreases s.len(),
{
    if s.len() == 0 {
        0
    } else {
        digits_value(s.drop_last()) * 10 + digit_value(s.last()).unwrap_or(0)
    }
}

/// What is left of a number once an optional leading `+` is taken off.
pub open spec fn unsigned_digits(s: Seq<char>) -> Seq<char> {
    if s.len() > 0 && s[0] == '+' {
        s.skip(1)
    } else {
        s
    }
}

/// Reads `s` as an unsigned decimal number no greater than `max`: an
/// optional `+`, then one or more digits. `None` for anything else, and for a
/// number above `max`.
pub open spec fn parse_unsigned(s: Seq<char>, max: nat) -> Option<nat> {
    let digits = unsigned_digits(s);
    if digits.len() == 0 || !all_digits(digits) || digits_value(digits) > max {
        None
    } else {
        Some(digits_value(digits))
    }
}

/// Appending digits never makes the number smaller.
pub proof fn lemma_digits_value_grows(s: Seq<char>, k: int)
    requires
        0 <= k <= s.len(),
    ensures
        digits_value(s.take(k)) <= digits_value(s),
    decreases s.len() - k,
{
    if k == s.len() {
        assert(s.take(k) =~= s);
    } else {
        lemma_digits_value_grows(s.drop_last(), k);
        assert(s.drop_last().take(k) =~= s.take(k));
    }
}

/// What `parse_unsigned_from` reads: the number written by the characters of
/// `s` from position `from` on, if they write one no greater than `max`.
pub open spec fn parse_unsigned_at(s: Seq<char>, from: int, max: nat) -> Option<nat> {
    if 0 <= from <= s.len() {
        parse_unsigned(s.skip(from), max)
    } else {
        None
    }
}

/// Reads the characters of `s` from position `from` on as an unsigned decimal
/// number no greater than `max`. There is nothing to read beyond the end of
/// `s`.
pub fn parse_unsigned_from(s: &str, from: usize, max: u64) -> (r: Option<u64>)
    ensures
        r matches Some(v) ==> parse_unsigned_at(s@, from as int, max as nat) == Some(v as nat),
        r.is_none() ==> parse_unsigned_at(s@, from as int, max as nat).is_none(),
{
    let n: usize = s.unicode_len();
    if from > n {
        return None;
    }
    let ghost whole = s@.skip(from as int);
    let mut i: usize = from;
    if i < n && s.get_char(i) == '+' {
        i = i + 1;
    }
    let ghost digits = unsigned_digits(whole);
    let start: usize = i;
    assert(digits =~= s@.skip(start as int));
    if i == n {
        return None;
    }
    let mut acc: u64 = 0;
    while i < n
        invariant
            start <= i <= n,
            n == s@.len(),
            digits == s@.skip(start as int),
            digits == unsigned_digits(s@.skip(from as int)),
            from <= s@.len(),
            all_digits(digits.take(i - start)),
            acc == digits_value(digits.take(i - start)),
            acc <= max,
        decreases n - i,
    {
        let c: char = s.get_char(i);
        let ghost before = digits.take(i - start);
        let ghost after = digits.take(i - start + 1);
        assert(after.drop_last() =~= before);
        assert(after.last() == c);
        if c < '0' || c > '9' {
            assert(digit_value(digits[i - start]).is_none());
            return None;
        }
        let d: u64 = (c as u32 - '0' as u32) as u64;
        if d > max || acc > (max - d) / 10 {
            proof {
                assert(digits_value(after) == acc * 10 + d);
                assert(digits_value(after) > max);
                lemma_digits_value_grows(digits, i - start + 1);
            }
            return None;
        }
        acc = acc * 10 + d;
        assert forall|j: int| 0 <= j < after.len() implies (#[trigger] digit_value(
            after[j],
        )).is_some() by {
            if j < before.len() {
                assert(after[j] == before[j]);
            }
        }
        i = i + 1;
    }
    assert(digits.take(i - start) =~= digits);
    Some(acc)
}


/// The character that writes the digit `d`.
pub open spec fn digit_char(d: nat) -> char
    recommends
        d < 10,
{
    if d == 0 {
        '0'
    } else if d == 1 {
        '1'
    } else if d == 2 {
        '2'
    } else if d == 3 {
        '3'
    } else if d == 4 {
        '4'
    } else if d == 5 {
        '5'
    } else if d == 6 {
        '6'
    } else if d == 7 {
        '7'
    } else if d == 8 {
        '8'
    } else {
        '9'
    }
}

/// The decimal writing of `n`, without sign or leading zeros.
pub open spec fn decimal(n: nat) -> Seq<char>
    decreases n,
{
    if n < 10 {
        seq![digit_char(n)]
    } else {
        decimal(n / 10).push(digit_char(n % 10))
    }
}

/// Reading back what `decimal` wrote gives the number again.
pub proof fn lemma_decimal_round_trip(n: nat, max: nat)
    requires
        n <= max,
    ensures
        parse_unsigned(decimal(n), max) == Some(n),
{
    lemma_decimal_digits(n);
    assert(decimal(n)[0] != '+') by {
        assert(digit_value(decimal(n)[0]).is_some());
    }
}

/// `decimal` writes at least one character, digits only, whose value is `n`.
pub proof fn lemma_decimal_digits(n: nat)
    ensures
        decimal(n).len() >= 1,
        all_digits(decimal(n)),
        digits_value(decimal(n)) == n,
    decreases n,
{
    if n < 10 {
        let s = decimal(n);
        assert(s.drop_last() =~= Seq::<char>::empty());
        assert(digits_value(s.drop_last()) == 0);
        assert(digit_value(digit_char(n)) == Some(n));
    } else {
        lemma_decimal_digits(n / 10);
        let head = decimal(n / 10);
        let s = decimal(n);
        assert(s.drop_last() =~= head);
        assert(digit_value(digit_char(n % 10)) == Some(n % 10));
        assert forall|i: int| 0 <= i < s.len() implies (#[trigger] digit_value(s[i])).is_some() by {
            if i < head.len() {
                assert(s[i] == head[i]);
            }
        }
    }
}

/// The one-character text of a digit.
fn digit_str(d: u64) -> (r: &'static str)
    requires
        d < 10,
    ensures
        r@ == seq![digit_char(d as nat)],
{
    proof {
        reveal_strlit("0");
        reveal_strlit("1");
        reveal_strlit("2");
        reveal_strlit("3");
        reveal_strlit("4");
        reveal_strlit("5");
        reveal_strlit("6");
        reveal_strlit("7");
        reveal_strlit("8");
        reveal_strlit("9");
    }
    let r = if d == 0 {
        "0"
    } else if d == 1 {
        "1"
    } else if d == 2 {
        "2"
    } else if d == 3 {
        "3"
    } else if d == 4 {
        "4"
    } else if d == 5 {
        "5"
    } else if d == 6 {
        "6"
    } else if d == 7 {
        "7"
    } else if d == 8 {
        "8"
    } else {
        "9"
    };
    assert(r@ =~= seq![digit_char(d as nat)]);
    r
}

/// Appends the decimal writing of `n` to `out`.
pub fn push_decimal(out: &mut String, n: u64)
    ensures
        final(out)@ == old(out)@ + decimal(n as nat),
    decreases n,
{
    if n >= 10 {
        push_decimal(out, n / 10);
    }
    out.append(digit_str(n % 10));
    proof {
        if n >= 10 {
            assert(final(out)@ =~= old(out)@ + decimal(n as nat));
        } else {
            assert(final(out)@ =~= old(out)@ + decimal(n as nat));
        }
    }
}

} // verus!

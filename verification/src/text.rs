//! Text helpers: comparing, slicing and rendering the short strings that name cloud and cluster
//! resources.
use vstd::prelude::*;
use vstd::utf8::is_ascii_chars;

verus! {

/// The digits of every base up to sixteen, in order.
pub const DIGITS: &'static str = "0123456789abcdef";

/// The digit that stands for `d`.
pub open spec fn digit(d: nat) -> char {
    DIGITS@[d as int]
}

/// `n` written in `base`, most significant digit first and without leading zeros.
pub open spec fn numeral(n: nat, base: nat) -> Seq<char>
    decreases n,
{
    if base < 2 || n < base {
        seq![digit(n)]
    } else {
        proof {
            assert(n / base < n) by (nonlinear_arith)
                requires
                    2 <= base <= n,
            ;
        }
        numeral(n / base, base).push(digit(n % base))
    }
}

/// `n` in decimal.
pub open spec fn decimal(n: nat) -> Seq<char> {
    numeral(n, 10)
}

/// The part of `s` behind the last occurrence of `c`, if `c` occurs.
pub open spec fn after_last(s: Seq<char>, c: char) -> Option<Seq<char>>
    decreases s.len(),
{
    if s.len() == 0 {
        None
    } else if s.last() == c {
        Some(Seq::empty())
    } else {
        match after_last(s.drop_last(), c) {
            Some(tail) => Some(tail.push(s.last())),
            None => None,
        }
    }
}

/// `c` with an ASCII capital letter replaced by its small form.
pub open spec fn ascii_lower(c: char) -> char {
    if 'A' <= c <= 'Z' {
        ((c as u32) + 32) as char
    } else {
        c
    }
}

/// What `str::to_lowercase` makes of a string.
pub uninterp spec fn lowercase(s: Seq<char>) -> Seq<char>;

/// Calls `str::to_lowercase`. Its result depends on the string alone; for a string of ASCII
/// characters it replaces each of `A` to `Z` by its small form and keeps every other character.
#[verifier::external_body]
pub(crate) fn to_lowercase(s: &str) -> (r: String)
    ensures
        r@ == lowercase(s@),
        is_ascii_chars(s@) ==> r@ == s@.map_values(|c: char| ascii_lower(c)),
{
    s.to_lowercase()
}

/// Whether two strings hold the same characters.
pub fn str_eq(a: &str, b: &str) -> (r: bool)
    ensures
        r == (a@ == b@),
{
    a.to_owned() == b.to_owned()
}

/// Whether an optional string is present and equal to `b`.
pub fn opt_eq(a: &Option<String>, b: &str) -> (r: bool)
    ensures
        r == (a.deep_view() == Some(b@)),
{
    match a {
        Some(s) => str_eq(s.as_str(), b),
        None => false,
    }
}

/// `n` in the given base.
pub fn numeral_text(n: u64, base: u64) -> (r: String)
    requires
        2 <= base <= 16,
    ensures
        r@ == numeral(n as nat, base as nat),
    decreases n,
{
    proof {
        reveal_strlit("0123456789abcdef");
    }
    if n < base {
        let text = DIGITS.substring_char(n as usize, n as usize + 1).to_owned();
        assert(text@ =~= seq![digit(n as nat)]);
        text
    } else {
        assert(n / base < n) by (nonlinear_arith)
            requires
                2 <= base <= n,
        ;
        assert(n % base < base) by (nonlinear_arith)
            requires
                2 <= base,
        ;
        let head = numeral_text(n / base, base);
        let low = (n % base) as usize;
        let text = head.concat(DIGITS.substring_char(low, low + 1));
        assert(text@ =~= numeral((n / base) as nat, base as nat).push(digit((n % base) as nat)));
        text
    }
}

/// `n` in decimal.
pub fn decimal_text(n: u64) -> (r: String)
    ensures
        r@ == decimal(n as nat),
{
    numeral_text(n, 10)
}

/// The part of `s` behind the last occurrence of `c`, if `c` occurs.
pub fn text_after_last<'a>(s: &'a str, c: char) -> (r: Option<&'a str>)
    ensures
        r.deep_view() == after_last(s@, c),
{
    let len = s.unicode_len();
    let mut i: usize = len;
    proof {
        assert(s@.take(len as int) =~= s@);
        assert(s@.skip(len as int) =~= Seq::<char>::empty());
    }
    while i > 0
        invariant
            len == s@.len(),
            i <= len,
            after_last(s@, c) == (match after_last(s@.take(i as int), c) {
                Some(tail) => Some(tail + s@.skip(i as int)),
                None => None,
            }),
        decreases i,
    {
        let ghost before = s@.take(i as int);
        proof {
            assert(before.drop_last() =~= s@.take(i - 1));
            assert(before.last() == s@[i - 1]);
            assert(seq![s@[i - 1]] + s@.skip(i as int) =~= s@.skip(i - 1));
        }
        if s.get_char(i - 1) == c {
            proof {
                assert(Seq::<char>::empty() + s@.skip(i as int) =~= s@.skip(i as int));
            }
            let tail = s.substring_char(i, len);
            assert(tail@ =~= s@.skip(i as int));
            return Some(tail);
        }
        proof {
            if let Some(tail) = after_last(s@.take(i - 1), c) {
                assert(tail.push(s@[i - 1]) + s@.skip(i as int) =~= tail + s@.skip(i - 1));
            }
        }
        i = i - 1;
    }
    None
}

/// `after_last` is what its name says: it is absent exactly when the character does not occur,
/// and otherwise it is the text behind an occurrence that no other occurrence follows.
pub proof fn law_after_last(s: Seq<char>, c: char)
    ensures
        after_last(s, c) is None <==> !s.contains(c),
        after_last(s, c) matches Some(tail) ==> {
            &&& !tail.contains(c)
            &&& tail.len() < s.len()
            &&& s == s.take(s.len() - tail.len() - 1) + seq![c] + tail
        },
    decreases s.len(),
{
    if s.len() > 0 {
        let front = s.drop_last();
        law_after_last(front, c);
        assert(s =~= front.push(s.last()));
        if s.last() == c {
            assert(s.contains(c));
            assert(s =~= s.take(s.len() - 1) + seq![c] + Seq::<char>::empty());
        } else {
            if s.contains(c) {
                let i = choose|i: int| 0 <= i < s.len() && s[i] == c;
                assert(front[i] == c);
            }
            if front.contains(c) {
                let i = choose|i: int| 0 <= i < front.len() && front[i] == c;
                assert(s[i] == c);
            }
            if let Some(tail) = after_last(front, c) {
                let n = front.len() - tail.len() - 1;
                assert(s.take(n) =~= front.take(n));
                assert(s =~= s.take(n) + seq![c] + tail.push(s.last()));
                if tail.push(s.last()).contains(c) {
                    let i = choose|i: int|
                        0 <= i < tail.push(s.last()).len() && tail.push(s.last())[i] == c;
                    assert(tail[i] == c);
                }
            }
        }
    }
}

/// What a digit of a base up to sixteen counts.
pub open spec fn digit_value(c: char) -> int {
    if '0' <= c <= '9' {
        c as int - '0' as int
    } else {
        c as int - 'a' as int + 10
    }
}

/// What a row of digits counts, the last digit being the one for the units.
pub open spec fn digits_value(digits: Seq<char>, base: nat) -> int
    decreases digits.len(),
{
    if digits.len() == 0 {
        0
    } else {
        digits_value(digits.drop_last(), base) * base + digit_value(digits.last())
    }
}

/// A numeral consists of digits of its base, begins with a zero for zero only, and counts the number
/// that it is made from. So no two numbers have the same numeral.
pub proof fn law_numeral(n: nat, base: nat)
    requires
        2 <= base <= 16,
    ensures
        numeral(n, base).len() > 0,
        digits_value(numeral(n, base), base) == n,
        forall|i: int|
            0 <= i < numeral(n, base).len() ==> 0 <= digit_value(#[trigger] numeral(n, base)[i])
                < base && ('0' <= numeral(n, base)[i] <= '9' || 'a' <= numeral(n, base)[i] <= 'f'),
        numeral(n, base)[0] == '0' ==> n == 0,
        n == 0 ==> numeral(n, base) == "0"@,
    decreases n,
{
    reveal_strlit("0123456789abcdef");
    reveal_strlit("0");
    let text = numeral(n, base);
    if n < base {
        assert(text =~= seq![digit(n)]);
        assert(text.drop_last() =~= Seq::<char>::empty());
        assert(digits_value(text.drop_last(), base) == 0);
        assert(n == 0 ==> text =~= "0"@);
    } else {
        let high = n / base;
        let low = n % base;
        assert(0 < high < n && low < base && n == high * base + low) by (nonlinear_arith)
            requires
                2 <= base <= n,
                high == n / base,
                low == n % base,
        ;
        law_numeral(high, base);
        let head = numeral(high, base);
        assert(text == head.push(digit(low)));
        assert(text.drop_last() =~= head);
        assert(text.last() == digit(low));
        assert(forall|i: int| 0 <= i < head.len() ==> text[i] == head[i]);
    }
}

/// Numbers with the same numeral are the same.
pub proof fn law_numerals_differ(m: nat, n: nat, base: nat)
    requires
        2 <= base <= 16,
        numeral(m, base) == numeral(n, base),
    ensures
        m == n,
{
    law_numeral(m, base);
    law_numeral(n, base);
}

} // verus!

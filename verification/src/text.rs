//! Character-level helpers shared by the parsers and printers of this crate.

use vstd::prelude::*;
use vstd::string::*;

verus! {

/// Whether two string slices hold the same characters.
pub fn str_eq(a: &str, b: &str) -> (r: bool)
    ensures
        r == (a@ == b@),
{
    let x = a.to_owned();
    let y = b.to_owned();
    x == y
}

/// The characters of a string slice, in order.
pub fn chars_of(s: &str) -> (v: Vec<char>)
    ensures
        v@ == s@,
{
    let mut v: Vec<char> = Vec::new();
    for c in it: s.chars()
        invariant
            it.seq() == s@,
            v@ == s@.take(it.index() as int),
    {
        v.push(c);
    }
    v
}


/// Whether `c` is one of the ten decimal digits.
pub open spec fn is_digit(c: char) -> bool {
    48 <= c as u32 <= 57
}

/// The value of a decimal digit.
pub open spec fn digit_value(c: char) -> nat {
    (c as u32 - 48) as nat
}

/// The character that writes the digit `d`.
pub open spec fn digit_char(d: nat) -> char {
    ((d + 48) as u32) as char
}

/// Whether every character of `s` is a decimal digit.
pub open spec fn all_digits(s: Seq<char>) -> bool {
    forall|i: int| 0 <= i < s.len() ==> is_digit(#[trigger] s[i])
}

/// The number that a sequence of digits writes in base ten.
pub open spec fn number_of(s: Seq<char>) -> nat
    decreases s.len(),
{
    if s.len() == 0 {
        0
    } else {
        number_of(s.drop_last()) * 10 + digit_value(s.last())
    }
}

/// The shortest way to write `n` in base ten.
pub open spec fn decimal(n: nat) -> Seq<char>
    decreases n,
{
    if n < 10 {
        seq![digit_char(n)]
    } else {
        decimal(n / 10).push(digit_char(n % 10))
    }
}

/// The character of a digit is a digit, and has the value of the digit.
pub proof fn lemma_digit_char(d: nat)
    requires
        d < 10,
    ensures
        is_digit(digit_char(d)),
        digit_value(digit_char(d)) == d,
        digit_char(d) as u32 == d + 48,
{
}

/// Writing a number and reading it back gives the number; what is written
/// is never empty and holds digits only.
pub proof fn lemma_decimal(n: nat)
    ensures
        decimal(n).len() > 0,
        all_digits(decimal(n)),
        number_of(decimal(n)) == n,
    decreases n,
{
    if n < 10 {
        lemma_digit_char(n);
        let s = decimal(n);
        assert(s.drop_last() =~= Seq::<char>::empty());
        assert(number_of(s.drop_last()) == 0);
    } else {
        lemma_decimal(n / 10);
        lemma_digit_char(n % 10);
        let s = decimal(n);
        assert(s.drop_last() =~= decimal(n / 10));
    }
}

/// Whether `s` writes a number that fits in 64 bits.
pub open spec fn is_number(s: Seq<char>) -> bool {
    s.len() > 0 && all_digits(s) && number_of(s) <= u64::MAX
}

/// A number never gets smaller when more digits follow.
pub proof fn lemma_number_of_prefix(s: Seq<char>, k: int)
    requires
        0 <= k <= s.len(),
    ensures
        number_of(s.take(k)) <= number_of(s),
    decreases s.len() - k,
{
    if k == s.len() {
        assert(s.take(k) =~= s);
    } else {
        lemma_number_of_prefix(s.drop_last(), k);
        assert(s.drop_last().take(k) =~= s.take(k));
    }
}

/// Reads the characters of `chars` from `from` up to `to` as one number.
pub fn parse_number(chars: &Vec<char>, from: usize, to: usize) -> (r: Option<u64>)
    requires
        from <= to <= chars.len(),
    ensures
        r == (if is_number(chars@.subrange(from as int, to as int)) {
            Some(number_of(chars@.subrange(from as int, to as int)) as u64)
        } else {
            None
        }),
{
    let ghost s = chars@.subrange(from as int, to as int);
    if from == to {
        return None;
    }
    let mut acc: u64 = 0;
    let mut i: usize = from;
    while i < to
        invariant
            from <= i <= to <= chars.len(),
            s == chars@.subrange(from as int, to as int),
            all_digits(s.take(i - from)),
            acc == number_of(s.take(i - from)),
        decreases to - i,
    {
        let c: char = chars[i];
        let code: u32 = c as u32;
        assert(s[i - from] == c);
        if code < 48 || code > 57 {
            return None;
        }
        let d: u64 = (code - 48) as u64;
        proof {
            let next = s.take(i - from + 1);
            assert(next.drop_last() =~= s.take(i - from));
            assert(next.last() == c);
            assert(number_of(next) == acc * 10 + d);
            lemma_number_of_prefix(s, i - from + 1);
            assert forall|j: int| 0 <= j < next.len() implies is_digit(#[trigger] next[j]) by {
                if j < i - from {
                    assert(next[j] == s.take(i - from)[j]);
                }
            }
        }
        if acc > (u64::MAX - d) / 10 {
            return None;
        }
        acc = acc * 10 + d;
        i = i + 1;
    }
    proof {
        assert(s.take(to - from) =~= s);
    }
    Some(acc)
}

/// The one-character string that writes the digit `d`.
fn digit_str(d: u64) -> (s: &'static str)
    requires
        d < 10,
    ensures
        s@ == seq![digit_char(d as nat)],
{
    proof {
        reveal_strlit("0");
        reveal_strlit("1");
        reveal_strlit("2");
        reveal_strlit("3");
        reveal_strlit("4");
        reveal_strlit("5");
        reveal_strlit("6");
        reveal_strlit("7");
        reveal_strlit("8");
        reveal_strlit("9");
    }
    let s = if d == 0 {
        "0"
    } else if d == 1 {
        "1"
    } else if d == 2 {
        "2"
    } else if d == 3 {
        "3"
    } else if d == 4 {
        "4"
    } else if d == 5 {
        "5"
    } else if d == 6 {
        "6"
    } else if d == 7 {
        "7"
    } else if d == 8 {
        "8"
    } else {
        "9"
    };
    assert(s@ =~= seq![digit_char(d as nat)]);
    s
}

/// Appends `n`, written in base ten, to `out`.
pub fn push_decimal(out: &mut String, n: u64)
    ensures
        final(out)@ == old(out)@ + decimal(n as nat),
    decreases n,
{
    if n >= 10 {
        push_decimal(out, n / 10);
    }
    let ghost before = out@;
    out.append(digit_str(n % 10));
    proof {
        if n >= 10 {
            assert(out@ =~= old(out)@ + decimal((n / 10) as nat).push(digit_char((n % 10) as nat)));
        } else {
            assert(out@ =~= old(out)@ + seq![digit_char(n as nat)]);
        }
    }
}

/// The place of the first `c` in `s` at or after `from`, or the length of
/// `s` where there is none.
pub open spec fn first_index_from(s: Seq<char>, c: char, from: int) -> int
    decreases s.len() - from,
{
    if from >= s.len() {
        s.len() as int
    } else if s[from] == c {
        from
    } else {
        first_index_from(s, c, from + 1)
    }
}

/// Finds the first `c` in `chars` at or after `from` and before `to`.
pub fn find_char(chars: &Vec<char>, c: char, from: usize, to: usize) -> (r: usize)
    requires
        from <= to <= chars.len(),
    ensures
        r == first_index_from(chars@.take(to as int), c, from as int),
        from <= r <= to,
{
    let ghost s = chars@.take(to as int);
    let mut i: usize = from;
    while i < to
        invariant
            from <= i <= to <= chars.len(),
            s == chars@.take(to as int),
            first_index_from(s, c, from as int) == first_index_from(s, c, i as int),
        decreases to - i,
    {
        if chars[i] == c {
            return i;
        }
        i = i + 1;
    }
    i
}

/// The first `c` at or after `from` stands at `i` when none stands between
/// the two and `i` holds a `c` or is the end.
pub proof fn lemma_first_index_is(s: Seq<char>, c: char, from: int, i: int)
    requires
        0 <= from <= i <= s.len(),
        forall|j: int| from <= j < i ==> s[j] != c,
        i < s.len() ==> s[i] == c,
    ensures
        first_index_from(s, c, from) == i,
    decreases i - from,
{
    if from < i {
        lemma_first_index_is(s, c, from + 1, i);
    }
}

/// Searching what is left after `k` characters finds the same place as
/// searching the whole from `k` on.
pub proof fn lemma_first_index_skip(s: Seq<char>, c: char, k: int, from: int)
    requires
        0 <= k <= s.len(),
        0 <= from <= s.len() - k,
    ensures
        first_index_from(s.skip(k), c, from) + k == first_index_from(s, c, from + k),
    decreases s.len() - k - from,
{
    if from < s.len() - k {
        assert(s.skip(k)[from] == s[from + k]);
        if s[from + k] != c {
            lemma_first_index_skip(s, c, k, from + 1);
        }
    }
}

/// Whether `s` holds no `_`.
pub open spec fn plain(s: Seq<char>) -> bool {
    forall|i: int| 0 <= i < s.len() ==> s[i] != '_'
}

/// Whether the characters of `chars` from `from` on hold no `_`.
pub fn is_plain_from(chars: &Vec<char>, from: usize) -> (r: bool)
    requires
        from <= chars.len(),
    ensures
        r == plain(chars@.skip(from as int)),
{
    let ghost s = chars@.skip(from as int);
    let mut i: usize = from;
    while i < chars.len()
        invariant
            from <= i <= chars.len(),
            s == chars@.skip(from as int),
            forall|j: int| 0 <= j < i - from ==> s[j] != '_',
        decreases chars.len() - i,
    {
        if chars[i] == '_' {
            assert(s[i - from] == '_');
            return false;
        }
        i = i + 1;
    }
    true
}

/// The text of an optional string.
pub open spec fn text_of(s: Option<String>) -> Option<Seq<char>> {
    match s {
        Some(t) => Some(t@),
        None => None,
    }
}

} // verus!

//! Character-sequence utilities shared by the parsing and formatting code:
//! scanning for a character, splitting text into lines, decimal digits for
//! unsigned numbers, and parsing decimal port numbers.

use vstd::prelude::*;

verus! {

use vstd::string::*;

/// The views of a sequence of strings.
pub open spec fn strs_view(v: Seq<String>) -> Seq<Seq<char>> {
    v.map_values(|x: String| x@)
}

/// The views of a sequence of string pairs.
pub open spec fn pairs_view(v: Seq<(String, String)>) -> Seq<(Seq<char>, Seq<char>)> {
    v.map_values(|p: (String, String)| (p.0@, p.1@))
}

/// True of the ten ASCII digit characters.
pub open spec fn is_digit_char(c: char) -> bool {
    48 <= c as int <= 57
}

/// The digit character for a value below ten.
pub open spec fn spec_digit_char(d: nat) -> char {
    if d == 0 {
        '0'
    } else if d == 1 {
        '1'
    } else if d == 2 {
        '2'
    } else if d == 3 {
        '3'
    } else if d == 4 {
        '4'
    } else if d == 5 {
        '5'
    } else if d == 6 {
        '6'
    } else if d == 7 {
        '7'
    } else if d == 8 {
        '8'
    } else {
        '9'
    }
}

/// The decimal digit sequence of `n`, most significant first, with no sign
/// and no leading zero (except for `n == 0` itself).
pub open spec fn spec_dec_digits(n: nat) -> Seq<char>
    decreases n,
{
    if n < 10 {
        seq![spec_digit_char(n)]
    } else {
        spec_dec_digits(n / 10) + seq![spec_digit_char(n % 10)]
    }
}

/// The value of a digit sequence read in base ten.
pub open spec fn spec_digits_val(s: Seq<char>) -> nat
    decreases s.len(),
{
    if s.len() == 0 {
        0
    } else {
        spec_digits_val(s.drop_last()) * 10 + (if s.last() as int >= 48 {
            (s.last() as int - 48) as nat
        } else {
            0
        })
    }
}

/// The index of the first occurrence of `c` in `s`, or `s.len()` if there
/// is none.
pub open spec fn find_char(s: Seq<char>, c: char) -> int
    decreases s.len(),
{
    if s.len() == 0 {
        0
    } else if s[0] == c {
        0
    } else {
        1 + find_char(s.skip(1), c)
    }
}

/// How often `c` occurs in `s`.
pub open spec fn count_char(s: Seq<char>, c: char) -> nat
    decreases s.len(),
{
    if s.len() == 0 {
        0
    } else {
        count_char(s.drop_last(), c) + (if s.last() == c {
            1nat
        } else {
            0nat
        })
    }
}

/// `s` split at every newline character: the pieces in order, without the
/// newlines. Text without a newline is one piece; each newline ends a piece,
/// so text ending in a newline has a final empty piece.
pub open spec fn spec_split_lines(s: Seq<char>) -> Seq<Seq<char>>
    decreases s.len(),
{
    let i = find_char(s, '\n');
    if i == s.len() {
        seq![s]
    } else if 0 <= i < s.len() {
        seq![s.take(i)] + spec_split_lines(s.skip(i + 1))
    } else {
        seq![s]
    }
}

/// An index before which `c` never occurs, and which holds `c` or is the
/// end, is exactly `find_char`.
pub proof fn lemma_find_char_is(s: Seq<char>, c: char, j: int)
    requires
        0 <= j <= s.len(),
        forall|k: int| 0 <= k < j ==> s[k] != c,
        j < s.len() ==> s[j] == c,
    ensures
        find_char(s, c) == j,
    decreases j,
{
    if j == 0 {
    } else {
        assert(s[0] != c);
        assert forall|k: int| 0 <= k < j - 1 implies s.skip(1)[k] != c by {
            assert(s[k + 1] != c);
        }
        assert(j - 1 < s.skip(1).len() ==> s.skip(1)[j - 1] == c);
        lemma_find_char_is(s.skip(1), c, j - 1);
    }
}

/// Splitting text that starts with a newline-free piece yields that piece
/// and then the split of the rest.
pub proof fn lemma_split_lines_concat(a: Seq<char>, rest: Seq<char>)
    requires
        forall|k: int| 0 <= k < a.len() ==> a[k] != '\n',
    ensures
        spec_split_lines(a + seq!['\n'] + rest) == seq![a] + spec_split_lines(rest),
{
    let s = a + seq!['\n'] + rest;
    assert forall|k: int| 0 <= k < a.len() implies s[k] != '\n' by {
        assert(s[k] == a[k]);
    }
    assert(s[a.len() as int] == '\n');
    lemma_find_char_is(s, '\n', a.len() as int);
    assert(s.take(a.len() as int) =~= a);
    assert(s.skip(a.len() as int + 1) =~= rest);
}

/// The value of a digit prefix never exceeds the value of the whole
/// sequence.
pub proof fn lemma_digits_val_take_le(s: Seq<char>, k: int)
    requires
        0 <= k <= s.len(),
    ensures
        spec_digits_val(s.take(k)) <= spec_digits_val(s),
    decreases s.len() - k,
{
    if k == s.len() {
        assert(s.take(k) =~= s);
    } else {
        lemma_digits_val_take_le(s, k + 1);
        assert(s.take(k + 1).drop_last() =~= s.take(k));
        assert(spec_digits_val(s.take(k + 1)) >= spec_digits_val(s.take(k)));
    }
}

/// The digit part of a number text: the text with one leading plus sign
/// removed, if there is one.
pub open spec fn digits_part(s: Seq<char>) -> Seq<char> {
    if s.len() > 0 && s[0] == '+' {
        s.skip(1)
    } else {
        s
    }
}

/// What a port or form field value parses to as a decimal 16-bit number:
/// an optional leading plus sign, then at least one digit, the whole value
/// at most 65535; anything else does not parse.
pub open spec fn spec_parse_u16(s: Seq<char>) -> Option<u16> {
    if digits_part(s).len() > 0 && (forall|k: int|
        0 <= k < digits_part(s).len() ==> is_digit_char(digits_part(s)[k])) && spec_digits_val(
        digits_part(s),
    ) <= 65535 {
        Some(spec_digits_val(digits_part(s)) as u16)
    } else {
        None
    }
}

/// Parses a decimal 16-bit number as [`spec_parse_u16`] says.
pub fn parse_u16(s: &str) -> (r: Option<u16>)
    ensures
        r == spec_parse_u16(s@),
{
    let n = s.unicode_len();
    let mut i: usize = 0;
    if n > 0 && s.get_char(0) == '+' {
        i = 1;
    }
    let ghost ds = digits_part(s@);
    proof {
        assert(ds =~= s@.skip(i as int));
    }
    if i >= n {
        return None;
    }
    let mut val: u32 = 0;
    let mut j: usize = i;
    while j < n
        invariant
            i <= j <= n,
            n == s@.len(),
            i <= 1,
            i < n,
            ds == s@.skip(i as int),
            ds == digits_part(s@),
            val <= 65535,
            val as nat == spec_digits_val(ds.take(j - i)),
            forall|k: int| 0 <= k < j - i ==> is_digit_char(ds[k]),
        decreases n - j,
    {
        let c = s.get_char(j);
        let v = c as u32;
        proof {
            assert(ds[j - i] == s@[j as int]);
        }
        if v < 48 || v > 57 {
            proof {
                assert(!is_digit_char(digits_part(s@)[j - i]));
            }
            return None;
        }
        proof {
            assert(is_digit_char(ds[j - i]));
            assert(ds.take(j - i + 1).drop_last() =~= ds.take(j - i));
            assert(ds.take(j - i + 1).last() == ds[j - i]);
            assert(spec_digits_val(ds.take(j - i + 1)) == spec_digits_val(ds.take(j - i)) * 10
                + (ds[j - i] as int - 48));
        }
        let newval = val * 10 + (v - 48);
        proof {
            assert(newval as nat == spec_digits_val(ds.take(j - i + 1)));
        }
        if newval > 65535 {
            proof {
                lemma_digits_val_take_le(ds, j - i + 1);
                assert(spec_digits_val(ds) > 65535);
            }
            return None;
        }
        val = newval;
        j += 1;
    }
    proof {
        assert(ds.take(n - i) =~= ds);
    }
    Some(val as u16)
}

/// The digit character of a value below ten, as a one-character string.
fn digit_str(d: u64) -> (r: &'static str)
    requires
        d < 10,
    ensures
        r@ == seq![spec_digit_char(d as nat)],
{
    proof {
        reveal_strlit("0");
        reveal_strlit("1");
        reveal_strlit("2");
        reveal_strlit("3");
        reveal_strlit("4");
        reveal_strlit("5");
        reveal_strlit("6");
        reveal_strlit("7");
        reveal_strlit("8");
        reveal_strlit("9");
    }
    let r = if d == 0 {
        "0"
    } else if d == 1 {
        "1"
    } else if d == 2 {
        "2"
    } else if d == 3 {
        "3"
    } else if d == 4 {
        "4"
    } else if d == 5 {
        "5"
    } else if d == 6 {
        "6"
    } else if d == 7 {
        "7"
    } else if d == 8 {
        "8"
    } else {
        "9"
    };
    proof {
        assert(r@ =~= seq![spec_digit_char(d as nat)]);
    }
    r
}

/// Writes `n` in decimal, as [`spec_dec_digits`] says.
pub fn u64_to_decimal(n: u64) -> (r: String)
    ensures
        r@ == spec_dec_digits(n as nat),
    decreases n,
{
    if n < 10 {
        digit_str(n).to_owned()
    } else {
        let mut s = u64_to_decimal(n / 10);
        s.append(digit_str(n % 10));
        s
    }
}

/// Every decimal digit sequence is nonempty and made of digits only.
pub proof fn lemma_dec_digits_shape(n: nat)
    ensures
        spec_dec_digits(n).len() >= 1,
        forall|k: int| 0 <= k < spec_dec_digits(n).len() ==> is_digit_char(spec_dec_digits(n)[k]),
    decreases n,
{
    if n < 10 {
    } else {
        lemma_dec_digits_shape(n / 10);
    }
}

/// Reading the decimal digits of `n` back yields `n`.
pub proof fn lemma_dec_digits_val(n: nat)
    ensures
        spec_digits_val(spec_dec_digits(n)) == n,
    decreases n,
{
    if n < 10 {
        assert(spec_digit_char(n) as int == 48 + n);
        assert(spec_digits_val(Seq::<char>::empty()) == 0);
        assert(seq![spec_digit_char(n)].drop_last() =~= Seq::<char>::empty());
        assert(spec_digits_val(seq![spec_digit_char(n)]) == n);
    } else {
        lemma_dec_digits_val(n / 10);
        let d = spec_dec_digits(n);
        assert(spec_digit_char(n % 10) as int == 48 + n % 10);
        assert(d.drop_last() =~= spec_dec_digits(n / 10));
        assert(d.last() == spec_digit_char(n % 10));
        assert(spec_digits_val(d) == (n / 10) * 10 + n % 10);
        assert((n / 10) * 10 + n % 10 == n) by (nonlinear_arith);
    }
}

/// True when the two strings hold the same characters.
pub fn str_eq(a: &str, b: &str) -> (r: bool)
    ensures
        r == (a@ == b@),
{
    let na = a.unicode_len();
    let nb = b.unicode_len();
    if na != nb {
        return false;
    }
    let mut j: usize = 0;
    while j < na
        invariant
            j <= na,
            na == a@.len(),
            na == b@.len(),
            forall|k: int| 0 <= k < j ==> a@[k] == b@[k],
        decreases na - j,
    {
        if a.get_char(j) != b.get_char(j) {
            return false;
        }
        j += 1;
    }
    proof {
        assert(a@ =~= b@);
    }
    true
}

/// True when `p` is a prefix of `s`.
pub fn str_starts_with(s: &str, p: &str) -> (r: bool)
    ensures
        r == p@.is_prefix_of(s@),
{
    let np = p.unicode_len();
    let ns = s.unicode_len();
    if np > ns {
        return false;
    }
    let mut j: usize = 0;
    while j < np
        invariant
            j <= np,
            np == p@.len(),
            ns == s@.len(),
            np <= ns,
            forall|k: int| 0 <= k < j ==> p@[k] == s@[k],
        decreases np - j,
    {
        if p.get_char(j) != s.get_char(j) {
            proof {
                assert(s@.subrange(0, p@.len() as int)[j as int] == s@[j as int]);
            }
            return false;
        }
        j += 1;
    }
    proof {
        assert(p@ =~= s@.subrange(0, p@.len() as int));
    }
    true
}

/// The position of the first newline at or after `start`, or the length if
/// there is none.
fn find_newline(s: &str, start: usize, n: usize) -> (j: usize)
    requires
        start <= n,
        n == s@.len(),
    ensures
        start <= j <= n,
        forall|k: int| start <= k < j ==> s@[k] != '\n',
        j < n ==> s@[j as int] == '\n',
{
    let mut j: usize = start;
    loop
        invariant
            start <= j <= n,
            n == s@.len(),
            forall|k: int| start <= k < j ==> s@[k] != '\n',
        decreases n - j,
    {
        if j == n {
            return j;
        }
        if s.get_char(j) == '\n' {
            return j;
        }
        j += 1;
    }
}

/// Splits text at newline characters, as [`spec_split_lines`] says.
pub fn split_lines(s: &str) -> (r: Vec<String>)
    ensures
        strs_view(r@) == spec_split_lines(s@),
{
    let n = s.unicode_len();
    let mut out: Vec<String> = Vec::new();
    let mut start: usize = 0;
    proof {
        assert(s@.skip(0) =~= s@);
        assert(strs_view(out@) =~= Seq::<Seq<char>>::empty());
        assert(Seq::<Seq<char>>::empty() + spec_split_lines(s@) =~= spec_split_lines(s@));
    }
    loop
        invariant
            start <= n,
            n == s@.len(),
            spec_split_lines(s@) == strs_view(out@) + spec_split_lines(s@.skip(start as int)),
        decreases n - start,
    {
        let ghost suffix = s@.skip(start as int);
        let j = find_newline(s, start, n);
        proof {
            assert forall|k: int| 0 <= k < j - start implies suffix[k] != '\n' by {
                assert(s@[k + start] != '\n');
            }
            if j < n {
                assert(suffix[j - start] == s@[j as int]);
            }
            lemma_find_char_is(suffix, '\n', j - start);
        }
        let piece = s.substring_char(start, j).to_owned();
        proof {
            assert(piece@ =~= suffix.take(j - start));
        }
        if j >= n {
            proof {
                assert(suffix.take(j - start) =~= suffix);
                assert(spec_split_lines(suffix) == seq![suffix]);
                assert(strs_view(out@.push(piece)) =~= strs_view(out@) + seq![suffix]);
            }
            out.push(piece);
            return out;
        }
        proof {
            assert(spec_split_lines(suffix) == seq![suffix.take(j - start)] + spec_split_lines(
                suffix.skip(j - start + 1),
            ));
            assert(suffix.skip(j - start + 1) =~= s@.skip(j + 1));
            assert(strs_view(out@.push(piece)) =~= strs_view(out@) + seq![piece@]);
        }
        out.push(piece);
        start = j + 1;
    }
}

/// A value at most 65535 written in decimal parses back to itself.
pub proof fn lemma_parse_of_dec(n: nat)
    requires
        n <= 65535,
    ensures
        spec_parse_u16(spec_dec_digits(n)) == Some(n as u16),
{
    let d = spec_dec_digits(n);
    lemma_dec_digits_shape(n);
    lemma_dec_digits_val(n);
    assert(is_digit_char(d[0]));
    assert(d[0] != '+');
}

} // verus!

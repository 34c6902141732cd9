//! Decimal frame strings: the zero-padded digit text that encodes a frame
//! number inside a filename, with its formatting and parsing functions.

use vstd::prelude::*;
use vstd::string::StrSliceExecFns;
use vstd::string::StringExecFns;

verus! {

/// The character for one decimal digit value.
pub open spec fn digit_char(d: nat) -> char {
    if d == 0 {
        '0'
    } else if d == 1 {
        '1'
    } else if d == 2 {
        '2'
    } else if d == 3 {
        '3'
    } else if d == 4 {
        '4'
    } else if d == 5 {
        '5'
    } else if d == 6 {
        '6'
    } else if d == 7 {
        '7'
    } else if d == 8 {
        '8'
    } else {
        '9'
    }
}

/// Whether a character is a decimal digit.
pub open spec fn is_digit(c: char) -> bool {
    c == '0' || c == '1' || c == '2' || c == '3' || c == '4' || c == '5' || c == '6' || c == '7'
        || c == '8' || c == '9'
}

/// The value of a decimal digit character.
pub open spec fn digit_val(c: char) -> nat {
    if c == '0' {
        0
    } else if c == '1' {
        1
    } else if c == '2' {
        2
    } else if c == '3' {
        3
    } else if c == '4' {
        4
    } else if c == '5' {
        5
    } else if c == '6' {
        6
    } else if c == '7' {
        7
    } else if c == '8' {
        8
    } else {
        9
    }
}

/// The decimal digits of `n`, most significant first, with no leading zeros
/// (a lone `0` for zero itself).
pub open spec fn dec_seq(n: nat) -> Seq<char>
    decreases n,
{
    if n < 10 {
        seq![digit_char(n)]
    } else {
        dec_seq(n / 10) + seq![digit_char(n % 10)]
    }
}

/// `k` zero characters.
pub open spec fn zero_chars(k: nat) -> Seq<char> {
    Seq::new(k, |i: int| '0')
}

/// `n` rendered in decimal and left-padded with zeros to a minimum width `w`.
pub open spec fn pad_dec(n: nat, w: nat) -> Seq<char> {
    if dec_seq(n).len() >= w {
        dec_seq(n)
    } else {
        zero_chars((w - dec_seq(n).len()) as nat) + dec_seq(n)
    }
}

/// The numeric value of a digit string.
pub open spec fn parse_dec(s: Seq<char>) -> nat
    decreases s.len(),
{
    if s.len() == 0 {
        0
    } else {
        parse_dec(s.drop_last()) * 10 + digit_val(s.last())
    }
}

/// Whether every character of `s` is a decimal digit.
pub open spec fn all_digits(s: Seq<char>) -> bool {
    forall|i: int| 0 <= i < s.len() ==> is_digit(s[i])
}

/// A well-formed frame string: non-empty, all digits, and with a value that
/// fits in a `u32` frame number.
pub open spec fn frame_string_ok(s: Seq<char>) -> bool {
    s.len() > 0 && all_digits(s) && parse_dec(s) <= u32::MAX
}

/// The digit character of a value below ten reads back as that value.
pub proof fn lemma_digit_roundtrip(d: nat)
    requires
        d < 10,
    ensures
        digit_val(digit_char(d)) == d,
        is_digit(digit_char(d)),
{
}

/// The digits of any number form a well-formed digit run: non-empty and
/// made of digit characters only.
pub proof fn lemma_dec_seq_digits(n: nat)
    ensures
        dec_seq(n).len() >= 1,
        all_digits(dec_seq(n)),
    decreases n,
{
    if n >= 10 {
        lemma_dec_seq_digits(n / 10);
    }
}

/// Reading back the digits of `n` yields `n`.
pub proof fn lemma_parse_dec_seq(n: nat)
    ensures
        parse_dec(dec_seq(n)) == n,
    decreases n,
{
    if n < 10 {
        lemma_digit_roundtrip(n);
        assert(dec_seq(n) == seq![digit_char(n)]);
        assert(dec_seq(n).len() == 1);
        assert(dec_seq(n).drop_last() =~= Seq::<char>::empty());
        assert(dec_seq(n).last() == digit_char(n));
        assert(parse_dec(Seq::<char>::empty()) == 0);
        assert(parse_dec(dec_seq(n)) == parse_dec(dec_seq(n).drop_last()) * 10 + digit_val(
            dec_seq(n).last(),
        ));
    } else {
        lemma_parse_dec_seq(n / 10);
        lemma_digit_roundtrip(n % 10);
        assert(dec_seq(n) == dec_seq(n / 10) + seq![digit_char(n % 10)]);
        assert(dec_seq(n).len() > 0);
        assert(dec_seq(n).drop_last() =~= dec_seq(n / 10));
        assert(dec_seq(n).last() == digit_char(n % 10));
        assert(parse_dec(dec_seq(n)) == parse_dec(dec_seq(n).drop_last()) * 10 + digit_val(
            dec_seq(n).last(),
        ));
        assert(parse_dec(dec_seq(n)) == (n / 10) * 10 + (n % 10));
    }
}

/// A run of zero characters parses to zero.
pub proof fn lemma_parse_zero_chars(k: nat)
    ensures
        parse_dec(zero_chars(k)) == 0,
    decreases k,
{
    if k > 0 {
        lemma_parse_zero_chars((k - 1) as nat);
        assert(zero_chars(k).drop_last() =~= zero_chars((k - 1) as nat));
    }
}

/// Leading zeros do not change the value of a digit string.
pub proof fn lemma_parse_prepend_zeros(k: nat, s: Seq<char>)
    ensures
        parse_dec(zero_chars(k) + s) == parse_dec(s),
    decreases s.len(),
{
    if s.len() == 0 {
        assert(zero_chars(k) + s =~= zero_chars(k));
        lemma_parse_zero_chars(k);
    } else {
        lemma_parse_prepend_zeros(k, s.drop_last());
        assert((zero_chars(k) + s).drop_last() =~= zero_chars(k) + s.drop_last());
        assert((zero_chars(k) + s).last() == s.last());
    }
}

/// Padding round-trip: a frame number rendered at any width parses back to
/// the same number.
pub proof fn lemma_parse_pad_dec(n: nat, w: nat)
    ensures
        parse_dec(pad_dec(n, w)) == n,
{
    lemma_parse_dec_seq(n);
    if dec_seq(n).len() < w {
        lemma_parse_prepend_zeros((w - dec_seq(n).len()) as nat, dec_seq(n));
    }
}

/// The shape of a padded frame string: its width is the larger of the
/// requested width and the number of digits, and it is made of digits only.
pub proof fn lemma_pad_dec_shape(n: nat, w: nat)
    ensures
        pad_dec(n, w).len() == if dec_seq(n).len() >= w {
            dec_seq(n).len()
        } else {
            w
        },
        pad_dec(n, w).len() >= 1,
        all_digits(pad_dec(n, w)),
{
    lemma_dec_seq_digits(n);
    if dec_seq(n).len() < w {
        let z = (w - dec_seq(n).len()) as nat;
        assert forall|i: int| 0 <= i < pad_dec(n, w).len() implies is_digit(pad_dec(n, w)[i]) by {
            if i < z {
                assert(pad_dec(n, w)[i] == '0');
            } else {
                assert(pad_dec(n, w)[i] == dec_seq(n)[i - z]);
            }
        }
    }
}

/// A digit-string prefix never exceeds the value of the whole string.
pub proof fn lemma_parse_take_le(s: Seq<char>, i: int)
    requires
        0 <= i <= s.len(),
    ensures
        parse_dec(s.take(i)) <= parse_dec(s),
    decreases s.len() - i,
{
    if i == s.len() {
        assert(s.take(i) =~= s);
    } else {
        lemma_parse_take_le(s, i + 1);
        assert(s.take(i + 1).drop_last() =~= s.take(i));
        assert(parse_dec(s.take(i + 1)) == parse_dec(s.take(i)) * 10 + digit_val(
            s.take(i + 1).last(),
        ));
    }
}

/// Every digit string is the canonical padded rendering of its own value at
/// its own width: value plus width determine the text exactly.
pub proof fn lemma_digit_string_canonical(s: Seq<char>)
    requires
        s.len() > 0,
        all_digits(s),
    ensures
        pad_dec(parse_dec(s), s.len()) == s,
    decreases s.len(),
{
    let n = parse_dec(s);
    let c = s.last();
    let d = digit_val(c);
    assert(digit_char(d) == c);
    if s.len() == 1 {
        assert(s.drop_last() =~= Seq::<char>::empty());
        assert(n == d);
        assert(pad_dec(n, 1) =~= s);
    } else {
        let front = s.drop_last();
        let m = parse_dec(front);
        lemma_digit_string_canonical(front);
        assert(n == m * 10 + d);
        if m == 0 {
            // The front is all zeros, and the value is the last digit alone.
            assert(pad_dec(0, front.len()) == front);
            assert(dec_seq(0) =~= seq!['0']);
            assert(front =~= zero_chars(front.len()));
            assert(n == d) by {
                assert(m * 10 == 0);
            }
            assert(dec_seq(n) =~= seq![digit_char(n)]);
            assert(pad_dec(n, s.len()) =~= zero_chars((s.len() - 1) as nat) + seq![digit_char(n)]);
            assert(pad_dec(n, s.len()) =~= s);
        } else {
            assert(n >= 10) by {
                assert(m * 10 >= 10) by (nonlinear_arith)
                    requires
                        m >= 1,
                ;
            }
            assert(n / 10 == m && n % 10 == d) by (nonlinear_arith)
                requires
                    n == m * 10 + d,
                    0 <= d < 10,
            ;
            assert(dec_seq(n) =~= dec_seq(m) + seq![c]);
            lemma_dec_seq_digits(m);
            if dec_seq(m).len() >= front.len() {
                assert(pad_dec(m, front.len()) == dec_seq(m));
                assert(front == dec_seq(m));
                assert(dec_seq(n).len() >= s.len());
                assert(pad_dec(n, s.len()) =~= s);
            } else {
                let z = (front.len() - dec_seq(m).len()) as nat;
                assert(pad_dec(m, front.len()) == zero_chars(z) + dec_seq(m));
                assert(dec_seq(n).len() == dec_seq(m).len() + 1);
                assert(dec_seq(n).len() < s.len());
                assert(pad_dec(n, s.len()) =~= zero_chars(z) + dec_seq(n));
                assert(pad_dec(n, s.len()) =~= (zero_chars(z) + dec_seq(m)) + seq![c]);
                assert(pad_dec(n, s.len()) =~= front + seq![c]);
                assert(s =~= front + seq![c]);
            }
        }
    }
}

/// One decimal digit as a string slice.
fn digit_str(d: u32) -> (r: &'static str)
    requires
        d < 10,
    ensures
        r@ == seq![digit_char(d as nat)],
{
    let r: &'static str = if d == 0 {
        "0"
    } else if d == 1 {
        "1"
    } else if d == 2 {
        "2"
    } else if d == 3 {
        "3"
    } else if d == 4 {
        "4"
    } else if d == 5 {
        "5"
    } else if d == 6 {
        "6"
    } else if d == 7 {
        "7"
    } else if d == 8 {
        "8"
    } else {
        "9"
    };
    proof {
        reveal_strlit("0");
        reveal_strlit("1");
        reveal_strlit("2");
        reveal_strlit("3");
        reveal_strlit("4");
        reveal_strlit("5");
        reveal_strlit("6");
        reveal_strlit("7");
        reveal_strlit("8");
        reveal_strlit("9");
        assert(r@ =~= seq![digit_char(d as nat)]);
    }
    r
}

/// The value of one decimal digit character.
fn digit_value(c: char) -> (d: u32)
    requires
        is_digit(c),
    ensures
        d as nat == digit_val(c),
        d < 10,
{
    if c == '0' {
        0
    } else if c == '1' {
        1
    } else if c == '2' {
        2
    } else if c == '3' {
        3
    } else if c == '4' {
        4
    } else if c == '5' {
        5
    } else if c == '6' {
        6
    } else if c == '7' {
        7
    } else if c == '8' {
        8
    } else {
        9
    }
}

/// Renders `n` in decimal with no padding.
pub fn to_decimal_string(n: u32) -> (s: String)
    ensures
        s@ == dec_seq(n as nat),
    decreases n,
{
    if n < 10 {
        let s = digit_str(n).to_owned();
        s
    } else {
        let mut s = to_decimal_string(n / 10);
        s.append(digit_str(n % 10));
        s
    }
}

/// Renders `n` in decimal, zero-filled to a minimum width of `width`.
pub fn pad_frame_string(n: u32, width: usize) -> (s: String)
    ensures
        s@ == pad_dec(n as nat, width as nat),
{
    let digits = to_decimal_string(n);
    let dlen = digits.as_str().unicode_len();
    if dlen >= width {
        return digits;
    }
    let mut s = String::new();
    let mut i: usize = dlen;
    while i < width
        invariant
            dlen <= i <= width,
            dlen == dec_seq(n as nat).len(),
            s@ =~= zero_chars((i - dlen) as nat),
        decreases width - i,
    {
        s.append("0");
        proof {
            reveal_strlit("0");
            assert(s@ =~= zero_chars((i + 1 - dlen) as nat));
        }
        i = i + 1;
    }
    s.append(digits.as_str());
    proof {
        assert(s@ =~= pad_dec(n as nat, width as nat));
    }
    s
}

/// Reads the numeric value of a well-formed frame string.
pub fn parse_frame_string(s: &str) -> (n: u32)
    requires
        frame_string_ok(s@),
    ensures
        n as nat == parse_dec(s@),
{
    let len = s.unicode_len();
    let mut acc: u32 = 0;
    let mut i: usize = 0;
    while i < len
        invariant
            0 <= i <= len,
            len == s@.len(),
            frame_string_ok(s@),
            acc as nat == parse_dec(s@.take(i as int)),
        decreases len - i,
    {
        let c = s.get_char(i);
        proof {
            lemma_parse_take_le(s@, i + 1);
            assert(s@.take(i + 1).drop_last() =~= s@.take(i as int));
            assert(s@.take(i + 1).last() == s@[i as int]);
            assert(parse_dec(s@.take(i + 1)) == acc as nat * 10 + digit_val(s@[i as int]));
        }
        let d = digit_value(c);
        acc = acc * 10 + d;
        i = i + 1;
    }
    proof {
        assert(s@.take(len as int) =~= s@);
    }
    acc
}

} // verus!

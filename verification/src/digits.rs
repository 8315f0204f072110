use vstd::prelude::*;

verus! {

/// The decimal digit character for `d` in 0..=9; a space for anything else.
pub open spec fn digit_char(d: int) -> char {
    if d == 0 {
        '0'
    } else if d == 1 {
        '1'
    } else if d == 2 {
        '2'
    } else if d == 3 {
        '3'
    } else if d == 4 {
        '4'
    } else if d == 5 {
        '5'
    } else if d == 6 {
        '6'
    } else if d == 7 {
        '7'
    } else if d == 8 {
        '8'
    } else if d == 9 {
        '9'
    } else {
        ' '
    }
}

/// The value of a decimal digit character; 10 for anything else.
pub open spec fn digit_val(c: char) -> int {
    if c == '0' {
        0
    } else if c == '1' {
        1
    } else if c == '2' {
        2
    } else if c == '3' {
        3
    } else if c == '4' {
        4
    } else if c == '5' {
        5
    } else if c == '6' {
        6
    } else if c == '7' {
        7
    } else if c == '8' {
        8
    } else if c == '9' {
        9
    } else {
        10
    }
}

pub open spec fn is_digit_char(c: char) -> bool {
    digit_val(c) <= 9
}

pub open spec fn all_digits(s: Seq<char>) -> bool {
    forall|i: int| 0 <= i < s.len() ==> is_digit_char(#[trigger] s[i])
}

/// The number a sequence of decimal digit characters denotes.
pub open spec fn digits_val(s: Seq<char>) -> int
    decreases s.len(),
{
    if s.len() == 0 {
        0
    } else {
        digits_val(s.drop_last()) * 10 + digit_val(s.last())
    }
}

/// The shortest decimal rendering of a non-negative number.
pub open spec fn dec_rep(n: int) -> Seq<char>
    decreases n when n >= 0
{
    if n < 10 {
        seq![digit_char(n)]
    } else {
        dec_rep(n / 10) + seq![digit_char(n % 10)]
    }
}

/// Appending one digit multiplies the value by ten and adds that digit.
pub proof fn lemma_digits_val_snoc(s: Seq<char>, c: char)
    ensures
        digits_val(s + seq![c]) == digits_val(s) * 10 + digit_val(c),
{
    let t = s + seq![c];
    assert(t.drop_last() =~= s);
    assert(t.last() == c);
}

pub proof fn lemma_digit_roundtrip(d: int)
    requires
        0 <= d <= 9,
    ensures
        digit_val(digit_char(d)) == d,
{
}

/// A decimal rendering consists of digit characters only.
pub proof fn lemma_dec_rep_digits(n: int)
    requires
        n >= 0,
    ensures
        all_digits(dec_rep(n)),
        dec_rep(n).len() >= 1,
    decreases n,
{
    if n < 10 {
    } else {
        lemma_dec_rep_digits(n / 10);
        assert forall|i: int| 0 <= i < dec_rep(n).len() implies is_digit_char(
            #[trigger] dec_rep(n)[i],
        ) by {
            if i < dec_rep(n / 10).len() {
                assert(dec_rep(n)[i] == dec_rep(n / 10)[i]);
            } else {
                assert(dec_rep(n)[i] == digit_char(n % 10));
            }
        }
    }
}

/// Reading a decimal rendering back gives the number it came from.
pub proof fn lemma_dec_rep_roundtrip(n: int)
    requires
        n >= 0,
    ensures
        digits_val(dec_rep(n)) == n,
    decreases n,
{
    if n < 10 {
        lemma_digit_roundtrip(n);
        let s = seq![digit_char(n)];
        assert(dec_rep(n) == s);
        assert(s.len() == 1);
        assert(s.drop_last() =~= Seq::<char>::empty());
        assert(s.last() == digit_char(n));
        assert(digits_val(s.drop_last()) == 0);
        assert(digits_val(s) == digits_val(s.drop_last()) * 10 + digit_val(s.last()));
        assert(digits_val(s) == n);
    } else {
        lemma_dec_rep_roundtrip(n / 10);
        lemma_digits_val_snoc(dec_rep(n / 10), digit_char(n % 10));
        lemma_digit_roundtrip(n % 10);
        assert(n == (n / 10) * 10 + n % 10) by {
            vstd::arithmetic::div_mod::lemma_fundamental_div_mod(n, 10);
        }
    }
}

/// The decimal digit for `d`, as a one-character string slice.
pub fn digit_str(d: u32) -> (r: &'static str)
    requires
        d <= 9,
    ensures
        r@ =~= seq![digit_char(d as int)],
{
    proof {
        reveal_strlit("0");
        reveal_strlit("1");
        reveal_strlit("2");
        reveal_strlit("3");
        reveal_strlit("4");
        reveal_strlit("5");
        reveal_strlit("6");
        reveal_strlit("7");
        reveal_strlit("8");
        reveal_strlit("9");
    }
    match d {
        0 => "0",
        1 => "1",
        2 => "2",
        3 => "3",
        4 => "4",
        5 => "5",
        6 => "6",
        7 => "7",
        8 => "8",
        _ => "9",
    }
}

/// The value of one decimal digit character; 10 for any other character.
pub fn digit_of(c: char) -> (d: u32)
    ensures
        d as int == digit_val(c),
{
    if c == '0' {
        0
    } else if c == '1' {
        1
    } else if c == '2' {
        2
    } else if c == '3' {
        3
    } else if c == '4' {
        4
    } else if c == '5' {
        5
    } else if c == '6' {
        6
    } else if c == '7' {
        7
    } else if c == '8' {
        8
    } else if c == '9' {
        9
    } else {
        10
    }
}

/// The decimal rendering of a number in 0..=100, as a string.
pub fn dec_string(n: u32) -> (r: String)
    requires
        n <= 100,
    ensures
        r@ == dec_rep(n as int),
{
    if n < 10 {
        String::from_str(digit_str(n))
    } else if n < 100 {
        let mut out = String::from_str(digit_str(n / 10));
        out.append(digit_str(n % 10));
        proof {
            assert(dec_rep(n as int) == dec_rep(n as int / 10) + seq![
                digit_char(n as int % 10),
            ]);
            assert(dec_rep(n as int / 10) =~= seq![digit_char(n as int / 10)]);
            assert(out@ =~= dec_rep(n as int));
        }
        out
    } else {
        let mut out = String::from_str(digit_str(1));
        out.append(digit_str(0));
        out.append(digit_str(0));
        proof {
            assert(dec_rep(100) == dec_rep(10) + seq![digit_char(0)]);
            assert(dec_rep(10) == dec_rep(1) + seq![digit_char(0)]);
            assert(dec_rep(1) =~= seq![digit_char(1)]);
            assert(out@ =~= dec_rep(100));
        }
        out
    }
}

} // verus!

//! Numbers and bytes written out as text.

use vstd::prelude::*;
use vstd::string::{StrSliceExecFns, StringExecFns};

verus! {

/// `String::push` of std, which vstd does not specify: the character is
/// added at the end of the text.
#[verifier::external_body]
pub(crate) fn push_char(s: &mut String, c: char)
    ensures
        final(s)@ == old(s)@.push(c),
{
    s.push(c);
}

/// The text without the white space at its ends.
pub uninterp spec fn trimmed_of(text: Seq<char>) -> Seq<char>;

/// `str::trim` of std, which vstd does not specify. The contract only
/// names the result.
#[verifier::external_body]
pub(crate) fn trim(text: &str) -> (r: String)
    ensures
        r@ == trimmed_of(text@),
{
    text.trim().to_string()
}

/// The text that is made of the characters.
pub fn string_of(chars: &Vec<char>) -> (r: String)
    ensures
        r@ == chars@,
{
    let mut r = String::from_str("");
    proof {
        reveal_strlit("");
    }
    assert(r@ =~= chars@.subrange(0, 0));
    let n = chars.len();
    let mut i: usize = 0;
    while i < n
        invariant
            n == chars.len(),
            i <= n,
            r@ == chars@.subrange(0, i as int),
        decreases n - i,
    {
        push_char(&mut r, chars[i]);
        assert(r@ =~= chars@.subrange(0, i + 1));
        i += 1;
    }
    assert(chars@.subrange(0, n as int) =~= chars@);
    r
}

/// The character for the digit `d`, to base sixteen.
pub open spec fn digit_char(d: nat) -> char {
    if d == 0 {
        '0'
    } else if d == 1 {
        '1'
    } else if d == 2 {
        '2'
    } else if d == 3 {
        '3'
    } else if d == 4 {
        '4'
    } else if d == 5 {
        '5'
    } else if d == 6 {
        '6'
    } else if d == 7 {
        '7'
    } else if d == 8 {
        '8'
    } else if d == 9 {
        '9'
    } else if d == 10 {
        'a'
    } else if d == 11 {
        'b'
    } else if d == 12 {
        'c'
    } else if d == 13 {
        'd'
    } else if d == 14 {
        'e'
    } else {
        'f'
    }
}

/// `n` written to base ten, without leading zeros.
pub open spec fn decimal_text(n: nat) -> Seq<char>
    decreases n,
{
    if n < 10 {
        seq![digit_char(n)]
    } else {
        decimal_text(n / 10).push(digit_char(n % 10))
    }
}

/// The bytes written to base sixteen, two lower-case digits each.
pub open spec fn hex_text(bytes: Seq<u8>) -> Seq<char>
    decreases bytes.len(),
{
    if bytes.len() == 0 {
        Seq::empty()
    } else {
        let last = bytes[bytes.len() - 1] as nat;
        hex_text(bytes.drop_last()).push(digit_char(last / 16)).push(digit_char(last % 16))
    }
}

/// The digit `d` as text.
pub fn digit_str(d: u8) -> (s: &'static str)
    requires
        d < 16,
    ensures
        s@ == seq![digit_char(d as nat)],
{
    proof {
        reveal_strlit("0");
        reveal_strlit("1");
        reveal_strlit("2");
        reveal_strlit("3");
        reveal_strlit("4");
        reveal_strlit("5");
        reveal_strlit("6");
        reveal_strlit("7");
        reveal_strlit("8");
        reveal_strlit("9");
        reveal_strlit("a");
        reveal_strlit("b");
        reveal_strlit("c");
        reveal_strlit("d");
        reveal_strlit("e");
        reveal_strlit("f");
    }
    let s = match d {
        0 => "0",
        1 => "1",
        2 => "2",
        3 => "3",
        4 => "4",
        5 => "5",
        6 => "6",
        7 => "7",
        8 => "8",
        9 => "9",
        10 => "a",
        11 => "b",
        12 => "c",
        13 => "d",
        14 => "e",
        _ => "f",
    };
    assert(s@ =~= seq![digit_char(d as nat)]);
    s
}

/// Writes `n` to base ten.
pub fn decimal(n: u64) -> (s: String)
    ensures
        s@ == decimal_text(n as nat),
    decreases n,
{
    if n < 10 {
        String::from_str(digit_str(n as u8))
    } else {
        let head = decimal(n / 10);
        let s = head.concat(digit_str((n % 10) as u8));
        assert(s@ =~= decimal_text(n as nat));
        s
    }
}

/// `n` blanks.
pub open spec fn blanks(n: int) -> Seq<char> {
    Seq::new(
        if n > 0 {
            n as nat
        } else {
            0
        },
        |i: int| ' ',
    )
}

/// `text` with blanks before it up to the width `width`.
pub open spec fn right_aligned(text: Seq<char>, width: int) -> Seq<char> {
    blanks(width - text.len()) + text
}

/// `n` written to base ten, with a zero before it if it has one digit only.
pub open spec fn two_digit_text(n: nat) -> Seq<char> {
    if n < 10 {
        seq!['0'] + decimal_text(n)
    } else {
        decimal_text(n)
    }
}

/// An amount in hundredths written with two decimals.
pub open spec fn hundredths_text(cents: int) -> Seq<char> {
    let size = if cents < 0 {
        -cents
    } else {
        cents
    };
    let digits = decimal_text((size / 100) as nat) + seq!['.'] + two_digit_text((size % 100) as nat);
    if cents < 0 {
        seq!['-'] + digits
    } else {
        digits
    }
}

/// Puts blanks before a text up to a width.
pub fn align_right(text: &str, width: usize) -> (r: String)
    ensures
        r@ == right_aligned(text@, width as int),
{
    let n = text.unicode_len();
    let mut r = String::from_str("");
    proof {
        reveal_strlit("");
        reveal_strlit(" ");
    }
    assert(r@ =~= blanks(0));
    let pad: usize = if width > n {
        width - n
    } else {
        0
    };
    let mut i: usize = 0;
    while i < pad
        invariant
            i <= pad,
            r@ == blanks(i as int),
            " "@ == seq![' '],
        decreases pad - i,
    {
        r.append(" ");
        assert(r@ =~= blanks(i + 1));
        i += 1;
    }
    assert(blanks(pad as int) =~= blanks(width - text@.len()));
    r.concat(text)
}

/// Writes a number to base ten with two digits at least.
pub fn two_digits(n: u64) -> (r: String)
    ensures
        r@ == two_digit_text(n as nat),
{
    proof {
        reveal_strlit("0");
    }
    if n < 10 {
        let r = String::from_str("0").concat(decimal(n).as_str());
        assert(r@ =~= two_digit_text(n as nat));
        r
    } else {
        decimal(n)
    }
}

/// Writes an amount in hundredths with two decimals.
pub fn hundredths(cents: i64) -> (r: String)
    ensures
        r@ == hundredths_text(cents as int),
{
    proof {
        reveal_strlit(".");
        reveal_strlit("-");
        reveal_strlit("");
    }
    let size: u64 = if cents < 0 {
        if cents == i64::MIN {
            9_223_372_036_854_775_808
        } else {
            (-cents) as u64
        }
    } else {
        cents as u64
    };
    let sign = if cents < 0 {
        "-"
    } else {
        ""
    };
    let r = String::from_str(sign).concat(decimal(size / 100).as_str()).concat(".").concat(
        two_digits(size % 100).as_str(),
    );
    assert(r@ =~= hundredths_text(cents as int));
    r
}

/// Writes the bytes to base sixteen.
pub fn hex(bytes: &Vec<u8>) -> (s: String)
    ensures
        s@ == hex_text(bytes@),
{
    let mut s = String::from_str("");
    proof {
        reveal_strlit("");
    }
    let n = bytes.len();
    let mut i: usize = 0;
    assert(bytes@.take(0) =~= Seq::<u8>::empty());
    assert(s@ =~= Seq::<char>::empty());
    while i < n
        invariant
            n == bytes.len(),
            i <= n,
            s@ == hex_text(bytes@.take(i as int)),
        decreases n - i,
    {
        let b = bytes[i];
        proof {
            let next = bytes@.take(i + 1);
            assert(next.drop_last() =~= bytes@.take(i as int));
            assert(next[next.len() - 1] == b);
        }
        s.append(digit_str(b / 16));
        s.append(digit_str(b % 16));
        assert(s@ =~= hex_text(bytes@.take(i + 1)));
        i += 1;
    }
    assert(bytes@.take(n as int) =~= bytes@);
    s
}

} // verus!

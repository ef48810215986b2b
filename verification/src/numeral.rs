//! Writing numbers out in decimal and in lowercase hexadecimal.

use crate::hex::{all_hex_digits, digit_value, hex_value};
use vstd::prelude::*;
use vstd::string::StringExecFns;

verus! {

/// The character that stands for the digit `d`: `0` to `9`, then `a` to `f`.
pub open spec fn digit_char(d: nat) -> char {
    if d < 10 {
        (d + '0' as nat) as char
    } else {
        (d - 10 + 'a' as nat) as char
    }
}

/// Dividing by the radix makes a number of two or more digits smaller.
pub proof fn lemma_quotient_smaller(n: nat, radix: nat)
    requires
        2 <= radix <= n,
    ensures
        n / radix < n,
{
    assert(n / radix < n) by (nonlinear_arith)
        requires
            2 <= radix <= n,
    ;
}

/// `n` written in base `radix`, most significant digit first and without
/// leading zeros; zero is the single digit `0`.
pub open spec fn radix_text(n: nat, radix: nat) -> Seq<char>
    decreases n,
{
    if radix < 2 || n < radix {
        seq![digit_char(n)]
    } else {
        proof {
            lemma_quotient_smaller(n, radix);
        }
        radix_text(n / radix, radix).push(digit_char(n % radix))
    }
}

/// `n` in decimal.
pub open spec fn decimal_text(n: nat) -> Seq<char> {
    radix_text(n, 10)
}

/// `n` in lowercase hexadecimal.
pub open spec fn hex_text(n: nat) -> Seq<char> {
    radix_text(n, 16)
}

/// Reading back what `hex_text` wrote gives the number again: the text
/// consists of hexadecimal digits only, is not empty, and denotes `n`.
pub proof fn lemma_hex_text_round_trip(n: nat)
    ensures
        hex_text(n).len() >= 1,
        all_hex_digits(hex_text(n)),
        hex_value(hex_text(n)) == n,
    decreases n,
{
    let text = hex_text(n);
    if n < 16 {
        assert(digit_value(digit_char(n)) == Some(n));
        assert(text.drop_last() =~= Seq::<char>::empty());
        assert(hex_value(text.drop_last()) == 0);
    } else {
        lemma_hex_text_round_trip(n / 16);
        let head = hex_text(n / 16);
        let d = n % 16;
        assert(digit_value(digit_char(d)) == Some(d));
        assert(text.drop_last() =~= head);
        assert forall|i: int| 0 <= i < text.len() implies (#[trigger] digit_value(
            text[i],
        )) is Some by {
            if i < head.len() {
                assert(text[i] == head[i]);
            }
        }
    }
}

/// No digit is a colon, a blank or a line feed, so a number never runs into
/// the text that follows it.
pub proof fn lemma_radix_text_chars(n: nat, radix: nat)
    requires
        2 <= radix <= 16,
    ensures
        radix_text(n, radix).len() >= 1,
        forall|i: int|
            0 <= i < radix_text(n, radix).len() ==> {
                let c = #[trigger] radix_text(n, radix)[i];
                ('0' <= c <= '9') || ('a' <= c <= 'f')
            },
    decreases n,
{
    if n >= radix {
        lemma_quotient_smaller(n, radix);
        lemma_radix_text_chars(n / radix, radix);
        let head = radix_text(n / radix, radix);
        let text = radix_text(n, radix);
        assert forall|i: int| 0 <= i < text.len() implies {
            let c = #[trigger] text[i];
            ('0' <= c <= '9') || ('a' <= c <= 'f')
        } by {
            if i < head.len() {
                assert(text[i] == head[i]);
            }
        }
    }
}

/// The one-character text of a digit.
fn digit_str(d: usize) -> (s: &'static str)
    requires
        d < 16,
    ensures
        s@ == seq![digit_char(d as nat)],
{
    proof {
        reveal_strlit("0123456789abcdef");
    }
    let digits = "0123456789abcdef";
    let s = digits.substring_ascii(d, d + 1);
    assert(s@ =~= seq![digit_char(d as nat)]);
    s
}

/// Appends `n`, written in base `radix`, to `out`.
pub fn push_radix(out: &mut String, n: usize, radix: usize)
    requires
        2 <= radix <= 16,
    ensures
        final(out)@ == old(out)@ + radix_text(n as nat, radix as nat),
    decreases n,
{
    if n >= radix {
        proof {
            lemma_quotient_smaller(n as nat, radix as nat);
        }
        push_radix(out, n / radix, radix);
        out.append(digit_str(n % radix));
        assert(out@ =~= old(out)@ + radix_text(n as nat, radix as nat));
    } else {
        out.append(digit_str(n));
        assert(out@ =~= old(out)@ + radix_text(n as nat, radix as nat));
    }
}

} // verus!

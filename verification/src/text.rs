//! Text assembled piece by piece: decimal and hexadecimal numbers.

use vstd::prelude::*;
use vstd::string::*;
use vstd::utf8::{char_u32_cast, encode_scalar, encode_utf8};

use crate::bytes::{find_byte, first_index, lemma_first_index_at};

verus! {

/// The digit `d` in decimal or lower case hexadecimal notation.
pub open spec fn digit_char(d: nat) -> char {
    if d == 0 {
        '0'
    } else if d == 1 {
        '1'
    } else if d == 2 {
        '2'
    } else if d == 3 {
        '3'
    } else if d == 4 {
        '4'
    } else if d == 5 {
        '5'
    } else if d == 6 {
        '6'
    } else if d == 7 {
        '7'
    } else if d == 8 {
        '8'
    } else if d == 9 {
        '9'
    } else if d == 10 {
        'a'
    } else if d == 11 {
        'b'
    } else if d == 12 {
        'c'
    } else if d == 13 {
        'd'
    } else if d == 14 {
        'e'
    } else {
        'f'
    }
}

/// `n` in decimal notation, without leading zeros.
pub open spec fn decimal(n: nat) -> Seq<char>
    decreases n,
{
    if n < 10 {
        seq![digit_char(n)]
    } else {
        decimal(n / 10) + seq![digit_char(n % 10)]
    }
}

/// Different numbers are written differently.
pub proof fn lemma_decimal_injective(m: nat, n: nat)
    ensures
        decimal(m) == decimal(n) <==> m == n,
    decreases m,
{
    if decimal(m) == decimal(n) {
        lemma_decimal_nonempty(m / 10);
        lemma_decimal_nonempty(n / 10);
        assert(decimal(m).last() == digit_char(m % 10));
        assert(decimal(n).last() == digit_char(n % 10));
        if m >= 10 && n >= 10 {
            assert(decimal(m).drop_last() =~= decimal(m / 10));
            assert(decimal(n).drop_last() =~= decimal(n / 10));
            lemma_decimal_injective(m / 10, n / 10);
        }
    }
}

/// A number is never written as nothing.
proof fn lemma_decimal_nonempty(n: nat)
    ensures
        decimal(n).len() > 0,
{
}

/// `n` in decimal notation, with a leading `-` if it is negative.
pub open spec fn signed_decimal(n: int) -> Seq<char> {
    if n < 0 {
        seq!['-'] + decimal((-n) as nat)
    } else {
        decimal(n as nat)
    }
}

/// The digit `d` as text.
fn digit_str(d: u64) -> (r: &'static str)
    requires
        d < 16,
    ensures
        r@ == seq![digit_char(d as nat)],
{
    proof {
        reveal_strlit("0");
        reveal_strlit("1");
        reveal_strlit("2");
        reveal_strlit("3");
        reveal_strlit("4");
        reveal_strlit("5");
        reveal_strlit("6");
        reveal_strlit("7");
        reveal_strlit("8");
        reveal_strlit("9");
        reveal_strlit("a");
        reveal_strlit("b");
        reveal_strlit("c");
        reveal_strlit("d");
        reveal_strlit("e");
        reveal_strlit("f");
    }
    let r = if d == 0 {
        "0"
    } else if d == 1 {
        "1"
    } else if d == 2 {
        "2"
    } else if d == 3 {
        "3"
    } else if d == 4 {
        "4"
    } else if d == 5 {
        "5"
    } else if d == 6 {
        "6"
    } else if d == 7 {
        "7"
    } else if d == 8 {
        "8"
    } else if d == 9 {
        "9"
    } else if d == 10 {
        "a"
    } else if d == 11 {
        "b"
    } else if d == 12 {
        "c"
    } else if d == 13 {
        "d"
    } else if d == 14 {
        "e"
    } else {
        "f"
    };
    assert(r@ =~= seq![digit_char(d as nat)]);
    r
}

/// Append `n` in decimal notation.
pub fn push_decimal(out: &mut String, n: u64)
    ensures
        final(out)@ == old(out)@ + decimal(n as nat),
    decreases n,
{
    if n >= 10 {
        push_decimal(out, n / 10);
    }
    out.append(digit_str(n % 10));
    assert(out@ =~= old(out)@ + decimal(n as nat));
}

/// Append `n` in decimal notation, with a leading `-` if it is negative.
pub fn push_signed_decimal(out: &mut String, n: i32)
    ensures
        final(out)@ == old(out)@ + signed_decimal(n as int),
{
    let wide: i64 = n as i64;
    if wide < 0 {
        proof {
            reveal_strlit("-");
        }
        out.append("-");
        push_decimal(out, (-wide) as u64);
        assert("-"@ =~= seq!['-']);
        assert(out@ =~= old(out)@ + signed_decimal(n as int));
    } else {
        push_decimal(out, wide as u64);
    }
}

/// A byte as two lower case hexadecimal digits.
pub open spec fn hex_byte(b: u8) -> Seq<char> {
    seq![digit_char((b / 16) as nat), digit_char((b % 16) as nat)]
}

/// Append a byte as two lower case hexadecimal digits.
pub fn push_hex_byte(out: &mut String, b: u8)
    ensures
        final(out)@ == old(out)@ + hex_byte(b),
{
    out.append(digit_str((b / 16) as u64));
    out.append(digit_str((b % 16) as u64));
    assert(out@ =~= old(out)@ + hex_byte(b));
}

/// A byte that takes part in encoding a character other than NUL is not NUL.
proof fn lemma_encode_scalar_nul(scalar: u32)
    ensures
        encode_scalar(scalar).contains(0) <==> scalar == 0,
{
    assert forall|x: u8| #![auto]
        (0x80u8 | x) != 0 && (0xC0u8 | x) != 0 && (0xE0u8 | x) != 0 && (0xF0u8 | x) != 0 by {
        assert((0x80u8 | x) != 0 && (0xC0u8 | x) != 0 && (0xE0u8 | x) != 0 && (0xF0u8 | x) != 0)
            by (bit_vector);
    }
    let bytes = encode_scalar(scalar);
    if scalar <= 0x7f {
        assert((scalar & 0x7F) as u8 == 0 <==> scalar == 0) by (bit_vector)
            requires
                scalar <= 0x7f,
        ;
        assert(bytes[0] == (scalar & 0x7F) as u8);
    } else if bytes.contains(0) {
        let i = choose|i: int| 0 <= i < bytes.len() && bytes[i] == 0;
        assert(i == 0 || i == 1 || i == 2 || i == 3);
    }
}

/// The UTF-8 encoding of a text contains a NUL byte just if the text contains
/// the NUL character.
pub proof fn lemma_nul(text: Seq<char>)
    ensures
        encode_utf8(text).contains(0) <==> text.contains('\0'),
    decreases text.len(),
{
    if text.len() > 0 {
        let head = encode_scalar(text[0] as u32);
        let tail = encode_utf8(text.drop_first());
        lemma_encode_scalar_nul(text[0] as u32);
        char_u32_cast(text[0], text[0] as u32);
        lemma_nul(text.drop_first());
        let all = head + tail;
        if all.contains(0) {
            let i = choose|i: int| 0 <= i < all.len() && all[i] == 0;
            if i < head.len() {
                assert(head[i] == 0);
                assert(text[0] == '\0');
            } else {
                assert(tail[i - head.len()] == 0);
                let j = choose|j: int|
                    0 <= j < text.drop_first().len() && text.drop_first()[j] == '\0';
                assert(text[j + 1] == '\0');
            }
        }
        if text.contains('\0') {
            let j = choose|j: int| 0 <= j < text.len() && text[j] == '\0';
            if j == 0 {
                let i = choose|i: int| 0 <= i < head.len() && head[i] == 0;
                assert(all[i] == 0);
            } else {
                assert(text.drop_first()[j - 1] == '\0');
                let i = choose|i: int| 0 <= i < tail.len() && tail[i] == 0;
                assert(all[i + head.len()] == 0);
            }
        }
    }
}

/// A text that cannot be passed on as a C string, because it contains a NUL.
#[derive(Clone, Copy, Debug, PartialEq, Eq, Structural)]
pub struct NulError {
    /// The position of the first NUL byte.
    pub position: usize,
}

impl NulError {
    /// Describe the error.
    pub fn describe(&self) -> (r: String)
        ensures
            r@ == "nul byte found in provided data at position: "@ + decimal(
                self.position as nat,
            ),
    {
        let mut out = String::new();
        out.append("nul byte found in provided data at position: ");
        push_decimal(&mut out, self.position as u64);
        out
    }
}

/// Check that a text can be passed on as a C string.
pub fn check_no_nul(text: &str) -> (r: Result<(), NulError>)
    ensures
        r is Ok <==> !text@.contains('\0'),
        r matches Err(e) ==> e.position == first_index(encode_utf8(text@), 0),
{
    let bytes = text.as_bytes();
    let position: usize = find_byte(bytes, 0);
    proof {
        lemma_nul(text@);
        lemma_first_index_at(bytes@, 0);
    }
    if position < bytes.len() {
        Err(NulError { position })
    } else {
        Ok(())
    }
}

/// Two texts without NUL make up a text without NUL.
pub proof fn lemma_no_nul_concat(a: Seq<char>, b: Seq<char>)
    requires
        !a.contains('\0'),
        !b.contains('\0'),
    ensures
        !(a + b).contains('\0'),
{
    let all = a + b;
    if all.contains('\0') {
        let i = choose|i: int| 0 <= i < all.len() && all[i] == '\0';
        if i < a.len() {
            assert(a[i] == '\0');
        } else {
            assert(b[i - a.len()] == '\0');
        }
    }
}

/// What a number looks like: its last character is that of its last digit, what
/// precedes it is the rest of the number, and nothing precedes a single digit.
/// The characters are those from `0` to `9`.
pub proof fn decimal_digits(n: nat)
    ensures
        decimal(n).last() as int == 0x30 + n % 10,
        n < 10 ==> decimal(n).len() == 1,
        n >= 10 ==> decimal(n).drop_last() == decimal(n / 10),
        signed_decimal(n as int) == decimal(n),
        n > 0 ==> signed_decimal(-(n as int)) == seq!['-'] + decimal(n),
{
    lemma_decimal_nonempty(n);
    if n >= 10 {
        assert(decimal(n).drop_last() =~= decimal(n / 10));
    }
}

/// What a byte looks like: two characters, each of which is that of a
/// hexadecimal digit, from `0` to `9` and from `a` to `f`.
pub proof fn hex_digits(b: u8)
    ensures
        hex_byte(b).len() == 2,
        hex_byte(b)[0] as int == if b / 16 < 10 {
            0x30 + b / 16
        } else {
            0x57 + b / 16
        },
        hex_byte(b)[1] as int == if b % 16 < 10 {
            0x30 + b % 16
        } else {
            0x57 + b % 16
        },
{
}

} // verus!

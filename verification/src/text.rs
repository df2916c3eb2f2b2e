//! Character and number utilities shared by the parser, the assembler and the
//! explainer: string equality, digit parsing in the four literal bases, and
//! rendering of register values in the display bases.

use vstd::prelude::*;

verus! {

/// Compares two strings by their character sequences.
pub fn str_eq(a: &str, b: &str) -> (r: bool)
    ensures
        r == (a@ == b@),
{
    let la = a.unicode_len();
    let lb = b.unicode_len();
    if la != lb {
        return false;
    }
    let mut i: usize = 0;
    while i < la
        invariant
            la == a@.len(),
            la == b@.len(),
            i <= la,
            forall|j: int| 0 <= j < i ==> a@[j] == b@[j],
        decreases la - i,
    {
        if a.get_char(i) != b.get_char(i) {
            return false;
        }
        i += 1;
    }
    proof {
        assert(a@ =~= b@);
    }
    true
}

/// Turns a string into the vector of its characters.
pub fn str_chars(s: &str) -> (r: Vec<char>)
    ensures
        r@ == s@,
{
    let n = s.unicode_len();
    let mut r: Vec<char> = Vec::new();
    let mut i: usize = 0;
    while i < n
        invariant
            n == s@.len(),
            i <= n,
            r@ == s@.subrange(0, i as int),
        decreases n - i,
    {
        r.push(s.get_char(i));
        i += 1;
        proof {
            assert(r@ =~= s@.subrange(0, i as int));
        }
    }
    proof {
        assert(r@ =~= s@);
    }
    r
}

/// The numeric value of a digit character under the given base, if any.
/// Upper- and lower-case letters are accepted for bases above ten.
pub open spec fn digit_val_spec(c: char, base: u32) -> Option<u32> {
    let v: int = if '0' <= c && c <= '9' {
        c as int - '0' as int
    } else if 'a' <= c && c <= 'f' {
        c as int - 'a' as int + 10
    } else if 'A' <= c && c <= 'F' {
        c as int - 'A' as int + 10
    } else {
        -1
    };
    if 0 <= v < base {
        Some(v as u32)
    } else {
        None
    }
}

/// The value of a digit string under the given base, read left to right;
/// `None` when the string is empty, has a non-digit, or overflows 32 bits.
pub open spec fn digits_val_spec(s: Seq<char>, base: u32) -> Option<u32>
    decreases s.len(),
{
    if s.len() == 0 {
        None
    } else if s.len() == 1 {
        digit_val_spec(s[0], base)
    } else {
        match (digits_val_spec(s.drop_last(), base), digit_val_spec(s.last(), base)) {
            (Some(hi), Some(lo)) => {
                if hi as int * base as int + lo as int <= u32::MAX as int {
                    Some((hi * base + lo) as u32)
                } else {
                    None
                }
            },
            _ => None,
        }
    }
}

/// Evaluates a digit string under `base` (2, 8, 10 or 16).
pub fn digits_val(s: &Vec<char>, base: u32) -> (r: Option<u32>)
    requires
        2 <= base <= 16,
    ensures
        r == digits_val_spec(s@, base),
{
    if s.len() == 0 {
        return None;
    }
    let mut acc: u32 = 0;
    let mut i: usize = 0;
    let mut ok: bool = true;
    while i < s.len()
        invariant
            2 <= base <= 16,
            i <= s@.len(),
            0 < s@.len(),
            i > 0 ==> (ok ==> digits_val_spec(s@.subrange(0, i as int), base) == Some(acc)),
            i > 0 ==> (!ok ==> digits_val_spec(s@.subrange(0, i as int), base) is None),
            i == 0 ==> ok && acc == 0,
        decreases s@.len() - i,
    {
        let c = s[i];
        let d: u32 = if '0' <= c && c <= '9' {
            (c as u32) - ('0' as u32)
        } else if 'a' <= c && c <= 'f' {
            (c as u32) - ('a' as u32) + 10
        } else if 'A' <= c && c <= 'F' {
            (c as u32) - ('A' as u32) + 10
        } else {
            base
        };
        proof {
            if d < base {
                assert(digit_val_spec(s@[i as int], base) == Some(d));
            } else {
                assert(digit_val_spec(s@[i as int], base) is None);
            }
        }
        if d >= base {
            ok = false;
        } else if ok {
            if acc <= (u32::MAX - d) / base {
                proof {
                    assert(acc as int * base as int + d as int <= u32::MAX as int)
                        by (nonlinear_arith)
                        requires
                            acc as int <= ((u32::MAX - d) as int) / (base as int),
                            2 <= base <= 16,
                            d < base,
                    ;
                }
                acc = acc * base + d;
            } else {
                proof {
                    assert(acc as int * base as int + d as int > u32::MAX as int) by (nonlinear_arith)
                        requires
                            acc as int > ((u32::MAX - d) as int) / (base as int),
                            2 <= base <= 16,
                            d < base,
                    ;
                }
                ok = false;
            }
        }
        i += 1;
        proof {
            let pre = s@.subrange(0, i - 1 as int);
            let cur = s@.subrange(0, i as int);
            assert(cur.drop_last() =~= pre);
            assert(cur.last() == s@[i - 1]);
        }
    }
    proof {
        assert(s@.subrange(0, s@.len() as int) =~= s@);
    }
    if ok {
        Some(acc)
    } else {
        None
    }
}

/// The decimal digit character for a value below ten.
pub open spec fn digit_char(d: int) -> char {
    ((48 + d) as u8) as char
}

/// The hexadecimal digit character for a value below sixteen, lower case.
pub open spec fn hex_char(d: int) -> char {
    if d < 10 {
        ((48 + d) as u8) as char
    } else {
        ((87 + d) as u8) as char
    }
}

/// The decimal rendering of a natural number, without sign or padding.
pub open spec fn dec_spec(n: nat) -> Seq<char>
    decreases n,
{
    if n < 10 {
        seq![digit_char(n as int)]
    } else {
        dec_spec(n / 10) + seq![digit_char((n % 10) as int)]
    }
}

/// The one-character string of a decimal digit.
pub fn digit_str(d: u64) -> (r: &'static str)
    requires
        d < 10,
    ensures
        r@ == seq![digit_char(d as int)],
{
    let r: &'static str = match d {
        0 => "0",
        1 => "1",
        2 => "2",
        3 => "3",
        4 => "4",
        5 => "5",
        6 => "6",
        7 => "7",
        8 => "8",
        _ => "9",
    };
    proof {
        reveal_strlit("0");
        reveal_strlit("1");
        reveal_strlit("2");
        reveal_strlit("3");
        reveal_strlit("4");
        reveal_strlit("5");
        reveal_strlit("6");
        reveal_strlit("7");
        reveal_strlit("8");
        reveal_strlit("9");
        assert("0"@ =~= seq!['0']);
        assert("1"@ =~= seq!['1']);
        assert("2"@ =~= seq!['2']);
        assert("3"@ =~= seq!['3']);
        assert("4"@ =~= seq!['4']);
        assert("5"@ =~= seq!['5']);
        assert("6"@ =~= seq!['6']);
        assert("7"@ =~= seq!['7']);
        assert("8"@ =~= seq!['8']);
        assert("9"@ =~= seq!['9']);
        assert(r@ =~= seq![digit_char(d as int)]);
    }
    r
}

/// Renders a number in decimal.
pub fn dec_u64(n: u64) -> (r: String)
    ensures
        r@ == dec_spec(n as nat),
    decreases n,
{
    if n < 10 {
        String::from_str(digit_str(n))
    } else {
        let mut s = dec_u64(n / 10);
        s.append(digit_str(n % 10));
        s
    }
}

/// The signed decimal rendering of a 32-bit two's-complement pattern.
pub open spec fn sdec_spec(n: u32) -> Seq<char> {
    if n >= 0x8000_0000 {
        seq!['-'] + dec_spec(neg_u32_spec(n) as nat)
    } else {
        dec_spec(n as nat)
    }
}

/// Renders a 32-bit pattern as a signed decimal number.
pub fn sdec_u32(n: u32) -> (r: String)
    ensures
        r@ == sdec_spec(n),
{
    if n >= 0x8000_0000 {
        let mut s = String::from_str("-");
        s.append(dec_u64(neg_u32(n) as u64).as_str());
        proof {
            reveal_strlit("-");
            assert("-"@ =~= seq!['-']);
        }
        s
    } else {
        dec_u64(n as u64)
    }
}

/// The 32-character binary rendering of a word, most significant bit first.
pub open spec fn bin32_spec(n: u32) -> Seq<char> {
    Seq::new(32, |i: int| digit_char(((n >> (31 - i) as u32) & 1) as int))
}

/// Renders a word as 32 binary digits, most significant bit first.
pub fn bin32(n: u32) -> (r: String)
    ensures
        r@ == bin32_spec(n),
{
    let mut s = String::new();
    let mut i: usize = 0;
    while i < 32
        invariant
            i <= 32,
            s@ =~= bin32_spec(n).subrange(0, i as int),
        decreases 32 - i,
    {
        let bit = (n >> (31 - i) as u32) & 1;
        proof {
            let s31: u32 = (31 - i) as u32;
            assert((n >> s31) & 1 < 2) by (bit_vector);
        }
        s.append(digit_str(bit as u64));
        i += 1;
        proof {
            assert(s@ =~= bin32_spec(n).subrange(0, i as int));
        }
    }
    proof {
        assert(bin32_spec(n).subrange(0, 32) =~= bin32_spec(n));
    }
    s
}

/// The eight-character lower-case hexadecimal rendering of a word.
pub open spec fn hex8_spec(n: u32) -> Seq<char> {
    Seq::new(8, |i: int| hex_char(((n >> (28 - 4 * i) as u32) & 0xf) as int))
}

/// The one-character string of a hexadecimal digit, lower case.
pub fn hex_digit_str(d: u32) -> (r: &'static str)
    requires
        d < 16,
    ensures
        r@ == seq![hex_char(d as int)],
{
    if d < 10 {
        digit_str(d as u64)
    } else {
        let r: &'static str = match d {
            10 => "a",
            11 => "b",
            12 => "c",
            13 => "d",
            14 => "e",
            _ => "f",
        };
        proof {
            reveal_strlit("a");
            reveal_strlit("b");
            reveal_strlit("c");
            reveal_strlit("d");
            reveal_strlit("e");
            reveal_strlit("f");
            assert("a"@ =~= seq!['a']);
            assert("b"@ =~= seq!['b']);
            assert("c"@ =~= seq!['c']);
            assert("d"@ =~= seq!['d']);
            assert("e"@ =~= seq!['e']);
            assert("f"@ =~= seq!['f']);
            assert(r@ =~= seq![hex_char(d as int)]);
        }
        r
    }
}

/// Renders a word as eight lower-case hexadecimal digits.
pub fn hex8(n: u32) -> (r: String)
    ensures
        r@ == hex8_spec(n),
{
    let mut s = String::new();
    let mut i: usize = 0;
    while i < 8
        invariant
            i <= 8,
            s@ =~= hex8_spec(n).subrange(0, i as int),
        decreases 8 - i,
    {
        let d = (n >> (28 - 4 * i) as u32) & 0xf;
        proof {
            let sh: u32 = (28 - 4 * i) as u32;
            assert((n >> sh) & 0xf < 16) by (bit_vector);
        }
        s.append(hex_digit_str(d));
        i += 1;
        proof {
            assert(s@ =~= hex8_spec(n).subrange(0, i as int));
        }
    }
    proof {
        assert(hex8_spec(n).subrange(0, 8) =~= hex8_spec(n));
    }
    s
}

/// Relies on String::push: appends the character to the string.
#[verifier::external_body]
fn push_char(s: &mut String, c: char)
    ensures
        final(s)@ == old(s)@.push(c),
{
    s.push(c);
}

/// Builds the string of the characters `v[a..b]`.
pub fn chars_to_string(v: &Vec<char>, a: usize, b: usize) -> (r: String)
    requires
        a <= b <= v@.len(),
    ensures
        r@ == v@.subrange(a as int, b as int),
{
    let mut r = String::new();
    let mut i: usize = a;
    while i < b
        invariant
            a <= i <= b <= v@.len(),
            r@ == v@.subrange(a as int, i as int),
        decreases b - i,
    {
        push_char(&mut r, v[i]);
        i += 1;
        proof {
            assert(r@ =~= v@.subrange(a as int, i as int));
        }
    }
    proof {
        assert(r@ =~= v@.subrange(a as int, b as int));
    }
    r
}

/// Copies the characters `v[a..b]` into a fresh vector.
pub fn subrange_vec(v: &Vec<char>, a: usize, b: usize) -> (r: Vec<char>)
    requires
        a <= b <= v@.len(),
    ensures
        r@ == v@.subrange(a as int, b as int),
{
    let mut r: Vec<char> = Vec::new();
    let mut i: usize = a;
    while i < b
        invariant
            a <= i <= b <= v@.len(),
            r@ == v@.subrange(a as int, i as int),
        decreases b - i,
    {
        r.push(v[i]);
        i += 1;
        proof {
            assert(r@ =~= v@.subrange(a as int, i as int));
        }
    }
    proof {
        assert(r@ =~= v@.subrange(a as int, b as int));
    }
    r
}

/// The two's-complement 32-bit pattern of the negation of `v`.
pub open spec fn neg_u32_spec(v: u32) -> u32 {
    if v == 0 {
        0
    } else {
        (0x1_0000_0000 - v as int) as u32
    }
}

/// Computes the two's-complement pattern of `-v`.
pub fn neg_u32(v: u32) -> (r: u32)
    ensures
        r == neg_u32_spec(v),
{
    if v == 0 {
        0
    } else {
        u32::MAX - v + 1
    }
}

} // verus!

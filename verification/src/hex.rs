//! Hexadecimal digits: parsing byte text and rendering values.

use vstd::prelude::*;

verus! {

/// The byte is the code of a hexadecimal digit, either case.
pub open spec fn is_hex_byte(b: u8) -> bool {
    (48 <= b <= 57) || (65 <= b <= 70) || (97 <= b <= 102)
}

/// The digit value of a hexadecimal byte.
pub open spec fn hex_digit_val(b: u8) -> int
    recommends
        is_hex_byte(b),
{
    if 48 <= b <= 57 {
        b - 48
    } else if 65 <= b <= 70 {
        b - 65 + 10
    } else {
        b - 97 + 10
    }
}

/// Every byte is a hexadecimal digit.
pub open spec fn all_hex(s: Seq<u8>) -> bool {
    forall|i: int| 0 <= i < s.len() ==> is_hex_byte(s[i])
}

/// The value of hexadecimal text, most significant digit first.
pub open spec fn hex_seq_val(s: Seq<u8>) -> int
    decreases s.len(),
{
    if s.len() == 0 {
        0
    } else {
        hex_seq_val(s.drop_last()) * 16 + hex_digit_val(s.last())
    }
}

/// Sixteen to the given power.
pub open spec fn pow16(n: nat) -> nat
    decreases n,
{
    if n == 0 {
        1
    } else {
        16 * pow16((n - 1) as nat)
    }
}

pub proof fn lemma_pow16_increases(m: nat, n: nat)
    requires
        m <= n,
    ensures
        pow16(m) <= pow16(n),
    decreases n,
{
    if m < n {
        lemma_pow16_increases(m, (n - 1) as nat);
        assert(pow16(n) == 16 * pow16((n - 1) as nat));
    }
}

/// Hexadecimal text of length `n` denotes a value below sixteen to the `n`.
pub proof fn lemma_hex_seq_val_bound(s: Seq<u8>)
    requires
        all_hex(s),
    ensures
        0 <= hex_seq_val(s) < pow16(s.len()),
    decreases s.len(),
{
    if s.len() > 0 {
        assert(all_hex(s.drop_last())) by {
            assert(forall|i: int|
                0 <= i < s.len() - 1 ==> s.drop_last()[i] == s[i]);
        }
        lemma_hex_seq_val_bound(s.drop_last());
        assert(0 <= hex_digit_val(s.last()) < 16);
    }
}

/// The digit value of one byte, or nothing when it is not a hexadecimal
/// digit.
pub fn hex_val_of_byte(b: u8) -> (r: Option<u8>)
    ensures
        match r {
            Some(v) => is_hex_byte(b) && v == hex_digit_val(b),
            None => !is_hex_byte(b),
        },
{
    if 48 <= b && b <= 57 {
        Some(b - 48)
    } else if 65 <= b && b <= 70 {
        Some(b - 65 + 10)
    } else if 97 <= b && b <= 102 {
        Some(b - 97 + 10)
    } else {
        None
    }
}

/// Parse the hexadecimal text in `bytes[from..to]`, most significant digit
/// first: its value exactly when every byte in the range is a hexadecimal
/// digit.
pub fn parse_hex_range(bytes: &[u8], from: usize, to: usize) -> (r: Option<u64>)
    requires
        from <= to <= bytes@.len(),
        to - from <= 15,
    ensures
        match r {
            Some(v) => all_hex(bytes@.subrange(from as int, to as int)) && v == hex_seq_val(
                bytes@.subrange(from as int, to as int),
            ),
            None => !all_hex(bytes@.subrange(from as int, to as int)),
        },
{
    let mut acc: u64 = 0;
    let mut i: usize = from;
    proof {
        assert(bytes@.subrange(from as int, from as int) =~= Seq::<u8>::empty());
    }
    while i < to
        invariant
            from <= i <= to <= bytes@.len(),
            to - from <= 15,
            all_hex(bytes@.subrange(from as int, i as int)),
            acc == hex_seq_val(bytes@.subrange(from as int, i as int)),
            acc < pow16((i - from) as nat),
        decreases to - i,
    {
        let b = bytes[i];
        match hex_val_of_byte(b) {
            None => {
                proof {
                    assert(bytes@.subrange(from as int, to as int)[i - from] == b);
                }
                return None;
            },
            Some(d) => {
                proof {
                    lemma_pow16_increases((i - from) as nat, 14nat);
                    reveal_with_fuel(pow16, 16);
                    assert(pow16(14nat) == 0x100_0000_0000_0000);
                    assert(acc * 16 + d < pow16(((i - from) + 1) as nat));
                    assert(bytes@.subrange(from as int, (i + 1) as int).drop_last()
                        =~= bytes@.subrange(from as int, i as int));
                    assert(bytes@.subrange(from as int, (i + 1) as int).last() == b);
                    assert forall|j: int| 0 <= j < i + 1 - from implies is_hex_byte(
                        #[trigger] bytes@.subrange(from as int, (i + 1) as int)[j],
                    ) by {
                        if j < i - from {
                            assert(bytes@.subrange(from as int, (i + 1) as int)[j]
                                == bytes@.subrange(from as int, i as int)[j]);
                        } else {
                            assert(bytes@.subrange(from as int, (i + 1) as int)[j] == b);
                        }
                    }
                    assert(all_hex(bytes@.subrange(from as int, (i + 1) as int)));
                }
                acc = acc * 16 + (d as u64);
                i = i + 1;
            },
        }
    }
    Some(acc)
}

/// The uppercase character of one hexadecimal digit.
pub open spec fn hex_char_of(d: int) -> char
    recommends
        0 <= d < 16,
{
    if d == 0 {
        '0'
    } else if d == 1 {
        '1'
    } else if d == 2 {
        '2'
    } else if d == 3 {
        '3'
    } else if d == 4 {
        '4'
    } else if d == 5 {
        '5'
    } else if d == 6 {
        '6'
    } else if d == 7 {
        '7'
    } else if d == 8 {
        '8'
    } else if d == 9 {
        '9'
    } else if d == 10 {
        'A'
    } else if d == 11 {
        'B'
    } else if d == 12 {
        'C'
    } else if d == 13 {
        'D'
    } else if d == 14 {
        'E'
    } else {
        'F'
    }
}

/// A 16-bit value rendered as four uppercase hexadecimal characters.
pub open spec fn hex4_chars(v: int) -> Seq<char> {
    seq![
        hex_char_of(v / 0x1000 % 16),
        hex_char_of(v / 0x100 % 16),
        hex_char_of(v / 0x10 % 16),
        hex_char_of(v % 16),
    ]
}

/// The text of one hexadecimal digit, uppercase.
fn hex_digit_str(d: u16) -> (r: &'static str)
    requires
        d < 16,
    ensures
        r@ == seq![hex_char_of(d as int)],
{
    proof {
        reveal_strlit("0");
        reveal_strlit("1");
        reveal_strlit("2");
        reveal_strlit("3");
        reveal_strlit("4");
        reveal_strlit("5");
        reveal_strlit("6");
        reveal_strlit("7");
        reveal_strlit("8");
        reveal_strlit("9");
        reveal_strlit("A");
        reveal_strlit("B");
        reveal_strlit("C");
        reveal_strlit("D");
        reveal_strlit("E");
        reveal_strlit("F");
    }
    let r: &'static str = if d == 0 {
        "0"
    } else if d == 1 {
        "1"
    } else if d == 2 {
        "2"
    } else if d == 3 {
        "3"
    } else if d == 4 {
        "4"
    } else if d == 5 {
        "5"
    } else if d == 6 {
        "6"
    } else if d == 7 {
        "7"
    } else if d == 8 {
        "8"
    } else if d == 9 {
        "9"
    } else if d == 10 {
        "A"
    } else if d == 11 {
        "B"
    } else if d == 12 {
        "C"
    } else if d == 13 {
        "D"
    } else if d == 14 {
        "E"
    } else {
        "F"
    };
    proof {
        assert(r@ =~= seq![hex_char_of(d as int)]);
    }
    r
}

/// Render a 16-bit value as four uppercase hexadecimal characters.
pub fn hex4_string(v: u16) -> (r: String)
    ensures
        r@ == hex4_chars(v as int),
{
    let mut s = String::new();
    s.append(hex_digit_str(v / 0x1000 % 16));
    s.append(hex_digit_str(v / 0x100 % 16));
    s.append(hex_digit_str(v / 0x10 % 16));
    s.append(hex_digit_str(v % 16));
    proof {
        assert(s@ =~= hex4_chars(v as int));
    }
    s
}

} // verus!

//! Decimal and hexadecimal rendering of numbers, as `{}`, `{:02}` and `{:02X}` write them.

use vstd::prelude::*;

verus! {

/// The decimal digit `d` (`d < 10`).
pub open spec fn digit_char(d: nat) -> char {
    if d == 0 {
        '0'
    } else if d == 1 {
        '1'
    } else if d == 2 {
        '2'
    } else if d == 3 {
        '3'
    } else if d == 4 {
        '4'
    } else if d == 5 {
        '5'
    } else if d == 6 {
        '6'
    } else if d == 7 {
        '7'
    } else if d == 8 {
        '8'
    } else {
        '9'
    }
}

/// `n` in decimal, without leading zeros.
pub open spec fn decimal(n: nat) -> Seq<char>
    decreases n,
{
    if n < 10 {
        seq![digit_char(n)]
    } else {
        decimal(n / 10).push(digit_char(n % 10))
    }
}

/// `n` in decimal, padded with a zero to at least two digits.
pub open spec fn decimal2(n: nat) -> Seq<char> {
    if n < 10 {
        seq!['0', digit_char(n)]
    } else {
        decimal(n)
    }
}

/// The hexadecimal digit `d` (`d < 16`), upper case.
pub open spec fn hex_char(d: nat) -> char {
    if d < 10 {
        digit_char(d)
    } else if d == 10 {
        'A'
    } else if d == 11 {
        'B'
    } else if d == 12 {
        'C'
    } else if d == 13 {
        'D'
    } else if d == 14 {
        'E'
    } else {
        'F'
    }
}

fn digit_str(d: u64) -> (s: &'static str)
    requires
        d < 10,
    ensures
        s@ == seq![digit_char(d as nat)],
{
    proof {
        reveal_strlit("0");
        reveal_strlit("1");
        reveal_strlit("2");
        reveal_strlit("3");
        reveal_strlit("4");
        reveal_strlit("5");
        reveal_strlit("6");
        reveal_strlit("7");
        reveal_strlit("8");
        reveal_strlit("9");
    }
    if d == 0 {
        "0"
    } else if d == 1 {
        "1"
    } else if d == 2 {
        "2"
    } else if d == 3 {
        "3"
    } else if d == 4 {
        "4"
    } else if d == 5 {
        "5"
    } else if d == 6 {
        "6"
    } else if d == 7 {
        "7"
    } else if d == 8 {
        "8"
    } else {
        "9"
    }
}

fn hex_str(d: u8) -> (s: &'static str)
    requires
        d < 16,
    ensures
        s@ == seq![hex_char(d as nat)],
{
    proof {
        reveal_strlit("A");
        reveal_strlit("B");
        reveal_strlit("C");
        reveal_strlit("D");
        reveal_strlit("E");
        reveal_strlit("F");
    }
    if d < 10 {
        digit_str(d as u64)
    } else if d == 10 {
        "A"
    } else if d == 11 {
        "B"
    } else if d == 12 {
        "C"
    } else if d == 13 {
        "D"
    } else if d == 14 {
        "E"
    } else {
        "F"
    }
}

/// `n` in decimal, as `{}` writes it.
pub fn decimal_string(n: u64) -> (s: String)
    ensures
        s@ == decimal(n as nat),
    decreases n,
{
    if n < 10 {
        String::from_str(digit_str(n))
    } else {
        let mut s = decimal_string(n / 10);
        s.append(digit_str(n % 10));
        s
    }
}

/// `n` in decimal with at least two digits, as `{:02}` writes it.
pub fn decimal2_string(n: u64) -> (s: String)
    ensures
        s@ == decimal2(n as nat),
{
    if n < 10 {
        let mut s = String::from_str("0");
        s.append(digit_str(n));
        proof {
            reveal_strlit("0");
        }
        assert(s@ =~= seq!['0', digit_char(n as nat)]);
        s
    } else {
        decimal_string(n)
    }
}

/// Byte `b` as two upper-case hexadecimal digits (`{:02X}`).
pub open spec fn hex_byte(b: u8) -> Seq<char> {
    seq![hex_char((b / 16) as nat), hex_char((b % 16) as nat)]
}

/// The bytes `b` as `{:02X}` each, separated by single spaces.
pub open spec fn hex_spec(b: Seq<u8>) -> Seq<char>
    decreases b.len(),
{
    if b.len() == 0 {
        seq![]
    } else if b.len() == 1 {
        hex_byte(b[0])
    } else {
        hex_spec(b.drop_last()) + seq![' '] + hex_byte(b.last())
    }
}

/// Hex dump of raw command bytes: `{:02X}` of each byte, separated by spaces.
pub fn hex_text(b: &[u8]) -> (s: String)
    ensures
        s@ == hex_spec(b@),
{
    let mut s = String::new();
    let mut i: usize = 0;
    proof {
        reveal_strlit(" ");
    }
    while i < b.len()
        invariant
            0 <= i <= b.len(),
            s@ == hex_spec(b@.take(i as int)),
        decreases b.len() - i,
    {
        proof {
            reveal_strlit(" ");
        }
        let ghost before = s@;
        if i > 0 {
            s.append(" ");
        }
        s.append(hex_str(b[i] / 16));
        s.append(hex_str(b[i] % 16));
        let ghost t = b@.take(i + 1);
        assert(t.drop_last() =~= b@.take(i as int));
        assert(t.last() == b@[i as int]);
        assert(t[0] == b@[0]);
        assert(hex_byte(b@[i as int]) =~= seq![hex_char((b@[i as int] / 16) as nat), hex_char((b@[i as int] % 16) as nat)]);
        if i == 0 {
            assert(s@ =~= hex_spec(t));
        } else {
            assert(s@ =~= before + seq![' '] + hex_byte(b@[i as int]));
            assert(s@ =~= hex_spec(t));
        }
        i += 1;
    }
    assert(b@.take(b.len() as int) =~= b@);
    s
}

/// The decimal numbers `b` in a list, as `{:?}` writes a `Vec<u8>`: `[1, 2, 3]`.
pub open spec fn byte_list(b: Seq<u8>) -> Seq<char> {
    seq!['['] + list_items(b) + seq![']']
}

pub open spec fn list_items(b: Seq<u8>) -> Seq<char>
    decreases b.len(),
{
    if b.len() == 0 {
        seq![]
    } else if b.len() == 1 {
        decimal(b[0] as nat)
    } else {
        list_items(b.drop_last()) + seq![',', ' '] + decimal(b.last() as nat)
    }
}

/// `b` as `{:?}` writes a `Vec<u8>`.
pub fn byte_list_string(b: &[u8]) -> (s: String)
    ensures
        s@ == byte_list(b@),
{
    proof {
        reveal_strlit("[");
        reveal_strlit("]");
        reveal_strlit(", ");
    }
    let mut s = String::from_str("[");
    let mut i: usize = 0;
    while i < b.len()
        invariant
            0 <= i <= b.len(),
            s@ == seq!['['] + list_items(b@.take(i as int)),
        decreases b.len() - i,
    {
        proof {
            reveal_strlit(", ");
        }
        let ghost prev = s@;
        if i > 0 {
            s.append(", ");
        }
        let d = decimal_string(b[i] as u64);
        s.append(d.as_str());
        let ghost t = b@.take(i + 1);
        assert(t.drop_last() =~= b@.take(i as int));
        assert(t.last() == b@[i as int]);
        assert(t[0] == b@[0]);
        if i == 0 {
            assert(list_items(t) == decimal(b@[0] as nat));
            assert(s@ =~= seq!['['] + list_items(t));
        } else {
            assert(s@ =~= prev + seq![',', ' '] + decimal(b@[i as int] as nat));
            assert(s@ =~= seq!['['] + list_items(t));
        }
        i += 1;
    }
    s.append("]");
    assert(b@.take(b.len() as int) =~= b@);
    assert(s@ =~= byte_list(b@));
    s
}

/// The value of a decimal digit character.
pub open spec fn digit_value(c: char) -> int {
    c as int - 48
}

/// `c` is one of '0'..'9'.
pub open spec fn is_digit(c: char) -> bool {
    48 <= c as int <= 57
}

/// The number a string of decimal digits denotes.
pub open spec fn read_decimal(s: Seq<char>) -> int
    decreases s.len(),
{
    if s.len() == 0 {
        0
    } else {
        read_decimal(s.drop_last()) * 10 + digit_value(s.last())
    }
}

proof fn lemma_digit(d: nat)
    requires
        d < 10,
    ensures
        digit_value(digit_char(d)) == d,
        is_digit(digit_char(d)),
{
    assert('0' as int == 48 && '1' as int == 49 && '2' as int == 50 && '3' as int == 51 && '4' as int
        == 52 && '5' as int == 53 && '6' as int == 54 && '7' as int == 55 && '8' as int == 56 && '9' as int
        == 57);
}

/// `decimal(n)` is `n` written in decimal: digits only, reading back as `n`, and with no
/// leading zero unless `n` is zero; the two-digit form also reads back as `n`.
pub proof fn law_decimal(n: nat)
    ensures
        decimal(n).len() >= 1,
        forall|k: int| 0 <= k < decimal(n).len() ==> is_digit(#[trigger] decimal(n)[k]),
        read_decimal(decimal(n)) == n,
        n >= 10 ==> decimal(n)[0] != '0',
        decimal2(n).len() >= 2,
        read_decimal(decimal2(n)) == n,
    decreases n,
{
    lemma_digit(n % 10);
    if n >= 10 {
        law_decimal(n / 10);
        let p = decimal(n / 10);
        let d = decimal(n);
        assert(d.drop_last() =~= p);
        assert forall|k: int| 0 <= k < d.len() implies is_digit(#[trigger] d[k]) by {
            if k < p.len() {
                assert(d[k] == p[k]);
            }
        }
        assert(d[0] == p[0]);
        assert(read_decimal(d) == read_decimal(p) * 10 + digit_value(digit_char(n % 10)));
    } else {
        lemma_digit(n);
        lemma_digit(0);
        let one = seq![digit_char(n)];
        assert(one.drop_last() =~= Seq::<char>::empty());
        assert(one.last() == digit_char(n));
        assert(read_decimal(Seq::<char>::empty()) == 0);
        assert(read_decimal(one) == read_decimal(one.drop_last()) * 10 + digit_value(one.last()));
        assert(read_decimal(one) == digit_value(digit_char(n)));
        let two = seq!['0', digit_char(n)];
        assert(two.drop_last() =~= seq!['0']);
        assert(seq!['0'].drop_last() =~= Seq::<char>::empty());
        assert(read_decimal(seq!['0']) == 0);
        assert(read_decimal(two) == read_decimal(seq!['0']) * 10 + digit_value(digit_char(n)));
    }
}

/// The value of an upper-case hexadecimal digit character.
pub open spec fn hex_value(c: char) -> int {
    if c as int <= 57 {
        c as int - 48
    } else {
        c as int - 55
    }
}

/// `c` is one of '0'..'9', 'A'..'F'.
pub open spec fn is_hex_digit(c: char) -> bool {
    48 <= c as int <= 57 || 65 <= c as int <= 70
}

/// Each byte is written as two upper-case hexadecimal digits, high nibble first, that
/// read back as the byte.
pub proof fn law_hex_byte(b: u8)
    ensures
        hex_byte(b).len() == 2,
        is_hex_digit(hex_byte(b)[0]) && is_hex_digit(hex_byte(b)[1]),
        hex_value(hex_byte(b)[0]) * 16 + hex_value(hex_byte(b)[1]) == b,
{
}

/// A hex dump of `n` bytes is `3n - 1` characters: byte `k` as two digits at `3k`,
/// separated by single spaces.
pub proof fn law_hex_dump(b: Seq<u8>)
    ensures
        b.len() > 0 ==> hex_spec(b).len() == 3 * b.len() - 1,
        b.len() == 0 ==> hex_spec(b).len() == 0,
        forall|k: int|
            0 <= k < b.len() ==> hex_spec(b)[3 * k] == hex_byte(#[trigger] b[k])[0] && hex_spec(b)[3 * k + 1]
                == hex_byte(b[k])[1],
        forall|k: int| 0 <= k < b.len() - 1 ==> #[trigger] hex_spec(b)[3 * k + 2] == ' ',
    decreases b.len(),
{
    if b.len() > 1 {
        let p = b.drop_last();
        law_hex_dump(p);
        let h = hex_spec(b);
        let hp = hex_spec(p);
        assert(h == hp + seq![' '] + hex_byte(b.last()));
        assert forall|k: int| 0 <= k < b.len() implies h[3 * k] == hex_byte(#[trigger] b[k])[0] && h[3 * k + 1]
            == hex_byte(b[k])[1] by {
            if k < p.len() {
                assert(b[k] == p[k]);
                assert(h[3 * k] == hp[3 * k]);
                assert(h[3 * k + 1] == hp[3 * k + 1]);
            }
        }
        assert forall|k: int| 0 <= k < b.len() - 1 implies #[trigger] h[3 * k + 2] == ' ' by {
            if k < p.len() - 1 {
                assert(h[3 * k + 2] == hp[3 * k + 2]);
            }
        }
    }
}

} // verus!

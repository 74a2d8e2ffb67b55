//! The textual form of a 128-bit identifier: 32 hexadecimal digits, grouped
//! 8-4-4-4-12 and joined by hyphens.
use vstd::prelude::*;

verus! {

/// The lowercase hexadecimal digit of a nibble.
pub open spec fn hex_char(d: nat) -> char {
    if d < 10 {
        ((48 + d) as u32) as char
    } else {
        ((87 + d) as u32) as char
    }
}

/// Whether `c` is a hexadecimal digit, in either case.
pub open spec fn is_hex_digit(c: char) -> bool {
    ('0' as u32 <= c as u32 && c as u32 <= '9' as u32)
    || ('a' as u32 <= c as u32 && c as u32 <= 'f' as u32)
    || ('A' as u32 <= c as u32 && c as u32 <= 'F' as u32)
}

/// The value of a hexadecimal digit.
pub open spec fn hex_digit_value(c: char) -> nat {
    if '0' as u32 <= c as u32 && c as u32 <= '9' as u32 {
        (c as u32 - '0' as u32) as nat
    } else if 'a' as u32 <= c as u32 && c as u32 <= 'f' as u32 {
        (c as u32 - 'a' as u32 + 10) as nat
    } else {
        (c as u32 - 'A' as u32 + 10) as nat
    }
}

pub open spec fn pow16(n: nat) -> nat
    decreases n,
{
    if n == 0 {
        1
    } else {
        16 * pow16((n - 1) as nat)
    }
}

/// The `n` lowest hexadecimal digits of `v`, most significant first.
pub open spec fn hex_digits(v: nat, n: nat) -> Seq<char>
    decreases n,
{
    if n == 0 {
        seq![]
    } else {
        hex_digits(v / 16, (n - 1) as nat).push(hex_char(v % 16))
    }
}

/// The number that a sequence of hexadecimal digits denotes, most significant first.
pub open spec fn hex_value(s: Seq<char>) -> nat
    decreases s.len(),
{
    if s.len() == 0 {
        0
    } else {
        hex_value(s.drop_last()) * 16 + hex_digit_value(s.last())
    }
}

pub open spec fn all_hex(s: Seq<char>) -> bool {
    forall|i: int| 0 <= i < s.len() ==> #[trigger] is_hex_digit(s[i])
}

/// The 32 digits of a 36-character hyphenated form, hyphens left out.
pub open spec fn group_digits(s: Seq<char>) -> Seq<char> {
    s.subrange(0, 8) + s.subrange(9, 13) + s.subrange(14, 18) + s.subrange(19, 23) + s.subrange(
        24,
        36,
    )
}

/// Whether `s` is 36 characters long, has hyphens at the group boundaries and
/// hexadecimal digits everywhere else.
pub open spec fn is_hyphenated(s: Seq<char>) -> bool {
    &&& s.len() == 36
    &&& s[8] == '-' && s[13] == '-' && s[18] == '-' && s[23] == '-'
    &&& all_hex(group_digits(s))
}

/// The canonical text of a 128-bit value: lowercase digits, grouped 8-4-4-4-12.
pub open spec fn hyphenated(v: nat) -> Seq<char> {
    let d = hex_digits(v, 32);
    d.subrange(0, 8) + seq!['-'] + d.subrange(8, 12) + seq!['-'] + d.subrange(12, 16) + seq!['-']
        + d.subrange(16, 20) + seq!['-'] + d.subrange(20, 32)
}

pub open spec fn ascii_lower(c: char) -> char {
    if 'A' as u32 <= c as u32 && c as u32 <= 'Z' as u32 {
        ((c as u32) + 32) as char
    } else {
        c
    }
}

/// Whether `p` reads `urn:uuid:`, letters in either case.
pub open spec fn is_urn_prefix(p: Seq<char>) -> bool {
    let target = seq!['u', 'r', 'n', ':', 'u', 'u', 'i', 'd', ':'];
    p.len() == 9 && forall|i: int| 0 <= i < 9 ==> #[trigger] ascii_lower(p[i]) == target[i]
}

/// The hyphenated part of an accepted text other than the plain digits: the
/// whole text, the text inside braces, or the text after a URN prefix.
pub open spec fn hyphenated_part(s: Seq<char>) -> Option<Seq<char>> {
    if s.len() == 36 {
        Some(s)
    } else if s.len() == 38 && s[0] == '{' && s[37] == '}' {
        Some(s.subrange(1, 37))
    } else if s.len() == 45 && is_urn_prefix(s.subrange(0, 9)) {
        Some(s.subrange(9, 45))
    } else {
        None
    }
}

/// The 128-bit value that a text denotes, if it is one of the accepted forms:
/// 32 digits; the hyphenated form; that form in braces; or that form after a
/// `urn:uuid:` prefix. Digits may be of either case.
pub open spec fn uuid_text_value(s: Seq<char>) -> Option<u128> {
    if s.len() == 32 {
        if all_hex(s) {
            Some(hex_value(s) as u128)
        } else {
            None
        }
    } else {
        match hyphenated_part(s) {
            Some(h) => if is_hyphenated(h) {
                Some(hex_value(group_digits(h)) as u128)
            } else {
                None
            },
            None => None,
        }
    }
}

proof fn lemma_hex_char(d: nat)
    requires
        d < 16,
    ensures
        is_hex_digit(hex_char(d)),
        hex_digit_value(hex_char(d)) == d,
{
}

proof fn lemma_hex_digits(v: nat, n: nat)
    requires
        v < pow16(n),
    ensures
        hex_digits(v, n).len() == n,
        all_hex(hex_digits(v, n)),
        hex_value(hex_digits(v, n)) == v,
    decreases n,
{
    if n > 0 {
        let m = (n - 1) as nat;
        assert(v / 16 < pow16(m)) by (nonlinear_arith)
            requires
                v < 16 * pow16(m),
        ;
        lemma_hex_digits(v / 16, m);
        lemma_hex_char(v % 16);
        let d = hex_digits(v, n);
        assert(d.drop_last() =~= hex_digits(v / 16, m));
        assert forall|i: int| 0 <= i < d.len() implies #[trigger] is_hex_digit(d[i]) by {
            if i < m {
                assert(d[i] == hex_digits(v / 16, m)[i]);
            }
        }
    }
}

/// Reading back the canonical text of a value gives that value.
pub proof fn lemma_hyphenated_round_trip(v: u128)
    ensures
        uuid_text_value(hyphenated(v as nat)) == Some(v),
{
    assert(pow16(32) == 0x1_0000_0000_0000_0000_0000_0000_0000_0000) by {
        reveal_with_fuel(pow16, 33);
    }
    lemma_hex_digits(v as nat, 32);
    let d = hex_digits(v as nat, 32);
    let s = hyphenated(v as nat);
    assert(s.len() == 36);
    assert(group_digits(s) =~= d);
    assert(hyphenated_part(s) == Some(s));
}

/// A text of the hyphenated length that holds something other than a digit
/// where a digit belongs is refused.
pub proof fn lemma_non_hex_rejected(s: Seq<char>, i: int)
    requires
        s.len() == 36,
        0 <= i < 36,
        i != 8 && i != 13 && i != 18 && i != 23,
        !is_hex_digit(s[i]),
    ensures
        uuid_text_value(s) is None,
{
    let g = group_digits(s);
    let j = if i < 8 {
        i
    } else if i < 13 {
        i - 1
    } else if i < 18 {
        i - 2
    } else if i < 23 {
        i - 3
    } else {
        i - 4
    };
    assert(g[j] == s[i]);
}

} // verus!

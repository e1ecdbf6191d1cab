//! Text: UTF-8 bytes, NUL characters, comparison, and decimal numerals.

use vstd::prelude::*;
use vstd::utf8::*;

verus! {

/// `String::push` appends the given character to the end of the string.
pub assume_specification[ std::string::String::push ](s: &mut std::string::String, c: char)
    ensures
        final(s)@ == old(s)@.push(c),
;

/// The character with code zero, which ends a C string.
pub open spec fn has_nul(text: Seq<char>) -> bool {
    text.contains('\0')
}

/// The decimal numeral of `n`, without leading zeros.
pub open spec fn decimal(n: nat) -> Seq<char>
    decreases n,
{
    if n < 10 {
        seq![(n + 48) as char]
    } else {
        decimal(n / 10).push((n % 10 + 48) as char)
    }
}

proof fn lemma_scalar_zero_byte(c: u32)
    by (bit_vector)
    ensures
        c <= 0x7F ==> ((c & 0x7F) as u8 == 0 <==> c == 0),
        0xC0 | ((c >> 6) & 0x1F) as u8 != 0,
        0xE0 | ((c >> 12) & 0x0F) as u8 != 0,
        0xF0 | ((c >> 18) & 0x7) as u8 != 0,
        0x80 | (c & 0x3F) as u8 != 0,
        0x80 | ((c >> 6) & 0x3F) as u8 != 0,
        0x80 | ((c >> 12) & 0x3F) as u8 != 0,
{
}

proof fn lemma_nul_scalar(c: char)
    ensures
        encode_scalar(c as u32).contains(0u8) <==> c == '\0',
{
    let first = encode_scalar(c as u32);
    char_is_scalar(c);
    lemma_scalar_zero_byte(c as u32);
    if c == '\0' {
        assert(first[0] == 0u8);
    }
}

/// A zero byte occurs in the UTF-8 form of a text exactly when the text has a NUL character.
pub proof fn lemma_nul_is_zero_byte(text: Seq<char>)
    ensures
        encode_utf8(text).contains(0u8) <==> has_nul(text),
    decreases text.len(),
{
    if text.len() > 0 {
        let rest = text.drop_first();
        let first = encode_scalar(text[0] as u32);
        let whole = encode_utf8(text);
        lemma_nul_is_zero_byte(rest);
        lemma_nul_scalar(text[0]);
        assert(whole == first + encode_utf8(rest));
        if whole.contains(0u8) {
            let i = choose|i: int| 0 <= i < whole.len() && whole[i] == 0u8;
            if i < first.len() {
                assert(first[i] == 0u8);
                assert(text[0] == '\0');
            } else {
                assert(encode_utf8(rest)[i - first.len()] == 0u8);
                let j = choose|j: int| 0 <= j < rest.len() && rest[j] == '\0';
                assert(text[j + 1] == '\0');
            }
        }
        if has_nul(text) {
            let j = choose|j: int| 0 <= j < text.len() && text[j] == '\0';
            if j == 0 {
                let i = choose|i: int| 0 <= i < first.len() && first[i] == 0u8;
                assert(whole[i] == 0u8);
            } else {
                assert(rest[j - 1] == '\0');
                let i = choose|i: int|
                    0 <= i < encode_utf8(rest).len() && encode_utf8(rest)[i] == 0u8;
                assert(whole[first.len() + i] == 0u8);
            }
        }
    }
}

/// Texts with the same UTF-8 form are the same text.
pub proof fn lemma_utf8_injective(a: Seq<char>, b: Seq<char>)
    requires
        encode_utf8(a) == encode_utf8(b),
    ensures
        a == b,
{
    vstd::utf8::encode_utf8_decode_utf8(a);
    vstd::utf8::encode_utf8_decode_utf8(b);
}

/// Whether a text has a NUL character.
pub fn contains_nul(s: &str) -> (r: bool)
    ensures
        r == has_nul(s@),
{
    let bytes = s.as_bytes();
    proof {
        lemma_nul_is_zero_byte(s@);
    }
    let mut i: usize = 0;
    while i < bytes.len()
        invariant
            i <= bytes.len(),
            bytes@ == encode_utf8(s@),
            encode_utf8(s@).contains(0u8) <==> has_nul(s@),
            forall|j: int| 0 <= j < i ==> bytes@[j] != 0u8,
        decreases bytes.len() - i,
    {
        if bytes[i] == 0 {
            assert(bytes@.contains(0u8));
            return true;
        }
        i += 1;
    }
    false
}

/// Whether two texts are the same.
pub fn same_text(a: &str, b: &str) -> (r: bool)
    ensures
        r == (a@ == b@),
{
    let x = a.as_bytes();
    let y = b.as_bytes();
    if x.len() != y.len() {
        return false;
    }
    let mut i: usize = 0;
    while i < x.len()
        invariant
            i <= x.len(),
            x@.len() == y@.len(),
            x@ == encode_utf8(a@),
            y@ == encode_utf8(b@),
            forall|j: int| 0 <= j < i ==> x@[j] == y@[j],
        decreases x.len() - i,
    {
        if x[i] != y[i] {
            return false;
        }
        i += 1;
    }
    proof {
        assert(x@ =~= y@);
        lemma_utf8_injective(a@, b@);
    }
    true
}

/// Writes a number as its decimal numeral.
pub fn decimal_string(n: usize) -> (r: String)
    ensures
        r@ == decimal(n as nat),
    decreases n,
{
    if n < 10 {
        let mut s = String::new();
        s.push((48 + n as u8) as char);
        assert(s@ =~= decimal(n as nat));
        s
    } else {
        let mut s = decimal_string(n / 10);
        s.push((48 + (n % 10) as u8) as char);
        s
    }
}

/// A numeral has no NUL character, so that an index can always be a key.
pub proof fn law_numeral_has_no_nul(n: nat)
    ensures
        !has_nul(decimal(n)),
        decimal(n).len() > 0,
    decreases n,
{
    let text = decimal(n);
    if n >= 10 {
        law_numeral_has_no_nul(n / 10);
        let front = decimal(n / 10);
        if has_nul(text) {
            let i = choose|i: int| 0 <= i < text.len() && text[i] == '\0';
            if i < front.len() {
                assert(front[i] == '\0');
            }
        }
    }
}

/// Different numbers have different numerals, so that no two indices give the same key.
pub proof fn law_numerals_differ(a: nat, b: nat)
    requires
        decimal(a) == decimal(b),
    ensures
        a == b,
    decreases a,
{
    law_numeral_has_no_nul(a / 10);
    law_numeral_has_no_nul(b / 10);
    assert(decimal(a).last() == (a % 10 + 48) as char);
    assert(decimal(b).last() == (b % 10 + 48) as char);
    assert(a % 10 == b % 10);
    if a >= 10 && b >= 10 {
        assert(decimal(a).drop_last() =~= decimal(a / 10));
        assert(decimal(b).drop_last() =~= decimal(b / 10));
        law_numerals_differ(a / 10, b / 10);
    }
}

/// A text has a NUL character exactly when the character with code zero stands at some place in it.
pub proof fn law_nul_has_a_place(text: Seq<char>)
    ensures
        has_nul(text) <==> exists|i: int| 0 <= i < text.len() && #[trigger] text[i] as int == 0,
{
    if has_nul(text) {
        let i = choose|i: int| 0 <= i < text.len() && text[i] == '\0';
        assert(text[i] as int == 0);
    }
    if exists|i: int| 0 <= i < text.len() && #[trigger] text[i] as int == 0 {
        let i = choose|i: int| 0 <= i < text.len() && #[trigger] text[i] as int == 0;
        assert(text[i] == '\0');
    }
}

/// A numeral is made of decimal digits, which give back the number when they are read in base ten
/// from left to right, and it has no leading zero unless the number is zero.
pub proof fn law_numeral_reads_back(n: nat)
    ensures
        decimal(n).len() > 0,
        forall|i: int| 0 <= i < decimal(n).len() ==> '0' <= #[trigger] decimal(n)[i] <= '9',
        decimal(n).fold_left(
            0int,
            |value: int, digit: char| 10 * value + (digit as int - '0' as int),
        ) == n,
        n > 0 ==> decimal(n)[0] != '0',
        n == 0 ==> decimal(n).len() == 1,
    decreases n,
{
    let step = |value: int, digit: char| 10 * value + (digit as int - '0' as int);
    let text = decimal(n);
    if n < 10 {
        assert(text.drop_last() =~= seq![]);
        assert(text.drop_last().fold_left(0int, step) == 0);
        assert(text.fold_left(0int, step) == step(0, text.last()));
    } else {
        let front = decimal(n / 10);
        law_numeral_reads_back(n / 10);
        assert(text.drop_last() =~= front);
        assert(text.fold_left(0int, step) == step(front.fold_left(0int, step), text.last()));
        assert(text[0] == front[0]);
        assert forall|i: int| 0 <= i < text.len() implies '0' <= #[trigger] text[i] <= '9' by {
            if i < front.len() {
                assert(text[i] == front[i]);
            }
        }
    }
}

} // verus!

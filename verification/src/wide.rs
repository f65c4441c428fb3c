//! Null-terminated wide-character buffers and their decoding into text.

use vstd::prelude::*;

verus! {

/// The character that stands in for a code unit that cannot be decoded.
pub const REPLACEMENT: char = '\u{FFFD}';

/// Number of code units in the buffer that a name is resolved into.
pub const NAME_UNITS: usize = 512;

/// Position of the first null code unit, or the length where there is none.
pub open spec fn null_position(units: Seq<u16>) -> nat
    decreases units.len(),
{
    if units.len() == 0 || units[0] == 0 {
        0
    } else {
        1 + null_position(units.drop_first())
    }
}

/// The code units in front of the first null.
pub open spec fn until_null(units: Seq<u16>) -> Seq<u16> {
    units.take(null_position(units) as int)
}

/// `null_position` stays inside the buffer, passes over no null and stops on
/// one unless it reaches the end.
pub proof fn lemma_null_position(units: Seq<u16>)
    ensures
        null_position(units) <= units.len(),
        forall|i: int| 0 <= i < null_position(units) ==> units[i] != 0,
        null_position(units) < units.len() ==> units[null_position(units) as int] == 0,
    decreases units.len(),
{
    if units.len() == 0 || units[0] == 0 {
    } else {
        let rest = units.drop_first();
        lemma_null_position(rest);
        assert forall|i: int| 0 <= i < null_position(units) implies units[i] != 0 by {
            if i > 0 {
                assert(units[i] == rest[i - 1]);
            }
        }
    }
}

/// Length of the prefix that ends before the first null code unit.
pub fn terminated_len(units: &[u16]) -> (k: usize)
    ensures
        k == null_position(units@),
{
    let mut k: usize = 0;
    proof {
        assert(units@.skip(0) =~= units@);
    }
    while k < units.len() && units[k] != 0
        invariant
            k <= units.len(),
            null_position(units@) == k + null_position(units@.skip(k as int)),
        decreases units.len() - k,
    {
        proof {
            let rest = units@.skip(k as int);
            assert(rest[0] == units@[k as int]);
            assert(rest.drop_first() =~= units@.skip(k + 1));
        }
        k = k + 1;
    }
    proof {
        if k < units.len() {
            assert(units@.skip(k as int)[0] == units@[k as int]);
        }
    }
    k
}

/// A code unit that opens a surrogate pair.
pub open spec fn is_high_surrogate(unit: u16) -> bool {
    0xD800 <= unit <= 0xDBFF
}

/// A code unit that closes a surrogate pair.
pub open spec fn is_low_surrogate(unit: u16) -> bool {
    0xDC00 <= unit <= 0xDFFF
}

/// The sequence opens with a high surrogate that its low surrogate follows.
pub open spec fn starts_with_pair(units: Seq<u16>) -> bool {
    units.len() >= 2 && is_high_surrogate(units[0]) && is_low_surrogate(units[1])
}

/// Scalar value that a surrogate pair stands for.
pub open spec fn pair_scalar(high: u16, low: u16) -> int {
    0x10000 + (high - 0xD800) * 0x400 + (low - 0xDC00)
}

/// UTF-16 decoding in which every surrogate without its partner becomes
/// `REPLACEMENT`.
pub open spec fn decode_utf16(units: Seq<u16>) -> Seq<char>
    decreases units.len(),
{
    if units.len() == 0 {
        Seq::empty()
    } else if starts_with_pair(units) {
        seq![pair_scalar(units[0], units[1]) as char] + decode_utf16(units.skip(2))
    } else if is_high_surrogate(units[0]) || is_low_surrogate(units[0]) {
        seq![REPLACEMENT] + decode_utf16(units.skip(1))
    } else {
        seq![units[0] as char] + decode_utf16(units.skip(1))
    }
}

/// Text held by a null-terminated buffer: what is in front of the first
/// null, decoded.
pub open spec fn spec_decode_wide(units: Seq<u16>) -> Seq<char> {
    decode_utf16(until_null(units))
}

/// Decodes the buffer up to its first null code unit.
pub fn decode_wide(units: &[u16]) -> (text: String)
    ensures
        text@ == spec_decode_wide(units@),
{
    let k = terminated_len(units);
    let ghost prefix = until_null(units@);
    proof {
        lemma_null_position(units@);
        assert(prefix.skip(0) =~= prefix);
    }
    let mut text = String::new();
    let mut i: usize = 0;
    while i < k
        invariant
            i <= k,
            k == prefix.len(),
            k <= units.len(),
            prefix == units@.take(k as int),
            text@ + decode_utf16(prefix.skip(i as int)) == decode_utf16(prefix),
        decreases k - i,
    {
        let ghost rest = prefix.skip(i as int);
        let unit = units[i];
        proof {
            assert(rest[0] == unit);
        }
        if 0xD800 <= unit && unit <= 0xDBFF && i + 1 < k && 0xDC00 <= units[i + 1]
            && units[i + 1] <= 0xDFFF {
            let low = units[i + 1];
            let scalar: u32 = 0x10000 + (unit as u32 - 0xD800) * 0x400 + (low as u32 - 0xDC00);
            let decoded = char::from_u32(scalar);
            proof {
                assert(rest[1] == low);
                assert(starts_with_pair(rest));
                assert(rest.skip(2) =~= prefix.skip(i + 2));
                assert(scalar == pair_scalar(unit, low));
            }
            text.push(decoded.unwrap());
            i = i + 2;
        } else if 0xD800 <= unit && unit <= 0xDFFF {
            proof {
                assert(!starts_with_pair(rest)) by {
                    if i + 1 < k {
                        assert(rest[1] == units[i + 1]);
                    }
                }
                assert(rest.skip(1) =~= prefix.skip(i + 1));
            }
            text.push(REPLACEMENT);
            i = i + 1;
        } else {
            let decoded = char::from_u32(unit as u32);
            proof {
                assert(rest.skip(1) =~= prefix.skip(i + 1));
            }
            text.push(decoded.unwrap());
            i = i + 1;
        }
    }
    text
}

/// Decoding yields no more characters than there are code units.
pub proof fn lemma_decode_is_no_longer(units: Seq<u16>)
    ensures
        decode_utf16(units).len() <= units.len(),
    decreases units.len(),
{
    if units.len() == 0 {
    } else if starts_with_pair(units) {
        lemma_decode_is_no_longer(units.skip(2));
    } else {
        lemma_decode_is_no_longer(units.skip(1));
    }
}

/// No high surrogate in the sequence is followed by its low surrogate.
pub open spec fn pair_free(units: Seq<u16>) -> bool {
    forall|i: int|
        0 <= i && i + 1 < units.len() ==> !(is_high_surrogate(#[trigger] units[i])
            && is_low_surrogate(units[i + 1]))
}

/// The character that one code unit decodes to when it is part of no pair.
pub open spec fn lone_unit_char(unit: u16) -> char {
    if is_high_surrogate(unit) || is_low_surrogate(unit) {
        REPLACEMENT
    } else {
        unit as char
    }
}

/// Without surrogate pairs every code unit decodes to one character.
pub proof fn lemma_decode_pair_free(units: Seq<u16>)
    requires
        pair_free(units),
    ensures
        decode_utf16(units).len() == units.len(),
        forall|i: int|
            0 <= i < units.len() ==> decode_utf16(units)[i] == lone_unit_char(#[trigger] units[i]),
    decreases units.len(),
{
    if units.len() > 0 {
        let rest = units.skip(1);
        assert(!starts_with_pair(units)) by {
            if units.len() >= 2 {
                assert(!(is_high_surrogate(units[0]) && is_low_surrogate(units[0int + 1])));
            }
        }
        assert(pair_free(rest)) by {
            assert forall|i: int| 0 <= i && i + 1 < rest.len() implies !(is_high_surrogate(
                #[trigger] rest[i],
            ) && is_low_surrogate(rest[i + 1])) by {
                assert(rest[i] == units[i + 1]);
                assert(rest[i + 1] == units[i + 1 + 1]);
            }
        }
        lemma_decode_pair_free(rest);
        assert forall|i: int| 0 <= i < units.len() implies decode_utf16(units)[i]
            == lone_unit_char(#[trigger] units[i]) by {
            if i > 0 {
                assert(units[i] == rest[i - 1]);
            }
        }
    }
}

/// The first null of a buffer is where `null_position` says, and nowhere
/// else.
pub proof fn lemma_first_null_is_null_position(units: Seq<u16>, k: int)
    requires
        0 <= k < units.len(),
        units[k] == 0,
        forall|i: int| 0 <= i < k ==> units[i] != 0,
    ensures
        null_position(units) == k,
{
    lemma_null_position(units);
    let p = null_position(units) as int;
    if p < k {
        assert(units[p] == 0);
    } else if p > k {
        assert(units[k] != 0);
    }
}

/// A buffer whose first null stands at position `k`, with no surrogate pair
/// in front of it, holds a text of exactly `k` characters, one for each code
/// unit in front of the null. What follows the null has no part in it.
pub proof fn law_null_ends_text(units: Seq<u16>, k: int)
    requires
        0 <= k < units.len(),
        units[k] == 0,
        forall|i: int| 0 <= i < k ==> units[i] != 0,
        pair_free(units.take(k)),
    ensures
        spec_decode_wide(units) == decode_utf16(units.take(k)),
        spec_decode_wide(units).len() == k,
        forall|i: int|
            0 <= i < k ==> spec_decode_wide(units)[i] == lone_unit_char(#[trigger] units[i]),
{
    lemma_first_null_is_null_position(units, k);
    lemma_decode_pair_free(units.take(k));
    assert forall|i: int| 0 <= i < k implies spec_decode_wide(units)[i] == lone_unit_char(
        #[trigger] units[i],
    ) by {
        assert(units.take(k)[i] == units[i]);
    }
}

/// The text never has more characters than the code units in front of the
/// first null.
pub proof fn law_text_fits_in_front_of_null(units: Seq<u16>)
    ensures
        spec_decode_wide(units).len() <= null_position(units) <= units.len(),
{
    lemma_null_position(units);
    lemma_decode_is_no_longer(until_null(units));
}

/// Two buffers that agree up to their first null hold the same text.
pub proof fn law_text_ends_at_null(first: Seq<u16>, second: Seq<u16>)
    requires
        null_position(first) == null_position(second),
        forall|i: int| 0 <= i < null_position(first) ==> first[i] == second[i],
    ensures
        spec_decode_wide(first) == spec_decode_wide(second),
{
    lemma_null_position(first);
    lemma_null_position(second);
    assert(until_null(first) =~= until_null(second));
}

} // verus!

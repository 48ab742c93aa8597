//! Little-endian integers in byte strings.
use vstd::prelude::*;

verus! {

/// The `width` low-order base-256 digits of a value, least significant first.
pub open spec fn little_endian(value: nat, width: nat) -> Seq<u8>
    decreases width,
{
    if width == 0 {
        Seq::empty()
    } else {
        seq![(value % 256) as u8] + little_endian(value / 256, (width - 1) as nat)
    }
}

/// The value spelled by base-256 digits, least significant first.
pub open spec fn value_of(digits: Seq<u8>) -> nat
    decreases digits.len(),
{
    if digits.len() == 0 {
        0
    } else {
        digits[0] as nat + 256 * value_of(digits.skip(1))
    }
}

/// 256 to the power `width`.
pub open spec fn reach(width: nat) -> nat
    decreases width,
{
    if width == 0 {
        1
    } else {
        256 * reach((width - 1) as nat)
    }
}

/// The two digit counts in use.
pub proof fn lemma_reach()
    ensures
        reach(4) == 0x1_0000_0000,
        reach(8) == 0x1_0000_0000_0000_0000,
{
    reveal_with_fuel(reach, 9);
}

/// A wider field reaches at least as far.
pub proof fn lemma_reach_grows(narrow: nat, wide: nat)
    requires
        narrow <= wide,
    ensures
        0 < reach(narrow) <= reach(wide),
    decreases wide,
{
    if narrow < wide {
        lemma_reach_grows(narrow, (wide - 1) as nat);
    } else if wide > 0 {
        lemma_reach_grows((narrow - 1) as nat, (wide - 1) as nat);
    }
}

/// A field has its width, and reads back as the value it was written from.
pub proof fn lemma_little_endian(value: nat, width: nat)
    ensures
        little_endian(value, width).len() == width,
        value < reach(width) ==> value_of(little_endian(value, width)) == value,
    decreases width,
{
    if width > 0 {
        let rest = (width - 1) as nat;
        lemma_little_endian(value / 256, rest);
        assert(little_endian(value, width).skip(1) =~= little_endian(value / 256, rest));
        if value < reach(width) {
            assert(value / 256 < reach(rest));
        }
    }
}

/// Digits spell a value within the reach of their count.
pub proof fn lemma_value_bounded(digits: Seq<u8>)
    ensures
        value_of(digits) < reach(digits.len()),
    decreases digits.len(),
{
    if digits.len() > 0 {
        lemma_value_bounded(digits.skip(1));
    }
}

/// Append the low-order bytes of a value.
pub fn push_little_endian(output: &mut Vec<u8>, value: u64, width: usize)
    ensures
        final(output)@ == old(output)@ + little_endian(value as nat, width as nat),
{
    let mut rest: u64 = value;
    let mut left: usize = width;
    assert(output@ + little_endian(rest as nat, left as nat) =~= old(output)@ + little_endian(
        value as nat,
        width as nat,
    ));
    while left > 0
        invariant
            output@ + little_endian(rest as nat, left as nat) == old(output)@ + little_endian(
                value as nat,
                width as nat,
            ),
        decreases left,
    {
        let ghost before = output@;
        output.push((rest % 256) as u8);
        proof {
            let tail = little_endian(rest as nat / 256, (left - 1) as nat);
            assert(before + (seq![(rest as nat % 256) as u8] + tail) =~= output@ + tail);
        }
        rest = rest / 256;
        left -= 1;
    }
    assert(output@ + little_endian(rest as nat, 0) =~= output@);
}

/// Read the value of `width` bytes starting at `at`.
pub fn read_little_endian(bytes: &[u8], at: usize, width: usize) -> (value: u64)
    requires
        at + width <= bytes.len(),
        width <= 8,
    ensures
        value == value_of(bytes@.subrange(at as int, at + width)),
        value < reach(width as nat),
{
    let mut value: u64 = 0;
    let mut index: usize = width;
    assert(bytes@.subrange(at + width, at + width) =~= Seq::<u8>::empty());
    proof {
        lemma_reach();
    }
    while index > 0
        invariant
            index <= width <= 8,
            at + width <= bytes.len(),
            value == value_of(bytes@.subrange(at + index, at + width)),
            reach(8) == 0x1_0000_0000_0000_0000,
        decreases index,
    {
        proof {
            let digits = bytes@.subrange(at + index - 1, at + width);
            lemma_value_bounded(digits);
            lemma_reach_grows(digits.len(), 8);
            assert(digits.skip(1) =~= bytes@.subrange(at + index, at + width));
        }
        index -= 1;
        value = value * 256 + bytes[at + index] as u64;
    }
    proof {
        lemma_value_bounded(bytes@.subrange(at as int, at + width));
    }
    value
}

/// Rendering of a length that does not fit thirty-two bits.
pub uninterp spec fn length_fault(length: usize) -> Seq<char>;

/// `u32::try_from` on a length: succeeds exactly when the length fits, and
/// otherwise gives the rendered conversion error, which [`length_fault`] names.
#[verifier::external_body]
pub(crate) fn narrow_length(length: usize) -> (narrowed: std::result::Result<u32, String>)
    ensures
        match narrowed {
            Ok(value) => value == length,
            Err(fault) => length > u32::MAX && fault@ == length_fault(length),
        },
{
    u32::try_from(length).map_err(|error| error.to_string())
}

/// Append a byte string.
pub fn extend(output: &mut Vec<u8>, bytes: &[u8])
    ensures
        final(output)@ == old(output)@ + bytes@,
{
    output.extend_from_slice(bytes);
    assert(output@ =~= old(output)@ + bytes@);
}

/// Four bytes as a number, the least significant first.
pub open spec fn four(bytes: Seq<u8>, at: int) -> int {
    bytes[at] + 0x100 * bytes[at + 1] + 0x1_0000 * bytes[at + 2] + 0x100_0000 * bytes[at + 3]
}

/// Eight bytes as a number, the least significant first.
pub open spec fn eight(bytes: Seq<u8>, at: int) -> int {
    four(bytes, at) + 0x1_0000_0000 * four(bytes, at + 4)
}

/// A field of four or eight bytes spells its number with the least significant byte first.
pub proof fn law_fields_spell_their_number(bytes: Seq<u8>, at: int)
    requires
        0 <= at,
    ensures
        at + 4 <= bytes.len() ==> value_of(bytes.subrange(at, at + 4)) == four(bytes, at),
        at + 8 <= bytes.len() ==> value_of(bytes.subrange(at, at + 8)) == eight(bytes, at),
{
    reveal_with_fuel(value_of, 9);
}

} // verus!

//! Big-endian byte strings and the numbers they stand for.

use vstd::prelude::*;

verus! {

/// The number that a big-endian byte string stands for.
pub open spec fn be_value(bytes: Seq<u8>) -> nat
    decreases bytes.len(),
{
    if bytes.len() == 0 {
        0
    } else {
        be_value(bytes.drop_last()) * 256 + bytes.last() as nat
    }
}

/// The lowest `width` bytes of `v`, the most significant of them first.
pub open spec fn be_bytes(v: nat, width: nat) -> Seq<u8>
    decreases width,
{
    if width == 0 {
        Seq::empty()
    } else {
        be_bytes(v / 256, (width - 1) as nat).push((v % 256) as u8)
    }
}

/// How many numbers `width` bytes can tell apart: 256 to the power `width`.
pub open spec fn radix(width: nat) -> nat
    decreases width,
{
    if width == 0 {
        1
    } else {
        256 * radix((width - 1) as nat)
    }
}

/// The values of `radix` at the widths of the machine integers and of the
/// addresses.
pub proof fn lemma_radix_values()
    ensures
        radix(0) == 1,
        radix(1) == 0x100,
        radix(2) == 0x1_0000,
        radix(4) == 0x1_0000_0000,
        radix(6) == 0x1_0000_0000_0000,
        radix(8) == 0x1_0000_0000_0000_0000,
        radix(16) == 0x1_0000_0000_0000_0000_0000_0000_0000_0000,
{
    reveal_with_fuel(radix, 17);
}

/// A byte string of `width` bytes comes out of `be_bytes`.
pub proof fn lemma_be_bytes_len(v: nat, width: nat)
    ensures
        be_bytes(v, width).len() == width,
    decreases width,
{
    if width > 0 {
        lemma_be_bytes_len(v / 256, (width - 1) as nat);
    }
}

/// A byte string stands for a number below `radix` of its length.
pub proof fn lemma_be_value_bound(bytes: Seq<u8>)
    ensures
        be_value(bytes) < radix(bytes.len()),
    decreases bytes.len(),
{
    if bytes.len() > 0 {
        lemma_be_value_bound(bytes.drop_last());
        let high = be_value(bytes.drop_last());
        let top = radix((bytes.len() - 1) as nat);
        assert(high * 256 + 255 < 256 * top) by (nonlinear_arith)
            requires
                high < top,
        ;
    }
}

/// Reading back the bytes of a number gives the number, as far as `width`
/// bytes hold it.
pub proof fn lemma_be_value_of_bytes(v: nat, width: nat)
    ensures
        be_value(be_bytes(v, width)) == v % radix(width),
    decreases width,
{
    if width > 0 {
        let rest = be_bytes(v / 256, (width - 1) as nat);
        lemma_be_value_of_bytes(v / 256, (width - 1) as nat);
        assert(be_bytes(v, width).drop_last() =~= rest);
        let top = radix((width - 1) as nat);
        lemma_radix_positive((width - 1) as nat);
        assert(((v / 256) % top) * 256 + v % 256 == v % (256 * top)) by {
            vstd::arithmetic::div_mod::lemma_mod_breakdown(v as int, 256, top as int);
        }
    }
}

/// `radix` is never zero.
pub proof fn lemma_radix_positive(width: nat)
    ensures
        radix(width) > 0,
    decreases width,
{
    if width > 0 {
        lemma_radix_positive((width - 1) as nat);
    }
}

/// Reading back the bytes of a number that `width` bytes can hold gives the
/// number.
pub proof fn lemma_be_round_trip(v: nat, width: nat)
    requires
        v < radix(width),
    ensures
        be_value(be_bytes(v, width)) == v,
{
    lemma_be_value_of_bytes(v, width);
    vstd::arithmetic::div_mod::lemma_small_mod(v, radix(width));
}

/// Writing out the number that a byte string stands for, at the string's
/// own length, gives the string.
pub proof fn lemma_be_bytes_of_value(bytes: Seq<u8>)
    ensures
        be_bytes(be_value(bytes), bytes.len()) == bytes,
    decreases bytes.len(),
{
    if bytes.len() > 0 {
        lemma_be_bytes_of_value(bytes.drop_last());
        let high = be_value(bytes.drop_last());
        let low = bytes.last() as nat;
        assert((high * 256 + low) / 256 == high && (high * 256 + low) % 256 == low) by {
            vstd::arithmetic::div_mod::lemma_fundamental_div_mod_converse(
                (high * 256 + low) as int,
                256,
                high as int,
                low as int,
            );
        }
        assert(be_bytes(be_value(bytes), bytes.len()) =~= bytes);
    } else {
        assert(be_bytes(be_value(bytes), bytes.len()) =~= bytes);
    }
}

/// Two bytes stand for the high byte times 256 plus the low byte, and a
/// 16-bit number is written as its quotient and remainder by 256.
pub proof fn lemma_be16(v: u16, msb: u8, lsb: u8)
    ensures
        be_bytes(v as nat, 2) == seq![(v / 256) as u8, (v % 256) as u8],
        be_value(seq![msb, lsb]) == msb * 256 + lsb,
{
    reveal_with_fuel(be_bytes, 3);
    reveal_with_fuel(be_value, 3);
    assert(be_bytes(v as nat, 2) =~= seq![(v / 256) as u8, (v % 256) as u8]);
    let s = seq![msb, lsb];
    assert(s.drop_last() =~= seq![msb]);
    assert(s.drop_last().drop_last() =~= Seq::<u8>::empty());
}

/// Writes the lowest `width` bytes of `v` to the front of `buf`, the most
/// significant of them first.
pub fn write_be(buf: &mut [u8], v: u128, width: usize)
    requires
        width <= old(buf)@.len(),
    ensures
        final(buf)@ == be_bytes(v as nat, width as nat) + old(buf)@.skip(width as int),
{
    let mut rest = v;
    let mut i = width;
    while i > 0
        invariant
            i <= width <= buf@.len(),
            buf@.len() == old(buf)@.len(),
            buf@.skip(width as int) == old(buf)@.skip(width as int),
            forall|j: int| 0 <= j < i ==> buf@[j] == old(buf)@[j],
            be_bytes(v as nat, width as nat) == be_bytes(rest as nat, i as nat) + buf@.subrange(
                i as int,
                width as int,
            ),
        decreases i,
    {
        let ghost before = buf@;
        i -= 1;
        buf[i] = (rest % 256) as u8;
        proof {
            let low = (rest % 256) as u8;
            assert(buf@.skip(width as int) =~= before.skip(width as int));
            assert(buf@.subrange(i as int, width as int) =~= seq![low] + before.subrange(
                i + 1,
                width as int,
            ));
            assert(be_bytes(rest as nat, (i + 1) as nat) == be_bytes(
                (rest / 256) as nat,
                i as nat,
            ).push(low));
            assert(be_bytes((rest / 256) as nat, i as nat).push(low) + before.subrange(
                i + 1,
                width as int,
            ) =~= be_bytes((rest / 256) as nat, i as nat) + (seq![low] + before.subrange(
                i + 1,
                width as int,
            )));
        }
        rest = rest / 256;
    }
    proof {
        assert(be_bytes(rest as nat, 0) =~= Seq::<u8>::empty());
        assert(buf@ =~= be_bytes(v as nat, width as nat) + old(buf)@.skip(width as int));
    }
}

/// Reads the number that the first `width` bytes of `buf` stand for.
pub fn read_be(buf: &[u8], width: usize) -> (v: u128)
    requires
        width <= 16,
        width <= buf@.len(),
    ensures
        v == be_value(buf@.take(width as int)),
{
    let mut v: u128 = 0;
    let mut i: usize = 0;
    while i < width
        invariant
            i <= width <= 16,
            width <= buf@.len(),
            v == be_value(buf@.take(i as int)),
        decreases width - i,
    {
        proof {
            let next = buf@.take(i + 1);
            assert(next.drop_last() =~= buf@.take(i as int));
            lemma_be_value_bound(buf@.take(i as int));
            lemma_be_value_bound(next);
            lemma_radix_monotone((i + 1) as nat, 16);
            lemma_radix_values();
        }
        v = v * 256 + buf[i] as u128;
        i += 1;
    }
    v
}

/// More bytes tell more numbers apart.
pub proof fn lemma_radix_monotone(a: nat, b: nat)
    requires
        a <= b,
    ensures
        radix(a) <= radix(b),
    decreases b,
{
    if a < b {
        lemma_radix_monotone(a, (b - 1) as nat);
        lemma_radix_positive((b - 1) as nat);
    }
}

} // verus!

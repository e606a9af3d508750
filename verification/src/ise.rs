//! ASTC integer sequence encoding: sequences of small integers are packed
//! with binary, trit (base-3) or quint (base-5) radixes, selected by the
//! requested value range, to hit non-power-of-two bit budgets.

use vstd::prelude::*;

use crate::bits::spec_mask_from;
use crate::bits::spec_or_words;
use crate::bits::spec_set_bits;
use crate::bits::spec_zero_block;
use crate::bits::set_bits;

verus! {

/// Per-range encoding shape: how many plain bits, trits and quints carry one
/// value of the range. At most one of the trit and quint counts is 1.
pub open spec fn spec_range_info(range: int) -> (int, int, int) {
    if range == 0 {
        (1, 0, 0)
    } else if range == 1 {
        (0, 1, 0)
    } else if range == 2 {
        (2, 0, 0)
    } else if range == 3 {
        (0, 0, 1)
    } else if range == 4 {
        (1, 1, 0)
    } else if range == 5 {
        (3, 0, 0)
    } else if range == 6 {
        (1, 0, 1)
    } else if range == 7 {
        (2, 1, 0)
    } else if range == 8 {
        (4, 0, 0)
    } else if range == 9 {
        (2, 0, 1)
    } else if range == 10 {
        (3, 1, 0)
    } else if range == 11 {
        (5, 0, 0)
    } else if range == 12 {
        (3, 0, 1)
    } else if range == 13 {
        (4, 1, 0)
    } else if range == 14 {
        (6, 0, 0)
    } else if range == 15 {
        (4, 0, 1)
    } else if range == 16 {
        (5, 1, 0)
    } else if range == 17 {
        (7, 0, 0)
    } else if range == 18 {
        (5, 0, 1)
    } else if range == 19 {
        (6, 1, 0)
    } else {
        (8, 0, 0)
    }
}

/// Number of representable values of a range: `2^bits * 3^trits * 5^quints`.
pub open spec fn spec_levels(range: int) -> int {
    if range == 0 {
        2
    } else if range == 1 {
        3
    } else if range == 2 {
        4
    } else if range == 3 {
        5
    } else if range == 4 {
        6
    } else if range == 5 {
        8
    } else if range == 6 {
        10
    } else if range == 7 {
        12
    } else if range == 8 {
        16
    } else if range == 9 {
        20
    } else if range == 10 {
        24
    } else if range == 11 {
        32
    } else if range == 12 {
        40
    } else if range == 13 {
        48
    } else if range == 14 {
        64
    } else if range == 15 {
        80
    } else if range == 16 {
        96
    } else if range == 17 {
        128
    } else if range == 18 {
        160
    } else if range == 19 {
        192
    } else {
        256
    }
}

fn range_info(range: usize) -> (r: (usize, usize, usize))
    requires
        range <= 20,
    ensures
        (r.0 as int, r.1 as int, r.2 as int) == spec_range_info(range as int),
{
    match range {
        0 => (1, 0, 0),
        1 => (0, 1, 0),
        2 => (2, 0, 0),
        3 => (0, 0, 1),
        4 => (1, 1, 0),
        5 => (3, 0, 0),
        6 => (1, 0, 1),
        7 => (2, 1, 0),
        8 => (4, 0, 0),
        9 => (2, 0, 1),
        10 => (3, 1, 0),
        11 => (5, 0, 0),
        12 => (3, 0, 1),
        13 => (4, 1, 0),
        14 => (6, 0, 0),
        15 => (4, 0, 1),
        16 => (5, 1, 0),
        17 => (7, 0, 0),
        18 => (5, 0, 1),
        19 => (6, 1, 0),
        _ => (8, 0, 0),
    }
}

/// Exact number of bits that a sequence of `count` values of the given range
/// occupies: plain bits per value, plus 8 bits per 5 trit-coded values and 7
/// bits per 3 quint-coded values, partial groups rounded to the bits needed.
pub open spec fn spec_sequence_bits(count: int, range: int) -> int {
    let (bits, trits, quints) = spec_range_info(range);
    count * bits + (count * trits * 8 + 4) / 5 + (count * quints * 7 + 2) / 3
}

/// Bits the encoder writes before masking: trit and quint groups are always
/// emitted whole, so a partial trailing group writes slightly past the exact
/// budget `spec_sequence_bits` (the excess is then forced back to zero).
pub open spec fn spec_padded_bits(count: int, range: int) -> int {
    let (bits, trits, quints) = spec_range_info(range);
    if trits == 1 {
        ((count + 4) / 5) * (8 + 5 * bits)
    } else if quints == 1 {
        ((count + 2) / 3) * (7 + 3 * bits)
    } else {
        count * bits
    }
}

/// Shape facts about the range table that callers rely on.
pub proof fn lemma_range_info_bounds(range: int)
    requires
        0 <= range <= 20,
    ensures
        ({
            let (bits, trits, quints) = spec_range_info(range);
            &&& 0 <= bits <= 8
            &&& (trits == 0 || trits == 1)
            &&& (quints == 0 || quints == 1)
            &&& trits + quints <= 1
            &&& (trits == 1 ==> bits <= 6)
            &&& (quints == 1 ==> bits <= 5)
            &&& (trits == 0 && quints == 0 ==> 1 <= bits)
            &&& (range <= 11 ==> bits <= 5)
        }),
{
}

/// The whole groups never overrun the exact budget by more than the bits of
/// one group's worth of padding values.
pub proof fn lemma_padded_bits_close(count: int, range: int)
    requires
        1 <= count,
        0 <= range <= 20,
    ensures
        spec_padded_bits(count, range) <= spec_sequence_bits(count, range) + 4 * spec_range_info(
            range,
        ).0 + 6,
{
    let (bits, trits, quints) = spec_range_info(range);
    lemma_range_info_bounds(range);
    if trits == 1 {
        let q = (count + 4) / 5;
        assert(5 * q <= count + 4);
        assert(q * (8 + 5 * bits) == 8 * q + 5 * q * bits) by (nonlinear_arith);
        assert(5 * q * bits <= count * bits + 4 * bits) by (nonlinear_arith)
            requires
                5 * q <= count + 4,
                bits >= 0,
        ;
        assert((count * 8 + 4) / 5 >= 8 * q - 6);
    } else if quints == 1 {
        let q = (count + 2) / 3;
        assert(3 * q <= count + 2);
        assert(q * (7 + 3 * bits) == 7 * q + 3 * q * bits) by (nonlinear_arith);
        assert(3 * q * bits <= count * bits + 2 * bits) by (nonlinear_arith)
            requires
                3 * q <= count + 2,
                bits >= 0,
        ;
        assert((count * 7 + 2) / 3 >= 7 * q - 4);
    }
}

pub fn sequence_bits(count: usize, range: usize) -> (r: usize)
    requires
        count <= 64,
        range <= 20,
    ensures
        r as int == spec_sequence_bits(count as int, range as int),
        r <= 1024,
{
    let (bits, trits, quints) = range_info(range);
    proof {
        lemma_range_info_bounds(range as int);
    }
    count * bits + (count * trits * 8 + 4) / 5 + (count * quints * 7 + 2) / 3
}

/// The field of `input` from bit `b` up to and including bit `a`.
pub open spec fn spec_get_field(input: u32, a: u32, b: u32) -> u32
    recommends
        b <= a,
        a - b <= 30,
{
    (input >> b) & (((1u32 << ((a - b + 1) as u32)) - 1) as u32)
}

fn get_field(input: u32, a: u32, b: u32) -> (r: u32)
    requires
        b <= a <= 31,
        a - b <= 7,
    ensures
        r == spec_get_field(input, a, b),
        r <= 255,
{
    let w: u32 = a - b + 1;
    proof {
        assert(1u32 << w >= 1 && (1u32 << w) - 1 <= 255) by (bit_vector)
            requires
                1 <= w <= 8,
        ;
    }
    let m: u32 = (1u32 << w) - 1;
    let r = (input >> b) & m;
    proof {
        assert(((input >> b) & m) <= m) by (bit_vector);
    }
    r
}

fn get_bit(input: u32, a: u32) -> (r: u32)
    requires
        a <= 31,
    ensures
        r == spec_get_field(input, a, a),
        r <= 255,
{
    get_field(input, a, a)
}

/// The low `n` bits of a value.
pub open spec fn spec_low_part(v: u32, n: u32) -> u32
    recommends
        n <= 30,
{
    v & (((1u32 << n) - 1) as u32)
}

/// The radix digit above the low `n` bits.
pub open spec fn spec_high_part(v: u32, n: u32) -> u32 {
    v >> n
}

fn high_part(v: u32, n: u32) -> (r: u32)
    requires
        n <= 30,
    ensures
        r == spec_high_part(v, n),
        r <= v,
{
    proof {
        assert((v >> n) <= v) by (bit_vector);
    }
    v >> n
}

fn low_part(v: u32, n: u32) -> (r: u32)
    requires
        n <= 30,
    ensures
        r == spec_low_part(v, n),
        r <= v,
{
    proof {
        assert(1u32 << n >= 1) by (bit_vector)
            requires
                n <= 30,
        ;
        assert((v & (((1u32 << n) - 1) as u32)) <= v) by (bit_vector);
    }
    v & ((1u32 << n) - 1)
}

/// The combined base-243 code of five ternary digits, as the ASTC
/// specification's nonlinear table defines it (adjacent digits equal to 2
/// collapse into shorter codes).
pub open spec fn spec_trits_c(t0: u32, t1: u32, t2: u32) -> u32 {
    if t1 == 2 && t2 == 2 {
        (3 * 4 + t0) as u32
    } else if t2 == 2 {
        (t1 * 16 + t0 * 4 + 3) as u32
    } else {
        (t2 * 16 + t1 * 4 + t0) as u32
    }
}

pub open spec fn spec_trits_t(c: u32, t3: u32, t4: u32) -> u32 {
    if t3 == 2 && t4 == 2 {
        (spec_get_field(c, 4, 2) * 32 + 7 * 4 + spec_get_field(c, 1, 0)) as u32
    } else if t4 == 2 {
        (spec_get_field(c, 4, 0) + (t3 * 128 + 3 * 32)) as u32
    } else {
        (spec_get_field(c, 4, 0) + (t4 * 128 + t3 * 32)) as u32
    }
}

/// The combined code of a whole trit group.
pub open spec fn spec_trit_group_t(g: Seq<u32>, n: u32) -> u32 {
    spec_trits_t(
        spec_trits_c(
            spec_high_part(g[0], n),
            spec_high_part(g[1], n),
            spec_high_part(g[2], n),
        ),
        spec_high_part(g[3], n),
        spec_high_part(g[4], n),
    )
}

/// First emitted field of a trit group: `2 + 2n` bits interleaving the low
/// bits of the first two values with the low bits of the combined code.
pub open spec fn spec_five_trits_pack1(g: Seq<u32>, n: u32) -> u32 {
    let t = spec_trit_group_t(g, n);
    spec_low_part(g[0], n) | (spec_get_field(t, 1, 0) << n) | (spec_low_part(g[1], n) << ((2 + n)
        as u32))
}

/// Second emitted field of a trit group: `6 + 3n` bits carrying the last
/// three values' low bits and the rest of the combined code.
pub open spec fn spec_five_trits_pack2(g: Seq<u32>, n: u32) -> u32 {
    let t = spec_trit_group_t(g, n);
    spec_get_field(t, 3, 2) | (spec_low_part(g[2], n) << 2u32) | (spec_get_field(t, 4, 4) << ((2
        + n) as u32)) | (spec_low_part(g[3], n) << ((3 + n) as u32)) | (spec_get_field(t, 6, 5) << (
    (3 + 2 * n) as u32)) | (spec_low_part(g[4], n) << ((5 + 2 * n) as u32)) | (spec_get_field(
        t,
        7,
        7,
    ) << ((5 + 3 * n) as u32))
}

/// Packs five values of a trit range as one group: the five ternary digits
/// combine into one 8-bit code, emitted as two bit fields around the values'
/// plain low bits.
fn pack_five_trits(data: &mut [u32; 4], sequence: &[u32; 5], pos: &mut usize, n: usize)
    requires
        n <= 6,
        *old(pos) + 8 + 5 * n <= 128,
        forall|i: int| 0 <= i < 5 ==> sequence@[i] <= 255,
    ensures
        *final(pos) == *old(pos) + 8 + 5 * n,
        final(data)@ == spec_set_bits(
            spec_set_bits(old(data)@, *old(pos) as int, spec_five_trits_pack1(sequence@, n as u32)),
            *old(pos) + 2 + 2 * n,
            spec_five_trits_pack2(sequence@, n as u32),
        ),
{
    let nb: u32 = n as u32;
    let t0: u32 = high_part(sequence[0], nb);
    let t1: u32 = high_part(sequence[1], nb);
    let t2: u32 = high_part(sequence[2], nb);
    let t3: u32 = high_part(sequence[3], nb);
    let t4: u32 = high_part(sequence[4], nb);
    let m0: u32 = low_part(sequence[0], nb);
    let m1: u32 = low_part(sequence[1], nb);
    let m2: u32 = low_part(sequence[2], nb);
    let m3: u32 = low_part(sequence[3], nb);
    let m4: u32 = low_part(sequence[4], nb);

    let c: u32 = if t1 == 2 && t2 == 2 {
        3 * 4 + t0
    } else if t2 == 2 {
        t1 * 16 + t0 * 4 + 3
    } else {
        t2 * 16 + t1 * 4 + t0
    };

    let big_t: u32 = if t3 == 2 && t4 == 2 {
        get_field(c, 4, 2) * 32 + 7 * 4 + get_field(c, 1, 0)
    } else if t4 == 2 {
        get_field(c, 4, 0) + (t3 * 128 + 3 * 32)
    } else {
        get_field(c, 4, 0) + (t4 * 128 + t3 * 32)
    };

    let mut pack1: u32 = m0;
    pack1 = pack1 | (get_field(big_t, 1, 0) << nb);
    pack1 = pack1 | (m1 << ((2 + nb) as u32));

    let mut pack2: u32 = get_field(big_t, 3, 2);
    pack2 = pack2 | (m2 << 2u32);
    pack2 = pack2 | (get_field(big_t, 4, 4) << ((2 + nb) as u32));
    pack2 = pack2 | (m3 << ((3 + nb) as u32));
    pack2 = pack2 | (get_field(big_t, 6, 5) << ((3 + 2 * nb) as u32));
    pack2 = pack2 | (m4 << ((5 + 2 * nb) as u32));
    pack2 = pack2 | (get_field(big_t, 7, 7) << ((5 + 3 * nb) as u32));

    assert(pack1 == spec_five_trits_pack1(sequence@, nb));
    assert(pack2 == spec_five_trits_pack2(sequence@, nb));

    set_bits(data, pos, 2 + n * 2, pack1);
    set_bits(data, pos, 6 + n * 3, pack2);
}

/// The combined base-125 code of three quinary digits.
pub open spec fn spec_quints_c(q0: u32, q1: u32) -> u32 {
    if q1 == 4 {
        ((q0 << 3u32) + 5) as u32
    } else {
        ((q1 << 3u32) + q0) as u32
    }
}

pub open spec fn spec_quints_q(q0: u32, q1: u32, q2: u32) -> u32 {
    if q0 == 4 && q1 == 4 {
        (spec_get_field(q2, 1, 0) * 8 + 3 * 2 + spec_get_field(q2, 2, 2)) as u32
    } else {
        let c = spec_quints_c(q0, q1);
        if q2 == 4 {
            (spec_get_field(!c, 2, 1) * 32 + spec_get_field(c, 4, 3) * 8 + 3 * 2 + spec_get_field(
                c,
                0,
                0,
            )) as u32
        } else {
            (q2 * 32 + spec_get_field(c, 4, 0)) as u32
        }
    }
}

pub open spec fn spec_quint_group_q(g: Seq<u32>, n: u32) -> u32 {
    spec_quints_q(spec_high_part(g[0], n), spec_high_part(g[1], n), spec_high_part(g[2], n))
}

/// The single emitted field of a quint group: `7 + 3n` bits interleaving the
/// three values' low bits with the combined code.
pub open spec fn spec_three_quints_pack(g: Seq<u32>, n: u32) -> u32 {
    let q = spec_quint_group_q(g, n);
    spec_low_part(g[0], n) | (spec_get_field(q, 2, 0) << n) | (spec_low_part(g[1], n) << ((3 + n)
        as u32)) | (spec_get_field(q, 4, 3) << ((3 + 2 * n) as u32)) | (spec_low_part(g[2], n) << (
    (5 + 2 * n) as u32)) | (spec_get_field(q, 6, 5) << ((5 + 3 * n) as u32))
}

/// Packs three values of a quint range as one group: the three quinary
/// digits combine into one 7-bit code, emitted as a single bit field around
/// the values' plain low bits.
fn pack_three_quint(data: &mut [u32; 4], sequence: &[u32; 3], pos: &mut usize, n: usize)
    requires
        n <= 5,
        *old(pos) + 7 + 3 * n <= 128,
        forall|i: int| 0 <= i < 3 ==> sequence@[i] <= 255,
    ensures
        *final(pos) == *old(pos) + 7 + 3 * n,
        final(data)@ == spec_set_bits(
            old(data)@,
            *old(pos) as int,
            spec_three_quints_pack(sequence@, n as u32),
        ),
{
    let nb: u32 = n as u32;
    let q0: u32 = high_part(sequence[0], nb);
    let q1: u32 = high_part(sequence[1], nb);
    let q2: u32 = high_part(sequence[2], nb);
    let m0: u32 = low_part(sequence[0], nb);
    let m1: u32 = low_part(sequence[1], nb);
    let m2: u32 = low_part(sequence[2], nb);

    proof {
        assert(q0 <= 255 ==> (q0 << 3u32) <= 2040) by (bit_vector);
        assert(q1 <= 255 ==> (q1 << 3u32) <= 2040) by (bit_vector);
    }
    let big_q: u32 = if q0 == 4 && q1 == 4 {
        get_field(q2, 1, 0) * 8 + 3 * 2 + get_bit(q2, 2)
    } else {
        let c: u32 = if q1 == 4 {
            (q0 << 3u32) + 5
        } else {
            (q1 << 3u32) + q0
        };

        if q2 == 4 {
            get_field(!c, 2, 1) * 32 + get_field(c, 4, 3) * 8 + 3 * 2 + get_bit(c, 0)
        } else {
            q2 * 32 + get_field(c, 4, 0)
        }
    };

    let mut pack: u32 = m0;
    pack = pack | (get_field(big_q, 2, 0) << nb);
    pack = pack | (m1 << ((3 + nb) as u32));
    pack = pack | (get_field(big_q, 4, 3) << ((3 + 2 * nb) as u32));
    pack = pack | (m2 << ((5 + 2 * nb) as u32));
    pack = pack | (get_field(big_q, 6, 5) << ((5 + 3 * nb) as u32));

    assert(pack == spec_three_quints_pack(sequence@, nb));

    set_bits(data, pos, 7 + n * 3, pack);
}

/// The used values of an input slice, widened to words.
pub open spec fn spec_map_vals(s: Seq<u8>, count: int) -> Seq<u32>
    recommends
        0 <= count <= s.len(),
{
    Seq::new(count as nat, |i: int| s[i] as u32)
}

/// One radix group of the sequence, padded with zero values past its end.
pub open spec fn spec_group_vals(vals: Seq<u32>, start: int, len: int) -> Seq<u32> {
    Seq::new(len as nat, |i: int| if start + i < vals.len() { vals[start + i] } else { 0u32 })
}

/// The block after the trit groups from `j` onward are written, each group
/// occupying `8 + 5n` bits in two fields.
pub open spec fn spec_trit_chunks(
    d: Seq<u32>,
    vals: Seq<u32>,
    j: int,
    groups: int,
    pos: int,
    n: u32,
) -> Seq<u32>
    decreases groups - j,
{
    if j >= groups {
        d
    } else {
        let g = spec_group_vals(vals, j * 5, 5);
        let p = pos + j * (8 + 5 * n);
        let d2 = spec_set_bits(
            spec_set_bits(d, p, spec_five_trits_pack1(g, n)),
            p + 2 + 2 * n,
            spec_five_trits_pack2(g, n),
        );
        spec_trit_chunks(d2, vals, j + 1, groups, pos, n)
    }
}

/// The block after the quint groups from `j` onward are written, each group
/// occupying `7 + 3n` bits in one field.
pub open spec fn spec_quint_chunks(
    d: Seq<u32>,
    vals: Seq<u32>,
    j: int,
    groups: int,
    pos: int,
    n: u32,
) -> Seq<u32>
    decreases groups - j,
{
    if j >= groups {
        d
    } else {
        let g = spec_group_vals(vals, j * 3, 3);
        let p = pos + j * (7 + 3 * n);
        let d2 = spec_set_bits(d, p, spec_three_quints_pack(g, n));
        spec_quint_chunks(d2, vals, j + 1, groups, pos, n)
    }
}

/// The block after the plain binary values from `j` onward are written, `n`
/// bits each.
pub open spec fn spec_bit_chunks(
    d: Seq<u32>,
    vals: Seq<u32>,
    j: int,
    count: int,
    pos: int,
    n: u32,
) -> Seq<u32>
    decreases count - j,
{
    if j >= count {
        d
    } else {
        spec_bit_chunks(spec_set_bits(d, pos + j * n, vals[j]), vals, j + 1, count, pos, n)
    }
}

/// The encoded bit image of an integer sequence, in place: the radix groups
/// written into an all-zero block starting at bit `pos`, with every bit at or
/// past `pos + spec_sequence_bits(count, range)` forced back to zero, so that
/// a partial trailing group cannot leak into neighboring fields.
pub open spec fn spec_ise_words(vals: Seq<u32>, pos: int, count: int, range: int) -> Seq<u32>
    recommends
        vals.len() == count,
        1 <= count,
        0 <= range <= 20,
        0 < pos + spec_sequence_bits(count, range) < 128,
{
    let (bits, trits, quints) = spec_range_info(range);
    let raw = if trits == 1 {
        spec_trit_chunks(spec_zero_block(), vals, 0, (count + 4) / 5, pos, bits as u32)
    } else if quints == 1 {
        spec_quint_chunks(spec_zero_block(), vals, 0, (count + 2) / 3, pos, bits as u32)
    } else {
        spec_bit_chunks(spec_zero_block(), vals, 0, count, pos, bits as u32)
    };
    spec_mask_from(raw, pos + spec_sequence_bits(count, range))
}

/// Encodes `count` values of the given range into their exact bit budget at
/// bit position `pos`, and ORs the result into the block: binary, trit or
/// quint packing as the range demands, any output bits beyond the budget
/// forced to zero.
pub(crate) fn pack_integer_sequence(
    output_data: &mut [u32; 4],
    sequence: &[u8],
    pos: usize,
    count: usize,
    range: usize,
)
    requires
        range <= 20,
        1 <= count <= 64,
        sequence@.len() >= count,
        pos + spec_padded_bits(count as int, range as int) <= 128,
        pos + spec_sequence_bits(count as int, range as int) < 128,
    ensures
        final(output_data)@ == spec_or_words(
            old(output_data)@,
            spec_ise_words(
                spec_map_vals(sequence@, count as int),
                pos as int,
                count as int,
                range as int,
            ),
        ),
{
    let ghost vals = spec_map_vals(sequence@, count as int);
    let (n, trits, quints) = range_info(range);
    proof {
        lemma_range_info_bounds(range as int);
    }
    let bits = sequence_bits(count, range);
    let pos0 = pos;

    let mut data: [u32; 4] = [0; 4];
    let mut current_pos = pos;
    assert(data@ =~= spec_zero_block());

    if trits == 1 {
        let groups = (count + 4) / 5;
        let mut j: usize = 0;
        while j < groups
            invariant
                trits == 1,
                spec_range_info(range as int) == (n as int, trits as int, quints as int),
                n <= 6,
                j <= groups,
                groups == (count + 4) / 5,
                1 <= count <= 64,
                sequence@.len() >= count,
                vals == spec_map_vals(sequence@, count as int),
                pos0 + spec_padded_bits(count as int, range as int) <= 128,
                current_pos == pos0 + j * (8 + 5 * n),
                spec_trit_chunks(data@, vals, j as int, groups as int, pos0 as int, n as u32)
                    == spec_trit_chunks(
                    spec_zero_block(),
                    vals,
                    0,
                    groups as int,
                    pos0 as int,
                    n as u32,
                ),
            decreases groups - j,
        {
            let mut temp: [u32; 5] = [0; 5];
            let base = j * 5;
            proof {
                assert(base + 5 <= groups * 5) by (nonlinear_arith)
                    requires
                        j < groups,
                        base == j * 5,
                ;
                assert(groups * 5 <= count + 4);
            }
            let lim = if count - base < 5 {
                count - base
            } else {
                5
            };
            let mut i: usize = 0;
            while i < lim
                invariant
                    i <= lim <= 5,
                    base == j * 5,
                    base + lim <= count,
                    lim == if count - base < 5 { count - base as int } else { 5int },
                    sequence@.len() >= count,
                    vals == spec_map_vals(sequence@, count as int),
                    forall|k: int| 0 <= k < i ==> temp@[k] == vals[base + k],
                    forall|k: int| i <= k < 5 ==> temp@[k] == 0,
                decreases lim - i,
            {
                temp[i] = sequence[base + i] as u32;
                i = i + 1;
            }
            proof {
                assert forall|k: int| 0 <= k < 5 implies temp@[k] == spec_group_vals(
                    vals,
                    base as int,
                    5,
                )[k] by {
                    if k < lim {
                        assert(base + k < count);
                    } else {
                        assert(base + k >= count);
                    }
                }
                assert(temp@ =~= spec_group_vals(vals, j * 5, 5));
                assert((j + 1) * (8 + 5 * n) <= groups * (8 + 5 * n) && (j + 1) * (8 + 5 * n)
                    == j * (8 + 5 * n) + (8 + 5 * n)) by (nonlinear_arith)
                    requires
                        j + 1 <= groups,
                        n >= 0,
                ;
                assert(groups * (8 + 5 * n) == spec_padded_bits(count as int, range as int));
            }
            pack_five_trits(&mut data, &temp, &mut current_pos, n);
            j = j + 1;
        }
        assert(data@ == spec_trit_chunks(
            spec_zero_block(),
            vals,
            0,
            groups as int,
            pos0 as int,
            n as u32,
        ));
    } else if quints == 1 {
        let groups = (count + 2) / 3;
        let mut j: usize = 0;
        while j < groups
            invariant
                quints == 1,
                spec_range_info(range as int) == (n as int, trits as int, quints as int),
                n <= 5,
                j <= groups,
                groups == (count + 2) / 3,
                1 <= count <= 64,
                sequence@.len() >= count,
                vals == spec_map_vals(sequence@, count as int),
                pos0 + spec_padded_bits(count as int, range as int) <= 128,
                current_pos == pos0 + j * (7 + 3 * n),
                spec_quint_chunks(data@, vals, j as int, groups as int, pos0 as int, n as u32)
                    == spec_quint_chunks(
                    spec_zero_block(),
                    vals,
                    0,
                    groups as int,
                    pos0 as int,
                    n as u32,
                ),
            decreases groups - j,
        {
            let mut temp: [u32; 3] = [0; 3];
            let base = j * 3;
            proof {
                assert(base + 3 <= groups * 3) by (nonlinear_arith)
                    requires
                        j < groups,
                        base == j * 3,
                ;
                assert(groups * 3 <= count + 2);
            }
            let lim = if count - base < 3 {
                count - base
            } else {
                3
            };
            let mut i: usize = 0;
            while i < lim
                invariant
                    i <= lim <= 3,
                    base == j * 3,
                    base + lim <= count,
                    lim == if count - base < 3 { count - base as int } else { 3int },
                    sequence@.len() >= count,
                    vals == spec_map_vals(sequence@, count as int),
                    forall|k: int| 0 <= k < i ==> temp@[k] == vals[base + k],
                    forall|k: int| i <= k < 3 ==> temp@[k] == 0,
                decreases lim - i,
            {
                temp[i] = sequence[base + i] as u32;
                i = i + 1;
            }
            proof {
                assert forall|k: int| 0 <= k < 3 implies temp@[k] == spec_group_vals(
                    vals,
                    base as int,
                    3,
                )[k] by {
                    if k < lim {
                        assert(base + k < count);
                    } else {
                        assert(base + k >= count);
                    }
                }
                assert(temp@ =~= spec_group_vals(vals, j * 3, 3));
                assert((j + 1) * (7 + 3 * n) <= groups * (7 + 3 * n) && (j + 1) * (7 + 3 * n)
                    == j * (7 + 3 * n) + (7 + 3 * n)) by (nonlinear_arith)
                    requires
                        j + 1 <= groups,
                        n >= 0,
                ;
                assert(groups * (7 + 3 * n) == spec_padded_bits(count as int, range as int));
            }
            pack_three_quint(&mut data, &temp, &mut current_pos, n);
            j = j + 1;
        }
        assert(data@ == spec_quint_chunks(
            spec_zero_block(),
            vals,
            0,
            groups as int,
            pos0 as int,
            n as u32,
        ));
    } else {
        let mut i: usize = 0;
        while i < count
            invariant
                trits == 0 && quints == 0,
                spec_range_info(range as int) == (n as int, trits as int, quints as int),
                1 <= n <= 8,
                i <= count <= 64,
                sequence@.len() >= count,
                vals == spec_map_vals(sequence@, count as int),
                pos0 + spec_padded_bits(count as int, range as int) <= 128,
                current_pos == pos0 + i * n,
                spec_bit_chunks(data@, vals, i as int, count as int, pos0 as int, n as u32)
                    == spec_bit_chunks(
                    spec_zero_block(),
                    vals,
                    0,
                    count as int,
                    pos0 as int,
                    n as u32,
                ),
            decreases count - i,
        {
            proof {
                assert((i + 1) * n <= count * n && (i + 1) * n == i * n + n) by (nonlinear_arith)
                    requires
                        i + 1 <= count,
                        n >= 0,
                ;
                assert(count * n == spec_padded_bits(count as int, range as int));
            }
            set_bits(&mut data, &mut current_pos, n, sequence[i] as u32);
            i = i + 1;
        }
        assert(data@ == spec_bit_chunks(
            spec_zero_block(),
            vals,
            0,
            count as int,
            pos0 as int,
            n as u32,
        ));
    }

    let ghost raw = data@;
    let end = pos0 + bits;
    if end < 96 {
        data[3] = 0;
    }
    if end < 64 {
        data[2] = 0;
    }
    if end < 32 {
        data[1] = 0;
    }
    let wend = end / 32;
    let endb: u32 = (end % 32) as u32;
    proof {
        assert(1u32 << endb >= 1 && (endb == 0 ==> (1u32 << endb) - 1 == 0)) by (bit_vector)
            requires
                endb < 32,
        ;
        assert(forall|x: u32| #[trigger] (x & 0u32) == 0u32) by (bit_vector);
    }
    data[wend] = data[wend] & ((1u32 << endb) - 1);
    proof {
        assert(data@ =~= spec_mask_from(raw, end as int));
    }

    let mut k: usize = 0;
    while k < 4
        invariant
            k <= 4,
            data@ == spec_mask_from(raw, (pos0 + bits) as int),
            forall|i: int| 0 <= i < k ==> output_data@[i] == (old(output_data)@[i] | data@[i]),
            forall|i: int| k <= i < 4 ==> output_data@[i] == old(output_data)@[i],
        decreases 4 - k,
    {
        output_data[k] = output_data[k] | data[k];
        k = k + 1;
    }
    assert(output_data@ =~= spec_or_words(
        old(output_data)@,
        spec_ise_words(vals, pos0 as int, count as int, range as int),
    ));
}

} // verus!

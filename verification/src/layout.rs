//! How a half of the state lies in registers, and what the steps of the
//! permutation are when they are taken register by register.

use vstd::prelude::*;
use crate::lanes::{
    last_one, lemma_swap_concat, lemma_swap_halves, lemma_words_concat, room, words_zext, zeros,
};
use crate::params::Params;
use crate::permutation::{
    bytes_to_words, lemma_xor_index, subround, words_add, words_rotl, words_swap, words_to_bytes,
    words_xor, State,
};
use crate::sponge::{flip, seed_state, xor_block};

verus! {

/// A half of the state in four registers of four lanes.
pub open spec fn half4(x0: Seq<u32>, x1: Seq<u32>, x2: Seq<u32>, x3: Seq<u32>) -> Seq<u32> {
    (x0 + x1) + (x2 + x3)
}

/// A half of the state in two registers of eight lanes.
pub open spec fn half2(x0: Seq<u32>, x1: Seq<u32>) -> Seq<u32> {
    x0 + x1
}

/// The lane-wise operations on a half in four registers are the operations
/// on each register.
pub proof fn lemma_half4_words(
    x0: Seq<u32>,
    x1: Seq<u32>,
    x2: Seq<u32>,
    x3: Seq<u32>,
    y0: Seq<u32>,
    y1: Seq<u32>,
    y2: Seq<u32>,
    y3: Seq<u32>,
    n: u32,
)
    requires
        x0.len() == 4 && x1.len() == 4 && x2.len() == 4 && x3.len() == 4,
        y0.len() == 4 && y1.len() == 4 && y2.len() == 4 && y3.len() == 4,
    ensures
        words_add(half4(x0, x1, x2, x3), half4(y0, y1, y2, y3)) == half4(
            words_add(x0, y0),
            words_add(x1, y1),
            words_add(x2, y2),
            words_add(x3, y3),
        ),
        words_xor(half4(x0, x1, x2, x3), half4(y0, y1, y2, y3)) == half4(
            words_xor(x0, y0),
            words_xor(x1, y1),
            words_xor(x2, y2),
            words_xor(x3, y3),
        ),
        words_rotl(half4(x0, x1, x2, x3), n) == half4(
            words_rotl(x0, n),
            words_rotl(x1, n),
            words_rotl(x2, n),
            words_rotl(x3, n),
        ),
{
    lemma_words_concat(x0 + x1, x2 + x3, y0 + y1, y2 + y3, n);
    lemma_words_concat(x0, x1, y0, y1, n);
    lemma_words_concat(x2, x3, y2, y3, n);
}

/// The index masks on a half in four registers: 8 and 4 move whole
/// registers, 2 and 1 move lanes within each register.
pub proof fn lemma_half4_swap(x0: Seq<u32>, x1: Seq<u32>, x2: Seq<u32>, x3: Seq<u32>)
    requires
        x0.len() == 4 && x1.len() == 4 && x2.len() == 4 && x3.len() == 4,
    ensures
        words_swap(half4(x0, x1, x2, x3), 8) == half4(x2, x3, x0, x1),
        words_swap(half4(x0, x1, x2, x3), 4) == half4(x1, x0, x3, x2),
        words_swap(half4(x0, x1, x2, x3), 2) == half4(
            words_swap(x0, 2),
            words_swap(x1, 2),
            words_swap(x2, 2),
            words_swap(x3, 2),
        ),
        words_swap(half4(x0, x1, x2, x3), 1) == half4(
            words_swap(x0, 1),
            words_swap(x1, 1),
            words_swap(x2, 1),
            words_swap(x3, 1),
        ),
{
    lemma_swap_halves(x0 + x1, x2 + x3, 8);
    lemma_swap_concat(x0 + x1, x2 + x3, 4);
    lemma_swap_halves(x0, x1, 4);
    lemma_swap_halves(x2, x3, 4);
    lemma_swap_concat(x0 + x1, x2 + x3, 2);
    lemma_swap_concat(x0, x1, 2);
    lemma_swap_concat(x2, x3, 2);
    lemma_swap_concat(x0 + x1, x2 + x3, 1);
    lemma_swap_concat(x0, x1, 1);
    lemma_swap_concat(x2, x3, 1);
}

/// The index masks on a half in two registers: 8 moves whole registers, 4,
/// 2 and 1 move lanes within each register.
pub proof fn lemma_half2_swap(x0: Seq<u32>, x1: Seq<u32>)
    requires
        x0.len() == 8 && x1.len() == 8,
    ensures
        words_swap(half2(x0, x1), 8) == half2(x1, x0),
        words_swap(half2(x0, x1), 4) == half2(words_swap(x0, 4), words_swap(x1, 4)),
        words_swap(half2(x0, x1), 2) == half2(words_swap(x0, 2), words_swap(x1, 2)),
        words_swap(half2(x0, x1), 1) == half2(words_swap(x0, 1), words_swap(x1, 1)),
{
    lemma_swap_halves(x0, x1, 8);
    lemma_swap_concat(x0, x1, 4);
    lemma_swap_concat(x0, x1, 2);
    lemma_swap_concat(x0, x1, 1);
}

/// Rotating every word and moving the words by an index mask can be done in
/// either order.
pub proof fn lemma_rotl_swap(x: Seq<u32>, n: u32, m: usize)
    requires
        m == 8 || m == 4 || m == 2 || m == 1,
        x.len() == 16 || (x.len() == 8 && m < 8) || (x.len() == 4 && m < 4),
    ensures
        words_swap(words_rotl(x, n), m) == words_rotl(words_swap(x, m), n),
{
    assert forall|k: int| 0 <= k < x.len() implies words_swap(words_rotl(x, n), m)[k] == words_rotl(
        words_swap(x, m),
        n,
    )[k] by {
        lemma_xor_index(k);
    }
    assert(words_swap(words_rotl(x, n), m) =~= words_rotl(words_swap(x, m), n));
}

/// Wrapping addition of words does not depend on the order of its operands.
pub proof fn lemma_add_commutes(x: Seq<u32>, y: Seq<u32>)
    requires
        x.len() == y.len(),
    ensures
        words_add(x, y) == words_add(y, x),
{
    assert(words_add(x, y) =~= words_add(y, x));
}

/// The sub-round with the index masks 8 and 2 on a state in eight registers
/// of four lanes.
pub proof fn lemma_subround_first_4x4(
    a0: Seq<u32>,
    a1: Seq<u32>,
    a2: Seq<u32>,
    a3: Seq<u32>,
    b0: Seq<u32>,
    b1: Seq<u32>,
    b2: Seq<u32>,
    b3: Seq<u32>,
    rot: u32,
)
    requires
        a0.len() == 4 && a1.len() == 4 && a2.len() == 4 && a3.len() == 4,
        b0.len() == 4 && b1.len() == 4 && b2.len() == 4 && b3.len() == 4,
    ensures
        subround(
            State { a: half4(a0, a1, a2, a3), b: half4(b0, b1, b2, b3) },
            rot,
            8,
            2,
        ) == (State {
            a: half4(
                words_xor(words_rotl(a2, rot), words_add(b0, a0)),
                words_xor(words_rotl(a3, rot), words_add(b1, a1)),
                words_xor(words_rotl(a0, rot), words_add(b2, a2)),
                words_xor(words_rotl(a1, rot), words_add(b3, a3)),
            ),
            b: half4(
                words_swap(words_add(b0, a0), 2),
                words_swap(words_add(b1, a1), 2),
                words_swap(words_add(b2, a2), 2),
                words_swap(words_add(b3, a3), 2),
            ),
        }),
{
    let c0 = words_add(b0, a0);
    let c1 = words_add(b1, a1);
    let c2 = words_add(b2, a2);
    let c3 = words_add(b3, a3);
    lemma_half4_words(b0, b1, b2, b3, a0, a1, a2, a3, rot);
    lemma_half4_swap(a0, a1, a2, a3);
    lemma_half4_words(a2, a3, a0, a1, a2, a3, a0, a1, rot);
    lemma_half4_words(
        words_rotl(a2, rot),
        words_rotl(a3, rot),
        words_rotl(a0, rot),
        words_rotl(a1, rot),
        c0,
        c1,
        c2,
        c3,
        rot,
    );
    lemma_half4_swap(c0, c1, c2, c3);
}

/// The sub-round with the index masks 4 and 1 on a state in eight registers
/// of four lanes.
pub proof fn lemma_subround_second_4x4(
    a0: Seq<u32>,
    a1: Seq<u32>,
    a2: Seq<u32>,
    a3: Seq<u32>,
    b0: Seq<u32>,
    b1: Seq<u32>,
    b2: Seq<u32>,
    b3: Seq<u32>,
    rot: u32,
)
    requires
        a0.len() == 4 && a1.len() == 4 && a2.len() == 4 && a3.len() == 4,
        b0.len() == 4 && b1.len() == 4 && b2.len() == 4 && b3.len() == 4,
    ensures
        subround(
            State { a: half4(a0, a1, a2, a3), b: half4(b0, b1, b2, b3) },
            rot,
            4,
            1,
        ) == (State {
            a: half4(
                words_xor(words_rotl(a1, rot), words_add(b0, a0)),
                words_xor(words_rotl(a0, rot), words_add(b1, a1)),
                words_xor(words_rotl(a3, rot), words_add(b2, a2)),
                words_xor(words_rotl(a2, rot), words_add(b3, a3)),
            ),
            b: half4(
                words_swap(words_add(b0, a0), 1),
                words_swap(words_add(b1, a1), 1),
                words_swap(words_add(b2, a2), 1),
                words_swap(words_add(b3, a3), 1),
            ),
        }),
{
    let c0 = words_add(b0, a0);
    let c1 = words_add(b1, a1);
    let c2 = words_add(b2, a2);
    let c3 = words_add(b3, a3);
    lemma_half4_words(b0, b1, b2, b3, a0, a1, a2, a3, rot);
    lemma_half4_swap(a0, a1, a2, a3);
    lemma_half4_words(a1, a0, a3, a2, a1, a0, a3, a2, rot);
    lemma_half4_words(
        words_rotl(a1, rot),
        words_rotl(a0, rot),
        words_rotl(a3, rot),
        words_rotl(a2, rot),
        c0,
        c1,
        c2,
        c3,
        rot,
    );
    lemma_half4_swap(c0, c1, c2, c3);
}

/// The sub-round with the index masks 8 and 2 on a state in four registers
/// of eight lanes.
pub proof fn lemma_subround_first_2x8(
    a0: Seq<u32>,
    a1: Seq<u32>,
    b0: Seq<u32>,
    b1: Seq<u32>,
    rot: u32,
)
    requires
        a0.len() == 8 && a1.len() == 8,
        b0.len() == 8 && b1.len() == 8,
    ensures
        subround(State { a: half2(a0, a1), b: half2(b0, b1) }, rot, 8, 2) == (State {
            a: half2(
                words_xor(words_rotl(a1, rot), words_add(b0, a0)),
                words_xor(words_rotl(a0, rot), words_add(b1, a1)),
            ),
            b: half2(words_swap(words_add(b0, a0), 2), words_swap(words_add(b1, a1), 2)),
        }),
{
    let c0 = words_add(b0, a0);
    let c1 = words_add(b1, a1);
    lemma_words_concat(b0, b1, a0, a1, rot);
    lemma_half2_swap(a0, a1);
    lemma_words_concat(a1, a0, a1, a0, rot);
    lemma_words_concat(words_rotl(a1, rot), words_rotl(a0, rot), c0, c1, rot);
    lemma_half2_swap(c0, c1);
}

/// The sub-round with the index masks 4 and 1 on a state in four registers
/// of eight lanes.
pub proof fn lemma_subround_second_2x8(
    a0: Seq<u32>,
    a1: Seq<u32>,
    b0: Seq<u32>,
    b1: Seq<u32>,
    rot: u32,
)
    requires
        a0.len() == 8 && a1.len() == 8,
        b0.len() == 8 && b1.len() == 8,
    ensures
        subround(State { a: half2(a0, a1), b: half2(b0, b1) }, rot, 4, 1) == (State {
            a: half2(
                words_xor(words_swap(words_rotl(a0, rot), 4), words_add(b0, a0)),
                words_xor(words_swap(words_rotl(a1, rot), 4), words_add(b1, a1)),
            ),
            b: half2(words_swap(words_add(b0, a0), 1), words_swap(words_add(b1, a1), 1)),
        }),
{
    let c0 = words_add(b0, a0);
    let c1 = words_add(b1, a1);
    lemma_words_concat(b0, b1, a0, a1, rot);
    lemma_half2_swap(a0, a1);
    lemma_words_concat(words_swap(a0, 4), words_swap(a1, 4), a0, a1, rot);
    lemma_rotl_swap(a0, rot, 4);
    lemma_rotl_swap(a1, rot, 4);
    lemma_words_concat(
        words_swap(words_rotl(a0, rot), 4),
        words_swap(words_rotl(a1, rot), 4),
        c0,
        c1,
        rot,
    );
    lemma_half2_swap(c0, c1);
}

/// The seed state in eight registers of four lanes: the first register
/// holds the output size, the block size and the rounds per block.
pub proof fn lemma_seed_4x4(p: Params, first: Seq<u32>)
    requires
        first == seq![p.h() as u32, 32u32, p.r() as u32, 0u32],
    ensures
        seed_state(p) == (State {
            a: half4(first, zeros(4), zeros(4), zeros(4)),
            b: half4(zeros(4), zeros(4), zeros(4), zeros(4)),
        }),
{
    assert(seed_state(p).a =~= half4(first, zeros(4), zeros(4), zeros(4)));
    assert(seed_state(p).b =~= half4(zeros(4), zeros(4), zeros(4), zeros(4)));
}

/// The seed state in four registers of eight lanes.
pub proof fn lemma_seed_2x8(p: Params, first: Seq<u32>)
    requires
        first == seq![p.h() as u32, 32u32, p.r() as u32, 0u32, 0u32, 0u32, 0u32, 0u32],
    ensures
        seed_state(p) == (State { a: half2(first, zeros(8)), b: half2(zeros(8), zeros(8)) }),
{
    assert(seed_state(p).a =~= half2(first, zeros(8)));
    assert(seed_state(p).b =~= half2(zeros(8), zeros(8)));
}

/// The seed state in two registers of sixteen lanes.
pub proof fn lemma_seed_1x16(p: Params, first: Seq<u32>)
    requires
        first == seq![
            p.h() as u32,
            32u32,
            p.r() as u32,
            0u32,
            0u32,
            0u32,
            0u32,
            0u32,
            0u32,
            0u32,
            0u32,
            0u32,
            0u32,
            0u32,
            0u32,
            0u32,
        ],
    ensures
        seed_state(p) == (State { a: first, b: zeros(16) }),
{
    assert(seed_state(p).a =~= first);
    assert(seed_state(p).b =~= zeros(16));
}

/// A block xor-ed into a state whose half `A` lies in four registers of four
/// lanes: its words 0 to 3 go into the first register, 4 to 7 into the
/// second.
pub proof fn lemma_xor_block_4x4(
    a0: Seq<u32>,
    a1: Seq<u32>,
    a2: Seq<u32>,
    a3: Seq<u32>,
    b: Seq<u32>,
    block: Seq<u8>,
)
    requires
        a0.len() == 4 && a1.len() == 4 && a2.len() == 4 && a3.len() == 4,
        block.len() == 32,
    ensures
        xor_block(State { a: half4(a0, a1, a2, a3), b }, block) == (State {
            a: half4(
                words_xor(a0, bytes_to_words(block).subrange(0, 4)),
                words_xor(a1, bytes_to_words(block).subrange(4, 8)),
                a2,
                a3,
            ),
            b,
        }),
{
    assert(xor_block(State { a: half4(a0, a1, a2, a3), b }, block).a =~= half4(
        words_xor(a0, bytes_to_words(block).subrange(0, 4)),
        words_xor(a1, bytes_to_words(block).subrange(4, 8)),
        a2,
        a3,
    ));
}

/// A block xor-ed into a state whose half `A` lies in two registers of eight
/// lanes: its eight words go into the first register.
pub proof fn lemma_xor_block_2x8(a0: Seq<u32>, a1: Seq<u32>, b: Seq<u32>, block: Seq<u8>)
    requires
        a0.len() == 8 && a1.len() == 8,
        block.len() == 32,
    ensures
        xor_block(State { a: half2(a0, a1), b }, block) == (State {
            a: half2(words_xor(a0, bytes_to_words(block).subrange(0, 8)), a1),
            b,
        }),
{
    assert(xor_block(State { a: half2(a0, a1), b }, block).a =~= half2(
        words_xor(a0, bytes_to_words(block).subrange(0, 8)),
        a1,
    ));
}

/// A block xor-ed into a state whose half `A` is one register of sixteen
/// lanes: its eight words, followed by eight zero lanes, are xor-ed into
/// the register.
pub proof fn lemma_xor_block_1x16(a: Seq<u32>, b: Seq<u32>, block: Seq<u8>)
    requires
        a.len() == 16,
        block.len() == 32,
    ensures
        xor_block(State { a, b }, block) == (State {
            a: words_xor(a, words_zext(bytes_to_words(block).subrange(0, 8), 16)),
            b,
        }),
{
    let z = words_zext(bytes_to_words(block).subrange(0, 8), 16);
    assert forall|i: int| 8 <= i < 16 implies #[trigger] words_xor(a, z)[i] == a[i] by {
        let w = a[i];
        assert(w ^ 0u32 == w) by (bit_vector);
    }
    assert(xor_block(State { a, b }, block).a =~= words_xor(a, z));
}

/// Xor with words that are zero but for a last word of 1 flips bit 0 of the
/// last word.
pub proof fn lemma_xor_last_one(x: Seq<u32>)
    requires
        x.len() > 0,
    ensures
        words_xor(x, last_one(x.len())) == x.update(x.len() - 1, x[x.len() - 1] ^ 1),
{
    assert forall|i: int| 0 <= i < x.len() - 1 implies #[trigger] words_xor(x, last_one(x.len()))[i]
        == x[i] by {
        let w = x[i];
        assert(w ^ 0u32 == w) by (bit_vector);
    }
    assert(words_xor(x, last_one(x.len())) =~= x.update(x.len() - 1, x[x.len() - 1] ^ 1));
}

/// The flip of the last bit on a state whose half `B` lies in four registers
/// of four lanes: it falls into the last lane of the last register.
pub proof fn lemma_flip_4x4(a: Seq<u32>, b0: Seq<u32>, b1: Seq<u32>, b2: Seq<u32>, b3: Seq<u32>)
    requires
        b0.len() == 4 && b1.len() == 4 && b2.len() == 4 && b3.len() == 4,
    ensures
        flip(State { a, b: half4(b0, b1, b2, b3) }) == (State {
            a,
            b: half4(b0, b1, b2, words_xor(b3, last_one(4))),
        }),
{
    lemma_xor_last_one(b3);
    assert(flip(State { a, b: half4(b0, b1, b2, b3) }).b =~= half4(
        b0,
        b1,
        b2,
        words_xor(b3, last_one(4)),
    ));
}

/// The flip of the last bit on a state whose half `B` lies in two registers
/// of eight lanes.
pub proof fn lemma_flip_2x8(a: Seq<u32>, b0: Seq<u32>, b1: Seq<u32>)
    requires
        b0.len() == 8 && b1.len() == 8,
    ensures
        flip(State { a, b: half2(b0, b1) }) == (State {
            a,
            b: half2(b0, words_xor(b1, last_one(8))),
        }),
{
    lemma_xor_last_one(b1);
    assert(flip(State { a, b: half2(b0, b1) }).b =~= half2(b0, words_xor(b1, last_one(8))));
}

/// The flip of the last bit on a state whose half `B` is one register of
/// sixteen lanes.
pub proof fn lemma_flip_1x16(a: Seq<u32>, b: Seq<u32>)
    requires
        b.len() == 16,
    ensures
        flip(State { a, b }) == (State { a, b: words_xor(b, last_one(16)) }),
{
    lemma_xor_last_one(b);
}

/// The first `h` bytes of two runs of words, one after the other, are the
/// bytes of the first run as far as `h` reaches, then those of the second.
pub proof fn lemma_bytes_concat(x: Seq<u32>, y: Seq<u32>, h: int)
    requires
        0 <= h <= 4 * (x.len() + y.len()),
    ensures
        words_to_bytes(x + y).take(h) == words_to_bytes(x).take(room(0, h, x.len() as int))
            + words_to_bytes(y).take(
            if h < 4 * x.len() {
                0
            } else {
                h - 4 * x.len()
            },
        ),
{
    assert(words_to_bytes(x + y).take(h) =~= words_to_bytes(x).take(room(0, h, x.len() as int))
        + words_to_bytes(y).take(
        if h < 4 * x.len() {
            0
        } else {
            h - 4 * x.len()
        },
    ));
}

/// The first `h` bytes of a half in four registers of four lanes, register
/// by register.
pub proof fn lemma_output_4x4(x0: Seq<u32>, x1: Seq<u32>, x2: Seq<u32>, x3: Seq<u32>, h: int)
    requires
        x0.len() == 4 && x1.len() == 4 && x2.len() == 4 && x3.len() == 4,
        0 <= h <= 64,
    ensures
        ({
            let o0 = words_to_bytes(x0).take(room(0, h, 4));
            let o1 = o0 + words_to_bytes(x1).take(room(o0.len() as int, h, 4));
            let o2 = o1 + words_to_bytes(x2).take(room(o1.len() as int, h, 4));
            let o3 = o2 + words_to_bytes(x3).take(room(o2.len() as int, h, 4));
            words_to_bytes(half4(x0, x1, x2, x3)).take(h) == o3
        }),
{
    let o0 = words_to_bytes(x0).take(room(0, h, 4));
    let o1 = o0 + words_to_bytes(x1).take(room(o0.len() as int, h, 4));
    let o2 = o1 + words_to_bytes(x2).take(room(o1.len() as int, h, 4));
    let o3 = o2 + words_to_bytes(x3).take(room(o2.len() as int, h, 4));
    lemma_bytes_concat(x0 + x1, x2 + x3, h);
    lemma_bytes_concat(x0, x1, room(0, h, 8));
    lemma_bytes_concat(
        x2,
        x3,
        if h < 32 {
            0
        } else {
            h - 32
        },
    );
    assert(words_to_bytes(half4(x0, x1, x2, x3)).take(h) =~= o3);
}

/// The first `h` bytes of a half in two registers of eight lanes, register
/// by register.
pub proof fn lemma_output_2x8(x0: Seq<u32>, x1: Seq<u32>, h: int)
    requires
        x0.len() == 8 && x1.len() == 8,
        0 <= h <= 64,
    ensures
        ({
            let o0 = words_to_bytes(x0).take(room(0, h, 8));
            let o1 = o0 + words_to_bytes(x1).take(room(o0.len() as int, h, 8));
            words_to_bytes(half2(x0, x1)).take(h) == o1
        }),
{
    let o0 = words_to_bytes(x0).take(room(0, h, 8));
    let o1 = o0 + words_to_bytes(x1).take(room(o0.len() as int, h, 8));
    lemma_bytes_concat(x0, x1, h);
    assert(words_to_bytes(half2(x0, x1)).take(h) =~= o1);
}

} // verus!

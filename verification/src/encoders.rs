//! Multiplexed rotary-encoder bank.
//!
//! Eight quadrature encoders share one free-running 16-bit hardware counter
//! through an analog multiplexer. Each step attributes the counter movement
//! since the previous step to the channel that was selected during that
//! interval, as a wrapping (two's-complement) 16-bit delta, then advances
//! the multiplexer to the next channel and re-baselines the counter.
//!
//! The counter is read by the surrounding firmware and handed in twice per
//! step: `next_encoder` takes the reading made while the outgoing channel
//! was still selected, and `set_baseline` the one made right after the
//! address lines changed, which becomes the incoming channel's baseline.
//! A delta is exact as long as the true rotation between two visits of the
//! same channel stays under half the counter range; beyond that it aliases,
//! an accepted precision bound of the multiplexed design.

use vstd::prelude::*;

verus! {

broadcast use vstd::array::group_array_axioms;

/// Levels of the three multiplexer address lines (`true` = driven high).
/// Line `k` carries bit `k` of the selected channel number.
#[derive(Clone, Copy, PartialEq, Eq, Structural, Debug)]
pub struct EncoderPins {
    pub a0: bool,
    pub a1: bool,
    pub a2: bool,
}

/// The wrapping 16-bit difference `current - last`, read as a signed value
/// in `[-32768, 32767]`.
pub open spec fn wrap_diff(current: u16, last: u16) -> int {
    let d = (current as int + 0x10000 - last as int) % 0x10000;
    if d < 0x8000 {
        d
    } else {
        d - 0x10000
    }
}

/// The abstract state of the encoder bank: accumulated positions, the
/// selected channel, and the counter baseline taken when it was selected.
pub struct EncState {
    pub positions: Seq<int>,
    pub current: int,
    pub last: u16,
}

/// One multiplexer step: credit the wrapping delta to the selected channel,
/// advance the channel round-robin, re-baseline the counter.
pub open spec fn enc_step(s: EncState, current_count: u16, settled_count: u16) -> EncState {
    EncState {
        positions: s.positions.update(
            s.current,
            s.positions[s.current] + wrap_diff(current_count, s.last),
        ),
        current: (s.current + 1) % 8,
        last: settled_count,
    }
}

/// The abstract state after a sequence of steps, each bringing the pair of
/// counter readings `(current_count, settled_count)` of one invocation.
pub open spec fn enc_run(s: EncState, reads: Seq<(u16, u16)>) -> EncState
    decreases reads.len(),
{
    if reads.len() == 0 {
        s
    } else {
        enc_step(enc_run(s, reads.drop_last()), reads.last().0, reads.last().1)
    }
}

/// The delta credited by step `i` of a run: the wrapping difference between
/// that step's first reading and the baseline left by the step before it.
pub open spec fn run_delta(s0: EncState, reads: Seq<(u16, u16)>, i: int) -> int {
    wrap_diff(
        reads[i].0,
        if i == 0 {
            s0.last
        } else {
            reads[i - 1].1
        },
    )
}

/// The sum of the deltas that the first `n` steps of a run credit to
/// channel `c`.
pub open spec fn sum_deltas(s0: EncState, reads: Seq<(u16, u16)>, c: int, n: int) -> int
    decreases n,
{
    if n <= 0 {
        0
    } else {
        sum_deltas(s0, reads, c, n - 1) + if (s0.current + n - 1) % 8 == c {
            run_delta(s0, reads, n - 1)
        } else {
            0
        }
    }
}

/// The encoder bank: eight signed accumulators, the selected channel, the
/// counter baseline, and the modeled address-line levels.
pub struct Encoders {
    pins: EncoderPins,
    positions: [i16; 8],
    current_encoder: usize,
    last_count: u16,
}

impl Encoders {
    /// The abstract state: positions, selected channel, counter baseline.
    pub closed spec fn view(&self) -> EncState {
        EncState {
            positions: Seq::new(8, |i: int| self.positions@[i] as int),
            current: self.current_encoder as int,
            last: self.last_count,
        }
    }

    /// The modeled address-line levels.
    pub closed spec fn pins(&self) -> EncoderPins {
        self.pins
    }

    /// The selected channel stays in range and the address lines carry its
    /// binary encoding.
    pub open spec fn inv(&self) -> bool {
        &&& 0 <= self.view().current < 8
        &&& self.view().positions.len() == 8
    }

    /// A fresh bank with all positions zero, channel 0 selected and a zero
    /// counter baseline. The address lines are handed over as they are.
    pub fn new(pins: EncoderPins) -> (e: Self)
        ensures
            e.inv(),
            e.view().positions =~= Seq::new(8, |i: int| 0int),
            e.view().current == 0,
            e.view().last == 0,
            e.pins() == pins,
    {
        Encoders { pins, positions: [0i16; 8], current_encoder: 0, last_count: 0 }
    }

    /// Yields the eight accumulated positions by value, consuming the bank.
    pub fn get_positions(self) -> (r: [i16; 8])
        ensures
            r@.len() == 8,
            forall|i: int| 0 <= i < 8 ==> r@[i] as int == self.view().positions[i],
    {
        self.positions
    }

    /// One multiplexer step. `current_count` is the shared counter read while
    /// the outgoing channel was still selected; the wrapping delta against
    /// the stored baseline is credited to that channel, then the selection
    /// advances and the modeled address lines take the new channel's bits.
    /// Right after mirroring the lines, the caller reads the counter once
    /// more and hands it to `set_baseline`, completing the step. Returns
    /// whether the outgoing channel's position moved. The accumulator must
    /// not be pushed outside the 16-bit range: saturating it is not this
    /// layer's business, and overflowing it is a caller defect.
    pub fn next_encoder(&mut self, current_count: u16) -> (changed: bool)
        requires
            old(self).inv(),
            i16::MIN <= old(self).view().positions[old(self).view().current] + wrap_diff(
                current_count,
                old(self).view().last,
            ) <= i16::MAX,
        ensures
            final(self).inv(),
            final(self).view() == enc_step(old(self).view(), current_count, old(self).view().last),
            changed == (wrap_diff(current_count, old(self).view().last) != 0),
            final(self).pins().a0 == line_sel(final(self).view().current as usize, 0),
            final(self).pins().a1 == line_sel(final(self).view().current as usize, 1),
            final(self).pins().a2 == line_sel(final(self).view().current as usize, 2),
    {
        let du: u32 = (current_count as u32 + 0x10000 - self.last_count as u32) % 0x10000;
        let diff: i32 = if du < 0x8000 {
            du as i32
        } else {
            du as i32 - 0x10000
        };
        proof {
            assert(diff == wrap_diff(current_count, self.last_count));
        }

        let idx = self.current_encoder;
        let newp: i32 = self.positions[idx] as i32 + diff;
        self.positions[idx] = newp as i16;

        let mut next = self.current_encoder + 1;
        if next == 8 {
            next = 0;
        }
        self.current_encoder = next;

        self.pins.a0 = next & (1usize << 0usize) != 0;
        self.pins.a1 = next & (1usize << 1usize) != 0;
        self.pins.a2 = next & (1usize << 2usize) != 0;

        proof {
            assert(self.view().positions =~= enc_step(
                old(self).view(),
                current_count,
                old(self).view().last,
            ).positions);
        }
        diff != 0
    }

    /// Stores the counter reading taken right after the address lines
    /// changed, as the baseline the incoming channel is measured against on
    /// its next visit.
    pub fn set_baseline(&mut self, settled_count: u16)
        ensures
            final(self).view() == rebaseline(old(self).view(), settled_count),
            final(self).pins() == old(self).pins(),
            final(self).inv() == old(self).inv(),
    {
        self.last_count = settled_count;
        proof {
            assert(self.view().positions =~= old(self).view().positions);
        }
    }

    /// The modeled address-line levels, for the caller to mirror onto the
    /// real multiplexer pins.
    pub fn get_pins(&self) -> (p: EncoderPins)
        ensures
            p == self.pins(),
    {
        self.pins
    }
}

/// The same state with the counter baseline replaced.
pub open spec fn rebaseline(s: EncState, settled_count: u16) -> EncState {
    EncState { last: settled_count, ..s }
}

/// A multiplexer step whose baseline is taken afterwards equals the one-shot
/// step with that baseline: `set_baseline` after `next_encoder` completes
/// exactly one `enc_step`.
pub proof fn lemma_rebaseline_step(s: EncState, current_count: u16, settled_count: u16)
    ensures
        rebaseline(enc_step(s, current_count, s.last), settled_count) == enc_step(
            s,
            current_count,
            settled_count,
        ),
{
}

/// Level of multiplexer address line `k` when channel `v` is selected:
/// bit `k` of `v`.
pub open spec fn line_sel(v: usize, k: usize) -> bool {
    v & (1usize << k) != 0
}

/// Accumulation law: after any run of steps, a channel's position is its
/// starting position plus the sum of the wrapping deltas credited to it by
/// the steps during which it was the selected channel.
pub proof fn lemma_positions_accumulate(s0: EncState, reads: Seq<(u16, u16)>, c: int)
    requires
        0 <= c < 8,
        0 <= s0.current < 8,
        s0.positions.len() == 8,
    ensures
        enc_run(s0, reads).positions[c] == s0.positions[c] + sum_deltas(
            s0,
            reads,
            c,
            reads.len() as int,
        ),
    decreases reads.len(),
{
    if reads.len() == 0 {
    } else {
        let prefix = reads.drop_last();
        lemma_positions_accumulate(s0, prefix, c);
        lemma_run_current(s0, prefix);
        lemma_run_last(s0, prefix);
        let mid = enc_run(s0, prefix);
        assert(enc_run(s0, reads) == enc_step(mid, reads.last().0, reads.last().1));
        assert(sum_deltas(s0, prefix, c, prefix.len() as int) == sum_deltas(
            s0,
            reads,
            c,
            reads.len() as int - 1,
        )) by {
            lemma_sum_deltas_prefix(s0, prefix, reads, c, prefix.len() as int);
        }
    }
}

/// After a run, the selected channel has advanced round-robin by the number
/// of steps taken.
pub proof fn lemma_run_current(s0: EncState, reads: Seq<(u16, u16)>)
    requires
        0 <= s0.current < 8,
        s0.positions.len() == 8,
    ensures
        enc_run(s0, reads).current == (s0.current + reads.len()) % 8,
        enc_run(s0, reads).positions.len() == s0.positions.len(),
    decreases reads.len(),
{
    if reads.len() == 0 {
    } else {
        let prefix = reads.drop_last();
        lemma_run_current(s0, prefix);
        let x = s0.current + prefix.len();
        assert(enc_run(s0, prefix).current == x % 8);
        vstd::arithmetic::div_mod::lemma_add_mod_noop(x, 1, 8);
        assert(1int % 8 == 1);
        assert((x % 8 + 1) % 8 == (x + 1) % 8);
    }
}

/// After a nonempty run, the counter baseline is the settled reading of the
/// last step; after an empty one it is the starting baseline.
pub proof fn lemma_run_last(s0: EncState, reads: Seq<(u16, u16)>)
    ensures
        enc_run(s0, reads).last == if reads.len() == 0 {
            s0.last
        } else {
            reads.last().1
        },
    decreases reads.len(),
{
    if reads.len() == 0 {
    } else {
    }
}

/// The partial delta sums over a run do not depend on the steps beyond the
/// ones summed.
proof fn lemma_sum_deltas_prefix(
    s0: EncState,
    prefix: Seq<(u16, u16)>,
    reads: Seq<(u16, u16)>,
    c: int,
    n: int,
)
    requires
        0 <= n <= prefix.len(),
        prefix =~= reads.take(prefix.len() as int),
        prefix.len() <= reads.len(),
    ensures
        sum_deltas(s0, prefix, c, n) == sum_deltas(s0, reads, c, n),
    decreases n,
{
    if n <= 0 {
    } else {
        lemma_sum_deltas_prefix(s0, prefix, reads, c, n - 1);
        if (s0.current + n - 1) % 8 == c {
            assert(prefix[n - 1] == reads[n - 1]);
            if n - 1 > 0 {
                assert(prefix[n - 2] == reads[n - 2]);
            }
        }
    }
}

/// Exactness law: a true counter movement `d` of magnitude under half the
/// counter range is reproduced exactly by the wrapping delta, across any
/// counter wraparound.
pub proof fn lemma_wrap_diff_exact(last: u16, d: int)
    requires
        -0x8000 <= d < 0x8000,
    ensures
        wrap_diff(((last as int + d + 0x10000) % 0x10000) as u16, last) == d,
{
    let cur = (last as int + d + 0x10000) % 0x10000;
    assert(0 <= cur < 0x10000);
    assert(cur as u16 as int == cur);
    let e = (cur + 0x10000 - last as int) % 0x10000;
    assert(e == (d + 0x20000) % 0x10000);
    if d >= 0 {
        assert((d + 0x20000) % 0x10000 == d) by {
            assert(d + 0x20000 == d + 2 * 0x10000);
        }
    } else {
        assert((d + 0x20000) % 0x10000 == d + 0x10000) by {
            assert(d + 0x20000 == (d + 0x10000) + 0x10000);
        }
    }
}

} // verus!

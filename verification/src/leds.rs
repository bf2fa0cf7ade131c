//! Multiplexed LED-bank driver.
//!
//! Eight 32-bit banks share one shift-register driver. A refresh step
//! advances to the next bank and emits the exact sequence of line-level
//! changes that drives it out: blank both driver stages, change the bank
//! address, shift 32 pattern bits least-significant-first (data line, settle,
//! clock high, settle, clock low), pulse the latch, and only then re-enable
//! the drivers. The blanking window spanning the whole update is what keeps
//! a half-updated state from ever reaching the LEDs.
//!
//! The driver returns the sequence as a script of `LedAction`s and folds it
//! over its own model of the line levels; the surrounding firmware replays
//! the script verbatim on the real pins, inserting the settle delay wherever
//! the script says `Delay`.

use vstd::prelude::*;

verus! {

broadcast use vstd::array::group_array_axioms;

/// One of the eight driver control lines.
#[derive(Clone, Copy, PartialEq, Eq, Structural, Debug)]
pub enum LedLine {
    /// High-side driver enable, active low: high means blanked.
    HsEnL,
    /// Bank address bit 0 of the high-side driver.
    HsA0,
    /// Bank address bit 1 of the high-side driver.
    HsA1,
    /// Bank address bit 2 of the high-side driver.
    HsA2,
    /// Low-side driver enable, active low: high means blanked.
    LsEnL,
    /// Serial data into the low-side shift register.
    LsDai,
    /// Serial clock: a bit is taken on the rising edge.
    LsDck,
    /// Latch: a pulse moves the shift register into the output register.
    LsLat,
}

/// One elementary hardware step of a bank refresh: drive one line to a
/// level, or busy-wait one settle delay.
#[derive(Clone, Copy, PartialEq, Eq, Structural, Debug)]
pub enum LedAction {
    Drive(LedLine, bool),
    Delay,
}

/// Level of address line `k` when the value `v` is selected: bit `k` of `v`.
pub open spec fn line_bit(v: usize, k: usize) -> bool {
    v & (1usize << k) != 0
}

/// Bit `k` of a bank pattern, the level shifted out in step `k`.
pub open spec fn pattern_bit(pattern: u32, k: u32) -> bool {
    pattern & (1u32 << k) != 0
}

/// The three address-line changes that select `bank`.
pub open spec fn addr_actions(bank: usize) -> Seq<LedAction> {
    seq![
        LedAction::Drive(LedLine::HsA0, line_bit(bank, 0)),
        LedAction::Drive(LedLine::HsA1, line_bit(bank, 1)),
        LedAction::Drive(LedLine::HsA2, line_bit(bank, 2)),
    ]
}

/// The five steps that shift out bit `k` of `pattern`: data level, settle,
/// clock rise, settle, clock fall.
pub open spec fn bit_block(pattern: u32, k: u32) -> Seq<LedAction> {
    seq![
        LedAction::Drive(LedLine::LsDai, pattern_bit(pattern, k)),
        LedAction::Delay,
        LedAction::Drive(LedLine::LsDck, true),
        LedAction::Delay,
        LedAction::Drive(LedLine::LsDck, false),
    ]
}

/// The shift sequence for the first `n` bits of `pattern`, least-significant
/// bit first.
pub open spec fn shift_actions(pattern: u32, n: int) -> Seq<LedAction>
    decreases n,
{
    if n <= 0 {
        Seq::empty()
    } else {
        shift_actions(pattern, n - 1) + bit_block(pattern, (n - 1) as u32)
    }
}

/// The latch pulse that moves the shifted bits to the outputs, with settle
/// delays around both edges.
pub open spec fn latch_actions() -> Seq<LedAction> {
    seq![
        LedAction::Delay,
        LedAction::Drive(LedLine::LsLat, true),
        LedAction::Delay,
        LedAction::Drive(LedLine::LsLat, false),
        LedAction::Delay,
    ]
}

/// Disable both driver stages (enables are active low).
pub open spec fn blank_actions() -> Seq<LedAction> {
    seq![LedAction::Drive(LedLine::HsEnL, true), LedAction::Drive(LedLine::LsEnL, true)]
}

/// Re-enable both driver stages once the new bank is fully loaded.
pub open spec fn unblank_actions() -> Seq<LedAction> {
    seq![LedAction::Drive(LedLine::LsEnL, false), LedAction::Drive(LedLine::HsEnL, false)]
}

/// The complete refresh script for one bank: blank, address, 32-bit shift,
/// latch, unblank.
pub open spec fn bank_script(bank: usize, pattern: u32) -> Seq<LedAction> {
    blank_actions() + addr_actions(bank) + shift_actions(pattern, 32) + latch_actions()
        + unblank_actions()
}

/// Levels of the eight driver lines (`true` = driven high). Both enable
/// lines are active low, so `true` there means the stage is blanked.
pub struct LedPins {
    pub hs_en_l: bool,
    pub hs_a0: bool,
    pub hs_a1: bool,
    pub hs_a2: bool,
    pub ls_en_l: bool,
    pub ls_dai: bool,
    pub ls_dck: bool,
    pub ls_lat: bool,
}

/// The line levels after one action of a script.
pub open spec fn apply_action(p: LedPins, a: LedAction) -> LedPins {
    match a {
        LedAction::Delay => p,
        LedAction::Drive(line, v) => match line {
            LedLine::HsEnL => LedPins { hs_en_l: v, ..p },
            LedLine::HsA0 => LedPins { hs_a0: v, ..p },
            LedLine::HsA1 => LedPins { hs_a1: v, ..p },
            LedLine::HsA2 => LedPins { hs_a2: v, ..p },
            LedLine::LsEnL => LedPins { ls_en_l: v, ..p },
            LedLine::LsDai => LedPins { ls_dai: v, ..p },
            LedLine::LsDck => LedPins { ls_dck: v, ..p },
            LedLine::LsLat => LedPins { ls_lat: v, ..p },
        },
    }
}

/// The line levels after a whole script has run, in order.
pub open spec fn run_actions(p: LedPins, s: Seq<LedAction>) -> LedPins
    decreases s.len(),
{
    if s.len() == 0 {
        p
    } else {
        apply_action(run_actions(p, s.drop_last()), s.last())
    }
}

impl LedPins {
    /// Performs one script action on the modeled line levels.
    pub fn apply(&mut self, a: LedAction)
        ensures
            *final(self) == apply_action(*old(self), a),
    {
        match a {
            LedAction::Delay => (),
            LedAction::Drive(line, v) => match line {
                LedLine::HsEnL => self.hs_en_l = v,
                LedLine::HsA0 => self.hs_a0 = v,
                LedLine::HsA1 => self.hs_a1 = v,
                LedLine::HsA2 => self.hs_a2 = v,
                LedLine::LsEnL => self.ls_en_l = v,
                LedLine::LsDai => self.ls_dai = v,
                LedLine::LsDck => self.ls_dck = v,
                LedLine::LsLat => self.ls_lat = v,
            },
        }
    }

    /// Performs a whole script on the modeled line levels, in order.
    pub fn run(&mut self, script: &Vec<LedAction>)
        ensures
            *final(self) == run_actions(*old(self), script@),
    {
        let mut i: usize = 0;
        while i < script.len()
            invariant
                i <= script.len(),
                *self == run_actions(*old(self), script@.take(i as int)),
            decreases script.len() - i,
        {
            proof {
                assert(script@.take(i as int + 1).drop_last() =~= script@.take(i as int));
                assert(script@.take(i as int + 1).last() == script@[i as int]);
            }
            self.apply(script[i]);
            i = i + 1;
        }
        proof {
            assert(script@.take(script@.len() as int) =~= script@);
        }
    }
}

/// The LED-bank driver: eight 32-bit bank patterns, the bank currently on
/// the outputs, and the modeled levels of the eight driver lines.
pub struct Leds {
    pins: LedPins,
    banks: [u32; 8],
    current_bank: usize,
}

impl Leds {
    /// The modeled driver-line levels.
    pub closed spec fn pins(&self) -> LedPins {
        self.pins
    }

    /// The eight bank patterns.
    pub closed spec fn banks(&self) -> Seq<u32> {
        self.banks@
    }

    /// The bank currently driven on the outputs.
    pub closed spec fn current_bank(&self) -> usize {
        self.current_bank
    }

    /// The bank index is always in range.
    pub open spec fn inv(&self) -> bool {
        self.current_bank() < 8
    }

    /// A fresh driver with all banks dark, starting at bank 0.
    pub fn new(pins: LedPins) -> (l: Self)
        ensures
            l.inv(),
            l.current_bank() == 0,
            l.banks() =~= Seq::new(8, |i: int| 0u32),
            l.pins() == pins,
    {
        Leds { pins, banks: [0u32; 8], current_bank: 0 }
    }

    /// Reads one bank's pattern. An out-of-range bank is a construction-time
    /// defect, not a runtime condition, and is excluded outright.
    pub fn get_bank_value(&self, bank: usize) -> (v: u32)
        requires
            bank < 8,
        ensures
            v == self.banks()[bank as int],
    {
        self.banks[bank]
    }

    /// Replaces one bank's pattern; it reaches the LEDs on that bank's next
    /// refresh.
    pub fn set_bank_value(&mut self, bank: usize, value: u32)
        requires
            bank < 8,
        ensures
            final(self).banks() == old(self).banks().update(bank as int, value),
            final(self).current_bank() == old(self).current_bank(),
            final(self).pins() == old(self).pins(),
    {
        self.banks[bank] = value;
    }

    /// Advances to the next bank in round-robin order and drives it out.
    /// Returns the exact script of line-level changes performed, already
    /// folded into the driver's own line model; the surrounding firmware
    /// replays it verbatim on the real pins.
    pub fn write_next_bank(&mut self) -> (script: Vec<LedAction>)
        requires
            old(self).inv(),
        ensures
            final(self).inv(),
            final(self).current_bank() as int == (old(self).current_bank() as int + 1) % 8,
            final(self).banks() == old(self).banks(),
            script@ == bank_script(
                final(self).current_bank(),
                old(self).banks()[final(self).current_bank() as int],
            ),
            final(self).pins() == run_actions(old(self).pins(), script@),
    {
        let mut bank = self.current_bank + 1;
        if bank == 8 {
            bank = 0;
        }
        self.current_bank = bank;
        let pattern = self.banks[bank];

        let mut script: Vec<LedAction> = Vec::new();
        script.push(LedAction::Drive(LedLine::HsEnL, true));
        script.push(LedAction::Drive(LedLine::LsEnL, true));
        script.push(LedAction::Drive(LedLine::HsA0, bank & (1usize << 0usize) != 0));
        script.push(LedAction::Drive(LedLine::HsA1, bank & (1usize << 1usize) != 0));
        script.push(LedAction::Drive(LedLine::HsA2, bank & (1usize << 2usize) != 0));
        proof {
            assert(script@ =~= blank_actions() + addr_actions(bank) + shift_actions(pattern, 0));
        }

        let mut i: usize = 0;
        while i < 32
            invariant
                i <= 32,
                script@ == blank_actions() + addr_actions(bank) + shift_actions(
                    pattern,
                    i as int,
                ),
            decreases 32 - i,
        {
            let b = pattern & (1u32 << (i as u32)) != 0;
            script.push(LedAction::Drive(LedLine::LsDai, b));
            script.push(LedAction::Delay);
            script.push(LedAction::Drive(LedLine::LsDck, true));
            script.push(LedAction::Delay);
            script.push(LedAction::Drive(LedLine::LsDck, false));
            proof {
                assert(shift_actions(pattern, i as int + 1) == shift_actions(pattern, i as int)
                    + bit_block(pattern, i as u32));
                assert(script@ =~= blank_actions() + addr_actions(bank) + shift_actions(
                    pattern,
                    i as int + 1,
                ));
            }
            i = i + 1;
        }

        script.push(LedAction::Delay);
        script.push(LedAction::Drive(LedLine::LsLat, true));
        script.push(LedAction::Delay);
        script.push(LedAction::Drive(LedLine::LsLat, false));
        script.push(LedAction::Delay);
        script.push(LedAction::Drive(LedLine::LsEnL, false));
        script.push(LedAction::Drive(LedLine::HsEnL, false));
        proof {
            assert(script@ =~= bank_script(bank, pattern));
        }

        self.pins.run(&script);
        script
    }
}

/// Whether an action drives one of the two enable lines: only such actions
/// can end the blanking window.
pub open spec fn drives_enable(a: LedAction) -> bool {
    match a {
        LedAction::Delay => false,
        LedAction::Drive(line, v) => line == LedLine::HsEnL || line == LedLine::LsEnL,
    }
}

/// The shift sequence is five actions per bit.
pub proof fn lemma_shift_len(pattern: u32, n: int)
    requires
        0 <= n,
    ensures
        shift_actions(pattern, n).len() == 5 * n,
    decreases n,
{
    if n == 0 {
    } else {
        lemma_shift_len(pattern, n - 1);
    }
}

/// Within the shift sequence, step `k` puts bit `k` of the pattern on the
/// data line and then raises the clock: least-significant bit first, one
/// rising clock edge per bit.
pub proof fn lemma_shift_data_bits(pattern: u32, n: int)
    requires
        0 <= n <= 32,
    ensures
        forall|k: int|
            0 <= k < n ==> #[trigger] shift_actions(pattern, n)[5 * k] == LedAction::Drive(
                LedLine::LsDai,
                pattern_bit(pattern, k as u32),
            ),
        forall|k: int|
            0 <= k < n ==> #[trigger] shift_actions(pattern, n)[5 * k + 2] == LedAction::Drive(
                LedLine::LsDck,
                true,
            ),
    decreases n,
{
    if n == 0 {
    } else {
        lemma_shift_data_bits(pattern, n - 1);
        lemma_shift_len(pattern, n - 1);
        assert forall|k: int| 0 <= k < n implies #[trigger] shift_actions(pattern, n)[5 * k]
            == LedAction::Drive(LedLine::LsDai, pattern_bit(pattern, k as u32)) by {
            if k < n - 1 {
                assert(shift_actions(pattern, n)[5 * k] == shift_actions(pattern, n - 1)[5 * k]);
            }
        }
        assert forall|k: int| 0 <= k < n implies #[trigger] shift_actions(pattern, n)[5 * k + 2]
            == LedAction::Drive(LedLine::LsDck, true) by {
            if k < n - 1 {
                assert(shift_actions(pattern, n)[5 * k + 2] == shift_actions(pattern, n - 1)[5 * k
                    + 2]);
            }
        }
    }
}

/// No action of the shift sequence touches an enable line.
pub proof fn lemma_shift_no_enable(pattern: u32, n: int)
    requires
        0 <= n,
    ensures
        forall|j: int|
            0 <= j < shift_actions(pattern, n).len() ==> !drives_enable(
                #[trigger] shift_actions(pattern, n)[j],
            ),
    decreases n,
{
    if n == 0 {
    } else {
        lemma_shift_no_enable(pattern, n - 1);
        lemma_shift_len(pattern, n - 1);
        assert forall|j: int| 0 <= j < shift_actions(pattern, n).len() implies !drives_enable(
            #[trigger] shift_actions(pattern, n)[j],
        ) by {
            if j < 5 * (n - 1) {
                assert(shift_actions(pattern, n)[j] == shift_actions(pattern, n - 1)[j]);
            } else {
                assert(shift_actions(pattern, n)[j] == bit_block(pattern, (n - 1) as u32)[j - 5 * (n
                    - 1)]);
            }
        }
    }
}

/// The refresh script for one bank, laid out. Shift step `k` stands at
/// index `5 + 5k`, its clock rise two later; the latch rises at index 166,
/// after every clock edge; the whole update from the address change to the
/// latch lies strictly inside the blanking window, which the first two and
/// last two actions of the script open and close.
pub proof fn lemma_script_layout(bank: usize, pattern: u32)
    ensures
        bank_script(bank, pattern).len() == 172,
        forall|k: int|
            0 <= k < 32 ==> #[trigger] bank_script(bank, pattern)[5 + 5 * k] == LedAction::Drive(
                LedLine::LsDai,
                pattern_bit(pattern, k as u32),
            ),
        forall|k: int|
            0 <= k < 32 ==> #[trigger] bank_script(bank, pattern)[5 + 5 * k + 2]
                == LedAction::Drive(LedLine::LsDck, true),
        bank_script(bank, pattern)[166] == LedAction::Drive(LedLine::LsLat, true),
        bank_script(bank, pattern)[0] == LedAction::Drive(LedLine::HsEnL, true),
        bank_script(bank, pattern)[1] == LedAction::Drive(LedLine::LsEnL, true),
        bank_script(bank, pattern)[170] == LedAction::Drive(LedLine::LsEnL, false),
        bank_script(bank, pattern)[171] == LedAction::Drive(LedLine::HsEnL, false),
        forall|j: int|
            2 <= j < 170 ==> !drives_enable(#[trigger] bank_script(bank, pattern)[j]),
{
    let script = bank_script(bank, pattern);
    lemma_shift_len(pattern, 32);
    lemma_shift_data_bits(pattern, 32);
    lemma_shift_no_enable(pattern, 32);
    let head = blank_actions() + addr_actions(bank);
    assert(head.len() == 5);
    assert(script =~= head + shift_actions(pattern, 32) + latch_actions() + unblank_actions());
    assert forall|k: int| 0 <= k < 32 implies #[trigger] script[5 + 5 * k] == LedAction::Drive(
        LedLine::LsDai,
        pattern_bit(pattern, k as u32),
    ) by {
        assert(script[5 + 5 * k] == shift_actions(pattern, 32)[5 * k]);
    }
    assert forall|k: int| 0 <= k < 32 implies #[trigger] script[5 + 5 * k + 2] == LedAction::Drive(
        LedLine::LsDck,
        true,
    ) by {
        assert(script[5 + 5 * k + 2] == shift_actions(pattern, 32)[5 * k + 2]);
    }
    assert(script[166] == latch_actions()[1]);
    assert forall|j: int| 2 <= j < 170 implies !drives_enable(#[trigger] script[j]) by {
        if j < 5 {
            assert(script[j] == addr_actions(bank)[j - 2]);
        } else if j < 165 {
            assert(script[j] == shift_actions(pattern, 32)[j - 5]);
        } else {
            assert(script[j] == latch_actions()[j - 165]);
        }
    }
}

/// Round-robin law: eight successive refreshes starting anywhere visit each
/// of the eight banks exactly once — no repeats within a cycle, and every
/// bank is reached.
pub proof fn lemma_bank_round_robin(b0: int)
    requires
        0 <= b0 < 8,
    ensures
        forall|i: int, j: int|
            0 <= i < j < 8 ==> #[trigger] ((b0 + 1 + i) % 8) != #[trigger] ((b0 + 1 + j) % 8),
        forall|k: int|
            0 <= k < 8 ==> 0 <= #[trigger] ((k - b0 - 1 + 8) % 8) < 8 && (b0 + 1 + ((k - b0 - 1
                + 8) % 8)) % 8 == k,
{
    assert forall|i: int, j: int| 0 <= i < j < 8 implies #[trigger] ((b0 + 1 + i) % 8) != #[trigger] ((b0
        + 1 + j) % 8) by {
        let x = b0 + 1 + i;
        let y = b0 + 1 + j;
        assert(x % 8 == if x < 8 {
            x
        } else {
            x - 8
        });
        assert(y % 8 == if y < 8 {
            y
        } else {
            y - 8
        });
    }
    assert forall|k: int| 0 <= k < 8 implies 0 <= #[trigger] ((k - b0 - 1 + 8) % 8) < 8 && (b0 + 1
        + ((k - b0 - 1 + 8) % 8)) % 8 == k by {
        let t = k - b0 - 1 + 8;
        assert(0 <= t < 16);
        assert(t % 8 == if t < 8 {
            t
        } else {
            t - 8
        });
        let i = t % 8;
        assert((b0 + 1 + i) % 8 == k);
    }
}

} // verus!

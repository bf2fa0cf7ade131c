use panel_core::encoders::{EncoderPins, Encoders};
use panel_core::leds::{LedAction, LedLine, LedPins, Leds};
use panel_core::matrix::{ButtonMatrix, ButtonMatrixPins};

fn dark_led_pins() -> LedPins {
    LedPins {
        hs_en_l: false,
        hs_a0: false,
        hs_a1: false,
        hs_a2: false,
        ls_en_l: false,
        ls_dai: false,
        ls_dck: false,
        ls_lat: false,
    }
}

fn script_addr(script: &[LedAction]) -> usize {
    // the three address actions stand right after the two blanking actions
    let mut bank = 0usize;
    for (k, a) in script[2..5].iter().enumerate() {
        if let LedAction::Drive(_, true) = a {
            bank |= 1 << k;
        }
    }
    bank
}

#[test]
fn matrix_full_scan_packs_rows() {
    let mut m = ButtonMatrix::new(ButtonMatrixPins { cols: [false; 11] });
    for c in 0..11 {
        m.assert_column(c);
        let mut levels = [false; 8];
        levels[c % 8] = true;
        m.sample_rows(c, levels);
        m.release_column(c);
    }
    let rows = m.get_rows();
    for c in 0..11 {
        assert_eq!(rows[c], 1u8 << (c % 8));
    }
}

#[test]
fn matrix_packs_bit_order() {
    let mut m = ButtonMatrix::new(ButtonMatrixPins { cols: [false; 11] });
    m.assert_column(4);
    m.sample_rows(4, [true, false, true, false, false, true, false, true]);
    m.release_column(4);
    let rows = m.get_rows();
    assert_eq!(rows[4], 0xA5);
    assert_eq!(rows[0], 0);
}

#[test]
fn encoder_accumulates_and_wraps() {
    let mut e = Encoders::new(EncoderPins { a0: false, a1: false, a2: false });

    // channel 0: plain forward movement
    assert!(e.next_encoder(5));
    e.set_baseline(65534);

    // channel 1: the counter wraps 65534 -> 1, a true movement of +3
    assert!(e.next_encoder(1));
    e.set_baseline(0);

    // channel 2: no movement
    assert!(!e.next_encoder(0));
    e.set_baseline(0);

    // channel 3: one count backwards, 0 -> 65535
    assert!(e.next_encoder(65535));
    e.set_baseline(65535);

    let p = e.get_positions();
    assert_eq!(p[0], 5);
    assert_eq!(p[1], 3);
    assert_eq!(p[2], 0);
    assert_eq!(p[3], -1);
    assert_eq!(p[4], 0);
    assert_eq!(p[7], 0);
}

#[test]
fn encoder_position_sums_over_two_cycles() {
    let mut e = Encoders::new(EncoderPins { a0: false, a1: false, a2: false });
    let mut count: u16 = 0;
    for _cycle in 0..2 {
        for ch in 0..8 {
            // only channel 2 moves, by +10, on each of its visits
            if ch == 2 {
                count = count.wrapping_add(10);
            }
            e.next_encoder(count);
            e.set_baseline(count);
        }
    }
    let p = e.get_positions();
    assert_eq!(p[2], 20);
    for ch in [0usize, 1, 3, 4, 5, 6, 7] {
        assert_eq!(p[ch], 0);
    }
}

#[test]
fn encoder_address_lines_follow_channel() {
    let mut e = Encoders::new(EncoderPins { a0: false, a1: false, a2: false });
    for step in 1..=8usize {
        e.next_encoder(0);
        e.set_baseline(0);
        let sel = step % 8;
        let pins = e.get_pins();
        assert_eq!(pins.a0, sel & 1 != 0);
        assert_eq!(pins.a1, sel & 2 != 0);
        assert_eq!(pins.a2, sel & 4 != 0);
    }
}

#[test]
fn led_bank_values_round_trip() {
    let mut l = Leds::new(dark_led_pins());
    assert_eq!(l.get_bank_value(3), 0);
    l.set_bank_value(3, 0xDEADBEEF);
    l.set_bank_value(0, 7);
    assert_eq!(l.get_bank_value(3), 0xDEADBEEF);
    assert_eq!(l.get_bank_value(0), 7);
    assert_eq!(l.get_bank_value(7), 0);
}

#[test]
fn led_refresh_visits_banks_round_robin() {
    let mut l = Leds::new(dark_led_pins());
    let mut visited = Vec::new();
    for _ in 0..8 {
        let script = l.write_next_bank();
        visited.push(script_addr(&script));
    }
    assert_eq!(visited, vec![1, 2, 3, 4, 5, 6, 7, 0]);
    // the ninth refresh starts the cycle again: no repeats, no skips
    let script = l.write_next_bank();
    assert_eq!(script_addr(&script), 1);
}

#[test]
fn full_pattern_shifts_32_high_bits_before_latch() {
    let mut l = Leds::new(dark_led_pins());
    l.set_bank_value(1, 0xFFFFFFFF);
    let script = l.write_next_bank();

    let mut data_high = 0;
    let mut data_low = 0;
    let mut clock_rises = 0;
    let mut last_clock_rise = 0;
    let mut latch_rise = None;
    for (i, a) in script.iter().enumerate() {
        match a {
            LedAction::Drive(LedLine::LsDai, true) => data_high += 1,
            LedAction::Drive(LedLine::LsDai, false) => data_low += 1,
            LedAction::Drive(LedLine::LsDck, true) => {
                clock_rises += 1;
                last_clock_rise = i;
            }
            LedAction::Drive(LedLine::LsLat, true) => latch_rise = Some(i),
            _ => {}
        }
    }
    assert_eq!(data_high, 32);
    assert_eq!(data_low, 0);
    assert_eq!(clock_rises, 32);
    assert!(last_clock_rise < latch_rise.expect("no latch pulse in script"));
}

#[test]
fn led_script_shifts_lsb_first() {
    let mut l = Leds::new(dark_led_pins());
    l.set_bank_value(1, 0x00000005); // bits 0 and 2
    let script = l.write_next_bank();
    let mut data_levels = Vec::new();
    for a in script.iter() {
        if let LedAction::Drive(LedLine::LsDai, v) = a {
            data_levels.push(*v);
        }
    }
    assert_eq!(data_levels.len(), 32);
    assert!(data_levels[0]);
    assert!(!data_levels[1]);
    assert!(data_levels[2]);
    for k in 3..32 {
        assert!(!data_levels[k]);
    }
}

#[test]
fn led_blanking_spans_whole_update() {
    let mut l = Leds::new(dark_led_pins());
    l.set_bank_value(1, 0x12345678);
    let script = l.write_next_bank();
    let n = script.len();
    assert!(matches!(script[0], LedAction::Drive(LedLine::HsEnL, true)));
    assert!(matches!(script[1], LedAction::Drive(LedLine::LsEnL, true)));
    assert!(matches!(script[n - 2], LedAction::Drive(LedLine::LsEnL, false)));
    assert!(matches!(script[n - 1], LedAction::Drive(LedLine::HsEnL, false)));
    for a in script[2..n - 2].iter() {
        assert!(!matches!(a, LedAction::Drive(LedLine::HsEnL, _)));
        assert!(!matches!(a, LedAction::Drive(LedLine::LsEnL, _)));
    }
}

#[test]
fn led_script_leaves_lines_settled() {
    let mut l = Leds::new(dark_led_pins());
    l.set_bank_value(1, 0xA5A5A5A5);
    let script = l.write_next_bank();
    let mut pins = dark_led_pins();
    for a in &script {
        pins.apply(*a);
    }
    // drivers re-enabled, bank 1 addressed, clock and latch back low,
    // the data line left at the last (most significant) bit
    assert!(!pins.hs_en_l);
    assert!(!pins.ls_en_l);
    assert!(pins.hs_a0);
    assert!(!pins.hs_a1);
    assert!(!pins.hs_a2);
    assert!(!pins.ls_dck);
    assert!(!pins.ls_lat);
    assert!(pins.ls_dai);
}

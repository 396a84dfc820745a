use bytebox::psg::Psg;
use bytebox::sound::{Generators, Params, PRESCALER, PSG_CLOCK, SAMPLE_RATE, VOLUME_FULL, VOLUME_TABLE};

fn silent_registers() -> [u8; 16] {
    let mut regs = [0u8; 16];
    regs[7] = 0x3F;
    regs
}

fn tone_a_registers(period: u16, volume: u8) -> [u8; 16] {
    let mut regs = silent_registers();
    regs[0] = period as u8;
    regs[1] = (period >> 8) as u8 & 0x0F;
    regs[7] = 0x3E;
    regs[8] = volume;
    regs
}

fn count_tone_edges(g: &mut Generators, regs: &[u8; 16], cycles: u32) -> u32 {
    let mut edges = 0;
    let mut previous = g.tone_states()[0];
    for _ in 0..cycles {
        g.run(regs, 1);
        let current = g.tone_states()[0];
        if current != previous {
            edges += 1;
            previous = current;
        }
    }
    edges
}

fn envelope_sequence(shape: u8, steps: usize) -> Vec<u8> {
    let mut g = Generators::new();
    g.write_envelope_shape(shape);
    let mut out = vec![g.envelope_volume()];
    for _ in 1..steps {
        g.advance_envelope();
        out.push(g.envelope_volume());
    }
    out
}

/// The levels of the three channels at each PSG cycle, over `cycles`.
fn level_trace(g: &mut Generators, regs: &[u8; 16], cycles: u32) -> Vec<[Option<u8>; 3]> {
    let p = Params::from_registers(regs);
    let mut out = Vec::with_capacity(cycles as usize);
    for _ in 0..cycles {
        g.run(regs, 1);
        out.push(g.channel_levels(&p));
    }
    out
}

/// The PSG's registers and its generators, wired as the emulator wires
/// them: a write of R13 restarts the envelope, CPU time drives both.
struct Chip {
    psg: Psg,
    g: Generators,
    due: u32,
}

impl Chip {
    fn new() -> Chip {
        Chip { psg: Psg::new(), g: Generators::new(), due: 0 }
    }
    fn write(&mut self, reg: u8, val: u8) {
        self.psg.selected_register = reg;
        self.psg.write_current_register(val);
        if self.psg.take_envelope_restart() {
            self.g.write_envelope_shape(self.psg.registers[13]);
        }
    }
    fn tick(&mut self, cpu_ticks: u32) {
        self.psg.tick(cpu_ticks);
        let cycles = self.g.psg_cycles(cpu_ticks);
        self.due += self.g.run(&self.psg.registers, cycles);
    }
}

#[test]
fn cpu_ticks_are_divided_by_four_without_losing_the_remainder() {
    let mut g = Generators::new();
    for _ in 0..3 {
        assert_eq!(g.psg_cycles(1), 0, "no PSG cycle may have passed yet");
    }
    assert_eq!(g.psg_cycles(1), 1, "the 4th CPU cycle makes one PSG cycle");
    assert_eq!(g.psg_cycles(10), 2);
    assert_eq!(g.psg_cycles(2), 1);
}

#[test]
fn one_second_of_cpu_time_produces_one_second_of_samples() {
    let mut g = Generators::new();
    let regs = silent_registers();
    let mut due = 0u32;
    for _ in 0..1_000_000 {
        let cycles = g.psg_cycles(4);
        due += g.run(&regs, cycles);
    }
    assert!(due.abs_diff(SAMPLE_RATE) <= 1, "{due} samples in one second instead of {SAMPLE_RATE}");
    let mut h = Generators::new();
    let once = h.run(&regs, PSG_CLOCK);
    assert!(once.abs_diff(SAMPLE_RATE) <= 1);
}

#[test]
fn tone_frequency_matches_the_datasheet_formula() {
    for period in [1u16, 100, 284, 4095] {
        let mut g = Generators::new();
        let regs = tone_a_registers(period, 15);
        let edges = count_tone_edges(&mut g, &regs, PSG_CLOCK);
        let expected = 2 * PSG_CLOCK / (16 * period as u32);
        assert!(edges.abs_diff(expected) <= 1, "period {period}: {edges} edges instead of {expected}");
    }
}

#[test]
fn the_period_uses_the_twelve_bits_of_both_registers() {
    let mut g = Generators::new();
    let mut regs = tone_a_registers(0, 15);
    regs[0] = 0x34;
    regs[1] = 0x02;
    let edges = count_tone_edges(&mut g, &regs, PSG_CLOCK);
    let expected = 2 * PSG_CLOCK / (16 * 0x234);
    assert!(edges.abs_diff(expected) <= 1, "{edges} edges instead of {expected}");
}

#[test]
fn a_zero_period_behaves_like_a_period_of_one() {
    let mut zero = Generators::new();
    let mut one = Generators::new();
    let edges_zero = count_tone_edges(&mut zero, &tone_a_registers(0, 15), 10_000);
    let edges_one = count_tone_edges(&mut one, &tone_a_registers(1, 15), 10_000);
    assert_eq!(edges_zero, edges_one);
    assert!(edges_zero > 0);
}

#[test]
fn a_square_wave_spends_half_its_time_high() {
    let mut g = Generators::new();
    let regs = tone_a_registers(100, 15);
    let trace = level_trace(&mut g, &regs, PSG_CLOCK);
    let high = trace.iter().filter(|l| l[0] == Some(15)).count() as f64;
    let fraction = high / trace.len() as f64;
    assert!((fraction - 0.5).abs() < 0.01, "high {fraction} of the time instead of half");
}

#[test]
fn the_three_channels_are_mixed_together() {
    let mut regs = silent_registers();
    regs[7] = 0x38;
    for (channel, period) in [100u16, 150, 200].into_iter().enumerate() {
        regs[channel * 2] = period as u8;
        regs[channel * 2 + 1] = (period >> 8) as u8;
        regs[8 + channel] = 15;
    }
    let mut g = Generators::new();
    let trace = level_trace(&mut g, &regs, PSG_CLOCK);
    assert!(
        trace.iter().any(|l| l.iter().all(|&c| c == Some(15))),
        "the three channels at full volume together must reach the top"
    );
    let sum: usize = trace.iter().map(|l| l.iter().filter(|&&c| c == Some(15)).count()).sum();
    let mean = sum as f64 / (3 * trace.len()) as f64;
    assert!((mean - 0.5).abs() < 0.01, "three squares of duty 1/2: mean {mean} instead of 0.5");
}

#[test]
fn everything_disabled_gives_a_constant_level() {
    let mut regs = silent_registers();
    regs[0] = 100;
    regs[6] = 1;
    regs[8] = 15;
    regs[9] = 15;
    regs[10] = 15;
    let mut g = Generators::new();
    let trace = level_trace(&mut g, &regs, PSG_CLOCK / 10);
    assert!(trace.iter().all(|l| *l == [Some(15); 3]));
}

#[test]
fn a_zero_amplitude_is_silent_even_with_the_tone_enabled() {
    let mut g = Generators::new();
    let regs = tone_a_registers(100, 0);
    let trace = level_trace(&mut g, &regs, PSG_CLOCK / 10);
    assert!(trace.iter().all(|l| l.iter().all(|c| c.is_none() || *c == Some(0))));
}

#[test]
fn a_disabled_tone_stays_high_and_lets_the_noise_through() {
    let mut regs = silent_registers();
    regs[6] = 1;
    regs[7] = 0x37;
    regs[8] = 15;
    let mut g = Generators::new();
    let trace = level_trace(&mut g, &regs, PSG_CLOCK / 10);
    assert!(
        trace.iter().any(|l| l[0] == Some(15)) && trace.iter().any(|l| l[0].is_none()),
        "the noise must modulate the output"
    );
}

#[test]
fn a_tone_alone_is_never_gated_by_the_noise() {
    let mut g = Generators::new();
    let regs = tone_a_registers(400, 15);
    let trace = level_trace(&mut g, &regs, PSG_CLOCK / 10);
    assert!(trace.iter().any(|l| l[0] == Some(15)), "the high half-periods reach full level");
    let mut edges: u32 = 0;
    for w in trace.windows(2) {
        if w[0][0] != w[1][0] {
            edges += 1;
        }
    }
    let expected = (PSG_CLOCK / 10) / (PRESCALER * 400);
    assert!(edges.abs_diff(expected) <= 1, "only the square switches the channel: {edges} edges");
}

#[test]
fn amplitude_bit_four_switches_the_channel_to_the_envelope() {
    let mut regs = tone_a_registers(400, 0);
    regs[8] = 0x10;
    regs[11] = 0xFF;
    regs[12] = 0x00;
    let mut g = Generators::new();
    g.write_envelope_shape(0x09);
    let loud = level_trace(&mut g, &regs, 20_000);
    assert!(loud.iter().any(|l| l[0] == Some(15)), "the envelope starts at full volume");
    g.run(&regs, 16 * 16 * 255);
    let after = level_trace(&mut g, &regs, 20_000);
    assert!(after.iter().all(|l| l[0].is_none() || l[0] == Some(0)), "a finished envelope mutes the channel");
}

#[test]
fn the_noise_shift_register_runs_at_half_the_counter_rate() {
    let mut regs = silent_registers();
    regs[6] = 5;
    let mut g = Generators::new();
    let start = g.noise_lfsr();
    g.run(&regs, PRESCALER * 5 * 2 - 1);
    assert_eq!(g.noise_lfsr(), start, "shifted too early");
    g.run(&regs, 1);
    assert_ne!(g.noise_lfsr(), start, "a shift was due");
}

#[test]
fn a_zero_noise_period_behaves_like_a_period_of_one() {
    let mut zero = silent_registers();
    zero[6] = 0;
    let mut one = silent_registers();
    one[6] = 1;
    let mut a = Generators::new();
    let mut b = Generators::new();
    a.run(&zero, 10_000);
    b.run(&one, 10_000);
    assert_eq!(a.noise_lfsr(), b.noise_lfsr());
}

#[test]
fn the_noise_sequence_is_a_maximal_length_17_bit_register() {
    let mut g = Generators::new();
    let start = g.noise_lfsr();
    let mut period = 0u32;
    for i in 1..=(1u32 << 17) {
        g.step_noise();
        if g.noise_lfsr() == start {
            period = i;
            break;
        }
    }
    assert_eq!(period, (1 << 17) - 1, "a sequence of 2^17 - 1 states");
}

#[test]
fn envelope_shapes_follow_the_datasheet() {
    for shape in 0x00..=0x03 {
        assert_eq!(envelope_sequence(shape, 20), envelope_sequence(0x09, 20), "shape {shape:#04X}");
    }
    for shape in 0x04..=0x07 {
        assert_eq!(envelope_sequence(shape, 20), envelope_sequence(0x0F, 20), "shape {shape:#04X}");
    }
    let down: Vec<u8> = (0..16).rev().collect();
    let up: Vec<u8> = (0..16).collect();
    assert_eq!(envelope_sequence(0x09, 20), [&down[..], &[0; 4][..]].concat());
    assert_eq!(envelope_sequence(0x0F, 20), [&up[..], &[0; 4][..]].concat());
    assert_eq!(envelope_sequence(0x08, 32), [&down[..], &down[..]].concat());
    assert_eq!(envelope_sequence(0x0C, 32), [&up[..], &up[..]].concat());
    assert_eq!(envelope_sequence(0x0A, 32), [&down[..], &up[..]].concat());
    assert_eq!(envelope_sequence(0x0E, 32), [&up[..], &down[..]].concat());
    assert_eq!(envelope_sequence(0x0B, 20), [&down[..], &[15; 4][..]].concat());
    assert_eq!(envelope_sequence(0x0D, 20), [&up[..], &[15; 4][..]].concat());
}

#[test]
fn envelope_period_matches_the_datasheet_formula() {
    let period: u32 = 0x0100;
    let mut regs = silent_registers();
    regs[11] = period as u8;
    regs[12] = (period >> 8) as u8;
    let mut g = Generators::new();
    g.write_envelope_shape(0x08);
    g.run(&regs, 16 * period);
    assert_eq!(g.envelope_volume(), 14);
    g.run(&regs, 15 * 16 * period);
    assert_eq!(g.envelope_volume(), 15);
}

#[test]
fn a_zero_envelope_period_behaves_like_a_period_of_one() {
    let mut zero = silent_registers();
    zero[11] = 0;
    zero[12] = 0;
    let mut one = silent_registers();
    one[11] = 1;
    one[12] = 0;
    let mut a = Generators::new();
    let mut b = Generators::new();
    a.write_envelope_shape(0x08);
    b.write_envelope_shape(0x08);
    a.run(&zero, 1000);
    b.run(&one, 1000);
    assert_eq!(a.envelope_volume(), b.envelope_volume());
}

#[test]
fn writing_the_shape_restarts_the_envelope() {
    let mut regs = silent_registers();
    regs[11] = 0x10;
    let mut g = Generators::new();
    g.write_envelope_shape(0x08);
    g.run(&regs, 16 * 0x10 * 5);
    assert_eq!(g.envelope_volume(), 10);
    g.write_envelope_shape(0x08);
    assert_eq!(g.envelope_volume(), 15);
}

#[test]
fn a_held_envelope_stops_counting() {
    let mut regs = silent_registers();
    regs[11] = 0x01;
    let mut g = Generators::new();
    g.write_envelope_shape(0x0B);
    g.run(&regs, 100_000);
    assert_eq!(g.envelope_volume(), 15);
    g.run(&regs, 100_000);
    assert_eq!(g.envelope_volume(), 15);
}

#[test]
fn writing_r13_restarts_the_envelope_even_with_the_same_value() {
    let mut chip = Chip::new();
    chip.write(11, 0x10);
    chip.write(12, 0x00);
    chip.write(13, 0x08);
    chip.tick(4 * 16 * 0x10 * 5);
    assert_eq!(chip.g.envelope_volume(), 10);
    chip.write(13, 0x08);
    assert_eq!(chip.g.envelope_volume(), 15, "writing R13 again restarts the envelope");
}

#[test]
fn writing_another_register_does_not_disturb_the_envelope() {
    let mut chip = Chip::new();
    chip.write(11, 0x10);
    chip.write(13, 0x08);
    chip.tick(4 * 16 * 0x10 * 5);
    chip.write(8, 15);
    assert_eq!(chip.g.envelope_volume(), 10);
}

#[test]
fn the_psg_advances_at_a_quarter_of_the_cpu_clock() {
    let mut chip = Chip::new();
    chip.write(7, 0x3E);
    chip.write(0, 100);
    chip.write(8, 15);
    let mut ticks = 0u32;
    let mut i = 0;
    while ticks < 4 * PSG_CLOCK {
        let chunk = [4u32, 7, 11, 13][i % 4].min(4 * PSG_CLOCK - ticks);
        chip.tick(chunk);
        ticks += chunk;
        i += 1;
    }
    assert!(chip.due.abs_diff(SAMPLE_RATE) <= 2, "{} samples for one second of CPU", chip.due);
}

#[test]
fn the_volume_table_is_silent_at_zero_full_at_fifteen_and_monotonic() {
    let table: Vec<f32> = VOLUME_TABLE.iter().map(|&v| v as f32 / VOLUME_FULL as f32).collect();
    assert_eq!(table[0], 0.0);
    assert_eq!(table[15], 1.0);
    for pair in table.windows(2) {
        assert!(pair[1] > pair[0], "table not monotonic: {pair:?}");
    }
    assert!(table[7] < 0.25, "the scale must be logarithmic");
}

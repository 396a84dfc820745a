use bytebox::machine::{pace_frame, FramePace};
use bytebox::machine::{cpc_instruction_time, emulated_duration, MachineError};
use std::time::Duration;

#[test]
fn instructions_last_a_whole_number_of_microseconds() {
    for (nominal, cpc) in [
        (4, 4),
        (6, 8),
        (7, 8),
        (10, 12),
        (11, 12),
        (13, 16),
        (17, 20),
        (19, 20),
        (21, 24),
        (23, 24),
    ] {
        assert_eq!(cpc_instruction_time(nominal), cpc, "instruction de {nominal} cycles");
    }
}

#[test]
fn the_gate_array_never_shortens_an_instruction() {
    for nominal in 1..=32u32 {
        let cpc = cpc_instruction_time(nominal);
        assert_eq!(cpc % 4, 0, "{nominal} cycles");
        assert!(cpc >= nominal, "{nominal} cycles");
        assert!(cpc - nominal < 4, "{nominal} cycles : arrondi excessif");
    }
}

#[test]
fn emulated_time_matches_the_cpc_clock() {
    assert_eq!(
        emulated_duration(4_000_000),
        Duration::from_secs(1),
        "4 MHz : quatre millions de cycles font une seconde"
    );
    assert_eq!(emulated_duration(312 * 256).as_micros(), 312 * 64, "une trame standard dure 312 scanlines de 64 us");
}

#[test]
fn machine_errors_describe_themselves() {
    assert_eq!(MachineError::ConfigFileFmt.message(), "Bad config file format");
    assert_eq!(MachineError::IOError.message(), "I/O Error");
}

#[test]
fn a_frame_on_time_sleeps_until_its_deadline_and_a_late_one_does_not_catch_up() {
    assert_eq!(
        pace_frame(1_000, 20_000_000, 20_000_000),
        FramePace { sleep: 19_999_000, next: 40_000_000, late: false }
    );
    assert_eq!(
        pace_frame(25_000_000, 20_000_000, 20_000_000),
        FramePace { sleep: 0, next: 45_000_000, late: true }
    );
    assert_eq!(pace_frame(5, u64::MAX, 10).next, u64::MAX);
}

use bytebox::command::{apply_command, FrontAction};
use bytebox::machine::Machine;
use bytebox::monitor::{parse_command, MonitorCmd};

fn run(m: &mut Machine, line: &str) -> (Vec<String>, FrontAction) {
    let out = apply_command(m, &parse_command(line));
    (out.log, out.action)
}

#[test]
fn pause_and_resume_stop_and_restart_the_machine() {
    let mut m = Machine::new(0, false);
    let (log, _) = run(&mut m, "p");
    assert!(!m.running);
    assert_eq!(log, vec!["Emulation paused !"]);
    run(&mut m, "g");
    assert!(m.running);
}

#[test]
fn breakpoints_are_added_and_removed_by_address() {
    let mut m = Machine::new(0, false);
    let (log, _) = run(&mut m, "b &0038");
    assert!(m.breakpoints.contains(&0x0038));
    assert_eq!(log, vec!["New breakpoint at 0x0038"]);
    let (log, _) = run(&mut m, "f 38");
    assert!(!m.breakpoints.contains(&0x0038));
    assert_eq!(log, vec!["Breakpoint at 0x0038 removed"]);
    let (log, _) = run(&mut m, "f 38");
    assert!(log.is_empty());
    let (log, _) = run(&mut m, "b zz");
    assert_eq!(log, vec!["not a 16-bit hexadecimal value: 'zz'"]);
    let (log, _) = run(&mut m, "w 4000");
    assert!(m.bus.watchpoints.contains(&0x4000));
    assert_eq!(log, vec!["New watchpoint at 0x4000"]);
}

#[test]
fn a_memory_write_goes_to_the_machine() {
    let mut m = Machine::new(0, false);
    let (_, action) = run(&mut m, "m 4000 AB");
    assert!(matches!(action, FrontAction::WroteMem(0x4000, 0xAB)));
    assert_eq!(m.bus.read_byte(0x4000), 0xAB);
}

#[test]
fn a_ram_dump_shows_rows_of_16_bytes() {
    let mut m = Machine::new(0, false);
    m.bus.write_byte(0x4000, 0x41);
    m.bus.write_byte(0x4001, 0x07);
    let (log, _) = run(&mut m, "mr 4000 401F");
    assert_eq!(log.len(), 2);
    assert_eq!(log[0], "4000  41 07 00 00 00 00 00 00 00 00 00 00 00 00 00 00  A...............");
    assert!(log[1].starts_with("4010  "));
    let (log, _) = run(&mut m, "mr FFF8");
    assert_eq!(log.len(), 1);
}

#[test]
fn the_snapshot_arguments_choose_save_or_load() {
    let mut m = Machine::new(0, false);
    assert!(matches!(run(&mut m, "snap f.sna").1, FrontAction::SaveSnapshot(f) if f == "f.sna"));
    assert!(matches!(run(&mut m, "snap load f.sna").1, FrontAction::LoadSnapshot(f) if f == "f.sna"));
    assert!(matches!(run(&mut m, "snap save g.sna").1, FrontAction::SaveSnapshot(f) if f == "g.sna"));
    let (log, action) = run(&mut m, "snap load");
    assert!(matches!(action, FrontAction::Nothing));
    assert_eq!(log, vec!["Usage: snap <file> | snap load <file>"]);
}

#[test]
fn the_trace_commands_switch_the_recorder() {
    let mut m = Machine::new(0, false);
    let (log, _) = run(&mut m, "t on");
    assert_eq!(log, vec!["Trace started (every instruction)."]);
    let (log, _) = run(&mut m, "t off");
    assert_eq!(log, vec!["Trace stopped. 0 instruction(s) kept."]);
    assert!(matches!(run(&mut m, "t dump 5").1, FrontAction::TraceDump(5)));
    assert!(matches!(run(&mut m, "t dump").1, FrontAction::TraceDump(32)));
    assert!(matches!(run(&mut m, "t dump x").1, FrontAction::TraceDump(32)));
}

#[test]
fn eject_and_load_are_told_apart() {
    let mut m = Machine::new(0, false);
    assert!(matches!(run(&mut m, "disk eject").1, FrontAction::Nothing));
    assert!(matches!(run(&mut m, "disk game.dsk b").1, FrontAction::LoadDisk(f, true) if f == "game.dsk"));
    let (log, _) = run(&mut m, "tape eject");
    assert_eq!(log, vec!["Tape ejected."]);
    assert!(m.bus.tape.current_filename.is_none());
    let (log, _) = run(&mut m, "hw kb");
    assert!(m.waiting_for_key);
    assert_eq!(log.len(), 1);
    let _ = MonitorCmd::Help;
}

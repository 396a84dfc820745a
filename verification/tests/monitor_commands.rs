use bytebox::console_panel::ConsolePanel;
use bytebox::monitor::{parse_command, MonitorCmd};

#[test]
fn a_line_splits_into_a_command_and_two_arguments() {
    let (cmd, arg, arg2) = parse_command("m 4000 FF\n");
    assert_eq!(cmd, MonitorCmd::WriteMem);
    assert_eq!(arg, "4000");
    assert_eq!(arg2, "FF");
    let (cmd, arg, arg2) = parse_command("  m\t4000  ");
    assert_eq!(cmd, MonitorCmd::ReadMem);
    assert_eq!(arg, "4000");
    assert_eq!(arg2, "");
}

#[test]
fn list_or_add_depends_on_the_argument() {
    assert_eq!(parse_command("b").0, MonitorCmd::ListBreakpoints);
    assert_eq!(parse_command("b 38").0, MonitorCmd::AddBreakpoint);
    assert_eq!(parse_command("w").0, MonitorCmd::ListWatchpoints);
    assert_eq!(parse_command("w C000").0, MonitorCmd::AddWatchpoint);
}

#[test]
fn every_command_name_is_recognised() {
    let table = [
        ("h", MonitorCmd::Help),
        ("help", MonitorCmd::Help),
        ("r", MonitorCmd::Registers),
        ("p", MonitorCmd::Pause),
        ("g", MonitorCmd::Resume),
        ("hw", MonitorCmd::Hardware),
        ("l", MonitorCmd::StepLine),
        ("n", MonitorCmd::Step),
        ("d", MonitorCmd::Disassemble),
        ("j", MonitorCmd::Jump),
        ("f", MonitorCmd::RemoveBreakpoint),
        ("fw", MonitorCmd::RemoveWatchpoint),
        ("s", MonitorCmd::SearchMem),
        ("disk", MonitorCmd::Disk),
        ("blank", MonitorCmd::Blank),
        ("tape", MonitorCmd::Tape),
        ("snap", MonitorCmd::Snapshot),
        ("pc", MonitorCmd::PowerCycle),
        ("t", MonitorCmd::Trace),
        ("mr", MonitorCmd::ReadRam),
        ("vol", MonitorCmd::Volume),
        ("volume", MonitorCmd::Volume),
        ("xyz", MonitorCmd::Unknown),
        ("", MonitorCmd::Unknown),
    ];
    for (name, expected) in table {
        assert_eq!(parse_command(name).0, expected, "commande {name:?}");
    }
}

#[test]
fn unicode_white_space_separates_words_too() {
    let (cmd, arg, _) = parse_command("disk\u{3000}game.dsk");
    assert_eq!(cmd, MonitorCmd::Disk);
    assert_eq!(arg, "game.dsk");
}

#[test]
fn output_lines_join_the_history_without_blank_lines() {
    let mut panel = ConsolePanel::new();
    panel.push_output("");
    assert!(panel.history.is_empty());
    panel.push_output("a\r\nb\n\nc");
    assert_eq!(panel.history, vec!["a", "b", "", "c"]);
    panel.push_output("d\n");
    assert_eq!(panel.history.len(), 5);
}

#[test]
fn a_submitted_line_goes_to_the_history_and_the_machine() {
    let mut panel = ConsolePanel::new();
    panel.request_focus = false;
    panel.input = String::from("   ");
    assert!(panel.submit().is_none());
    assert!(panel.history.is_empty());
    assert!(panel.request_focus);
    panel.input = String::from("b 0038");
    let (cmd, arg, _) = panel.submit().expect("une commande");
    assert_eq!(cmd, MonitorCmd::AddBreakpoint);
    assert_eq!(arg, "0038");
    assert_eq!(panel.history, vec!["> b 0038"]);
    assert!(panel.input.is_empty());
}

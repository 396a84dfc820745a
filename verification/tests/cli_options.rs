use bytebox::cli::{cli_value, ensure_validated};

#[test]
fn main_a_command_without_a_trailing_newline_gets_one() {
    assert_eq!(ensure_validated("RUN\"BARBA.I"), "RUN\"BARBA.I\n");
}

#[test]
fn main_a_command_that_already_ends_with_a_newline_is_left_alone() {
    assert_eq!(ensure_validated("RUN\"BARBA.I\n"), "RUN\"BARBA.I\n");
}

#[test]
fn main_an_empty_command_still_gets_a_newline() {
    assert_eq!(ensure_validated(""), "\n");
}

#[test]
fn cli_value_accepts_the_equals_and_the_space_forms() {
    let args: Vec<String> = ["prog", "--autocmd=RUN\"A", "-d", "d.dsk"].iter().map(|s| s.to_string()).collect();
    assert_eq!(cli_value(&args, &["--autocmd", "-a"]), Some("RUN\"A".to_string()));
    assert_eq!(cli_value(&args, &["--disk", "-d"]), Some("d.dsk".to_string()));
    assert!(!args.contains(&"--diag".to_string()));
}

#[test]
fn an_option_given_last_without_its_value_has_none() {
    let args: Vec<String> = ["prog", "-t"].iter().map(|s| s.to_string()).collect();
    assert_eq!(cli_value(&args, &["--tape", "-t"]), None);
    assert_eq!(cli_value(&args, &["--disk", "-d"]), None);
}

#[test]
fn validating_twice_adds_a_single_newline() {
    let once = ensure_validated("LIST");
    assert_eq!(ensure_validated(&once), once);
}

use bytebox::engine::autotype::{
    ensure_validated, key_for_char, AutoTyper, PRESS_TICKS, RELEASE_TICKS, STARTUP_DELAY_TICKS,
};
use bytebox::psg::Psg;

#[test]
fn autotype_a_command_without_a_trailing_newline_gets_one() {
    assert_eq!(ensure_validated("RUN\"BARBA.I"), "RUN\"BARBA.I\n");
}

#[test]
fn autotype_a_command_that_already_ends_with_a_newline_is_left_alone() {
    assert_eq!(ensure_validated("RUN\"BARBA.I\n"), "RUN\"BARBA.I\n");
}

#[test]
fn autotype_an_empty_command_still_gets_a_newline() {
    assert_eq!(ensure_validated(""), "\n");
}

fn pressed_keys(psg: &Psg) -> Vec<(usize, u8)> {
    let mut v = Vec::new();
    for (line, mask) in psg.keyboard_matrix.iter().enumerate() {
        for bit in 0..8 {
            if mask & (1 << bit) == 0 {
                v.push((line, bit));
            }
        }
    }
    v
}

#[test]
fn nothing_is_pressed_before_the_startup_delay_elapses() {
    let mut psg = Psg::new();
    let mut typer = AutoTyper::new("A");
    typer.advance(&mut psg.keyboard_matrix, STARTUP_DELAY_TICKS - 1);
    assert!(pressed_keys(&psg).is_empty());
    assert!(!typer.is_done());
}

#[test]
fn a_single_character_is_pressed_then_released() {
    let mut psg = Psg::new();
    let mut typer = AutoTyper::new("A");

    typer.advance(&mut psg.keyboard_matrix, STARTUP_DELAY_TICKS);
    assert_eq!(pressed_keys(&psg), vec![(8, 3)], "A doit etre enfoncee");

    typer.advance(&mut psg.keyboard_matrix, PRESS_TICKS);
    assert!(pressed_keys(&psg).is_empty(), "puis relachee");

    typer.advance(&mut psg.keyboard_matrix, RELEASE_TICKS);
    assert!(typer.is_done());
}

#[test]
fn digits_are_typed_with_shift_held() {
    let mut psg = Psg::new();
    let mut typer = AutoTyper::new("1");
    typer.advance(&mut psg.keyboard_matrix, STARTUP_DELAY_TICKS);
    let mut keys = pressed_keys(&psg);
    keys.sort();
    assert_eq!(keys, vec![(2, 5), (8, 0)], "SHIFT et la touche du chiffre");
}

#[test]
fn lowercase_and_uppercase_letters_use_the_same_key() {
    assert_eq!(key_for_char('a'), key_for_char('A'));
}

#[test]
fn an_unmapped_character_is_skipped_without_blocking_the_rest() {
    let mut psg = Psg::new();
    let mut typer = AutoTyper::new("A€B");
    assert_eq!(AutoTyper::unmapped_chars("A€B"), vec!['€']);

    typer.advance(&mut psg.keyboard_matrix, STARTUP_DELAY_TICKS);
    assert_eq!(pressed_keys(&psg), vec![(8, 3)], "A");
    typer.advance(&mut psg.keyboard_matrix, PRESS_TICKS + RELEASE_TICKS);
    assert_eq!(pressed_keys(&psg), vec![(6, 6)], "B, le caractere ignore n'a rien bloque");
}

#[test]
fn a_full_command_ends_up_done_and_releases_every_key() {
    let mut psg = Psg::new();
    let mut typer = AutoTyper::new("RUN\"A\n");
    let mut ticks = 0u32;
    let budget = STARTUP_DELAY_TICKS + 6 * (PRESS_TICKS + RELEASE_TICKS) + 1_000;
    while !typer.is_done() {
        typer.advance(&mut psg.keyboard_matrix, 1000);
        ticks += 1000;
        assert!(ticks < budget, "la frappe ne doit pas s'eterniser");
    }
    assert!(pressed_keys(&psg).is_empty(), "aucune touche ne doit rester enfoncee");
}

#[test]
fn quote_and_digit_three_share_a_key_but_differ_by_shift() {
    assert_eq!(key_for_char('"'), Some(((7, 1), false)));
    assert_eq!(key_for_char('3'), Some(((7, 1), true)));
}

#[test]
fn the_rsx_prefix_is_u_grave_not_pipe() {
    assert_eq!(key_for_char('ù'), Some(((3, 4), false)));
    assert_eq!(key_for_char('Ù'), Some(((3, 4), false)));
}

#[test]
fn a_pipe_has_no_key() {
    assert_eq!(key_for_char('|'), None);
    assert_eq!(key_for_char('z'), Some(((7, 3), false)));
}

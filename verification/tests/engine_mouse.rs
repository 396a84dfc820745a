use bytebox::engine::mouse::Mouse;

#[test]
fn motion_is_ignored_while_disabled() {
    let mut mouse = Mouse::new();
    mouse.on_motion(5, -3);
    assert_eq!(mouse.read_dx(), 0);
    assert_eq!(mouse.read_dy(), 0);
}

#[test]
fn reading_a_delta_consumes_it() {
    let mut mouse = Mouse::new();
    mouse.enabled = true;
    mouse.on_motion(5, -3);
    assert_eq!(mouse.read_dx(), 5);
    assert_eq!(mouse.read_dx(), 0, "une deuxieme lecture doit rendre 0");
    assert_eq!(mouse.read_dy() as i8, -3);
}

#[test]
fn several_motions_accumulate_before_being_read() {
    let mut mouse = Mouse::new();
    mouse.enabled = true;
    mouse.on_motion(2, 1);
    mouse.on_motion(3, 1);
    assert_eq!(mouse.read_dx(), 5);
    assert_eq!(mouse.read_dy(), 2);
}

#[test]
fn a_delta_faster_than_the_read_rate_saturates_instead_of_wrapping() {
    let mut mouse = Mouse::new();
    mouse.enabled = true;
    mouse.on_motion(1000, -1000);
    assert_eq!(mouse.read_dx() as i8, i8::MAX);
    assert_eq!(mouse.read_dy() as i8, i8::MIN);
}

#[test]
fn buttons_reflect_current_state_and_are_not_consumed_by_reading() {
    let mut mouse = Mouse::new();
    mouse.set_button(0, true);
    mouse.set_button(2, true);
    assert_eq!(mouse.read_buttons(), 0b101);
    assert_eq!(mouse.read_buttons(), 0b101, "la lecture ne doit pas consommer l'etat");
    mouse.set_button(0, false);
    assert_eq!(mouse.read_buttons(), 0b100);
}

#[test]
fn an_out_of_range_button_index_is_ignored() {
    let mut mouse = Mouse::new();
    mouse.set_button(7, true);
    assert_eq!(mouse.read_buttons(), 0);
}

#[test]
fn accumulation_saturates_at_the_integer_limits() {
    let mut mouse = Mouse::new();
    mouse.enabled = true;
    mouse.on_motion(i32::MAX, i32::MIN);
    mouse.on_motion(10, -10);
    assert_eq!(mouse.dx, i32::MAX);
    assert_eq!(mouse.dy, i32::MIN);
}

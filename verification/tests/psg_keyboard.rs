use bytebox::engine::keys::{Keycode, Scancode};
use bytebox::psg::{Psg, DEFER_TICKS};

#[test]
fn the_iso_hash_at_key_never_engages_the_cpc_shift() {
    let mut psg = Psg::new();

    // SHIFT physique déjà enfoncé (ligne 2, bit 5 à 0 = pressé).
    psg.set_key_state(Keycode::LShift, true);
    assert_eq!(psg.keyboard_matrix[2] & (1 << 5), 0, "SHIFT CPC pose");

    // Puis la touche ISO "#/@" (Grave en Scancode), avec SHIFT Mac enfoncé
    // (shift_held = true, ce qui produit "@" côté Mac). Le relâchement du
    // SHIFT est immédiat, seule la position est différée (voir
    // `Psg::deferred`) : on laisse le temps s'écouler pour l'appliquer.
    psg.set_key_state_scancode(Scancode::Grave, true, true);
    assert_eq!(
        psg.keyboard_matrix[2] & (1 << 5),
        1 << 5,
        "le SHIFT CPC doit etre relache immediatement, malgre le SHIFT Mac enfonce"
    );
    psg.tick(DEFER_TICKS);

    assert_eq!(
        psg.keyboard_matrix[2] & (1 << 3),
        0,
        "le bit de position (2,3) du CPC doit etre pose apres le delai"
    );
    assert_eq!(
        psg.keyboard_matrix[2] & (1 << 5),
        1 << 5,
        "le SHIFT CPC doit rester relache"
    );
}
#[test]
fn virtual_keyboard_shift_release_and_hash_press_never_collide() {
    let mut psg = Psg::new();

    // Trame 1 : SHIFT seul, latché par un premier clic (F7).
    psg.apply_matrix_diff(&[], &[(2, 5)]);
    assert_eq!(psg.keyboard_matrix[2] & (1 << 5), 0, "SHIFT CPC pose");

    // Trame 2 : le loquet SHIFT se relâche ET la position "#/>" s'enfonce
    // dans le MÊME appel (voir `KeyboardPanel::ui`, `release_one_shot_latches`).
    psg.apply_matrix_diff(&[(2, 5)], &[(2, 3)]);
    assert_eq!(
        psg.keyboard_matrix[2] & (1 << 5),
        1 << 5,
        "le SHIFT CPC doit etre relache immediatement"
    );
    assert_eq!(
        psg.keyboard_matrix[2] & (1 << 3),
        1 << 3,
        "la position ne doit PAS encore etre posee, le temps qu'une scrutation propre s'intercale"
    );

    psg.tick(DEFER_TICKS);
    assert_eq!(
        psg.keyboard_matrix[2] & (1 << 3),
        0,
        "la position doit etre posee une fois le delai ecoule"
    );
    assert_eq!(
        psg.keyboard_matrix[2] & (1 << 5),
        1 << 5,
        "le SHIFT CPC doit rester relache"
    );
}
#[test]
fn virtual_keyboard_unrelated_lines_apply_immediately() {
    let mut psg = Psg::new();

    // Ligne 5 (lettre), aucun relâchement ailleurs cette trame.
    psg.apply_matrix_diff(&[], &[(5, 7)]);
    assert_eq!(
        psg.keyboard_matrix[5] & (1 << 7),
        0,
        "doit etre pose immediatement, sans attendre un tick"
    );
}
#[test]
fn the_dollar_asterisk_key_targets_two_unshifted_cpc_keys() {
    let mut psg = Psg::new();

    psg.set_key_state_scancode(Scancode::RightBracket, true, false);
    assert_eq!(psg.keyboard_matrix[2] & (1 << 6), 0, "\"$\" du CPC pose");
    assert_eq!(psg.keyboard_matrix[2] & (1 << 5), 1 << 5, "SHIFT CPC relache");
    psg.set_key_state_scancode(Scancode::RightBracket, false, false);

    psg.set_key_state_scancode(Scancode::RightBracket, true, true);
    assert_eq!(
        psg.keyboard_matrix[2] & (1 << 5),
        1 << 5,
        "SHIFT CPC relache immediatement"
    );
    psg.tick(DEFER_TICKS);
    assert_eq!(psg.keyboard_matrix[2] & (1 << 1), 0, "\"*\" du CPC pose");
    assert_eq!(psg.keyboard_matrix[2] & (1 << 5), 1 << 5, "SHIFT CPC relache");
}
#[test]
fn releasing_shift_before_the_dollar_asterisk_key_does_not_leave_a_bit_stuck() {
    let mut psg = Psg::new();

    // Appui avec SHIFT Mac tenu : vise "*" (2,1), appliqué apres le delai.
    psg.set_key_state_scancode(Scancode::RightBracket, true, true);
    psg.tick(DEFER_TICKS);
    assert_eq!(psg.keyboard_matrix[2] & (1 << 1), 0, "\"*\" pose a l'appui");

    // SHIFT deja retombe au moment du relachement de la touche.
    psg.set_key_state_scancode(Scancode::RightBracket, false, false);

    assert_eq!(
        psg.keyboard_matrix[2] & (1 << 1),
        1 << 1,
        "\"*\" doit etre relache, pas rester bloque"
    );
    assert_eq!(
        psg.keyboard_matrix[2] & (1 << 6),
        1 << 6,
        "\"$\" ne doit jamais avoir ete engage par ce relachement"
    );
    assert_eq!(
        psg.keyboard_matrix[2] & (1 << 5),
        1 << 5,
        "le SHIFT CPC doit etre relache par ce relachement, pas engage"
    );
}
#[test]
fn releasing_the_dollar_asterisk_key_after_a_shifted_press_releases_the_cpc_shift() {
    let mut psg = Psg::new();

    // SHIFT+$ : vise "*", relache immediat du SHIFT reel, position differee.
    psg.set_key_state_scancode(Scancode::RightBracket, true, true);
    psg.set_key_state_scancode(Scancode::RightBracket, false, true); // SHIFT Mac encore tenu au relachement
    psg.tick(DEFER_TICKS);

    assert_eq!(
        psg.keyboard_matrix[2] & (1 << 5),
        1 << 5,
        "le SHIFT CPC ne doit pas rester engage apres ce relachement"
    );

    // "$" seul, ensuite : ne doit pas heriter d'un SHIFT CPC fantome.
    psg.set_key_state_scancode(Scancode::RightBracket, true, false);
    assert_eq!(psg.keyboard_matrix[2] & (1 << 6), 0, "\"$\" pose");
    assert_eq!(
        psg.keyboard_matrix[2] & (1 << 5),
        1 << 5,
        "SHIFT CPC toujours relache : pas de \"a accent grave\" a la place de \"$\""
    );
}
#[test]
fn releasing_the_hash_at_key_after_a_shifted_press_releases_the_cpc_shift() {
    let mut psg = Psg::new();

    psg.set_key_state_scancode(Scancode::Grave, true, true);
    psg.set_key_state_scancode(Scancode::Grave, false, true);

    assert_eq!(
        psg.keyboard_matrix[2] & (1 << 5),
        1 << 5,
        "le SHIFT CPC ne doit pas rester engage apres ce relachement"
    );

    psg.set_key_state_scancode(Scancode::Grave, true, false);
    assert_eq!(psg.keyboard_matrix[2] & (1 << 3), 0, "\"#\" pose");
    assert_eq!(
        psg.keyboard_matrix[2] & (1 << 5),
        1 << 5,
        "SHIFT CPC toujours relache : pas de \">\" a la place de \"#\""
    );
}
#[test]
fn a_very_short_press_cancels_the_deferred_write() {
    let mut psg = Psg::new();

    psg.set_key_state_scancode(Scancode::RightBracket, true, true);
    psg.set_key_state_scancode(Scancode::RightBracket, false, true);
    psg.tick(DEFER_TICKS);

    assert_eq!(
        psg.keyboard_matrix[2] & (1 << 1),
        1 << 1,
        "\"*\" ne doit jamais s'engager apres un relachement aussi rapide"
    );
}
#[test]
fn a_key_repeat_does_not_retarget_the_dollar_asterisk_key_mid_hold() {
    let mut psg = Psg::new();

    psg.set_key_state_scancode(Scancode::RightBracket, true, true); // appui initial
    psg.set_key_state_scancode(Scancode::RightBracket, true, false); // repetition, SHIFT retombe
    psg.tick(DEFER_TICKS);

    assert_eq!(
        psg.keyboard_matrix[2] & (1 << 1),
        0,
        "\"*\" doit rester la cible verrouillee malgre la repetition"
    );
    assert_eq!(
        psg.keyboard_matrix[2] & (1 << 6),
        1 << 6,
        "\"$\" ne doit pas avoir ete engage par la repetition"
    );

    psg.set_key_state_scancode(Scancode::RightBracket, false, false);
    assert_eq!(psg.keyboard_matrix[2] & (1 << 1), 1 << 1, "\"*\" relache");
}
#[test]
fn the_iso_less_greater_key_targets_the_right_cpc_key_via_scancode() {
    // ">" (Mac shifté) : le SHIFT reel est deja engage par la touche SHIFT
    // elle-meme, rien a synthetiser, la position s'applique immediatement.
    let mut psg = Psg::new();
    psg.set_key_state(Keycode::LShift, true);
    psg.set_key_state_scancode(Scancode::NonUsBackslash, true, true);
    assert_eq!(psg.keyboard_matrix[2] & (1 << 3), 0, "\">\" position posee");
    assert_eq!(psg.keyboard_matrix[2] & (1 << 5), 0, "SHIFT CPC deja engage");

    // "<" (Mac SANS shift) : le SHIFT CPC est synthetise, engage
    // immediatement, position differee.
    let mut psg = Psg::new();
    psg.set_key_state_scancode(Scancode::NonUsBackslash, true, false);
    assert_eq!(
        psg.keyboard_matrix[2] & (1 << 5),
        0,
        "SHIFT CPC synthetise immediatement"
    );
    psg.tick(DEFER_TICKS);
    assert_eq!(psg.keyboard_matrix[2] & (1 << 1), 0, "\"<\" position posee");
    assert_eq!(psg.keyboard_matrix[2] & (1 << 5), 0, "SHIFT CPC toujours engage");
}
#[test]
fn releasing_the_less_greater_key_targets_the_locked_position() {
    let mut psg = Psg::new();

    psg.set_key_state_scancode(Scancode::NonUsBackslash, true, false); // "<"
    psg.tick(DEFER_TICKS);
    psg.set_key_state_scancode(Scancode::NonUsBackslash, false, true); // SHIFT retombe autrement

    assert_eq!(psg.keyboard_matrix[2] & (1 << 1), 1 << 1, "\"<\" relache");
    assert_eq!(psg.keyboard_matrix[2] & (1 << 3), 1 << 3, "\">\" jamais engage");
    assert_eq!(
        psg.keyboard_matrix[2] & (1 << 5),
        1 << 5,
        "le SHIFT CPC doit etre relache par ce relachement, pas engage"
    );
}
#[test]
fn releasing_greater_while_shift_is_still_held_keeps_the_cpc_shift_engaged() {
    let mut psg = Psg::new();
    psg.set_key_state(Keycode::LShift, true);

    psg.set_key_state_scancode(Scancode::NonUsBackslash, true, true); // ">"
    psg.set_key_state_scancode(Scancode::NonUsBackslash, false, true); // relache ">", SHIFT toujours tenu

    assert_eq!(
        psg.keyboard_matrix[2] & (1 << 5),
        0,
        "le SHIFT CPC doit rester engage : la touche SHIFT reelle est toujours tenue"
    );

    // Nouvel appui sur ">" : doit encore viser ">", pas retomber sur "#".
    psg.set_key_state_scancode(Scancode::NonUsBackslash, true, true);
    assert_eq!(psg.keyboard_matrix[2] & (1 << 3), 0, "\">\" pose de nouveau");
    assert_eq!(psg.keyboard_matrix[2] & (1 << 5), 0, "SHIFT CPC toujours engage");
}

#[test]
fn a_key_pressed_then_released_leaves_the_matrix_as_it_was() {
    for key in [Keycode::A, Keycode::KpPlus, Keycode::KpDivide, Keycode::LShift, Keycode::Return, Keycode::Space] {
        let mut psg = Psg::new();
        let before = psg.keyboard_matrix;
        psg.set_key_state(key, true);
        assert_ne!(psg.keyboard_matrix, before, "{key:?} must show on the matrix");
        psg.set_key_state(key, false);
        assert_eq!(psg.keyboard_matrix, before, "{key:?} must leave no bit down");
    }
}

//! Key identifiers of the emulator, independent of any windowing toolkit:
//! each front end translates its own key events into these before handing
//! them to the engine. `Keycode` is the character the active layout
//! produces, `Scancode` the physical position of the key.

use vstd::prelude::*;

verus! {

/// A key by the character it produces.
#[derive(Clone, Copy, Debug, PartialEq, Eq, Structural, Hash)]
pub enum Keycode {
    A,
    B,
    C,
    D,
    E,
    F,
    G,
    H,
    I,
    J,
    K,
    L,
    M,
    N,
    O,
    P,
    Q,
    R,
    S,
    T,
    U,
    V,
    W,
    X,
    Y,
    Z,
    Num0,
    Num1,
    Num2,
    Num3,
    Num4,
    Num5,
    Num6,
    Num7,
    Num8,
    Num9,
    Up,
    Down,
    Left,
    Right,
    Return,
    Backspace,
    Delete,
    Escape,
    Tab,
    Space,
    CapsLock,
    LShift,
    RShift,
    LCtrl,
    RCtrl,
    LAlt,
    RAlt,
    Minus,
    Equals,
    Plus,
    Colon,
    Slash,
    Percent,
    Comma,
    Period,
    Semicolon,
    RightParen,
    Kp0,
    Kp1,
    Kp2,
    Kp3,
    Kp4,
    Kp5,
    Kp6,
    Kp7,
    Kp8,
    Kp9,
    KpEnter,
    KpPeriod,
    KpMultiply,
    KpDivide,
    KpEquals,
    KpPlus,
    KpMinus,
}

/// A key by its physical position.
#[derive(Clone, Copy, Debug, PartialEq, Eq, Structural, Hash)]
pub enum Scancode {
    Apostrophe,
    LeftBracket,
    Grave,
    RightBracket,
    NonUsBackslash,
    Num8,
}

} // verus!

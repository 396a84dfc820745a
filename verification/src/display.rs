//! Zoom of the display window and the configuration panel's own state.

use vstd::prelude::*;

verus! {

/// Zoom asked for from the configuration panel. The zoom is a state of
/// the window, not of the emulated machine.
#[derive(Clone, Copy, Debug, PartialEq, Eq, Structural)]
pub enum ZoomChoice {
    X1,
    X2,
    X3,
    Fullscreen,
}

/// Zoom of the display window (keys F1-F4, or `default_zoom` in the
/// configuration).
#[derive(Clone, Copy, Debug, PartialEq, Eq, Structural)]
pub enum DisplayMode {
    Normal,
    X2,
    X3,
    Fullscreen,
}

impl DisplayMode {
    /// The mode named by `default_zoom` ("x1", "x2", "x3", "fullscreen");
    /// absent or not recognised: normal size (see `recognised`).
    pub fn from_config(value: Option<&str>) -> (m: DisplayMode)
        ensures
            m == match value {
                None => DisplayMode::Normal,
                Some(v) => if v@ == seq!['x', '2'] {
                    DisplayMode::X2
                } else if v@ == seq!['x', '3'] {
                    DisplayMode::X3
                } else if v@ == seq!['f', 'u', 'l', 'l', 's', 'c', 'r', 'e', 'e', 'n'] {
                    DisplayMode::Fullscreen
                } else {
                    DisplayMode::Normal
                },
            },
    {
        proof {
            reveal_strlit("x1");
            reveal_strlit("x2");
            reveal_strlit("x3");
            reveal_strlit("fullscreen");
            assert("x1"@ =~= seq!['x', '1']);
            assert("x2"@ =~= seq!['x', '2']);
            assert("x3"@ =~= seq!['x', '3']);
            assert("fullscreen"@ =~= seq!['f', 'u', 'l', 'l', 's', 'c', 'r', 'e', 'e', 'n']);
        }
        match value {
            None => DisplayMode::Normal,
            Some(v) => {
                if text_is(v, "x2") {
                    DisplayMode::X2
                } else if text_is(v, "x3") {
                    DisplayMode::X3
                } else if text_is(v, "fullscreen") {
                    DisplayMode::Fullscreen
                } else {
                    DisplayMode::Normal
                }
            },
        }
    }

    /// Whether `value` names a zoom (an unknown value deserves a warning
    /// rather than silence).
    pub fn recognised(value: &str) -> (b: bool)
        ensures
            b == (value@ == seq!['x', '1'] || value@ == seq!['x', '2'] || value@ == seq!['x', '3']
                || value@ == seq!['f', 'u', 'l', 'l', 's', 'c', 'r', 'e', 'e', 'n']),
    {
        proof {
            reveal_strlit("x1");
            reveal_strlit("x2");
            reveal_strlit("x3");
            reveal_strlit("fullscreen");
            assert("x1"@ =~= seq!['x', '1']);
            assert("x2"@ =~= seq!['x', '2']);
            assert("x3"@ =~= seq!['x', '3']);
            assert("fullscreen"@ =~= seq!['f', 'u', 'l', 'l', 's', 'c', 'r', 'e', 'e', 'n']);
        }
        text_is(value, "x1") || text_is(value, "x2") || text_is(value, "x3") || text_is(value, "fullscreen")
    }

    /// The matching choice of the configuration panel.
    pub fn to_zoom_choice(self) -> (z: ZoomChoice)
        ensures
            z == match self {
                DisplayMode::Normal => ZoomChoice::X1,
                DisplayMode::X2 => ZoomChoice::X2,
                DisplayMode::X3 => ZoomChoice::X3,
                DisplayMode::Fullscreen => ZoomChoice::Fullscreen,
            },
    {
        match self {
            DisplayMode::Normal => ZoomChoice::X1,
            DisplayMode::X2 => ZoomChoice::X2,
            DisplayMode::X3 => ZoomChoice::X3,
            DisplayMode::Fullscreen => ZoomChoice::Fullscreen,
        }
    }
}

/// Whether `a` holds exactly the characters of the literal `b`.
fn text_is(a: &str, b: &str) -> (r: bool)
    ensures
        r == (a@ == b@),
{
    proof {
        reveal_strlit("x1");
        reveal_strlit("x2");
        reveal_strlit("x3");
        reveal_strlit("fullscreen");
    }
    let n = a.unicode_len();
    if n != b.unicode_len() {
        return false;
    }
    let mut k: usize = 0;
    while k < n
        invariant
            k <= n,
            n == a@.len(),
            n == b@.len(),
            forall|m: int| 0 <= m < k ==> a@[m] == b@[m],
        decreases n - k,
    {
        if a.get_char(k) != b.get_char(k) {
            return false;
        }
        k += 1;
    }
    assert(a@ =~= b@);
    true
}

/// State of the configuration panel of its own: the name typed for a new
/// blank disc, and the drive it goes to.
pub struct ConfigPanel {
    pub blank_disk_name: String,
    pub blank_disk_drive_b: bool,
}

impl ConfigPanel {
    /// A panel with no name typed, drive A chosen.
    pub fn new() -> (p: ConfigPanel)
        ensures
            p.blank_disk_name@.len() == 0,
            !p.blank_disk_drive_b,
    {
        ConfigPanel { blank_disk_name: String::new(), blank_disk_drive_b: false }
    }
}

} // verus!

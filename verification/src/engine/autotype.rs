//! Automatic typing of a command at start-up (`--autocmd`): key by key on
//! the emulated keyboard matrix, paced by the Z80 clock rather than real
//! time, so that it works as well at normal speed as in fast-forward.

use vstd::prelude::*;
use std::collections::VecDeque;

verus! {

/// A key of the CPC keyboard matrix (row, bit), and whether SHIFT must be
/// held to produce the character.
pub type KeyPress = ((usize, u8), bool);

/// Position of SHIFT in the keyboard matrix.
pub const SHIFT_ROW: usize = 2;
pub const SHIFT_BIT: u8 = 5;

/// How long a key is held, in Z80 cycles (4 MHz): long enough for the
/// firmware's keyboard scan to see it reliably.
pub const PRESS_TICKS: u32 = 160_000;

/// Delay between releasing a key and pressing the next one.
pub const RELEASE_TICKS: u32 = 240_000;

/// Delay before the first key: the time for the ROM to show its banner and
/// reach the BASIC prompt (three seconds at 4 MHz); a command typed
/// earlier is lost.
pub const STARTUP_DELAY_TICKS: u32 = 12_000_000;

/// A command given without a final newline would be typed but never run
/// (BASIC runs it on ENTER): the newline is added, unless already there.
pub fn ensure_validated(command: &str) -> (r: String)
    ensures
        r@ == if command@.len() > 0 && command@.last() == '\n' { command@ } else { command@.push('\n') },
{
    crate::cli::ensure_validated(command)
}

/// Upper case of an ASCII letter; any other character unchanged.
pub open spec fn ascii_upper(c: char) -> char {
    if 'a' <= c <= 'z' { ((c as u32) - 32) as char } else { c }
}

/// Key of an upper-case character on the CPC keyboard with its French
/// AZERTY ROM. The row of digits is reversed from a US keyboard: unshifted
/// it types symbols, SHIFT gives the digits.
pub open spec fn key_of_upper(c: char) -> Option<KeyPress> {
    if c == 'A' { Some(((8, 3), false)) }
    else if c == 'B' { Some(((6, 6), false)) }
    else if c == 'C' { Some(((7, 6), false)) }
    else if c == 'D' { Some(((7, 5), false)) }
    else if c == 'E' { Some(((7, 2), false)) }
    else if c == 'F' { Some(((6, 5), false)) }
    else if c == 'G' { Some(((6, 4), false)) }
    else if c == 'H' { Some(((5, 4), false)) }
    else if c == 'I' { Some(((4, 3), false)) }
    else if c == 'J' { Some(((5, 5), false)) }
    else if c == 'K' { Some(((4, 5), false)) }
    else if c == 'L' { Some(((4, 4), false)) }
    else if c == 'M' { Some(((3, 5), false)) }
    else if c == 'N' { Some(((5, 6), false)) }
    else if c == 'O' { Some(((4, 2), false)) }
    else if c == 'P' { Some(((3, 3), false)) }
    else if c == 'Q' { Some(((8, 5), false)) }
    else if c == 'R' { Some(((6, 2), false)) }
    else if c == 'S' { Some(((7, 4), false)) }
    else if c == 'T' { Some(((6, 3), false)) }
    else if c == 'U' { Some(((5, 2), false)) }
    else if c == 'V' { Some(((6, 7), false)) }
    else if c == 'W' { Some(((8, 7), false)) }
    else if c == 'X' { Some(((7, 7), false)) }
    else if c == 'Y' { Some(((5, 3), false)) }
    else if c == 'Z' { Some(((7, 3), false)) }
    else if c == '0' { Some(((4, 0), true)) }
    else if c == '1' { Some(((8, 0), true)) }
    else if c == '2' { Some(((8, 1), true)) }
    else if c == '3' { Some(((7, 1), true)) }
    else if c == '4' { Some(((7, 0), true)) }
    else if c == '5' { Some(((6, 1), true)) }
    else if c == '6' { Some(((6, 0), true)) }
    else if c == '7' { Some(((5, 1), true)) }
    else if c == '8' { Some(((5, 0), true)) }
    else if c == '9' { Some(((4, 1), true)) }
    else if c == ' ' { Some(((5, 7), false)) }
    else if c == '\n' || c == '\r' { Some(((2, 2), false)) }
    // Same key as "3", without SHIFT.
    else if c == '"' { Some(((7, 1), false)) }
    // The ";" key; SHIFT gives ".".
    else if c == '.' { Some(((4, 7), true)) }
    else if c == ':' { Some(((3, 7), false)) }
    else if c == ',' { Some(((4, 6), false)) }
    else if c == '-' { Some(((3, 0), false)) }
    // RSX prefix on this AZERTY ROM ("ùtape", not "|tape").
    else if c == 'ù' || c == 'Ù' { Some(((3, 4), false)) }
    else { None }
}

/// Key of a character: that of its upper case (case does not matter on the
/// CPC keyboard).
pub open spec fn key_of(c: char) -> Option<KeyPress> {
    key_of_upper(ascii_upper(c))
}

/// Key of `c` on the CPC keyboard, if it has one.
pub fn key_for_char(c: char) -> (r: Option<KeyPress>)
    ensures
        r == key_of(c),
{
    let u: char = if 'a' <= c && c <= 'z' {
        match c {
            'a' => 'A', 'b' => 'B', 'c' => 'C', 'd' => 'D', 'e' => 'E', 'f' => 'F', 'g' => 'G',
            'h' => 'H', 'i' => 'I', 'j' => 'J', 'k' => 'K', 'l' => 'L', 'm' => 'M', 'n' => 'N',
            'o' => 'O', 'p' => 'P', 'q' => 'Q', 'r' => 'R', 's' => 'S', 't' => 'T', 'u' => 'U',
            'v' => 'V', 'w' => 'W', 'x' => 'X', 'y' => 'Y', _ => 'Z',
        }
    } else {
        c
    };
    assert(u == ascii_upper(c));
    let r: Option<KeyPress> = match u {
        'A' => Some(((8, 3), false)),
        'B' => Some(((6, 6), false)),
        'C' => Some(((7, 6), false)),
        'D' => Some(((7, 5), false)),
        'E' => Some(((7, 2), false)),
        'F' => Some(((6, 5), false)),
        'G' => Some(((6, 4), false)),
        'H' => Some(((5, 4), false)),
        'I' => Some(((4, 3), false)),
        'J' => Some(((5, 5), false)),
        'K' => Some(((4, 5), false)),
        'L' => Some(((4, 4), false)),
        'M' => Some(((3, 5), false)),
        'N' => Some(((5, 6), false)),
        'O' => Some(((4, 2), false)),
        'P' => Some(((3, 3), false)),
        'Q' => Some(((8, 5), false)),
        'R' => Some(((6, 2), false)),
        'S' => Some(((7, 4), false)),
        'T' => Some(((6, 3), false)),
        'U' => Some(((5, 2), false)),
        'V' => Some(((6, 7), false)),
        'W' => Some(((8, 7), false)),
        'X' => Some(((7, 7), false)),
        'Y' => Some(((5, 3), false)),
        'Z' => Some(((7, 3), false)),
        '0' => Some(((4, 0), true)),
        '1' => Some(((8, 0), true)),
        '2' => Some(((8, 1), true)),
        '3' => Some(((7, 1), true)),
        '4' => Some(((7, 0), true)),
        '5' => Some(((6, 1), true)),
        '6' => Some(((6, 0), true)),
        '7' => Some(((5, 1), true)),
        '8' => Some(((5, 0), true)),
        '9' => Some(((4, 1), true)),
        ' ' => Some(((5, 7), false)),
        '\n' | '\r' => Some(((2, 2), false)),
        '"' => Some(((7, 1), false)),
        '.' => Some(((4, 7), true)),
        ':' => Some(((3, 7), false)),
        ',' => Some(((4, 6), false)),
        '-' => Some(((3, 0), false)),
        'ù' | 'Ù' => Some(((3, 4), false)),
        _ => None,
    };
    r
}

/// Case does not change the key: a lower-case letter types the key of its
/// upper case.
pub proof fn lemma_case_does_not_matter(c: char)
    requires
        'a' <= c <= 'z',
    ensures
        key_of(c) == key_of(((c as u32) - 32) as char),
        key_of(c) is Some,
{
}


/// Step of the typing.
#[derive(Clone, Copy, Debug)]
pub enum State {
    /// Waiting for the machine to be ready, for this many cycles.
    Waiting(u32),
    /// A key held, for this many more cycles.
    Pressed { key: (usize, u8), shift: bool, ticks_left: u32 },
    /// All keys up, for this many cycles before the next one.
    Released(u32),
    Done,
}

/// Types a command key by key, at the pace of the Z80 clock.
pub struct AutoTyper {
    pub keys: VecDeque<KeyPress>,
    pub state: State,
}

/// Whether a key lies in the 10 rows of 8 bits of the matrix.
pub open spec fn on_matrix(key: (usize, u8)) -> bool {
    key.0 < 10 && key.1 < 8
}

/// The keys of the characters of `s` that have one, in order.
pub open spec fn keys_of(s: Seq<char>) -> Seq<KeyPress>
    decreases s.len(),
{
    if s.len() == 0 {
        Seq::empty()
    } else {
        keys_of(s.drop_last()) + match key_of(s.last()) {
            Some(k) => seq![k],
            None => Seq::empty(),
        }
    }
}

/// The characters of `s` that have no key, in order.
pub open spec fn unmapped(s: Seq<char>) -> Seq<char>
    decreases s.len(),
{
    if s.len() == 0 {
        Seq::empty()
    } else {
        unmapped(s.drop_last()) + if key_of(s.last()) is None { seq![s.last()] } else { Seq::empty() }
    }
}

/// Cycles left in a state.
pub open spec fn countdown(s: State) -> u32 {
    match s {
        State::Waiting(t) => t,
        State::Released(t) => t,
        State::Pressed { ticks_left, .. } => ticks_left,
        State::Done => 0,
    }
}

/// A state with `amount` fewer cycles left.
pub open spec fn reduced(s: State, amount: u32) -> State {
    match s {
        State::Waiting(t) => State::Waiting((t - amount) as u32),
        State::Released(t) => State::Released((t - amount) as u32),
        State::Pressed { key, shift, ticks_left } => State::Pressed { key, shift, ticks_left: (ticks_left - amount) as u32 },
        State::Done => State::Done,
    }
}

/// The matrix with `key` down (its bit cleared).
pub open spec fn key_down(m: Seq<u8>, key: (usize, u8)) -> Seq<u8> {
    m.update(key.0 as int, m[key.0 as int] & !(1u8 << key.1))
}

/// The matrix with `key` up (its bit set).
pub open spec fn key_up(m: Seq<u8>, key: (usize, u8)) -> Seq<u8> {
    m.update(key.0 as int, m[key.0 as int] | (1u8 << key.1))
}

/// The change of state once a countdown is over: the waiting key goes
/// down (with SHIFT first if needed), the held key goes up.
pub open spec fn transition(s: State, keys: Seq<KeyPress>, m: Seq<u8>) -> (State, Seq<KeyPress>, Seq<u8>) {
    match s {
        State::Waiting(_) => (State::Released(0), keys, m),
        State::Released(_) => if keys.len() == 0 {
            (State::Done, keys, m)
        } else {
            let (key, shift) = keys[0];
            let m1 = if shift { key_down(m, (SHIFT_ROW, SHIFT_BIT)) } else { m };
            (State::Pressed { key, shift, ticks_left: PRESS_TICKS }, keys.drop_first(), key_down(m1, key))
        },
        State::Pressed { key, shift, .. } => {
            let m1 = key_up(m, key);
            (State::Released(RELEASE_TICKS), keys, if shift { key_up(m1, (SHIFT_ROW, SHIFT_BIT)) } else { m1 })
        },
        State::Done => (State::Done, keys, m),
    }
}

/// Number of transitions left before the typing is done.
pub open spec fn rank(s: State, keys: Seq<KeyPress>) -> nat {
    match s {
        State::Done => 0,
        State::Released(_) => 2 * keys.len() + 1,
        State::Pressed { .. } => 2 * keys.len() + 2,
        State::Waiting(_) => 2 * keys.len() + 3,
    }
}

/// State, keys left and keyboard matrix after `budget` cycles of typing.
/// A state whose countdown is zero passes at once (waiting to pressing the
/// first key costs no cycle).
pub open spec fn typed(s: State, keys: Seq<KeyPress>, m: Seq<u8>, budget: nat) -> (State, Seq<KeyPress>, Seq<u8>)
    decreases rank(s, keys),
{
    if s is Done {
        (s, keys, m)
    } else {
        let c = countdown(s);
        if c > budget {
            (reduced(s, budget as u32), keys, m)
        } else {
            let next = transition(reduced(s, c), keys, m);
            typed(next.0, next.1, next.2, (budget - c) as nat)
        }
    }
}

impl AutoTyper {
    /// Every key queued or held lies on the matrix.
    pub open spec fn wf(&self) -> bool {
        &&& forall|i: int| 0 <= i < self.keys@.len() ==> on_matrix(#[trigger] self.keys@[i].0)
        &&& self.state matches State::Pressed { key, .. } ==> on_matrix(key)
    }

    /// Prepares the typing of `command`. Characters with no key on the
    /// CPC keyboard are skipped (see `unmapped_chars`).
    pub fn new(command: &str) -> (t: AutoTyper)
        ensures
            t.wf(),
            t.keys@ == keys_of(command@),
            t.state == State::Waiting(STARTUP_DELAY_TICKS),
    {
        let n = command.unicode_len();
        let mut keys: VecDeque<KeyPress> = VecDeque::new();
        let mut i: usize = 0;
        while i < n
            invariant
                i <= n,
                n == command@.len(),
                keys@ == keys_of(command@.subrange(0, i as int)),
                forall|k: int| 0 <= k < keys@.len() ==> on_matrix(#[trigger] keys@[k].0),
            decreases n - i,
        {
            let c = command.get_char(i);
            proof {
                let pre = command@.subrange(0, i + 1);
                assert(pre.drop_last() =~= command@.subrange(0, i as int));
                assert(pre.last() == c);
            }
            match key_for_char(c) {
                Some(k) => {
                    keys.push_back(k);
                },
                None => {
                    assert(keys@ =~= keys@ + Seq::<KeyPress>::empty());
                },
            }
            i += 1;
        }
        assert(command@.subrange(0, n as int) =~= command@);
        AutoTyper { keys, state: State::Waiting(STARTUP_DELAY_TICKS) }
    }

    /// The characters of `command` that have no key and that `new` skips,
    /// to be reported before one wonders why the command did not run.
    pub fn unmapped_chars(command: &str) -> (v: Vec<char>)
        ensures
            v@ == unmapped(command@),
    {
        let n = command.unicode_len();
        let mut v: Vec<char> = Vec::new();
        let mut i: usize = 0;
        while i < n
            invariant
                i <= n,
                n == command@.len(),
                v@ == unmapped(command@.subrange(0, i as int)),
            decreases n - i,
        {
            let c = command.get_char(i);
            proof {
                let pre = command@.subrange(0, i + 1);
                assert(pre.drop_last() =~= command@.subrange(0, i as int));
                assert(pre.last() == c);
            }
            if key_for_char(c).is_none() {
                v.push(c);
            } else {
                assert(v@ =~= v@ + Seq::<char>::empty());
            }
            i += 1;
        }
        assert(command@.subrange(0, n as int) =~= command@);
        v
    }

    /// Whether every key has been typed and released.
    pub fn is_done(&self) -> (b: bool)
        ensures
            b == (self.state is Done),
    {
        match self.state {
            State::Done => true,
            _ => false,
        }
    }

    /// Advances the typing by `elapsed_ticks` CPU cycles, pressing or
    /// releasing keys of the keyboard `matrix` as needed (after each
    /// machine step).
    pub fn advance(&mut self, matrix: &mut [u8; 10], elapsed_ticks: u32)
        requires
            old(self).wf(),
        ensures
            final(self).wf(),
            (final(self).state, final(self).keys@, final(matrix)@)
                == typed(old(self).state, old(self).keys@, old(matrix)@, elapsed_ticks as nat),
    {
        let mut budget = elapsed_ticks;
        while !self.is_done()
            invariant
                self.wf(),
                typed(self.state, self.keys@, matrix@, budget as nat)
                    == typed(old(self).state, old(self).keys@, old(matrix)@, elapsed_ticks as nat),
            decreases rank(self.state, self.keys@),
        {
            let countdown = match self.state {
                State::Waiting(t) => t,
                State::Released(t) => t,
                State::Pressed { ticks_left, .. } => ticks_left,
                State::Done => 0,
            };
            if countdown > budget {
                self.reduce_countdown(budget);
                return;
            }
            budget -= countdown;
            self.reduce_countdown(countdown);
            self.transition(matrix);
        }
    }

    /// Takes `amount` cycles off the current countdown.
    fn reduce_countdown(&mut self, amount: u32)
        requires
            amount <= countdown(old(self).state),
        ensures
            final(self).state == reduced(old(self).state, amount),
            final(self).keys == old(self).keys,
    {
        self.state = match self.state {
            State::Waiting(t) => State::Waiting(t - amount),
            State::Released(t) => State::Released(t - amount),
            State::Pressed { key, shift, ticks_left } => State::Pressed { key, shift, ticks_left: ticks_left - amount },
            State::Done => State::Done,
        };
    }

    /// A change of state once its countdown is over: the waiting key goes
    /// down, the held one up.
    fn transition(&mut self, matrix: &mut [u8; 10])
        requires
            old(self).wf(),
        ensures
            final(self).wf(),
            (final(self).state, final(self).keys@, final(matrix)@)
                == transition(old(self).state, old(self).keys@, old(matrix)@),
    {
        match self.state {
            State::Waiting(_) => {
                self.state = State::Released(0);
            },
            State::Released(_) => {
                let ghost ks = self.keys@;
                match self.keys.pop_front() {
                    None => {
                        self.state = State::Done;
                    },
                    Some((key, shift)) => {
                        assert(on_matrix(ks[0].0));
                        if shift {
                            matrix[SHIFT_ROW] = matrix[SHIFT_ROW] & !(1u8 << SHIFT_BIT);
                        }
                        matrix[key.0] = matrix[key.0] & !(1u8 << key.1);
                        self.state = State::Pressed { key, shift, ticks_left: PRESS_TICKS };
                        assert(self.keys@ =~= ks.drop_first());
                    },
                }
            },
            State::Pressed { key, shift, .. } => {
                matrix[key.0] = matrix[key.0] | (1u8 << key.1);
                if shift {
                    matrix[SHIFT_ROW] = matrix[SHIFT_ROW] | (1u8 << SHIFT_BIT);
                }
                self.state = State::Released(RELEASE_TICKS);
            },
            State::Done => {},
        }
    }
}

} // verus!

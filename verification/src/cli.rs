//! Command-line options of the emulator, and the auto-typed command.

use vstd::prelude::*;
use vstd::string::*;

verus! {

/// Whether `arg` is `name` followed by `=`.
pub open spec fn has_value_prefix(arg: Seq<char>, name: Seq<char>) -> bool {
    arg.len() > name.len() && arg.subrange(0, name.len() as int) == name && arg[name.len() as int] == '='
}

/// The value of the first option of `names` among `args[i..]` (argument by
/// argument, each tried against the names in order): the text after
/// `name=`, or the argument after `name` (none when `name` is last).
pub open spec fn option_value(args: Seq<Seq<char>>, names: Seq<Seq<char>>, i: int, j: int) -> Option<Seq<char>>
    decreases args.len() - i, names.len() - j,
{
    if i < 0 || i >= args.len() {
        None
    } else if j < 0 || j >= names.len() {
        option_value(args, names, i + 1, 0)
    } else if has_value_prefix(args[i], names[j]) {
        Some(args[i].subrange(names[j].len() as int + 1, args[i].len() as int))
    } else if args[i] == names[j] {
        if i + 1 < args.len() { Some(args[i + 1]) } else { None }
    } else {
        option_value(args, names, i, j + 1)
    }
}

/// Whether `arg` starts with `name` then `=`.
fn starts_with_value_of(arg: &str, name: &str) -> (b: bool)
    ensures
        b == has_value_prefix(arg@, name@),
{
    let n = name.unicode_len();
    let a = arg.unicode_len();
    if a <= n {
        return false;
    }
    let mut k: usize = 0;
    while k < n
        invariant
            k <= n,
            n == name@.len(),
            a == arg@.len(),
            a > n,
            forall|m: int| 0 <= m < k ==> arg@[m] == name@[m],
        decreases n - k,
    {
        if arg.get_char(k) != name.get_char(k) {
            assert(arg@.subrange(0, n as int)[k as int] != name@[k as int]);
            return false;
        }
        k += 1;
    }
    assert(arg@.subrange(0, n as int) =~= name@);
    arg.get_char(n) == '='
}

/// Whether two strings hold the same characters.
pub(crate) fn same_text(a: &str, b: &str) -> (r: bool)
    ensures
        r == (a@ == b@),
{
    let n = a.unicode_len();
    if n != b.unicode_len() {
        return false;
    }
    let mut k: usize = 0;
    while k < n
        invariant
            k <= n,
            n == a@.len(),
            n == b@.len(),
            forall|m: int| 0 <= m < k ==> a@[m] == b@[m],
        decreases n - k,
    {
        if a.get_char(k) != b.get_char(k) {
            return false;
        }
        k += 1;
    }
    assert(a@ =~= b@);
    true
}

/// The value of an option `--name=value`, `--name value`, `-n=value` or
/// `-n value` among the command-line arguments; `names` gives the accepted
/// spellings (for instance `["--autocmd", "-a"]`).
pub fn cli_value(args: &[String], names: &[&str]) -> (r: Option<String>)
    ensures
        match r {
            Some(v) => option_value(args@.map_values(|s: String| s@), names@.map_values(|s: &str| s@), 0, 0) == Some(v@),
            None => option_value(args@.map_values(|s: String| s@), names@.map_values(|s: &str| s@), 0, 0) is None,
        },
{
    let ghost sa = args@.map_values(|s: String| s@);
    let ghost sn = names@.map_values(|s: &str| s@);
    let mut i: usize = 0;
    while i < args.len()
        invariant
            i <= args@.len(),
            sa == args@.map_values(|s: String| s@),
            sn == names@.map_values(|s: &str| s@),
            option_value(sa, sn, 0, 0) == option_value(sa, sn, i as int, 0),
        decreases args@.len() - i,
    {
        let arg = args[i].as_str();
        let mut j: usize = 0;
        while j < names.len()
            invariant
                i < args@.len(),
                j <= names@.len(),
                arg@ == sa[i as int],
                sa == args@.map_values(|s: String| s@),
                sn == names@.map_values(|s: &str| s@),
                option_value(sa, sn, 0, 0) == option_value(sa, sn, i as int, j as int),
            decreases names@.len() - j,
        {
            let name = names[j];
            assert(name@ == sn[j as int]);
            if starts_with_value_of(arg, name) {
                let n = name.unicode_len();
                let a = arg.unicode_len();
                let rest = arg.substring_char(n + 1, a);
                return Some(String::from_str(rest));
            }
            if same_text(arg, name) {
                if i < args.len() - 1 {
                    let next = args[i + 1].clone();
                    assert(next@ == sa[i + 1]);
                    return Some(next);
                }
                return None;
            }
            j += 1;
        }
        i += 1;
    }
    None
}

/// A command typed at start-up without a final newline would be typed
/// but never run (BASIC runs it on ENTER): the newline is added, unless
/// the caller gave it already (a second ENTER could answer whatever the
/// program shows next).
pub fn ensure_validated(command: &str) -> (r: String)
    ensures
        r@ == if command@.len() > 0 && command@.last() == '\n' { command@ } else { command@.push('\n') },
{
    let n = command.unicode_len();
    if n > 0 && command.get_char(n - 1) == '\n' {
        String::from_str(command)
    } else {
        proof { reveal_strlit("\n"); }
        let mut s = String::from_str(command);
        s.append("\n");
        assert(s@ =~= command@.push('\n'));
        s
    }
}

/// A command ends validated, and validating it twice changes nothing.
pub proof fn lemma_validation_is_idempotent(command: Seq<char>)
    ensures
        ({
            let once = if command.len() > 0 && command.last() == '\n' { command } else { command.push('\n') };
            let twice = if once.len() > 0 && once.last() == '\n' { once } else { once.push('\n') };
            &&& once.len() > 0 && once.last() == '\n'
            &&& twice == once
        }),
{
}

} // verus!

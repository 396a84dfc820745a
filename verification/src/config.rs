//! The configuration the emulator reads from `config.toml`, as plain
//! values (the file format itself is handled around the library).

use vstd::prelude::*;
use vstd::string::*;

verus! {

/// Where disc images are looked for (`[file]`).
#[derive(Clone, Debug, Default)]
pub struct FileConfig {
    pub dsk_path: Option<String>,
}

/// Display settings (`[display]`).
#[derive(Clone, Debug, Default)]
pub struct DisplayConfig {
    /// Window zoom at start-up: "x1", "x2", "x3" or "fullscreen".
    pub default_zoom: Option<String>,
}

/// ROM images (`[rom]`); an absent entry uses the default file.
#[derive(Clone, Debug, Default)]
pub struct RomConfig {
    pub system: Option<String>,
    pub basic: Option<String>,
    pub amsdos: Option<String>,
    pub diagnostic_upper: Option<String>,
}

/// Memory (`[memory]`): 64 KB groups of RAM beyond the standard 128 KB.
#[derive(Clone, Debug, Default)]
pub struct MemoryConfig {
    pub extra_ram_banks: u32,
}

/// Drives (`[drives]`).
#[derive(Clone, Debug, Default)]
pub struct DriveConfig {
    pub drive_b: bool,
}

/// Debugging aids (`[debugger]`).
#[derive(Clone, Debug, Default)]
pub struct Debugger {
    pub keyboard: bool,
    /// Report the interventions of the audio regulation.
    pub audio: bool,
}

/// The whole configuration.
#[derive(Clone, Debug)]
pub struct Config {
    pub drives: DriveConfig,
    pub debugger: Debugger,
    pub file: FileConfig,
    pub display: DisplayConfig,
    pub memory: MemoryConfig,
    pub rom: RomConfig,
}

/// Whether the name holds a path separator, so names a place of its own.
pub open spec fn has_separator(name: Seq<char>) -> bool {
    exists|i: int| 0 <= i < name.len() && name[i] == '/'
}

/// `name` inside the directory `dir`: the name alone when `dir` is empty,
/// otherwise one separator between them.
pub open spec fn joined_path(dir: Seq<char>, name: Seq<char>) -> Seq<char> {
    if dir.len() == 0 {
        name
    } else if dir.last() == '/' {
        dir + name
    } else {
        dir + seq!['/'] + name
    }
}

/// Where a new disc named `name` is created: a name that holds a separator
/// (or is absolute) stays as it is; a bare file name goes into the
/// configured disc directory, if there is one.
pub open spec fn new_disk_path(dsk_path: Option<Seq<char>>, name: Seq<char>) -> Seq<char> {
    if has_separator(name) {
        name
    } else {
        match dsk_path {
            Some(dir) => joined_path(dir, name),
            None => name,
        }
    }
}

/// Whether `name` holds a `/`.
fn holds_separator(name: &str) -> (b: bool)
    ensures
        b == has_separator(name@),
{
    let n = name.unicode_len();
    let mut i: usize = 0;
    while i < n
        invariant
            i <= n,
            n == name@.len(),
            forall|k: int| 0 <= k < i ==> name@[k] != '/',
        decreases n - i,
    {
        if name.get_char(i) == '/' {
            return true;
        }
        i += 1;
    }
    false
}

impl Config {
    /// The path at which to create a new disc named `filename` (the `blank`
    /// command): the file does not exist yet, so only the name decides.
    pub fn resolve_new_disk_path(&self, filename: &str) -> (p: String)
        ensures
            p@ == new_disk_path(
                match self.file.dsk_path {
                    Some(d) => Some(d@),
                    None => None,
                },
                filename@,
            ),
    {
        if holds_separator(filename) {
            return filename.to_string();
        }
        match &self.file.dsk_path {
            Some(dir) => {
                let d = dir.as_str();
                let n = d.unicode_len();
                if n == 0 {
                    filename.to_string()
                } else {
                    let mut out = dir.clone();
                    if d.get_char(n - 1) != '/' {
                        proof {
                            reveal_strlit("/");
                        }
                        out.append("/");
                    }
                    out.append(filename);
                    out
                }
            },
            None => filename.to_string(),
        }
    }
}

} // verus!

//! Installing the system ROMs (OS and BASIC combined, AMSDOS, the
//! diagnostic ROM): where they come from, what is reported of each file
//! installed, and how the optional diagnostic ROM's failure is reported
//! without failing the whole installation; unpacking the archives and
//! what is written where. Downloading, reading and writing the files are
//! the front end's part.

use std::io::Read;
use vstd::prelude::*;
use vstd::string::*;

verus! {

/// A file installed, for the summary shown ("X installed, Y bytes, CRC32
/// Z, same as / different from what was there").
#[derive(Clone, Debug)]
pub struct InstalledFile {
    /// Canonical name in the ROM directory.
    pub filename: String,
    pub bytes: usize,
    pub crc32: u32,
    /// CRC32 of the file the new one replaced, if any: it tells whether an
    /// earlier manual install came from the same source.
    pub previous_crc32: Option<u32>,
}

/// Archive of the French ROMs: OS and BASIC combined (32 KB, split when
/// loaded) and AMSDOS.
pub const AZERTY_ROMS_URL: &'static str = "https://www.genesis8bit.fr/frontend/roms/azerty.zip";

/// Entries of the French ROM archive and their canonical names.
pub const AZERTY_ROMS_ENTRIES: [(&'static str, &'static str); 2] = [("CPC6128.ROM", "OS6128-AZERTY.rom"), ("CPCADOS.ROM", "AMSDOS.ROM")];

/// Archive of the diagnostic ROM; only its upper ROM is taken.
pub const DIAGNOSTIC_ROM_URL: &'static str = "https://github.com/llopis/amstrad-diagnostics/releases/download/v1.3/AmstradDiag.zip";

/// Entry of the diagnostic archive and its canonical name.
pub const DIAGNOSTIC_ROM_ENTRIES: [(&'static str, &'static str); 1] = [("AmstradDiagUpper.rom", "AmstradDiagUpper.rom")];

/// `k` rounds of the reflected CRC-32 register `c` (IEEE polynomial,
/// 0xEDB88320): shift right, folding the polynomial in when a 1 falls out.
pub open spec fn crc_rounds(c: u32, k: nat) -> u32
    decreases k,
{
    if k == 0 {
        c
    } else {
        let r = crc_rounds(c, (k - 1) as nat);
        if r & 1 == 1 { (r >> 1) ^ 0xEDB8_8320u32 } else { r >> 1 }
    }
}

/// The CRC-32 register after `data`, from all ones: each byte is folded
/// into the low bits, then eight rounds.
pub open spec fn crc_register(data: Seq<u8>) -> u32
    decreases data.len(),
{
    if data.len() == 0 {
        0xFFFF_FFFFu32
    } else {
        crc_rounds(crc_register(data.drop_last()) ^ (data.last() as u32), 8)
    }
}

/// The CRC-32 (IEEE 802.3, as in zip and PNG) of `data`: the final
/// register, inverted.
pub open spec fn crc32_of(data: Seq<u8>) -> u32 {
    crc_register(data) ^ 0xFFFF_FFFFu32
}

/// CRC32 of `data`.
///
/// Trusted: calls `crc32fast::hash`, which computes the standard CRC-32
/// (IEEE) that `crc32_of` spells out bit by bit.
#[verifier::external_body]
fn crc32(data: &[u8]) -> (c: u32)
    ensures
        c == crc32_of(data@),
{
    crc32fast::hash(data)
}

/// Whether `zip::ZipArchive::new` reads `archive` as a zip archive.
pub uninterp spec fn zip_opens(archive: Seq<u8>) -> bool;

/// The unpacked content of the entry called `name` in the zip archive
/// `archive`; none where the archive has no such entry or the entry cannot
/// be read.
pub uninterp spec fn zip_entry_of(archive: Seq<u8>, name: Seq<char>) -> Option<Seq<u8>>;

/// Why an entry of an archive could not be had, with the unpacker's own
/// words.
#[derive(Clone, Debug)]
pub enum EntryFailure {
    /// No such entry (or no archive at all).
    Missing(String),
    /// The entry is there but its content could not be read.
    Unreadable(String),
}

/// The unpacker's words when `archive` is no zip archive, none when it is.
///
/// Trusted: calls `zip::ZipArchive::new` on the bytes; whether it accepts
/// them is named (`zip_opens`), its error text is left unsaid.
#[verifier::external_body]
fn zip_open_error(archive: &[u8]) -> (r: Option<String>)
    ensures
        r is None <==> zip_opens(archive@),
{
    match zip::ZipArchive::new(std::io::Cursor::new(archive)) {
        Ok(_) => None,
        Err(e) => Some(e.to_string()),
    }
}

/// The content of entry `name` of the zip archive `archive`.
///
/// Trusted: calls `zip::ZipArchive::new`, then `by_name` and `read_to_end`
/// on the entry. What comes out is named (`zip_entry_of`): a function of
/// the bytes and the name. Which of the two failures is reported, and its
/// text, are left unsaid.
#[verifier::external_body]
fn zip_entry(archive: &[u8], name: &str) -> (r: Result<Vec<u8>, EntryFailure>)
    ensures
        match r {
            Ok(v) => zip_opens(archive@) && zip_entry_of(archive@, name@) == Some(v@),
            Err(_) => zip_entry_of(archive@, name@) is None,
        },
{
    let cursor = std::io::Cursor::new(archive);
    let mut zip = zip::ZipArchive::new(cursor).map_err(|e| EntryFailure::Missing(e.to_string()))?;
    let mut entry = zip.by_name(name).map_err(|e| EntryFailure::Missing(e.to_string()))?;
    let mut content = Vec::new();
    entry.read_to_end(&mut content).map_err(|e| EntryFailure::Unreadable(e.to_string()))?;
    Ok(content)
}

/// Every entry asked for (archive name, canonical name) is in `archive`.
pub open spec fn all_present(archive: Seq<u8>, entries: Seq<(&str, &str)>) -> bool {
    &&& zip_opens(archive)
    &&& forall|k: int| 0 <= k < entries.len() ==> #[trigger] zip_entry_of(archive, entries[k].0@) is Some
}

/// Start of the message for an archive that is none.
pub open spec fn invalid_archive_text() -> Seq<char> {
    "Invalid zip archive: "@
}

/// Start of the message for entry `name` missing.
pub open spec fn missing_entry_text(name: Seq<char>) -> Seq<char> {
    "Entry \""@ + name + "\" not found in the archive: "@
}

/// Start of the message for entry `name` unreadable.
pub open spec fn unreadable_entry_text(name: Seq<char>) -> Seq<char> {
    "Failed to read \""@ + name + "\": "@
}

/// `m` reports why the entries could not all be had: the archive is none,
/// or the first entry missing from it (`k`) is named.
pub open spec fn extraction_failure(archive: Seq<u8>, entries: Seq<(&str, &str)>, m: Seq<char>) -> bool {
    if !zip_opens(archive) {
        invalid_archive_text().is_prefix_of(m)
    } else {
        exists|k: int| #![trigger entries[k]]
            0 <= k < entries.len()
            && zip_entry_of(archive, entries[k].0@) is None
            && (forall|j: int| 0 <= j < k ==> #[trigger] zip_entry_of(archive, entries[j].0@) is Some)
            && (missing_entry_text(entries[k].0@).is_prefix_of(m) || unreadable_entry_text(entries[k].0@).is_prefix_of(m))
    }
}

/// `s` + `t`.
fn joined(s: String, t: &str) -> (r: String)
    ensures
        r@ == s@ + t@,
{
    let mut r = s;
    r.append(t);
    r
}

/// The entries asked for (archive name, canonical name) unpacked from the
/// zip archive `archive`, in order, each under its canonical name; an error
/// naming the first that is missing, or saying that the archive is none.
pub fn extract_entries(archive: &[u8], entries: &[(&str, &str)]) -> (r: Result<Vec<(String, Vec<u8>)>, String>)
    ensures
        r is Ok <==> all_present(archive@, entries@),
        r matches Ok(v) ==> v@.len() == entries@.len() && forall|k: int| 0 <= k < entries@.len() ==> {
            &&& (#[trigger] v@[k]).0@ == entries@[k].1@
            &&& zip_entry_of(archive@, entries@[k].0@) == Some(v@[k].1@)
        },
        r matches Err(m) ==> extraction_failure(archive@, entries@, m@),
{
    if let Some(e) = zip_open_error(archive) {
        let m = joined(String::from_str("Invalid zip archive: "), e.as_str());
        proof {
            reveal_strlit("Invalid zip archive: ");
            assert(invalid_archive_text().is_prefix_of(m@)) by {
                assert(m@.subrange(0, invalid_archive_text().len() as int) =~= invalid_archive_text());
            }
        }
        return Err(m);
    }
    let mut out: Vec<(String, Vec<u8>)> = Vec::new();
    let mut i: usize = 0;
    while i < entries.len()
        invariant
            i <= entries@.len(),
            zip_opens(archive@),
            out@.len() == i,
            forall|k: int| 0 <= k < i ==> {
                &&& (#[trigger] out@[k]).0@ == entries@[k].1@
                &&& zip_entry_of(archive@, entries@[k].0@) == Some(out@[k].1@)
            },
        decreases entries@.len() - i,
    {
        let (name, canonical) = entries[i];
        match zip_entry(archive, name) {
            Ok(content) => {
                out.push((String::from_str(canonical), content));
            },
            Err(failure) => {
                let m = match failure {
                    EntryFailure::Missing(t) => {
                        let m = joined(joined(joined(String::from_str("Entry \""), name), "\" not found in the archive: "), t.as_str());
                        proof {
                            reveal_strlit("Entry \"");
                            reveal_strlit("\" not found in the archive: ");
                            let pre = missing_entry_text(name@);
                            assert(m@.subrange(0, pre.len() as int) =~= pre);
                        }
                        m
                    },
                    EntryFailure::Unreadable(t) => {
                        let m = joined(joined(joined(String::from_str("Failed to read \""), name), "\": "), t.as_str());
                        proof {
                            reveal_strlit("Failed to read \"");
                            reveal_strlit("\": ");
                            let pre = unreadable_entry_text(name@);
                            assert(m@.subrange(0, pre.len() as int) =~= pre);
                        }
                        m
                    },
                };
                proof {
                    let k = i as int;
                    assert(entries@[k].0 == name);
                    assert forall|j: int| 0 <= j < k implies #[trigger] zip_entry_of(archive@, entries@[j].0@) is Some by {
                        assert(zip_entry_of(archive@, entries@[j].0@) == Some(out@[j].1@));
                    }
                    assert(extraction_failure(archive@, entries@, m@));
                    assert(!all_present(archive@, entries@));
                }
                return Err(m);
            },
        }
        i += 1;
    }
    proof {
        assert forall|k: int| 0 <= k < entries@.len() implies #[trigger] zip_entry_of(archive@, entries@[k].0@) is Some by {
            assert(zip_entry_of(archive@, entries@[k].0@) == Some(out@[k].1@));
        }
    }
    Ok(out)
}

/// What is reported of `content` installed as `filename` over a file that
/// held `previous` (none when there was no file).
pub fn installed_file(filename: &str, content: &[u8], previous: Option<&[u8]>) -> (f: InstalledFile)
    ensures
        f.filename@ == filename@,
        f.bytes == content@.len(),
        f.crc32 == crc32_of(content@),
        f.previous_crc32 == match previous {
            Some(p) => Some(crc32_of(p@)),
            None => None::<u32>,
        },
{
    let previous_crc32 = match previous {
        Some(p) => Some(crc32(p)),
        None => None,
    };
    InstalledFile {
        filename: filename.to_string(),
        bytes: content.len(),
        crc32: crc32(content),
        previous_crc32,
    }
}

/// What the file called `name` held among the files `existing` (name,
/// content) of the destination directory, the first of that name; none
/// when there is no such file.
pub open spec fn existing_content(existing: Seq<(String, Vec<u8>)>, name: Seq<char>) -> Option<Seq<u8>>
    decreases existing.len(),
{
    if existing.len() == 0 {
        None
    } else if existing[0].0@ == name {
        Some(existing[0].1@)
    } else {
        existing_content(existing.drop_first(), name)
    }
}

/// The content of the file called `name` among `existing`, if any.
fn find_existing<'a>(existing: &'a [(String, Vec<u8>)], name: &String) -> (r: Option<&'a [u8]>)
    ensures
        match r {
            Some(c) => existing_content(existing@, name@) == Some(c@),
            None => existing_content(existing@, name@) is None,
        },
{
    let mut i: usize = 0;
    assert(existing@.skip(0) =~= existing@);
    while i < existing.len()
        invariant
            i <= existing@.len(),
            existing_content(existing@, name@) == existing_content(existing@.skip(i as int), name@),
        decreases existing@.len() - i,
    {
        assert(existing@.skip(i as int).drop_first() =~= existing@.skip(i as int + 1));
        if existing[i].0 == *name {
            return Some(existing[i].1.as_slice());
        }
        i += 1;
    }
    None
}

/// Installs the entries asked for (archive name, canonical name) from the
/// zip archive `zip_bytes` into a directory that held the files `existing`
/// (name, content): for each entry, in order, what is reported of it and
/// the content to write under its canonical name. Fails as
/// `extract_entries` does, with nothing to write.
pub fn install_from_zip(zip_bytes: &[u8], entries: &[(&str, &str)], existing: &[(String, Vec<u8>)])
    -> (r: Result<Vec<(InstalledFile, Vec<u8>)>, String>)
    ensures
        r is Ok <==> all_present(zip_bytes@, entries@),
        r matches Ok(v) ==> v@.len() == entries@.len() && forall|k: int| 0 <= k < entries@.len() ==> {
            let content = zip_entry_of(zip_bytes@, entries@[k].0@)->0;
            &&& (#[trigger] v@[k]).1@ == content
            &&& v@[k].0.filename@ == entries@[k].1@
            &&& v@[k].0.bytes == content.len()
            &&& v@[k].0.crc32 == crc32_of(content)
            &&& v@[k].0.previous_crc32 == match existing_content(existing@, entries@[k].1@) {
                Some(p) => Some(crc32_of(p)),
                None => None::<u32>,
            }
        },
        r matches Err(m) ==> extraction_failure(zip_bytes@, entries@, m@),
{
    let files = match extract_entries(zip_bytes, entries) {
        Ok(files) => files,
        Err(m) => return Err(m),
    };
    let mut out: Vec<(InstalledFile, Vec<u8>)> = Vec::new();
    let mut i: usize = 0;
    while i < files.len()
        invariant
            i <= files@.len(),
            files@.len() == entries@.len(),
            forall|k: int| 0 <= k < entries@.len() ==> {
                &&& (#[trigger] files@[k]).0@ == entries@[k].1@
                &&& zip_entry_of(zip_bytes@, entries@[k].0@) == Some(files@[k].1@)
            },
            out@.len() == i,
            forall|k: int| 0 <= k < i ==> {
                let content = files@[k].1@;
                &&& (#[trigger] out@[k]).1@ == content
                &&& out@[k].0.filename@ == files@[k].0@
                &&& out@[k].0.bytes == content.len()
                &&& out@[k].0.crc32 == crc32_of(content)
                &&& out@[k].0.previous_crc32 == match existing_content(existing@, files@[k].0@) {
                    Some(p) => Some(crc32_of(p)),
                    None => None::<u32>,
                }
            },
        decreases files@.len() - i,
    {
        let name = &files[i].0;
        let content = files[i].1.as_slice();
        let previous = find_existing(existing, name);
        let report = installed_file(name.as_str(), content, previous);
        out.push((report, files[i].1.clone()));
        i += 1;
    }
    proof {
        assert forall|k: int| 0 <= k < entries@.len() implies {
            let content = zip_entry_of(zip_bytes@, entries@[k].0@)->0;
            &&& (#[trigger] out@[k]).1@ == content
            &&& out@[k].0.filename@ == entries@[k].1@
            &&& out@[k].0.bytes == content.len()
            &&& out@[k].0.crc32 == crc32_of(content)
            &&& out@[k].0.previous_crc32 == match existing_content(existing@, entries@[k].1@) {
                Some(p) => Some(crc32_of(p)),
                None => None::<u32>,
            }
        } by {
            assert(files@[k].0@ == entries@[k].1@);
        }
    }
    Ok(out)
}

/// The end of a complete installation, once the required system ROMs are
/// in (`installed`): the optional diagnostic ROM's files join them when it
/// installed, otherwise its failure comes back as a message to show and
/// the installation still succeeds (the emulator starts without it).
pub fn add_optional(installed: Vec<InstalledFile>, optional: Result<Vec<InstalledFile>, String>)
    -> (r: (Vec<InstalledFile>, Option<String>))
    ensures
        match optional {
            Ok(extra) => r.0@ == installed@ + extra@ && r.1 is None,
            Err(e) => r.0@ == installed@ && (r.1 matches Some(m) && m@ == optional_failure_text(e@)),
        },
{
    match optional {
        Ok(extra) => {
            let mut all = installed;
            let mut extra = extra;
            let ghost a = all@;
            let ghost b = extra@;
            all.append(&mut extra);
            assert(all@ =~= a + b);
            (all, None)
        },
        Err(e) => {
            let msg = optional_failure_message(&e);
            (installed, Some(msg))
        },
    }
}

/// Message for a failed optional install.
pub open spec fn optional_failure_text(e: Seq<char>) -> Seq<char> {
    "Diagnostic ROM install failed (optional, skipped): "@ + e
}

/// The message shown when the optional diagnostic ROM failed with `e`.
fn optional_failure_message(e: &String) -> (m: String)
    ensures
        m@ == optional_failure_text(e@),
{
    let mut m = String::from_str("Diagnostic ROM install failed (optional, skipped): ");
    m.append(e.as_str());
    m
}

} // verus!

//! Floppy disc controller (µPD765A) of the CPC 6128 and the `.dsk`
//! disc image format it reads from.

use vstd::prelude::*;
use vstd::string::*;

verus! {

// ---------------------------------------------------------------------------
// Disc image model
// ---------------------------------------------------------------------------

/// One sector of a disc image.
#[derive(Clone)]
pub struct Sector {
    pub id: u8,
    pub size: usize,
    pub data: Vec<u8>,
    /// True when the sector was recorded with the "Deleted Data" address
    /// mark (bit 6 of ST2 in the track header). Read Data (0x06) only sees
    /// normal sectors, Read Deleted Data (0x0C) only deleted ones.
    pub deleted: bool,
}

/// One track (one side of one cylinder) of a disc image.
pub struct Track {
    pub number: u8,
    pub side: u8,
    pub sector_size: u8,
    pub sectors: Vec<Sector>,
}

/// A whole disc image, as decoded from a `.dsk` file.
pub struct DskImage {
    pub tracks: Vec<Track>,
}

/// Byte `i` of `data`, as an integer (0 past the end).
pub open spec fn byte_at(data: Seq<u8>, i: int) -> int {
    if 0 <= i < data.len() { data[i] as int } else { 0 }
}

/// Little-endian 16-bit word at `i`.
pub open spec fn word_at(data: Seq<u8>, i: int) -> int {
    byte_at(data, i) + 256 * byte_at(data, i + 1)
}

/// Sector size code of the sector-info entry `idx`, capped at 6 (8 KiB).
pub open spec fn info_size_code(data: Seq<u8>, h: int, idx: int) -> int {
    let c = byte_at(data, h + 0x18 + idx * 8 + 3);
    if c > 6 { 6 } else { c }
}

/// Size of `128 << code` for a code in 0..=6.
pub open spec fn size_of_code(code: int) -> int
    decreases code,
{
    if code <= 0 { 128 } else { 2 * size_of_code(code - 1) }
}

/// Size of the data of sector-info entry `idx` of the track header at `h`:
/// the declared size, or, in an Extended DSK, the stored actual size when
/// it is non-zero.
pub open spec fn info_actual_size(data: Seq<u8>, h: int, idx: int, extended: bool) -> int {
    let declared = size_of_code(info_size_code(data, h, idx));
    let stored = word_at(data, h + 0x18 + idx * 8 + 6);
    if extended && stored > 0 { stored } else { declared }
}

/// Number of sector-info entries read from the track header at `h`
/// (capped at 29, which keeps the table inside the 256-byte header).
pub open spec fn header_sector_count(data: Seq<u8>, h: int) -> int {
    let n = byte_at(data, h + 0x15);
    if n > 29 { 29 } else { n }
}

/// `sec` is the sector described by entry `idx` of the header at `h`, its
/// data taken at `off`.
pub open spec fn sector_matches(sec: Sector, data: Seq<u8>, h: int, idx: int, off: int, extended: bool) -> bool {
    let size = info_actual_size(data, h, idx, extended);
    &&& sec.id as int == byte_at(data, h + 0x18 + idx * 8 + 2)
    &&& sec.size as int == size
    &&& sec.data@ == data.subrange(off, off + size)
    &&& sec.deleted == (byte_at(data, h + 0x18 + idx * 8 + 5) as u8 & 0x40u8 != 0)
}

/// The sectors of a track header, from entry `idx` on, with data starting
/// at `off`: entries are taken in order until one whose data would run past
/// the end of the file.
pub open spec fn sectors_match(secs: Seq<Sector>, data: Seq<u8>, h: int, idx: int, off: int, extended: bool) -> bool
    decreases header_sector_count(data, h) - idx,
{
    if idx >= header_sector_count(data, h) || idx < 0 {
        secs.len() == 0
    } else {
        let size = info_actual_size(data, h, idx, extended);
        if off + size > data.len() {
            secs.len() == 0
        } else {
            &&& secs.len() > 0
            &&& sector_matches(secs[0], data, h, idx, off, extended)
            &&& sectors_match(secs.drop_first(), data, h, idx + 1, off + size, extended)
        }
    }
}

/// `t` is the track decoded from the 256-byte track header at `h`, whose
/// sector data starts right after the header.
pub open spec fn track_matches(t: Track, data: Seq<u8>, h: int, extended: bool) -> bool {
    &&& t.number as int == byte_at(data, h + 0x10)
    &&& t.side as int == byte_at(data, h + 0x11)
    &&& t.sector_size as int == byte_at(data, h + 0x14)
    &&& sectors_match(t.sectors@, data, h, 0, h + 0x100, extended)
}


/// Size in bytes of a sector size code already capped at 6.
fn size_for_code(code: u8) -> (size: usize)
    requires
        code <= 6,
    ensures
        size as int == size_of_code(code as int),
        128 <= size <= 8192,
{
    reveal_with_fuel(size_of_code, 8);
    match code {
        0 => 128,
        1 => 256,
        2 => 512,
        3 => 1024,
        4 => 2048,
        5 => 4096,
        _ => 8192,
    }
}

/// Copies `len` bytes of `data` starting at `start`.
pub(crate) fn copy_bytes(data: &[u8], start: usize, len: usize) -> (out: Vec<u8>)
    requires
        start + len <= data@.len(),
    ensures
        out@ == data@.subrange(start as int, start + len),
{
    let total = data.len();
    let mut out: Vec<u8> = Vec::with_capacity(len);
    let mut j: usize = 0;
    while j < len
        invariant
            j <= len,
            start + len <= data@.len(),
            total == data@.len(),
            out@ == data@.subrange(start as int, start + j),
        decreases len - j,
    {
        out.push(data[start + j]);
        j += 1;
        assert(out@ =~= data@.subrange(start as int, start + j));
    }
    out
}

/// Decodes the 256-byte track header at `h` (common to both DSK formats)
/// and the sector data that follows it. `extended` tells whether the
/// "actual size" bytes of each sector-info entry (Extended DSK only) are
/// taken into account.
fn parse_track_header(data: &[u8], h: usize, extended: bool) -> (t: Track)
    requires
        h + 0x100 <= data@.len(),
    ensures
        track_matches(t, data@, h as int, extended),
{
    let len = data.len();
    let number = data[h + 0x10];
    let side = data[h + 0x11];
    let sector_size = data[h + 0x14];
    let raw_count = data[h + 0x15];
    let num_sectors: usize = if raw_count > 29 { 29 } else { raw_count as usize };
    let ghost start: int = h + 0x100;

    let mut sectors: Vec<Sector> = Vec::new();
    let mut off: usize = h + 0x100;
    let mut idx: usize = 0;
    let mut stopped = false;
    while idx < num_sectors && !stopped
        invariant
            idx <= num_sectors,
            num_sectors as int == header_sector_count(data@, h as int),
            num_sectors <= 29,
            len == data@.len(),
            h + 0x100 <= len,
            off <= len,
            stopped ==> sectors_match(Seq::<Sector>::empty(), data@, h as int, idx as int, off as int, extended),
            forall|rest: Seq<Sector>|
                sectors_match(rest, data@, h as int, idx as int, off as int, extended)
                    ==> #[trigger] sectors_match(sectors@ + rest, data@, h as int, 0, start, extended),
        decreases num_sectors - idx, if stopped { 0int } else { 1int },
    {
        let info = h + 0x18 + idx * 8;
        let id = data[info + 2];
        let code_raw = data[info + 3];
        let code: u8 = if code_raw > 6 { 6 } else { code_raw };
        let declared = size_for_code(code);
        let actual: usize = if extended {
            let stored = data[info + 6] as usize + (data[info + 7] as usize) * 256;
            if stored > 0 { stored } else { declared }
        } else {
            declared
        };
        assert(actual as int == info_actual_size(data@, h as int, idx as int, extended));
        if actual > len - off {
            stopped = true;
        } else {
            let bytes = copy_bytes(data, off, actual);
            let st2 = data[info + 5];
            let sec = Sector { id, size: actual, data: bytes, deleted: (st2 & 0x40) != 0 };
            assert(sector_matches(sec, data@, h as int, idx as int, off as int, extended));
            let ghost before = sectors@;
            sectors.push(sec);
            proof {
                assert forall|rest: Seq<Sector>|
                    sectors_match(rest, data@, h as int, idx + 1, off + actual, extended)
                        implies #[trigger] sectors_match(sectors@ + rest, data@, h as int, 0, start, extended) by {
                    let r2 = seq![sec] + rest;
                    assert(r2.drop_first() =~= rest);
                    assert(r2[0] == sec);
                    assert(sectors_match(r2, data@, h as int, idx as int, off as int, extended));
                    assert(before + r2 =~= sectors@ + rest);
                }
            }
            off = off + actual;
            idx = idx + 1;
        }
    }
    proof {
        assert(sectors_match(Seq::<Sector>::empty(), data@, h as int, idx as int, off as int, extended));
        assert(sectors@ + Seq::<Sector>::empty() =~= sectors@);
    }
    Track { number, side, sector_size, sectors }
}


/// Signature that opens a standard `.dsk` file ("MV - CPC").
pub open spec fn standard_signature() -> Seq<u8> {
    seq![0x4Du8, 0x56, 0x20, 0x2D, 0x20, 0x43, 0x50, 0x43]
}

/// Signature that opens an Extended `.dsk` file ("EXTENDED").
pub open spec fn extended_signature() -> Seq<u8> {
    seq![0x45u8, 0x58, 0x54, 0x45, 0x4E, 0x44, 0x45, 0x44]
}

/// Number of sides declared in the disc header (at least one).
pub open spec fn declared_sides(data: Seq<u8>) -> int {
    let n = byte_at(data, 0x31);
    if n < 1 { 1 } else { n }
}

/// The tracks of a standard image: `remaining` track headers, laid out
/// every `size` bytes from `off`, taken in order until one whose header
/// would run past the end of the file.
pub open spec fn standard_tracks_match(tr: Seq<Track>, data: Seq<u8>, remaining: int, off: int, size: int) -> bool
    decreases remaining,
{
    if remaining <= 0 || off + 0x100 > data.len() {
        tr.len() == 0
    } else {
        &&& tr.len() > 0
        &&& track_matches(tr[0], data, off, false)
        &&& standard_tracks_match(tr.drop_first(), data, remaining - 1, off + size, size)
    }
}

/// Whether decoding an Extended image from side `s` of track `t` on, with
/// the next stored track at `off`, reads only inside the track-size table.
/// Unformatted tracks (size 0) take no room in the file; a track header
/// that would run past the end of the file skips the rest of its cylinder.
pub open spec fn extended_ok(data: Seq<u8>, nt: int, ns: int, t: int, s: int, off: int) -> bool
    decreases nt - t, ns - s,
{
    if t >= nt || ns <= 0 {
        true
    } else if s >= ns || s < 0 {
        extended_ok(data, nt, ns, t + 1, 0, off)
    } else {
        let entry = 0x34 + t * ns + s;
        if entry >= data.len() {
            false
        } else if byte_at(data, entry) == 0 {
            extended_ok(data, nt, ns, t, s + 1, off)
        } else if off + 0x100 > data.len() {
            extended_ok(data, nt, ns, t + 1, 0, off)
        } else {
            extended_ok(data, nt, ns, t, s + 1, off + byte_at(data, entry) * 256)
        }
    }
}

/// The tracks decoded from an Extended image, from side `s` of track `t`
/// on (see `extended_ok`).
pub open spec fn extended_tracks_match(tr: Seq<Track>, data: Seq<u8>, nt: int, ns: int, t: int, s: int, off: int) -> bool
    decreases nt - t, ns - s,
{
    if t >= nt || ns <= 0 {
        tr.len() == 0
    } else if s >= ns || s < 0 {
        extended_tracks_match(tr, data, nt, ns, t + 1, 0, off)
    } else {
        let entry = 0x34 + t * ns + s;
        if entry >= data.len() {
            tr.len() == 0
        } else if byte_at(data, entry) == 0 {
            extended_tracks_match(tr, data, nt, ns, t, s + 1, off)
        } else if off + 0x100 > data.len() {
            extended_tracks_match(tr, data, nt, ns, t + 1, 0, off)
        } else {
            &&& tr.len() > 0
            &&& track_matches(tr[0], data, off, true)
            &&& extended_tracks_match(tr.drop_first(), data, nt, ns, t, s + 1, off + byte_at(data, entry) * 256)
        }
    }
}

/// Whether `data` starts with the 8 bytes of `sig`.
pub open spec fn starts_with_sig(data: Seq<u8>, sig: Seq<u8>) -> bool {
    data.len() >= 8 && data.subrange(0, 8) == sig
}

/// When parsing `data` succeeds.
pub open spec fn dsk_parse_ok(data: Seq<u8>) -> bool {
    &&& data.len() >= 0x100
    &&& if starts_with_sig(data, standard_signature()) {
        word_at(data, 0x32) != 0
    } else if starts_with_sig(data, extended_signature()) {
        extended_ok(data, byte_at(data, 0x30), declared_sides(data), 0, 0, 0x100)
    } else {
        false
    }
}

/// Why `data` is refused as a `.dsk` image (when `!dsk_parse_ok(data)`).
pub open spec fn dsk_error_text(data: Seq<u8>) -> Seq<char> {
    if data.len() < 0x100 {
        "Fichier DSK trop court"@
    } else if starts_with_sig(data, standard_signature()) {
        "Taille de piste nulle dans l'en-tête DSK"@
    } else if starts_with_sig(data, extended_signature()) {
        "DSK corrompu : lecture hors limites de la table des pistes"@
    } else {
        "Format DSK non reconnu (signature invalide)"@
    }
}

/// `img` is the image decoded from `data` (when `dsk_parse_ok(data)`).
pub open spec fn dsk_parsed(img: DskImage, data: Seq<u8>) -> bool {
    if starts_with_sig(data, standard_signature()) {
        standard_tracks_match(img.tracks@, data, byte_at(data, 0x30) * declared_sides(data), 0x100, word_at(data, 0x32))
    } else {
        extended_tracks_match(img.tracks@, data, byte_at(data, 0x30), declared_sides(data), 0, 0, 0x100)
    }
}

/// Compares the first 8 bytes of `data` with a signature.
fn has_signature(data: &[u8], sig: &[u8; 8]) -> (b: bool)
    requires
        data@.len() >= 8,
    ensures
        b == (data@.subrange(0, 8) == sig@),
{
    let mut i: usize = 0;
    while i < 8
        invariant
            i <= 8,
            data@.len() >= 8,
            forall|j: int| 0 <= j < i ==> data@[j] == sig@[j],
        decreases 8 - i,
    {
        if data[i] != sig[i] {
            assert(data@.subrange(0, 8)[i as int] != sig@[i as int]);
            return false;
        }
        i += 1;
    }
    assert(data@.subrange(0, 8) =~= sig@);
    true
}

impl DskImage {
    /// Decodes a `.dsk` file (standard "MV - CPC" or "EXTENDED" format).
    /// Never panics on a corrupt or truncated file: an out-of-bounds read
    /// of the track-size table is reported as an error.
    pub fn parse(data: &[u8]) -> (r: Result<DskImage, String>)
        ensures
            r is Ok <==> dsk_parse_ok(data@),
            r matches Ok(img) ==> dsk_parsed(img, data@),
            r matches Err(m) ==> m@ == dsk_error_text(data@),
    {
        if data.len() < 0x100 {
            return Err(String::from_str("Fichier DSK trop court"));
        }
        let std_sig: [u8; 8] = [0x4D, 0x56, 0x20, 0x2D, 0x20, 0x43, 0x50, 0x43];
        let ext_sig: [u8; 8] = [0x45, 0x58, 0x54, 0x45, 0x4E, 0x44, 0x45, 0x44];
        assert(std_sig@ == standard_signature());
        assert(ext_sig@ == extended_signature());
        if has_signature(data, &std_sig) {
            Self::parse_standard(data)
        } else if has_signature(data, &ext_sig) {
            proof {
                assert(!(data@.subrange(0, 8) == standard_signature()));
            }
            Self::parse_extended(data)
        } else {
            Err(String::from_str("Format DSK non reconnu (signature invalide)"))
        }
    }

    fn parse_standard(data: &[u8]) -> (r: Result<DskImage, String>)
        requires
            data@.len() >= 0x100,
        ensures
            r is Ok <==> word_at(data@, 0x32) != 0,
            r matches Err(m) ==> m@ == "Taille de piste nulle dans l'en-tête DSK"@,
            r matches Ok(img) ==> standard_tracks_match(img.tracks@, data@,
                byte_at(data@, 0x30) * declared_sides(data@), 0x100, word_at(data@, 0x32)),
    {
        let len = data.len();
        let num_tracks = data[0x30];
        let num_sides: u8 = if data[0x31] < 1 { 1 } else { data[0x31] };
        let track_size: usize = data[0x32] as usize + (data[0x33] as usize) * 256;
        if track_size == 0 {
            return Err(String::from_str("Taille de piste nulle dans l'en-tête DSK"));
        }
        let nt_u: usize = num_tracks as usize;
        let ns_u: usize = num_sides as usize;
        assert(nt_u * ns_u <= 255 * 255) by (nonlinear_arith)
            requires nt_u <= 255, ns_u <= 255;
        let total: usize = nt_u * ns_u;
        let ghost whole = byte_at(data@, 0x30) * declared_sides(data@);
        assert(num_tracks as int == byte_at(data@, 0x30));
        assert(num_sides as int == declared_sides(data@));
        assert(total as int == whole);

        let mut tracks: Vec<Track> = Vec::new();
        let mut offset: usize = 0x100;
        let mut k: usize = 0;
        let mut stopped = false;
        while k < total && !stopped
            invariant
                k <= total,
                len == data@.len(),
                offset <= len,
                track_size as int == word_at(data@, 0x32),
                stopped ==> standard_tracks_match(Seq::<Track>::empty(), data@, total - k, offset as int, track_size as int),
                forall|rest: Seq<Track>|
                    standard_tracks_match(rest, data@, total - k, offset as int, track_size as int)
                        ==> #[trigger] standard_tracks_match(tracks@ + rest, data@, whole, 0x100, track_size as int),
            decreases total - k, if stopped { 0int } else { 1int },
        {
            if len - offset < 0x100 {
                stopped = true;
            } else {
                let track = parse_track_header(data, offset, false);
                let ghost before = tracks@;
                tracks.push(track);
                proof {
                    assert forall|rest: Seq<Track>|
                        standard_tracks_match(rest, data@, total - (k + 1), offset + track_size, track_size as int)
                            implies #[trigger] standard_tracks_match(tracks@ + rest, data@, whole, 0x100, track_size as int) by {
                        let r2 = seq![track] + rest;
                        assert(r2.drop_first() =~= rest);
                        assert(r2[0] == track);
                        assert(standard_tracks_match(r2, data@, total - k, offset as int, track_size as int));
                        assert(before + r2 =~= tracks@ + rest);
                    }
                }
                k = k + 1;
                if track_size > len - offset {
                    // The next header cannot fit: decoding ends here.
                    stopped = true;
                    proof {
                        assert(standard_tracks_match(Seq::<Track>::empty(), data@, total - k, offset + track_size, track_size as int));
                    }
                    offset = len;
                    proof {
                        assert(forall|rest: Seq<Track>| standard_tracks_match(rest, data@, total - k, len as int, track_size as int)
                            ==> rest.len() == 0);
                        assert(forall|rest: Seq<Track>| standard_tracks_match(rest, data@, total - k, offset as int + track_size, track_size as int)
                            ==> rest.len() == 0);
                    }
                } else {
                    offset = offset + track_size;
                }
            }
        }
        proof {
            assert(standard_tracks_match(Seq::<Track>::empty(), data@, total - k, offset as int, track_size as int));
            assert(tracks@ + Seq::<Track>::empty() =~= tracks@);
        }
        Ok(DskImage { tracks })
    }

    fn parse_extended(data: &[u8]) -> (r: Result<DskImage, String>)
        requires
            data@.len() >= 0x100,
        ensures
            r is Ok <==> extended_ok(data@, byte_at(data@, 0x30), declared_sides(data@), 0, 0, 0x100),
            r matches Err(m) ==> m@ == "DSK corrompu : lecture hors limites de la table des pistes"@,
            r matches Ok(img) ==> extended_tracks_match(img.tracks@, data@,
                byte_at(data@, 0x30), declared_sides(data@), 0, 0, 0x100),
    {
        let len = data.len();
        let nt: usize = data[0x30] as usize;
        let ns: usize = if data[0x31] < 1 { 1 } else { data[0x31] as usize };
        let ghost whole_ok = extended_ok(data@, nt as int, ns as int, 0, 0, 0x100);

        let mut tracks: Vec<Track> = Vec::new();
        let mut t: usize = 0;
        let mut s: usize = 0;
        let mut off: usize = 0x100;
        while t < nt
            invariant
                len == data@.len(),
                len >= 0x100,
                nt as int == byte_at(data@, 0x30),
                ns as int == declared_sides(data@),
                1 <= ns <= 255,
                nt <= 255,
                t <= nt,
                s <= ns,
                off <= len,
                extended_ok(data@, nt as int, ns as int, t as int, s as int, off as int) == whole_ok,
                whole_ok == extended_ok(data@, byte_at(data@, 0x30), declared_sides(data@), 0, 0, 0x100),
                forall|rest: Seq<Track>|
                    extended_tracks_match(rest, data@, nt as int, ns as int, t as int, s as int, off as int)
                        ==> #[trigger] extended_tracks_match(tracks@ + rest, data@, nt as int, ns as int, 0, 0, 0x100),
            decreases nt - t, ns - s,
        {
            if s >= ns {
                t = t + 1;
                s = 0;
            } else {
                assert(t * ns <= 255 * 255) by (nonlinear_arith)
                    requires t < nt, nt <= 255, ns <= 255;
                let entry = 0x34 + t * ns + s;
                assert(entry as int == 0x34 + t as int * ns as int + s as int);
                if entry >= len {
                    assert(!extended_ok(data@, nt as int, ns as int, t as int, s as int, off as int));
                    return Err(String::from_str("DSK corrompu : lecture hors limites de la table des pistes"));
                }
                let code = data[entry];
                if code == 0 {
                    s = s + 1;
                } else if len - off < 0x100 {
                    t = t + 1;
                    s = 0;
                } else {
                    let size: usize = code as usize * 256;
                    let track = parse_track_header(data, off, true);
                    let ghost before = tracks@;
                    tracks.push(track);
                    let new_off: usize = if size > len - off { len } else { off + size };
                    proof {
                        if size > len - off {
                            lemma_extended_far(data@, nt as int, ns as int, t as int, s + 1, off + size, len as int);
                        }
                        assert forall|rest: Seq<Track>|
                            extended_tracks_match(rest, data@, nt as int, ns as int, t as int, s + 1, new_off as int)
                                implies #[trigger] extended_tracks_match(tracks@ + rest, data@, nt as int, ns as int, 0, 0, 0x100) by {
                            let r2 = seq![track] + rest;
                            assert(r2.drop_first() =~= rest);
                            assert(r2[0] == track);
                            assert(extended_tracks_match(rest, data@, nt as int, ns as int, t as int, s + 1, off + size));
                            assert(extended_tracks_match(r2, data@, nt as int, ns as int, t as int, s as int, off as int));
                            assert(before + r2 =~= tracks@ + rest);
                        }
                    }
                    s = s + 1;
                    off = new_off;
                }
            }
        }
        proof {
            assert(extended_tracks_match(Seq::<Track>::empty(), data@, nt as int, ns as int, t as int, s as int, off as int));
            assert(tracks@ + Seq::<Track>::empty() =~= tracks@);
        }
        Ok(DskImage { tracks })
    }
}

/// Past the end of the file, the exact offset of the next stored track no
/// longer matters: every remaining header is out of reach.
proof fn lemma_extended_far(data: Seq<u8>, nt: int, ns: int, t: int, s: int, off1: int, off2: int)
    requires
        off1 + 0x100 > data.len(),
        off2 + 0x100 > data.len(),
    ensures
        extended_ok(data, nt, ns, t, s, off1) == extended_ok(data, nt, ns, t, s, off2),
        forall|tr: Seq<Track>| extended_tracks_match(tr, data, nt, ns, t, s, off1)
            == #[trigger] extended_tracks_match(tr, data, nt, ns, t, s, off2),
    decreases nt - t, ns - s,
{
    if t >= nt || ns <= 0 {
    } else if s >= ns || s < 0 {
        lemma_extended_far(data, nt, ns, t + 1, 0, off1, off2);
        assert forall|tr: Seq<Track>| extended_tracks_match(tr, data, nt, ns, t, s, off1)
            == #[trigger] extended_tracks_match(tr, data, nt, ns, t, s, off2) by {
            assert(extended_tracks_match(tr, data, nt, ns, t + 1, 0, off1)
                == extended_tracks_match(tr, data, nt, ns, t + 1, 0, off2));
        }
    } else {
        let entry = 0x34 + t * ns + s;
        if entry >= data.len() {
        } else if byte_at(data, entry) == 0 {
            lemma_extended_far(data, nt, ns, t, s + 1, off1, off2);
            assert forall|tr: Seq<Track>| extended_tracks_match(tr, data, nt, ns, t, s, off1)
                == #[trigger] extended_tracks_match(tr, data, nt, ns, t, s, off2) by {
                assert(extended_tracks_match(tr, data, nt, ns, t, s + 1, off1)
                    == extended_tracks_match(tr, data, nt, ns, t, s + 1, off2));
            }
        } else {
            lemma_extended_far(data, nt, ns, t + 1, 0, off1, off2);
            assert forall|tr: Seq<Track>| extended_tracks_match(tr, data, nt, ns, t, s, off1)
                == #[trigger] extended_tracks_match(tr, data, nt, ns, t, s, off2) by {
                assert(extended_tracks_match(tr, data, nt, ns, t + 1, 0, off1)
                    == extended_tracks_match(tr, data, nt, ns, t + 1, 0, off2));
            }
        }
    }
}


// ---------------------------------------------------------------------------
// Controller
// ---------------------------------------------------------------------------

/// Phase of the controller's command protocol.
#[derive(Copy, Clone, Debug, PartialEq, Eq, Structural)]
pub enum FdcPhase {
    Command,
    ExecutionRead,
    ExecutionWrite,
    Result,
}

/// Duration of one disc revolution, in Z80 cycles: the 3" drives of the
/// CPC turn at 300 rpm, 200 ms, 800 000 cycles at 4 MHz.
pub const REVOLUTION_TICKS: u32 = 800_000;

/// Duration of one byte on the track, in Z80 cycles (250 kbit/s MFM:
/// 32 µs, 128 cycles at 4 MHz).
pub const BYTE_TICKS: u64 = 128;

/// Service bytes written around the data of each sector (sync, ID field
/// and its CRC, data mark, data CRC, gap to the next sector).
pub const SECTOR_OVERHEAD_BYTES: u64 = 62;

/// Name given to a drive that holds no disc file.
pub open spec fn no_file_name() -> Seq<char> {
    seq!['N', 'o', 'n', 'e']
}

/// State of one physical drive: head position and inserted disc.
pub struct Drive {
    pub current_track: u8,
    pub current_sector: u8,
    pub current_side: u8,
    pub disk_loaded: bool,
    pub current_filename: String,
    pub dsk: Option<DskImage>,
}

impl Drive {
    /// An empty drive, head on track 0, first AMSDOS sector (0xC1).
    pub fn new() -> (d: Drive)
        ensures
            d.current_track == 0,
            d.current_sector == 0xC1,
            d.current_side == 0,
            !d.disk_loaded,
            d.current_filename@ == no_file_name(),
            d.dsk is None,
    {
        proof {
            reveal_strlit("None");
        }
        Drive {
            current_track: 0,
            current_sector: 0xC1,
            current_side: 0,
            disk_loaded: false,
            current_filename: String::from_str("None"),
            dsk: None,
        }
    }

    fn reset_position(&mut self)
        ensures
            final(self).current_track == 0,
            final(self).current_sector == 0xC1,
            final(self).current_side == 0,
            final(self).disk_loaded == old(self).disk_loaded,
            final(self).current_filename == old(self).current_filename,
            final(self).dsk == old(self).dsk,
    {
        self.current_track = 0;
        self.current_sector = 0xC1;
        self.current_side = 0;
    }
}

impl Default for Drive {
    fn default() -> (d: Drive)
        ensures
            d.current_track == 0,
            d.current_sector == 0xC1,
            d.current_side == 0,
            !d.disk_loaded,
            d.current_filename@ == no_file_name(),
            d.dsk is None,
    {
        Drive::new()
    }
}

/// Whether track `i` of `tracks` has this number and side.
pub open spec fn is_track(tracks: Seq<Track>, i: int, number: u8, side: u8) -> bool {
    0 <= i < tracks.len() && tracks[i].number == number && tracks[i].side == side
}

/// Index of the first track of `tracks` with this number and side, if any.
pub open spec fn find_track(tracks: Seq<Track>, number: u8, side: u8) -> Option<int> {
    if exists|i: int| is_track(tracks, i, number, side) {
        Some(choose|i: int| is_track(tracks, i, number, side)
            && forall|j: int| 0 <= j < i ==> !is_track(tracks, j, number, side))
    } else {
        None
    }
}

/// Searches the first track with this number and side.
fn find_track_index(tracks: &Vec<Track>, number: u8, side: u8) -> (r: Option<usize>)
    ensures
        match r {
            Some(i) => find_track(tracks@, number, side) == Some(i as int) && i < tracks@.len(),
            None => find_track(tracks@, number, side) is None,
        },
{
    let mut i: usize = 0;
    while i < tracks.len()
        invariant
            i <= tracks@.len(),
            forall|j: int| 0 <= j < i ==> !is_track(tracks@, j, number, side),
        decreases tracks@.len() - i,
    {
        if tracks[i].number == number && tracks[i].side == side {
            proof {
                assert(is_track(tracks@, i as int, number, side));
                let c = choose|k: int| is_track(tracks@, k, number, side)
                    && forall|j: int| 0 <= j < k ==> !is_track(tracks@, j, number, side);
                assert(is_track(tracks@, c, number, side)
                    && forall|j: int| 0 <= j < c ==> !is_track(tracks@, j, number, side));
                if c < i { assert(!is_track(tracks@, c, number, side)); }
                if c > i { assert(!is_track(tracks@, i as int, number, side)); }
            }
            return Some(i);
        }
        i += 1;
    }
    None
}

/// The sectors of the track `number`/`side` of the disc in `d`, if the
/// drive holds an image with such a track.
pub open spec fn track_sectors(d: Drive, number: u8, side: u8) -> Option<Seq<Sector>> {
    match d.dsk {
        Some(img) => match find_track(img.tracks@, number, side) {
            Some(i) => Some(img.tracks@[i].sectors@),
            None => None,
        },
        None => None,
    }
}

/// Raw bytes a track takes on the disc: each sector's data plus its
/// service bytes.
pub open spec fn track_bytes(secs: Seq<Sector>) -> int
    decreases secs.len(),
{
    if secs.len() == 0 {
        0
    } else {
        secs[0].size + SECTOR_OVERHEAD_BYTES + track_bytes(secs.drop_first())
    }
}

/// Time between two consecutive sector IDs of a track, in Z80 cycles: the
/// part of a revolution the sectors really take, shared between them (a
/// whole revolution for a track without sectors).
pub open spec fn sector_pitch(secs: Option<Seq<Sector>>) -> int {
    match secs {
        None => REVOLUTION_TICKS as int,
        Some(ss) => if ss.len() == 0 {
            REVOLUTION_TICKS as int
        } else {
            let raw = track_bytes(ss) * BYTE_TICKS;
            let used = if raw > REVOLUTION_TICKS { REVOLUTION_TICKS as int } else { raw };
            let p = used / (ss.len() as int);
            if p < 1 { 1 } else { p }
        },
    }
}

/// Size code N (size = 128 << N, N at most 6) of a sector of `size` bytes:
/// the smallest N whose size reaches `size`.
pub open spec fn spec_size_to_n(size: int) -> int {
    if size <= 128 { 0 }
    else if size <= 256 { 1 }
    else if size <= 512 { 2 }
    else if size <= 1024 { 3 }
    else if size <= 2048 { 4 }
    else if size <= 4096 { 5 }
    else { 6 }
}

/// Converts a sector size in bytes to the size code N the protocol uses.
fn size_to_n(size: usize) -> (n: u8)
    ensures
        n as int == spec_size_to_n(size as int),
{
    let mut n: u8 = 0;
    let mut s: usize = 128;
    while s < size && n < 6
        invariant
            n <= 6,
            s as int == size_of_code(n as int),
            forall|k: int| 0 <= k < n ==> size_of_code(k) < size,
        decreases 6 - n,
    {
        proof { reveal_with_fuel(size_of_code, 8); }
        s = s * 2;
        n = n + 1;
    }
    proof {
        reveal_with_fuel(size_of_code, 8);
        assert(size_of_code(0) == 128);
        assert(size_of_code(1) == 256);
        assert(size_of_code(2) == 512);
        assert(size_of_code(3) == 1024);
        assert(size_of_code(4) == 2048);
        assert(size_of_code(5) == 4096);
        assert(size_of_code(6) == 8192);
        if n > 0 { assert(size_of_code(n - 1) < size); }
    }
    n
}


/// The µPD765A floppy disc controller, with its two drives (A, and B when
/// enabled in the configuration).
pub struct Fdc {
    pub phase: FdcPhase,
    pub command_buffer: Vec<u8>,
    pub command_len: usize,
    pub result_buffer: Vec<u8>,
    pub result_index: usize,

    pub drive_a: Drive,
    pub drive_b: Drive,
    /// Drive B exists only when enabled in the configuration.
    pub drive_b_enabled: bool,
    /// Drive targeted by the last decoded command (0 = A, 1 = B), from bit
    /// US0 of its "Drive/HD" byte.
    pub selected_drive: u8,

    pub motor_on: bool,

    pub execution_buffer: Vec<u8>,
    pub execution_index: usize,

    pub st0: u8,

    /// Set by Seek/Recalibrate until Sense Interrupt Status collects it.
    pub seek_interrupt_pending: bool,

    /// Z80 cycles left before the controller answers (the wanted sector is
    /// not under the head yet): meanwhile the MSR reads "busy".
    pub busy_ticks: u32,

    /// Z80 cycles since power on: the angular position of the disc is
    /// `time % REVOLUTION_TICKS`.
    pub time: u64,

    pub formatting: bool,
    pub format_n: u8,
    pub format_sc: u8,
    pub format_fill: u8,

    /// Drive (0 = A, 1 = B) whose in-memory image was changed by a write or
    /// a format and whose `.dsk` file must be rewritten, until the caller
    /// collects it with `take_dsk_to_persist`.
    pub dsk_to_persist: Option<u8>,
}

impl Fdc {
    /// The drive the controller currently talks to.
    pub open spec fn selected(self) -> Drive {
        if self.selected_drive == 1 { self.drive_b } else { self.drive_a }
    }

    /// Whether the selected drive exists: A always, B only when enabled.
    pub open spec fn available(self) -> bool {
        self.selected_drive == 0 || self.drive_b_enabled
    }

    /// `self` with its selected drive replaced by `d`.
    pub open spec fn with_drive(self, d: Drive) -> Fdc {
        if self.selected_drive == 1 {
            Fdc { drive_b: d, ..self }
        } else {
            Fdc { drive_a: d, ..self }
        }
    }

    /// Drive and head bits reported in ST0 at the end of a Seek or a
    /// Recalibrate: US1/US0 and the current head (HD, bit 2).
    pub open spec fn unit_bits(self) -> u8 {
        (self.selected_drive & 0x03) | ((self.selected().current_side & 0x01) << 2)
    }

    /// The controller at power-on, drive B present or not (`drive_b`):
    /// waiting for a command, both drives empty on track 0, nothing
    /// pending.
    pub open spec fn powered_on_with(self, drive_b: bool) -> bool {
        &&& self.phase == FdcPhase::Command
        &&& self.command_buffer@.len() == 0
        &&& self.command_len == 0
        &&& self.result_buffer@.len() == 0
        &&& self.result_index == 0
        &&& self.drive_a.current_track == 0 && self.drive_a.current_sector == 0xC1 && self.drive_a.current_side == 0
        &&& !self.drive_a.disk_loaded && self.drive_a.dsk is None && self.drive_a.current_filename@ == no_file_name()
        &&& self.drive_b.current_track == 0 && self.drive_b.current_sector == 0xC1 && self.drive_b.current_side == 0
        &&& !self.drive_b.disk_loaded && self.drive_b.dsk is None && self.drive_b.current_filename@ == no_file_name()
        &&& self.drive_b_enabled == drive_b
        &&& self.selected_drive == 0
        &&& !self.motor_on
        &&& self.execution_buffer@.len() == 0
        &&& self.execution_index == 0
        &&& self.st0 == 0
        &&& !self.seek_interrupt_pending
        &&& self.busy_ticks == 0
        &&& self.time == 0
        &&& !self.formatting
        &&& self.format_n == 0
        &&& self.format_sc == 0
        &&& self.format_fill == 0xE5
        &&& self.dsk_to_persist is None
    }

    /// A controller in its power-on state.
    pub fn new() -> (f: Fdc)
        ensures
            f.powered_on_with(false),
            f.phase == FdcPhase::Command,
            f.command_buffer@.len() == 0,
            f.command_len == 0,
            f.result_buffer@.len() == 0,
            f.result_index == 0,
            f.drive_a.current_track == 0 && f.drive_a.current_sector == 0xC1 && f.drive_a.current_side == 0,
            !f.drive_a.disk_loaded && f.drive_a.dsk is None && f.drive_a.current_filename@ == no_file_name(),
            f.drive_b.current_track == 0 && f.drive_b.current_sector == 0xC1 && f.drive_b.current_side == 0,
            !f.drive_b.disk_loaded && f.drive_b.dsk is None && f.drive_b.current_filename@ == no_file_name(),
            !f.drive_b_enabled,
            f.selected_drive == 0,
            !f.motor_on,
            f.execution_buffer@.len() == 0,
            f.execution_index == 0,
            f.st0 == 0,
            !f.seek_interrupt_pending,
            f.busy_ticks == 0,
            f.time == 0,
            !f.formatting,
            f.format_n == 0,
            f.format_sc == 0,
            f.format_fill == 0xE5,
            f.dsk_to_persist is None,
    {
        Fdc {
            phase: FdcPhase::Command,
            command_buffer: Vec::new(),
            command_len: 0,
            result_buffer: Vec::new(),
            result_index: 0,
            drive_a: Drive::new(),
            drive_b: Drive::new(),
            drive_b_enabled: false,
            selected_drive: 0,
            motor_on: false,
            execution_buffer: Vec::new(),
            execution_index: 0,
            st0: 0,
            seek_interrupt_pending: false,
            busy_ticks: 0,
            time: 0,
            formatting: false,
            format_n: 0,
            format_sc: 0,
            format_fill: 0xE5,
            dsk_to_persist: None,
        }
    }

    /// The drive currently selected.
    pub fn drive(&self) -> (d: &Drive)
        ensures
            *d == self.selected(),
    {
        if self.selected_drive == 1 {
            &self.drive_b
        } else {
            &self.drive_a
        }
    }

    /// Mutable access to the drive currently selected.
    pub fn drive_mut(&mut self) -> (d: &mut Drive)
        ensures
            *d == old(self).selected(),
            *final(self) == old(self).with_drive(*final(d)),
    {
        if self.selected_drive == 1 {
            &mut self.drive_b
        } else {
            &mut self.drive_a
        }
    }

    fn seek_st0_unit_bits(&self) -> (b: u8)
        ensures
            b == self.unit_bits(),
    {
        (self.selected_drive & 0x03) | ((self.drive().current_side & 0x01) << 2)
    }

    fn selected_drive_available(&self) -> (b: bool)
        ensures
            b == self.available(),
    {
        self.selected_drive == 0 || self.drive_b_enabled
    }

    /// Makes drive B available or not (configuration `[drives] drive_b`).
    pub fn set_drive_b_enabled(&mut self, enabled: bool)
        ensures
            *final(self) == (Fdc { drive_b_enabled: enabled, ..*old(self) }),
    {
        self.drive_b_enabled = enabled;
    }

    fn set_track(&mut self, track: u8)
        ensures
            *final(self) == old(self).with_drive(Drive { current_track: track, ..old(self).selected() }),
    {
        if self.selected_drive == 1 {
            self.drive_b.current_track = track;
        } else {
            self.drive_a.current_track = track;
        }
    }

    fn set_side(&mut self, side: u8)
        ensures
            *final(self) == old(self).with_drive(Drive { current_side: side, ..old(self).selected() }),
    {
        if self.selected_drive == 1 {
            self.drive_b.current_side = side;
        } else {
            self.drive_a.current_side = side;
        }
    }

    fn set_sector(&mut self, sector: u8)
        ensures
            *final(self) == old(self).with_drive(Drive { current_sector: sector, ..old(self).selected() }),
    {
        if self.selected_drive == 1 {
            self.drive_b.current_sector = sector;
        } else {
            self.drive_a.current_sector = sector;
        }
    }

    /// Transient protocol state cleared on a media change, so that a
    /// command in flight cannot survive it half done.
    pub open spec fn transient_reset(o: Fdc, n: Fdc) -> bool {
        &&& n.phase == FdcPhase::Command
        &&& n.command_buffer@.len() == 0
        &&& n.command_len == 0
        &&& n.result_buffer@.len() == 0
        &&& n.result_index == 0
        &&& n.execution_buffer@.len() == 0
        &&& n.execution_index == 0
        &&& !n.seek_interrupt_pending
        &&& !n.formatting
        &&& n.st0 == 0
        &&& n.busy_ticks == 0
    }

    fn reset_transient_state(&mut self)
        ensures
            Self::transient_reset(*old(self), *final(self)),
            final(self).drive_a == old(self).drive_a,
            final(self).drive_b == old(self).drive_b,
            final(self).drive_b_enabled == old(self).drive_b_enabled,
            final(self).selected_drive == old(self).selected_drive,
            final(self).motor_on == old(self).motor_on,
            final(self).time == old(self).time,
            final(self).format_n == old(self).format_n,
            final(self).format_sc == old(self).format_sc,
            final(self).format_fill == old(self).format_fill,
            final(self).dsk_to_persist == old(self).dsk_to_persist,
    {
        self.phase = FdcPhase::Command;
        self.command_buffer.clear();
        self.command_len = 0;
        self.result_buffer.clear();
        self.result_index = 0;
        self.execution_buffer.clear();
        self.execution_index = 0;
        self.seek_interrupt_pending = false;
        self.formatting = false;
        self.st0 = 0;
        self.busy_ticks = 0;
    }

    /// Inserts a decoded disc image, read from `filename`, in drive A.
    pub fn insert_disk(&mut self, dsk: DskImage, filename: String)
        ensures
            final(self).drive_a == (Drive {
                dsk: Some(dsk),
                disk_loaded: true,
                current_filename: filename,
                current_track: 0,
                current_sector: 0xC1,
                current_side: 0,
            }),
            final(self).drive_b == old(self).drive_b,
            final(self).drive_b_enabled == old(self).drive_b_enabled,
            final(self).selected_drive == old(self).selected_drive,
            Self::transient_reset(*old(self), *final(self)),
    {
        self.drive_a.dsk = Some(dsk);
        self.drive_a.disk_loaded = true;
        self.drive_a.current_filename = filename;
        self.drive_a.reset_position();
        self.reset_transient_state();
    }

    /// Inserts a decoded disc image, read from `filename`, in drive B.
    /// Refused, leaving everything unchanged, when drive B is disabled.
    pub fn insert_disk_b(&mut self, dsk: DskImage, filename: String) -> (r: Result<(), String>)
        ensures
            r is Ok <==> old(self).drive_b_enabled,
            !old(self).drive_b_enabled ==> *final(self) == *old(self),
            old(self).drive_b_enabled ==> {
                &&& final(self).drive_b == (Drive {
                    dsk: Some(dsk),
                    disk_loaded: true,
                    current_filename: filename,
                    current_track: 0,
                    current_sector: 0xC1,
                    current_side: 0,
                })
                &&& final(self).drive_a == old(self).drive_a
                &&& final(self).drive_b_enabled
                &&& final(self).selected_drive == old(self).selected_drive
                &&& Self::transient_reset(*old(self), *final(self))
            },
    {
        if !self.drive_b_enabled {
            return Err(String::from_str(
                "Le lecteur B n'est pas activé dans la configuration (config.toml : [drives] drive_b = true)",
            ));
        }
        self.drive_b.dsk = Some(dsk);
        self.drive_b.disk_loaded = true;
        self.drive_b.current_filename = filename;
        self.drive_b.reset_position();
        self.reset_transient_state();
        Ok(())
    }

    /// Ejects the disc of drive A.
    /// `n` is `o` after the disc of drive A is ejected.
    pub open spec fn ejected_a(o: Fdc, n: Fdc) -> bool {
        &&& n.drive_a.dsk is None
        &&& !n.drive_a.disk_loaded
        &&& n.drive_a.current_filename@ == no_file_name()
        &&& n.drive_a.current_track == o.drive_a.current_track
        &&& n.drive_a.current_side == o.drive_a.current_side
        &&& n.drive_a.current_sector == o.drive_a.current_sector
        &&& n.drive_b == o.drive_b
        &&& n.drive_b_enabled == o.drive_b_enabled
        &&& n.selected_drive == o.selected_drive
        &&& Self::transient_reset(o, n)
    }

    /// `n` is `o` after the disc of drive B is ejected (nothing changes
    /// when drive B is disabled).
    pub open spec fn ejected_b(o: Fdc, n: Fdc) -> bool {
        if !o.drive_b_enabled {
            n == o
        } else {
            &&& n.drive_b.dsk is None
            &&& !n.drive_b.disk_loaded
            &&& n.drive_b.current_filename@ == no_file_name()
            &&& n.drive_b.current_track == o.drive_b.current_track
            &&& n.drive_b.current_side == o.drive_b.current_side
            &&& n.drive_b.current_sector == o.drive_b.current_sector
            &&& n.drive_a == o.drive_a
            &&& n.drive_b_enabled
            &&& n.selected_drive == o.selected_drive
            &&& Self::transient_reset(o, n)
        }
    }

    pub fn eject_disk(&mut self)
        ensures
            final(self).drive_a.dsk is None,
            !final(self).drive_a.disk_loaded,
            final(self).drive_a.current_filename@ == no_file_name(),
            final(self).drive_a.current_track == old(self).drive_a.current_track,
            final(self).drive_a.current_side == old(self).drive_a.current_side,
            final(self).drive_a.current_sector == old(self).drive_a.current_sector,
            final(self).drive_b == old(self).drive_b,
            final(self).drive_b_enabled == old(self).drive_b_enabled,
            final(self).selected_drive == old(self).selected_drive,
            Self::transient_reset(*old(self), *final(self)),
    {
        proof { reveal_strlit("None"); }
        self.drive_a.dsk = None;
        self.drive_a.disk_loaded = false;
        self.drive_a.current_filename = String::from_str("None");
        self.reset_transient_state();
    }

    /// Ejects the disc of drive B. Returns false, changing nothing, when
    /// drive B is disabled.
    pub fn eject_disk_b(&mut self) -> (done: bool)
        ensures
            done == old(self).drive_b_enabled,
            !done ==> *final(self) == *old(self),
            done ==> {
                &&& final(self).drive_b.dsk is None
                &&& !final(self).drive_b.disk_loaded
                &&& final(self).drive_b.current_filename@ == no_file_name()
                &&& final(self).drive_b.current_track == old(self).drive_b.current_track
                &&& final(self).drive_b.current_side == old(self).drive_b.current_side
                &&& final(self).drive_b.current_sector == old(self).drive_b.current_sector
                &&& final(self).drive_a == old(self).drive_a
                &&& final(self).drive_b_enabled
                &&& final(self).selected_drive == old(self).selected_drive
                &&& Self::transient_reset(*old(self), *final(self))
            },
    {
        if !self.drive_b_enabled {
            return false;
        }
        proof { reveal_strlit("None"); }
        self.drive_b.dsk = None;
        self.drive_b.disk_loaded = false;
        self.drive_b.current_filename = String::from_str("None");
        self.reset_transient_state();
        true
    }

    /// Hands out (and forgets) the drive whose `.dsk` file must be
    /// rewritten after a sector write or a format.
    pub fn take_dsk_to_persist(&mut self) -> (d: Option<u8>)
        ensures
            d == old(self).dsk_to_persist,
            *final(self) == (Fdc { dsk_to_persist: None, ..*old(self) }),
    {
        self.dsk_to_persist.take()
    }

    /// Status register as read on port &FB7E.
    pub open spec fn msr(self) -> u8 {
        // RQM (0x80), DIO (0x40: controller to processor), EXM (0x20:
        // execution phase), CB (0x10: command in progress).
        if self.busy_ticks > 0 {
            0x10
        } else {
            match self.phase {
                FdcPhase::Command => 0x80,
                FdcPhase::ExecutionRead => 0xF0,
                FdcPhase::ExecutionWrite => 0xB0,
                FdcPhase::Result => 0xD0,
            }
        }
    }

    /// Reads the main status register (port &FB7E). While a command waits
    /// for its sector to come under the head, only CB (busy) is set: RQM
    /// stays low, as software that times the controller expects.
    pub fn read_msr(&self) -> (m: u8)
        ensures
            m == self.msr(),
    {
        if self.busy_ticks > 0 {
            return 0x10;
        }
        // RQM is always set once the controller is free.
        let rqm: u8 = 0x80;
        let dio: u8 = if self.phase == FdcPhase::Result || self.phase == FdcPhase::ExecutionRead { 0x40 } else { 0 };
        let exm: u8 = if self.phase == FdcPhase::ExecutionRead || self.phase == FdcPhase::ExecutionWrite { 0x20 } else { 0 };
        let cb: u8 = if self.phase != FdcPhase::Command { 0x10 } else { 0 };
        assert(0x80u8 | 0u8 | 0u8 | 0u8 == 0x80u8 && 0x80u8 | 0x40u8 | 0x20u8 | 0x10u8 == 0xF0u8
            && 0x80u8 | 0u8 | 0x20u8 | 0x10u8 == 0xB0u8 && 0x80u8 | 0x40u8 | 0u8 | 0x10u8 == 0xD0u8) by (bit_vector);
        rqm | dio | exm | cb
    }

    /// Effect of a read of the data port: `v` read, `n` after.
    pub open spec fn data_read(self, v: u8, n: Fdc) -> bool {
        match self.phase {
            FdcPhase::ExecutionRead => {
                let buf = self.execution_buffer@;
                let i = self.execution_index;
                if i < buf.len() {
                    &&& v == buf[i as int]
                    &&& n == (Fdc {
                        execution_index: (i + 1) as usize,
                        phase: if i + 1 >= buf.len() { FdcPhase::Result } else { FdcPhase::ExecutionRead },
                        ..self
                    })
                } else {
                    &&& v == 0
                    &&& n == (Fdc { phase: FdcPhase::Result, ..self })
                }
            },
            FdcPhase::Result => {
                let buf = self.result_buffer@;
                let i = self.result_index;
                &&& v == (if i < buf.len() { buf[i as int] } else { 0 })
                &&& if i < buf.len() && i + 1 < buf.len() {
                    n == (Fdc { result_index: (i + 1) as usize, ..self })
                } else {
                    &&& n.command_buffer@.len() == 0
                    &&& n == (Fdc {
                        result_index: if i < buf.len() { (i + 1) as usize } else { i },
                        phase: FdcPhase::Command,
                        command_buffer: n.command_buffer,
                        ..self
                    })
                }
            },
            _ => v == 0 && n == self,
        }
    }

    /// Reads one data byte (port &FB7F): the next byte of a sector being
    /// read, then the result bytes; 0 in any other phase.
    pub fn read_data(&mut self) -> (v: u8)
        ensures
            old(self).data_read(v, *final(self)),
    {
        match self.phase {
            FdcPhase::ExecutionRead => {
                if self.execution_index < self.execution_buffer.len() {
                    let val = self.execution_buffer[self.execution_index];
                    self.execution_index += 1;
                    if self.execution_index >= self.execution_buffer.len() {
                        self.phase = FdcPhase::Result;
                    }
                    val
                } else {
                    self.phase = FdcPhase::Result;
                    0x00
                }
            },
            FdcPhase::Result => {
                if self.result_index < self.result_buffer.len() {
                    let val = self.result_buffer[self.result_index];
                    self.result_index += 1;
                    if self.result_index >= self.result_buffer.len() {
                        self.phase = FdcPhase::Command;
                        self.command_buffer.clear();
                    }
                    val
                } else {
                    self.phase = FdcPhase::Command;
                    self.command_buffer.clear();
                    0x00
                }
            },
            _ => 0x00,
        }
    }

    /// Time between two consecutive sector IDs of the given track of the
    /// selected drive, in Z80 cycles (see `sector_pitch`).
    fn sector_pitch_ticks(&self, track: u8, side: u8) -> (p: u64)
        ensures
            p as int == sector_pitch(track_sectors(self.selected(), track, side)),
            1 <= p <= REVOLUTION_TICKS,
    {
        let drv = self.drive();
        let mut count: u64 = 0;
        let mut bytes: u64 = 0;
        let ghost secs_opt = track_sectors(*drv, track, side);
        match &drv.dsk {
            Some(img) => {
                match find_track_index(&img.tracks, track, side) {
                    Some(i) => {
                        let secs = &img.tracks[i].sectors;
                        // Past 6250 bytes a track fills a whole revolution:
                        // counting further changes nothing.
                        let mut k: usize = 0;
                        assert(secs@.subrange(0, secs@.len() as int) =~= secs@);
                        while k < secs.len()
                            invariant
                                k <= secs@.len(),
                                bytes <= 6250,
                                bytes as int == if track_bytes(secs@) - track_bytes(secs@.subrange(k as int, secs@.len() as int)) >= 6250 {
                                    6250
                                } else {
                                    track_bytes(secs@) - track_bytes(secs@.subrange(k as int, secs@.len() as int))
                                },
                            decreases secs@.len() - k,
                        {
                            proof {
                                let rest = secs@.subrange(k as int, secs@.len() as int);
                                assert(rest.drop_first() =~= secs@.subrange(k + 1, secs@.len() as int));
                                assert(rest[0] == secs@[k as int]);
                            }
                            let add = secs[k].size as u64;
                            if bytes as u64 + (if add > 6250 { 6250 } else { add }) + 62 >= 6250 {
                                bytes = 6250;
                            } else {
                                bytes = bytes + add + 62;
                            }
                            k += 1;
                        }
                        assert(secs@.subrange(0, secs@.len() as int) =~= secs@);
                        count = secs.len() as u64;
                    },
                    None => {},
                }
            },
            None => {},
        }
        if count == 0 {
            return REVOLUTION_TICKS as u64;
        }
        let raw = bytes * BYTE_TICKS;
        let used = if raw > REVOLUTION_TICKS as u64 { REVOLUTION_TICKS as u64 } else { raw };
        let p = used / count;
        if p < 1 { 1 } else { p }
    }

    /// Advances the controller's clock by `cpu_ticks` Z80 cycles.
    pub fn tick(&mut self, cpu_ticks: u32)
        ensures
            *final(self) == (Fdc {
                time: final(self).time,
                busy_ticks: if old(self).busy_ticks > cpu_ticks { (old(self).busy_ticks - cpu_ticks) as u32 } else { 0 },
                ..*old(self)
            }),
            final(self).time as int == (old(self).time as int + cpu_ticks as int) % 0x1_0000_0000_0000_0000,
    {
        self.time = self.time.wrapping_add(cpu_ticks as u64);
        self.busy_ticks = self.busy_ticks.saturating_sub(cpu_ticks);
    }
}


/// Every sector takes at least its service bytes on the disc.
proof fn lemma_track_bytes_floor(secs: Seq<Sector>)
    ensures
        track_bytes(secs) >= SECTOR_OVERHEAD_BYTES * secs.len(),
    decreases secs.len(),
{
    if secs.len() > 0 {
        lemma_track_bytes_floor(secs.drop_first());
    }
}

/// The sector pitch is at least one cycle.
proof fn lemma_pitch_positive(secs: Option<Seq<Sector>>)
    ensures
        sector_pitch(secs) >= 1,
{
}

/// Read IDs issued one after the other, each once the previous ID has
/// passed under the head, walk the sectors of the track in order, one
/// sector pitch apart; and a whole turn of them, one per sector, takes no
/// more than a revolution.
pub proof fn lemma_read_ids_walk_the_track(f: Fdc, side: u8)
    requires
        f.id_count(side) > 0,
        f.time as int + f.next_id_wait(side) <= u64::MAX,
    ensures
        ({
            let g = Fdc { time: (f.time as int + f.next_id_wait(side)) as u64, ..f };
            &&& g.next_id_index(side) == (f.next_id_index(side) + 1) % f.id_count(side)
            &&& g.next_id_wait(side) == f.id_pitch(side)
        }),
        f.id_count(side) <= REVOLUTION_TICKS ==> f.id_count(side) * f.id_pitch(side) <= REVOLUTION_TICKS,
{
    let secs = track_sectors(f.selected(), f.selected().current_track, side);
    let p = f.id_pitch(side);
    let n = f.id_count(side);
    let t = f.time as int;
    lemma_pitch_positive(secs);
    let g = Fdc { time: (t + f.next_id_wait(side)) as u64, ..f };
    assert(g.id_pitch(side) == p && g.id_count(side) == n);
    vstd::arithmetic::div_mod::lemma_fundamental_div_mod(t, p);
    vstd::arithmetic::div_mod::lemma_mod_pos_bound(t, p);
    let q = t / p;
    let r = t % p;
    let t2 = t + (p - r);
    assert(t2 == (q + 1) * p + 0) by (nonlinear_arith)
        requires t == p * q + r, t2 == t + (p - r);
    vstd::arithmetic::div_mod::lemma_fundamental_div_mod_converse(t2, p, q + 1, 0);
    assert(g.time as int == t2);
    vstd::arithmetic::div_mod::lemma_add_mod_noop_right(1, q + 1, n);
    if n <= REVOLUTION_TICKS {
        let ss = secs.unwrap();
        lemma_track_bytes_floor(ss);
        let raw = track_bytes(ss) * BYTE_TICKS;
        let used = if raw > REVOLUTION_TICKS as int { REVOLUTION_TICKS as int } else { raw };
        assert(raw >= n) by (nonlinear_arith)
            requires raw == track_bytes(ss) * 128, track_bytes(ss) >= 62 * n, n > 0;
        assert(used >= n);
        let d = used / n;
        assert(d >= 1 && n * d <= used) by (nonlinear_arith)
            requires d == used / n, used >= n, n > 0;
    }
}

} // verus!

verus! {

// ---------------------------------------------------------------------------
// Sector writes and track formatting on an in-memory image
// ---------------------------------------------------------------------------

/// Whether sector `j` is the first of `secs` with this ID.
pub open spec fn is_first_sector(secs: Seq<Sector>, j: int, id: u8) -> bool {
    &&& 0 <= j < secs.len()
    &&& secs[j].id == id
    &&& forall|k: int| 0 <= k < j ==> secs[k].id != id
}

/// Whether `secs` holds a sector with this ID.
pub open spec fn has_sector(secs: Seq<Sector>, id: u8) -> bool {
    exists|j: int| 0 <= j < secs.len() && secs[j].id == id
}

/// `new` is `old` with the data of its first sector of ID `id` (if any)
/// replaced by `data`, its size becoming the length of `data`.
pub open spec fn sectors_written(old: Seq<Sector>, new: Seq<Sector>, id: u8, data: Seq<u8>) -> bool {
    &&& new.len() == old.len()
    &&& forall|j: int| 0 <= j < old.len() ==> {
        if is_first_sector(old, j, id) {
            &&& new[j].id == old[j].id
            &&& new[j].deleted == old[j].deleted
            &&& new[j].size == data.len()
            &&& new[j].data@ == data
        } else {
            #[trigger] new[j] == old[j]
        }
    }
}

/// `new` is `old` after a Write Data of `data` to sector `id` of track
/// `number`/`side`: every track with that number and side has its first
/// sector of that ID rewritten.
pub open spec fn tracks_written(old: Seq<Track>, new: Seq<Track>, number: u8, side: u8, id: u8, data: Seq<u8>) -> bool {
    &&& new.len() == old.len()
    &&& forall|i: int| 0 <= i < old.len() ==> {
        if old[i].number == number && old[i].side == side {
            &&& new[i].number == old[i].number
            &&& new[i].side == old[i].side
            &&& new[i].sector_size == old[i].sector_size
            &&& sectors_written(old[i].sectors@, new[i].sectors@, id, data)
        } else {
            #[trigger] new[i] == old[i]
        }
    }
}

/// Whether some track `number`/`side` of `tracks` holds a sector `id`.
pub open spec fn sector_exists(tracks: Seq<Track>, number: u8, side: u8, id: u8) -> bool {
    exists|i: int| #![trigger tracks[i]] 0 <= i < tracks.len() && tracks[i].number == number
        && tracks[i].side == side && has_sector(tracks[i].sectors@, id)
}

/// Copies a vector of bytes.
fn copy_vec(v: &Vec<u8>) -> (out: Vec<u8>)
    ensures
        out@ == v@,
{
    let mut out: Vec<u8> = Vec::with_capacity(v.len());
    let mut i: usize = 0;
    while i < v.len()
        invariant
            i <= v@.len(),
            out@ == v@.subrange(0, i as int),
        decreases v@.len() - i,
    {
        out.push(v[i]);
        i += 1;
        assert(out@ =~= v@.subrange(0, i as int));
    }
    assert(v@.subrange(0, v@.len() as int) =~= v@);
    out
}

/// A vector of `len` bytes, all equal to `fill`.
fn filled(fill: u8, len: usize) -> (out: Vec<u8>)
    ensures
        out@ == Seq::new(len as nat, |_i: int| fill),
{
    let mut out: Vec<u8> = Vec::with_capacity(len);
    let mut i: usize = 0;
    while i < len
        invariant
            i <= len,
            out@ == Seq::new(i as nat, |_i: int| fill),
        decreases len - i,
    {
        out.push(fill);
        i += 1;
        assert(out@ =~= Seq::new(i as nat, |_i: int| fill));
    }
    out
}

/// Rewrites the first sector `id` of a list of sectors.
fn write_sector_in_sectors(sectors: Vec<Sector>, id: u8, data: &Vec<u8>) -> (r: (Vec<Sector>, bool))
    ensures
        sectors_written(sectors@, r.0@, id, data@),
        r.1 == has_sector(sectors@, id),
{
    let ghost orig = sectors@;
    let mut rest = sectors;
    let mut out: Vec<Sector> = Vec::new();
    let mut done = false;
    while rest.len() > 0
        invariant
            out@.len() + rest@.len() == orig.len(),
            rest@ == orig.subrange(out@.len() as int, orig.len() as int),
            done == exists|k: int| 0 <= k < out@.len() && orig[k].id == id,
            forall|j: int| 0 <= j < out@.len() ==> {
                if is_first_sector(orig, j, id) {
                    &&& out@[j].id == orig[j].id
                    &&& out@[j].deleted == orig[j].deleted
                    &&& out@[j].size == data@.len()
                    &&& out@[j].data@ == data@
                } else {
                    #[trigger] out@[j] == orig[j]
                }
            },
        decreases rest@.len(),
    {
        let ghost j = out@.len() as int;
        let sec = rest.remove(0);
        assert(sec == orig[j]);
        assert(is_first_sector(orig, j, id) == (!done && sec.id == id));
        if !done && sec.id == id {
            let new_data = copy_vec(data);
            let ns = Sector { id: sec.id, size: data.len(), data: new_data, deleted: sec.deleted };
            out.push(ns);
            done = true;
        } else {
            out.push(sec);
        }
        assert(rest@ =~= orig.subrange(out@.len() as int, orig.len() as int));
    }
    (out, done)
}

/// Rewrites the first sector `id` of every track `number`/`side`.
fn write_sector_in_tracks(tracks: Vec<Track>, number: u8, side: u8, id: u8, data: &Vec<u8>) -> (r: (Vec<Track>, bool))
    ensures
        tracks_written(tracks@, r.0@, number, side, id, data@),
        r.1 == sector_exists(tracks@, number, side, id),
{
    let ghost orig = tracks@;
    let mut rest = tracks;
    let mut out: Vec<Track> = Vec::new();
    let mut updated = false;
    while rest.len() > 0
        invariant
            out@.len() + rest@.len() == orig.len(),
            rest@ == orig.subrange(out@.len() as int, orig.len() as int),
            updated == exists|i: int| #![trigger orig[i]] 0 <= i < out@.len() && orig[i].number == number
                && orig[i].side == side && has_sector(orig[i].sectors@, id),
            forall|i: int| 0 <= i < out@.len() ==> {
                if orig[i].number == number && orig[i].side == side {
                    &&& out@[i].number == orig[i].number
                    &&& out@[i].side == orig[i].side
                    &&& out@[i].sector_size == orig[i].sector_size
                    &&& sectors_written(orig[i].sectors@, out@[i].sectors@, id, data@)
                } else {
                    #[trigger] out@[i] == orig[i]
                }
            },
        decreases rest@.len(),
    {
        let ghost i = out@.len() as int;
        let t = rest.remove(0);
        assert(t == orig[i]);
        if t.number == number && t.side == side {
            let Track { number: tn, side: ts, sector_size, sectors } = t;
            let (secs, found) = write_sector_in_sectors(sectors, id, data);
            out.push(Track { number: tn, side: ts, sector_size, sectors: secs });
            if found {
                updated = true;
            }
        } else {
            out.push(t);
        }
        assert(rest@ =~= orig.subrange(out@.len() as int, orig.len() as int));
    }
    (out, updated)
}

/// Sectors created by Format Track: one per complete 4-byte (C, H, R, N)
/// descriptor of `descr`, with ID R, `size` bytes of `fill`.
pub open spec fn formatted_sectors(secs: Seq<Sector>, descr: Seq<u8>, size: int, fill: u8) -> bool {
    &&& secs.len() == descr.len() / 4
    &&& forall|k: int| 0 <= k < secs.len() ==> {
        &&& (#[trigger] secs[k]).id == descr[4 * k + 2]
        &&& secs[k].size == size
        &&& secs[k].data@ == Seq::new(size as nat, |_i: int| fill)
        &&& !secs[k].deleted
    }
}

fn build_formatted_sectors(descr: &Vec<u8>, size: usize, fill: u8) -> (secs: Vec<Sector>)
    ensures
        formatted_sectors(secs@, descr@, size as int, fill),
{
    let mut secs: Vec<Sector> = Vec::new();
    let mut k: usize = 0;
    let count = descr.len() / 4;
    while k < count
        invariant
            k <= count,
            count == descr@.len() / 4,
            descr@.len() == descr.len(),
            secs@.len() == k,
            forall|m: int| 0 <= m < k ==> {
                &&& (#[trigger] secs@[m]).id == descr@[4 * m + 2]
                &&& secs@[m].size == size
                &&& secs@[m].data@ == Seq::new(size as nat, |_i: int| fill)
                &&& !secs@[m].deleted
            },
        decreases count - k,
    {
        let dlen = descr.len();
        assert(4 * k + 2 < dlen) by (nonlinear_arith)
            requires k < count, count == dlen / 4;
        let r = descr[4 * k + 2];
        let data = filled(fill, size);
        secs.push(Sector { id: r, size, data, deleted: false });
        k += 1;
    }
    secs
}

/// `new` is the track list `old` after formatting track `number`/`side`
/// from the sector descriptors `descr`: the first such track gets the new
/// sectors and size code, or, if there is none, a new track is appended.
pub open spec fn tracks_formatted(old: Seq<Track>, new: Seq<Track>, number: u8, side: u8, code: u8, descr: Seq<u8>, size: int, fill: u8) -> bool {
    match find_track(old, number, side) {
        Some(i) => {
            &&& new.len() == old.len()
            &&& new[i].number == old[i].number
            &&& new[i].side == old[i].side
            &&& new[i].sector_size == code
            &&& formatted_sectors(new[i].sectors@, descr, size, fill)
            &&& forall|j: int| 0 <= j < old.len() && j != i ==> #[trigger] new[j] == old[j]
        },
        None => {
            &&& new.len() == old.len() + 1
            &&& forall|j: int| 0 <= j < old.len() ==> #[trigger] new[j] == old[j]
            &&& new[old.len() as int].number == number
            &&& new[old.len() as int].side == side
            &&& new[old.len() as int].sector_size == code
            &&& formatted_sectors(new[old.len() as int].sectors@, descr, size, fill)
        },
    }
}

fn format_track_in(tracks: Vec<Track>, number: u8, side: u8, code: u8, descr: &Vec<u8>, size: usize, fill: u8) -> (r: Vec<Track>)
    ensures
        tracks_formatted(tracks@, r@, number, side, code, descr@, size as int, fill),
{
    let mut tracks = tracks;
    let secs = build_formatted_sectors(descr, size, fill);
    match find_track_index(&tracks, number, side) {
        Some(i) => {
            let tn = tracks[i].number;
            let ts = tracks[i].side;
            tracks.set(i, Track { number: tn, side: ts, sector_size: code, sectors: secs });
            tracks
        },
        None => {
            tracks.push(Track { number, side, sector_size: code, sectors: secs });
            tracks
        },
    }
}

// ---------------------------------------------------------------------------
// Read Data / Read Deleted Data over a track
// ---------------------------------------------------------------------------

/// Whether `s` is a sector of ID `v` with the wanted address mark.
pub open spec fn picked(s: Sector, v: int, want_deleted: bool) -> bool {
    s.id as int == v && s.deleted == want_deleted
}

/// Data of the sectors of ID `v` with the wanted mark, in track order.
pub open spec fn data_with_id(secs: Seq<Sector>, v: int, want_deleted: bool) -> Seq<u8>
    decreases secs.len(),
{
    if secs.len() == 0 {
        Seq::empty()
    } else {
        (if picked(secs[0], v, want_deleted) { secs[0].data@ } else { Seq::empty() })
            + data_with_id(secs.drop_first(), v, want_deleted)
    }
}

/// Whether `secs` holds a sector of ID `v` with the wanted mark.
pub open spec fn has_picked(secs: Seq<Sector>, v: int, want_deleted: bool) -> bool {
    exists|i: int| 0 <= i < secs.len() && picked(#[trigger] secs[i], v, want_deleted)
}

/// Data transferred by a read of sectors `v`..=`eot`: the matching
/// sectors by increasing ID (track order among equal IDs).
pub open spec fn gathered(secs: Seq<Sector>, v: int, eot: int, want_deleted: bool) -> Seq<u8>
    decreases eot + 1 - v,
{
    if v > eot {
        Seq::empty()
    } else {
        data_with_id(secs, v, want_deleted) + gathered(secs, v + 1, eot, want_deleted)
    }
}

/// Whether a sector with an ID in `lo..=hi` has the wanted mark.
pub open spec fn any_picked(secs: Seq<Sector>, lo: int, hi: int, want_deleted: bool) -> bool {
    exists|i: int| 0 <= i < secs.len() && lo <= (#[trigger] secs[i]).id <= hi && secs[i].deleted == want_deleted
}

/// Largest ID in `lo..=v` of a sector with the wanted mark (`lo` when
/// there is none).
pub open spec fn last_picked(secs: Seq<Sector>, lo: int, v: int, want_deleted: bool) -> int
    decreases v + 1 - lo,
{
    if v < lo {
        lo
    } else if has_picked(secs, v, want_deleted) {
        v
    } else {
        last_picked(secs, lo, v - 1, want_deleted)
    }
}

/// Appends the data of the sectors of ID `v` with the wanted mark.
fn append_sectors_with_id(out: &mut Vec<u8>, secs: &Vec<Sector>, v: u8, want_deleted: bool) -> (found: bool)
    ensures
        final(out)@ == old(out)@ + data_with_id(secs@, v as int, want_deleted),
        found == has_picked(secs@, v as int, want_deleted),
{
    let mut k: usize = 0;
    let mut found = false;
    let ghost start = out@;
    assert(secs@.subrange(0, secs@.len() as int) =~= secs@);
    while k < secs.len()
        invariant
            k <= secs@.len(),
            out@ + data_with_id(secs@.subrange(k as int, secs@.len() as int), v as int, want_deleted)
                =~= start + data_with_id(secs@, v as int, want_deleted),
            found == exists|i: int| 0 <= i < k && picked(#[trigger] secs@[i], v as int, want_deleted),
        decreases secs@.len() - k,
    {
        let ghost rest = secs@.subrange(k as int, secs@.len() as int);
        assert(rest.drop_first() =~= secs@.subrange(k + 1, secs@.len() as int));
        assert(rest[0] == secs@[k as int]);
        if secs[k].id == v && secs[k].deleted == want_deleted {
            let d = &secs[k].data;
            let mut j: usize = 0;
            let ghost before = out@;
            while j < d.len()
                invariant
                    j <= d@.len(),
                    out@ == before + d@.subrange(0, j as int),
                decreases d@.len() - j,
            {
                out.push(d[j]);
                j += 1;
                assert(out@ =~= before + d@.subrange(0, j as int));
            }
            assert(d@.subrange(0, d@.len() as int) =~= d@);
            found = true;
        }
        k += 1;
    }
    assert(secs@.subrange(k as int, secs@.len() as int) =~= Seq::<Sector>::empty());
    found
}

/// Gathers the data of sectors `start..=eot` with the wanted mark, and the
/// ID of the last one read (`start` when none matched).
fn gather_sectors(secs: &Vec<Sector>, start: u8, eot: u8, want_deleted: bool) -> (r: (Vec<u8>, bool, u8))
    ensures
        r.0@ == gathered(secs@, start as int, eot as int, want_deleted),
        r.1 == any_picked(secs@, start as int, eot as int, want_deleted),
        r.2 as int == last_picked(secs@, start as int, eot as int, want_deleted),
{
    let mut combined: Vec<u8> = Vec::new();
    let mut found_any = false;
    let mut last_id: u8 = start;
    let mut v: u16 = start as u16;
    while v <= eot as u16
        invariant
            start <= v,
            v <= eot as int + 1 || v == start,
            combined@ + gathered(secs@, v as int, eot as int, want_deleted)
                =~= gathered(secs@, start as int, eot as int, want_deleted),
            found_any == any_picked(secs@, start as int, v - 1, want_deleted),
            last_id as int == last_picked(secs@, start as int, v - 1, want_deleted),
        decreases eot + 1 - v,
    {
        let ghost before = combined@;
        let got = append_sectors_with_id(&mut combined, secs, v as u8, want_deleted);
        proof {
            assert(before + gathered(secs@, v as int, eot as int, want_deleted)
                =~= combined@ + gathered(secs@, v + 1, eot as int, want_deleted));
            if got {
                let i = choose|i: int| 0 <= i < secs@.len() && picked(#[trigger] secs@[i], v as int, want_deleted);
                assert(start <= secs@[i].id <= v);
            }
            if any_picked(secs@, start as int, v as int, want_deleted) && !any_picked(secs@, start as int, v - 1, want_deleted) {
                let i = choose|i: int| 0 <= i < secs@.len() && start <= (#[trigger] secs@[i]).id <= v && secs@[i].deleted == want_deleted;
                assert(picked(secs@[i], v as int, want_deleted));
            }
        }
        if got {
            found_any = true;
            last_id = v as u8;
        }
        v = v + 1;
    }
    (combined, found_any, last_id)
}

} // verus!


verus! {

/// Number of bytes of the command whose first byte has code `c`.
pub open spec fn command_length(c: u8) -> usize {
    if c == 0x03 { 3 }       // Specify
    else if c == 0x04 { 2 }  // Sense Drive Status
    else if c == 0x07 { 2 }  // Recalibrate
    else if c == 0x0F { 3 }  // Seek
    else if c == 0x08 { 1 }  // Sense Interrupt Status
    else if c == 0x0A { 2 }  // Read ID
    else if c == 0x06 { 9 }  // Read Data
    else if c == 0x0C { 9 }  // Read Deleted Data
    else if c == 0x05 { 9 }  // Write Data
    else if c == 0x0D { 6 }  // Format Track
    else { 1 }               // unknown commands take one byte
}

/// `n` is `base` entering `phase`, its result index at 0, its command
/// buffer holding `cb` and its result buffer `rb`.
pub open spec fn shaped(n: Fdc, base: Fdc, phase: FdcPhase, cb: Seq<u8>, rb: Seq<u8>) -> bool {
    &&& n == (Fdc {
        phase,
        command_buffer: n.command_buffer,
        result_buffer: n.result_buffer,
        result_index: 0,
        ..base
    })
    &&& n.command_buffer@ == cb
    &&& n.result_buffer@ == rb
}

/// `u8` successor, wrapping from 255 to 0.
pub open spec fn next_id(id: u8) -> u8 {
    if id == 255 { 0 } else { (id + 1) as u8 }
}

/// Whether a Write Data or Format Track on drive `d` must rewrite its
/// `.dsk` file: the image lives in a real file.
pub open spec fn backed_by_file(d: Drive) -> bool {
    d.current_filename@ != no_file_name()
}

impl Fdc {
    /// The state after the drive selection a command carries: bit US0 of
    /// its second byte, for every command but Specify and Sense Interrupt
    /// Status.
    pub open spec fn selected_by(self, cb: Seq<u8>) -> Fdc {
        let c = cb[0] & 0x1F;
        if c != 0x03 && c != 0x08 && cb.len() >= 2 {
            Fdc { selected_drive: cb[1] & 0x01, ..self }
        } else {
            self
        }
    }

    /// Status register 3 reported by Sense Drive Status: not ready for a
    /// missing drive, otherwise ready and double-sided, plus Track 0.
    pub open spec fn st3(self) -> u8 {
        if !self.available() {
            0x08
        } else if self.selected().current_track == 0 {
            0x34
        } else {
            0x24
        }
    }

    /// Sectors of the track under the head of the selected drive, on side
    /// `side`.
    pub open spec fn id_count(self, side: u8) -> int {
        match track_sectors(self.selected(), self.selected().current_track, side) {
            Some(ss) => ss.len() as int,
            None => 0,
        }
    }

    /// Time between two sector IDs on that track.
    pub open spec fn id_pitch(self, side: u8) -> int {
        sector_pitch(track_sectors(self.selected(), self.selected().current_track, side))
    }

    /// Cycles until the next sector ID passes under the head.
    pub open spec fn next_id_wait(self, side: u8) -> int {
        self.id_pitch(side) - self.time as int % self.id_pitch(side)
    }

    /// Index, in the track, of the sector whose ID passes next.
    pub open spec fn next_id_index(self, side: u8) -> int {
        (self.time as int / self.id_pitch(side) + 1) % self.id_count(side)
    }

    /// Result of Read ID on an available drive, after the head has been
    /// set to side `side`: when the next ID passes under the head, and
    /// which one it is.
    pub open spec fn read_id(self, side: u8, n: Fdc) -> bool {
        let s1 = self.with_drive(Drive { current_side: side, ..self.selected() });
        let track = s1.selected().current_track;
        let secs = track_sectors(s1.selected(), track, side);
        let count: int = s1.id_count(side);
        // The next ID boundary after `time`, and the sector it belongs to.
        let busy: int = if count == 0 { 2 * REVOLUTION_TICKS } else { s1.next_id_wait(side) };
        let index: int = if count == 0 { 0 } else { s1.next_id_index(side) };
        let rb = match secs {
            Some(ss) => if ss.len() > 0 {
                let sec = ss[index];
                seq![0x00u8, 0x00, 0x00, track, side, sec.id, spec_size_to_n(sec.size as int) as u8]
            } else {
                seq![0x48u8, 0x01, 0x00, track, side, 0x00, 0x00]
            },
            None => seq![0x48u8, 0x01, 0x00, track, side, 0x00, 0x00],
        };
        shaped(n, Fdc { busy_ticks: busy as u32, ..s1 }, FdcPhase::Result, n.command_buffer@, rb)
    }

    /// Read Data (`want_deleted` false) or Read Deleted Data (true) with the
    /// command bytes `cb` [Cmd, Drive/HD, C, H, R, N, EOT, GPL, DTL].
    pub open spec fn read_sectors(self, cb: Seq<u8>, want_deleted: bool, n: Fdc) -> bool {
        if cb.len() < 9 {
            shaped(n, self, FdcPhase::Command, Seq::empty(), Seq::empty())
        } else {
            let track = cb[2];
            let side = cb[3] & 0x01;
            let start = cb[4];
            let code = cb[5];
            let eot = cb[6];
            if !self.available() {
                shaped(n, self, FdcPhase::Result, cb, seq![0x48u8, 0x01, 0x00, track, side, start, code])
            } else {
                let s1 = self.with_drive(Drive {
                    current_track: track,
                    current_side: side,
                    current_sector: start,
                    ..self.selected()
                });
                let secs: Seq<Sector> = match track_sectors(s1.selected(), track, side) {
                    Some(ss) => ss,
                    None => Seq::empty(),
                };
                if any_picked(secs, start as int, eot as int, want_deleted) {
                    let last = last_picked(secs, start as int, eot as int, want_deleted) as u8;
                    &&& shaped(n, Fdc { execution_buffer: n.execution_buffer, execution_index: 0, ..s1 },
                        FdcPhase::ExecutionRead, cb, seq![0x00u8, 0x00, 0x00, track, side, next_id(last), code])
                    &&& n.execution_buffer@ == gathered(secs, start as int, eot as int, want_deleted)
                } else {
                    shaped(n, s1, FdcPhase::Result, cb, seq![0x40u8, 0x04, 0x00, track, side, start, code])
                }
            }
        }
    }

    /// Effect of the complete command `cb` on `self` (`self` already holds
    /// the command length; its command buffer is ignored).
    pub open spec fn executed(self, cb: Seq<u8>, n: Fdc) -> bool {
        let c = cb[0] & 0x1F;
        let s = self.selected_by(cb);
        let avail = s.available();
        if c == 0x03 {
            // Specify: no result phase.
            shaped(n, s, FdcPhase::Command, Seq::empty(), Seq::empty())
        } else if c == 0x04 {
            // Sense Drive Status.
            shaped(n, s, FdcPhase::Result, cb, seq![s.st3()])
        } else if c == 0x07 {
            // Recalibrate: head back to track 0.
            let s1 = if avail { s.with_drive(Drive { current_track: 0, ..s.selected() }) } else { s };
            let st0: u8 = if avail { 0x20u8 | s1.unit_bits() } else { 0x48u8 | (s.selected_drive & 0x03) };
            shaped(n, Fdc { st0, seek_interrupt_pending: true, ..s1 }, FdcPhase::Command, Seq::empty(), Seq::empty())
        } else if c == 0x0F {
            // Seek: head HD of the Drive/HD byte, cylinder NCN.
            let s1 = if avail && cb.len() >= 3 {
                s.with_drive(Drive { current_side: (cb[1] >> 2) & 0x01, current_track: cb[2], ..s.selected() })
            } else {
                s
            };
            let st0: u8 = if avail { 0x20u8 | s1.unit_bits() } else { 0x48u8 | (s.selected_drive & 0x03) };
            shaped(n, Fdc { st0, seek_interrupt_pending: true, ..s1 }, FdcPhase::Command, Seq::empty(), Seq::empty())
        } else if c == 0x08 {
            // Sense Interrupt Status: invalid without a pending seek.
            if s.seek_interrupt_pending {
                shaped(n, Fdc { st0: 0, seek_interrupt_pending: false, ..s }, FdcPhase::Result, cb,
                    seq![s.st0, s.selected().current_track])
            } else {
                shaped(n, s, FdcPhase::Result, cb, seq![0x80u8])
            }
        } else if c == 0x0A {
            // Read ID.
            if !avail {
                shaped(n, s, FdcPhase::Result, cb, seq![0x48u8, 0x01, 0x00,
                    s.selected().current_track, s.selected().current_side, 0x00, 0x00])
            } else {
                let side = if cb.len() >= 2 { (cb[1] >> 2) & 0x01 } else { s.selected().current_side };
                &&& n.command_buffer@ == cb
                &&& s.read_id(side, n)
            }
        } else if c == 0x06 {
            s.read_sectors(cb, false, n)
        } else if c == 0x0C {
            s.read_sectors(cb, true, n)
        } else if c == 0x05 {
            // Write Data: one sector per command, data in the execution phase.
            if cb.len() < 9 {
                shaped(n, s, FdcPhase::Command, Seq::empty(), Seq::empty())
            } else if !avail {
                shaped(n, s, FdcPhase::Result, cb, seq![0x48u8, 0x01, 0x00, cb[2], cb[3] & 0x01, cb[4], cb[5]])
            } else {
                let s1 = s.with_drive(Drive {
                    current_track: cb[2],
                    current_side: cb[3] & 0x01,
                    current_sector: cb[4],
                    ..s.selected()
                });
                &&& shaped(n, Fdc { execution_buffer: n.execution_buffer, execution_index: 0, ..s1 },
                    FdcPhase::ExecutionWrite, cb, Seq::empty())
                &&& n.execution_buffer@.len() == 0
            }
        } else if c == 0x0D {
            // Format Track [Cmd, HD/US, N, SC, GPL, D]: SC descriptors follow.
            if cb.len() < 6 {
                shaped(n, s, FdcPhase::Command, Seq::empty(), Seq::empty())
            } else if !avail {
                shaped(n, s, FdcPhase::Result, cb, seq![0x48u8])
            } else {
                let s1 = s.with_drive(Drive { current_side: (cb[1] >> 2) & 0x01, ..s.selected() });
                &&& shaped(n, Fdc {
                    format_n: cb[2],
                    format_sc: cb[3],
                    format_fill: cb[5],
                    execution_buffer: n.execution_buffer,
                    execution_index: 0,
                    formatting: true,
                    ..s1
                }, FdcPhase::ExecutionWrite, cb, Seq::empty())
                &&& n.execution_buffer@.len() == 0
            }
        } else {
            // Unknown command: invalid.
            shaped(n, s, FdcPhase::Result, cb, seq![0x80u8])
        }
    }

    /// End of a Write Data whose `buf` of data bytes (`idx` counted) has
    /// been received: the sector is rewritten in the image of the selected
    /// drive, if it exists there.
    pub open spec fn write_finished(self, buf: Seq<u8>, idx: usize, n: Fdc) -> bool {
        let d = self.selected();
        let track = d.current_track;
        let side = d.current_side;
        let id = d.current_sector;
        let code = if self.command_buffer@.len() > 5 { self.command_buffer@[5] } else { 2u8 };
        let updated = match d.dsk {
            Some(img) => sector_exists(img.tracks@, track, side, id),
            None => false,
        };
        let persist = if updated && backed_by_file(d) { Some(self.selected_drive) } else { self.dsk_to_persist };
        let rb = if updated {
            seq![0x00u8, 0x00, 0x00, track, side, next_id(id), code]
        } else {
            seq![0x40u8, 0x04, 0x00, track, side, id, code]
        };
        &&& match d.dsk {
            Some(img) => n.selected().dsk matches Some(ni) && tracks_written(img.tracks@, ni.tracks@, track, side, id, buf),
            None => n.selected().dsk is None,
        }
        &&& n.selected() == (Drive { dsk: n.selected().dsk, ..d })
        &&& shaped(n, (Fdc {
            execution_buffer: n.execution_buffer,
            execution_index: idx,
            dsk_to_persist: persist,
            ..self
        }).with_drive(n.selected()), FdcPhase::Result, self.command_buffer@, rb)
        &&& n.execution_buffer@ == buf
    }

    /// End of a Format Track whose sector descriptors `buf` (`idx` counted)
    /// have been received: the track of the selected drive is rebuilt.
    pub open spec fn format_finished(self, buf: Seq<u8>, idx: usize, n: Fdc) -> bool {
        let d = self.selected();
        let track = d.current_track;
        let side = d.current_side;
        let code: u8 = if self.format_n > 6 { 6 } else { self.format_n };
        let old_tracks: Seq<Track> = match d.dsk { Some(img) => img.tracks@, None => Seq::empty() };
        let persist = if backed_by_file(d) { Some(self.selected_drive) } else { self.dsk_to_persist };
        &&& n.selected().dsk matches Some(ni)
            && tracks_formatted(old_tracks, ni.tracks@, track, side, code,
                buf, size_of_code(code as int), self.format_fill)
        &&& n.selected() == (Drive { dsk: n.selected().dsk, disk_loaded: true, ..d })
        &&& shaped(n, (Fdc {
            execution_buffer: n.execution_buffer,
            execution_index: idx,
            dsk_to_persist: persist,
            formatting: false,
            ..self
        }).with_drive(n.selected()), FdcPhase::Result, self.command_buffer@,
            seq![0x00u8, 0x00, 0x00, track, side, 0x00, code])
        &&& n.execution_buffer@ == buf
    }

    /// Effect of writing `val` to the data register (port &FB7F).
    pub open spec fn data_written(self, val: u8, n: Fdc) -> bool {
        match self.phase {
            FdcPhase::Command => self.command_byte_written(val, n),
            FdcPhase::ExecutionWrite => self.execution_byte_written(val, n),
            _ => n == self,
        }
    }

    /// Effect of a data byte received during the execution phase of a
    /// Write Data or a Format Track.
    pub open spec fn execution_byte_written(self, val: u8, n: Fdc) -> bool {
        let buf = self.execution_buffer@.push(val);
        let idx = (self.execution_index + 1) as usize;
        let accumulating = n == (Fdc {
            execution_buffer: n.execution_buffer,
            execution_index: idx,
            ..self
        }) && n.execution_buffer@ == buf;
        if self.formatting {
            let expected = self.format_sc as int * 4;
            if expected > 0 && idx >= expected {
                self.format_finished(buf, idx, n)
            } else {
                accumulating
            }
        } else {
            let code = if self.command_buffer@.len() > 5 { self.command_buffer@[5] } else { 2u8 };
            let expected = size_of_code(if code > 6 { 6 } else { code as int });
            if idx >= expected {
                self.write_finished(buf, idx, n)
            } else {
                accumulating
            }
        }
    }

    /// Effect of a command byte: the command runs once complete, its
    /// length being given by its first byte.
    pub open spec fn command_byte_written(self, val: u8, n: Fdc) -> bool {
        let cb = self.command_buffer@.push(val);
        let len = if self.command_buffer@.len() == 0 { command_length(val & 0x1F) } else { self.command_len };
        if cb.len() >= len {
            (Fdc { command_len: len, ..self }).executed(cb, n)
        } else {
            &&& n == (Fdc { command_len: len, command_buffer: n.command_buffer, ..self })
            &&& n.command_buffer@ == cb
        }
    }
}


/// The command buffer a state holds plays no part in the effect of a
/// command, which is given its bytes.
proof fn lemma_executed_ignores_command_buffer(a: Fdc, b: Fdc, cb: Seq<u8>, n: Fdc)
    requires
        a == (Fdc { command_buffer: a.command_buffer, ..b }),
        cb.len() >= 1,
    ensures
        a.executed(cb, n) == b.executed(cb, n),
{
    let c = cb[0] & 0x1F;
    if c == 0x0A || c == 0x06 || c == 0x0C {
        lemma_reads_ignore_command_buffer(a, b, cb, n);
    } else {
        lemma_others_ignore_command_buffer(a, b, cb, n);
    }
}

/// `lemma_executed_ignores_command_buffer` for the commands that read.
#[verifier::rlimit(100)]
#[verifier::spinoff_prover]
proof fn lemma_reads_ignore_command_buffer(a: Fdc, b: Fdc, cb: Seq<u8>, n: Fdc)
    requires
        a == (Fdc { command_buffer: a.command_buffer, ..b }),
        cb.len() >= 1,
        (cb[0] & 0x1F) == 0x0A || (cb[0] & 0x1F) == 0x06 || (cb[0] & 0x1F) == 0x0C,
    ensures
        a.executed(cb, n) == b.executed(cb, n),
{
    let c = cb[0] & 0x1F;
    let sa = a.selected_by(cb);
    let sb = b.selected_by(cb);
    assert(sa == (Fdc { command_buffer: sa.command_buffer, ..sb }));
    if c == 0x0A {
        if sa.available() {
            let side = if cb.len() >= 2 { (cb[1] >> 2) & 0x01 } else { sa.selected().current_side };
            assert(sa.read_id(side, n) == sb.read_id(side, n));
        }
    } else if c == 0x06 {
        assert(sa.read_sectors(cb, false, n) == sb.read_sectors(cb, false, n));
    } else {
        assert(sa.read_sectors(cb, true, n) == sb.read_sectors(cb, true, n));
    }
}

/// `lemma_executed_ignores_command_buffer` for the other commands.
#[verifier::rlimit(100)]
#[verifier::spinoff_prover]
proof fn lemma_others_ignore_command_buffer(a: Fdc, b: Fdc, cb: Seq<u8>, n: Fdc)
    requires
        a == (Fdc { command_buffer: a.command_buffer, ..b }),
        cb.len() >= 1,
        !((cb[0] & 0x1F) == 0x0A || (cb[0] & 0x1F) == 0x06 || (cb[0] & 0x1F) == 0x0C),
    ensures
        a.executed(cb, n) == b.executed(cb, n),
{
    let sa = a.selected_by(cb);
    let sb = b.selected_by(cb);
    assert(sa == (Fdc { command_buffer: sa.command_buffer, ..sb }));
}

/// Selecting the drive first, and emptying the result buffer, changes
/// nothing to the effect of a command.
#[verifier::spinoff_prover]
#[verifier::rlimit(50)]
proof fn lemma_executed_after_selection(a: Fdc, p: Fdc, cb: Seq<u8>)
    requires
        cb.len() >= 1,
        p == (Fdc { result_buffer: p.result_buffer, result_index: 0, ..a.selected_by(cb) }),
    ensures
        p.selected_by(cb) == p,
        forall|n: Fdc| #[trigger] p.executed(cb, n) == a.executed(cb, n),
{
    assert forall|n: Fdc| #[trigger] p.executed(cb, n) == a.executed(cb, n) by {
        let c = cb[0] & 0x1F;
        if c == 0x03 || c == 0x04 || c == 0x07 || c == 0x0F || c == 0x08 {
        } else if c == 0x0A {
        } else if c == 0x06 || c == 0x0C {
        } else if c == 0x05 || c == 0x0D {
        } else {
        }
    }
}

/// Number of bytes of the command whose first byte has code `c`.
fn command_length_of(c: u8) -> (n: usize)
    ensures
        n == command_length(c),
{
    if c == 0x03 { 3 }
    else if c == 0x04 { 2 }
    else if c == 0x07 { 2 }
    else if c == 0x0F { 3 }
    else if c == 0x08 { 1 }
    else if c == 0x0A { 2 }
    else if c == 0x06 { 9 }
    else if c == 0x0C { 9 }
    else if c == 0x05 { 9 }
    else if c == 0x0D { 6 }
    else { 1 }
}

impl Fdc {
    /// Whether the selected drive's image lives in a real file.
    fn selected_backed_by_file(&self) -> (b: bool)
        ensures
            b == backed_by_file(self.selected()),
    {
        proof { reveal_strlit("None"); }
        let none = String::from_str("None");
        assert(none@ =~= no_file_name());
        !(self.drive().current_filename == none)
    }

    /// Takes the disc image out of the selected drive.
    fn take_selected_dsk(&mut self) -> (img: Option<DskImage>)
        ensures
            img == old(self).selected().dsk,
            *final(self) == old(self).with_drive(Drive { dsk: None, ..old(self).selected() }),
    {
        if self.selected_drive == 1 {
            self.drive_b.dsk.take()
        } else {
            self.drive_a.dsk.take()
        }
    }

    /// Puts a disc image back in the selected drive.
    fn put_selected_dsk(&mut self, img: DskImage, loaded: bool)
        ensures
            *final(self) == old(self).with_drive(Drive { dsk: Some(img), disk_loaded: loaded, ..old(self).selected() }),
    {
        if self.selected_drive == 1 {
            self.drive_b.dsk = Some(img);
            self.drive_b.disk_loaded = loaded;
        } else {
            self.drive_a.dsk = Some(img);
            self.drive_a.disk_loaded = loaded;
        }
    }

    /// Pushes a 7-byte result phase.
    fn push_result7(&mut self, b0: u8, b1: u8, b2: u8, b3: u8, b4: u8, b5: u8, b6: u8)
        ensures
            final(self).result_buffer@ == old(self).result_buffer@ + seq![b0, b1, b2, b3, b4, b5, b6],
            *final(self) == (Fdc { result_buffer: final(self).result_buffer, ..*old(self) }),
    {
        self.result_buffer.push(b0);
        self.result_buffer.push(b1);
        self.result_buffer.push(b2);
        self.result_buffer.push(b3);
        self.result_buffer.push(b4);
        self.result_buffer.push(b5);
        self.result_buffer.push(b6);
    }

    /// Closes a Write Data once its sector data has been received.
    fn finish_write_command(&mut self)
        ensures
            old(self).write_finished(old(self).execution_buffer@, old(self).execution_index, *final(self)),
    {
        let track = self.drive().current_track;
        let side = self.drive().current_side;
        let sector_id = self.drive().current_sector;
        let code: u8 = if self.command_buffer.len() > 5 { self.command_buffer[5] } else { 2 };
        let backed = self.selected_backed_by_file();
        let ghost s0 = *self;
        let mut updated = false;
        match self.take_selected_dsk() {
            Some(img) => {
                let DskImage { tracks } = img;
                let (nt, up) = write_sector_in_tracks(tracks, track, side, sector_id, &self.execution_buffer);
                updated = up;
                let loaded = self.drive().disk_loaded;
                self.put_selected_dsk(DskImage { tracks: nt }, loaded);
            },
            None => {},
        }
        if updated && backed {
            self.dsk_to_persist = Some(self.selected_drive);
        }
        self.result_buffer.clear();
        self.result_index = 0;
        if updated {
            let next: u8 = if sector_id == 255 { 0 } else { sector_id + 1 };
            self.push_result7(0x00, 0x00, 0x00, track, side, next, code);
        } else {
            self.push_result7(0x40, 0x04, 0x00, track, side, sector_id, code);
        }
        self.phase = FdcPhase::Result;
    }

    /// Closes a Format Track once its sector descriptors have been
    /// received: the track is rebuilt from them, filled with the filler
    /// byte, on the selected drive.
    fn finish_format_command(&mut self)
        ensures
            old(self).format_finished(old(self).execution_buffer@, old(self).execution_index, *final(self)),
    {
        let track = self.drive().current_track;
        let side = self.drive().current_side;
        let code: u8 = if self.format_n > 6 { 6 } else { self.format_n };
        let size = size_for_code(code);
        let fill = self.format_fill;
        let backed = self.selected_backed_by_file();
        let tracks = match self.take_selected_dsk() {
            Some(img) => img.tracks,
            None => Vec::new(),
        };
        let nt = format_track_in(tracks, track, side, code, &self.execution_buffer, size, fill);
        self.put_selected_dsk(DskImage { tracks: nt }, true);
        if backed {
            self.dsk_to_persist = Some(self.selected_drive);
        }
        self.result_buffer.clear();
        self.result_index = 0;
        self.push_result7(0x00, 0x00, 0x00, track, side, 0x00, code);
        self.phase = FdcPhase::Result;
        self.formatting = false;
    }
}


impl Fdc {
    /// Read Data (0x06) and Read Deleted Data (0x0C): same parameters and
    /// same multi-sector transfer, only the address mark looked for
    /// (`Sector::deleted`) differs.
    ///
    /// Command format: [Cmd, Drive/HD, C, H, R, N, EOT, GPL, DTL]
    #[verifier::rlimit(30)]
    fn read_data_command(&mut self, want_deleted: bool)
        requires
            old(self).result_buffer@.len() == 0,
        ensures
            old(self).read_sectors(old(self).command_buffer@, want_deleted, *final(self)),
    {
        if self.command_buffer.len() < 9 {
            self.phase = FdcPhase::Command;
            self.command_buffer.clear();
            self.result_index = 0;
            assert(self.result_buffer@ =~= Seq::empty());
            return;
        }
        let track = self.command_buffer[2];
        let side = self.command_buffer[3] & 0x01;
        let start_sector = self.command_buffer[4];
        let code = self.command_buffer[5];
        let eot = self.command_buffer[6];

        if !self.selected_drive_available() {
            self.push_result7(0x48, 0x01, 0x00, track, side, start_sector, code);
            self.result_index = 0;
            self.phase = FdcPhase::Result;
            return;
        }

        self.set_track(track);
        self.set_side(side);
        self.set_sector(start_sector);

        // All consecutive sectors from R to EOT (included) present on the
        // track and bearing the wanted mark, as the real controller does
        // for a multi-sector command.
        let (combined, found_any, last_id) = self.gather_from_selected(track, side, start_sector, eot, want_deleted);

        self.result_index = 0;
        if found_any {
            self.execution_buffer = combined;
            self.execution_index = 0;
            self.phase = FdcPhase::ExecutionRead;
            let next: u8 = if last_id == 255 { 0 } else { last_id + 1 };
            self.push_result7(0x00, 0x00, 0x00, track, side, next, code);
        } else {
            // Sector not found (No Data).
            self.push_result7(0x40, 0x04, 0x00, track, side, start_sector, code);
            self.phase = FdcPhase::Result;
        }
    }

    /// Data of the sectors `start..=eot` with the wanted mark on the track
    /// `track`/`side` of the selected drive, whether there is any, and the
    /// ID of the last one.
    fn gather_from_selected(&self, track: u8, side: u8, start: u8, eot: u8, want_deleted: bool) -> (r: (Vec<u8>, bool, u8))
        ensures
            ({
                let secs: Seq<Sector> = match track_sectors(self.selected(), track, side) {
                    Some(ss) => ss,
                    None => Seq::empty(),
                };
                &&& r.0@ == gathered(secs, start as int, eot as int, want_deleted)
                &&& r.1 == any_picked(secs, start as int, eot as int, want_deleted)
                &&& r.2 as int == last_picked(secs, start as int, eot as int, want_deleted)
            }),
    {
        let drv = self.drive();
        let empty: Vec<Sector> = Vec::new();
        match &drv.dsk {
            Some(img) => match find_track_index(&img.tracks, track, side) {
                Some(i) => gather_sectors(&img.tracks[i].sectors, start, eot, want_deleted),
                None => gather_sectors(&empty, start, eot, want_deleted),
            },
            None => gather_sectors(&empty, start, eot, want_deleted),
        }
    }

    /// Number of sectors of the track `track`/`side` of the selected drive.
    fn track_sector_count(&self, track: u8, side: u8) -> (c: usize)
        ensures
            c as int == match track_sectors(self.selected(), track, side) {
                Some(ss) => ss.len() as int,
                None => 0,
            },
    {
        match &self.drive().dsk {
            Some(img) => match find_track_index(&img.tracks, track, side) {
                Some(i) => img.tracks[i].sectors.len(),
                None => 0,
            },
            None => 0,
        }
    }

    /// ID and size of sector `index` of the track `track`/`side` of the
    /// selected drive.
    fn track_sector_at(&self, track: u8, side: u8, index: usize) -> (r: (u8, usize))
        requires
            track_sectors(self.selected(), track, side) matches Some(ss) && index < ss.len(),
        ensures
            track_sectors(self.selected(), track, side) matches Some(ss)
                && r.0 == ss[index as int].id && r.1 == ss[index as int].size,
    {
        match &self.drive().dsk {
            Some(img) => match find_track_index(&img.tracks, track, side) {
                Some(i) => (img.tracks[i].sectors[index].id, img.tracks[i].sectors[index].size),
                None => (0, 0),
            },
            None => (0, 0),
        }
    }

    /// Read ID on an available drive: the disc turns, so the answer is
    /// the ID that passes under the head next, and the controller stays
    /// busy until it does.
    fn read_id_command(&mut self, side: u8)
        requires
            old(self).result_buffer@.len() == 0,
        ensures
            old(self).read_id(side, *final(self)),
            final(self).command_buffer == old(self).command_buffer,
    {
        self.set_side(side);
        let track = self.drive().current_track;
        let count = self.track_sector_count(track, side);
        let ghost secs = track_sectors(self.selected(), track, side);
        let index: usize;
        if count == 0 {
            // Unformatted track: the real controller gives up after two
            // revolutions without finding any ID.
            self.busy_ticks = 2 * REVOLUTION_TICKS;
            index = 0;
        } else {
            let pitch = self.sector_pitch_ticks(track, side);
            let t = self.time;
            let q = t / pitch;
            let c = count as u64;
            proof {
                vstd::arithmetic::div_mod::lemma_add_mod_noop_right(1, q as int, c as int);
            }
            index = ((q % c + 1) % c) as usize;
            self.busy_ticks = (pitch - t % pitch) as u32;
        }
        self.result_index = 0;
        if count > 0 {
            let (sec_id, sec_size) = self.track_sector_at(track, side, index);
            let n = size_to_n(sec_size);
            self.push_result7(0x00, 0x00, 0x00, track, side, sec_id, n);
        } else {
            self.push_result7(0x48, 0x01, 0x00, track, side, 0x00, 0x00);
        }
        self.phase = FdcPhase::Result;
    }
}


impl Fdc {
    /// Runs the command accumulated in the command buffer.
    fn execute_command(&mut self)
        requires
            old(self).command_buffer@.len() >= 1,
        ensures
            old(self).executed(old(self).command_buffer@, *final(self)),
    {
        let cmd = self.command_buffer[0] & 0x1F;
        self.result_buffer.clear();
        self.result_index = 0;

        // Bit 0 (US0) of the second byte ("Drive/HD"), present in almost
        // every command, selects the drive (0 = A, 1 = B). Specify (0x03)
        // and Sense Interrupt Status (0x08) have no such field.
        if cmd != 0x03 && cmd != 0x08 && self.command_buffer.len() >= 2 {
            self.selected_drive = self.command_buffer[1] & 0x01;
        }
        proof {
            lemma_executed_after_selection(*old(self), *self, self.command_buffer@);
        }
        self.run_command(cmd);
    }

    /// Runs command `cmd` once its drive is selected and its result buffer
    /// emptied.
    #[verifier::rlimit(40)]
    fn run_command(&mut self, cmd: u8)
        requires
            old(self).command_buffer@.len() >= 1,
            cmd == old(self).command_buffer@[0] & 0x1F,
            old(self).result_buffer@.len() == 0,
            old(self).result_index == 0,
            old(self).selected_by(old(self).command_buffer@) == *old(self),
        ensures
            old(self).executed(old(self).command_buffer@, *final(self)),
    {
        assert(self.result_buffer@ =~= Seq::empty());
        if cmd == 0x03 {
            // Specify: no result phase.
            self.phase = FdcPhase::Command;
            self.command_buffer.clear();
            assert(self.result_buffer@ =~= Seq::empty());
        } else if cmd == 0x04 {
            // Sense Drive Status: ST3 (bit 5 two-sided, bit 4 track 0,
            // bit 2 ready... as the CPC wires it: 0x24 ready and two-sided).
            let st3: u8 = if !self.selected_drive_available() {
                0x08
            } else if self.drive().current_track == 0 {
                0x34
            } else {
                0x24
            };
            self.result_buffer.push(st3);
            assert(self.result_buffer@ =~= seq![st3]);
            self.phase = FdcPhase::Result;
        } else if cmd == 0x07 || cmd == 0x0F {
            self.seek_command(cmd == 0x0F);
        } else if cmd == 0x08 {
            // Sense Interrupt Status: invalid unless a seek or a
            // recalibrate left an interrupt pending.
            if self.seek_interrupt_pending {
                let st0 = self.st0;
                let track = self.drive().current_track;
                self.result_buffer.push(st0);
                self.result_buffer.push(track);
                assert(self.result_buffer@ =~= seq![st0, track]);
                self.seek_interrupt_pending = false;
                self.st0 = 0x00;
            } else {
                self.result_buffer.push(0x80);
                assert(self.result_buffer@ =~= seq![0x80u8]);
            }
            self.phase = FdcPhase::Result;
        } else if cmd == 0x0A {
            // Read ID.
            if !self.selected_drive_available() {
                let track = self.drive().current_track;
                let side = self.drive().current_side;
                self.push_result7(0x48, 0x01, 0x00, track, side, 0x00, 0x00);
                assert(self.result_buffer@ =~= seq![0x48u8, 0x01, 0x00, track, side, 0x00, 0x00]);
                self.phase = FdcPhase::Result;
            } else {
                // Bit 2 (HD) of Drive/HD gives the side asked for.
                let side = if self.command_buffer.len() >= 2 {
                    (self.command_buffer[1] >> 2) & 0x01
                } else {
                    self.drive().current_side
                };
                self.read_id_command(side);
            }
        } else if cmd == 0x06 {
            self.read_data_command(false);
        } else if cmd == 0x0C {
            // Read Deleted Data: only sectors recorded with the Deleted
            // Data mark (some protections rely on it).
            self.read_data_command(true);
        } else if cmd == 0x05 || cmd == 0x0D {
            self.start_write_command(cmd == 0x0D);
        } else {
            // Unsupported command: invalid.
            self.result_buffer.push(0x80);
            assert(self.result_buffer@ =~= seq![0x80u8]);
            self.phase = FdcPhase::Result;
        }
    }

    /// Recalibrate (0x07, `seek` false) and Seek (0x0F, `seek` true).
    fn seek_command(&mut self, seek: bool)
        requires
            old(self).command_buffer@.len() >= 1,
        ensures
            ({
                let cb = old(self).command_buffer@;
                let s = *old(self);
                let avail = s.available();
                let s1 = if !seek {
                    if avail { s.with_drive(Drive { current_track: 0, ..s.selected() }) } else { s }
                } else if avail && cb.len() >= 3 {
                    s.with_drive(Drive { current_side: (cb[1] >> 2) & 0x01, current_track: cb[2], ..s.selected() })
                } else {
                    s
                };
                let st0: u8 = if avail { 0x20u8 | s1.unit_bits() } else { 0x48u8 | (s.selected_drive & 0x03) };
                shaped(*final(self), Fdc { st0, seek_interrupt_pending: true, ..s1 }, FdcPhase::Command,
                    Seq::empty(), s.result_buffer@)
            }),
    {
        if self.selected_drive_available() {
            if !seek {
                self.set_track(0);
            } else if self.command_buffer.len() >= 3 {
                // Bit 2 (HD) of Drive/HD selects the head, hence the side.
                let side = (self.command_buffer[1] >> 2) & 0x01;
                let nc = self.command_buffer[2];
                self.set_side(side);
                self.set_track(nc);
            }
            self.st0 = 0x20 | self.seek_st0_unit_bits();
        } else {
            // Abnormal termination, not ready.
            self.st0 = 0x48 | (self.selected_drive & 0x03);
        }
        self.seek_interrupt_pending = true;
        self.phase = FdcPhase::Command;
        self.command_buffer.clear();
        self.result_index = 0;
    }

    /// Write Data (0x05, `format` false) and Format Track (0x0D, `format`
    /// true): checks the command and enters the execution phase, where the
    /// data (or the sector descriptors) arrive. Write Data handles one
    /// sector per command.
    fn start_write_command(&mut self, format: bool)
        requires
            old(self).result_buffer@.len() == 0,
        ensures
            ({
                let cb = old(self).command_buffer@;
                let s = *old(self);
                let n = *final(self);
                if !format {
                    if cb.len() < 9 {
                        shaped(n, s, FdcPhase::Command, Seq::empty(), Seq::empty())
                    } else if !s.available() {
                        shaped(n, s, FdcPhase::Result, cb, seq![0x48u8, 0x01, 0x00, cb[2], cb[3] & 0x01, cb[4], cb[5]])
                    } else {
                        let s1 = s.with_drive(Drive {
                            current_track: cb[2],
                            current_side: cb[3] & 0x01,
                            current_sector: cb[4],
                            ..s.selected()
                        });
                        &&& shaped(n, Fdc { execution_buffer: n.execution_buffer, execution_index: 0, ..s1 },
                            FdcPhase::ExecutionWrite, cb, Seq::empty())
                        &&& n.execution_buffer@.len() == 0
                    }
                } else {
                    if cb.len() < 6 {
                        shaped(n, s, FdcPhase::Command, Seq::empty(), Seq::empty())
                    } else if !s.available() {
                        shaped(n, s, FdcPhase::Result, cb, seq![0x48u8])
                    } else {
                        let s1 = s.with_drive(Drive { current_side: (cb[1] >> 2) & 0x01, ..s.selected() });
                        &&& shaped(n, Fdc {
                            format_n: cb[2],
                            format_sc: cb[3],
                            format_fill: cb[5],
                            execution_buffer: n.execution_buffer,
                            execution_index: 0,
                            formatting: true,
                            ..s1
                        }, FdcPhase::ExecutionWrite, cb, Seq::empty())
                        &&& n.execution_buffer@.len() == 0
                    }
                }
            }),
    {
        self.result_index = 0;
        let needed: usize = if format { 6 } else { 9 };
        if self.command_buffer.len() < needed {
            self.phase = FdcPhase::Command;
            self.command_buffer.clear();
            assert(self.result_buffer@ =~= Seq::empty());
            return;
        }
        if !self.selected_drive_available() {
            if format {
                self.result_buffer.push(0x48);
                assert(self.result_buffer@ =~= seq![0x48u8]);
            } else {
                let track = self.command_buffer[2];
                let side = self.command_buffer[3] & 0x01;
                let r = self.command_buffer[4];
                let n = self.command_buffer[5];
                self.push_result7(0x48, 0x01, 0x00, track, side, r, n);
                assert(self.result_buffer@ =~= seq![0x48u8, 0x01, 0x00, track, side, r, n]);
            }
            self.phase = FdcPhase::Result;
            return;
        }
        if format {
            let side = (self.command_buffer[1] >> 2) & 0x01;
            self.set_side(side);
            self.format_n = self.command_buffer[2];
            self.format_sc = self.command_buffer[3];
            self.format_fill = self.command_buffer[5];
            self.formatting = true;
        } else {
            let track = self.command_buffer[2];
            let side = self.command_buffer[3] & 0x01;
            let r = self.command_buffer[4];
            self.set_track(track);
            self.set_side(side);
            self.set_sector(r);
        }
        self.execution_buffer.clear();
        self.execution_index = 0;
        self.phase = FdcPhase::ExecutionWrite;
        assert(self.result_buffer@ =~= Seq::empty());
    }

    /// Writes one byte to the data register (port &FB7F): a command byte,
    /// or a byte of the data (or sector descriptors) a write command
    /// expects. Ignored during a read or a result phase.
    pub fn write_data(&mut self, val: u8)
        requires
            old(self).phase == FdcPhase::ExecutionWrite ==> old(self).execution_index < usize::MAX,
        ensures
            old(self).data_written(val, *final(self)),
    {
        match self.phase {
            FdcPhase::Command => self.command_byte(val),
            FdcPhase::ExecutionWrite => self.execution_byte(val),
            _ => {},
        }
    }

    /// A byte of sector data, or of Format Track descriptors.
    fn execution_byte(&mut self, val: u8)
        requires
            old(self).execution_index < usize::MAX,
        ensures
            old(self).execution_byte_written(val, *final(self)),
    {
        self.execution_buffer.push(val);
        self.execution_index += 1;
        if self.formatting {
            // Format Track: groups of 4 bytes (C, H, R, N), one per
            // sector to create.
            let expected = self.format_sc as usize * 4;
            if expected > 0 && self.execution_index >= expected {
                self.finish_format_command();
            }
        } else {
            // Sector data: the size comes from the N field of the Write
            // Data command.
            let code: u8 = if self.command_buffer.len() > 5 { self.command_buffer[5] } else { 2 };
            let expected = size_for_code(if code > 6 { 6 } else { code });
            if self.execution_index >= expected {
                self.finish_write_command();
            }
        }
    }

    /// A command byte; the command runs once all its bytes are in.
    fn command_byte(&mut self, val: u8)
        ensures
            old(self).command_byte_written(val, *final(self)),
    {
        if self.command_buffer.len() == 0 {
            self.command_buffer.push(val);
            self.command_len = command_length_of(val & 0x1F);
        } else {
            self.command_buffer.push(val);
        }
        if self.command_buffer.len() >= self.command_len {
            proof {
                lemma_executed_ignores_command_buffer(*self,
                    Fdc { command_buffer: old(self).command_buffer, ..*self }, self.command_buffer@, *self);
            }
            let ghost before = *self;
            self.execute_command();
            proof {
                lemma_executed_ignores_command_buffer(before,
                    Fdc { command_buffer: old(self).command_buffer, ..before }, before.command_buffer@, *self);
            }
        }
    }
}


/// Whether `img` is a blank AMSDOS data disc: 40 tracks on one side, each
/// of nine 512-byte sectors numbered 0xC1 to 0xC9, filled with 0xE5.
pub open spec fn is_blank_image(img: DskImage) -> bool {
    &&& img.tracks@.len() == 40
    &&& forall|t: int| 0 <= t < 40 ==> {
        let tr = #[trigger] img.tracks@[t];
        &&& tr.number == t
        &&& tr.side == 0
        &&& tr.sector_size == 2
        &&& tr.sectors@.len() == 9
        &&& forall|i: int| 0 <= i < 9 ==> {
            let sec = #[trigger] tr.sectors@[i];
            &&& sec.id == 0xC1 + i
            &&& sec.size == 512
            &&& sec.data@ == Seq::new(512, |_k: int| 0xE5u8)
            &&& !sec.deleted
        }
    }
}

impl Fdc {
    /// A blank disc, formatted as AMSDOS does (40 tracks, one side, nine
    /// 512-byte sectors numbered 0xC1-0xC9, filled with the usual Format
    /// Track filler byte). It is only built in memory.
    pub fn blank_dsk_image() -> (img: DskImage)
        ensures
            is_blank_image(img),
    {
        let mut tracks: Vec<Track> = Vec::new();
        let mut number: u8 = 0;
        while number < 40
            invariant
                number <= 40,
                tracks@.len() == number,
                forall|t: int| 0 <= t < number ==> {
                    let tr = #[trigger] tracks@[t];
                    &&& tr.number == t
                    &&& tr.side == 0
                    &&& tr.sector_size == 2
                    &&& tr.sectors@.len() == 9
                    &&& forall|i: int| 0 <= i < 9 ==> {
                        let sec = #[trigger] tr.sectors@[i];
                        &&& sec.id == 0xC1 + i
                        &&& sec.size == 512
                        &&& sec.data@ == Seq::new(512, |_k: int| 0xE5u8)
                        &&& !sec.deleted
                    }
                },
            decreases 40 - number,
        {
            let mut sectors: Vec<Sector> = Vec::new();
            let mut i: u8 = 0;
            while i < 9
                invariant
                    i <= 9,
                    sectors@.len() == i,
                    forall|j: int| 0 <= j < i ==> {
                        let sec = #[trigger] sectors@[j];
                        &&& sec.id == 0xC1 + j
                        &&& sec.size == 512
                        &&& sec.data@ == Seq::new(512, |_k: int| 0xE5u8)
                        &&& !sec.deleted
                    },
                decreases 9 - i,
            {
                let data = filled(0xE5, 512);
                sectors.push(Sector { id: 0xC1 + i, size: 512, data, deleted: false });
                i += 1;
            }
            // Size code 2: 128 << 2 = 512 bytes.
            tracks.push(Track { number, side: 0, sector_size: 2, sectors });
            number += 1;
        }
        DskImage { tracks }
    }
}

} // verus!

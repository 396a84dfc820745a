//! Writing a disc image back in the standard (not Extended) `.dsk` format:
//! a 256-byte disc header, then one block per track and side, every block
//! the size of the largest track.

use crate::fdc::{
    is_blank_image, byte_at, dsk_parse_ok, dsk_parsed, header_sector_count, info_actual_size, info_size_code, sector_matches,
    sectors_match, size_of_code, standard_signature, standard_tracks_match, starts_with_sig, track_matches, word_at,
    DskImage, Sector, Track,
};
use vstd::prelude::*;

verus! {

/// Sum of the sizes of `secs`.
pub open spec fn payload(secs: Seq<Sector>) -> int
    decreases secs.len(),
{
    if secs.len() == 0 { 0 } else { payload(secs.drop_last()) + secs.last().size }
}

/// Largest of `f` over the tracks, `none` for no track.
pub open spec fn max_over(tracks: Seq<Track>, f: spec_fn(Track) -> int, none: int) -> int
    decreases tracks.len(),
{
    if tracks.len() == 0 {
        none
    } else {
        let m = max_over(tracks.drop_last(), f, none);
        let x = f(tracks.last());
        if tracks.len() == 1 || x > m { x } else { m }
    }
}

/// Tracks per side: one more than the highest track number (0 for no
/// track).
pub open spec fn track_count(img: DskImage) -> int {
    max_over(img.tracks@, |t: Track| t.number as int + 1, 0)
}

/// Sides: one more than the highest side number (1 for no track).
pub open spec fn side_count(img: DskImage) -> int {
    max_over(img.tracks@, |t: Track| t.side as int + 1, 1)
}

/// Size of every track block: a 256-byte track header and room for the
/// largest track's sectors.
pub open spec fn block_size(img: DskImage) -> int {
    0x100 + max_over(img.tracks@, |t: Track| payload(t.sectors@), 0)
}

/// Index of the first track numbered `t` on side `s`, if any.
pub open spec fn find_track(tracks: Seq<Track>, t: int, s: int) -> Option<int>
    decreases tracks.len(),
{
    if tracks.len() == 0 {
        None
    } else if tracks[0].number == t && tracks[0].side == s {
        Some(0)
    } else {
        match find_track(tracks.drop_first(), t, s) {
            Some(i) => Some(i + 1),
            None => None,
        }
    }
}

/// Number of trailing zero bits of `x` (which is not 0).
pub open spec fn trailing_zeros(x: nat) -> nat
    decreases x,
{
    if x == 0 || x % 2 == 1 { 0 } else { 1 + trailing_zeros(x / 2) }
}

/// Size code N of a sector of `size` bytes (128 << N), from its size.
pub open spec fn size_code(size: int) -> u8 {
    trailing_zeros((if size < 128 { 128 } else { size }) as nat / 128) as u8
}

/// Byte `k` of the sector data area: the sectors one after the other.
pub open spec fn data_byte(secs: Seq<Sector>, k: int) -> u8
    decreases secs.len(),
{
    if secs.len() == 0 {
        0
    } else if k < secs[0].size {
        secs[0].data@[k]
    } else {
        data_byte(secs.drop_first(), k - secs[0].size)
    }
}

/// Signature of a disc header, "MV - CPC".
pub open spec fn disc_signature() -> Seq<u8> {
    seq![0x4Du8, 0x56, 0x20, 0x2D, 0x20, 0x43, 0x50, 0x43]
}

/// Signature of a track block, "Track-Info\r\n".
pub open spec fn track_signature() -> Seq<u8> {
    seq![0x54u8, 0x72, 0x61, 0x63, 0x6B, 0x2D, 0x49, 0x6E, 0x66, 0x6F, 0x0D, 0x0A]
}

/// Byte `k` of the block of track `tr`: its signature, number, side,
/// sector size code and sector count, one 8-byte entry per sector
/// (track, side, id, size code) as long as it fits in the 256-byte header,
/// then the sector data.
pub open spec fn block_byte(tr: Track, k: int) -> u8 {
    let secs = tr.sectors@;
    if 0 <= k < 12 { track_signature()[k] }
    else if k == 0x10 { tr.number }
    else if k == 0x11 { tr.side }
    else if k == 0x14 { tr.sector_size }
    else if k == 0x15 { (secs.len() % 256) as u8 }
    else if 0x18 <= k < 0x100 {
        let i = (k - 0x18) / 8;
        let j = (k - 0x18) % 8;
        if i < secs.len() && j < 4 && 0x18 + i * 8 + 4 <= 0x100 {
            if j == 0 { tr.number } else if j == 1 { tr.side } else if j == 2 { secs[i].id } else { size_code(secs[i].size as int) }
        } else {
            0
        }
    }
    else if k >= 0x100 { data_byte(secs, k - 0x100) }
    else { 0 }
}

/// Byte `k` of the block for track `t`, side `s`: that of the first track
/// with that number and side, or an empty block with just its signature.
pub open spec fn track_block_byte(img: DskImage, t: int, s: int, k: int) -> u8 {
    match find_track(img.tracks@, t, s) {
        Some(i) => block_byte(img.tracks@[i], k),
        None => if 0 <= k < 12 { track_signature()[k] } else { 0 },
    }
}

/// Byte `k` of the disc header: signature, track count, side count and
/// block size (16 bits, little-endian).
pub open spec fn disc_header_byte(img: DskImage, k: int) -> u8 {
    if 0 <= k < 8 { disc_signature()[k] }
    else if k == 0x30 { track_count(img) as u8 }
    else if k == 0x31 { side_count(img) as u8 }
    else if k == 0x32 { (block_size(img) % 256) as u8 }
    else if k == 0x33 { ((block_size(img) / 256) % 256) as u8 }
    else { 0 }
}

/// Byte `k` of the whole file: the disc header, then the blocks track by
/// track, each track side by side.
pub open spec fn dsk_byte(img: DskImage, k: int) -> u8 {
    if k < 0x100 {
        disc_header_byte(img, k)
    } else {
        let b = (k - 0x100) / block_size(img);
        let off = (k - 0x100) % block_size(img);
        track_block_byte(img, b / side_count(img), b % side_count(img), off)
    }
}

/// Length of the file of `img`.
pub open spec fn dsk_len(img: DskImage) -> int {
    0x100 + track_count(img) * side_count(img) * block_size(img)
}

/// What writing `img` asks of it: track and side numbers that leave room
/// for one more, sectors holding at least their size of data, and a file
/// that fits in memory.
pub open spec fn writable(img: DskImage) -> bool {
    &&& forall|i: int| 0 <= i < img.tracks@.len() ==> #[trigger] img.tracks@[i].number < 255 && img.tracks@[i].side < 255
    &&& forall|i: int, j: int| 0 <= i < img.tracks@.len() && 0 <= j < img.tracks@[i].sectors@.len()
        ==> #[trigger] img.tracks@[i].sectors@[j].data@.len() >= img.tracks@[i].sectors@[j].size
    &&& dsk_len(img) <= usize::MAX
}

/// The largest value is one of the values, and no value exceeds it.
proof fn lemma_max_over(tracks: Seq<Track>, f: spec_fn(Track) -> int, none: int)
    ensures
        tracks.len() == 0 ==> max_over(tracks, f, none) == none,
        forall|i: int| 0 <= i < tracks.len() ==> f(#[trigger] tracks[i]) <= max_over(tracks, f, none),
        tracks.len() > 0 ==> exists|i: int| 0 <= i < tracks.len() && f(tracks[i]) == max_over(tracks, f, none),
    decreases tracks.len(),
{
    if tracks.len() > 0 {
        let rest = tracks.drop_last();
        lemma_max_over(rest, f, none);
        assert forall|i: int| 0 <= i < tracks.len() implies f(#[trigger] tracks[i]) <= max_over(tracks, f, none) by {
            if i < rest.len() {
                assert(rest[i] == tracks[i]);
            }
        }
        if tracks.len() > 1 && f(tracks.last()) <= max_over(rest, f, none) {
            let j = choose|j: int| 0 <= j < rest.len() && f(rest[j]) == max_over(rest, f, none);
            assert(tracks[j] == rest[j]);
        } else {
            assert(f(tracks[tracks.len() - 1]) == max_over(tracks, f, none));
        }
    }
}

/// A prefix of the sectors holds no more than all of them.
proof fn lemma_payload_prefix(secs: Seq<Sector>, k: int)
    requires
        0 <= k <= secs.len(),
    ensures
        0 <= payload(secs.take(k)) <= payload(secs),
    decreases secs.len(),
{
    if k < secs.len() {
        lemma_payload_prefix(secs.drop_last(), k);
        assert(secs.drop_last().take(k) =~= secs.take(k));
    } else {
        assert(secs.take(k) =~= secs);
        if secs.len() > 0 {
            lemma_payload_prefix(secs.drop_last(), secs.len() - 1);
            assert(secs.drop_last().take(secs.len() - 1) =~= secs.drop_last());
        }
    }
}

/// Largest of `number + 1` (`sides` false) or `side + 1` (`sides` true)
/// over the tracks; `none` for no track.
fn count_of(tracks: &Vec<Track>, sides: bool, none: usize) -> (n: usize)
    requires
        forall|i: int| 0 <= i < tracks@.len() ==> #[trigger] tracks@[i].number < 255 && tracks@[i].side < 255,
        none <= 255,
    ensures
        n == max_over(tracks@, if sides { |t: Track| t.side as int + 1 } else { |t: Track| t.number as int + 1 }, none as int),
        n <= 255,
{
    let ghost f = if sides { |t: Track| t.side as int + 1 } else { |t: Track| t.number as int + 1 };
    let mut m: usize = none;
    let mut i: usize = 0;
    while i < tracks.len()
        invariant
            i <= tracks@.len(),
            none <= 255,
            forall|k: int| 0 <= k < tracks@.len() ==> #[trigger] tracks@[k].number < 255 && tracks@[k].side < 255,
            f == (if sides { |t: Track| t.side as int + 1 } else { |t: Track| t.number as int + 1 }),
            m == max_over(tracks@.take(i as int), f, none as int),
            m <= 255,
        decreases tracks@.len() - i,
    {
        assert(tracks@[i as int].number < 255 && tracks@[i as int].side < 255);
        let x: usize = if sides { tracks[i].side as usize + 1 } else { tracks[i].number as usize + 1 };
        proof {
            assert(tracks@.take(i + 1).drop_last() =~= tracks@.take(i as int));
            assert(tracks@.take(i + 1).last() == tracks@[i as int]);
            assert(f(tracks@[i as int]) == x);
        }
        if i == 0 || x > m {
            m = x;
        }
        i += 1;
    }
    proof {
        assert(tracks@.take(i as int) =~= tracks@);
    }
    m
}

/// Sum of the sizes of `secs`, known to fit.
fn payload_of(secs: &Vec<Sector>, bound: usize) -> (n: usize)
    requires
        payload(secs@) <= bound,
    ensures
        n == payload(secs@),
{
    let mut n: usize = 0;
    let mut i: usize = 0;
    while i < secs.len()
        invariant
            i <= secs@.len(),
            payload(secs@) <= bound,
            n == payload(secs@.take(i as int)),
        decreases secs@.len() - i,
    {
        proof {
            assert(secs@.take(i + 1).drop_last() =~= secs@.take(i as int));
            lemma_payload_prefix(secs@, i + 1);
        }
        n = n + secs[i].size;
        i += 1;
    }
    proof {
        assert(secs@.take(i as int) =~= secs@);
    }
    n
}

/// Size of the track blocks of `img` (see `block_size`).
fn block_size_of(img: &DskImage) -> (n: usize)
    requires
        writable(*img),
    ensures
        n == block_size(*img),
        n >= 0x100,
{
    let ghost f = |t: Track| payload(t.sectors@);
    proof {
        lemma_max_over(img.tracks@, f, 0);
        lemma_max_over(img.tracks@, |t: Track| t.number as int + 1, 0);
        lemma_max_over(img.tracks@, |t: Track| t.side as int + 1, 1);
        if img.tracks@.len() > 0 {
            let tc = track_count(*img);
            let sc = side_count(*img);
            assert(tc >= 1 && sc >= 1) by {
                assert((|t: Track| t.number as int + 1)(img.tracks@[0]) >= 1);
                assert((|t: Track| t.side as int + 1)(img.tracks@[0]) >= 1);
            }
            lemma_payload_prefix(img.tracks@[0].sectors@, 0);
            assert(f(img.tracks@[0]) >= 0);
            let bs = block_size(*img);
            assert(tc * sc * bs >= bs) by (nonlinear_arith)
                requires tc >= 1, sc >= 1, bs >= 0;
        }
    }
    let mut m: usize = 0;
    let mut i: usize = 0;
    while i < img.tracks.len()
        invariant
            i <= img.tracks@.len(),
            f == |t: Track| payload(t.sectors@),
            forall|k: int| 0 <= k < img.tracks@.len() ==> f(#[trigger] img.tracks@[k]) <= max_over(img.tracks@, f, 0),
            img.tracks@.len() > 0 ==> 0x100 + max_over(img.tracks@, f, 0) <= usize::MAX,
            m == max_over(img.tracks@.take(i as int), f, 0),
        decreases img.tracks@.len() - i,
    {
        proof {
            assert(img.tracks@.take(i + 1).drop_last() =~= img.tracks@.take(i as int));
            assert(img.tracks@.take(i + 1).last() == img.tracks@[i as int]);
            assert(f(img.tracks@[i as int]) <= max_over(img.tracks@, f, 0));
        }
        let x = payload_of(&img.tracks[i].sectors, usize::MAX - 0x100);
        if i == 0 || x > m {
            m = x;
        }
        i += 1;
    }
    proof {
        assert(img.tracks@.take(i as int) =~= img.tracks@);
    }
    0x100 + m
}

/// Sum of the sizes of `secs`, or none when it does not fit in a `usize`.
fn checked_payload(secs: &Vec<Sector>) -> (r: Option<usize>)
    ensures
        r matches Some(n) ==> n == payload(secs@),
        r is None ==> payload(secs@) > usize::MAX,
{
    let mut n: usize = 0;
    let mut i: usize = 0;
    while i < secs.len()
        invariant
            i <= secs@.len(),
            n == payload(secs@.take(i as int)),
        decreases secs@.len() - i,
    {
        proof {
            assert(secs@.take(i + 1).drop_last() =~= secs@.take(i as int));
        }
        match n.checked_add(secs[i].size) {
            Some(m) => n = m,
            None => {
                proof {
                    lemma_payload_prefix(secs@, i + 1);
                }
                return None;
            },
        }
        i += 1;
    }
    proof {
        assert(secs@.take(i as int) =~= secs@);
    }
    Some(n)
}

/// Whether `img` can be written out (see `writable`).
pub fn is_writable(img: &DskImage) -> (b: bool)
    ensures
        b == writable(*img),
{
    let mut i: usize = 0;
    while i < img.tracks.len()
        invariant
            i <= img.tracks@.len(),
            forall|k: int| 0 <= k < i ==> #[trigger] img.tracks@[k].number < 255 && img.tracks@[k].side < 255,
            forall|k: int, j: int| 0 <= k < i && 0 <= j < img.tracks@[k].sectors@.len()
                ==> #[trigger] img.tracks@[k].sectors@[j].data@.len() >= img.tracks@[k].sectors@[j].size,
        decreases img.tracks@.len() - i,
    {
        let t = &img.tracks[i];
        if t.number >= 255 || t.side >= 255 {
            return false;
        }
        let mut j: usize = 0;
        while j < t.sectors.len()
            invariant
                j <= t.sectors@.len(),
                i < img.tracks@.len(),
                *t == img.tracks@[i as int],
                forall|m: int| 0 <= m < j ==> #[trigger] t.sectors@[m].data@.len() >= t.sectors@[m].size,
            decreases t.sectors@.len() - j,
        {
            if t.sectors[j].data.len() < t.sectors[j].size {
                assert(!(img.tracks@[i as int].sectors@[j as int].data@.len() >= img.tracks@[i as int].sectors@[j as int].size));
                return false;
            }
            j += 1;
        }
        i += 1;
    }
    let tc = count_of(&img.tracks, false, 0);
    let sc = count_of(&img.tracks, true, 1);
    let ghost f = |t: Track| payload(t.sectors@);
    proof {
        lemma_max_over(img.tracks@, f, 0);
        lemma_max_over(img.tracks@, |t: Track| t.number as int + 1, 0);
        lemma_max_over(img.tracks@, |t: Track| t.side as int + 1, 1);
        if img.tracks@.len() > 0 {
            assert((|t: Track| t.number as int + 1)(img.tracks@[0]) >= 1);
            assert((|t: Track| t.side as int + 1)(img.tracks@[0]) >= 1);
        }
    }
    let mut m: usize = 0;
    let mut k: usize = 0;
    while k < img.tracks.len()
        invariant
            k <= img.tracks@.len(),
            f == |t: Track| payload(t.sectors@),
            forall|q: int| 0 <= q < img.tracks@.len() ==> f(#[trigger] img.tracks@[q]) <= max_over(img.tracks@, f, 0),
            img.tracks@.len() > 0 ==> tc >= 1 && sc >= 1,
            tc == track_count(*img),
            sc == side_count(*img),
            tc <= 255,
            sc <= 255,
            m == max_over(img.tracks@.take(k as int), f, 0),
        decreases img.tracks@.len() - k,
    {
        proof {
            assert(img.tracks@.take(k + 1).drop_last() =~= img.tracks@.take(k as int));
            assert(img.tracks@.take(k + 1).last() == img.tracks@[k as int]);
        }
        match checked_payload(&img.tracks[k].sectors) {
            Some(x) => {
                if k == 0 || x > m {
                    m = x;
                }
            },
            None => {
                proof {
                    let bs = block_size(*img);
                    assert(f(img.tracks@[k as int]) <= max_over(img.tracks@, f, 0));
                    assert(bs > usize::MAX);
                    assert(tc * sc * bs >= bs) by (nonlinear_arith)
                        requires tc >= 1, sc >= 1, bs >= 0;
                }
                return false;
            },
        }
        k += 1;
    }
    proof {
        assert(img.tracks@.take(k as int) =~= img.tracks@);
    }
    let bs: u128 = 0x100 + m as u128;
    let tc2: u128 = tc as u128;
    let sc2: u128 = sc as u128;
    assert(tc2 * sc2 <= 255 * 255) by (nonlinear_arith)
        requires tc2 <= 255, sc2 <= 255;
    let tcs: u128 = tc2 * sc2;
    assert(tcs * bs <= 255 * 255 * (0x100 + 0xFFFF_FFFF_FFFF_FFFFu128)) by (nonlinear_arith)
        requires tcs <= 255 * 255, bs <= 0x100 + 0xFFFF_FFFF_FFFF_FFFFu128, bs >= 0;
    let total: u128 = 0x100 + tcs * bs;
    total <= usize::MAX as u128
}

/// Number of trailing zero bits of `x` (not 0).
fn trailing_zeros_of(x: usize) -> (n: usize)
    requires
        x > 0,
    ensures
        n as nat == trailing_zeros(x as nat),
{
    let mut v = x;
    let mut n: usize = 0;
    assert(pow2_nat(0) == 1);
    while v % 2 == 0
        invariant
            v > 0,
            n as nat + trailing_zeros(v as nat) == trailing_zeros(x as nat),
            v as nat * pow2_nat(n as nat) == x as nat,
            n < x,
        decreases v,
    {
        proof {
            assert(v as nat * pow2_nat(n as nat) == (v / 2) as nat * pow2_nat(n as nat + 1)) by (nonlinear_arith)
                requires v % 2 == 0, pow2_nat(n as nat + 1) == 2 * pow2_nat(n as nat);
            lemma_pow2_above(n as nat + 1);
            assert((v / 2) as nat * pow2_nat(n as nat + 1) >= pow2_nat(n as nat + 1)) by (nonlinear_arith)
                requires v / 2 >= 1;
        }
        v = v / 2;
        n = n + 1;
    }
    n
}

/// 2 to the power `n` exceeds `n`.
proof fn lemma_pow2_above(n: nat)
    ensures
        pow2_nat(n) > n,
    decreases n,
{
    if n > 0 {
        lemma_pow2_above((n - 1) as nat);
    }
}

/// 2 to the power `n`.
pub open spec fn pow2_nat(n: nat) -> nat
    decreases n,
{
    if n == 0 { 1 } else { 2 * pow2_nat((n - 1) as nat) }
}

/// Index of the first track numbered `t` on side `s` (see `find_track`).
fn find_track_of(tracks: &Vec<Track>, t: usize, s: usize) -> (r: Option<usize>)
    ensures
        r matches Some(i) ==> find_track(tracks@, t as int, s as int) == Some(i as int) && i < tracks@.len(),
        r is None ==> find_track(tracks@, t as int, s as int) is None,
{
    let mut i: usize = 0;
    while i < tracks.len()
        invariant
            i <= tracks@.len(),
            forall|k: int| 0 <= k < i ==> !(tracks@[k].number == t && tracks@[k].side == s),
        decreases tracks@.len() - i,
    {
        if tracks[i].number as usize == t && tracks[i].side as usize == s {
            proof {
                lemma_find_track_first(tracks@, t as int, s as int, i as int);
            }
            return Some(i);
        }
        i += 1;
    }
    proof {
        lemma_find_track_none(tracks@, t as int, s as int);
    }
    None
}

/// The first match is found.
proof fn lemma_find_track_first(tracks: Seq<Track>, t: int, s: int, i: int)
    requires
        0 <= i < tracks.len(),
        tracks[i].number == t && tracks[i].side == s,
        forall|k: int| 0 <= k < i ==> !(tracks[k].number == t && tracks[k].side == s),
    ensures
        find_track(tracks, t, s) == Some(i),
    decreases i,
{
    if i > 0 {
        lemma_find_track_first(tracks.drop_first(), t, s, i - 1);
    }
}

/// No match, nothing found.
proof fn lemma_find_track_none(tracks: Seq<Track>, t: int, s: int)
    requires
        forall|k: int| 0 <= k < tracks.len() ==> !(tracks[k].number == t && tracks[k].side == s),
    ensures
        find_track(tracks, t, s) is None,
    decreases tracks.len(),
{
    if tracks.len() > 0 {
        lemma_find_track_none(tracks.drop_first(), t, s);
    }
}

/// Byte `k` of the sector data area of `secs` (see `data_byte`).
fn data_byte_of(secs: &Vec<Sector>, k: usize) -> (b: u8)
    requires
        forall|j: int| 0 <= j < secs@.len() ==> #[trigger] secs@[j].data@.len() >= secs@[j].size,
    ensures
        b == data_byte(secs@, k as int),
{
    let mut rem = k;
    let mut i: usize = 0;
    assert(secs@.skip(0) =~= secs@);
    while i < secs.len()
        invariant
            i <= secs@.len(),
            forall|j: int| 0 <= j < secs@.len() ==> #[trigger] secs@[j].data@.len() >= secs@[j].size,
            data_byte(secs@, k as int) == data_byte(secs@.skip(i as int), rem as int),
        decreases secs@.len() - i,
    {
        proof {
            assert(secs@.skip(i as int)[0] == secs@[i as int]);
            assert(secs@.skip(i as int).drop_first() =~= secs@.skip(i + 1));
        }
        if rem < secs[i].size {
            return secs[i].data[rem];
        }
        rem = rem - secs[i].size;
        i += 1;
    }
    proof {
        assert(secs@.skip(i as int).len() == 0);
    }
    0
}

/// Byte `k` of the block of `tr` (see `block_byte`).
fn block_byte_of(tr: &Track, k: usize) -> (b: u8)
    requires
        forall|j: int| 0 <= j < tr.sectors@.len() ==> #[trigger] tr.sectors@[j].data@.len() >= tr.sectors@[j].size,
    ensures
        b == block_byte(*tr, k as int),
{
    let secs = &tr.sectors;
    if k < 12 {
        let sig: [u8; 12] = [0x54, 0x72, 0x61, 0x63, 0x6B, 0x2D, 0x49, 0x6E, 0x66, 0x6F, 0x0D, 0x0A];
        assert(sig@ =~= track_signature());
        sig[k]
    } else if k == 0x10 {
        tr.number
    } else if k == 0x11 {
        tr.side
    } else if k == 0x14 {
        tr.sector_size
    } else if k == 0x15 {
        (secs.len() % 256) as u8
    } else if 0x18 <= k && k < 0x100 {
        let i = (k - 0x18) / 8;
        let j = (k - 0x18) % 8;
        if i < secs.len() && j < 4 && 0x18 + i * 8 + 4 <= 0x100 {
            if j == 0 {
                tr.number
            } else if j == 1 {
                tr.side
            } else if j == 2 {
                secs[i].id
            } else {
                let size = secs[i].size;
                let q = (if size < 128 { 128 } else { size }) / 128;
                trailing_zeros_of(q) as u8
            }
        } else {
            0
        }
    } else if k >= 0x100 {
        data_byte_of(secs, k - 0x100)
    } else {
        0
    }
}

/// The `.dsk` file of `img`, in the standard format: the disc header
/// (signature, track and side counts, block size), then for each track
/// number and each side the block of the first track with that number and
/// side (an empty block when none), all blocks as large as the largest
/// track.
pub fn dsk_file_bytes(img: &DskImage) -> (v: Vec<u8>)
    requires
        writable(*img),
    ensures
        v@.len() == dsk_len(*img),
        forall|k: int| 0 <= k < v@.len() ==> #[trigger] v@[k] == dsk_byte(*img, k),
{
    let nt = count_of(&img.tracks, false, 0);
    let ns = count_of(&img.tracks, true, 1);
    let bs = block_size_of(img);
    proof {
        lemma_max_over(img.tracks@, |t: Track| t.side as int + 1, 1);
        assert(ns >= 1) by {
            if img.tracks@.len() > 0 {
                assert((|t: Track| t.side as int + 1)(img.tracks@[0]) >= 1);
            }
        }
        assert(nt * ns * bs >= 0) by (nonlinear_arith) requires nt >= 0, ns >= 0, bs >= 0;
        assert(nt * ns <= nt * ns * bs) by (nonlinear_arith) requires bs >= 1, nt >= 0, ns >= 0;
    }
    let total: usize = 0x100 + nt * ns * bs;
    let mut v: Vec<u8> = Vec::new();
    let mut k: usize = 0;
    while k < total
        invariant
            k <= total,
            total == dsk_len(*img),
            nt == track_count(*img),
            ns == side_count(*img),
            bs == block_size(*img),
            ns >= 1,
            bs >= 0x100,
            writable(*img),
            v@.len() == k,
            forall|j: int| 0 <= j < k ==> #[trigger] v@[j] == dsk_byte(*img, j),
        decreases total - k,
    {
        let b: u8 = if k < 0x100 {
            disc_header_byte_of(img, k, nt, ns, bs)
        } else {
            let block = (k - 0x100) / bs;
            let off = (k - 0x100) % bs;
            let t = block / ns;
            let s = block % ns;
            let found = find_track_of(&img.tracks, t, s);
            match found {
                Some(i) => {
                    proof {
                        assert(forall|j: int| 0 <= j < img.tracks@[i as int].sectors@.len()
                            ==> #[trigger] img.tracks@[i as int].sectors@[j].data@.len() >= img.tracks@[i as int].sectors@[j].size);
                    }
                    block_byte_of(&img.tracks[i], off)
                },
                None => {
                    if off < 12 {
                        let sig: [u8; 12] = [0x54, 0x72, 0x61, 0x63, 0x6B, 0x2D, 0x49, 0x6E, 0x66, 0x6F, 0x0D, 0x0A];
                        assert(sig@ =~= track_signature());
                        sig[off]
                    } else {
                        0
                    }
                },
            }
        };
        v.push(b);
        k += 1;
    }
    v
}

/// Byte `k` of the disc header (see `disc_header_byte`).
fn disc_header_byte_of(img: &DskImage, k: usize, nt: usize, ns: usize, bs: usize) -> (b: u8)
    requires
        k < 0x100,
        nt == track_count(*img),
        ns == side_count(*img),
        bs == block_size(*img),
    ensures
        b == disc_header_byte(*img, k as int),
{
    if k < 8 {
        let sig: [u8; 8] = [0x4D, 0x56, 0x20, 0x2D, 0x20, 0x43, 0x50, 0x43];
        assert(sig@ =~= disc_signature());
        sig[k]
    } else if k == 0x30 {
        nt as u8
    } else if k == 0x31 {
        ns as u8
    } else if k == 0x32 {
        (bs % 256) as u8
    } else if k == 0x33 {
        ((bs / 256) % 256) as u8
    } else {
        0
    }
}


/// A sector the standard format keeps whole: a size of 128 << N bytes
/// (N at most 6), exactly that much data, and not deleted (the standard
/// format has no room for the mark).
pub open spec fn plain_sector(s: Sector) -> bool {
    &&& (s.size == 128 || s.size == 256 || s.size == 512 || s.size == 1024 || s.size == 2048
        || s.size == 4096 || s.size == 8192)
    &&& s.data@.len() == s.size
    &&& !s.deleted
}

/// A track whose sectors all fit the standard format's header (at most
/// 29) and are kept whole.
pub open spec fn plain_track(t: Track) -> bool {
    &&& t.sectors@.len() <= 29
    &&& forall|j: int| 0 <= j < t.sectors@.len() ==> plain_sector(#[trigger] t.sectors@[j])
}

/// The same sector, by value.
pub open spec fn same_sector(a: Sector, b: Sector) -> bool {
    a.id == b.id && a.size == b.size && a.data@ == b.data@ && a.deleted == b.deleted
}

/// The same track, by value.
pub open spec fn same_track(a: Track, b: Track) -> bool {
    &&& a.number == b.number
    &&& a.side == b.side
    &&& a.sector_size == b.sector_size
    &&& a.sectors@.len() == b.sectors@.len()
    &&& forall|j: int| 0 <= j < a.sectors@.len() ==> same_sector(#[trigger] a.sectors@[j], b.sectors@[j])
}

/// The sizes of `secs` add up with the first one apart.
proof fn lemma_payload_first(secs: Seq<Sector>)
    requires
        secs.len() > 0,
    ensures
        payload(secs) == secs[0].size + payload(secs.drop_first()),
    decreases secs.len(),
{
    assert(payload(secs) == payload(secs.drop_last()) + secs.last().size);
    if secs.len() > 1 {
        lemma_payload_first(secs.drop_last());
        assert(secs.drop_last().drop_first() =~= secs.drop_first().drop_last());
        assert(secs.drop_last()[0] == secs[0]);
        assert(secs.drop_first().last() == secs.last());
        assert(payload(secs.drop_first()) == payload(secs.drop_first().drop_last()) + secs.drop_first().last().size);
    } else {
        assert(secs.drop_last().len() == 0);
        assert(secs.drop_first().len() == 0);
        assert(payload(secs.drop_last()) == 0);
        assert(payload(secs.drop_first()) == 0);
    }
}

/// Byte `m` of sector `i` stands in the data area after the sizes of the
/// sectors before it.
proof fn lemma_data_byte_at(secs: Seq<Sector>, i: int, m: int)
    requires
        0 <= i < secs.len(),
        0 <= m < secs[i].size,
    ensures
        data_byte(secs, payload(secs.take(i)) + m) == secs[i].data@[m],
    decreases i,
{
    if i == 0 {
        assert(secs.take(0).len() == 0);
    } else {
        let rest = secs.drop_first();
        lemma_data_byte_at(rest, i - 1, m);
        lemma_payload_first(secs.take(i));
        assert(secs.take(i).drop_first() =~= rest.take(i - 1));
        assert(secs.take(i)[0] == secs[0]);
        lemma_payload_prefix(rest, i - 1);
        assert(rest[i - 1] == secs[i]);
    }
}

/// The size code written for a plain sector reads back as its size.
proof fn lemma_plain_size_code(size: int)
    requires
        size == 128 || size == 256 || size == 512 || size == 1024 || size == 2048 || size == 4096 || size == 8192,
    ensures
        size_code(size) <= 6,
        size_of_code(size_code(size) as int) == size,
{
    reveal_with_fuel(trailing_zeros, 8);
    reveal_with_fuel(size_of_code, 8);
    assert(trailing_zeros(1) == 0);
    assert(trailing_zeros(2) == 1);
    assert(trailing_zeros(4) == 2);
    assert(trailing_zeros(8) == 3);
    assert(trailing_zeros(16) == 4);
    assert(trailing_zeros(32) == 5);
    assert(trailing_zeros(64) == 6);
}

/// The sector entries of a written track block read back as its sectors,
/// from entry `idx` on.
proof fn lemma_sectors_read_back(tr: Track, secs2: Seq<Sector>, data: Seq<u8>, h: int, idx: int)
    requires
        plain_track(tr),
        0 <= h,
        h + 0x100 + payload(tr.sectors@) <= data.len(),
        forall|j: int| 0 <= j < 0x100 + payload(tr.sectors@) ==> data[h + j] == #[trigger] block_byte(tr, j),
        0 <= idx <= tr.sectors@.len(),
        sectors_match(secs2, data, h, idx, h + 0x100 + payload(tr.sectors@.take(idx)), false),
    ensures
        secs2.len() == tr.sectors@.len() - idx,
        forall|j: int| 0 <= j < secs2.len() ==> same_sector(#[trigger] secs2[j], tr.sectors@[idx + j]),
    decreases tr.sectors@.len() - idx,
{
    let secs = tr.sectors@;
    let n = secs.len() as int;
    lemma_payload_prefix(secs, 0);
    assert(data[h + 0x15] == block_byte(tr, 0x15));
    assert(byte_at(data, h + 0x15) == n);
    assert(header_sector_count(data, h) == n);
    lemma_payload_prefix(secs, idx);
    if idx < n {
        let off = h + 0x100 + payload(secs.take(idx));
        let e = 0x18 + idx * 8;
        assert(e + 6 <= 0x100);
        assert((e + 2 - 0x18) / 8 == idx && (e + 2 - 0x18) % 8 == 2);
        assert((e + 3 - 0x18) / 8 == idx && (e + 3 - 0x18) % 8 == 3);
        assert((e + 5 - 0x18) / 8 == idx && (e + 5 - 0x18) % 8 == 5);
        assert(data[h + e + 2] == block_byte(tr, e + 2));
        assert(data[h + e + 3] == block_byte(tr, e + 3));
        assert(data[h + e + 5] == block_byte(tr, e + 5));
        assert(plain_sector(secs[idx]));
        lemma_plain_size_code(secs[idx].size as int);
        assert(info_size_code(data, h, idx) == size_code(secs[idx].size as int) as int);
        let size = secs[idx].size as int;
        assert(info_actual_size(data, h, idx, false) == size);
        assert(secs.take(idx + 1).drop_last() =~= secs.take(idx));
        assert(payload(secs.take(idx + 1)) == payload(secs.take(idx)) + size);
        lemma_payload_prefix(secs, idx + 1);
        assert(off + size <= data.len());
        assert(secs2.len() > 0);
        assert(sector_matches(secs2[0], data, h, idx, off, false));
        assert forall|m: int| 0 <= m < size implies #[trigger] data.subrange(off, off + size)[m] == secs[idx].data@[m] by {
            lemma_data_byte_at(secs, idx, m);
            let j = 0x100 + payload(secs.take(idx)) + m;
            assert(data[h + j] == block_byte(tr, j));
        }
        assert(data.subrange(off, off + size) =~= secs[idx].data@);
        assert(block_byte(tr, e + 5) == 0);
        assert(byte_at(data, h + e + 5) == 0);
        assert((0u8 & 0x40u8) == 0) by (bit_vector);
        assert(!secs2[0].deleted);
        assert(block_byte(tr, e + 2) == secs[idx].id);
        assert(secs2[0].id == secs[idx].id);
        assert(same_sector(secs2[0], secs[idx]));
        lemma_sectors_read_back(tr, secs2.drop_first(), data, h, idx + 1);
        assert forall|j: int| 0 <= j < secs2.len() implies same_sector(#[trigger] secs2[j], secs[idx + j]) by {
            if j > 0 {
                assert(secs2.drop_first()[j - 1] == secs2[j]);
            }
        }
    }
}


/// A written track block reads back as its track.
proof fn lemma_block_reads_back(tr: Track, t2: Track, data: Seq<u8>, h: int)
    requires
        plain_track(tr),
        0 <= h,
        h + 0x100 + payload(tr.sectors@) <= data.len(),
        forall|j: int| 0 <= j < 0x100 + payload(tr.sectors@) ==> data[h + j] == #[trigger] block_byte(tr, j),
        track_matches(t2, data, h, false),
    ensures
        same_track(t2, tr),
{
    lemma_payload_prefix(tr.sectors@, 0);
    assert(data[h + 0x10] == block_byte(tr, 0x10));
    assert(data[h + 0x11] == block_byte(tr, 0x11));
    assert(data[h + 0x14] == block_byte(tr, 0x14));
    assert(tr.sectors@.take(0).len() == 0);
    assert(payload(tr.sectors@.take(0)) == 0);
    lemma_sectors_read_back(tr, t2.sectors@, data, h, 0);
}

/// Track `k` of `img` is the one numbered `k / sides`, on side `k % sides`.
pub open spec fn in_place(img: DskImage, k: int) -> bool {
    img.tracks@[k].number as int == k / side_count(img) && img.tracks@[k].side as int == k % side_count(img)
}

/// An image the standard format keeps whole: writable, its tracks listed
/// track by track and side by side with none missing or repeated, each
/// track plain, and a block size that fits the header's 16 bits.
pub open spec fn plain_image(img: DskImage) -> bool {
    let sc = side_count(img);
    &&& writable(img)
    &&& img.tracks@.len() == track_count(img) * sc
    &&& forall|k: int| 0 <= k < img.tracks@.len() ==> #[trigger] in_place(img, k)
    &&& forall|k: int| 0 <= k < img.tracks@.len() ==> plain_track(#[trigger] img.tracks@[k])
    &&& block_size(img) <= 0xFFFF
}

/// The track blocks of a written image read back as its tracks, from
/// track `k` on.
proof fn lemma_tracks_read_back(img: DskImage, data: Seq<u8>, tr2: Seq<Track>, k: int)
    requires
        plain_image(img),
        data.len() == dsk_len(img),
        forall|i: int| 0 <= i < data.len() ==> data[i] == #[trigger] dsk_byte(img, i),
        0 <= k <= img.tracks@.len(),
        standard_tracks_match(tr2, data, img.tracks@.len() - k, 0x100 + k * block_size(img), block_size(img)),
    ensures
        tr2.len() == img.tracks@.len() - k,
        forall|j: int| 0 <= j < tr2.len() ==> same_track(#[trigger] tr2[j], img.tracks@[k + j]),
    decreases img.tracks@.len() - k,
{
    let tracks = img.tracks@;
    let n = tracks.len() as int;
    let bs = block_size(img);
    let sc = side_count(img);
    let tc = track_count(img);
    let f = |t: Track| payload(t.sectors@);
    lemma_max_over(tracks, f, 0);
    lemma_max_over(tracks, |t: Track| t.side as int + 1, 1);
    assert(sc >= 1);
    if n > 0 {
        lemma_payload_prefix(tracks[0].sectors@, 0);
        assert(f(tracks[0]) >= 0);
    }
    assert(bs >= 0x100);
    if k < n {
        let off = 0x100 + k * bs;
        assert(off + bs <= 0x100 + n * bs) by (nonlinear_arith)
            requires off == 0x100 + k * bs, k < n, bs >= 0;
        assert(n * bs == tc * sc * bs) by (nonlinear_arith)
            requires n == tc * sc;
        assert(off + 0x100 <= data.len());
        let tr = tracks[k];
        assert(f(tr) <= max_over(tracks, f, 0));
        lemma_payload_prefix(tr.sectors@, 0);
        let t = k / sc;
        let s = k % sc;
        assert(in_place(img, k));
        assert(tr.number as int == t && tr.side as int == s);
        assert forall|i: int| 0 <= i < k implies !(tracks[i].number == t && tracks[i].side == s) by {
            assert(in_place(img, i));
            vstd::arithmetic::div_mod::lemma_fundamental_div_mod(i, sc);
            vstd::arithmetic::div_mod::lemma_fundamental_div_mod(k, sc);
        }
        lemma_find_track_first(tracks, t, s, k);
        assert forall|j: int| 0 <= j < 0x100 + payload(tr.sectors@) implies data[off + j] == #[trigger] block_byte(tr, j) by {
            let i = off + j;
            assert(i - 0x100 == k * bs + j);
            vstd::arithmetic::div_mod::lemma_fundamental_div_mod_converse(i - 0x100, bs, k, j);
            assert(0 <= i < data.len());
            assert(data[i] == dsk_byte(img, i));
        }
        lemma_block_reads_back(tr, tr2[0], data, off);
        assert(off + bs == 0x100 + (k + 1) * bs) by (nonlinear_arith)
            requires off == 0x100 + k * bs;
        lemma_tracks_read_back(img, data, tr2.drop_first(), k + 1);
        assert forall|j: int| 0 <= j < tr2.len() implies same_track(#[trigger] tr2[j], tracks[k + j]) by {
            if j > 0 {
                assert(tr2.drop_first()[j - 1] == tr2[j]);
            }
        }
    }
}

/// A plain image written in the standard format reads back as itself:
/// the bytes `dsk_file_bytes` makes of it always decode (so
/// `DskImage::parse` succeeds on them), and what they decode to (`img2`)
/// has the same tracks with the same sectors.
pub proof fn lemma_written_image_reads_back(img: DskImage, data: Seq<u8>, img2: DskImage)
    requires
        plain_image(img),
        data.len() == dsk_len(img),
        forall|i: int| 0 <= i < data.len() ==> data[i] == #[trigger] dsk_byte(img, i),
    ensures
        dsk_parse_ok(data),
        dsk_parsed(img2, data) ==> {
            &&& img2.tracks@.len() == img.tracks@.len()
            &&& forall|k: int| 0 <= k < img.tracks@.len() ==> same_track(#[trigger] img2.tracks@[k], img.tracks@[k])
        },
{
    let tracks = img.tracks@;
    let n = tracks.len() as int;
    let bs = block_size(img);
    let sc = side_count(img);
    let tc = track_count(img);
    let f = |t: Track| payload(t.sectors@);
    lemma_max_over(tracks, f, 0);
    lemma_max_over(tracks, |t: Track| t.side as int + 1, 1);
    lemma_max_over(tracks, |t: Track| t.number as int + 1, 0);
    if n > 0 {
        lemma_payload_prefix(tracks[0].sectors@, 0);
        assert(f(tracks[0]) >= 0);
        let i = choose|i: int| 0 <= i < n && (|t: Track| t.side as int + 1)(tracks[i]) == sc;
        assert(tracks[i].side < 255);
        let i2 = choose|i: int| 0 <= i < n && (|t: Track| t.number as int + 1)(tracks[i]) == tc;
        assert(tracks[i2].number < 255);
    }
    assert(1 <= sc <= 255 && 0 <= tc <= 255);
    assert(0x100 <= bs <= 0xFFFF);
    assert(n * bs >= 0) by (nonlinear_arith)
        requires n >= 0, bs >= 0;
    assert(n * bs == tc * sc * bs) by (nonlinear_arith)
        requires n == tc * sc;
    assert(data.len() >= 0x100);
    assert forall|i: int| 0 <= i < 8 implies #[trigger] data.subrange(0, 8)[i] == standard_signature()[i] by {
        assert(data[i] == dsk_byte(img, i));
    }
    assert(data.subrange(0, 8) =~= standard_signature());
    assert(data[0x30] == dsk_byte(img, 0x30));
    assert(data[0x31] == dsk_byte(img, 0x31));
    assert(data[0x32] == dsk_byte(img, 0x32));
    assert(data[0x33] == dsk_byte(img, 0x33));
    assert(byte_at(data, 0x30) == tc);
    assert(byte_at(data, 0x31) == sc);
    assert(word_at(data, 0x32) == bs) by {
        assert(bs % 256 + 256 * ((bs / 256) % 256) == bs) by (nonlinear_arith)
            requires 0 <= bs <= 0xFFFF;
    }
    assert(starts_with_sig(data, standard_signature()));
    assert(n == tc * sc);
    assert(0x100 + 0 * bs == 0x100);
    if dsk_parsed(img2, data) {
        lemma_tracks_read_back(img, data, img2.tracks@, 0);
    }
}

/// The sizes of sectors all of `size` bytes add up to `size` times their
/// number.
proof fn lemma_payload_uniform(secs: Seq<Sector>, size: int)
    requires
        forall|j: int| 0 <= j < secs.len() ==> (#[trigger] secs[j]).size == size,
    ensures
        payload(secs) == size * secs.len(),
    decreases secs.len(),
{
    if secs.len() > 0 {
        let rest = secs.drop_last();
        assert forall|j: int| 0 <= j < rest.len() implies (#[trigger] rest[j]).size == size by {
            assert(rest[j] == secs[j]);
        }
        lemma_payload_uniform(rest, size);
        assert(size * secs.len() == size * rest.len() + size) by (nonlinear_arith)
            requires secs.len() == rest.len() + 1;
    }
}

/// The blank disc is a plain image: the standard format keeps it whole
/// (40 tracks of nine 512-byte sectors, one side, 4864-byte blocks).
pub proof fn lemma_blank_image_is_plain(img: DskImage)
    requires
        is_blank_image(img),
    ensures
        plain_image(img),
        track_count(img) == 40,
        side_count(img) == 1,
        block_size(img) == 0x100 + 9 * 512,
{
    let tracks = img.tracks@;
    let fn_ = |t: Track| t.number as int + 1;
    let fs = |t: Track| t.side as int + 1;
    let fp = |t: Track| payload(t.sectors@);
    assert forall|t: int| 0 <= t < 40 implies #[trigger] fp(tracks[t]) == 9 * 512 by {
        let tr = tracks[t];
        assert forall|j: int| 0 <= j < tr.sectors@.len() implies (#[trigger] tr.sectors@[j]).size == 512 by {}
        lemma_payload_uniform(tr.sectors@, 512);
    }
    lemma_max_over(tracks, fn_, 0);
    lemma_max_over(tracks, fs, 1);
    lemma_max_over(tracks, fp, 0);
    assert(fn_(tracks[39]) == 40);
    let i = choose|i: int| 0 <= i < tracks.len() && fn_(tracks[i]) == max_over(tracks, fn_, 0);
    assert(fn_(tracks[i]) <= 40);
    assert(track_count(img) == 40);
    let i2 = choose|i: int| 0 <= i < tracks.len() && fs(tracks[i]) == max_over(tracks, fs, 1);
    assert(fs(tracks[i2]) == 1);
    assert(side_count(img) == 1);
    let i3 = choose|i: int| 0 <= i < tracks.len() && fp(tracks[i]) == max_over(tracks, fp, 0);
    assert(fp(tracks[i3]) == 9 * 512);
    assert(block_size(img) == 0x100 + 9 * 512);
    assert forall|k: int| 0 <= k < tracks.len() implies #[trigger] in_place(img, k) by {
        assert(k / 1 == k && k % 1 == 0);
    }
    assert forall|k: int| 0 <= k < tracks.len() implies plain_track(#[trigger] tracks[k]) by {
        let tr = tracks[k];
        assert forall|j: int| 0 <= j < tr.sectors@.len() implies plain_sector(#[trigger] tr.sectors@[j]) by {}
    }
    assert(dsk_len(img) == 0x100 + 40 * 1 * (0x100 + 9 * 512));
}

/// The blank disc survives a round trip through a `.dsk` file: the bytes
/// `dsk_file_bytes` makes of it decode, into the same 40 tracks.
pub proof fn lemma_blank_disc_reads_back(img: DskImage, data: Seq<u8>, img2: DskImage)
    requires
        is_blank_image(img),
        data.len() == dsk_len(img),
        forall|i: int| 0 <= i < data.len() ==> data[i] == #[trigger] dsk_byte(img, i),
    ensures
        dsk_parse_ok(data),
        dsk_parsed(img2, data) ==> {
            &&& img2.tracks@.len() == 40
            &&& forall|k: int| 0 <= k < 40 ==> same_track(#[trigger] img2.tracks@[k], img.tracks@[k])
        },
{
    lemma_blank_image_is_plain(img);
    lemma_written_image_reads_back(img, data, img2);
}

} // verus!

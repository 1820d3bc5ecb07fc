//! The stored form of a fingerprint, and what a cache lookup makes of it.
//!
//! A cache entry is keyed by the source path; its value holds the capture
//! time and the hash. The layout is
//! `[VERSION, 0, hash]` for a file without a capture time and
//! `[VERSION, 1, year + YEAR_BIAS, month, day, hour, minute, second, hash]`
//! for one with it, each 32-bit number in four little-endian bytes.
//! Bytes that do not follow this layout are a stale entry.
use crate::capture::{CaptureTime, MAX_YEAR, MIN_YEAR};
use crate::image::ImageInfo;
use vstd::prelude::*;

verus! {

pub const RECORD_VERSION: u8 = 1;

/// Added to a year so that every year a capture time can hold is stored as
/// a natural number.
pub const YEAR_BIAS: i64 = 262143;

pub open spec fn le_bytes(x: u32) -> Seq<u8> {
    seq![x as u8, (x >> 8u32) as u8, (x >> 16u32) as u8, (x >> 24u32) as u8]
}

/// The 32-bit number stored little-endian at `b[i..i + 4]`.
pub open spec fn le_at(b: Seq<u8>, i: int) -> u32 {
    (b[i] as u32) | ((b[i + 1] as u32) << 8u32) | ((b[i + 2] as u32) << 16u32) | ((
    b[i + 3] as u32) << 24u32)
}

/// The stored bytes of a fingerprint with capture time `date` and hash `hash`.
pub open spec fn record_bytes(date: Option<CaptureTime>, hash: u32) -> Seq<u8> {
    match date {
        Some(t) => seq![RECORD_VERSION, 1u8] + le_bytes((t.year + YEAR_BIAS) as u32) + seq![
            t.month,
            t.day,
            t.hour,
            t.minute,
            t.second,
        ] + le_bytes(hash),
        None => seq![RECORD_VERSION, 0u8] + le_bytes(hash),
    }
}

/// The capture time stored in a dated record.
pub open spec fn stored_time(b: Seq<u8>) -> CaptureTime {
    CaptureTime {
        year: (le_at(b, 2) - YEAR_BIAS) as i32,
        month: b[6],
        day: b[7],
        hour: b[8],
        minute: b[9],
        second: b[10],
    }
}

/// The capture time and hash that stored bytes hold; `None` for bytes that
/// do not follow the layout.
pub open spec fn decoded_fields(b: Seq<u8>) -> Option<(Option<CaptureTime>, u32)> {
    if b.len() == 6 && b[0] == RECORD_VERSION && b[1] == 0 {
        Some((None, le_at(b, 2)))
    } else if b.len() == 15 && b[0] == RECORD_VERSION && b[1] == 1 && le_at(b, 2)
        <= MAX_YEAR + YEAR_BIAS && stored_time(b).wf() {
        Some((Some(stored_time(b)), le_at(b, 11)))
    } else {
        None
    }
}

proof fn lemma_le_round_trip(x: u32)
    ensures
        le_at(le_bytes(x), 0) == x,
{
    let b = le_bytes(x);
    assert(b[0] == x as u8 && b[1] == (x >> 8u32) as u8 && b[2] == (x >> 16u32) as u8 && b[3]
        == (x >> 24u32) as u8);
    assert(((x as u8) as u32) | ((((x >> 8u32) as u8) as u32) << 8u32) | ((((x >> 16u32) as u8)
        as u32) << 16u32) | ((((x >> 24u32) as u8) as u32) << 24u32) == x) by (bit_vector);
}

proof fn lemma_le_at_shift(a: Seq<u8>, b: Seq<u8>, x: u32)
    requires
        b == le_bytes(x),
    ensures
        le_at(a + b, a.len() as int) == x,
{
    lemma_le_round_trip(x);
    let s = a + b;
    assert(s[a.len() as int] == b[0]);
    assert(s[a.len() + 1 as int] == b[1]);
    assert(s[a.len() + 2 as int] == b[2]);
    assert(s[a.len() + 3 as int] == b[3]);
}

/// Stored bytes read back give the capture time and hash they were written from.
pub proof fn lemma_record_round_trip(date: Option<CaptureTime>, hash: u32)
    requires
        date matches Some(t) ==> t.wf(),
    ensures
        decoded_fields(record_bytes(date, hash)) == Some((date, hash)),
{
    let b = record_bytes(date, hash);
    match date {
        Some(t) => {
            let y = (t.year + YEAR_BIAS) as u32;
            let head = seq![RECORD_VERSION, 1u8];
            let mid = seq![t.month, t.day, t.hour, t.minute, t.second];
            lemma_le_at_shift(head, le_bytes(y), y);
            lemma_le_at_shift(head + le_bytes(y) + mid, le_bytes(hash), hash);
            assert(b =~= head + le_bytes(y) + mid + le_bytes(hash));
            let pre = head + le_bytes(y);
            assert(le_at(b, 2) == le_at(pre, 2)) by {
                assert(b[2] == pre[2] && b[3] == pre[3] && b[4] == pre[4] && b[5] == pre[5]);
            }
            assert(b[6] == t.month && b[7] == t.day && b[8] == t.hour && b[9] == t.minute && b[10]
                == t.second);
            assert(stored_time(b) == t);
        },
        None => {
            lemma_le_at_shift(seq![RECORD_VERSION, 0u8], le_bytes(hash), hash);
        },
    }
}

fn push_le(out: &mut Vec<u8>, x: u32)
    ensures
        final(out)@ == old(out)@ + le_bytes(x),
{
    out.push(x as u8);
    out.push((x >> 8) as u8);
    out.push((x >> 16) as u8);
    out.push((x >> 24) as u8);
    assert(final(out)@ =~= old(out)@ + le_bytes(x));
}

fn read_le(data: &[u8], i: usize) -> (r: u32)
    requires
        i + 4 <= data@.len(),
    ensures
        r == le_at(data@, i as int),
{
    (data[i] as u32) | ((data[i + 1] as u32) << 8) | ((data[i + 2] as u32) << 16) | ((data[i
        + 3] as u32) << 24)
}

/// The bytes stored in the cache for an image.
pub fn encode_record(image: &ImageInfo) -> (r: Vec<u8>)
    requires
        image.wf(),
    ensures
        r@ == record_bytes(image.original_date, image.hash),
{
    let mut out: Vec<u8> = Vec::new();
    out.push(RECORD_VERSION);
    match image.original_date {
        Some(t) => {
            out.push(1);
            push_le(&mut out, (t.year as i64 + YEAR_BIAS) as u32);
            out.push(t.month);
            out.push(t.day);
            out.push(t.hour);
            out.push(t.minute);
            out.push(t.second);
            push_le(&mut out, image.hash);
            assert(out@ =~= record_bytes(image.original_date, image.hash));
        },
        None => {
            out.push(0);
            push_le(&mut out, image.hash);
            assert(out@ =~= record_bytes(image.original_date, image.hash));
        },
    }
    out
}

/// The image record that the cache holds under `key`, read from its stored
/// bytes; `None` when they do not follow the layout.
pub fn decode_record(key: &str, data: &[u8]) -> (r: Option<ImageInfo>)
    ensures
        match decoded_fields(data@) {
            Some((date, hash)) => r matches Some(image) && image.filename@ == key@
                && image.original_date == date && image.hash == hash && image.wf(),
            None => r is None,
        },
{
    let n = data.len();
    if n == 6 && data[0] == RECORD_VERSION && data[1] == 0 {
        return Some(ImageInfo { filename: key.to_owned(), original_date: None, hash: read_le(data, 2) });
    }
    if !(n == 15 && data[0] == RECORD_VERSION && data[1] == 1) {
        return None;
    }
    let y = read_le(data, 2);
    if y as i64 > MAX_YEAR as i64 + YEAR_BIAS {
        return None;
    }
    let t = CaptureTime {
        year: (y as i64 - YEAR_BIAS) as i32,
        month: data[6],
        day: data[7],
        hour: data[8],
        minute: data[9],
        second: data[10],
    };
    assert(t == stored_time(data@));
    if !(MIN_YEAR <= t.year && 1 <= t.month && t.month <= 12 && 1 <= t.day && t.day <= 31
        && t.hour <= 23 && t.minute <= 59 && t.second <= 60) {
        return None;
    }
    Some(ImageInfo { filename: key.to_owned(), original_date: Some(t), hash: read_le(data, 11) })
}

/// What a cache lookup found for a path.
pub enum CacheLookup {
    /// A record that reads back.
    Hit(ImageInfo),
    /// Bytes that do not read back: the entry is to be dropped and the
    /// fingerprint computed again.
    Stale,
    /// Nothing stored for the path.
    Miss,
}

/// The outcome of looking up a path whose stored bytes are `stored`.
pub open spec fn lookup_outcome_ok(key: Seq<char>, stored: Option<Seq<u8>>, r: CacheLookup) -> bool {
    match stored {
        None => r is Miss,
        Some(b) => match decoded_fields(b) {
            Some((date, hash)) => r matches CacheLookup::Hit(image) && image.filename@ == key
                && image.original_date == date && image.hash == hash && image.wf(),
            None => r is Stale,
        },
    }
}

/// Decides a cache lookup from what the store holds under `key`.
pub fn load_from_cache(key: &str, stored: Option<Vec<u8>>) -> (r: CacheLookup)
    ensures
        lookup_outcome_ok(
            key@,
            match stored {
                Some(v) => Some(v@),
                None => None,
            },
            r,
        ),
{
    match stored {
        None => CacheLookup::Miss,
        Some(bytes) => match decode_record(key, bytes.as_slice()) {
            Some(image) => CacheLookup::Hit(image),
            None => CacheLookup::Stale,
        },
    }
}

/// The cache as a map from source path to stored bytes: what a lookup reads
/// for `key`.
pub open spec fn cached_fields(store: Map<Seq<char>, Seq<u8>>, key: Seq<char>) -> Option<
    (Option<CaptureTime>, u32),
> {
    if store.contains_key(key) {
        decoded_fields(store[key])
    } else {
        None
    }
}

/// Once a record is stored under a path, a lookup of that path gives back its
/// capture time and hash without the file being read again, whatever else
/// the cache holds.
pub proof fn lemma_cache_returns_stored(
    store: Map<Seq<char>, Seq<u8>>,
    key: Seq<char>,
    date: Option<CaptureTime>,
    hash: u32,
)
    requires
        date matches Some(t) ==> t.wf(),
    ensures
        cached_fields(store.insert(key, record_bytes(date, hash)), key) == Some((date, hash)),
{
    lemma_record_round_trip(date, hash);
}

/// An entry whose bytes do not read back is reported stale, not as an error;
/// once it is dropped and the recomputed record stored, the next lookup hits.
pub proof fn lemma_cache_self_heals(
    store: Map<Seq<char>, Seq<u8>>,
    key: Seq<char>,
    date: Option<CaptureTime>,
    hash: u32,
)
    requires
        store.contains_key(key),
        decoded_fields(store[key]) is None,
        date matches Some(t) ==> t.wf(),
    ensures
        forall|r: CacheLookup| #[trigger]
            lookup_outcome_ok(key, Some(store[key]), r) ==> r is Stale,
        cached_fields(store.remove(key).insert(key, record_bytes(date, hash)), key) == Some(
            (date, hash),
        ),
{
    lemma_record_round_trip(date, hash);
}

} // verus!

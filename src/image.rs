//! The fingerprint of a source image and the path it is imported to.
use crate::capture::{
    day_directory, hash_string, hash_text, parse_exif_date, stamp_text, time_from_unix,
    unix_time_of, exif_time_of, CaptureTime,
};
use crate::text::{extension, extension_of, join, join_of};
use vstd::prelude::*;

verus! {

/// The CRC-32C checksum of `data` continued from the checksum `crc` of what came before.
pub uninterp spec fn crc32c_append_of(crc: u32, data: Seq<u8>) -> u32;

/// Relies on crc32c::crc32c_append: the checksum of `data` continued from
/// `crc`, a function of the two alone. Continuing from a checksum continues
/// the same stream: appending `more` to the result is appending `data + more`
/// to `crc`, and no data leaves a checksum as it was.
#[verifier::external_body]
fn crc32c_append(crc: u32, data: &[u8]) -> (r: u32)
    ensures
        r == crc32c_append_of(crc, data@),
        data@.len() == 0 ==> r == crc,
        crc32c_append_of(r, Seq::<u8>::empty()) == r,
        forall|more: Seq<u8>| #[trigger]
            crc32c_append_of(r, more) == crc32c_append_of(crc, data@ + more),
{
    crc32c::crc32c_append(crc, data)
}

/// The content hash of a file's bytes: the CRC-32C of the whole content
/// (zero for no content).
pub open spec fn content_hash_of(data: Seq<u8>) -> u32 {
    if data.len() == 0 {
        0
    } else {
        crc32c_append_of(0, data)
    }
}

/// A running content checksum, fed the bytes of a file in order.
pub struct ContentHasher {
    pub crc: u32,
}

impl ContentHasher {
    pub fn new() -> (r: ContentHasher)
        ensures
            r.crc == 0,
    {
        ContentHasher { crc: 0 }
    }

    /// Folds the next piece of the content into the checksum.
    pub fn update(&mut self, chunk: &[u8])
        ensures
            final(self).crc == crc32c_append_of(old(self).crc, chunk@),
            chunk@.len() == 0 ==> final(self).crc == old(self).crc,
            crc32c_append_of(final(self).crc, Seq::<u8>::empty()) == final(self).crc,
            forall|more: Seq<u8>| #[trigger]
                crc32c_append_of(final(self).crc, more) == crc32c_append_of(
                    old(self).crc,
                    chunk@ + more,
                ),
    {
        self.crc = crc32c_append(self.crc, chunk);
    }

    pub fn finish(&self) -> (r: u32)
        ensures
            r == self.crc,
    {
        self.crc
    }
}

/// What an image is known by: its path, its capture time when its metadata
/// gives one, and the checksum of its content.
pub struct ImageInfo {
    pub filename: String,
    pub original_date: Option<CaptureTime>,
    pub hash: u32,
}

/// The capture time an output path is named after: the embedded one, or else
/// the file's creation time (seconds since the Unix epoch) in UTC.
pub open spec fn effective_time(date: Option<CaptureTime>, created: Option<i64>) -> Option<
    CaptureTime,
> {
    match date {
        Some(t) => Some(t),
        None => match created {
            Some(secs) => unix_time_of(secs),
            None => None,
        },
    }
}

/// `YYYYMMDD_HHMMSS_HASH`: the name, without extension, of an imported file.
pub open spec fn output_stem_of(t: CaptureTime, hash: u32) -> Seq<char> {
    stamp_text(t) + seq!['_'] + hash_text(hash)
}

/// `YYYY/MM/DD/YYYYMMDD_HHMMSS_HASH.ext`.
pub open spec fn relative_output_of(t: CaptureTime, hash: u32, ext: Seq<char>) -> Seq<char> {
    day_directory(t) + seq!['/'] + output_stem_of(t, hash) + seq!['.'] + ext
}

/// Where, below the destination, a file is imported to; `None` when it has no
/// capture time or no extension.
pub open spec fn output_relative_of(
    filename: Seq<char>,
    date: Option<CaptureTime>,
    created: Option<i64>,
    hash: u32,
) -> Option<Seq<char>> {
    match (effective_time(date, created), extension_of(filename)) {
        (Some(t), Some(ext)) => Some(relative_output_of(t, hash, ext)),
        _ => None,
    }
}

/// The full output path of a file under `destination`.
pub open spec fn output_path_of(
    filename: Seq<char>,
    date: Option<CaptureTime>,
    created: Option<i64>,
    hash: u32,
    destination: Seq<char>,
) -> Option<Seq<char>> {
    match output_relative_of(filename, date, created, hash) {
        Some(rel) => Some(join_of(destination, rel)),
        None => None,
    }
}

/// `YYYYMMDD_HHMMSS_HASH`.
pub fn output_stem(t: CaptureTime, hash: u32) -> (r: String)
    requires
        t.wf(),
    ensures
        r@ == output_stem_of(t, hash),
{
    let mut s = t.stamp();
    s.append("_");
    s.append(hash_string(hash).as_str());
    proof {
        reveal_strlit("_");
    }
    s
}

/// `YYYY/MM/DD/YYYYMMDD_HHMMSS_HASH.ext`.
pub fn relative_output_path(t: CaptureTime, hash: u32, ext: &str) -> (r: String)
    requires
        t.wf(),
    ensures
        r@ == relative_output_of(t, hash, ext@),
{
    let mut s = t.day_directory();
    s.append("/");
    s.append(output_stem(t, hash).as_str());
    s.append(".");
    s.append(ext);
    proof {
        reveal_strlit("/");
        reveal_strlit(".");
    }
    s
}

impl ImageInfo {
    pub open spec fn wf(&self) -> bool {
        self.original_date matches Some(t) ==> t.wf()
    }

    /// The record of a file whose content hashed to `hash` and whose metadata
    /// capture-date tag, when it could be read, holds `date_tag`. A tag that
    /// does not parse leaves the capture time unknown.
    pub fn load(filename: String, hash: u32, date_tag: Option<String>) -> (r: ImageInfo)
        ensures
            r.wf(),
            r.filename@ == filename@,
            r.hash == hash,
            r.original_date == match date_tag {
                Some(tag) => exif_time_of(tag@),
                None => None,
            },
    {
        let original_date = match date_tag {
            Some(tag) => ImageInfo::get_exif_date(tag.as_str()),
            None => None,
        };
        ImageInfo { filename, original_date, hash }
    }

    /// The capture time held by a metadata date tag, if it parses.
    pub fn get_exif_date(tag: &str) -> (r: Option<CaptureTime>)
        ensures
            r == exif_time_of(tag@),
            r matches Some(t) ==> t.wf(),
    {
        parse_exif_date(tag)
    }

    /// The checksum of `data` read in pieces of `size` bytes. The piece size
    /// does not change the result: it is always the hash of the whole content.
    pub fn compute_chunked_hash(data: &[u8], size: usize) -> (r: u32)
        requires
            size > 0,
        ensures
            r == content_hash_of(data@),
    {
        let n = data.len();
        let mut hasher = ContentHasher::new();
        let mut i: usize = 0;
        while i < n
            invariant
                n == data@.len(),
                i <= n,
                size > 0,
                i == 0 ==> hasher.crc == 0,
                i > 0 ==> crc32c_append_of(hasher.crc, Seq::<u8>::empty()) == hasher.crc,
                i > 0 ==> forall|more: Seq<u8>| #[trigger]
                    crc32c_append_of(hasher.crc, more) == crc32c_append_of(
                        0,
                        data@.subrange(0, i as int) + more,
                    ),
            decreases n - i,
        {
            let ghost before = hasher.crc;
            let end = if n - i <= size {
                n
            } else {
                i + size
            };
            let piece = vstd::slice::slice_subrange(data, i, end);
            assert(piece@ =~= data@.subrange(i as int, end as int));
            hasher.update(piece);
            assert forall|more: Seq<u8>| #[trigger]
                crc32c_append_of(hasher.crc, more) == crc32c_append_of(
                    0,
                    data@.subrange(0, end as int) + more,
                ) by {
                assert(crc32c_append_of(hasher.crc, more) == crc32c_append_of(before, piece@ + more));
                assert(data@.subrange(0, end as int) + more =~= data@.subrange(0, i as int) + (
                piece@ + more));
                if i == 0 {
                    assert(data@.subrange(0, 0) + (piece@ + more) =~= piece@ + more);
                }
            }
            i = end;
        }
        if n > 0 {
            assert(data@.subrange(0, n as int) + Seq::<u8>::empty() =~= data@);
        }
        hasher.finish()
    }

    /// The checksum of `data` folded in one piece.
    pub fn compute_hash(data: &[u8]) -> (r: u32)
        ensures
            r == content_hash_of(data@),
    {
        crc32c_append(0, data)
    }

    pub fn filename(&self) -> (r: &String)
        ensures
            r@ == self.filename@,
    {
        &self.filename
    }

    pub fn original_date(&self) -> (r: Option<CaptureTime>)
        ensures
            r == self.original_date,
    {
        self.original_date
    }

    pub fn hash(&self) -> (r: u32)
        ensures
            r == self.hash,
    {
        self.hash
    }

    /// Where below the destination a file is imported to: named after the
    /// capture time, or else the creation time `created`, and the hash, with the
    /// file's own extension. `None` when there is no time or no extension.
    pub fn compute_output_path(
        filename: &str,
        date: Option<CaptureTime>,
        created: Option<i64>,
        hash: u32,
    ) -> (r: Option<String>)
        requires
            date matches Some(t) ==> t.wf(),
        ensures
            match r {
                Some(p) => output_relative_of(filename@, date, created, hash) == Some(p@),
                None => output_relative_of(filename@, date, created, hash) is None,
            },
    {
        let time = match date {
            Some(t) => t,
            None => match created {
                Some(secs) => match time_from_unix(secs) {
                    Some(t) => t,
                    None => return None,
                },
                None => return None,
            },
        };
        let ext = match extension(filename) {
            Some(e) => e,
            None => return None,
        };
        Some(relative_output_path(time, hash, ext.as_str()))
    }

    /// The output path of this image under `destination`; `created` is the
    /// file's creation time, used when the metadata gave no capture time.
    pub fn output_path(&self, destination: &str, created: Option<i64>) -> (r: Option<String>)
        requires
            self.wf(),
        ensures
            match r {
                Some(p) => output_path_of(
                    self.filename@,
                    self.original_date,
                    created,
                    self.hash,
                    destination@,
                ) == Some(p@),
                None => output_path_of(
                    self.filename@,
                    self.original_date,
                    created,
                    self.hash,
                    destination@,
                ) is None,
            },
    {
        match ImageInfo::compute_output_path(
            self.filename.as_str(),
            self.original_date,
            created,
            self.hash,
        ) {
            Some(rel) => Some(join(destination, rel.as_str())),
            None => None,
        }
    }
}

/// Deriving an output path depends on the capture time, the hash and the
/// extension alone: two images that agree on these, whatever their names,
/// are imported to the same path, on every run.
pub proof fn lemma_output_path_deterministic(
    a: ImageInfo,
    b: ImageInfo,
    destination: Seq<char>,
    created: Option<i64>,
)
    requires
        a.original_date == b.original_date,
        a.hash == b.hash,
        extension_of(a.filename@) == extension_of(b.filename@),
    ensures
        output_path_of(a.filename@, a.original_date, created, a.hash, destination)
            == output_path_of(b.filename@, b.original_date, created, b.hash, destination),
{
}

} // verus!

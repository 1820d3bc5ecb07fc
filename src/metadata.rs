//! Sidecar metadata files that travel with an image.
use crate::capture::{day_directory, CaptureTime};
use crate::image::{effective_time, output_path_of, output_stem, output_stem_of, ImageInfo};
use crate::text::{
    directory, directory_of, extension, extension_of, file_stem, join, join_of,
    find_last, last_index_of, lemma_last_index_of, lemma_last_index_of_concat, replace_all, replace_text, stem_of,
};
use vstd::prelude::*;

verus! {

/// A file-system modification time: seconds since the Unix epoch and the
/// nanoseconds within that second.
#[derive(Clone, Copy, Debug, PartialEq, Eq, Structural)]
pub struct FileTime {
    pub secs: i64,
    pub nanos: u32,
}

/// The time as a count of nanoseconds since the Unix epoch.
pub open spec fn total_nanos(t: FileTime) -> int {
    t.secs * 1_000_000_000 + t.nanos
}

/// `a` is the same time as `b` or a later one.
pub open spec fn at_or_after(a: FileTime, b: FileTime) -> bool {
    total_nanos(a) >= total_nanos(b)
}

impl FileTime {
    /// The time in nanoseconds since the Unix epoch.
    pub fn nanos_since_epoch(&self) -> (r: i128)
        ensures
            r == total_nanos(*self),
    {
        proof {
            let s = self.secs as int;
            assert(-9_223_372_036_854_775_808 <= s <= 9_223_372_036_854_775_807);
            assert(-9_223_372_036_854_775_808 * 1_000_000_000 <= s * 1_000_000_000
                <= 9_223_372_036_854_775_807 * 1_000_000_000) by (nonlinear_arith)
                requires
                    -9_223_372_036_854_775_808 <= s <= 9_223_372_036_854_775_807,
            ;
        }
        self.secs as i128 * 1_000_000_000 + self.nanos as i128
    }
}

/// A sidecar found beside an image, with the path it is imported to.
pub struct ImageMetadataFile {
    pub filename: String,
    pub output_path: String,
    pub output_edit_date: Option<FileTime>,
    pub edit_date: FileTime,
}

impl ImageMetadataFile {
    /// `output_edit_date` is the modification time of the imported copy, when
    /// there is one.
    pub fn new(
        filename: String,
        output_path: String,
        output_edit_date: Option<FileTime>,
        edit_date: FileTime,
    ) -> (r: ImageMetadataFile)
        ensures
            r.filename@ == filename@,
            r.output_path@ == output_path@,
            r.output_edit_date == output_edit_date,
            r.edit_date == edit_date,
    {
        ImageMetadataFile { filename, output_path, output_edit_date, edit_date }
    }

    pub fn filename(&self) -> (r: &String)
        ensures
            r@ == self.filename@,
    {
        &self.filename
    }

    pub fn output_path(&self) -> (r: &String)
        ensures
            r@ == self.output_path@,
    {
        &self.output_path
    }

    pub open spec fn up_to_date(&self) -> bool {
        self.output_edit_date matches Some(d) && at_or_after(d, self.edit_date)
    }

    /// An imported copy exists and was modified no earlier than the source.
    pub fn is_up_to_date(&self) -> (r: bool)
        ensures
            r == self.up_to_date(),
    {
        match self.output_edit_date {
            Some(d) => d.nanos_since_epoch() >= self.edit_date.nanos_since_epoch(),
            None => false,
        }
    }
}

/// Whether a character has a meaning of its own in a glob pattern.
pub open spec fn is_glob_special(c: char) -> bool {
    c == '?' || c == '*' || c == '[' || c == ']'
}

/// `s` as a glob pattern that matches `s` itself: each special character is
/// put in brackets.
pub open spec fn glob_escaped(s: Seq<char>) -> Seq<char>
    decreases s.len(),
{
    if s.len() == 0 {
        Seq::empty()
    } else {
        glob_escaped(s.drop_last()) + if is_glob_special(s.last()) {
            seq!['[', s.last(), ']']
        } else {
            seq![s.last()]
        }
    }
}

/// Relies on glob::Pattern::escape: each of `?`, `*`, `[` and `]` is put in
/// brackets and every other character kept, in order.
#[verifier::external_body]
fn escape_glob(s: &str) -> (r: String)
    ensures
        r@ == glob_escaped(s@),
{
    glob::Pattern::escape(s)
}

/// The glob pattern that finds the XMP sidecars of an image: in its own
/// directory (the current one when the path names none), its stem, then
/// anything, then an `xmp` extension in any case. The directory and the stem
/// are escaped, so they match only themselves.
pub open spec fn xmp_pattern_of(image: Seq<char>) -> Option<Seq<char>> {
    match stem_of(image) {
        Some(stem) => {
            let dir = if last_index_of(image, '/') >= 0 {
                glob_escaped(directory_of(image)) + seq!['/']
            } else {
                Seq::empty()
            };
            Some(dir + glob_escaped(stem) + "*.[Xx][Mm][Pp]"@)
        },
        None => None,
    }
}

/// Where a sidecar `entry` of an image goes: beside the imported image, with
/// the image's stem in the sidecar's own stem replaced by the imported stem,
/// and the sidecar's extension kept.
pub open spec fn sidecar_output_of(
    image: Seq<char>,
    date: Option<CaptureTime>,
    created: Option<i64>,
    hash: u32,
    destination: Seq<char>,
    entry: Seq<char>,
) -> Option<Seq<char>> {
    match (
        effective_time(date, created),
        extension_of(image),
        stem_of(image),
        stem_of(entry),
        extension_of(entry),
    ) {
        (Some(t), Some(_), Some(image_stem), Some(entry_stem), Some(entry_ext)) => Some(
            join_of(
                join_of(destination, day_directory(t)),
                replace_all(entry_stem, image_stem, output_stem_of(t, hash)) + seq!['.']
                    + entry_ext,
            ),
        ),
        _ => None,
    }
}

proof fn lemma_stem_not_empty(p: Seq<char>)
    ensures
        stem_of(p) matches Some(s) ==> s.len() > 0,
{
    if let Some(name) = crate::text::file_name_of(p) {
        lemma_last_index_of(name, '.');
    }
}

/// The search pattern for the XMP sidecars of an image: its directory, its
/// stem followed by anything, and the extension `xmp` in any case.
pub fn xmp_pattern(image: &str) -> (r: Option<String>)
    ensures
        match r {
            Some(p) => xmp_pattern_of(image@) == Some(p@),
            None => xmp_pattern_of(image@) is None,
        },
{
    let stem = file_stem(image)?;
    let mut p = match find_last(image, '/') {
        Some(_) => {
            let mut d = escape_glob(directory(image).as_str());
            d.append("/");
            d
        },
        None => String::new(),
    };
    p.append(escape_glob(stem.as_str()).as_str());
    p.append("*.[Xx][Mm][Pp]");
    proof {
        reveal_strlit("/");
        reveal_strlit("*.[Xx][Mm][Pp]");
    }
    Some(p)
}

/// The output path of the sidecar `entry` of `image` under `destination`;
/// `None` when the image has no output path or a name lacks a stem or extension.
pub fn sidecar_output_path(
    image: &ImageInfo,
    destination: &str,
    created: Option<i64>,
    entry: &str,
) -> (r: Option<String>)
    requires
        image.wf(),
    ensures
        match r {
            Some(p) => sidecar_output_of(
                image.filename@,
                image.original_date,
                created,
                image.hash,
                destination@,
                entry@,
            ) == Some(p@),
            None => sidecar_output_of(
                image.filename@,
                image.original_date,
                created,
                image.hash,
                destination@,
                entry@,
            ) is None,
        },
{
    let time = match image.original_date {
        Some(t) => t,
        None => match created {
            Some(secs) => crate::capture::time_from_unix(secs)?,
            None => return None,
        },
    };
    let _image_ext = extension(image.filename.as_str())?;
    let image_stem = file_stem(image.filename.as_str())?;
    let entry_stem = file_stem(entry)?;
    let entry_ext = extension(entry)?;
    proof {
        lemma_stem_not_empty(image.filename@);
    }
    let out_stem = output_stem(time, image.hash);
    let mut name = replace_text(entry_stem.as_str(), image_stem.as_str(), out_stem.as_str());
    name.append(".");
    name.append(entry_ext.as_str());
    proof {
        reveal_strlit(".");
    }
    let dir = join(destination, time.day_directory().as_str());
    Some(join(dir.as_str(), name.as_str()))
}

/// What every discoverer found, one after another, each in its own order.
pub open spec fn flattened(found: Seq<Vec<ImageMetadataFile>>) -> Seq<ImageMetadataFile>
    decreases found.len(),
{
    if found.len() == 0 {
        Seq::empty()
    } else {
        found[0]@ + flattened(found.drop_first())
    }
}

/// Gathers what each registered discoverer found into one list, keeping
/// each discoverer's own order.
pub fn collect_discovered(found: Vec<Vec<ImageMetadataFile>>) -> (r: Vec<ImageMetadataFile>)
    ensures
        r@ == flattened(found@),
{
    let ghost all = found@;
    let mut out: Vec<ImageMetadataFile> = Vec::new();
    let mut found = found;
    while found.len() > 0
        invariant
            out@ + flattened(found@) == flattened(all),
        decreases found.len(),
    {
        let ghost before = found@;
        let mut next = found.remove(0);
        assert(found@ =~= before.drop_first());
        let ghost piece = next@;
        out.append(&mut next);
        assert(out@ + flattened(found@) =~= (out@.subrange(0, out@.len() - piece.len()) + (piece
            + flattened(found@))));
    }
    assert(out@ + Seq::<ImageMetadataFile>::empty() =~= out@);
    out
}

spec fn example_time() -> CaptureTime {
    CaptureTime { year: 2023, month: 5, day: 1, hour: 10, minute: 30, second: 0 }
}

spec fn example_stem() -> Seq<char> {
    seq!['I', 'M', 'G', '_', '0', '0', '0', '1']
}

spec fn example_out_stem() -> Seq<char> {
    seq![
        '2', '0', '2', '3', '0', '5', '0', '1', '_', '1', '0', '3', '0', '0', '0', '_', 'D',
        'E', 'A', 'D', 'B', 'E', 'E', 'F',
    ]
}

spec fn example_days() -> Seq<char> {
    seq!['2', '0', '2', '3', '/', '0', '5', '/', '0', '1']
}

proof fn lemma_example_text()
    ensures
        output_stem_of(example_time(), 0xDEADBEEF) == example_out_stem(),
        day_directory(example_time()) == example_days(),
{
    reveal_with_fuel(crate::capture::decimal, 5);
    reveal_with_fuel(crate::capture::hex_digits, 9);
    let t = example_time();
    assert(crate::capture::year_text(2023) =~= seq!['2', '0', '2', '3']);
    assert(crate::capture::decimal(5, 2) =~= seq!['0', '5']);
    assert(crate::capture::decimal(1, 2) =~= seq!['0', '1']);
    assert(crate::capture::decimal(10, 2) =~= seq!['1', '0']);
    assert(crate::capture::decimal(30, 2) =~= seq!['3', '0']);
    assert(crate::capture::decimal(0, 2) =~= seq!['0', '0']);
    assert(crate::capture::hash_text(0xDEADBEEF) =~= seq!['D', 'E', 'A', 'D', 'B', 'E', 'E', 'F']);
    assert(output_stem_of(t, 0xDEADBEEF) =~= example_out_stem());
    assert(day_directory(t) =~= example_days());
}

/// The stem and extension of `dir/name`, for a name with one dot after its
/// eighth character.
proof fn lemma_example_name(dir: Seq<char>, name: Seq<char>)
    requires
        name.len() == 12,
        name.subrange(0, 8) == example_stem(),
        name[8] == '.',
        forall|k: int| 0 <= k < 12 ==> name[k] != '/',
        forall|k: int| 9 <= k < 12 ==> name[k] != '.',
    ensures
        stem_of(dir + seq!['/'] + name) == Some(example_stem()),
        extension_of(dir + seq!['/'] + name) == Some(name.subrange(9, 12)),
{
    reveal_with_fuel(last_index_of, 14);
    let tail = seq!['/'] + name;
    let path = dir + seq!['/'] + name;
    assert(last_index_of(tail, '/') == 0);
    assert(path =~= dir + tail);
    lemma_last_index_of_concat(dir, tail, '/');
    assert(path.subrange(dir.len() + 1 as int, path.len() as int) =~= name);
    assert(last_index_of(name, '.') == 8);
    assert(name != seq!['.', '.']);
}

/// An image `IMG_0001.CR3` captured on 2023-05-01 at 10:30:00 with hash
/// `DEADBEEF`, in any directory, goes to
/// `2023/05/01/20230501_103000_DEADBEEF.CR3` under the destination, and its
/// sidecar `IMG_0001.xmp` to `2023/05/01/20230501_103000_DEADBEEF.xmp`.
pub proof fn lemma_sidecar_example(dir: Seq<char>, destination: Seq<char>)
    ensures
        ({
            let t = CaptureTime { year: 2023, month: 5, day: 1, hour: 10, minute: 30, second: 0 };
            let image = dir + seq!['/'] + "IMG_0001.CR3"@;
            let sidecar = dir + seq!['/'] + "IMG_0001.xmp"@;
            &&& output_path_of(image, Some(t), None, 0xDEADBEEF, destination) == Some(
                join_of(destination, "2023/05/01/20230501_103000_DEADBEEF.CR3"@),
            )
            &&& sidecar_output_of(image, Some(t), None, 0xDEADBEEF, destination, sidecar)
                == Some(join_of(destination, "2023/05/01/20230501_103000_DEADBEEF.xmp"@))
        }),
{
    reveal_strlit("IMG_0001.CR3");
    reveal_strlit("IMG_0001.xmp");
    reveal_strlit("2023/05/01/20230501_103000_DEADBEEF.CR3");
    reveal_strlit("2023/05/01/20230501_103000_DEADBEEF.xmp");
    let name = "IMG_0001.CR3"@;
    let side = "IMG_0001.xmp"@;
    let stem = example_stem();
    let out_stem = example_out_stem();
    let days = example_days();
    assert(name.subrange(0, 8) =~= stem);
    assert(side.subrange(0, 8) =~= stem);
    lemma_example_name(dir, name);
    lemma_example_name(dir, side);
    assert(name.subrange(9, 12) =~= seq!['C', 'R', '3']);
    assert(side.subrange(9, 12) =~= seq!['x', 'm', 'p']);
    lemma_example_text();
    assert(stem.subrange(0, 8) =~= stem);
    assert(stem.subrange(8, 8) =~= Seq::<char>::empty());
    assert(replace_all(Seq::<char>::empty(), stem, out_stem) == Seq::<char>::empty());
    assert(out_stem + Seq::<char>::empty() =~= out_stem);
    assert(replace_all(stem, stem, out_stem) == out_stem);
    assert(days + seq!['/'] + out_stem + seq!['.'] + seq!['C', 'R', '3']
        =~= "2023/05/01/20230501_103000_DEADBEEF.CR3"@);
    let rel = days + seq!['/'] + out_stem + seq!['.'] + seq!['x', 'm', 'p'];
    assert(rel =~= "2023/05/01/20230501_103000_DEADBEEF.xmp"@);
    let tail = out_stem + seq!['.'] + seq!['x', 'm', 'p'];
    assert(join_of(join_of(destination, days), tail) =~= join_of(destination, rel));
}

} // verus!

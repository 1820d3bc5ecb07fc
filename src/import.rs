//! The decisions an import run takes for each source file.
use crate::image::{output_path_of, ImageInfo};
use crate::metadata::{at_or_after, FileTime, ImageMetadataFile};
use vstd::prelude::*;

verus! {

/// What an import is asked to do.
pub struct ImportArgs {
    /// Glob pattern that selects the source files.
    pub source: String,
    /// Root of the destination tree.
    pub destination: String,
    /// List the copies instead of making them.
    pub dry_run: bool,
    /// Neither open nor use a fingerprint cache.
    pub no_cache: bool,
}

/// The commands of the program.
pub enum Command {
    Import(ImportArgs),
}

/// The program's command line.
pub struct App {
    pub command: Command,
}

/// What becomes of one source image.
pub enum ImageStep {
    /// No output path can be derived (no capture or creation time, or no
    /// extension): the file is skipped.
    NoOutputPath,
    /// The output path is already taken: nothing is copied.
    AlreadyExists(String),
    /// The file is copied to this path.
    Copy(String),
}

pub open spec fn image_step_ok(output: Option<Seq<char>>, exists: bool, r: ImageStep) -> bool {
    match output {
        None => r is NoOutputPath,
        Some(p) => if exists {
            r matches ImageStep::AlreadyExists(q) && q@ == p
        } else {
            r matches ImageStep::Copy(q) && q@ == p
        },
    }
}

/// Decides what happens to an image from its output path, if any, and whether
/// a file already stands there.
pub fn image_step(output: Option<String>, exists: bool) -> (r: ImageStep)
    ensures
        image_step_ok(
            match output {
                Some(p) => Some(p@),
                None => None,
            },
            exists,
            r,
        ),
{
    match output {
        None => ImageStep::NoOutputPath,
        Some(p) => if exists {
            ImageStep::AlreadyExists(p)
        } else {
            ImageStep::Copy(p)
        },
    }
}

/// A sidecar is copied unless its imported copy is up to date.
pub fn sidecar_needs_copy(file: &ImageMetadataFile) -> (r: bool)
    ensures
        r == !file.up_to_date(),
{
    !file.is_up_to_date()
}

/// The output paths of a run's images, in the order they are processed.
pub open spec fn outputs_of(
    images: Seq<ImageInfo>,
    created: Seq<Option<i64>>,
    destination: Seq<char>,
) -> Seq<Option<Seq<char>>> {
    Seq::new(
        images.len(),
        |i: int|
            output_path_of(
                images[i].filename@,
                images[i].original_date,
                created[i],
                images[i].hash,
                destination,
            ),
    )
}

/// The destination's files after a run that copies to `outputs`, starting from `present`.
pub open spec fn present_after(outputs: Seq<Option<Seq<char>>>, present: Set<Seq<char>>) -> Set<
    Seq<char>,
>
    decreases outputs.len(),
{
    if outputs.len() == 0 {
        present
    } else {
        let next = match outputs[0] {
            Some(p) => present.insert(p),
            None => present,
        };
        present_after(outputs.drop_first(), next)
    }
}

/// How many copies a run makes.
pub open spec fn copies_in_run(outputs: Seq<Option<Seq<char>>>, present: Set<Seq<char>>) -> nat
    decreases outputs.len(),
{
    if outputs.len() == 0 {
        0
    } else {
        let next = match outputs[0] {
            Some(p) => present.insert(p),
            None => present,
        };
        let here: nat = if outputs[0] matches Some(p) && !present.contains(p) {
            1
        } else {
            0
        };
        here + copies_in_run(outputs.drop_first(), next)
    }
}

proof fn lemma_present_grows(outputs: Seq<Option<Seq<char>>>, present: Set<Seq<char>>)
    ensures
        present.subset_of(present_after(outputs, present)),
        forall|i: int|
            0 <= i < outputs.len() && #[trigger] outputs[i] is Some ==> present_after(
                outputs,
                present,
            ).contains(outputs[i]->0),
    decreases outputs.len(),
{
    if outputs.len() > 0 {
        let next = match outputs[0] {
            Some(p) => present.insert(p),
            None => present,
        };
        lemma_present_grows(outputs.drop_first(), next);
        assert forall|i: int|
            0 <= i < outputs.len() && #[trigger] outputs[i] is Some implies present_after(
            outputs,
            present,
        ).contains(outputs[i]->0) by {
            if i > 0 {
                assert(outputs.drop_first()[i - 1] == outputs[i]);
            }
        }
    }
}

proof fn lemma_no_copies_when_present(outputs: Seq<Option<Seq<char>>>, present: Set<Seq<char>>)
    requires
        forall|i: int|
            0 <= i < outputs.len() && #[trigger] outputs[i] is Some ==> present.contains(
                outputs[i]->0,
            ),
    ensures
        copies_in_run(outputs, present) == 0,
    decreases outputs.len(),
{
    if outputs.len() > 0 {
        if let Some(p) = outputs[0] {
            assert(present.insert(p) =~= present);
        }
        assert forall|i: int|
            0 <= i < outputs.drop_first().len() && #[trigger] outputs.drop_first()[i] is Some implies present.contains(
            outputs.drop_first()[i]->0,
        ) by {
            assert(outputs.drop_first()[i] == outputs[i + 1]);
        }
        lemma_no_copies_when_present(outputs.drop_first(), present);
    }
}

/// Whether an output path is already taken in `present`.
pub open spec fn taken(output: Option<Seq<char>>, present: Set<Seq<char>>) -> bool {
    output matches Some(p) && present.contains(p)
}

/// Importing the same images a second time, with the same inputs, finds every
/// output path already taken, so `image_step` decides no copy for any of them.
pub proof fn lemma_import_idempotent(
    images: Seq<ImageInfo>,
    created: Seq<Option<i64>>,
    destination: Seq<char>,
    present: Set<Seq<char>>,
)
    requires
        created.len() == images.len(),
    ensures
        ({
            let outputs = outputs_of(images, created, destination);
            let after = present_after(outputs, present);
            &&& forall|i: int|
                0 <= i < outputs.len() && #[trigger] outputs[i] is Some ==> after.contains(
                    outputs[i]->0,
                )
            &&& copies_in_run(outputs, after) == 0
            &&& forall|i: int, r: ImageStep|
                0 <= i < outputs.len() && #[trigger] image_step_ok(
                    outputs[i],
                    taken(outputs[i], after),
                    r,
                ) ==> !(r is Copy)
        }),
{
    let outputs = outputs_of(images, created, destination);
    lemma_present_grows(outputs, present);
    lemma_no_copies_when_present(outputs, present_after(outputs, present));
}

/// A sidecar whose copy was written no earlier than the source's last
/// modification is up to date when it is found again, and is not copied again.
pub proof fn lemma_copied_sidecar_is_fresh(
    again: ImageMetadataFile,
    copied_at: FileTime,
)
    requires
        again.output_edit_date == Some(copied_at),
        at_or_after(copied_at, again.edit_date),
    ensures
        again.up_to_date(),
{
}

} // verus!

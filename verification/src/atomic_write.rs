//! Replacing a file as a whole: a crash or an error leaves either the old or
//! the new content, never a part of it.
//!
//! The content goes to a temporary file in the same directory, which is
//! synchronised and then renamed over the target. It is created for its owner
//! alone, and so is what becomes of the target. [`AtomicWrite`] decides what is
//! done next; the program performs it and reports how it went.

use vstd::prelude::*;

use crate::state::{self, PRIVATE_MODE};
use crate::text;

verus! {

/// What is to be done next.
#[derive(Debug, Clone, Copy, PartialEq, Eq, Structural)]
pub enum WriteStep {
    /// Create the directory of the target with all its parents.
    CreateDirectory,
    /// Create the temporary file, which must not exist, with these
    /// permissions at most.
    CreateTemporary { mode: u32 },
    /// Write the whole content to the temporary file.
    WriteContent,
    /// Synchronise the temporary file with the disk.
    SyncContent,
    /// Rename the temporary file over the target.
    Rename,
    /// Synchronise the directory with the disk.
    SyncDirectory,
    /// Remove the temporary file. It may be gone already.
    RemoveTemporary,
    /// Nothing: the target holds the new content.
    Succeeded,
    /// Nothing: the write failed.
    Failed,
}

impl WriteStep {
    /// The step that follows one that went well or not.
    pub open spec fn following(self, ok: bool) -> WriteStep {
        match self {
            WriteStep::CreateDirectory => if ok {
                WriteStep::CreateTemporary { mode: PRIVATE_MODE }
            } else {
                WriteStep::Failed
            },
            WriteStep::CreateTemporary { mode } => if ok {
                WriteStep::WriteContent
            } else {
                WriteStep::RemoveTemporary
            },
            WriteStep::WriteContent => if ok {
                WriteStep::SyncContent
            } else {
                WriteStep::RemoveTemporary
            },
            WriteStep::SyncContent => if ok {
                WriteStep::Rename
            } else {
                WriteStep::RemoveTemporary
            },
            WriteStep::Rename => if ok {
                WriteStep::SyncDirectory
            } else {
                WriteStep::RemoveTemporary
            },
            WriteStep::SyncDirectory => if ok {
                WriteStep::Succeeded
            } else {
                WriteStep::RemoveTemporary
            },
            WriteStep::RemoveTemporary => WriteStep::Failed,
            WriteStep::Succeeded => WriteStep::Succeeded,
            WriteStep::Failed => WriteStep::Failed,
        }
    }

    /// Whether nothing is left to do.
    pub open spec fn last(self) -> bool {
        self is Succeeded || self is Failed
    }
}

/// A write in progress.
#[derive(Debug)]
pub struct AtomicWrite {
    step: WriteStep,
}

impl View for AtomicWrite {
    type V = WriteStep;

    closed spec fn view(&self) -> WriteStep {
        self.step
    }
}

impl AtomicWrite {
    /// A write that has not begun.
    pub fn new() -> (out: AtomicWrite)
        ensures
            out@ == WriteStep::CreateDirectory,
    {
        AtomicWrite { step: WriteStep::CreateDirectory }
    }

    /// What is to be done next.
    pub fn next(&self) -> (out: WriteStep)
        ensures
            out == self@,
    {
        self.step
    }

    /// Takes in whether the step went well.
    pub fn report(&mut self, ok: bool)
        ensures
            final(self)@ == old(self)@.following(ok),
    {
        self.step = match (self.step, ok) {
            (WriteStep::CreateDirectory, true) => WriteStep::CreateTemporary {
                mode: PRIVATE_MODE,
            },
            (WriteStep::CreateTemporary { mode }, true) => WriteStep::WriteContent,
            (WriteStep::WriteContent, true) => WriteStep::SyncContent,
            (WriteStep::SyncContent, true) => WriteStep::Rename,
            (WriteStep::Rename, true) => WriteStep::SyncDirectory,
            (WriteStep::SyncDirectory, true) => WriteStep::Succeeded,
            (WriteStep::Succeeded, _) => WriteStep::Succeeded,
            (WriteStep::CreateDirectory, false) => WriteStep::Failed,
            (WriteStep::RemoveTemporary, _) => WriteStep::Failed,
            (WriteStep::Failed, _) => WriteStep::Failed,
            (_, false) => WriteStep::RemoveTemporary,
        };
    }
}

// ---------------------------------------------------------------------------
// The temporary file
// ---------------------------------------------------------------------------

/// `rand::random` for a `u64`. Nothing is claimed of the number.
#[verifier::external_body]
fn random_number() -> (n: u64) {
    rand::random::<u64>()
}

/// The name of the temporary file for a target, told apart by a number.
pub open spec fn temporary_name(name: Seq<char>, nonce: u64) -> Seq<char> {
    "."@ + name + ".tmp-"@ + text::decimal_digits(nonce as nat)
}

/// The name of the temporary file for a target, with a given number.
pub fn temporary_name_with(name: &str, nonce: u64) -> (out: String)
    ensures
        out@ == temporary_name(name@, nonce),
{
    let mut out = ".".to_owned();
    out.append(name);
    out.append(".tmp-");
    out.append(text::decimal(nonce).as_str());
    out
}

/// The name of the temporary file for a target, with a random number.
pub fn fresh_temporary_name(name: &str) -> (out: String)
    ensures
        exists|nonce: u64| out@ == #[trigger] temporary_name(name@, nonce),
{
    let nonce: u64 = random_number();
    temporary_name_with(name, nonce)
}

/// The temporary file is never the target itself.
pub proof fn law_temporary_is_another_file(name: Seq<char>, nonce: u64)
    ensures
        temporary_name(name, nonce) != name,
{
    reveal_strlit(".");
    reveal_strlit(".tmp-");
    assert(temporary_name(name, nonce).len() > name.len());
}

// ---------------------------------------------------------------------------
// What the disk holds
// ---------------------------------------------------------------------------

/// A file: its content and its permissions.
pub struct FileView {
    pub bytes: Seq<u8>,
    pub mode: u32,
}

/// The two files: nothing where there is none.
pub struct Disk {
    pub target: Option<FileView>,
    pub temporary: Option<FileView>,
}

/// Whether there is a file that holds this content and is its owner's alone.
pub open spec fn holds_privately(file: Option<FileView>, content: Seq<u8>) -> bool {
    file matches Some(file) && file.bytes == content && !state::shared_mode(file.mode)
}

/// What a step may do to the disk. A file is created with no more permissions
/// than were asked for, and keeps them when it is written or renamed. A write
/// that fails may leave any content in the temporary file; each other step
/// happens as a whole or not at all.
pub open spec fn effect(
    step: WriteStep,
    ok: bool,
    content: Seq<u8>,
    before: Disk,
    after: Disk,
) -> bool {
    match step {
        WriteStep::CreateTemporary { mode } => if ok {
            &&& after.target == before.target
            &&& after.temporary matches Some(file) && file.bytes == Seq::<u8>::empty() && (
            !state::shared_mode(mode) ==> !state::shared_mode(file.mode))
        } else {
            after == before
        },
        WriteStep::WriteContent => {
            &&& after.target == before.target
            &&& before.temporary matches Some(old) ==> (after.temporary matches Some(new)
                && new.mode == old.mode && (ok ==> new.bytes == content))
            &&& before.temporary is None ==> !ok && after.temporary is None
        },
        WriteStep::Rename => if ok {
            after.target == before.temporary && after.temporary is None
        } else {
            after == before
        },
        WriteStep::RemoveTemporary => if ok {
            after.target == before.target && after.temporary is None
        } else {
            after == before
        },
        _ => after == before,
    }
}

/// Whether a write can have gone through these steps, with these outcomes and
/// these contents of the disk at the beginning of each.
pub open spec fn possible_run(
    content: Seq<u8>,
    steps: Seq<WriteStep>,
    oks: Seq<bool>,
    disks: Seq<Disk>,
) -> bool {
    &&& steps.len() == disks.len() == oks.len()
    &&& steps.len() > 0
    &&& steps[0] is CreateDirectory
    &&& forall|i: int, j: int|
        0 <= i < steps.len() - 1 && j == i + 1 ==> #[trigger] steps[j] == (#[trigger] steps[i]).following(
            oks[i],
        ) && effect(steps[i], oks[i], content, disks[i], disks[j])
}

spec fn consistent(step: WriteStep, start: Disk, content: Seq<u8>, disk: Disk) -> bool {
    match step {
        WriteStep::CreateDirectory => disk == start,
        WriteStep::CreateTemporary { mode } => disk == start && mode == PRIVATE_MODE,
        WriteStep::WriteContent => disk.target == start.target && holds_privately(
            disk.temporary,
            Seq::empty(),
        ),
        WriteStep::SyncContent | WriteStep::Rename => disk.target == start.target
            && holds_privately(disk.temporary, content),
        WriteStep::SyncDirectory | WriteStep::Succeeded => holds_privately(disk.target, content)
            && disk.temporary is None,
        WriteStep::RemoveTemporary | WriteStep::Failed => {
            &&& disk.target == start.target || holds_privately(disk.target, content)
            &&& disk.temporary == start.temporary || (disk.temporary matches Some(file)
                ==> !state::shared_mode(file.mode))
        },
    }
}

proof fn lemma_consistent(
    content: Seq<u8>,
    steps: Seq<WriteStep>,
    oks: Seq<bool>,
    disks: Seq<Disk>,
    i: int,
)
    requires
        possible_run(content, steps, oks, disks),
        0 <= i < steps.len(),
    ensures
        consistent(steps[i], disks[0], content, disks[i]),
    decreases i,
{
    if i > 0 {
        lemma_consistent(content, steps, oks, disks, i - 1);
        assert(steps[i] == steps[i - 1].following(oks[i - 1]));
        state::law_private_mode_is_private();
    }
}

/// At every moment of a write the target is either what it was before or holds
/// the whole new content, for its owner alone.
pub proof fn law_target_is_old_or_new(
    content: Seq<u8>,
    steps: Seq<WriteStep>,
    oks: Seq<bool>,
    disks: Seq<Disk>,
    i: int,
)
    requires
        possible_run(content, steps, oks, disks),
        0 <= i < steps.len(),
    ensures
        disks[i].target == disks[0].target || holds_privately(disks[i].target, content),
{
    lemma_consistent(content, steps, oks, disks, i);
}

/// The new content is never open to others than its owner: at no moment of a
/// write is the temporary file, if it was not there before.
pub proof fn law_temporary_is_private(
    content: Seq<u8>,
    steps: Seq<WriteStep>,
    oks: Seq<bool>,
    disks: Seq<Disk>,
    i: int,
)
    requires
        possible_run(content, steps, oks, disks),
        0 <= i < steps.len(),
        disks[0].temporary is None,
    ensures
        disks[i].temporary matches Some(file) ==> !state::shared_mode(file.mode),
{
    lemma_consistent(content, steps, oks, disks, i);
}

/// A write that succeeded left the new content, for its owner alone, and no
/// temporary file.
pub proof fn law_success_is_complete(
    content: Seq<u8>,
    steps: Seq<WriteStep>,
    oks: Seq<bool>,
    disks: Seq<Disk>,
    i: int,
)
    requires
        possible_run(content, steps, oks, disks),
        0 <= i < steps.len(),
        steps[i] is Succeeded,
    ensures
        holds_privately(disks[i].target, content),
        disks[i].temporary is None,
{
    lemma_consistent(content, steps, oks, disks, i);
}

/// A write that failed left no temporary file, if there was none before and
/// one that is there can be removed.
pub proof fn law_failure_leaves_nothing(
    content: Seq<u8>,
    steps: Seq<WriteStep>,
    oks: Seq<bool>,
    disks: Seq<Disk>,
    i: int,
)
    requires
        possible_run(content, steps, oks, disks),
        0 <= i < steps.len(),
        steps[i] is Failed,
        disks[0].temporary is None,
        forall|k: int|
            0 <= k < steps.len() && #[trigger] steps[k] is RemoveTemporary
                && disks[k].temporary is Some ==> oks[k],
    ensures
        disks[i].temporary is None,
    decreases i,
{
    if i > 0 {
        assert(steps[i] == steps[i - 1].following(oks[i - 1]));
        lemma_consistent(content, steps, oks, disks, i - 1);
        if steps[i - 1] is Failed {
            law_failure_leaves_nothing(content, steps, oks, disks, i - 1);
        }
    }
}

/// Every write ends: after seven reports nothing is left to do.
pub proof fn law_write_ends(
    content: Seq<u8>,
    steps: Seq<WriteStep>,
    oks: Seq<bool>,
    disks: Seq<Disk>,
    i: int,
)
    requires
        possible_run(content, steps, oks, disks),
        7 <= i < steps.len(),
    ensures
        steps[i].last(),
{
    lemma_rank(content, steps, oks, disks, i);
}

spec fn rank(step: WriteStep) -> int {
    match step {
        WriteStep::CreateDirectory => 0,
        WriteStep::CreateTemporary { mode } => 1,
        WriteStep::WriteContent => 2,
        WriteStep::SyncContent => 3,
        WriteStep::Rename => 4,
        WriteStep::SyncDirectory => 5,
        WriteStep::RemoveTemporary => 6,
        WriteStep::Succeeded | WriteStep::Failed => 7,
    }
}

proof fn lemma_rank(
    content: Seq<u8>,
    steps: Seq<WriteStep>,
    oks: Seq<bool>,
    disks: Seq<Disk>,
    i: int,
)
    requires
        possible_run(content, steps, oks, disks),
        0 <= i < steps.len(),
    ensures
        rank(steps[i]) >= i || steps[i].last(),
    decreases i,
{
    if i > 0 {
        lemma_rank(content, steps, oks, disks, i - 1);
        assert(steps[i] == steps[i - 1].following(oks[i - 1]));
    }
}

/// A write succeeds exactly if every step of it went well, and then it took all
/// of them, in this order: the content is on the disk before it takes the place
/// of the target.
pub proof fn law_success_takes_every_step(
    content: Seq<u8>,
    steps: Seq<WriteStep>,
    oks: Seq<bool>,
    disks: Seq<Disk>,
)
    requires
        possible_run(content, steps, oks, disks),
        steps.len() > 6,
    ensures
        steps[6] is Succeeded <==> oks[0] && oks[1] && oks[2] && oks[3] && oks[4] && oks[5],
        steps[6] is Succeeded ==> {
            &&& steps[0] is CreateDirectory
            &&& steps[1] == (WriteStep::CreateTemporary { mode: 0o600 })
            &&& steps[2] is WriteContent
            &&& steps[3] is SyncContent
            &&& steps[4] is Rename
            &&& steps[5] is SyncDirectory
        },
{
    assert(steps[1] == steps[0].following(oks[0]));
    assert(steps[2] == steps[1].following(oks[1]));
    assert(steps[3] == steps[2].following(oks[2]));
    assert(steps[4] == steps[3].following(oks[3]));
    assert(steps[5] == steps[4].following(oks[4]));
    assert(steps[6] == steps[5].following(oks[5]));
}

/// A step that fails once the temporary file may be there is followed by its
/// removal, and then the write has failed, however the removal went. Without a
/// directory it fails at once.
pub proof fn law_failed_step_cleans_up(step: WriteStep, ok: bool)
    ensures
        step is CreateDirectory ==> step.following(false) is Failed,
        step is CreateTemporary || step is WriteContent || step is SyncContent || step is Rename
            || step is SyncDirectory ==> step.following(false) is RemoveTemporary,
        step is RemoveTemporary ==> step.following(ok) is Failed,
        step is Succeeded || step is Failed ==> step.following(ok) == step,
{
}

/// The name of the temporary file is that of the target between a dot and
/// `.tmp-` with the number, so that different numbers give different files.
pub proof fn law_temporary_names(name: Seq<char>, a: u64, b: u64)
    ensures
        temporary_name(name, a) == "."@ + name + ".tmp-"@ + text::decimal_digits(a as nat),
        temporary_name(name, a) == temporary_name(name, b) ==> a == b,
{
    if temporary_name(name, a) == temporary_name(name, b) {
        let start = "."@ + name + ".tmp-"@;
        text::law_decimal_digits(a as nat);
        text::law_decimal_digits(b as nat);
        assert(temporary_name(name, a).skip(start.len() as int) =~= text::decimal_digits(
            a as nat,
        ));
        assert(temporary_name(name, b).skip(start.len() as int) =~= text::decimal_digits(
            b as nat,
        ));
    }
}

} // verus!

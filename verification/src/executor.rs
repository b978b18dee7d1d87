//! The transcode executor's decisions: when a re-encoded file replaces the
//! original, and how it is moved safely across filesystem devices.
//!
//! The caller runs the encoder and the filesystem operations; this module
//! decides them. A replace happens only when asked for and only when the
//! encode shrank the file. The move plan removes any stale destination
//! first, then — on one device — renames atomically, or — across devices —
//! copies before it removes the original, so a failed copy leaves the
//! original untouched.

use vstd::prelude::*;
use crate::errors::TriageError;
use crate::video::Video;

verus! {

/// One filesystem step of a safe replace, in the order planned.
#[derive(Clone, Copy, PartialEq, Eq, Debug, Structural)]
pub enum FileOp {
    /// Remove a pre-existing file at the destination path.
    RemoveDest,
    /// Rename the source onto the destination (same device only).
    Rename,
    /// Copy the source's bytes to the destination.
    CopyToDest,
    /// Remove the source file, once its bytes are at the destination.
    RemoveSource,
}

/// The steps that move a file onto `dst`: a same-device move renames, a
/// cross-device move copies and then deletes the original.
pub open spec fn spec_move_plan(src_dev: u64, dst_dev: u64) -> Seq<FileOp> {
    if src_dev == dst_dev {
        seq![FileOp::RemoveDest, FileOp::Rename]
    } else {
        seq![FileOp::RemoveDest, FileOp::CopyToDest, FileOp::RemoveSource]
    }
}

/// Plans the move of a re-encoded file onto the original's path, given the
/// device identifiers of both sides.
pub fn plan_move(src_dev: u64, dst_dev: u64) -> (r: Vec<FileOp>)
    ensures
        r@ == spec_move_plan(src_dev, dst_dev),
{
    let mut plan: Vec<FileOp> = Vec::new();
    plan.push(FileOp::RemoveDest);
    if src_dev == dst_dev {
        plan.push(FileOp::Rename);
        proof {
            assert(plan@ =~= spec_move_plan(src_dev, dst_dev));
        }
    } else {
        plan.push(FileOp::CopyToDest);
        plan.push(FileOp::RemoveSource);
        proof {
            assert(plan@ =~= spec_move_plan(src_dev, dst_dev));
        }
    }
    plan
}

/// Law: every move plan removes the source only after the step that put
/// its content at the destination, and it renames only on one device. A
/// caller that executes the plan in order and stops at the first failure
/// therefore never loses the original to a failed copy.
pub proof fn lemma_source_survives_failed_copy(src_dev: u64, dst_dev: u64)
    ensures
        forall|i: int|
            0 <= i < spec_move_plan(src_dev, dst_dev).len() && spec_move_plan(src_dev, dst_dev)[i]
                == FileOp::RemoveSource ==> exists|j: int|
                0 <= j < i && spec_move_plan(src_dev, dst_dev)[j] == FileOp::CopyToDest,
        forall|i: int|
            0 <= i < spec_move_plan(src_dev, dst_dev).len() && spec_move_plan(src_dev, dst_dev)[i]
                == FileOp::Rename ==> src_dev == dst_dev,
{
    let plan = spec_move_plan(src_dev, dst_dev);
    assert forall|i: int|
        0 <= i < plan.len() && plan[i] == FileOp::RemoveSource implies exists|j: int|
        0 <= j < i && plan[j] == FileOp::CopyToDest by {
        assert(plan[1] == FileOp::CopyToDest);
    }
}

/// Whether the original is replaced: only when asked for, and only when
/// the encode made the file smaller.
pub fn should_replace(replace: bool, old_size: u64, new_size: u64) -> (r: bool)
    ensures
        r == (replace && old_size > new_size),
{
    replace && old_size > new_size
}

/// The single-file mode gate: a lone input that is not oversized is a
/// run-level failure — there is nothing useful to do — and no encoder is
/// started for it.
pub fn single_file_check(v: &Video) -> (r: Result<(), TriageError>)
    ensures
        r is Ok <==> v.spec_is_over_sized(),
        r matches Err(e) ==> e == TriageError::NothingToDo,
{
    if v.is_over_sized() {
        Ok(())
    } else {
        Err(TriageError::NothingToDo)
    }
}

} // verus!

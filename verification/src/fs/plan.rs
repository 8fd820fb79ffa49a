//! What is asked of a file system, step by step.
//!
//! Decisions are made from what a file system was found to hold, and come out
//! as steps to take in order.

use vstd::prelude::*;

verus! {

/// How file data is written.
#[derive(Debug, Clone, Copy, PartialEq, Eq, Structural)]
pub enum WriteMethod {
    /// Runs of zeros become holes.
    Sparse,
    /// Over the old data, in the same inode.
    InPlace,
    /// Through a stream, then put in place at once.
    Streaming,
    /// Whole, then put in place at once.
    Whole,
    /// Behind the old data.
    Append,
}

/// One thing to do.
#[derive(Debug)]
pub enum FsAction {
    MakeDir { path: Vec<u8>, mode: u32 },
    Rename { from: Vec<u8>, to: Vec<u8> },
    Write { path: Vec<u8>, mode: Option<u32>, method: WriteMethod },
    SetTimes { path: Vec<u8>, mtime: i64, nsec: u32 },
    SetOwner { path: Vec<u8>, uid: u32, gid: u32 },
    RemoveFile { path: Vec<u8> },
    RemoveDir { path: Vec<u8> },
    HardLink { from: Vec<u8>, to: Vec<u8> },
    CopyFile { from: Vec<u8>, to: Vec<u8> },
    SymLink { target: Vec<u8>, path: Vec<u8> },
}

/// The view of an [`FsAction`].
#[verifier::ext_equal]
pub enum FsActionView {
    MakeDir { path: Seq<u8>, mode: u32 },
    Rename { from: Seq<u8>, to: Seq<u8> },
    Write { path: Seq<u8>, mode: Option<u32>, method: WriteMethod },
    SetTimes { path: Seq<u8>, mtime: i64, nsec: u32 },
    SetOwner { path: Seq<u8>, uid: u32, gid: u32 },
    RemoveFile { path: Seq<u8> },
    RemoveDir { path: Seq<u8> },
    HardLink { from: Seq<u8>, to: Seq<u8> },
    CopyFile { from: Seq<u8>, to: Seq<u8> },
    SymLink { target: Seq<u8>, path: Seq<u8> },
}

impl View for FsAction {
    type V = FsActionView;

    open spec fn view(&self) -> FsActionView {
        match *self {
            FsAction::MakeDir { path, mode } => FsActionView::MakeDir { path: path@, mode },
            FsAction::Rename { from, to } => FsActionView::Rename { from: from@, to: to@ },
            FsAction::Write { path, mode, method } => FsActionView::Write {
                path: path@,
                mode,
                method,
            },
            FsAction::SetTimes { path, mtime, nsec } => FsActionView::SetTimes {
                path: path@,
                mtime,
                nsec,
            },
            FsAction::SetOwner { path, uid, gid } => FsActionView::SetOwner {
                path: path@,
                uid,
                gid,
            },
            FsAction::RemoveFile { path } => FsActionView::RemoveFile { path: path@ },
            FsAction::RemoveDir { path } => FsActionView::RemoveDir { path: path@ },
            FsAction::HardLink { from, to } => FsActionView::HardLink { from: from@, to: to@ },
            FsAction::CopyFile { from, to } => FsActionView::CopyFile { from: from@, to: to@ },
            FsAction::SymLink { target, path } => FsActionView::SymLink {
                target: target@,
                path: path@,
            },
        }
    }
}

/// An action, and whether its failure ends the whole.
#[derive(Debug)]
pub struct Step {
    pub action: FsAction,
    pub required: bool,
}

/// The view of a [`Step`].
#[verifier::ext_equal]
pub struct StepView {
    pub action: FsActionView,
    pub required: bool,
}

impl View for Step {
    type V = StepView;

    open spec fn view(&self) -> StepView {
        StepView { action: self.action@, required: self.required }
    }
}

/// The views of steps.
pub open spec fn step_views(s: Seq<Step>) -> Seq<StepView> {
    Seq::new(s.len(), |i: int| s[i]@)
}

/// A step whose failure ends the whole.
pub open spec fn must(action: FsActionView) -> StepView {
    StepView { action, required: true }
}

/// A step whose failure is only reported.
pub open spec fn may(action: FsActionView) -> StepView {
    StepView { action, required: false }
}

/// Appends a step.
pub fn push_step(steps: &mut Vec<Step>, action: FsAction, required: bool)
    ensures
        step_views(final(steps)@) == step_views(old(steps)@).push(
            StepView { action: action@, required },
        ),
{
    let ghost had = step_views(steps@);
    let ghost v = StepView { action: action@, required };
    steps.push(Step { action, required });
    assert(step_views(steps@) =~= had.push(v));
}

/// Appends steps.
pub fn push_steps(steps: &mut Vec<Step>, mut more: Vec<Step>)
    ensures
        step_views(final(steps)@) == step_views(old(steps)@) + step_views(more@),
{
    let ghost a = step_views(steps@);
    let ghost b = step_views(more@);
    steps.append(&mut more);
    assert(step_views(steps@) =~= a + b);
}

} // verus!

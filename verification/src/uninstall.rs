//! The self-removal engine's decision logic: the Y/N confirmation, the
//! order of the uninstall steps, and which files the artifact-deletion
//! step removes.
//!
//! Carrying the steps out (registry write, file deletion, the self-delete
//! trick) happens outside the library; each step is best-effort, so the
//! machine advances whether a step succeeded or its failure was reported.

use vstd::prelude::*;
use vstd::string::StrSliceExecFns;

verus! {

/// A parsed answer to the uninstall confirmation prompt.
#[derive(PartialEq, Eq, Structural, Clone, Copy, Debug)]
pub enum ConfirmAnswer {
    Yes,
    No,
    /// Anything that is not exactly `Y` or `N`; the prompt is asked again.
    Invalid,
}

/// The states of one uninstall run.
#[derive(PartialEq, Eq, Structural, Clone, Copy, Debug)]
pub enum UninstallState {
    Confirming,
    RemovingPathEntry,
    DeletingArtifacts,
    SelfDeleting,
    Done,
    Cancelled,
}

/// The outside work one state asks for.
#[derive(PartialEq, Eq, Structural, Clone, Copy, Debug)]
pub enum UninstallAction {
    AskConfirmation,
    RemovePathEntry,
    DeleteArtifacts,
    SelfDelete,
}

/// What the artifact-deletion step removes, in order.
#[derive(PartialEq, Eq, Structural, Clone, Copy, Debug)]
pub enum RemovalItem {
    InstallerExe,
    VersionMarker,
    BinDir,
}

/// A prompt answer with one trailing line feed, and a carriage return
/// before it, removed.
pub open spec fn stripped(s: Seq<char>) -> Seq<char> {
    let t = if s.len() > 0 && s.last() == '\n' {
        s.drop_last()
    } else {
        s
    };
    if t.len() > 0 && t.last() == '\r' {
        t.drop_last()
    } else {
        t
    }
}

/// The answer a raw prompt line denotes: only the exact letter `Y`
/// confirms and only the exact letter `N` declines; anything else, a
/// lowercase letter included, is invalid and re-asked.
pub open spec fn spec_confirm(s: Seq<char>) -> ConfirmAnswer {
    let t = stripped(s);
    if t == seq!['Y'] {
        ConfirmAnswer::Yes
    } else if t == seq!['N'] {
        ConfirmAnswer::No
    } else {
        ConfirmAnswer::Invalid
    }
}

/// Parses one raw line read from the confirmation prompt.
pub fn parse_confirm(raw: &str) -> (a: ConfirmAnswer)
    ensures
        a == spec_confirm(raw@),
{
    let len = raw.unicode_len();
    let mut end = len;
    if end > 0 && raw.get_char(end - 1) == '\n' {
        end = end - 1;
    }
    if end > 0 && raw.get_char(end - 1) == '\r' {
        end = end - 1;
    }
    proof {
        assert(stripped(raw@) =~= raw@.subrange(0, end as int));
    }
    if end == 1 {
        let c = raw.get_char(0);
        proof {
            let t = stripped(raw@);
            assert(t =~= seq![raw@[0]]);
            assert(t[0] == raw@[0]);
            assert(seq!['Y'][0] == 'Y');
            assert(seq!['N'][0] == 'N');
        }
        if c == 'Y' {
            ConfirmAnswer::Yes
        } else if c == 'N' {
            ConfirmAnswer::No
        } else {
            ConfirmAnswer::Invalid
        }
    } else {
        proof {
            assert(stripped(raw@).len() != 1);
        }
        ConfirmAnswer::Invalid
    }
}

/// The state after the confirmation prompt was answered: `Yes` starts the
/// removal, `No` cancels, an invalid answer asks again.
pub open spec fn spec_confirm_next(a: ConfirmAnswer) -> UninstallState {
    match a {
        ConfirmAnswer::Yes => UninstallState::RemovingPathEntry,
        ConfirmAnswer::No => UninstallState::Cancelled,
        ConfirmAnswer::Invalid => UninstallState::Confirming,
    }
}

/// Applies one answer to the confirmation state.
pub fn confirm_next(a: ConfirmAnswer) -> (s: UninstallState)
    ensures
        s == spec_confirm_next(a),
{
    match a {
        ConfirmAnswer::Yes => UninstallState::RemovingPathEntry,
        ConfirmAnswer::No => UninstallState::Cancelled,
        ConfirmAnswer::Invalid => UninstallState::Confirming,
    }
}

/// The outside work each state asks for; the two final states ask for
/// none.
pub open spec fn spec_state_action(s: UninstallState) -> Option<UninstallAction> {
    match s {
        UninstallState::Confirming => Some(UninstallAction::AskConfirmation),
        UninstallState::RemovingPathEntry => Some(UninstallAction::RemovePathEntry),
        UninstallState::DeletingArtifacts => Some(UninstallAction::DeleteArtifacts),
        UninstallState::SelfDeleting => Some(UninstallAction::SelfDelete),
        UninstallState::Done => None,
        UninstallState::Cancelled => None,
    }
}

/// The work to do in state `s`, or `None` when the run is over.
pub fn state_action(s: UninstallState) -> (a: Option<UninstallAction>)
    ensures
        a == spec_state_action(s),
{
    match s {
        UninstallState::Confirming => Some(UninstallAction::AskConfirmation),
        UninstallState::RemovingPathEntry => Some(UninstallAction::RemovePathEntry),
        UninstallState::DeletingArtifacts => Some(UninstallAction::DeleteArtifacts),
        UninstallState::SelfDeleting => Some(UninstallAction::SelfDelete),
        UninstallState::Done => None,
        UninstallState::Cancelled => None,
    }
}

/// The state after the current state's work was attempted. Every failure
/// is only reported, so the machine moves on regardless; the confirmation
/// state advances through [`confirm_next`] instead, and the final states
/// stay where they are.
pub open spec fn spec_advance(s: UninstallState) -> UninstallState {
    match s {
        UninstallState::Confirming => UninstallState::Confirming,
        UninstallState::RemovingPathEntry => UninstallState::DeletingArtifacts,
        UninstallState::DeletingArtifacts => UninstallState::SelfDeleting,
        UninstallState::SelfDeleting => UninstallState::Done,
        UninstallState::Done => UninstallState::Done,
        UninstallState::Cancelled => UninstallState::Cancelled,
    }
}

/// Moves the machine past the current state's attempted work.
pub fn advance(s: UninstallState) -> (n: UninstallState)
    ensures
        n == spec_advance(s),
{
    match s {
        UninstallState::Confirming => UninstallState::Confirming,
        UninstallState::RemovingPathEntry => UninstallState::DeletingArtifacts,
        UninstallState::DeletingArtifacts => UninstallState::SelfDeleting,
        UninstallState::SelfDeleting => UninstallState::Done,
        UninstallState::Done => UninstallState::Done,
        UninstallState::Cancelled => UninstallState::Cancelled,
    }
}

/// How many advances a state is away from a final state.
pub open spec fn steps_left(s: UninstallState) -> nat {
    match s {
        UninstallState::Confirming => 0,
        UninstallState::RemovingPathEntry => 3,
        UninstallState::DeletingArtifacts => 2,
        UninstallState::SelfDeleting => 1,
        UninstallState::Done => 0,
        UninstallState::Cancelled => 0,
    }
}

/// The actions a run performs from state `s` on, doing each state's work
/// and advancing until a final state.
pub open spec fn remaining_actions(s: UninstallState) -> Seq<UninstallAction>
    decreases steps_left(s),
{
    if s is Done || s is Cancelled || s is Confirming {
        Seq::empty()
    } else {
        seq![spec_state_action(s)->0] + remaining_actions(spec_advance(s))
    }
}

/// Law: a confirmed uninstall performs exactly the PATH-entry removal,
/// then the artifact deletion, then the self-deletion — the self-deletion
/// strictly last, after all other cleanup; a declined uninstall performs
/// nothing.
pub proof fn lemma_confirmed_run_order()
    ensures
        remaining_actions(spec_confirm_next(ConfirmAnswer::Yes)) =~= seq![
            UninstallAction::RemovePathEntry,
            UninstallAction::DeleteArtifacts,
            UninstallAction::SelfDelete,
        ],
        remaining_actions(spec_confirm_next(ConfirmAnswer::No)) =~= Seq::<
            UninstallAction,
        >::empty(),
{
    assert(remaining_actions(UninstallState::Done) =~= Seq::<UninstallAction>::empty());
    assert(remaining_actions(UninstallState::SelfDeleting) =~= seq![
        UninstallAction::SelfDelete,
    ]);
    assert(remaining_actions(UninstallState::DeletingArtifacts) =~= seq![
        UninstallAction::DeleteArtifacts,
        UninstallAction::SelfDelete,
    ]);
}

/// The file deletions of the artifact-deletion step: nothing when the
/// install directory does not exist; otherwise the installer executable,
/// the version marker file, and the whole `bin` directory tree, in that
/// order.
pub fn cleanup_files(dir_exists: bool) -> (r: Vec<RemovalItem>)
    ensures
        dir_exists ==> r@ == seq![
            RemovalItem::InstallerExe,
            RemovalItem::VersionMarker,
            RemovalItem::BinDir,
        ],
        !dir_exists ==> r@ == Seq::<RemovalItem>::empty(),
{
    let mut r: Vec<RemovalItem> = Vec::new();
    if dir_exists {
        r.push(RemovalItem::InstallerExe);
        r.push(RemovalItem::VersionMarker);
        r.push(RemovalItem::BinDir);
        proof {
            assert(r@ =~= seq![
                RemovalItem::InstallerExe,
                RemovalItem::VersionMarker,
                RemovalItem::BinDir,
            ]);
        }
    } else {
        proof {
            assert(r@ =~= Seq::<RemovalItem>::empty());
        }
    }
    r
}

} // verus!

use vstd::prelude::*;
use vstd::string::StringExecFns;
use crate::path::{path_text, relativize, SyncPath};
use crate::structs::decision::{after, Decision, DecisionView, Reason};
use crate::structs::meta::FileProbe;

verus! {

/// What a run does for one entry.
#[derive(Debug, PartialEq, Eq)]
pub enum Action {
    /// Make sure that the directory at this target path exists.
    CreateDir(SyncPath),
    /// Carry out the decision taken for the file at this source path, for
    /// the reason given.
    File(SyncPath, Decision, Reason),
}

/// An action with its paths as component sequences.
pub enum ActionView {
    CreateDir(Seq<Seq<char>>),
    File(Seq<Seq<char>>, DecisionView, Reason),
}

/// A change to be made on disk.
#[derive(Debug, PartialEq, Eq)]
pub enum Operation {
    /// Create the directory, with the directories above it.
    CreateDir(SyncPath),
    /// Copy the whole file from the first path to the second, keeping its
    /// modification time.
    CopyFile(SyncPath, SyncPath),
}

/// An operation with its paths as component sequences.
pub enum OperationView {
    CreateDir(Seq<Seq<char>>),
    CopyFile(Seq<Seq<char>>, Seq<Seq<char>>),
}

impl View for Action {
    type V = ActionView;

    open spec fn view(&self) -> ActionView {
        match self {
            Action::CreateDir(t) => ActionView::CreateDir(t@),
            Action::File(s, d, reason) => ActionView::File(s@, d@, *reason),
        }
    }
}

impl View for Operation {
    type V = OperationView;

    open spec fn view(&self) -> OperationView {
        match self {
            Operation::CreateDir(t) => OperationView::CreateDir(t@),
            Operation::CopyFile(from, to) => OperationView::CopyFile(from@, to@),
        }
    }
}

/// The part of `path` below `root`, or all of `path` where it does not lie
/// under `root`.
pub open spec fn shown_below(path: Seq<Seq<char>>, root: Seq<Seq<char>>) -> Seq<Seq<char>> {
    if root.is_prefix_of(path) {
        path.skip(root.len() as int)
    } else {
        path
    }
}

impl ActionView {
    /// The change on disk that the action asks for. A simulated run
    /// changes nothing; in a real run a skipped file changes nothing.
    pub open spec fn operation(self, simulate: bool) -> Option<OperationView> {
        if simulate {
            None
        } else {
            match self {
                ActionView::CreateDir(t) => Some(OperationView::CreateDir(t)),
                ActionView::File(_, DecisionView::Skip, _) => None,
                ActionView::File(_, DecisionView::CopyForward(s, t), _) => Some(
                    OperationView::CopyFile(s, t),
                ),
                ActionView::File(_, DecisionView::CopyBackward(t, s), _) => Some(
                    OperationView::CopyFile(t, s),
                ),
            }
        }
    }

    /// The line that reports the action. A directory is named by its
    /// path below the target root, or by its whole path where it does not
    /// lie under that root; a file is named by its whole paths, followed
    /// by the reason. The line does not depend on whether the run is
    /// simulated.
    pub open spec fn line(self, target_root: Seq<Seq<char>>) -> Seq<char> {
        match self {
            ActionView::CreateDir(t) => "[D]: "@ + path_text(shown_below(t, target_root))
                + " 생성"@,
            ActionView::File(f, DecisionView::Skip, reason) => "[F]: "@ + path_text(f)
                + " 건너뛰기"@ + reason.spec_note(),
            ActionView::File(_, DecisionView::CopyForward(s, t), reason) => "[F]: "@ + path_text(s)
                + " -> "@ + path_text(t) + reason.spec_note(),
            ActionView::File(_, DecisionView::CopyBackward(t, s), reason) => "[F]: "@ + path_text(
                s,
            ) + " <- "@ + path_text(t) + reason.spec_note(),
        }
    }
}

/// What is found at the two ends of an entry once a run has dealt with its
/// action: a simulated run leaves everything as it was; in a real run a
/// copy leaves the overwritten side with the size and the time of the
/// other side.
pub open spec fn probe_after(action: ActionView, simulate: bool, probe: FileProbe) -> FileProbe {
    match (action, probe.source) {
        (ActionView::File(_, decision, _), Some(source)) => if simulate {
            probe
        } else {
            let (source_after, target_after) = after(decision.outcome(), source, probe.target);
            FileProbe { source: Some(source_after), target: target_after }
        },
        _ => probe,
    }
}

impl Action {
    /// What is found at the two ends of the entry once a run has dealt
    /// with the action, given what was found before.
    pub fn probe_after(&self, simulate: bool, probe: FileProbe) -> (found: FileProbe)
        ensures
            found == probe_after(self@, simulate, probe),
    {
        if simulate {
            return probe;
        }
        match (self, probe.source, probe.target) {
            (Action::File(_, Decision::CopyForward(_, _), _), Some(source), _) => FileProbe {
                source: Some(source),
                target: Some(source),
            },
            (Action::File(_, Decision::CopyBackward(_, _), _), Some(_), Some(target)) => FileProbe {
                source: Some(target),
                target: Some(target),
            },
            _ => probe,
        }
    }

    /// The change on disk that the action asks for, `None` where it asks
    /// for none.
    pub fn operation(&self, simulate: bool) -> (op: Option<Operation>)
        ensures
            match op {
                Some(o) => self@.operation(simulate) == Some(o@),
                None => self@.operation(simulate).is_none(),
            },
    {
        if simulate {
            return None;
        }
        match self {
            Action::CreateDir(t) => Some(Operation::CreateDir(t.clone())),
            Action::File(_, Decision::Skip, _) => None,
            Action::File(_, Decision::CopyForward(s, t), _) => Some(
                Operation::CopyFile(s.clone(), t.clone()),
            ),
            Action::File(_, Decision::CopyBackward(t, s), _) => Some(
                Operation::CopyFile(t.clone(), s.clone()),
            ),
        }
    }

    /// The line that reports the action, for a run with the given target
    /// root.
    pub fn line(&self, target_root: &SyncPath) -> (text: String)
        ensures
            text@ == self@.line(target_root@),
    {
        match self {
            Action::CreateDir(t) => {
                let mut text = String::from_str("[D]: ");
                match relativize(t, target_root) {
                    Ok(below) => text.append(below.to_text().as_str()),
                    Err(_) => text.append(t.to_text().as_str()),
                }
                text.append(" 생성");
                text
            },
            Action::File(f, Decision::Skip, reason) => {
                let mut text = String::from_str("[F]: ");
                text.append(f.to_text().as_str());
                text.append(" 건너뛰기");
                text.append(reason.note());
                text
            },
            Action::File(_, Decision::CopyForward(s, t), reason) => {
                let mut text = String::from_str("[F]: ");
                text.append(s.to_text().as_str());
                text.append(" -> ");
                text.append(t.to_text().as_str());
                text.append(reason.note());
                text
            },
            Action::File(_, Decision::CopyBackward(t, s), reason) => {
                let mut text = String::from_str("[F]: ");
                text.append(s.to_text().as_str());
                text.append(" <- ");
                text.append(t.to_text().as_str());
                text.append(reason.note());
                text
            },
        }
    }
}

/// The views of a list of actions, in order.
pub open spec fn actions_view(actions: Seq<Action>) -> Seq<ActionView> {
    Seq::new(actions.len(), |i: int| actions[i]@)
}

/// What a run did, or would have done: one action per entry, in the order
/// of the traversal.
#[derive(Debug, PartialEq, Eq)]
pub struct SyncReport {
    pub actions: Vec<Action>,
    pub simulate: bool,
}

impl SyncReport {
    /// The line that closes the run.
    pub open spec fn spec_summary(&self) -> Seq<char> {
        if self.simulate {
            "시뮬레이션 완료 (실제로 복사되지 않음)"@
        } else {
            "파일 동기화 완료"@
        }
    }

    /// The line that closes the run: it tells a simulated run from a real
    /// one.
    pub fn summary(&self) -> (text: &'static str)
        ensures
            text@ == self.spec_summary(),
    {
        if self.simulate {
            "시뮬레이션 완료 (실제로 복사되지 않음)"
        } else {
            "파일 동기화 완료"
        }
    }

    /// The lines that report the actions, one per action, for a run with
    /// the given target root.
    pub fn lines(&self, target_root: &SyncPath) -> (lines: Vec<String>)
        ensures
            lines@.len() == self.actions@.len(),
            forall|i: int|
                0 <= i < lines@.len() ==> (#[trigger] lines@[i])@ == self.actions@[i]@.line(
                    target_root@,
                ),
    {
        let mut lines: Vec<String> = Vec::new();
        let mut i: usize = 0;
        while i < self.actions.len()
            invariant
                i <= self.actions.len(),
                lines@.len() == i,
                forall|k: int|
                    0 <= k < i ==> (#[trigger] lines@[k])@ == self.actions@[k]@.line(target_root@),
            decreases self.actions.len() - i,
        {
            lines.push(self.actions[i].line(target_root));
            i += 1;
        }
        lines
    }
}

} // verus!

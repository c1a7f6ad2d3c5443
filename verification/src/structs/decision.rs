use vstd::prelude::*;
use crate::enums::fallback_mode::FallbackMode;
use crate::enums::merge_mode::MergeMode;
use crate::path::SyncPath;
use crate::structs::meta::FileMeta;

verus! {

/// Which side, if any, overwrites the other.
#[derive(Debug, Clone, Copy, PartialEq, Eq, Structural)]
pub enum Outcome {
    Skip,
    Forward,
    Backward,
}

/// What is to happen to one file.
#[derive(Debug, PartialEq, Eq)]
pub enum Decision {
    /// Both sides stay as they are.
    Skip,
    /// Copy from the source path (first) to the target path (second).
    CopyForward(SyncPath, SyncPath),
    /// Copy from the target path (first) to the source path (second).
    CopyBackward(SyncPath, SyncPath),
}

/// A decision with its paths as component sequences.
pub enum DecisionView {
    Skip,
    CopyForward(Seq<Seq<char>>, Seq<Seq<char>>),
    CopyBackward(Seq<Seq<char>>, Seq<Seq<char>>),
}

impl View for Decision {
    type V = DecisionView;

    open spec fn view(&self) -> DecisionView {
        match self {
            Decision::Skip => DecisionView::Skip,
            Decision::CopyForward(s, t) => DecisionView::CopyForward(s@, t@),
            Decision::CopyBackward(t, s) => DecisionView::CopyBackward(t@, s@),
        }
    }
}

impl DecisionView {
    /// The side that wins under this decision.
    pub open spec fn outcome(self) -> Outcome {
        match self {
            DecisionView::Skip => Outcome::Skip,
            DecisionView::CopyForward(_, _) => Outcome::Forward,
            DecisionView::CopyBackward(_, _) => Outcome::Backward,
        }
    }
}

/// Why a file is copied or left alone.
#[derive(Debug, Clone, Copy, PartialEq, Eq, Structural)]
pub enum Reason {
    /// The target side has no such file.
    TargetMissing,
    /// Both sides hold the same file.
    SameFile,
    /// The policy lets the source side win.
    SourceWins,
    /// The policy lets the target side win.
    TargetWins,
    /// The file on the source side is larger.
    SourceBigger,
    /// The file on the target side is larger.
    TargetBigger,
    /// Both files have the same size.
    SameSize,
    /// The file on the source side was modified later.
    SourceNewer,
    /// The file on the target side was modified later.
    TargetNewer,
    /// The policy leaves differing files alone.
    SkipPolicy,
    /// Neither policy reaches a decision.
    Undecided,
}

impl Reason {
    /// The side that wins for this reason.
    pub open spec fn outcome(self) -> Outcome {
        match self {
            Reason::TargetMissing => Outcome::Forward,
            Reason::SameFile => Outcome::Skip,
            Reason::SourceWins => Outcome::Forward,
            Reason::TargetWins => Outcome::Backward,
            Reason::SourceBigger => Outcome::Forward,
            Reason::TargetBigger => Outcome::Backward,
            Reason::SameSize => Outcome::Skip,
            Reason::SourceNewer => Outcome::Forward,
            Reason::TargetNewer => Outcome::Backward,
            Reason::SkipPolicy => Outcome::Skip,
            Reason::Undecided => Outcome::Skip,
        }
    }

    /// What the line that reports a file says of the reason, after the
    /// paths.
    pub open spec fn spec_note(self) -> Seq<char> {
        match self {
            Reason::TargetMissing => " 복사"@,
            Reason::SameFile => " (파일 동일)"@,
            Reason::SourceWins => " 원본 덮어쓰기"@,
            Reason::TargetWins => " 대상 덮어쓰기"@,
            Reason::SourceBigger => " 덮어쓰기 (원본이 더 큼)"@,
            Reason::TargetBigger => " 덮어쓰기 (대상이 더 큼)"@,
            Reason::SameSize => " (파일 크기 동일)"@,
            Reason::SourceNewer => " 덮어쓰기 (원본이 더 최신)"@,
            Reason::TargetNewer => " 덮어쓰기 (대상이 더 최신)"@,
            Reason::SkipPolicy => " (병합 모드 skip)"@,
            Reason::Undecided => " (결정 불가)"@,
        }
    }

    /// What the line that reports a file says of the reason, after the
    /// paths.
    pub fn note(&self) -> (text: &'static str)
        ensures
            text@ == self.spec_note(),
    {
        match self {
            Reason::TargetMissing => " 복사",
            Reason::SameFile => " (파일 동일)",
            Reason::SourceWins => " 원본 덮어쓰기",
            Reason::TargetWins => " 대상 덮어쓰기",
            Reason::SourceBigger => " 덮어쓰기 (원본이 더 큼)",
            Reason::TargetBigger => " 덮어쓰기 (대상이 더 큼)",
            Reason::SameSize => " (파일 크기 동일)",
            Reason::SourceNewer => " 덮어쓰기 (원본이 더 최신)",
            Reason::TargetNewer => " 덮어쓰기 (대상이 더 최신)",
            Reason::SkipPolicy => " (병합 모드 skip)",
            Reason::Undecided => " (결정 불가)",
        }
    }
}

/// The larger file wins; equal sizes never lead to a copy.
pub open spec fn bigger_wins(source: FileMeta, target: FileMeta) -> Reason {
    if source.size > target.size {
        Reason::SourceBigger
    } else if target.size > source.size {
        Reason::TargetBigger
    } else {
        Reason::SameSize
    }
}

/// What one policy says of two differing files, `None` where it leaves
/// them undecided.
pub open spec fn resolve(policy: MergeMode, source: FileMeta, target: FileMeta) -> Option<Reason> {
    match policy {
        MergeMode::SOURCE => Some(Reason::SourceWins),
        MergeMode::TARGET => Some(Reason::TargetWins),
        MergeMode::BIGGER => Some(bigger_wins(source, target)),
        MergeMode::NEWER => if source.modified > target.modified {
            Some(Reason::SourceNewer)
        } else if target.modified > source.modified {
            Some(Reason::TargetNewer)
        } else {
            None
        },
        MergeMode::DIFFERENT => None,
        MergeMode::INTERVENTION => None,
        MergeMode::SKIP => Some(Reason::SkipPolicy),
    }
}

/// What becomes of two differing files: the merge policy decides, and
/// where it does not, the fallback policy does. A pair that both leave
/// undecided is skipped; with a terminal fallback there is no such pair.
pub open spec fn settle(
    merge: MergeMode,
    fallback: FallbackMode,
    source: FileMeta,
    target: FileMeta,
) -> Reason {
    match resolve(merge, source, target) {
        Some(reason) => reason,
        None => match resolve(fallback.spec_as_merge_mode(), source, target) {
            Some(reason) => reason,
            None => Reason::Undecided,
        },
    }
}

/// Why one file of the source tree is copied or left alone: copied
/// forward where the target lacks it, skipped where both sides hold the
/// same file, settled by the policies otherwise.
pub open spec fn reason_of(
    merge: MergeMode,
    fallback: FallbackMode,
    source: FileMeta,
    target: Option<FileMeta>,
) -> Reason {
    match target {
        None => Reason::TargetMissing,
        Some(t) => if source.same_as(t) {
            Reason::SameFile
        } else {
            settle(merge, fallback, source, t)
        },
    }
}

/// What becomes of one file of the source tree: the side that wins for
/// the reason that applies.
pub open spec fn outcome_of(
    merge: MergeMode,
    fallback: FallbackMode,
    source: FileMeta,
    target: Option<FileMeta>,
) -> Outcome {
    reason_of(merge, fallback, source, target).outcome()
}

/// The decision that carries out an outcome between two paths.
pub open spec fn decision_for(
    outcome: Outcome,
    source_path: Seq<Seq<char>>,
    target_path: Seq<Seq<char>>,
) -> DecisionView {
    match outcome {
        Outcome::Skip => DecisionView::Skip,
        Outcome::Forward => DecisionView::CopyForward(source_path, target_path),
        Outcome::Backward => DecisionView::CopyBackward(target_path, source_path),
    }
}

/// The metadata of the two sides once an outcome has been carried out by
/// a whole-file copy that keeps the modification time: the losing side
/// takes over the metadata of the winning side.
pub open spec fn after(outcome: Outcome, source: FileMeta, target: Option<FileMeta>) -> (
    FileMeta,
    Option<FileMeta>,
) {
    match outcome {
        Outcome::Skip => (source, target),
        Outcome::Forward => (source, Some(source)),
        Outcome::Backward => match target {
            Some(t) => (t, target),
            None => (source, target),
        },
    }
}

} // verus!

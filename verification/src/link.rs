//! The state machine of one link: what stands at the target decides which
//! steps create or remove the link, or why that is refused.

use vstd::prelude::*;
use crate::error::{EntryKind, EntryKindModel, Fault, StowError};
use crate::settings::LinkSettings;

verus! {

/// What the caller found out about a path by probing it. The answers are
/// taken as they are; `classify` only orders them.
#[derive(Debug, Clone, PartialEq, Eq)]
pub struct Probe {
    /// The path, followed through links, leads to an entry.
    pub exists: bool,
    /// The path itself is a symbolic link.
    pub is_symlink: bool,
    /// The canonical path the link leads to, where it can be resolved.
    pub resolved: Option<String>,
    pub is_file: bool,
    pub is_dir: bool,
    /// A description of the entry, used where it is of no other kind.
    pub kind: String,
}

/// The state of a target path at the moment of a decision.
#[derive(Debug, Clone, PartialEq, Eq)]
pub enum FilesystemState {
    Absent,
    Directory,
    RegularFile,
    SymlinkTo(String),
    BrokenSymlink,
    Other(String),
}

/// What the state of a target stands for.
pub enum StateModel {
    Absent,
    Directory,
    RegularFile,
    SymlinkTo(Seq<char>),
    BrokenSymlink,
    Other(Seq<char>),
}

impl View for FilesystemState {
    type V = StateModel;

    open spec fn view(&self) -> StateModel {
        match self {
            FilesystemState::Absent => StateModel::Absent,
            FilesystemState::Directory => StateModel::Directory,
            FilesystemState::RegularFile => StateModel::RegularFile,
            FilesystemState::SymlinkTo(p) => StateModel::SymlinkTo(p@),
            FilesystemState::BrokenSymlink => StateModel::BrokenSymlink,
            FilesystemState::Other(k) => StateModel::Other(k@),
        }
    }
}

/// The text of a string that may be left out.
pub open spec fn text_of(s: Option<String>) -> Option<Seq<char>> {
    match s {
        Some(t) => Some(t@),
        None => None,
    }
}

/// The state that a probe's answers amount to: a link is told apart first,
/// then absence, then a regular file, then a directory.
pub open spec fn classified(probe: Probe) -> StateModel {
    if probe.is_symlink {
        match probe.resolved {
            Some(p) => StateModel::SymlinkTo(p@),
            None => StateModel::BrokenSymlink,
        }
    } else if !probe.exists {
        StateModel::Absent
    } else if probe.is_file {
        StateModel::RegularFile
    } else if probe.is_dir {
        StateModel::Directory
    } else {
        StateModel::Other(probe.kind@)
    }
}

/// Everything a decision about one link rests on, gathered by the caller
/// just before the decision.
#[derive(Debug, Clone, PartialEq, Eq)]
pub struct Observation {
    pub state: FilesystemState,
    /// The canonical form of the link's source, where it resolves.
    pub source_canonical: Option<String>,
    /// The canonical form of what the target leads to, where it resolves.
    pub pointee_canonical: Option<String>,
    /// The directory that holds the target, where the target has one.
    pub parent: Option<String>,
}

/// What an observation stands for.
pub struct ObservationModel {
    pub state: StateModel,
    pub source_canonical: Option<Seq<char>>,
    pub pointee_canonical: Option<Seq<char>>,
    pub parent: Option<Seq<char>>,
}

impl View for Observation {
    type V = ObservationModel;

    open spec fn view(&self) -> ObservationModel {
        ObservationModel {
            state: self.state@,
            source_canonical: text_of(self.source_canonical),
            pointee_canonical: text_of(self.pointee_canonical),
            parent: text_of(self.parent),
        }
    }
}

/// One change to the filesystem.
#[derive(Debug, Clone, PartialEq, Eq)]
pub enum Step {
    /// Remove the file or link at the path.
    RemoveFile(String),
    /// Remove the directory at the path with all it holds.
    RemoveTree(String),
    /// Create the directory and every missing ancestor of it.
    CreateDirectories(String),
    /// Create a symbolic link at `target` that leads to `source`.
    CreateSymlink { source: String, target: String },
}

/// What a step stands for.
pub enum StepModel {
    RemoveFile(Seq<char>),
    RemoveTree(Seq<char>),
    CreateDirectories(Seq<char>),
    CreateSymlink { source: Seq<char>, target: Seq<char> },
}

impl View for Step {
    type V = StepModel;

    open spec fn view(&self) -> StepModel {
        match self {
            Step::RemoveFile(p) => StepModel::RemoveFile(p@),
            Step::RemoveTree(p) => StepModel::RemoveTree(p@),
            Step::CreateDirectories(p) => StepModel::CreateDirectories(p@),
            Step::CreateSymlink { source, target } => StepModel::CreateSymlink {
                source: source@,
                target: target@,
            },
        }
    }
}

/// The steps decided for one link. With `dry_run` set they are to be
/// announced and not carried out.
#[derive(Debug, Clone, PartialEq, Eq)]
pub struct Plan {
    pub steps: Vec<Step>,
    pub dry_run: bool,
}

impl Plan {
    /// What the steps of the plan stand for, in order.
    pub open spec fn steps_model(&self) -> Seq<StepModel> {
        Seq::new(self.steps@.len(), |i: int| self.steps@[i]@)
    }
}

/// How a target stands to its source.
#[derive(Debug, Clone, Copy, PartialEq, Eq, Structural)]
pub enum Status {
    Unlinked,
    Linked,
    LinkedElsewhere,
    BrokenSymlink,
    ConflictingDirectory,
    ConflictingFile,
    ConflictingOther,
}

/// Whether two paths name one file: their canonical forms are equal. Where
/// one of them has no canonical form the question has no answer, and the
/// first such path is reported.
pub open spec fn same_file(
    a: Seq<char>,
    a_canonical: Option<Seq<char>>,
    b: Seq<char>,
    b_canonical: Option<Seq<char>>,
) -> Result<bool, Fault> {
    match (a_canonical, b_canonical) {
        (None, _) => Err(Fault::Unresolvable(a)),
        (Some(_), None) => Err(Fault::Unresolvable(b)),
        (Some(x), Some(y)) => Ok(x == y),
    }
}

/// Decides whether two paths name one file, from their canonical forms.
pub fn files_are_the_same(
    a: &String,
    a_canonical: &Option<String>,
    b: &String,
    b_canonical: &Option<String>,
) -> (res: Result<bool, StowError>)
    ensures
        match same_file(a@, text_of(*a_canonical), b@, text_of(*b_canonical)) {
            Ok(same) => res == Ok::<bool, StowError>(same),
            Err(fault) => res is Err && res->Err_0@ == fault,
        },
{
    match a_canonical {
        None => Err(StowError::Unresolvable(a.clone())),
        Some(x) => match b_canonical {
            None => Err(StowError::Unresolvable(b.clone())),
            Some(y) => Ok(*x == *y),
        },
    }
}

/// The steps that make a link where nothing is left in the way: `cleared`
/// removes what was there, then the parent directories and the link are made.
pub open spec fn fresh_link(
    source: Seq<char>,
    target: Seq<char>,
    parent: Option<Seq<char>>,
    cleared: Seq<StepModel>,
) -> Result<Seq<StepModel>, Fault> {
    match parent {
        None => Err(Fault::NoParentDirectory(target)),
        Some(dir) => Ok(
            cleared + seq![
                StepModel::CreateDirectories(dir),
                StepModel::CreateSymlink { source: source, target: target },
            ],
        ),
    }
}

/// What creating the link from `target` to `source` takes, given what was
/// observed at the target and whether the target may be overwritten.
pub open spec fn link_plan(
    source: Seq<char>,
    target: Seq<char>,
    seen: ObservationModel,
    overridable: bool,
) -> Result<Seq<StepModel>, Fault> {
    match seen.state {
        StateModel::Absent => fresh_link(source, target, seen.parent, seq![]),
        StateModel::BrokenSymlink => fresh_link(
            source,
            target,
            seen.parent,
            seq![StepModel::RemoveFile(target)],
        ),
        StateModel::SymlinkTo(p) => match same_file(
            source,
            seen.source_canonical,
            p,
            seen.pointee_canonical,
        ) {
            Err(fault) => Err(fault),
            Ok(true) => Ok(seq![]),
            Ok(false) => if overridable {
                fresh_link(source, target, seen.parent, seq![StepModel::RemoveFile(target)])
            } else {
                Err(Fault::ExistingSymlinkMismatch { expected: source, actual: p })
            },
        },
        StateModel::Directory => if overridable {
            fresh_link(source, target, seen.parent, seq![StepModel::RemoveTree(target)])
        } else {
            Err(Fault::ExistingDifferentType(EntryKindModel::Directory))
        },
        StateModel::RegularFile => if overridable {
            fresh_link(source, target, seen.parent, seq![StepModel::RemoveFile(target)])
        } else {
            Err(Fault::ExistingDifferentType(EntryKindModel::RegularFile))
        },
        StateModel::Other(kind) => if overridable {
            fresh_link(source, target, seen.parent, seq![StepModel::RemoveFile(target)])
        } else {
            Err(Fault::ExistingDifferentType(EntryKindModel::Other(kind)))
        },
    }
}

/// What removing the link from `target` to `source` takes: the target is
/// removed only where it is a link that leads to the source.
pub open spec fn unlink_plan(
    source: Seq<char>,
    target: Seq<char>,
    seen: ObservationModel,
) -> Result<Seq<StepModel>, Fault> {
    match seen.state {
        StateModel::Absent => Err(Fault::NotLinked),
        StateModel::SymlinkTo(p) => match same_file(
            source,
            seen.source_canonical,
            p,
            seen.pointee_canonical,
        ) {
            Err(fault) => Err(fault),
            Ok(true) => Ok(seq![StepModel::RemoveFile(target)]),
            Ok(false) => Err(Fault::TargetMismatch),
        },
        _ => Err(Fault::TargetMismatch),
    }
}

/// How the target stands to the source, given what was observed.
pub open spec fn status_of(source: Seq<char>, seen: ObservationModel) -> Result<Status, Fault> {
    match seen.state {
        StateModel::Absent => Ok(Status::Unlinked),
        StateModel::Directory => Ok(Status::ConflictingDirectory),
        StateModel::RegularFile => Ok(Status::ConflictingFile),
        StateModel::BrokenSymlink => Ok(Status::BrokenSymlink),
        StateModel::Other(_) => Ok(Status::ConflictingOther),
        StateModel::SymlinkTo(p) => match same_file(
            source,
            seen.source_canonical,
            p,
            seen.pointee_canonical,
        ) {
            Err(fault) => Err(fault),
            Ok(true) => Ok(Status::Linked),
            Ok(false) => Ok(Status::LinkedElsewhere),
        },
    }
}

/// Whether a decision came out as the model says: the same steps, to be
/// carried out or announced as `dry_run` says, or the same failure.
pub open spec fn decided(
    res: Result<Plan, StowError>,
    model: Result<Seq<StepModel>, Fault>,
    dry_run: bool,
) -> bool {
    match model {
        Ok(steps) => res is Ok && res->Ok_0.steps_model() == steps && res->Ok_0.dry_run
            == dry_run,
        Err(fault) => res is Err && res->Err_0@ == fault,
    }
}

/// What would be observed at `target` once `step` has been carried out, where
/// `seen` was observed before it. A removal at the target leaves nothing
/// there; a link made at the target leads to the source, or is broken where
/// the source does not resolve; every other step leaves the target as it was.
pub open spec fn after_step(seen: ObservationModel, target: Seq<char>, step: StepModel) -> ObservationModel {
    match step {
        StepModel::RemoveFile(p) | StepModel::RemoveTree(p) => if p == target {
            ObservationModel { state: StateModel::Absent, pointee_canonical: None, ..seen }
        } else {
            seen
        },
        StepModel::CreateDirectories(_) => seen,
        StepModel::CreateSymlink { source: _, target: at } => if at == target {
            match seen.source_canonical {
                Some(c) => ObservationModel {
                    state: StateModel::SymlinkTo(c),
                    pointee_canonical: Some(c),
                    ..seen
                },
                None => ObservationModel {
                    state: StateModel::BrokenSymlink,
                    pointee_canonical: None,
                    ..seen
                },
            }
        } else {
            seen
        },
    }
}

/// What would be observed at `target` once all of `steps` have been carried
/// out in order.
pub open spec fn after_steps(
    seen: ObservationModel,
    target: Seq<char>,
    steps: Seq<StepModel>,
) -> ObservationModel
    decreases steps.len(),
{
    if steps.len() == 0 {
        seen
    } else {
        after_step(after_steps(seen, target, steps.drop_last()), target, steps.last())
    }
}

/// The target is a link that leads to the source.
pub open spec fn correctly_linked(seen: ObservationModel) -> bool {
    &&& seen.state is SymlinkTo
    &&& seen.source_canonical is Some
    &&& seen.pointee_canonical == seen.source_canonical
}

/// Making a link where nothing stands takes two steps, and leaves the target
/// leading to the source.
pub proof fn lemma_link_from_absent(source: Seq<char>, target: Seq<char>, seen: ObservationModel)
    requires
        seen.state is Absent,
        seen.parent is Some,
        seen.source_canonical is Some,
    ensures
        link_plan(source, target, seen, false) == link_plan(source, target, seen, true),
        link_plan(source, target, seen, false) is Ok,
        after_steps(seen, target, link_plan(source, target, seen, false)->Ok_0)
            == (ObservationModel {
            state: StateModel::SymlinkTo(seen.source_canonical->Some_0),
            pointee_canonical: seen.source_canonical,
            ..seen
        }),
{
    let steps = link_plan(source, target, seen, false)->Ok_0;
    let first = StepModel::CreateDirectories(seen.parent->Some_0);
    let second = StepModel::CreateSymlink { source: source, target: target };
    assert(steps =~= seq![first, second]);
    assert(steps.drop_last() =~= seq![first]);
    assert(steps.drop_last().drop_last() =~= Seq::<StepModel>::empty());
    reveal_with_fuel(after_steps, 3);
}

/// Removing a link that leads to its source takes one step, and leaves
/// nothing at the target.
pub proof fn lemma_unlink_from_linked(source: Seq<char>, target: Seq<char>, seen: ObservationModel)
    requires
        correctly_linked(seen),
    ensures
        unlink_plan(source, target, seen) == Ok::<Seq<StepModel>, Fault>(
            seq![StepModel::RemoveFile(target)],
        ),
        after_steps(seen, target, unlink_plan(source, target, seen)->Ok_0) == (ObservationModel {
            state: StateModel::Absent,
            pointee_canonical: None,
            ..seen
        }),
{
    let steps = seq![StepModel::RemoveFile(target)];
    assert(steps.drop_last() =~= Seq::<StepModel>::empty());
    reveal_with_fuel(after_steps, 2);
}

/// Round trip: where nothing stands at the target, the target has a parent
/// and the source resolves, creating the link and then removing it both
/// succeed, and nothing stands at the target afterwards.
pub proof fn lemma_link_then_unlink(
    source: Seq<char>,
    target: Seq<char>,
    seen: ObservationModel,
    overridable: bool,
)
    requires
        seen.state is Absent,
        seen.parent is Some,
        seen.source_canonical is Some,
    ensures
        link_plan(source, target, seen, overridable) is Ok,
        ({
            let linked = after_steps(
                seen,
                target,
                link_plan(source, target, seen, overridable)->Ok_0,
            );
            &&& correctly_linked(linked)
            &&& unlink_plan(source, target, linked) is Ok
            &&& after_steps(linked, target, unlink_plan(source, target, linked)->Ok_0).state
                is Absent
            &&& after_steps(linked, target, unlink_plan(source, target, linked)->Ok_0).parent
                == seen.parent
        }),
{
    lemma_link_from_absent(source, target, seen);
    let linked = after_steps(seen, target, link_plan(source, target, seen, overridable)->Ok_0);
    lemma_unlink_from_linked(source, target, linked);
}

/// Idempotence: creating a link that already leads to its source succeeds
/// with no step at all, so that the target is observed unchanged and a
/// second attempt decides the same.
pub proof fn lemma_link_is_idempotent(
    source: Seq<char>,
    target: Seq<char>,
    seen: ObservationModel,
    overridable: bool,
)
    requires
        correctly_linked(seen),
    ensures
        link_plan(source, target, seen, overridable) == Ok::<Seq<StepModel>, Fault>(seq![]),
        after_steps(seen, target, link_plan(source, target, seen, overridable)->Ok_0) == seen,
        link_plan(
            source,
            target,
            after_steps(seen, target, link_plan(source, target, seen, overridable)->Ok_0),
            overridable,
        ) == Ok::<Seq<StepModel>, Fault>(seq![]),
{
}

/// Removing a link that leads to its source and creating it again ends where
/// it began: the target leads to the source.
pub proof fn lemma_unlink_then_link(
    source: Seq<char>,
    target: Seq<char>,
    seen: ObservationModel,
    overridable: bool,
)
    requires
        correctly_linked(seen),
        seen.parent is Some,
    ensures
        unlink_plan(source, target, seen) is Ok,
        ({
            let removed = after_steps(seen, target, unlink_plan(source, target, seen)->Ok_0);
            &&& removed.state is Absent
            &&& link_plan(source, target, removed, overridable) is Ok
            &&& after_steps(
                removed,
                target,
                link_plan(source, target, removed, overridable)->Ok_0,
            ) == (ObservationModel {
                state: StateModel::SymlinkTo(seen.source_canonical->Some_0),
                ..seen
            })
        }),
{
    lemma_unlink_from_linked(source, target, seen);
    let removed = after_steps(seen, target, unlink_plan(source, target, seen)->Ok_0);
    lemma_link_from_absent(source, target, removed);
}

/// Conflict: a directory at the target that may not be overwritten refuses
/// the link, and no step is decided, so the directory stays as it is.
pub proof fn lemma_directory_conflicts(source: Seq<char>, target: Seq<char>, seen: ObservationModel)
    requires
        seen.state is Directory,
    ensures
        link_plan(source, target, seen, false) == Err::<Seq<StepModel>, Fault>(
            Fault::ExistingDifferentType(EntryKindModel::Directory),
        ),
{
}

/// Mismatch: a target that is a link to something other than the source is
/// not removed.
pub proof fn lemma_unlink_refuses_other_link(
    source: Seq<char>,
    target: Seq<char>,
    seen: ObservationModel,
)
    requires
        seen.state is SymlinkTo,
        seen.source_canonical is Some,
        seen.pointee_canonical is Some,
        seen.pointee_canonical != seen.source_canonical,
    ensures
        unlink_plan(source, target, seen) == Err::<Seq<StepModel>, Fault>(Fault::TargetMismatch),
{
}

/// The path at which a link is to stand.
#[derive(Debug)]
pub struct Target {
    pub path: String,
}

impl Target {
    /// A target at the given path.
    pub fn new(p_string: String) -> (res: Self)
        ensures
            res.path@ == p_string@,
    {
        Target { path: p_string }
    }

    /// Orders a probe's answers into the state of the target.
    pub fn file_type(&self, probe: &Probe) -> (res: FilesystemState)
        ensures
            res@ == classified(*probe),
    {
        if probe.is_symlink {
            match &probe.resolved {
                Some(p) => FilesystemState::SymlinkTo(p.clone()),
                None => FilesystemState::BrokenSymlink,
            }
        } else if !probe.exists {
            FilesystemState::Absent
        } else if probe.is_file {
            FilesystemState::RegularFile
        } else if probe.is_dir {
            FilesystemState::Directory
        } else {
            FilesystemState::Other(probe.kind.clone())
        }
    }

    /// The step that makes the directories above the target.
    pub fn create_parent_dir(&self, parent: &Option<String>) -> (res: Result<Step, StowError>)
        ensures
            match *parent {
                Some(dir) => res is Ok && res->Ok_0@ == StepModel::CreateDirectories(dir@),
                None => res is Err && res->Err_0@ == Fault::NoParentDirectory(self.path@),
            },
    {
        match parent {
            Some(dir) => Ok(Step::CreateDirectories(dir.clone())),
            None => Err(StowError::NoParentDirectory(self.path.clone())),
        }
    }
}

/// A source, the target that is to lead to it, and the settings of the run.
#[derive(Debug)]
pub struct Link<'a> {
    pub src: String,
    pub target: Target,
    pub settings: &'a LinkSettings,
}

impl<'a> Link<'a> {
    /// A link is made only for a source that exists.
    pub fn new(src: String, target: String, source_exists: bool, settings: &'a LinkSettings) -> (res:
        Result<Self, StowError>)
        ensures
            source_exists ==> res is Ok && res->Ok_0.src@ == src@ && res->Ok_0.target.path@
                == target@ && res->Ok_0.settings == settings,
            !source_exists ==> res is Err && res->Err_0@ == Fault::SourceMissing(src@),
    {
        if !source_exists {
            return Err(StowError::SourceMissing(src));
        }
        let target = Target::new(target);
        Ok(Link { src, target, settings })
    }

    fn fresh(&self, parent: &Option<String>, cleared: Vec<Step>) -> (res: Result<
        Plan,
        StowError,
    >)
        ensures
            decided(
                res,
                fresh_link(
                    self.src@,
                    self.target.path@,
                    text_of(*parent),
                    Seq::new(cleared@.len(), |i: int| cleared@[i]@),
                ),
                self.settings.spec_dry_run(),
            ),
    {
        let ghost before = Seq::new(cleared@.len(), |i: int| cleared@[i]@);
        let mut steps = cleared;
        let first = self.target.create_parent_dir(parent)?;
        steps.push(first);
        steps.push(Step::CreateSymlink { source: self.src.clone(), target: self.target.path.clone() });
        let plan = Plan { steps, dry_run: self.settings.dry_run() };
        proof {
            let dir = text_of(*parent)->Some_0;
            assert(plan.steps_model() =~= before + seq![
                StepModel::CreateDirectories(dir),
                StepModel::CreateSymlink { source: self.src@, target: self.target.path@ },
            ]);
        }
        Ok(plan)
    }

    fn clearing(&self, step: Step) -> (res: Vec<Step>)
        ensures
            Seq::new(res@.len(), |i: int| res@[i]@) == seq![step@],
    {
        let mut cleared: Vec<Step> = Vec::new();
        cleared.push(step);
        assert(Seq::new(cleared@.len(), |i: int| cleared@[i]@) =~= seq![step@]);
        cleared
    }

    fn nothing(&self) -> (res: Vec<Step>)
        ensures
            Seq::new(res@.len(), |i: int| res@[i]@) == Seq::<StepModel>::empty(),
    {
        let cleared: Vec<Step> = Vec::new();
        assert(Seq::new(cleared@.len(), |i: int| cleared@[i]@) =~= Seq::<StepModel>::empty());
        cleared
    }

    /// Decides how to create the link, given what was observed at the target
    /// and whether the target may be overwritten.
    pub fn link(&self, seen: &Observation, overridable: bool) -> (res: Result<Plan, StowError>)
        ensures
            decided(
                res,
                link_plan(self.src@, self.target.path@, seen@, overridable),
                self.settings.spec_dry_run(),
            ),
    {
        match &seen.state {
            FilesystemState::Absent => self.fresh(&seen.parent, self.nothing()),
            FilesystemState::BrokenSymlink => self.fresh(
                &seen.parent,
                self.clearing(Step::RemoveFile(self.target.path.clone())),
            ),
            FilesystemState::SymlinkTo(p) => {
                let same = files_are_the_same(
                    &self.src,
                    &seen.source_canonical,
                    p,
                    &seen.pointee_canonical,
                )?;
                if same {
                    let plan = Plan { steps: self.nothing(), dry_run: self.settings.dry_run() };
                    assert(plan.steps_model() =~= Seq::<StepModel>::empty());
                    Ok(plan)
                } else if overridable {
                    self.fresh(
                        &seen.parent,
                        self.clearing(Step::RemoveFile(self.target.path.clone())),
                    )
                } else {
                    Err(
                        StowError::ExistingSymlinkMismatch {
                            expected: self.src.clone(),
                            actual: p.clone(),
                        },
                    )
                }
            },
            FilesystemState::Directory => {
                if overridable {
                    self.fresh(
                        &seen.parent,
                        self.clearing(Step::RemoveTree(self.target.path.clone())),
                    )
                } else {
                    Err(StowError::ExistingDifferentType(EntryKind::Directory))
                }
            },
            FilesystemState::RegularFile => {
                if overridable {
                    self.fresh(
                        &seen.parent,
                        self.clearing(Step::RemoveFile(self.target.path.clone())),
                    )
                } else {
                    Err(StowError::ExistingDifferentType(EntryKind::RegularFile))
                }
            },
            FilesystemState::Other(kind) => {
                if overridable {
                    self.fresh(
                        &seen.parent,
                        self.clearing(Step::RemoveFile(self.target.path.clone())),
                    )
                } else {
                    Err(StowError::ExistingDifferentType(EntryKind::Other(kind.clone())))
                }
            },
        }
    }

    /// Decides how to remove the link, given what was observed at the target.
    pub fn unlink(&self, seen: &Observation) -> (res: Result<Plan, StowError>)
        ensures
            decided(
                res,
                unlink_plan(self.src@, self.target.path@, seen@),
                self.settings.spec_dry_run(),
            ),
    {
        match &seen.state {
            FilesystemState::Absent => Err(StowError::NotLinked),
            FilesystemState::SymlinkTo(p) => {
                let same = files_are_the_same(
                    &self.src,
                    &seen.source_canonical,
                    p,
                    &seen.pointee_canonical,
                )?;
                if same {
                    let steps = self.clearing(Step::RemoveFile(self.target.path.clone()));
                    let plan = Plan { steps, dry_run: self.settings.dry_run() };
                    assert(plan.steps_model() =~= seq![StepModel::RemoveFile(self.target.path@)]);
                    Ok(plan)
                } else {
                    Err(StowError::TargetMismatch)
                }
            },
            _ => Err(StowError::TargetMismatch),
        }
    }

    /// Says how the target stands to the source, given what was observed.
    pub fn status(&self, seen: &Observation) -> (res: Result<Status, StowError>)
        ensures
            match status_of(self.src@, seen@) {
                Ok(status) => res == Ok::<Status, StowError>(status),
                Err(fault) => res is Err && res->Err_0@ == fault,
            },
    {
        match &seen.state {
            FilesystemState::Absent => Ok(Status::Unlinked),
            FilesystemState::Directory => Ok(Status::ConflictingDirectory),
            FilesystemState::RegularFile => Ok(Status::ConflictingFile),
            FilesystemState::BrokenSymlink => Ok(Status::BrokenSymlink),
            FilesystemState::Other(_) => Ok(Status::ConflictingOther),
            FilesystemState::SymlinkTo(p) => {
                let same = files_are_the_same(
                    &self.src,
                    &seen.source_canonical,
                    p,
                    &seen.pointee_canonical,
                )?;
                if same {
                    Ok(Status::Linked)
                } else {
                    Ok(Status::LinkedElsewhere)
                }
            },
        }
    }
}

} // verus!

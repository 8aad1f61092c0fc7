//! Settings shared by every link of one run.

use vstd::prelude::*;
use crate::config::{join_path, joined};
use crate::error::{Fault, StowError};
use crate::filter::StowFilters;

verus! {

/// How links are to be made: for real or not, and where displaced entries
/// would be kept.
#[derive(Debug)]
pub struct LinkSettings {
    dry_run: bool,
    backup: Option<String>,
}

impl LinkSettings {
    /// Whether steps are only to be announced.
    pub closed spec fn spec_dry_run(&self) -> bool {
        self.dry_run
    }

    /// The directory for displaced entries, where one was set.
    pub closed spec fn spec_backup(&self) -> Option<Seq<char>> {
        match self.backup {
            Some(dir) => Some(dir@),
            None => None,
        }
    }

    /// Settings that keep what they are given.
    pub fn new(dry_run: bool, backup: Option<String>) -> (res: Self)
        ensures
            res.spec_dry_run() == dry_run,
            res.spec_backup() == (match backup {
                Some(dir) => Some(dir@),
                None => None,
            }),
    {
        LinkSettings { dry_run, backup }
    }

    /// Whether steps are only to be announced.
    pub fn dry_run(&self) -> (res: bool)
        ensures
            res == self.spec_dry_run(),
    {
        self.dry_run
    }

    /// The directory for displaced entries, where one was set.
    pub fn backup(&self) -> (res: &Option<String>)
        ensures
            (match *res {
                Some(dir) => Some(dir@),
                None => None,
            }) == self.spec_backup(),
    {
        &self.backup
    }
}

/// Everything one run is set up with.
#[derive(Debug)]
pub struct Settings {
    stowfile_path: String,
    current_working_dir: String,
    filters: StowFilters,
    link_settings: LinkSettings,
}

impl Settings {
    /// The path of the configuration file.
    pub closed spec fn spec_stowfile_path(&self) -> Seq<char> {
        self.stowfile_path@
    }

    /// The directory below which sources are looked for.
    pub closed spec fn spec_current_working_dir(&self) -> Seq<char> {
        self.current_working_dir@
    }

    /// The filters of the run.
    pub closed spec fn spec_filters(&self) -> StowFilters {
        self.filters
    }

    /// The settings that every link of the run shares.
    pub closed spec fn spec_link_settings(&self) -> LinkSettings {
        self.link_settings
    }

    /// The settings of a run; the link settings are made from `dry_run` and
    /// `backup`.
    pub fn new(
        stowfile_path: String,
        current_working_dir: String,
        dry_run: bool,
        backup: Option<String>,
        filters: StowFilters,
    ) -> (res: Self)
        ensures
            res.spec_stowfile_path() == stowfile_path@,
            res.spec_current_working_dir() == current_working_dir@,
            res.spec_filters() == filters,
            res.spec_link_settings().spec_dry_run() == dry_run,
            res.spec_link_settings().spec_backup() == (match backup {
                Some(dir) => Some(dir@),
                None => None,
            }),
    {
        let link_settings = LinkSettings::new(dry_run, backup);
        Settings { stowfile_path, current_working_dir, filters, link_settings }
    }

    /// The path of the configuration file.
    pub fn stowfile_path(&self) -> (res: &str)
        ensures
            res@ == self.spec_stowfile_path(),
    {
        self.stowfile_path.as_str()
    }

    /// The directory below which sources are looked for.
    pub fn current_working_dir(&self) -> (res: &str)
        ensures
            res@ == self.spec_current_working_dir(),
    {
        self.current_working_dir.as_str()
    }

    /// The filters of the run.
    pub fn filters(&self) -> (res: &StowFilters)
        ensures
            *res == self.spec_filters(),
    {
        &self.filters
    }

    /// The settings that every link of the run shares.
    pub fn link_settings(&self) -> (res: &LinkSettings)
        ensures
            *res == self.spec_link_settings(),
    {
        &self.link_settings
    }
}

/// What a run does with its links.
#[derive(Debug, Clone, Copy, PartialEq, Eq, Structural)]
pub enum Action {
    Stow,
    Unstow,
    Restow,
}

/// The action that the three requests select: the one that was asked for,
/// stowing where none was, and none where more than one was.
pub open spec fn selected(stow: bool, unstow: bool, restow: bool) -> Option<Action> {
    if unstow && !stow && !restow {
        Some(Action::Unstow)
    } else if restow && !stow && !unstow {
        Some(Action::Restow)
    } else if !unstow && !restow {
        Some(Action::Stow)
    } else {
        None
    }
}

/// Selects the action of a run from what was asked for.
pub fn select_action(stow: bool, unstow: bool, restow: bool) -> (res: Result<Action, StowError>)
    ensures
        match selected(stow, unstow, restow) {
            Some(action) => res == Ok::<Action, StowError>(action),
            None => res is Err && res->Err_0@ == Fault::ConflictingActions,
        },
{
    match (stow, unstow, restow) {
        (false, false, false) => Ok(Action::Stow),
        (true, false, false) => Ok(Action::Stow),
        (false, true, false) => Ok(Action::Unstow),
        (false, false, true) => Ok(Action::Restow),
        _ => Err(StowError::ConflictingActions),
    }
}

/// How many names a configuration file is looked for under.
pub const DEFAULT_STOWFILE_COUNT: usize = 6;

/// The names a configuration file is looked for under, in order.
pub open spec fn default_name(i: int) -> Seq<char> {
    if i == 0 {
        "stowfile"@
    } else if i == 1 {
        "Stowfile"@
    } else if i == 2 {
        "STOWFILE"@
    } else if i == 3 {
        "stowfile.yaml"@
    } else if i == 4 {
        "Stowfile.yaml"@
    } else {
        "STOWFILE.yaml"@
    }
}

/// The default name at `i`; the last one for every `i` beyond the list.
pub fn default_stowfile_name(i: usize) -> (res: &'static str)
    ensures
        res@ == default_name(i as int),
{
    if i == 0 {
        "stowfile"
    } else if i == 1 {
        "Stowfile"
    } else if i == 2 {
        "STOWFILE"
    } else if i == 3 {
        "stowfile.yaml"
    } else if i == 4 {
        "Stowfile.yaml"
    } else {
        "STOWFILE.yaml"
    }
}

/// The name at `k` is the first that was found in the working directory.
pub open spec fn first_found(found: Seq<bool>, k: int) -> bool {
    &&& 0 <= k < DEFAULT_STOWFILE_COUNT
    &&& k < found.len()
    &&& found[k]
    &&& forall|j: int| 0 <= j < k ==> !found[j]
}

/// The paths at which a configuration file is looked for, in order: each
/// default name below the working directory.
pub fn default_stowfile_candidates(working_dir: &str) -> (res: Vec<String>)
    ensures
        res@.len() == DEFAULT_STOWFILE_COUNT,
        forall|i: int|
            0 <= i < DEFAULT_STOWFILE_COUNT ==> (#[trigger] res@[i])@ == joined(
                working_dir@,
                default_name(i),
            ),
{
    let mut candidates: Vec<String> = Vec::new();
    let mut i: usize = 0;
    while i < DEFAULT_STOWFILE_COUNT
        invariant
            i <= DEFAULT_STOWFILE_COUNT,
            candidates@.len() == i,
            forall|j: int|
                0 <= j < i ==> (#[trigger] candidates@[j])@ == joined(
                    working_dir@,
                    default_name(j),
                ),
        decreases DEFAULT_STOWFILE_COUNT - i,
    {
        candidates.push(join_path(working_dir, default_stowfile_name(i)));
        i += 1;
    }
    candidates
}

/// Picks the configuration file of a working directory: the first candidate
/// that was found. `found` says of each candidate, in order, whether it is
/// there; one that it does not speak of counts as not there.
pub fn check_for_default_stowfile(working_dir: &str, found: &Vec<bool>) -> (res: Option<String>)
    ensures
        (exists|k: int| first_found(found@, k)) ==> res is Some && res->Some_0@ == joined(
            working_dir@,
            default_name(choose|k: int| first_found(found@, k)),
        ),
        !(exists|k: int| first_found(found@, k)) ==> res is None,
{
    let mut i: usize = 0;
    while i < DEFAULT_STOWFILE_COUNT && i < found.len()
        invariant
            i <= DEFAULT_STOWFILE_COUNT,
            i <= found.len(),
            forall|j: int| 0 <= j < i ==> !found@[j],
        decreases DEFAULT_STOWFILE_COUNT - i,
    {
        if found[i] {
            proof {
                assert(first_found(found@, i as int));
                let k = choose|k: int| first_found(found@, k);
                if k < i {
                    assert(!found@[k]);
                }
                if i < k {
                    assert(!found@[i as int]);
                }
            }
            return Some(join_path(working_dir, default_stowfile_name(i)));
        }
        i += 1;
    }
    proof {
        if exists|k: int| first_found(found@, k) {
            let k = choose|k: int| first_found(found@, k);
            assert(!found@[k]);
        }
    }
    None
}

} // verus!

//! A configuration with its variables, and the batch of links that it
//! resolves to, taken through stowing, unstowing or restowing one decision
//! at a time.

use vstd::prelude::*;
use crate::config::{all_pass, descriptors, lemma_value_passes_filters, resolve_value, traverse_value, ConfigValue, DescriptorModel, LinkDescriptor, Resolved};
use crate::error::{Fault, StowError};
use crate::filter::{may_override, StowFilters};
use crate::link::{after_steps, correctly_linked, decided, lemma_unlink_then_link, link_plan, unlink_plan, Link, Observation, ObservationModel, Plan, StateModel, StepModel};
use crate::settings::{Action, Settings};
use crate::vars::{bindings_map, declared_name, declared_value, parse_variable, Binding, Variables};

verus! {

/// The texts of the declarations that a configuration holds, none where it
/// holds no list of them.
pub open spec fn declarations(vars: Option<Vec<String>>) -> Seq<Seq<char>> {
    match vars {
        Some(list) => Seq::new(list@.len(), |i: int| list@[i]@),
        None => Seq::empty(),
    }
}

/// The declaration at `k` is the first that holds no `=`.
pub open spec fn first_undeclarable(raw: Seq<Seq<char>>, k: int) -> bool {
    &&& 0 <= k < raw.len()
    &&& !raw[k].contains('=')
    &&& forall|j: int| 0 <= j < k ==> (#[trigger] raw[j]).contains('=')
}

/// The bindings after the declarations have been laid over `base` in order,
/// so that a later one wins over an earlier one and over `base`.
pub open spec fn declared(base: Map<Seq<char>, Seq<char>>, raw: Seq<Seq<char>>) -> Map<
    Seq<char>,
    Seq<char>,
>
    decreases raw.len(),
{
    if raw.len() == 0 {
        base
    } else {
        declared(base, raw.drop_last()).insert(
            declared_name(raw.last()),
            declared_value(raw.last()),
        )
    }
}

/// A configuration tree with the variables and filters it is resolved under.
#[derive(Debug)]
pub struct Stowfile<'a> {
    pub stows: ConfigValue,
    pub variables: Variables,
    /// How deep interpolation may nest: the number of declarations the
    /// variables were made from.
    pub depth: usize,
    pub filters: &'a StowFilters,
}

impl<'a> Stowfile<'a> {
    /// Seeds the variables from a snapshot of the environment and lays the
    /// configuration's own declarations over it.
    pub fn new(
        stows: ConfigValue,
        vars: Option<Vec<String>>,
        environment: Vec<Binding>,
        filters: &'a StowFilters,
    ) -> (res: Result<Self, StowError>)
        ensures
            (forall|i: int|
                0 <= i < declarations(vars).len() ==> (#[trigger] declarations(vars)[i]).contains(
                    '=',
                )) ==> res is Ok && res->Ok_0.stows == stows && res->Ok_0.filters == filters
                && res->Ok_0.variables@ == declared(bindings_map(environment@), declarations(vars))
                && res->Ok_0.depth == environment@.len() + declarations(vars).len(),
            !(forall|i: int|
                0 <= i < declarations(vars).len() ==> (#[trigger] declarations(vars)[i]).contains(
                    '=',
                )) ==> res is Err && res->Err_0@ == Fault::InvalidVariableSyntax(
                declarations(vars)[choose|k: int| first_undeclarable(declarations(vars), k)],
            ),
    {
        let ghost base = bindings_map(environment@);
        let ghost seeded = environment@.len();
        let ghost raw = declarations(vars);
        let mut variables = Variables::new(environment);
        if let Some(user_defined_variables) = &vars {
            let mut i: usize = 0;
            proof {
                assert(raw.take(0) =~= Seq::<Seq<char>>::empty());
            }
            while i < user_defined_variables.len()
                invariant
                    i <= user_defined_variables.len(),
                    raw == declarations(vars),
                    vars == Some(*user_defined_variables),
                    variables@ == declared(base, raw.take(i as int)),
                    variables.entries@.len() == seeded + i,
                    forall|j: int| 0 <= j < i ==> (#[trigger] raw[j]).contains('='),
                decreases user_defined_variables.len() - i,
            {
                let var = &user_defined_variables[i];
                proof {
                    assert(raw[i as int] == var@);
                    assert(raw.take(i + 1).drop_last() =~= raw.take(i as int));
                    assert(raw.take(i + 1).last() == raw[i as int]);
                }
                match parse_variable(var.as_str()) {
                    Ok((key, value)) => {
                        variables.insert(key, value);
                    },
                    Err(_) => {
                        proof {
                            assert(first_undeclarable(raw, i as int));
                            let k = choose|k: int| first_undeclarable(raw, k);
                            if k < i {
                                assert(raw[k].contains('='));
                            }
                            if i < k {
                                assert(raw[i as int].contains('='));
                            }
                        }
                        return Err(StowError::InvalidVariableSyntax(var.clone()));
                    },
                }
                i += 1;
            }
            proof {
                assert(raw.take(i as int) =~= raw);
            }
        }
        let depth = variables.depth();
        Ok(Stowfile { stows, variables, depth, filters })
    }

    /// What resolving the whole tree below `current_src_path` comes to.
    pub open spec fn resolution(&self, current_src_path: Seq<char>) -> Resolved {
        resolve_value(
            self.filters@,
            self.depth as nat,
            Resolved { bindings: self.variables@, links: Seq::empty(), fault: None },
            current_src_path,
            self.stows,
        )
    }

    /// Resolves the tree into descriptors, in declared order. The variables
    /// are left as interpolation bound them. Every descriptor has passed the
    /// filters.
    pub fn get_links(&mut self, current_src_path: String) -> (res: Result<
        Vec<LinkDescriptor>,
        StowError,
    >)
        ensures
            final(self).stows == old(self).stows,
            final(self).depth == old(self).depth,
            final(self).filters == old(self).filters,
            final(self).variables@ == old(self).resolution(current_src_path@).bindings,
            res is Ok ==> all_pass(old(self).filters@, descriptors(res->Ok_0)),
            match old(self).resolution(current_src_path@).fault {
                None => res is Ok && descriptors(res->Ok_0) == old(self).resolution(
                    current_src_path@,
                ).links,
                Some(fault) => res is Err && res->Err_0@ == fault,
            },
    {
        let mut collected: Vec<LinkDescriptor> = Vec::new();
        proof {
            assert(descriptors(collected) =~= Seq::<DescriptorModel>::empty());
            lemma_value_passes_filters(
                self.filters@,
                self.depth as nat,
                Resolved { bindings: self.variables@, links: Seq::empty(), fault: None },
                current_src_path@,
                self.stows,
            );
        }
        let walk = traverse_value(
            self.filters,
            self.depth,
            &mut self.variables,
            &self.stows,
            current_src_path.as_str(),
            &mut collected,
        );
        match walk {
            Ok(()) => Ok(collected),
            Err(e) => Err(e),
        }
    }
}

/// The source of the descriptor at `i` was found to exist.
pub open spec fn present_at(present: Seq<bool>, i: int) -> bool {
    0 <= i < present.len() && present[i]
}

/// The descriptor at `k` is the first whose source was not found.
pub open spec fn first_missing(present: Seq<bool>, count: int, k: int) -> bool {
    &&& 0 <= k < count
    &&& !present_at(present, k)
    &&& forall|j: int| 0 <= j < k ==> present_at(present, j)
}

/// How far a batch has come.
#[derive(Debug, Clone, Copy)]
pub struct Progress {
    /// The link that the next decision is about.
    pub index: usize,
    /// In a restow: the link at `index` has been removed and is to be made
    /// again.
    pub relinking: bool,
}

/// The batch of links of one run.
#[derive(Debug)]
pub struct Stow<'a> {
    pub links: Vec<Link<'a>>,
    pub settings: &'a Settings,
}

impl<'a> Stow<'a> {
    /// Whether the target of the link at `i` may be overwritten.
    pub open spec fn overridable(&self, i: int) -> bool {
        may_override(self.settings.spec_filters()@, self.links@[i].target.path@)
    }

    /// What stowing decides for the link at `i`.
    pub open spec fn stow_plan(&self, i: int, seen: ObservationModel) -> Result<
        Seq<StepModel>,
        Fault,
    > {
        link_plan(self.links@[i].src@, self.links@[i].target.path@, seen, self.overridable(i))
    }

    /// What unstowing decides for the link at `i`.
    pub open spec fn unstow_plan(&self, i: int, seen: ObservationModel) -> Result<
        Seq<StepModel>,
        Fault,
    > {
        unlink_plan(self.links@[i].src@, self.links@[i].target.path@, seen)
    }

    /// What restowing decides for the link at `i`: its removal, and once that
    /// is done, its creation.
    pub open spec fn restow_plan(&self, i: int, relinking: bool, seen: ObservationModel) -> Result<
        Seq<StepModel>,
        Fault,
    > {
        if relinking {
            self.stow_plan(i, seen)
        } else {
            self.unstow_plan(i, seen)
        }
    }

    /// Makes the batch: one link for each descriptor, in order. `present`
    /// says of each descriptor whether its source exists; one that it does
    /// not speak of counts as missing.
    pub fn with_settings(
        settings: &'a Settings,
        found: &Vec<LinkDescriptor>,
        present: &Vec<bool>,
    ) -> (res: Result<Self, StowError>)
        ensures
            (forall|i: int| 0 <= i < found@.len() ==> present_at(present@, i)) ==> res is Ok
                && res->Ok_0.settings == settings && res->Ok_0.links@.len() == found@.len()
                && forall|i: int|
                0 <= i < found@.len() ==> {
                    &&& (#[trigger] res->Ok_0.links@[i]).src@ == found@[i].source@
                    &&& res->Ok_0.links@[i].target.path@ == found@[i].target@
                    &&& *res->Ok_0.links@[i].settings == settings.spec_link_settings()
                },
            !(forall|i: int| 0 <= i < found@.len() ==> present_at(present@, i)) ==> res is Err
                && res->Err_0@ == Fault::SourceMissing(
                found@[choose|k: int| first_missing(present@, found@.len() as int, k)].source@,
            ),
    {
        let mut links: Vec<Link<'a>> = Vec::new();
        let mut i: usize = 0;
        while i < found.len()
            invariant
                i <= found.len(),
                links@.len() == i,
                forall|j: int| 0 <= j < i ==> present_at(present@, j),
                forall|j: int|
                    0 <= j < i ==> {
                        &&& (#[trigger] links@[j]).src@ == found@[j].source@
                        &&& links@[j].target.path@ == found@[j].target@
                        &&& *links@[j].settings == settings.spec_link_settings()
                    },
            decreases found.len() - i,
        {
            let source_exists = i < present.len() && present[i];
            match Link::new(
                found[i].source.clone(),
                found[i].target.clone(),
                source_exists,
                settings.link_settings(),
            ) {
                Ok(link) => {
                    links.push(link);
                },
                Err(e) => {
                    proof {
                        let count = found@.len() as int;
                        assert(first_missing(present@, count, i as int));
                        let k = choose|k: int| first_missing(present@, count, k);
                        if k < i {
                            assert(present_at(present@, k));
                        }
                        if i < k {
                            assert(present_at(present@, i as int));
                        }
                    }
                    return Err(e);
                },
            }
            i += 1;
        }
        Ok(Stow { links, settings })
    }

    /// Where a batch begins.
    pub fn begin(&self) -> (res: Progress)
        ensures
            res.index == 0,
            !res.relinking,
    {
        Progress { index: 0, relinking: false }
    }

    /// The link whose target must be observed for the next decision; none
    /// once the batch is through.
    pub fn pending(&self, progress: &Progress) -> (res: Option<&Link<'a>>)
        ensures
            progress.index < self.links@.len() ==> res == Some(
                &self.links@[progress.index as int],
            ),
            progress.index >= self.links@.len() ==> res is None,
    {
        if progress.index < self.links.len() {
            Some(&self.links[progress.index])
        } else {
            None
        }
    }

    fn finished(&self) -> (res: Result<Plan, StowError>)
        ensures
            decided(res, Ok(Seq::empty()), self.settings.spec_link_settings().spec_dry_run()),
    {
        let plan = Plan { steps: Vec::new(), dry_run: self.settings.link_settings().dry_run() };
        assert(plan.steps_model() =~= Seq::<StepModel>::empty());
        Ok(plan)
    }

    /// Decides the creation of the pending link and moves on to the next. A
    /// failure leaves the batch where it stood: nothing after it is to be
    /// attempted. Once the batch is through there is nothing left to do.
    pub fn stow(&self, progress: &mut Progress, seen: &Observation) -> (res: Result<
        Plan,
        StowError,
    >)
        ensures
            old(progress).index >= self.links@.len() ==> *final(progress) == *old(progress)
                && decided(
                res,
                Ok(Seq::empty()),
                self.settings.spec_link_settings().spec_dry_run(),
            ),
            old(progress).index < self.links@.len() ==> decided(
                res,
                self.stow_plan(old(progress).index as int, seen@),
                self.links@[old(progress).index as int].settings.spec_dry_run(),
            ),
            old(progress).index < self.links@.len() && res is Ok ==> *final(progress) == (Progress {
                index: (old(progress).index + 1) as usize,
                relinking: false,
            }),
            res is Err ==> *final(progress) == *old(progress),
    {
        if progress.index >= self.links.len() {
            return self.finished();
        }
        let link = &self.links[progress.index];
        let overridable = self.settings.filters().check_target_override(link.target.path.as_str());
        let plan = link.link(seen, overridable)?;
        progress.index = progress.index + 1;
        progress.relinking = false;
        Ok(plan)
    }

    /// Decides the removal of the pending link and moves on to the next. A
    /// failure leaves the batch where it stood.
    pub fn unstow(&self, progress: &mut Progress, seen: &Observation) -> (res: Result<
        Plan,
        StowError,
    >)
        ensures
            old(progress).index >= self.links@.len() ==> *final(progress) == *old(progress)
                && decided(
                res,
                Ok(Seq::empty()),
                self.settings.spec_link_settings().spec_dry_run(),
            ),
            old(progress).index < self.links@.len() ==> decided(
                res,
                self.unstow_plan(old(progress).index as int, seen@),
                self.links@[old(progress).index as int].settings.spec_dry_run(),
            ),
            old(progress).index < self.links@.len() && res is Ok ==> *final(progress) == (Progress {
                index: (old(progress).index + 1) as usize,
                relinking: false,
            }),
            res is Err ==> *final(progress) == *old(progress),
    {
        if progress.index >= self.links.len() {
            return self.finished();
        }
        let link = &self.links[progress.index];
        let plan = link.unlink(seen)?;
        progress.index = progress.index + 1;
        progress.relinking = false;
        Ok(plan)
    }

    /// Decides the next half of a restow: the removal of the pending link,
    /// and at the following call its creation, before the batch moves on to
    /// the next link. A failure of either half leaves the batch where it
    /// stood.
    pub fn restow(&self, progress: &mut Progress, seen: &Observation) -> (res: Result<
        Plan,
        StowError,
    >)
        ensures
            old(progress).index >= self.links@.len() ==> *final(progress) == *old(progress)
                && decided(
                res,
                Ok(Seq::empty()),
                self.settings.spec_link_settings().spec_dry_run(),
            ),
            old(progress).index < self.links@.len() ==> decided(
                res,
                self.restow_plan(old(progress).index as int, old(progress).relinking, seen@),
                self.links@[old(progress).index as int].settings.spec_dry_run(),
            ),
            old(progress).index < self.links@.len() && res is Ok && !old(progress).relinking
                ==> *final(progress) == (Progress { index: old(progress).index, relinking: true }),
            old(progress).index < self.links@.len() && res is Ok && old(progress).relinking
                ==> *final(progress) == (Progress {
                index: (old(progress).index + 1) as usize,
                relinking: false,
            }),
            res is Err ==> *final(progress) == *old(progress),
    {
        if progress.index >= self.links.len() {
            return self.finished();
        }
        let link = &self.links[progress.index];
        if progress.relinking {
            let overridable = self.settings.filters().check_target_override(
                link.target.path.as_str(),
            );
            let plan = link.link(seen, overridable)?;
            progress.index = progress.index + 1;
            progress.relinking = false;
            Ok(plan)
        } else {
            let plan = link.unlink(seen)?;
            progress.relinking = true;
            Ok(plan)
        }
    }

    /// What the action decides for the link at `i`.
    pub open spec fn action_plan(
        &self,
        action: Action,
        i: int,
        relinking: bool,
        seen: ObservationModel,
    ) -> Result<Seq<StepModel>, Fault> {
        match action {
            Action::Stow => self.stow_plan(i, seen),
            Action::Unstow => self.unstow_plan(i, seen),
            Action::Restow => self.restow_plan(i, relinking, seen),
        }
    }

    /// Where the batch stands after a decision of the action that came out
    /// well: at the next link, but for a restow that has only removed.
    pub open spec fn advanced(action: Action, progress: Progress) -> Progress {
        if action == Action::Restow && !progress.relinking {
            Progress { index: progress.index, relinking: true }
        } else {
            Progress { index: (progress.index + 1) as usize, relinking: false }
        }
    }

    /// Takes the batch one decision further under the given action. A
    /// failure leaves the batch where it stood; once the batch is through
    /// there is nothing left to do.
    pub fn advance(&self, action: Action, progress: &mut Progress, seen: &Observation) -> (res:
        Result<Plan, StowError>)
        ensures
            old(progress).index >= self.links@.len() ==> *final(progress) == *old(progress)
                && decided(
                res,
                Ok(Seq::empty()),
                self.settings.spec_link_settings().spec_dry_run(),
            ),
            old(progress).index < self.links@.len() ==> decided(
                res,
                self.action_plan(action, old(progress).index as int, old(progress).relinking, seen@),
                self.links@[old(progress).index as int].settings.spec_dry_run(),
            ),
            old(progress).index < self.links@.len() && res is Ok ==> *final(progress)
                == Self::advanced(action, *old(progress)),
            res is Err ==> *final(progress) == *old(progress),
    {
        match action {
            Action::Stow => self.stow(progress, seen),
            Action::Unstow => self.unstow(progress, seen),
            Action::Restow => self.restow(progress, seen),
        }
    }

    /// Restowing a link that leads to its source does what unstowing and
    /// then stowing it does: both halves succeed, and once their steps are
    /// carried out the target leads to the source as before.
    pub proof fn lemma_restow_is_unstow_then_stow(&self, i: int, seen: ObservationModel)
        requires
            0 <= i < self.links@.len(),
            correctly_linked(seen),
            seen.parent is Some,
        ensures
            self.restow_plan(i, false, seen) == self.unstow_plan(i, seen),
            self.restow_plan(i, false, seen) is Ok,
            ({
                let target = self.links@[i].target.path@;
                let removed = after_steps(seen, target, self.restow_plan(i, false, seen)->Ok_0);
                &&& self.restow_plan(i, true, removed) == self.stow_plan(i, removed)
                &&& self.restow_plan(i, true, removed) is Ok
                &&& after_steps(removed, target, self.restow_plan(i, true, removed)->Ok_0)
                    == after_steps(removed, target, self.stow_plan(i, removed)->Ok_0)
                &&& after_steps(removed, target, self.restow_plan(i, true, removed)->Ok_0)
                    == (ObservationModel {
                    state: StateModel::SymlinkTo(seen.source_canonical->Some_0),
                    ..seen
                })
            }),
    {
        lemma_unlink_then_link(
            self.links@[i].src@,
            self.links@[i].target.path@,
            seen,
            self.overridable(i),
        );
    }
}

} // verus!

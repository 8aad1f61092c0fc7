//! Filters over path texts: sets of regular expressions, paired as "only"
//! and "ignore", and a set that marks targets which may be overwritten.

use vstd::prelude::*;
use regex::Regex;
use crate::error::{Fault, StowError};

verus! {

/// `regex::Regex`, a compiled regular expression. Nothing is known of what
/// it holds.
#[verifier::external_type_specification]
#[verifier::external_body]
pub struct ExRegex(regex::Regex);

/// `regex::Error`, the reason a pattern was refused. Nothing is known of
/// what it holds.
#[verifier::external_type_specification]
#[verifier::external_body]
pub struct ExRegexError(regex::Error);

/// What `regex::Regex::new` makes of a pattern: the compiled expression,
/// or nothing where the pattern is refused.
pub uninterp spec fn compiled(pattern: Seq<char>) -> Option<Regex>;

/// Whether `regex::Regex::is_match` finds the expression anywhere in the
/// text.
pub uninterp spec fn finds(re: Regex, text: Seq<char>) -> bool;

/// Calls `regex::Regex::new`. Claimed: what it returns depends on the pattern
/// alone, so that one pattern always gives the same expression or is always
/// refused.
#[verifier::external_body]
fn compile(pattern: &str) -> (res: Result<Regex, regex::Error>)
    ensures
        match res {
            Ok(re) => compiled(pattern@) == Some(re),
            Err(_) => compiled(pattern@) is None,
        },
{
    Regex::new(pattern)
}

/// Calls `regex::Regex::is_match`. Claimed: the answer depends on the
/// expression and the text alone.
#[verifier::external_body]
fn found(re: &Regex, text: &str) -> (res: bool)
    ensures
        res == finds(*re, text@),
{
    re.is_match(text)
}

/// The pattern is a regular expression.
pub open spec fn pattern_compiles(pattern: Seq<char>) -> bool {
    compiled(pattern) is Some
}

/// The pattern is a regular expression that is found somewhere in the text.
pub open spec fn pattern_found(pattern: Seq<char>, text: Seq<char>) -> bool {
    compiled(pattern) is Some && finds(compiled(pattern)->Some_0, text)
}

/// The texts of a list of strings.
pub open spec fn texts(strings: Vec<String>) -> Seq<Seq<char>> {
    Seq::new(strings@.len(), |i: int| strings@[i]@)
}

/// The texts of a list of strings that may be left out.
pub open spec fn optional_texts(strings: Option<Vec<String>>) -> Option<Seq<Seq<char>>> {
    match strings {
        Some(list) => Some(texts(list)),
        None => None,
    }
}

/// Some pattern of the set is found in the text.
pub open spec fn any_found(patterns: Seq<Seq<char>>, text: Seq<char>) -> bool {
    exists|i: int| 0 <= i < patterns.len() && pattern_found(#[trigger] patterns[i], text)
}

/// The pattern at `k` is the first of the list that does not compile.
pub open spec fn first_invalid(patterns: Seq<Seq<char>>, k: int) -> bool {
    &&& 0 <= k < patterns.len()
    &&& !pattern_compiles(patterns[k])
    &&& forall|j: int| 0 <= j < k ==> pattern_compiles(#[trigger] patterns[j])
}

/// A list of patterns as a filter has it: all of them, or the failure that
/// names the first one that does not compile.
pub open spec fn checked(patterns: Seq<Seq<char>>) -> Result<Seq<Seq<char>>, Fault> {
    if forall|i: int| 0 <= i < patterns.len() ==> pattern_compiles(#[trigger] patterns[i]) {
        Ok(patterns)
    } else {
        Err(Fault::InvalidPattern(patterns[choose|k: int| first_invalid(patterns, k)]))
    }
}

/// A list of patterns that may be left out, as a filter has it.
pub open spec fn checked_optional(patterns: Option<Seq<Seq<char>>>) -> Result<
    Option<Seq<Seq<char>>>,
    Fault,
> {
    match patterns {
        None => Ok(None),
        Some(list) => match checked(list) {
            Ok(all) => Ok(Some(all)),
            Err(fault) => Err(fault),
        },
    }
}

/// A set of regular expressions. A text matches the set where any of them is
/// found in it.
#[derive(Debug)]
pub struct Filter {
    sources: Vec<String>,
    regexes: Vec<Regex>,
}

impl View for Filter {
    type V = Seq<Seq<char>>;

    /// The patterns of the set, in order.
    closed spec fn view(&self) -> Seq<Seq<char>> {
        texts(self.sources)
    }
}

impl Filter {
    /// Each expression is what its pattern compiles to.
    #[verifier::type_invariant]
    spec fn consistent(self) -> bool {
        &&& self.regexes@.len() == self.sources@.len()
        &&& forall|i: int|
            0 <= i < self.sources@.len() ==> compiled(#[trigger] self.sources@[i]@) == Some(
                self.regexes@[i],
            )
    }

    /// Compiles the patterns in order and stops at the first that fails.
    pub fn new(filter_strings: Vec<String>) -> (res: Result<Self, StowError>)
        ensures
            match checked(texts(filter_strings)) {
                Ok(all) => res is Ok && res->Ok_0@ == all,
                Err(fault) => res is Err && res->Err_0@ == fault,
            },
    {
        let ghost patterns = texts(filter_strings);
        let mut regexes: Vec<Regex> = Vec::with_capacity(filter_strings.len());
        let mut i: usize = 0;
        while i < filter_strings.len()
            invariant
                i <= filter_strings.len(),
                patterns == texts(filter_strings),
                regexes@.len() == i,
                forall|j: int| 0 <= j < i ==> pattern_compiles(#[trigger] patterns[j]),
                forall|j: int|
                    0 <= j < i ==> compiled(#[trigger] filter_strings@[j]@) == Some(regexes@[j]),
            decreases filter_strings.len() - i,
        {
            match compile(filter_strings[i].as_str()) {
                Ok(re) => {
                    assert(pattern_compiles(patterns[i as int]));
                    regexes.push(re);
                },
                Err(_) => {
                    proof {
                        assert(!pattern_compiles(patterns[i as int]));
                        assert(first_invalid(patterns, i as int));
                        let k = choose|k: int| first_invalid(patterns, k);
                        assert(k == i) by {
                            if k < i {
                                assert(pattern_compiles(patterns[k]));
                            }
                            if i < k {
                                assert(pattern_compiles(patterns[i as int]));
                            }
                        }
                    }
                    return Err(StowError::InvalidPattern(filter_strings[i].clone()));
                },
            }
            i += 1;
        }
        Ok(Filter { sources: filter_strings, regexes })
    }

    /// Whether any pattern of the set is found in the text.
    pub fn matches(&self, input: &str) -> (res: bool)
        ensures
            res == any_found(self@, input@),
    {
        proof {
            use_type_invariant(self);
        }
        let mut i: usize = 0;
        while i < self.regexes.len()
            invariant
                i <= self.regexes.len(),
                self.regexes@.len() == self.sources@.len(),
                forall|j: int|
                    0 <= j < self.sources@.len() ==> compiled(#[trigger] self.sources@[j]@)
                        == Some(self.regexes@[j]),
                forall|j: int| 0 <= j < i ==> !pattern_found(#[trigger] self@[j], input@),
            decreases self.regexes.len() - i,
        {
            assert(compiled(self.sources@[i as int]@) == Some(self.regexes@[i as int]));
            if found(&self.regexes[i], input) {
                assert(pattern_found(self@[i as int], input@));
                return true;
            }
            i += 1;
        }
        false
    }
}

fn optional_filter(strings: Option<Vec<String>>) -> (res: Result<Option<Filter>, StowError>)
    ensures
        match checked_optional(optional_texts(strings)) {
            Ok(all) => res is Ok && filter_patterns(res->Ok_0) == all,
            Err(fault) => res is Err && res->Err_0@ == fault,
        },
{
    match strings {
        None => Ok(None),
        Some(list) => {
            let filter = Filter::new(list)?;
            Ok(Some(filter))
        },
    }
}

/// The patterns of a filter that may be left out.
pub open spec fn filter_patterns(filter: Option<Filter>) -> Option<Seq<Seq<char>>> {
    match filter {
        Some(f) => Some(f@),
        None => None,
    }
}

/// An "only" set and an "ignore" set, each of which may be left out.
pub struct ComboModel {
    pub only: Option<Seq<Seq<char>>>,
    pub ignore: Option<Seq<Seq<char>>>,
}

/// A text is accepted unless an "only" set is there and does not match it,
/// or an "ignore" set is there and matches it.
pub open spec fn accepts(combo: ComboModel, text: Seq<char>) -> bool {
    &&& combo.only is Some ==> any_found(combo.only->Some_0, text)
    &&& combo.ignore is Some ==> !any_found(combo.ignore->Some_0, text)
}

/// The pair of sets that the two lists of patterns make: the "only" list
/// is compiled first, so that its failure is the one reported.
pub open spec fn checked_combo(
    only: Option<Seq<Seq<char>>>,
    ignore: Option<Seq<Seq<char>>>,
) -> Result<ComboModel, Fault> {
    match checked_optional(only) {
        Err(fault) => Err(fault),
        Ok(only_set) => match checked_optional(ignore) {
            Err(fault) => Err(fault),
            Ok(ignore_set) => Ok(ComboModel { only: only_set, ignore: ignore_set }),
        },
    }
}

/// An "only" filter and an "ignore" filter, each of which may be left out.
#[derive(Debug)]
pub struct FilterCombo {
    only: Option<Filter>,
    ignore: Option<Filter>,
}

impl View for FilterCombo {
    type V = ComboModel;

    closed spec fn view(&self) -> ComboModel {
        ComboModel { only: filter_patterns(self.only), ignore: filter_patterns(self.ignore) }
    }
}

impl FilterCombo {
    /// Compiles the "only" patterns, then the "ignore" patterns.
    pub fn new(only_strings: Option<Vec<String>>, ignore_strings: Option<Vec<String>>) -> (res:
        Result<Self, StowError>)
        ensures
            match checked_combo(optional_texts(only_strings), optional_texts(ignore_strings)) {
                Ok(combo) => res is Ok && res->Ok_0@ == combo,
                Err(fault) => res is Err && res->Err_0@ == fault,
            },
    {
        let only = optional_filter(only_strings)?;
        let ignore = optional_filter(ignore_strings)?;
        Ok(FilterCombo { only, ignore })
    }

    /// Whether the pair accepts the text.
    pub fn check_against_filters(&self, input: &str) -> (res: bool)
        ensures
            res == accepts(self@, input@),
    {
        if let Some(only) = &self.only {
            if !only.matches(input) {
                return false;
            }
        }
        if let Some(ignore) = &self.ignore {
            if ignore.matches(input) {
                return false;
            }
        }
        true
    }
}

/// The filters of one run: a pair for source paths, a pair for target paths,
/// and the set of targets that may be overwritten.
pub struct FiltersModel {
    pub src: Option<ComboModel>,
    pub target: Option<ComboModel>,
    pub overrides: Option<Seq<Seq<char>>>,
}

/// A pair of sets is kept only where at least one of the two was given.
pub open spec fn checked_pair(
    only: Option<Seq<Seq<char>>>,
    ignore: Option<Seq<Seq<char>>>,
) -> Result<Option<ComboModel>, Fault> {
    if only is Some || ignore is Some {
        match checked_combo(only, ignore) {
            Ok(combo) => Ok(Some(combo)),
            Err(fault) => Err(fault),
        }
    } else {
        Ok(None)
    }
}

/// The filters that the five lists of patterns make. The lists are
/// compiled in the order of the parameters, and the first failure is the
/// one reported.
pub open spec fn checked_filters(
    only: Option<Seq<Seq<char>>>,
    ignore: Option<Seq<Seq<char>>>,
    only_target: Option<Seq<Seq<char>>>,
    ignore_target: Option<Seq<Seq<char>>>,
    overrides: Option<Seq<Seq<char>>>,
) -> Result<FiltersModel, Fault> {
    match checked_pair(only, ignore) {
        Err(fault) => Err(fault),
        Ok(src) => match checked_pair(only_target, ignore_target) {
            Err(fault) => Err(fault),
            Ok(target) => match checked_optional(overrides) {
                Err(fault) => Err(fault),
                Ok(marked) => Ok(FiltersModel { src: src, target: target, overrides: marked }),
            },
        },
    }
}

/// A source path passes where no pair is set for sources, or the pair
/// accepts it.
pub open spec fn passes_src(filters: FiltersModel, text: Seq<char>) -> bool {
    filters.src is Some ==> accepts(filters.src->Some_0, text)
}

/// A target path passes where no pair is set for targets, or the pair
/// accepts it.
pub open spec fn passes_target(filters: FiltersModel, text: Seq<char>) -> bool {
    filters.target is Some ==> accepts(filters.target->Some_0, text)
}

/// A target may be overwritten only where a set of overrides is there and
/// matches it.
pub open spec fn may_override(filters: FiltersModel, text: Seq<char>) -> bool {
    filters.overrides is Some && any_found(filters.overrides->Some_0, text)
}

/// The filters of one run.
#[derive(Debug)]
pub struct StowFilters {
    src_filter: Option<FilterCombo>,
    target_filter: Option<FilterCombo>,
    override_filter: Option<Filter>,
}

impl View for StowFilters {
    type V = FiltersModel;

    closed spec fn view(&self) -> FiltersModel {
        FiltersModel {
            src: match self.src_filter {
                Some(combo) => Some(combo@),
                None => None,
            },
            target: match self.target_filter {
                Some(combo) => Some(combo@),
                None => None,
            },
            overrides: filter_patterns(self.override_filter),
        }
    }
}

fn optional_combo(only: Option<Vec<String>>, ignore: Option<Vec<String>>) -> (res: Result<
    Option<FilterCombo>,
    StowError,
>)
    ensures
        match checked_pair(optional_texts(only), optional_texts(ignore)) {
            Ok(pair) => res is Ok && (match res->Ok_0 {
                Some(combo) => Some(combo@),
                None => None,
            }) == pair,
            Err(fault) => res is Err && res->Err_0@ == fault,
        },
{
    if only.is_some() || ignore.is_some() {
        let combo = FilterCombo::new(only, ignore)?;
        Ok(Some(combo))
    } else {
        Ok(None)
    }
}

impl StowFilters {
    /// Compiles every pattern, in the order of the parameters, and fails
    /// with the first that is no regular expression.
    pub fn new(
        only: Option<Vec<String>>,
        ignore: Option<Vec<String>>,
        only_target: Option<Vec<String>>,
        ignore_target: Option<Vec<String>>,
        overrides: Option<Vec<String>>,
    ) -> (res: Result<Self, StowError>)
        ensures
            match checked_filters(
                optional_texts(only),
                optional_texts(ignore),
                optional_texts(only_target),
                optional_texts(ignore_target),
                optional_texts(overrides),
            ) {
                Ok(filters) => res is Ok && res->Ok_0@ == filters,
                Err(fault) => res is Err && res->Err_0@ == fault,
            },
    {
        let src_filter = optional_combo(only, ignore)?;
        let target_filter = optional_combo(only_target, ignore_target)?;
        let override_filter = optional_filter(overrides)?;
        Ok(StowFilters { src_filter, target_filter, override_filter })
    }

    /// Whether a source path passes the filters for sources.
    pub fn check_src(&self, input: &str) -> (res: bool)
        ensures
            res == passes_src(self@, input@),
    {
        if let Some(src_filter) = &self.src_filter {
            src_filter.check_against_filters(input)
        } else {
            true
        }
    }

    /// Whether a target path passes the filters for targets.
    pub fn check_target(&self, input: &str) -> (res: bool)
        ensures
            res == passes_target(self@, input@),
    {
        if let Some(target_filter) = &self.target_filter {
            target_filter.check_against_filters(input)
        } else {
            true
        }
    }

    /// Whether a target may be overwritten.
    pub fn check_target_override(&self, input: &str) -> (res: bool)
        ensures
            res == may_override(self@, input@),
    {
        if let Some(override_filter) = &self.override_filter {
            override_filter.matches(input)
        } else {
            false
        }
    }
}

/// A text that matches no pattern of the "only" set is rejected, whatever
/// the "ignore" set holds.
pub proof fn lemma_only_rejects(combo: ComboModel, text: Seq<char>)
    requires
        combo.only is Some,
        !any_found(combo.only->Some_0, text),
    ensures
        !accepts(combo, text),
        forall|ignore: Option<Seq<Seq<char>>>|
            !accepts(ComboModel { only: combo.only, ignore: ignore }, text),
{
}

/// With no filter set at all, every text is accepted: by a pair that holds
/// neither set, and by filters that hold no pair.
pub proof fn lemma_no_filter_accepts(text: Seq<char>)
    ensures
        accepts(ComboModel { only: None, ignore: None }, text),
        forall|filters: FiltersModel|
            filters.src is None && filters.target is None ==> passes_src(filters, text)
                && passes_target(filters, text),
        checked_filters(None, None, None, None, None) == Ok::<FiltersModel, Fault>(
            FiltersModel { src: None, target: None, overrides: None },
        ),
{
}

} // verus!

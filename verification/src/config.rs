//! The configuration tree and its resolution into link descriptors.
//!
//! A mapping's keys are path segments. A sequence holds mappings; one with a
//! `src` key is a leaf that names a source and, under `links`, the places
//! that are to lead to it.

use vstd::prelude::*;
use vstd::string::StringExecFns;
use crate::error::{Fault, StowError};
use crate::filter::{passes_src, passes_target, FiltersModel, StowFilters};
use crate::vars::{expand, expand_text, Variables};

verus! {

/// A node of the configuration document.
#[derive(Debug)]
pub enum ConfigValue {
    /// A string scalar.
    Text(String),
    /// Any other scalar.
    Scalar,
    Sequence(Vec<ConfigValue>),
    Mapping(Vec<ConfigEntry>),
}

/// One key of a mapping with what stands under it.
#[derive(Debug)]
pub struct ConfigEntry {
    pub key: ConfigValue,
    pub value: ConfigValue,
}

/// A source and one place that is to lead to it, both interpolated and
/// passed by the filters.
#[derive(Debug, Clone, PartialEq, Eq)]
pub struct LinkDescriptor {
    pub source: String,
    pub target: String,
}

/// What a link descriptor stands for: the two paths as texts.
pub struct DescriptorModel {
    pub source: Seq<char>,
    pub target: Seq<char>,
}

impl View for LinkDescriptor {
    type V = DescriptorModel;

    open spec fn view(&self) -> DescriptorModel {
        DescriptorModel { source: self.source@, target: self.target@ }
    }
}

/// What a list of descriptors stands for, in order.
pub open spec fn descriptors(list: Vec<LinkDescriptor>) -> Seq<DescriptorModel> {
    Seq::new(list@.len(), |i: int| list@[i]@)
}

/// The path that stands for `segment` below `prefix`. An absolute segment
/// stands for itself. Otherwise the two are set side by side, with a `/`
/// between them unless the prefix is empty or ends in one.
pub open spec fn joined(prefix: Seq<char>, segment: Seq<char>) -> Seq<char> {
    if segment.len() > 0 && segment[0] == '/' {
        segment
    } else if prefix.len() == 0 || prefix.last() == '/' {
        prefix + segment
    } else {
        prefix + seq!['/'] + segment
    }
}

/// Builds the path that stands for `segment` below `prefix`.
pub fn join_path(prefix: &str, segment: &str) -> (res: String)
    ensures
        res@ == joined(prefix@, segment@),
{
    let prefix_len = prefix.unicode_len();
    if segment.unicode_len() > 0 && segment.get_char(0) == '/' {
        String::from_str(segment)
    } else if prefix_len == 0 || prefix.get_char(prefix_len - 1) == '/' {
        String::from_str(prefix).concat(segment)
    } else {
        proof {
            reveal_strlit("/");
            assert("/"@ =~= seq!['/']);
        }
        String::from_str(prefix).concat("/").concat(segment)
    }
}

/// The entry's key is the string `name`.
pub open spec fn entry_named(entry: ConfigEntry, name: Seq<char>) -> bool {
    entry.key matches ConfigValue::Text(k) && k@ == name
}

/// The entry at `k` is the first of the mapping whose key is `name`.
pub open spec fn first_named(entries: Seq<ConfigEntry>, name: Seq<char>, k: int) -> bool {
    &&& 0 <= k < entries.len()
    &&& entry_named(entries[k], name)
    &&& forall|j: int| 0 <= j < k ==> !entry_named(#[trigger] entries[j], name)
}

/// Where the first entry with the key `name` stands, if there is one.
pub open spec fn key_index(entries: Seq<ConfigEntry>, name: Seq<char>) -> Option<int> {
    if exists|k: int| first_named(entries, name, k) {
        Some(choose|k: int| first_named(entries, name, k))
    } else {
        None
    }
}

/// Finds the first entry of a mapping whose key is the string `name`.
pub fn find_key(entries: &Vec<ConfigEntry>, name: &str) -> (res: Option<usize>)
    ensures
        match key_index(entries@, name@) {
            Some(k) => res is Some && res->Some_0 as int == k && 0 <= k < entries@.len(),
            None => res is None,
        },
{
    let wanted = String::from_str(name);
    let mut i: usize = 0;
    while i < entries.len()
        invariant
            i <= entries.len(),
            wanted@ == name@,
            forall|j: int| 0 <= j < i ==> !entry_named(#[trigger] entries@[j], name@),
        decreases entries.len() - i,
    {
        let hit = match &entries[i].key {
            ConfigValue::Text(k) => *k == wanted,
            _ => false,
        };
        if hit {
            proof {
                assert(first_named(entries@, name@, i as int));
                let c = choose|k: int| first_named(entries@, name@, k);
                if c < i {
                    assert(!entry_named(entries@[c], name@));
                }
                if i < c {
                    assert(!entry_named(entries@[i as int], name@));
                }
            }
            return Some(i);
        }
        i += 1;
    }
    proof {
        if exists|k: int| first_named(entries@, name@, k) {
            let c = choose|k: int| first_named(entries@, name@, k);
            assert(!entry_named(entries@[c], name@));
        }
    }
    None
}

/// How far a resolution has come: the bindings as interpolation left them,
/// the descriptors emitted so far, and the failure that stopped it, if any.
pub struct Resolved {
    pub bindings: Map<Seq<char>, Seq<char>>,
    pub links: Seq<DescriptorModel>,
    pub fault: Option<Fault>,
}

/// The targets of one leaf from the one at `i` on, in declared order. Each
/// must be a string. The source path and the target are interpolated, the
/// source first; a pair is emitted where the source filter passes the one
/// and the target filter the other, and skipped otherwise. The source path
/// is the same for every target of the leaf.
pub open spec fn resolve_targets(
    filters: FiltersModel,
    depth: nat,
    state: Resolved,
    source_path: Seq<char>,
    targets: Seq<ConfigValue>,
    i: nat,
) -> Resolved
    decreases targets.len() - i,
{
    if i >= targets.len() {
        state
    } else {
        match targets[i as int] {
            ConfigValue::Text(raw_target) => {
                let src = expand(state.bindings, source_path, 0, depth, seq![]);
                match src.text {
                    Err(fault) => Resolved { bindings: src.bindings, fault: Some(fault), ..state },
                    Ok(source) => if !passes_src(filters, source) {
                        resolve_targets(
                            filters,
                            depth,
                            Resolved { bindings: src.bindings, ..state },
                            source_path,
                            targets,
                            i + 1,
                        )
                    } else {
                        let tgt = expand(src.bindings, raw_target@, 0, depth, seq![]);
                        match tgt.text {
                            Err(fault) => Resolved {
                                bindings: tgt.bindings,
                                fault: Some(fault),
                                ..state
                            },
                            Ok(target) => resolve_targets(
                                filters,
                                depth,
                                Resolved {
                                    bindings: tgt.bindings,
                                    links: if passes_target(filters, target) {
                                        state.links.push(
                                            DescriptorModel { source: source, target: target },
                                        )
                                    } else {
                                        state.links
                                    },
                                    fault: None,
                                },
                                source_path,
                                targets,
                                i + 1,
                            ),
                        }
                    },
                }
            },
            _ => Resolved { fault: Some(Fault::Malformed(source_path)), ..state },
        }
    }
}

/// A leaf: `src` must be a string and `links` a sequence. The source path is
/// the prefix with the leaf's own segment below it.
pub open spec fn resolve_leaf(
    filters: FiltersModel,
    depth: nat,
    state: Resolved,
    prefix: Seq<char>,
    entries: Seq<ConfigEntry>,
) -> Resolved {
    match key_index(entries, "src"@) {
        Some(at) => match entries[at].value {
            ConfigValue::Text(segment) => match key_index(entries, "links"@) {
                Some(links_at) => match entries[links_at].value {
                    ConfigValue::Sequence(targets) => resolve_targets(
                        filters,
                        depth,
                        state,
                        joined(prefix, segment@),
                        targets@,
                        0,
                    ),
                    _ => Resolved {
                        fault: Some(Fault::Malformed(joined(prefix, segment@))),
                        ..state
                    },
                },
                None => Resolved {
                    fault: Some(Fault::Malformed(joined(prefix, segment@))),
                    ..state
                },
            },
            _ => Resolved { fault: Some(Fault::Malformed(prefix)), ..state },
        },
        None => Resolved { fault: Some(Fault::Malformed(prefix)), ..state },
    }
}

/// A node below `prefix`: a mapping or a sequence; anything else is
/// malformed.
pub open spec fn resolve_value(
    filters: FiltersModel,
    depth: nat,
    state: Resolved,
    prefix: Seq<char>,
    node: ConfigValue,
) -> Resolved
    decreases node, 0nat,
{
    match node {
        ConfigValue::Mapping(entries) => resolve_mapping(filters, depth, state, prefix, entries, 0),
        ConfigValue::Sequence(items) => resolve_sequence(filters, depth, state, prefix, items, 0),
        _ => Resolved { fault: Some(Fault::Malformed(prefix)), ..state },
    }
}

/// The entries of a mapping from the one at `i` on, in declared order. Each
/// key must be a string; it is a segment below the prefix for what stands
/// under it, and for that alone.
pub open spec fn resolve_mapping(
    filters: FiltersModel,
    depth: nat,
    state: Resolved,
    prefix: Seq<char>,
    entries: Vec<ConfigEntry>,
    i: nat,
) -> Resolved
    decreases entries, entries.len() - i,
{
    if i >= entries.len() {
        state
    } else {
        match entries[i as int].key {
            ConfigValue::Text(segment) => {
                let below = resolve_value(
                    filters,
                    depth,
                    state,
                    joined(prefix, segment@),
                    entries[i as int].value,
                );
                if below.fault is Some {
                    below
                } else {
                    resolve_mapping(filters, depth, below, prefix, entries, i + 1)
                }
            },
            _ => Resolved { fault: Some(Fault::Malformed(prefix)), ..state },
        }
    }
}

/// The items of a sequence from the one at `i` on, in declared order. Each
/// must be a mapping: a leaf where it has a `src` key, and otherwise a
/// mapping of further segments.
pub open spec fn resolve_sequence(
    filters: FiltersModel,
    depth: nat,
    state: Resolved,
    prefix: Seq<char>,
    items: Vec<ConfigValue>,
    i: nat,
) -> Resolved
    decreases items, items.len() - i,
{
    if i >= items.len() {
        state
    } else {
        match items[i as int] {
            ConfigValue::Mapping(entries) => {
                let below = if key_index(entries@, "src"@) is Some {
                    resolve_leaf(filters, depth, state, prefix, entries@)
                } else {
                    resolve_mapping(filters, depth, state, prefix, entries, 0)
                };
                if below.fault is Some {
                    below
                } else {
                    resolve_sequence(filters, depth, below, prefix, items, i + 1)
                }
            },
            _ => Resolved { fault: Some(Fault::Malformed(prefix)), ..state },
        }
    }
}

/// A leaf that names a source and holds no `links` is malformed: resolution
/// fails at the leaf's source path and emits nothing for it.
pub proof fn lemma_leaf_without_links_is_malformed(
    filters: FiltersModel,
    depth: nat,
    state: Resolved,
    prefix: Seq<char>,
    entries: Seq<ConfigEntry>,
)
    requires
        key_index(entries, "src"@) is Some,
        entries[key_index(entries, "src"@)->Some_0].value is Text,
        key_index(entries, "links"@) is None,
    ensures
        resolve_leaf(filters, depth, state, prefix, entries).fault is Some,
        resolve_leaf(filters, depth, state, prefix, entries).fault->Some_0 is Malformed,
        resolve_leaf(filters, depth, state, prefix, entries).links == state.links,
        resolve_leaf(filters, depth, state, prefix, entries).bindings == state.bindings,
{
}

/// Every descriptor of the list has a source that the source filter passes
/// and a target that the target filter passes.
pub open spec fn all_pass(filters: FiltersModel, links: Seq<DescriptorModel>) -> bool {
    forall|i: int|
        0 <= i < links.len() ==> passes_src(filters, (#[trigger] links[i]).source)
            && passes_target(filters, links[i].target)
}

/// Everything of `before` stands in `after`, at the same place.
pub open spec fn kept(before: Seq<DescriptorModel>, after: Seq<DescriptorModel>) -> bool {
    &&& before.len() <= after.len()
    &&& forall|i: int| 0 <= i < before.len() ==> #[trigger] after[i] == before[i]
}

/// The targets of a leaf add descriptors after those that are there, and
/// only such that the filters pass.
pub proof fn lemma_targets_pass_filters(
    filters: FiltersModel,
    depth: nat,
    state: Resolved,
    source_path: Seq<char>,
    targets: Seq<ConfigValue>,
    i: nat,
)
    requires
        all_pass(filters, state.links),
    ensures
        all_pass(filters, resolve_targets(filters, depth, state, source_path, targets, i).links),
        kept(state.links, resolve_targets(filters, depth, state, source_path, targets, i).links),
    decreases targets.len() - i,
{
    if i < targets.len() {
        if let ConfigValue::Text(raw_target) = targets[i as int] {
            let src = expand(state.bindings, source_path, 0, depth, seq![]);
            if let Ok(source) = src.text {
                if !passes_src(filters, source) {
                    lemma_targets_pass_filters(
                        filters,
                        depth,
                        Resolved { bindings: src.bindings, ..state },
                        source_path,
                        targets,
                        i + 1,
                    );
                } else {
                    let tgt = expand(src.bindings, raw_target@, 0, depth, seq![]);
                    if let Ok(target) = tgt.text {
                        let next = Resolved {
                            bindings: tgt.bindings,
                            links: if passes_target(filters, target) {
                                state.links.push(DescriptorModel { source: source, target: target })
                            } else {
                                state.links
                            },
                            fault: None,
                        };
                        lemma_targets_pass_filters(
                            filters,
                            depth,
                            next,
                            source_path,
                            targets,
                            i + 1,
                        );
                    }
                }
            }
        }
    }
}

/// A leaf adds descriptors after those that are there, and only such that
/// the filters pass.
pub proof fn lemma_leaf_passes_filters(
    filters: FiltersModel,
    depth: nat,
    state: Resolved,
    prefix: Seq<char>,
    entries: Seq<ConfigEntry>,
)
    requires
        all_pass(filters, state.links),
    ensures
        all_pass(filters, resolve_leaf(filters, depth, state, prefix, entries).links),
        kept(state.links, resolve_leaf(filters, depth, state, prefix, entries).links),
{
    if let Some(at) = key_index(entries, "src"@) {
        if let ConfigValue::Text(segment) = entries[at].value {
            if let Some(links_at) = key_index(entries, "links"@) {
                if let ConfigValue::Sequence(targets) = entries[links_at].value {
                    lemma_targets_pass_filters(
                        filters,
                        depth,
                        state,
                        joined(prefix, segment@),
                        targets@,
                        0,
                    );
                }
            }
        }
    }
}

/// Filtering comes before a descriptor is made: whatever a node resolves
/// to, with or without a failure, every descriptor it adds has passed the
/// source filter and the target filter. What was emitted before stays, in
/// its order, before what the node adds.
pub proof fn lemma_value_passes_filters(
    filters: FiltersModel,
    depth: nat,
    state: Resolved,
    prefix: Seq<char>,
    node: ConfigValue,
)
    requires
        all_pass(filters, state.links),
    ensures
        all_pass(filters, resolve_value(filters, depth, state, prefix, node).links),
        kept(state.links, resolve_value(filters, depth, state, prefix, node).links),
    decreases node, 0nat,
{
    match node {
        ConfigValue::Mapping(entries) => {
            lemma_mapping_passes_filters(filters, depth, state, prefix, entries, 0);
        },
        ConfigValue::Sequence(items) => {
            lemma_sequence_passes_filters(filters, depth, state, prefix, items, 0);
        },
        _ => {},
    }
}

/// The entries of a mapping add descriptors after those that are there, and
/// only such that the filters pass.
pub proof fn lemma_mapping_passes_filters(
    filters: FiltersModel,
    depth: nat,
    state: Resolved,
    prefix: Seq<char>,
    entries: Vec<ConfigEntry>,
    i: nat,
)
    requires
        all_pass(filters, state.links),
    ensures
        all_pass(filters, resolve_mapping(filters, depth, state, prefix, entries, i).links),
        kept(state.links, resolve_mapping(filters, depth, state, prefix, entries, i).links),
    decreases entries, entries.len() - i,
{
    if i < entries.len() {
        if let ConfigValue::Text(segment) = entries[i as int].key {
            let path = joined(prefix, segment@);
            lemma_value_passes_filters(filters, depth, state, path, entries[i as int].value);
            let below = resolve_value(filters, depth, state, path, entries[i as int].value);
            if below.fault is None {
                lemma_mapping_passes_filters(filters, depth, below, prefix, entries, i + 1);
            }
        }
    }
}

/// The items of a sequence add descriptors after those that are there, and
/// only such that the filters pass.
pub proof fn lemma_sequence_passes_filters(
    filters: FiltersModel,
    depth: nat,
    state: Resolved,
    prefix: Seq<char>,
    items: Vec<ConfigValue>,
    i: nat,
)
    requires
        all_pass(filters, state.links),
    ensures
        all_pass(filters, resolve_sequence(filters, depth, state, prefix, items, i).links),
        kept(state.links, resolve_sequence(filters, depth, state, prefix, items, i).links),
    decreases items, items.len() - i,
{
    if i < items.len() {
        if let ConfigValue::Mapping(entries) = items[i as int] {
            let below = if key_index(entries@, "src"@) is Some {
                lemma_leaf_passes_filters(filters, depth, state, prefix, entries@);
                resolve_leaf(filters, depth, state, prefix, entries@)
            } else {
                lemma_mapping_passes_filters(filters, depth, state, prefix, entries, 0);
                resolve_mapping(filters, depth, state, prefix, entries, 0)
            };
            if below.fault is None {
                lemma_sequence_passes_filters(filters, depth, below, prefix, items, i + 1);
            }
        }
    }
}

/// Whether a traversal came out as the model says.
pub open spec fn walked(
    res: Result<(), StowError>,
    bindings: Map<Seq<char>, Seq<char>>,
    links: Seq<DescriptorModel>,
    model: Resolved,
) -> bool {
    &&& bindings == model.bindings
    &&& links == model.links
    &&& match model.fault {
        None => res is Ok,
        Some(fault) => res is Err && res->Err_0@ == fault,
    }
}

/// The state from which a traversal goes on.
pub open spec fn underway(variables: Variables, collected: Vec<LinkDescriptor>) -> Resolved {
    Resolved { bindings: variables@, links: descriptors(collected), fault: None }
}

fn emit(collected: &mut Vec<LinkDescriptor>, source: String, target: String)
    ensures
        descriptors(*final(collected)) == descriptors(*old(collected)).push(
            DescriptorModel { source: source@, target: target@ },
        ),
{
    collected.push(LinkDescriptor { source, target });
    assert(descriptors(*collected) =~= descriptors(*old(collected)).push(
        DescriptorModel { source: source@, target: target@ },
    ));
}

/// Resolves the targets of one leaf whose source path is `source_path`.
pub fn traverse_targets(
    filters: &StowFilters,
    depth: usize,
    variables: &mut Variables,
    source_path: &str,
    targets: &Vec<ConfigValue>,
    collected: &mut Vec<LinkDescriptor>,
) -> (res: Result<(), StowError>)
    ensures
        walked(
            res,
            final(variables)@,
            descriptors(*final(collected)),
            resolve_targets(
                filters@,
                depth as nat,
                underway(*old(variables), *old(collected)),
                source_path@,
                targets@,
                0,
            ),
        ),
{
    let ghost start = underway(*variables, *collected);
    let mut i: usize = 0;
    while i < targets.len()
        invariant
            i <= targets.len(),
            start == underway(*old(variables), *old(collected)),
            resolve_targets(filters@, depth as nat, start, source_path@, targets@, 0)
                == resolve_targets(
                filters@,
                depth as nat,
                underway(*variables, *collected),
                source_path@,
                targets@,
                i as nat,
            ),
        decreases targets.len() - i,
    {
        match &targets[i] {
            ConfigValue::Text(raw_target) => {
                let source = match expand_text(source_path, variables, depth) {
                    Ok(source) => source,
                    Err(e) => {
                        return Err(e);
                    },
                };
                if filters.check_src(source.as_str()) {
                    let target = match expand_text(raw_target.as_str(), variables, depth) {
                        Ok(target) => target,
                        Err(e) => {
                            return Err(e);
                        },
                    };
                    if filters.check_target(target.as_str()) {
                        emit(collected, source, target);
                    }
                }
            },
            _ => {
                return Err(StowError::Malformed(String::from_str(source_path)));
            },
        }
        i += 1;
    }
    Ok(())
}

/// Resolves one leaf, given as the entries of its mapping.
pub fn traverse_leaf(
    filters: &StowFilters,
    depth: usize,
    variables: &mut Variables,
    current_src_path: &str,
    entries: &Vec<ConfigEntry>,
    collected: &mut Vec<LinkDescriptor>,
) -> (res: Result<(), StowError>)
    ensures
        walked(
            res,
            final(variables)@,
            descriptors(*final(collected)),
            resolve_leaf(
                filters@,
                depth as nat,
                underway(*old(variables), *old(collected)),
                current_src_path@,
                entries@,
            ),
        ),
{
    let at = match find_key(entries, "src") {
        Some(at) => at,
        None => {
            return Err(StowError::Malformed(String::from_str(current_src_path)));
        },
    };
    let segment = match &entries[at].value {
        ConfigValue::Text(segment) => segment,
        _ => {
            return Err(StowError::Malformed(String::from_str(current_src_path)));
        },
    };
    let source_path = join_path(current_src_path, segment.as_str());
    let links_at = match find_key(entries, "links") {
        Some(links_at) => links_at,
        None => {
            return Err(StowError::Malformed(source_path));
        },
    };
    match &entries[links_at].value {
        ConfigValue::Sequence(targets) => traverse_targets(
            filters,
            depth,
            variables,
            source_path.as_str(),
            targets,
            collected,
        ),
        _ => Err(StowError::Malformed(source_path)),
    }
}

/// Resolves the items of a sequence below `current_src_path`.
pub fn traverse_sequence(
    filters: &StowFilters,
    depth: usize,
    variables: &mut Variables,
    stowables: &Vec<ConfigValue>,
    current_src_path: &str,
    collected: &mut Vec<LinkDescriptor>,
) -> (res: Result<(), StowError>)
    ensures
        walked(
            res,
            final(variables)@,
            descriptors(*final(collected)),
            resolve_sequence(
                filters@,
                depth as nat,
                underway(*old(variables), *old(collected)),
                current_src_path@,
                *stowables,
                0,
            ),
        ),
    decreases stowables,
{
    let ghost start = underway(*variables, *collected);
    let mut i: usize = 0;
    while i < stowables.len()
        invariant
            i <= stowables.len(),
            start == underway(*old(variables), *old(collected)),
            resolve_sequence(filters@, depth as nat, start, current_src_path@, *stowables, 0)
                == resolve_sequence(
                filters@,
                depth as nat,
                underway(*variables, *collected),
                current_src_path@,
                *stowables,
                i as nat,
            ),
        decreases stowables.len() - i,
    {
        match &stowables[i] {
            ConfigValue::Mapping(stowable) => {
                let below = if find_key(stowable, "src").is_some() {
                    traverse_leaf(filters, depth, variables, current_src_path, stowable, collected)
                } else {
                    traverse_mapping(
                        filters,
                        depth,
                        variables,
                        stowable,
                        current_src_path,
                        collected,
                    )
                };
                match below {
                    Ok(()) => {},
                    Err(e) => {
                        return Err(e);
                    },
                }
            },
            _ => {
                return Err(StowError::Malformed(String::from_str(current_src_path)));
            },
        }
        i += 1;
    }
    Ok(())
}

/// Resolves a node below `current_src_path`.
pub fn traverse_value(
    filters: &StowFilters,
    depth: usize,
    variables: &mut Variables,
    current_value: &ConfigValue,
    current_src_path: &str,
    collected: &mut Vec<LinkDescriptor>,
) -> (res: Result<(), StowError>)
    ensures
        walked(
            res,
            final(variables)@,
            descriptors(*final(collected)),
            resolve_value(
                filters@,
                depth as nat,
                underway(*old(variables), *old(collected)),
                current_src_path@,
                *current_value,
            ),
        ),
    decreases current_value,
{
    match current_value {
        ConfigValue::Mapping(entries) => traverse_mapping(
            filters,
            depth,
            variables,
            entries,
            current_src_path,
            collected,
        ),
        ConfigValue::Sequence(items) => traverse_sequence(
            filters,
            depth,
            variables,
            items,
            current_src_path,
            collected,
        ),
        _ => Err(StowError::Malformed(String::from_str(current_src_path))),
    }
}

/// Resolves the entries of a mapping below `current_src_path`.
pub fn traverse_mapping(
    filters: &StowFilters,
    depth: usize,
    variables: &mut Variables,
    current_node: &Vec<ConfigEntry>,
    current_src_path: &str,
    collected: &mut Vec<LinkDescriptor>,
) -> (res: Result<(), StowError>)
    ensures
        walked(
            res,
            final(variables)@,
            descriptors(*final(collected)),
            resolve_mapping(
                filters@,
                depth as nat,
                underway(*old(variables), *old(collected)),
                current_src_path@,
                *current_node,
                0,
            ),
        ),
    decreases current_node,
{
    let ghost start = underway(*variables, *collected);
    let mut i: usize = 0;
    while i < current_node.len()
        invariant
            i <= current_node.len(),
            start == underway(*old(variables), *old(collected)),
            resolve_mapping(filters@, depth as nat, start, current_src_path@, *current_node, 0)
                == resolve_mapping(
                filters@,
                depth as nat,
                underway(*variables, *collected),
                current_src_path@,
                *current_node,
                i as nat,
            ),
        decreases current_node.len() - i,
    {
        match &current_node[i].key {
            ConfigValue::Text(name) => {
                let below_path = join_path(current_src_path, name.as_str());
                match traverse_value(
                    filters,
                    depth,
                    variables,
                    &current_node[i].value,
                    below_path.as_str(),
                    collected,
                ) {
                    Ok(()) => {},
                    Err(e) => {
                        return Err(e);
                    },
                }
            },
            _ => {
                return Err(StowError::Malformed(String::from_str(current_src_path)));
            },
        }
        i += 1;
    }
    Ok(())
}

} // verus!

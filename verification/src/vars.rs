//! Variables and their interpolation into text: `${NAME}` is replaced by the
//! value bound to `NAME`, which is itself interpolated first.

use vstd::prelude::*;
use vstd::string::StringExecFns;
use crate::error::{Fault, StowError};

verus! {

/// One declaration: a name and the value bound to it.
#[derive(Debug, Clone, PartialEq, Eq)]
pub struct Binding {
    pub name: String,
    pub value: String,
}

/// The map that a list of declarations amounts to: a later declaration
/// replaces an earlier one of the same name.
pub open spec fn bindings_map(entries: Seq<Binding>) -> Map<Seq<char>, Seq<char>>
    decreases entries.len(),
{
    if entries.len() == 0 {
        Map::empty()
    } else {
        bindings_map(entries.drop_last()).insert(entries.last().name@, entries.last().value@)
    }
}

/// The bindings known while a configuration is resolved.
#[derive(Debug)]
pub struct Variables {
    pub entries: Vec<Binding>,
}

impl View for Variables {
    type V = Map<Seq<char>, Seq<char>>;

    open spec fn view(&self) -> Map<Seq<char>, Seq<char>> {
        bindings_map(self.entries@)
    }
}

/// The value that the latest declaration of `name` binds, if there is one.
pub open spec fn latest(entries: Seq<Binding>, name: Seq<char>) -> Option<Seq<char>>
    decreases entries.len(),
{
    if entries.len() == 0 {
        None
    } else if entries.last().name@ == name {
        Some(entries.last().value@)
    } else {
        latest(entries.drop_last(), name)
    }
}

proof fn lemma_latest_is_bound(entries: Seq<Binding>, name: Seq<char>)
    ensures
        latest(entries, name) == (if bindings_map(entries).contains_key(name) {
            Some(bindings_map(entries)[name])
        } else {
            None
        }),
    decreases entries.len(),
{
    if entries.len() > 0 {
        lemma_latest_is_bound(entries.drop_last(), name);
    }
}

impl Variables {
    /// How deep interpolation may nest: the number of declarations made, which
    /// no chain of distinct names can exceed.
    pub open spec fn spec_depth(&self) -> nat {
        self.entries@.len()
    }

    /// The bindings of a snapshot of declarations, taken in order.
    pub fn new(snapshot: Vec<Binding>) -> (res: Self)
        ensures
            res@ == bindings_map(snapshot@),
            res.entries == snapshot,
    {
        Variables { entries: snapshot }
    }

    /// How deep interpolation may nest.
    pub fn depth(&self) -> (res: usize)
        ensures
            res == self.spec_depth(),
    {
        self.entries.len()
    }

    /// Binds `name` to `value`, in place of what it was bound to.
    pub fn insert(&mut self, name: String, value: String)
        ensures
            final(self)@ == old(self)@.insert(name@, value@),
            final(self).entries@ == old(self).entries@.push(Binding { name: name, value: value }),
    {
        let ghost before = self.entries@;
        self.entries.push(Binding { name, value });
        assert(self.entries@.drop_last() =~= before);
    }

    /// The value bound to `name`, if any.
    pub fn get(&self, name: &String) -> (res: Option<String>)
        ensures
            self@.contains_key(name@) ==> res is Some && res->Some_0@ == self@[name@],
            !self@.contains_key(name@) ==> res is None,
    {
        let mut i: usize = self.entries.len();
        proof {
            assert(self.entries@.take(i as int) =~= self.entries@);
        }
        while i > 0
            invariant
                i <= self.entries.len(),
                latest(self.entries@, name@) == latest(self.entries@.take(i as int), name@),
            decreases i,
        {
            let entry = &self.entries[i - 1];
            proof {
                assert(self.entries@.take(i as int).drop_last() =~= self.entries@.take(i - 1));
                assert(self.entries@.take(i as int).last() == self.entries@[i - 1]);
            }
            if entry.name == *name {
                proof {
                    lemma_latest_is_bound(self.entries@, name@);
                }
                return Some(entry.value.clone());
            }
            i -= 1;
        }
        proof {
            lemma_latest_is_bound(self.entries@, name@);
        }
        None
    }
}

/// The index `k` is where the first `=` of the text stands.
pub open spec fn first_equals(text: Seq<char>, k: int) -> bool {
    &&& 0 <= k < text.len()
    &&& text[k] == '='
    &&& forall|j: int| 0 <= j < k ==> text[j] != '='
}

/// Where the first `=` of a text that holds one stands.
pub open spec fn equals_at(text: Seq<char>) -> int {
    choose|k: int| first_equals(text, k)
}

/// The name that a declaration binds: what stands before its first `=`.
pub open spec fn declared_name(text: Seq<char>) -> Seq<char> {
    text.subrange(0, equals_at(text))
}

/// The value that a declaration binds: everything after its first `=`,
/// further `=` included.
pub open spec fn declared_value(text: Seq<char>) -> Seq<char> {
    text.subrange(equals_at(text) + 1, text.len() as int)
}

proof fn lemma_first_equals_unique(text: Seq<char>, k: int)
    requires
        first_equals(text, k),
    ensures
        equals_at(text) == k,
        text.contains('='),
{
    let c = equals_at(text);
    assert(first_equals(text, c));
    if c < k {
        assert(text[c] != '=');
    }
    if k < c {
        assert(text[k] != '=');
    }
}

/// Splits a declaration `KEY=VALUE` at its first `=`. A text without `=` is
/// no declaration.
pub fn parse_variable(var: &str) -> (res: Result<(String, String), StowError>)
    ensures
        var@.contains('=') ==> res is Ok && res->Ok_0.0@ == declared_name(var@) && res->Ok_0.1@
            == declared_value(var@),
        var@.contains('=') ==> res is Ok && res->Ok_0.0@ + seq!['='] + res->Ok_0.1@ == var@
            && !res->Ok_0.0@.contains('='),
        !var@.contains('=') ==> res is Err && res->Err_0@ == Fault::InvalidVariableSyntax(var@),
{
    let n = var.unicode_len();
    let mut i: usize = 0;
    while i < n
        invariant
            i <= n,
            n == var@.len(),
            forall|j: int| 0 <= j < i ==> var@[j] != '=',
        decreases n - i,
    {
        if var.get_char(i) == '=' {
            let key = var.substring_char(0, i);
            let value = var.substring_char(i + 1, n);
            proof {
                lemma_first_equals_unique(var@, i as int);
                assert(key@ + seq!['='] + value@ =~= var@);
                assert(!key@.contains('=')) by {
                    if key@.contains('=') {
                        let j = choose|j: int| 0 <= j < key@.len() && key@[j] == '=';
                        assert(var@[j] == '=');
                    }
                }
            }
            return Ok((String::from_str(key), String::from_str(value)));
        }
        i += 1;
    }
    proof {
        if var@.contains('=') {
            let j = choose|j: int| 0 <= j < var@.len() && var@[j] == '=';
            assert(var@[j] != '=');
        }
    }
    Err(StowError::InvalidVariableSyntax(String::from_str(var)))
}

/// The characters that a variable's name is made of: ASCII letters, digits
/// and the underscore.
pub open spec fn is_name_char(c: char) -> bool {
    ('a' <= c && c <= 'z') || ('A' <= c && c <= 'Z') || ('0' <= c && c <= '9') || c == '_'
}

fn name_char(c: char) -> (res: bool)
    ensures
        res == is_name_char(c),
{
    ('a' <= c && c <= 'z') || ('A' <= c && c <= 'Z') || ('0' <= c && c <= '9') || c == '_'
}

/// How many name characters stand in a row from `from` on.
pub open spec fn name_run(text: Seq<char>, from: int) -> nat
    decreases text.len() - from,
{
    if 0 <= from < text.len() && is_name_char(text[from]) {
        1 + name_run(text, from + 1)
    } else {
        0
    }
}

/// The length of the name of the reference `${NAME}` that starts at `pos`,
/// where one starts there: `$`, `{`, one or more name characters, `}`.
pub open spec fn reference_at(text: Seq<char>, pos: int) -> Option<nat> {
    let run = name_run(text, pos + 2);
    if 0 <= pos && pos + 2 + run < text.len() && text[pos] == '$' && text[pos + 1] == '{' && run
        >= 1 && text[pos + 2 + run] == '}' {
        Some(run)
    } else {
        None
    }
}

fn reference_len(text: &str, n: usize, pos: usize) -> (res: Option<usize>)
    requires
        n == text@.len(),
        pos < n,
    ensures
        match reference_at(text@, pos as int) {
            Some(run) => res is Some && res->Some_0 as nat == run && pos + 2 + run < n,
            None => res is None,
        },
{
    if n - pos <= 2 {
        assert(name_run(text@, pos + 2) == 0);
        return None;
    }
    if text.get_char(pos) != '$' || text.get_char(pos + 1) != '{' {
        return None;
    }
    let mut end: usize = pos + 2;
    loop
        invariant
            n == text@.len(),
            pos + 2 <= end <= n,
            name_run(text@, pos + 2) == (end - (pos + 2)) + name_run(text@, end as int),
        ensures
            name_run(text@, end as int) == 0,
        decreases n - end,
    {
        if end >= n {
            break ;
        }
        if !name_char(text.get_char(end)) {
            break ;
        }
        end += 1;
    }
    let run: usize = end - (pos + 2);
    if run >= 1 && end < n && text.get_char(end) == '}' {
        Some(run)
    } else {
        None
    }
}

/// What interpolation leaves behind: the bindings, in which every variable
/// that was met is bound to its interpolated value, and the text or the
/// failure that stopped it.
pub struct Expansion {
    pub bindings: Map<Seq<char>, Seq<char>>,
    pub text: Result<Seq<char>, Fault>,
}

/// Interpolates `text` from `pos` on, after `done`, the output for what
/// stands before `pos`. The text is read once from left to right. A
/// character that starts no reference is copied. A reference to a name
/// without a binding fails. Otherwise the bound value is interpolated one
/// level deeper, bound to the name in place of the old value, and put in
/// place of the reference; it is not read again at this level. A reference
/// met when no further level is left fails as a cycle.
pub open spec fn expand(
    bindings: Map<Seq<char>, Seq<char>>,
    text: Seq<char>,
    pos: nat,
    depth: nat,
    done: Seq<char>,
) -> Expansion
    decreases depth, text.len() - pos,
{
    if pos >= text.len() {
        Expansion { bindings: bindings, text: Ok(done) }
    } else {
        match reference_at(text, pos as int) {
            None => expand(bindings, text, pos + 1, depth, done.push(text[pos as int])),
            Some(run) => {
                let name = text.subrange(pos as int + 2, pos as int + 2 + run as int);
                if !bindings.contains_key(name) {
                    Expansion { bindings: bindings, text: Err(Fault::UndefinedVariable(name)) }
                } else if depth == 0 {
                    Expansion { bindings: bindings, text: Err(Fault::CyclicVariable(name)) }
                } else {
                    let inner = expand(bindings, bindings[name], 0, (depth - 1) as nat, seq![]);
                    match inner.text {
                        Err(_) => inner,
                        Ok(value) => expand(
                            inner.bindings.insert(name, value),
                            text,
                            pos + run + 3,
                            depth,
                            done + value,
                        ),
                    }
                }
            },
        }
    }
}

proof fn lemma_plain_rest(
    bindings: Map<Seq<char>, Seq<char>>,
    text: Seq<char>,
    pos: nat,
    depth: nat,
    done: Seq<char>,
)
    requires
        pos <= text.len(),
        forall|at: int| 0 <= at < text.len() ==> reference_at(text, at) is None,
    ensures
        expand(bindings, text, pos, depth, done) == (Expansion {
            bindings: bindings,
            text: Ok(done + text.subrange(pos as int, text.len() as int)),
        }),
    decreases text.len() - pos,
{
    if pos >= text.len() {
        assert(done + text.subrange(pos as int, text.len() as int) =~= done);
    } else {
        lemma_plain_rest(bindings, text, pos + 1, depth, done.push(text[pos as int]));
        assert(done.push(text[pos as int]) + text.subrange(pos as int + 1, text.len() as int) =~= done
            + text.subrange(pos as int, text.len() as int));
    }
}

/// A text in which no reference starts is its own interpolation, at any
/// depth, and leaves the bindings as they were.
pub proof fn lemma_plain_text_is_kept(
    bindings: Map<Seq<char>, Seq<char>>,
    text: Seq<char>,
    depth: nat,
)
    requires
        forall|at: int| 0 <= at < text.len() ==> reference_at(text, at) is None,
    ensures
        expand(bindings, text, 0, depth, seq![]) == (Expansion {
            bindings: bindings,
            text: Ok(text),
        }),
{
    lemma_plain_rest(bindings, text, 0, depth, seq![]);
    assert(Seq::<char>::empty() + text.subrange(0, text.len() as int) =~= text);
}

/// The interpolation was stopped because it nested too deep.
pub open spec fn stopped_by_depth(outcome: Expansion) -> bool {
    outcome.text is Err && outcome.text->Err_0 is CyclicVariable
}

/// The bound on nesting decides nothing but where to stop: an interpolation
/// that was not stopped by it comes out the same one level deeper, text,
/// failure and bindings alike.
pub proof fn lemma_deeper_changes_nothing(
    bindings: Map<Seq<char>, Seq<char>>,
    text: Seq<char>,
    pos: nat,
    depth: nat,
    done: Seq<char>,
)
    requires
        !stopped_by_depth(expand(bindings, text, pos, depth, done)),
    ensures
        expand(bindings, text, pos, depth + 1, done) == expand(bindings, text, pos, depth, done),
    decreases depth, text.len() - pos,
{
    if pos < text.len() {
        match reference_at(text, pos as int) {
            None => {
                lemma_deeper_changes_nothing(
                    bindings,
                    text,
                    pos + 1,
                    depth,
                    done.push(text[pos as int]),
                );
            },
            Some(run) => {
                let name = text.subrange(pos as int + 2, pos as int + 2 + run as int);
                if bindings.contains_key(name) && depth > 0 {
                    let inner = expand(bindings, bindings[name], 0, (depth - 1) as nat, seq![]);
                    lemma_deeper_changes_nothing(
                        bindings,
                        bindings[name],
                        0,
                        (depth - 1) as nat,
                        seq![],
                    );
                    if let Ok(value) = inner.text {
                        lemma_deeper_changes_nothing(
                            inner.bindings.insert(name, value),
                            text,
                            pos + run + 3,
                            depth,
                            done + value,
                        );
                    }
                }
            },
        }
    }
}

/// Whether an interpolation came out as the model says.
pub open spec fn expanded(res: Result<String, StowError>, model: Result<Seq<char>, Fault>) -> bool {
    match model {
        Ok(text) => res is Ok && res->Ok_0@ == text,
        Err(fault) => res is Err && res->Err_0@ == fault,
    }
}

/// Interpolates `text` with at most `depth` levels of nesting.
pub fn expand_text(text: &str, known_variables: &mut Variables, depth: usize) -> (res: Result<
    String,
    StowError,
>)
    ensures
        final(known_variables)@ == expand(
            old(known_variables)@,
            text@,
            0,
            depth as nat,
            seq![],
        ).bindings,
        expanded(res, expand(old(known_variables)@, text@, 0, depth as nat, seq![]).text),
    decreases depth,
{
    let ghost start = known_variables@;
    let n = text.unicode_len();
    let mut pos: usize = 0;
    let mut out = String::new();
    while pos < n
        invariant
            pos <= n,
            n == text@.len(),
            start == old(known_variables)@,
            expand(start, text@, 0, depth as nat, seq![]) == expand(
                known_variables@,
                text@,
                pos as nat,
                depth as nat,
                out@,
            ),
        decreases n - pos,
    {
        match reference_len(text, n, pos) {
            None => {
                let piece = text.substring_char(pos, pos + 1);
                proof {
                    assert(out@ + piece@ =~= out@.push(text@[pos as int]));
                }
                out.append(piece);
                pos += 1;
            },
            Some(run) => {
                let name = String::from_str(text.substring_char(pos + 2, pos + 2 + run));
                proof {
                    assert(reference_at(text@, pos as int) == Some(run as nat));
                    assert(name@ == text@.subrange(pos as int + 2, pos as int + 2 + run as int));
                }
                match known_variables.get(&name) {
                    None => {
                        return Err(StowError::UndefinedVariable(name));
                    },
                    Some(value) => {
                        if depth == 0 {
                            return Err(StowError::CyclicVariable(name));
                        }
                        match expand_text(value.as_str(), known_variables, depth - 1) {
                            Err(e) => {
                                return Err(e);
                            },
                            Ok(resolved) => {
                                out.append(resolved.as_str());
                                known_variables.insert(name, resolved);
                                pos = pos + run + 3;
                            },
                        }
                    },
                }
            },
        }
    }
    Ok(out)
}

/// Interpolates every `${NAME}` of `text`. Nesting is followed as deep as
/// there are declarations; a reference beyond that can only close a cycle.
pub fn var_replacement(text: &str, known_variables: &mut Variables) -> (res: Result<
    String,
    StowError,
>)
    ensures
        final(known_variables)@ == expand(
            old(known_variables)@,
            text@,
            0,
            old(known_variables).spec_depth(),
            seq![],
        ).bindings,
        expanded(
            res,
            expand(old(known_variables)@, text@, 0, old(known_variables).spec_depth(), seq![]).text,
        ),
{
    let depth = known_variables.depth();
    expand_text(text, known_variables, depth)
}

} // verus!

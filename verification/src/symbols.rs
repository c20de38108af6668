//! The assembler's symbol table: labels with their addresses, variables
//! with their values, and the start address of the program.
use vstd::prelude::*;
use crate::text::{chars_of, same_chars};

verus! {

/// A label: its name, the source line (counted from 0) it was found on and
/// the address it stands for.
pub struct Label {
    pub name: String,
    pub line: usize,
    pub address: usize,
}

/// A variable (`name = value`): its name, its source line (counted from 0)
/// and its value.
pub struct Variable {
    pub name: String,
    pub line: usize,
    pub value: i32,
}

/// The symbols of a program: its labels, its variables and its start
/// address. A name is looked up by its first entry (see `label_of` and
/// `variable_of`); `insert_label` and `insert_variable` replace that entry,
/// so a later definition replaces an earlier one.
pub struct SymbolTable {
    pub labels: Vec<Label>,
    pub variables: Vec<Variable>,
    pub start: i32,
}

/// The index of the first of `keys`, from `i` on, that equals `name`.
pub open spec fn first_key(keys: Seq<Seq<char>>, name: Seq<char>, i: int) -> Option<int>
    decreases keys.len() - i,
{
    if i < 0 || i >= keys.len() {
        None
    } else if keys[i] == name {
        Some(i)
    } else {
        first_key(keys, name, i + 1)
    }
}

pub open spec fn label_names(ls: Seq<Label>) -> Seq<Seq<char>> {
    ls.map_values(|l: Label| l.name@)
}

pub open spec fn variable_names(vs: Seq<Variable>) -> Seq<Seq<char>> {
    vs.map_values(|v: Variable| v.name@)
}

/// The index of the first label named `name`.
pub open spec fn find_label(ls: Seq<Label>, name: Seq<char>) -> Option<int> {
    first_key(label_names(ls), name, 0)
}

/// The index of the first variable named `name`.
pub open spec fn find_variable(vs: Seq<Variable>, name: Seq<char>) -> Option<int> {
    first_key(variable_names(vs), name, 0)
}

proof fn lemma_first_key_bounds(keys: Seq<Seq<char>>, name: Seq<char>, i: int)
    ensures
        first_key(keys, name, i) matches Some(k) ==> i <= k < keys.len() && keys[k] == name,
    decreases keys.len() - i,
{
    if 0 <= i < keys.len() && keys[i] != name {
        lemma_first_key_bounds(keys, name, i + 1);
    }
}

proof fn lemma_first_key_push(keys: Seq<Seq<char>>, x: Seq<char>, name: Seq<char>, i: int)
    requires
        0 <= i,
    ensures
        first_key(keys.push(x), name, i) == if first_key(keys, name, i) is Some {
            first_key(keys, name, i)
        } else if x == name && i <= keys.len() {
            Some(keys.len() as int)
        } else {
            None
        },
    decreases keys.len() + 1 - i,
{
    if i < keys.len() {
        assert(keys.push(x)[i] == keys[i]);
        if keys[i] != name {
            lemma_first_key_push(keys, x, name, i + 1);
        }
    } else if i == keys.len() {
        assert(keys.push(x)[i] == x);
        assert(first_key(keys.push(x), name, i + 1) is None);
    }
}

proof fn lemma_first_key_some(keys: Seq<Seq<char>>, name: Seq<char>, j: int, i: int)
    requires
        0 <= j <= i < keys.len(),
        keys[i] == name,
    ensures
        first_key(keys, name, j) is Some,
    decreases i - j,
{
    if keys[j] != name {
        lemma_first_key_some(keys, name, j + 1, i);
    }
}

/// A label in the table can be looked up by its name.
pub proof fn lemma_label_present(ls: Seq<Label>, i: int)
    requires
        0 <= i < ls.len(),
    ensures
        label_of(ls, ls[i].name@) is Some,
{
    assert(label_names(ls)[i] == ls[i].name@);
    lemma_first_key_some(label_names(ls), ls[i].name@, 0, i);
}

/// The line and address of the label `name`.
pub open spec fn label_of(ls: Seq<Label>, name: Seq<char>) -> Option<(usize, usize)> {
    match find_label(ls, name) {
        Some(i) => Some((ls[i].line, ls[i].address)),
        None => None,
    }
}

/// The line and value of the variable `name`.
pub open spec fn variable_of(vs: Seq<Variable>, name: Seq<char>) -> Option<(usize, i32)> {
    match find_variable(vs, name) {
        Some(i) => Some((vs[i].line, vs[i].value)),
        None => None,
    }
}

/// The start address that programs have when no `.start` directive gives one.
pub const DEFAULT_START: i32 = 100;

impl SymbolTable {
    /// Names fit in memory twice over and line numbers can be counted from 1.
    pub open spec fn wf(&self) -> bool {
        &&& forall|i: int|
            0 <= i < self.labels@.len() ==> (#[trigger] self.labels@[i]).name@.len() <= usize::MAX
                / 2 && self.labels@[i].line < usize::MAX
        &&& forall|i: int|
            0 <= i < self.variables@.len() ==> (#[trigger] self.variables@[i]).name@.len()
                <= usize::MAX / 2 && self.variables@[i].line < usize::MAX
    }

    /// An empty table with the default start address.
    pub fn new() -> (t: SymbolTable)
        ensures
            t.wf(),
            t.labels@.len() == 0,
            t.variables@.len() == 0,
            t.start == DEFAULT_START,
    {
        SymbolTable { labels: Vec::new(), variables: Vec::new(), start: DEFAULT_START }
    }

    fn label_index(&self, name: &[char]) -> (r: Option<usize>)
        ensures
            match r {
                Some(i) => find_label(self.labels@, name@) == Some(i as int) && i
                    < self.labels@.len() && self.labels@[i as int].name@ == name@,
                None => find_label(self.labels@, name@) is None,
            },
    {
        let ghost keys = label_names(self.labels@);
        let mut i: usize = 0;
        while i < self.labels.len()
            invariant
                i <= self.labels@.len(),
                keys == label_names(self.labels@),
                first_key(keys, name@, 0) == first_key(keys, name@, i as int),
            decreases self.labels@.len() - i,
        {
            let n = chars_of(self.labels[i].name.as_str());
            assert(keys[i as int] == self.labels@[i as int].name@);
            if same_chars(n.as_slice(), name) {
                return Some(i);
            }
            i = i + 1;
        }
        None
    }

    fn variable_index(&self, name: &[char]) -> (r: Option<usize>)
        ensures
            match r {
                Some(i) => find_variable(self.variables@, name@) == Some(i as int) && i
                    < self.variables@.len() && self.variables@[i as int].name@ == name@,
                None => find_variable(self.variables@, name@) is None,
            },
    {
        let ghost keys = variable_names(self.variables@);
        let mut i: usize = 0;
        while i < self.variables.len()
            invariant
                i <= self.variables@.len(),
                keys == variable_names(self.variables@),
                first_key(keys, name@, 0) == first_key(keys, name@, i as int),
            decreases self.variables@.len() - i,
        {
            let n = chars_of(self.variables[i].name.as_str());
            assert(keys[i as int] == self.variables@[i as int].name@);
            if same_chars(n.as_slice(), name) {
                return Some(i);
            }
            i = i + 1;
        }
        None
    }

    /// The line and address of the label `name`.
    pub fn lookup_label(&self, name: &[char]) -> (r: Option<(usize, usize)>)
        ensures
            r == label_of(self.labels@, name@),
    {
        match self.label_index(name) {
            Some(i) => Some((self.labels[i].line, self.labels[i].address)),
            None => None,
        }
    }

    /// The line and value of the variable `name`.
    pub fn lookup_variable(&self, name: &[char]) -> (r: Option<(usize, i32)>)
        ensures
            r == variable_of(self.variables@, name@),
    {
        match self.variable_index(name) {
            Some(i) => Some((self.variables[i].line, self.variables[i].value)),
            None => None,
        }
    }

    /// Defines the label `name` (replacing an earlier definition).
    pub fn insert_label(&mut self, name: String, line: usize, address: usize)
        requires
            old(self).wf(),
            name@.len() <= usize::MAX / 2,
            line < usize::MAX,
        ensures
            final(self).wf(),
            forall|n: Seq<char>|
                #[trigger] label_of(final(self).labels@, n) == if n == name@ {
                    Some((line, address))
                } else {
                    label_of(old(self).labels@, n)
                },
            final(self).variables@ == old(self).variables@,
            final(self).start == old(self).start,
    {
        let key = chars_of(name.as_str());
        let ghost old_labels = self.labels@;
        let ghost nm = name@;
        match self.label_index(key.as_slice()) {
            Some(i) => {
                self.labels.set(i, Label { name, line, address });
                proof {
                    let ls = self.labels@;
                    assert(label_names(ls) =~= label_names(old_labels));
                    assert forall|n: Seq<char>|
                        #[trigger] label_of(ls, n) == if n == nm {
                            Some((line, address))
                        } else {
                            label_of(old_labels, n)
                        } by {
                        lemma_first_key_bounds(label_names(old_labels), n, 0);
                    }
                }
            },
            None => {
                self.labels.push(Label { name, line, address });
                proof {
                    let ls = self.labels@;
                    assert(label_names(ls) =~= label_names(old_labels).push(nm));
                    assert forall|n: Seq<char>|
                        #[trigger] label_of(ls, n) == if n == nm {
                            Some((line, address))
                        } else {
                            label_of(old_labels, n)
                        } by {
                        lemma_first_key_push(label_names(old_labels), nm, n, 0);
                        lemma_first_key_bounds(label_names(old_labels), n, 0);
                    }
                }
            },
        }
    }

    /// Defines the variable `name` (replacing an earlier definition).
    pub fn insert_variable(&mut self, name: String, line: usize, value: i32)
        requires
            old(self).wf(),
            name@.len() <= usize::MAX / 2,
            line < usize::MAX,
        ensures
            final(self).wf(),
            forall|n: Seq<char>|
                #[trigger] variable_of(final(self).variables@, n) == if n == name@ {
                    Some((line, value))
                } else {
                    variable_of(old(self).variables@, n)
                },
            final(self).labels@ == old(self).labels@,
            final(self).start == old(self).start,
    {
        let key = chars_of(name.as_str());
        let ghost old_vars = self.variables@;
        let ghost nm = name@;
        match self.variable_index(key.as_slice()) {
            Some(i) => {
                self.variables.set(i, Variable { name, line, value });
                proof {
                    let vs = self.variables@;
                    assert(variable_names(vs) =~= variable_names(old_vars));
                    assert forall|n: Seq<char>|
                        #[trigger] variable_of(vs, n) == if n == nm {
                            Some((line, value))
                        } else {
                            variable_of(old_vars, n)
                        } by {
                        lemma_first_key_bounds(variable_names(old_vars), n, 0);
                    }
                }
            },
            None => {
                self.variables.push(Variable { name, line, value });
                proof {
                    let vs = self.variables@;
                    assert(variable_names(vs) =~= variable_names(old_vars).push(nm));
                    assert forall|n: Seq<char>|
                        #[trigger] variable_of(vs, n) == if n == nm {
                            Some((line, value))
                        } else {
                            variable_of(old_vars, n)
                        } by {
                        lemma_first_key_push(variable_names(old_vars), nm, n, 0);
                        lemma_first_key_bounds(variable_names(old_vars), n, 0);
                    }
                }
            },
        }
    }
}

} // verus!

use vstd::prelude::*;
use crate::value::{nil_value, value_views, ExpressionRes, ValueView};

verus! {

/// The storage of all variables: a cell is found by its number and is
/// never taken away, so that every holder of the number sees each change.
pub struct Cells {
    values: Vec<ExpressionRes>,
}

impl View for Cells {
    type V = Seq<ValueView>;

    closed spec fn view(&self) -> Seq<ValueView> {
        value_views(self.values@)
    }
}

impl Cells {
    /// A storage without cells.
    pub fn new() -> (c: Cells)
        ensures
            c@ == Seq::<ValueView>::empty(),
    {
        let c = Cells { values: Vec::new() };
        assert(c@ =~= Seq::<ValueView>::empty());
        c
    }

    /// The number of cells.
    pub fn len(&self) -> (n: usize)
        ensures
            n == self@.len(),
    {
        self.values.len()
    }

    /// Makes a new cell that holds `value`, and returns its number.
    pub fn insert(&mut self, value: ExpressionRes) -> (cell: usize)
        ensures
            cell == old(self)@.len(),
            final(self)@ == old(self)@.push(value@),
    {
        let cell = self.values.len();
        self.values.push(value);
        assert(self@ =~= old(self)@.push(value@));
        cell
    }

    /// The value in the cell `cell`, if there is such a cell.
    pub fn get(&self, cell: usize) -> (value: Option<&ExpressionRes>)
        ensures
            match value {
                Some(v) => cell < self@.len() && v@ == self@[cell as int],
                None => cell >= self@.len(),
            },
    {
        if cell < self.values.len() {
            Some(&self.values[cell])
        } else {
            None
        }
    }

    /// Puts `value` into the cell `cell`. Without such a cell nothing
    /// changes and the answer is `false`.
    pub fn set(&mut self, cell: usize, value: ExpressionRes) -> (done: bool)
        ensures
            done == (cell < old(self)@.len()),
            final(self)@ == if done {
                old(self)@.update(cell as int, value@)
            } else {
                old(self)@
            },
    {
        if cell < self.values.len() {
            self.values[cell] = value;
            assert(self@ =~= old(self)@.update(cell as int, value@));
            true
        } else {
            false
        }
    }
}

/// The bindings that the first `n` entries make: a later entry of a name
/// replaces an earlier one.
pub open spec fn entries_map(names: Seq<String>, slots: Seq<usize>, n: nat) -> Map<Seq<char>, nat>
    decreases n,
{
    if n == 0 || n > names.len() || n > slots.len() {
        Map::empty()
    } else {
        entries_map(names, slots, (n - 1) as nat).insert(names[n - 1]@, slots[n - 1] as nat)
    }
}

/// The index of the last of the first `n` entries that is named `name`.
pub open spec fn last_match(names: Seq<String>, n: nat, name: Seq<char>) -> Option<int>
    decreases n,
{
    if n == 0 || n > names.len() {
        None
    } else if names[n - 1]@ == name {
        Some(n - 1)
    } else {
        last_match(names, (n - 1) as nat, name)
    }
}

/// A name is bound exactly when an entry is named so, and then to the cell
/// of the last such entry.
pub proof fn entries_map_finds(names: Seq<String>, slots: Seq<usize>, n: nat, name: Seq<char>)
    requires
        n <= names.len(),
        names.len() == slots.len(),
    ensures
        entries_map(names, slots, n).contains_key(name) <==> last_match(names, n, name) is Some,
        last_match(names, n, name) matches Some(i) ==> 0 <= i < n && entries_map(names, slots, n)[name]
            == slots[i],
    decreases n,
{
    if n > 0 {
        entries_map_finds(names, slots, (n - 1) as nat, name);
    }
}

/// The bindings of the first `n` entries do not depend on later entries.
pub proof fn entries_map_prefix(
    names: Seq<String>,
    slots: Seq<usize>,
    more_names: Seq<String>,
    more_slots: Seq<usize>,
    n: nat,
)
    requires
        n <= names.len() <= more_names.len(),
        n <= slots.len() <= more_slots.len(),
        forall|i: int| 0 <= i < n ==> names[i] == more_names[i],
        forall|i: int| 0 <= i < n ==> slots[i] == more_slots[i],
    ensures
        entries_map(names, slots, n) == entries_map(more_names, more_slots, n),
    decreases n,
{
    if n > 0 {
        entries_map_prefix(names, slots, more_names, more_slots, (n - 1) as nat);
    }
}

/// One scope: its bindings of names to cells, and the scope around it.
pub struct Environment {
    names: Vec<String>,
    slots: Vec<usize>,
    enclosing: Option<usize>,
}

/// The mathematical value of a scope.
pub struct ScopeView {
    pub bindings: Map<Seq<char>, nat>,
    pub enclosing: Option<nat>,
}

impl View for Environment {
    type V = ScopeView;

    closed spec fn view(&self) -> ScopeView {
        ScopeView {
            bindings: entries_map(self.names@, self.slots@, self.names@.len()),
            enclosing: match self.enclosing {
                Some(p) => Some(p as nat),
                None => None,
            },
        }
    }
}

impl Environment {
    /// The invariant of a scope: each name has its cell.
    pub closed spec fn wf(&self) -> bool {
        self.names.len() == self.slots.len()
    }

    /// Every binding of the scope leads to one of the first `count` cells.
    pub open spec fn fits(&self, count: nat) -> bool {
        forall|n: Seq<char>| #[trigger] self@.bindings.contains_key(n) ==> self@.bindings[n] < count
    }

    /// A scope without bindings and with no scope around it.
    pub fn new() -> (e: Environment)
        ensures
            e.wf(),
            e@.bindings == Map::<Seq<char>, nat>::empty(),
            e@.enclosing is None,
    {
        Environment { names: Vec::new(), slots: Vec::new(), enclosing: None }
    }

    /// A scope without bindings inside the scope `enclosing`.
    pub fn new_with_enclosing(enclosing: usize) -> (e: Environment)
        ensures
            e.wf(),
            e@.bindings == Map::<Seq<char>, nat>::empty(),
            e@.enclosing == Some(enclosing as nat),
    {
        Environment { names: Vec::new(), slots: Vec::new(), enclosing: Some(enclosing) }
    }

    /// The scope around this one, if there is one.
    pub fn enclosing(&self) -> (p: Option<usize>)
        ensures
            match p {
                Some(i) => self@.enclosing == Some(i as nat),
                None => self@.enclosing is None,
            },
    {
        self.enclosing
    }

    /// The same scope with no scope around it.
    pub fn detached(self) -> (e: Environment)
        ensures
            self.wf() ==> e.wf(),
            e@.bindings == self@.bindings,
            e@.enclosing is None,
    {
        Environment { names: self.names, slots: self.slots, enclosing: None }
    }

    /// Binds `name` to a new cell that holds `expr`, in this scope.
    pub fn define_variable(&mut self, name: String, expr: ExpressionRes, cells: &mut Cells)
        requires
            old(self).wf(),
        ensures
            final(self).wf(),
            final(cells)@ == old(cells)@.push(expr@),
            final(self)@.bindings == old(self)@.bindings.insert(name@, old(cells)@.len()),
            final(self)@.enclosing == old(self)@.enclosing,
            old(self).fits(old(cells)@.len()) ==> final(self).fits(final(cells)@.len()),
    {
        let cell = cells.insert(expr);
        self.define_ref(name, cell);
        proof {
            if old(self).fits(old(cells)@.len()) {
                assert forall|n: Seq<char>| #[trigger]
                    self@.bindings.contains_key(n) implies self@.bindings[n] < cells@.len() by {
                    if n != name@ {
                        assert(old(self)@.bindings.contains_key(n));
                    }
                }
            }
        }
    }

    /// Puts `expr` into the cell that `name` is bound to in this scope.
    /// Without such a binding nothing changes and the answer is `false`.
    pub fn redefine_variable(&self, name: String, expr: ExpressionRes, cells: &mut Cells) -> (done:
        bool)
        requires
            self.wf(),
        ensures
            done == (self@.bindings.contains_key(name@) && self@.bindings[name@] < old(cells)@.len()),
            final(cells)@ == if done {
                old(cells)@.update(self@.bindings[name@] as int, expr@)
            } else {
                old(cells)@
            },
    {
        match self.get_variable(name) {
            None => false,
            Some(cell) => cells.set(cell, expr),
        }
    }

    /// Binds `name` to the cell `cell`, in this scope.
    pub fn define_ref(&mut self, name: String, cell: usize)
        requires
            old(self).wf(),
        ensures
            final(self).wf(),
            final(self)@.bindings == old(self)@.bindings.insert(name@, cell as nat),
            final(self)@.enclosing == old(self)@.enclosing,
    {
        proof {
            let n = self.names@.len();
            entries_map_prefix(
                self.names@,
                self.slots@,
                self.names@.push(name),
                self.slots@.push(cell),
                n,
            );
        }
        self.names.push(name);
        self.slots.push(cell);
    }

    /// The cell that `name` is bound to in this scope, if it is bound.
    pub fn get_variable(&self, name: String) -> (cell: Option<usize>)
        requires
            self.wf(),
        ensures
            match cell {
                Some(c) => self@.bindings.contains_key(name@) && self@.bindings[name@] == c,
                None => !self@.bindings.contains_key(name@),
            },
    {
        let mut i: usize = self.names.len();
        while i > 0
            invariant
                self.wf(),
                i <= self.names.len(),
                last_match(self.names@, self.names@.len(), name@) == last_match(
                    self.names@,
                    i as nat,
                    name@,
                ),
            decreases i,
        {
            i -= 1;
            if self.names[i] == name {
                proof {
                    entries_map_finds(self.names@, self.slots@, self.names@.len(), name@);
                }
                return Some(self.slots[i]);
            }
        }
        proof {
            entries_map_finds(self.names@, self.slots@, self.names@.len(), name@);
        }
        None
    }

    /// Puts nil into the cell that `name` is bound to in this scope, so
    /// that every holder of the cell sees nil. Without such a binding
    /// nothing changes and the answer is `false`.
    pub fn remove_var(&self, name: String, cells: &mut Cells) -> (done: bool)
        requires
            self.wf(),
        ensures
            done == (self@.bindings.contains_key(name@) && self@.bindings[name@] < old(cells)@.len()),
            final(cells)@ == if done {
                old(cells)@.update(self@.bindings[name@] as int, nil_value())
            } else {
                old(cells)@
            },
    {
        self.redefine_variable(name, ExpressionRes::from_none(), cells)
    }
}

} // verus!

//! The variable environment: one flat mapping from names to values.
use vstd::prelude::*;
use crate::value::{Datum, Value};

verus! {

/// What a name stands for: its value where it is bound, `nil` where it is
/// not.
pub open spec fn lookup(bindings: Map<Seq<char>, Datum>, name: Seq<char>) -> Datum {
    if bindings.contains_key(name) {
        bindings[name]
    } else {
        Datum::Nil
    }
}

/// The bindings of a run. There is a single namespace: a block opens no
/// scope of its own.
pub struct Env {
    names: Vec<String>,
    values: Vec<Value>,
}

impl View for Env {
    type V = Map<Seq<char>, Datum>;

    closed spec fn view(&self) -> Map<Seq<char>, Datum> {
        Map::new(
            |k: Seq<char>| exists|i: int| self.holds(k, i),
            |k: Seq<char>| self.values[self.slot(k)]@,
        )
    }
}

impl Env {
    /// No name is kept twice, and every name has its value.
    pub closed spec fn wf(&self) -> bool {
        &&& self.names.len() == self.values.len()
        &&& forall|i: int, j: int|
            0 <= i < j < self.names.len() ==> self.names[i]@ != self.names[j]@
    }

    spec fn holds(&self, k: Seq<char>, i: int) -> bool {
        0 <= i < self.names.len() && self.names[i]@ == k
    }

    spec fn slot(&self, k: Seq<char>) -> int {
        choose|i: int| self.holds(k, i)
    }

    proof fn slot_is(&self, k: Seq<char>, i: int)
        requires
            self.wf(),
            self.holds(k, i),
        ensures
            self.slot(k) == i,
            self@.contains_key(k),
            self@[k] == self.values[i]@,
    {
        let j = self.slot(k);
        assert(self.holds(k, j));
        if i < j {
            assert(self.names[i]@ != self.names[j]@);
        } else if j < i {
            assert(self.names[j]@ != self.names[i]@);
        }
    }

    /// An environment that binds nothing.
    pub fn new() -> (env: Env)
        ensures
            env.wf(),
            env@ == Map::<Seq<char>, Datum>::empty(),
    {
        let env = Env { names: Vec::new(), values: Vec::new() };
        assert(env@ =~= Map::<Seq<char>, Datum>::empty());
        env
    }

    fn find(&self, name: &String) -> (found: Option<usize>)
        requires
            self.wf(),
        ensures
            match found {
                Some(i) => self.holds(name@, i as int),
                None => forall|i: int| !self.holds(name@, i),
            },
    {
        let mut i: usize = 0;
        while i < self.names.len()
            invariant
                i <= self.names.len(),
                forall|j: int| 0 <= j < i ==> !self.holds(name@, j),
            decreases self.names.len() - i,
        {
            if self.names[i] == *name {
                return Some(i);
            }
            i += 1;
        }
        None
    }

    /// Binds `name` to `value`, in place of what it was bound to before.
    pub fn define(&mut self, name: &String, value: Value)
        requires
            old(self).wf(),
        ensures
            final(self).wf(),
            final(self)@ == old(self)@.insert(name@, value@),
    {
        self.assign(name, value)
    }

    /// Gives `name` the value `value`; a name that was not bound is bound
    /// now.
    pub fn assign(&mut self, name: &String, value: Value)
        requires
            old(self).wf(),
        ensures
            final(self).wf(),
            final(self)@ == old(self)@.insert(name@, value@),
    {
        let ghost before = *self;
        let ghost datum = value@;
        match self.find(name) {
            Some(i) => {
                self.values.set(i, value);
                assert(self.wf());
                assert forall|k: Seq<char>| #[trigger]
                    self@.contains_key(k) == before@.insert(name@, datum).contains_key(k) by {
                    if self@.contains_key(k) {
                        let j = choose|j: int| self.holds(k, j);
                        assert(before.holds(k, j));
                    }
                    if before@.contains_key(k) {
                        let j = choose|j: int| before.holds(k, j);
                        assert(self.holds(k, j));
                    }
                    if k == name@ {
                        assert(self.holds(k, i as int));
                    }
                }
                assert forall|k: Seq<char>| #[trigger] self@.contains_key(k) implies self@[k]
                    == before@.insert(name@, datum)[k] by {
                    let j = choose|j: int| self.holds(k, j);
                    self.slot_is(k, j);
                    assert(before.holds(k, j));
                    before.slot_is(k, j);
                }
                assert(self@ =~= before@.insert(name@, datum));
            },
            None => {
                self.names.push(name.clone());
                self.values.push(value);
                let ghost last = self.names.len() - 1;
                assert(self.wf()) by {
                    assert forall|i: int, j: int| 0 <= i < j < self.names.len() implies self.names[i]@
                        != self.names[j]@ by {
                        if j == last {
                            assert(!before.holds(name@, i));
                        } else {
                            assert(before.names[i]@ != before.names[j]@);
                        }
                    }
                }
                assert forall|k: Seq<char>| #[trigger]
                    self@.contains_key(k) == before@.insert(name@, datum).contains_key(k) by {
                    if self@.contains_key(k) {
                        let j = choose|j: int| self.holds(k, j);
                        if j != last {
                            assert(before.holds(k, j));
                        }
                    }
                    if before@.contains_key(k) {
                        let j = choose|j: int| before.holds(k, j);
                        assert(self.holds(k, j));
                    }
                    if k == name@ {
                        assert(self.holds(k, last));
                    }
                }
                assert forall|k: Seq<char>| #[trigger] self@.contains_key(k) implies self@[k]
                    == before@.insert(name@, datum)[k] by {
                    let j = choose|j: int| self.holds(k, j);
                    self.slot_is(k, j);
                    if j != last {
                        assert(before.holds(k, j));
                        before.slot_is(k, j);
                    }
                }
                assert(self@ =~= before@.insert(name@, datum));
            },
        }
    }

    /// The value of `name`, or `nil` where it is not bound.
    pub fn get(&self, name: &String) -> (value: Value)
        requires
            self.wf(),
        ensures
            value@ == lookup(self@, name@),
    {
        match self.find(name) {
            Some(i) => {
                proof {
                    self.slot_is(name@, i as int);
                }
                self.values[i].duplicate()
            },
            None => Value::Nil,
        }
    }
}

impl Default for Env {
    /// An environment that binds nothing.
    fn default() -> (env: Env)
        ensures
            env.wf(),
            env@ == Map::<Seq<char>, Datum>::empty(),
    {
        Env::new()
    }
}

} // verus!

//! The in-memory variable store.
//!
//! The evaluator consults a store of named exact rationals for variable reads
//! and assignment write-backs. Its contract speaks over the map `store_map`:
//! the names the store knows, each bound to its value's reduced
//! numerator/denominator pair. Persisting variables belongs to an outside
//! collaborator; the history identifier tag an update carries is recorded for
//! that collaborator and does not change what the store holds.

use vstd::prelude::*;

verus! {

use num::rational::BigRational;

use crate::errors::CalculatorFailure;
use crate::numbers::{rat_clone, rat_denom, rat_numer, rat_wf};

/// A named value.
#[derive(Debug)]
pub struct Variable {
    pub name: String,
    pub value: BigRational,
}

/// The in-memory variable store: an association list with pairwise distinct
/// names.
#[derive(Debug)]
pub struct VariableStore {
    pub vars: Vec<(String, BigRational)>,
}

/// The map an association list stands for; an earlier entry would win over a
/// later one of the same name, but the store keeps names distinct.
pub open spec fn assoc_map(l: Seq<(String, BigRational)>) -> Map<Seq<char>, (int, int)>
    decreases l.len(),
{
    if l.len() == 0 {
        Map::empty()
    } else {
        assoc_map(l.drop_first()).insert(
            l[0].0@,
            (rat_numer(l[0].1), rat_denom(l[0].1)),
        )
    }
}

impl VariableStore {
    /// The map of names to reduced value pairs this store holds.
    pub open spec fn store_map(&self) -> Map<Seq<char>, (int, int)> {
        assoc_map(self.vars@)
    }

    /// The store's invariant: names are pairwise distinct and every value is
    /// in canonical reduced form.
    pub open spec fn wf(&self) -> bool {
        &&& forall|i: int, j: int|
            0 <= i < j < self.vars@.len() ==> (#[trigger] self.vars@[i].0@) != (
            #[trigger] self.vars@[j].0@)
        &&& forall|i: int| 0 <= i < self.vars@.len() ==> rat_wf(#[trigger] self.vars@[i].1)
    }

    pub fn new() -> (r: VariableStore)
        ensures
            r.wf(),
            r.store_map() == Map::<Seq<char>, (int, int)>::empty(),
    {
        VariableStore { vars: Vec::new() }
    }

    /// The value bound to `name`, if the store knows the name.
    #[verifier::loop_isolation(false)]
    pub fn get(&self, name: &str) -> (r: Option<Variable>)
        requires
            self.wf(),
        ensures
            match r {
                Some(var) => self.store_map().contains_key(name@) && var.name@ == name@
                    && rat_wf(var.value) && self.store_map()[name@] == (
                    rat_numer(var.value),
                    rat_denom(var.value),
                ),
                None => !self.store_map().contains_key(name@),
            },
    {
        let mut i: usize = 0;
        while i < self.vars.len()
            invariant
                i <= self.vars@.len(),
                forall|k: int| 0 <= k < i ==> (#[trigger] self.vars@[k].0@) != name@,
            decreases self.vars@.len() - i,
        {
            if crate::token::str_eq(self.vars[i].0.as_str(), name) {
                proof {
                    lemma_assoc_found(self.vars@, i as int);
                }
                return Some(
                    Variable {
                        name: String::from_str(name),
                        value: rat_clone(&self.vars[i].1),
                    },
                );
            }
            i = i + 1;
        }
        proof {
            lemma_assoc_absent(self.vars@, name@);
        }
        None
    }

    /// Binds `var.name` to `var.value`, replacing any earlier binding. The
    /// history identifier tags the update for the persistence collaborator;
    /// the in-memory store always succeeds.
    pub fn update(&mut self, var: Variable, maybe_input_history_id: Option<i64>) -> (r: Result<
        (),
        CalculatorFailure,
    >)
        requires
            old(self).wf(),
            rat_wf(var.value),
        ensures
            final(self).wf(),
            final(self).store_map() == old(self).store_map().insert(
                var.name@,
                (rat_numer(var.value), rat_denom(var.value)),
            ),
            r is Ok,
    {
        let Variable { name, value } = var;
        self.purge_name(name.as_str());
        proof {
            lemma_assoc_absent(self.vars@, name@);
            lemma_assoc_push(self.vars@, name, value);
            assert(old(self).store_map().insert(name@, (rat_numer(value), rat_denom(value)))
                =~= old(self).store_map().remove(name@).insert(
                name@,
                (rat_numer(value), rat_denom(value)),
            ));
        }
        let ghost pre = self.vars@;
        self.vars.push((name, value));
        proof {
            assert(self.vars@.drop_last() =~= pre);
        }
        Ok(())
    }

    /// Removes any binding of `name`; removing an unknown name is no error.
    pub fn purge(&mut self, name: &str) -> (r: Result<(), CalculatorFailure>)
        requires
            old(self).wf(),
        ensures
            final(self).wf(),
            final(self).store_map() == old(self).store_map().remove(name@),
            r is Ok,
    {
        self.purge_name(name);
        Ok(())
    }

    /// Removes any binding of `name` from the association list.
    #[verifier::loop_isolation(false)]
    fn purge_name(&mut self, name: &str)
        requires
            old(self).wf(),
        ensures
            final(self).wf(),
            final(self).store_map() == old(self).store_map().remove(name@),
            forall|k: int| 0 <= k < final(self).vars@.len() ==> (
            #[trigger] final(self).vars@[k].0@) != name@,
    {
        let mut i: usize = 0;
        while i < self.vars.len()
            invariant
                i <= self.vars@.len(),
                self.wf(),
                self.vars@ == old(self).vars@,
                forall|k: int| 0 <= k < i ==> (#[trigger] self.vars@[k].0@) != name@,
            decreases self.vars@.len() - i,
        {
            if crate::token::str_eq(self.vars[i].0.as_str(), name) {
                proof {
                    lemma_assoc_remove(self.vars@, i as int);
                }
                self.vars.remove(i);
                proof {
                    lemma_assoc_absent(self.vars@, name@);
                }
                return ;
            }
            i = i + 1;
        }
        proof {
            lemma_assoc_absent(self.vars@, name@);
            assert(self.store_map() =~= self.store_map().remove(name@));
        }
    }
}

/// A name none of the entries carries is not in the map.
proof fn lemma_assoc_absent(l: Seq<(String, BigRational)>, name: Seq<char>)
    requires
        forall|k: int| 0 <= k < l.len() ==> (#[trigger] l[k].0@) != name,
    ensures
        !assoc_map(l).contains_key(name),
    decreases l.len(),
{
    if l.len() > 0 {
        assert(forall|k: int|
            0 <= k < l.drop_first().len() ==> (#[trigger] l.drop_first()[k].0@) != name);
        lemma_assoc_absent(l.drop_first(), name);
    }
}

/// The entry at `i` gives the map's binding when no earlier entry shares its
/// name.
proof fn lemma_assoc_found(l: Seq<(String, BigRational)>, i: int)
    requires
        0 <= i < l.len(),
        forall|k: int| 0 <= k < i ==> (#[trigger] l[k].0@) != l[i].0@,
    ensures
        assoc_map(l).contains_key(l[i].0@),
        assoc_map(l)[l[i].0@] == (rat_numer(l[i].1), rat_denom(l[i].1)),
    decreases l.len(),
{
    if i > 0 {
        assert(forall|k: int|
            0 <= k < i - 1 ==> (#[trigger] l.drop_first()[k].0@) != l.drop_first()[i - 1].0@);
        lemma_assoc_found(l.drop_first(), i - 1);
    }
}

/// Appending an entry whose name is absent inserts its binding.
proof fn lemma_assoc_push(l: Seq<(String, BigRational)>, nm: String, value: BigRational)
    requires
        forall|k: int| 0 <= k < l.len() ==> (#[trigger] l[k].0@) != nm@,
    ensures
        assoc_map(l.push((nm, value))) == assoc_map(l).insert(
            nm@,
            (rat_numer(value), rat_denom(value)),
        ),
    decreases l.len(),
{
    let vpair = (rat_numer(value), rat_denom(value));
    if l.len() == 0 {
        assert(l.push((nm, value))[0] == (nm, value));
        assert(l.push((nm, value)).drop_first() =~= Seq::<(String, BigRational)>::empty());
        assert(assoc_map(l.push((nm, value)).drop_first()) == Map::<Seq<char>, (int, int)>::empty());
        assert(assoc_map(l.push((nm, value))) == Map::<Seq<char>, (int, int)>::empty().insert(
            nm@,
            vpair,
        ));
        assert(assoc_map(l.push((nm, value))) =~= assoc_map(l).insert(nm@, vpair));
    } else {
        assert(forall|k: int|
            0 <= k < l.drop_first().len() ==> (#[trigger] l.drop_first()[k].0@) != nm@);
        lemma_assoc_push(l.drop_first(), nm, value);
        assert(l.push((nm, value)).drop_first() =~= l.drop_first().push((nm, value)));
        assert(assoc_map(l.push((nm, value))) == assoc_map(
            l.drop_first().push((nm, value)),
        ).insert(l[0].0@, (rat_numer(l[0].1), rat_denom(l[0].1))));
        assert(assoc_map(l) == assoc_map(l.drop_first()).insert(
            l[0].0@,
            (rat_numer(l[0].1), rat_denom(l[0].1)),
        ));
        assert(l[0].0@ != nm@);
        assert(assoc_map(l.push((nm, value))) == assoc_map(l.drop_first()).insert(
            nm@,
            vpair,
        ).insert(l[0].0@, (rat_numer(l[0].1), rat_denom(l[0].1))));
        assert(assoc_map(l.push((nm, value))) =~= assoc_map(l).insert(nm@, vpair));
    }
}

/// Removing the entry of a name (unique in the list) removes its binding.
proof fn lemma_assoc_remove(l: Seq<(String, BigRational)>, i: int)
    requires
        0 <= i < l.len(),
        forall|a: int, b: int|
            0 <= a < b < l.len() ==> (#[trigger] l[a].0@) != (#[trigger] l[b].0@),
    ensures
        assoc_map(l.remove(i)) == assoc_map(l).remove(l[i].0@),
    decreases l.len(),
{
    if i == 0 {
        assert(forall|k: int|
            0 <= k < l.drop_first().len() ==> (#[trigger] l.drop_first()[k].0@) != l[0].0@);
        lemma_assoc_absent(l.drop_first(), l[0].0@);
        assert(l.remove(0) =~= l.drop_first());
        assert(assoc_map(l.remove(0)) =~= assoc_map(l).remove(l[0].0@));
    } else {
        lemma_assoc_remove(l.drop_first(), i - 1);
        assert(l.remove(i).drop_first() =~= l.drop_first().remove(i - 1));
        assert(assoc_map(l.remove(i)) =~= assoc_map(l).remove(l[i].0@));
    }
}

} // verus!

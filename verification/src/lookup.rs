//! Numbering of identifiers in the order in which they are first seen.

use core::hash::{BuildHasherDefault, Hash};
use fnv::{FnvHashMap, FnvHasher};
use vstd::prelude::*;
use vstd::std_specs::hash::obeys_key_model;

verus! {

/// The hasher of the `fnv` crate, `fnv::FnvHasher`. Nothing is stated of it
/// here; the maps below are built on it.
#[verifier::external_type_specification]
#[verifier::external_body]
pub struct ExFnvHasher(FnvHasher);

/// `core::hash::BuildHasherDefault`, which makes hashers by `Default`.
#[verifier::external_type_specification]
#[verifier::external_body]
#[verifier::reject_recursive_types(H)]
pub struct ExBuildHasherDefault<H>(BuildHasherDefault<H>);

/// `FnvHashMap::default()`: a map of the `fnv` crate with no entry.
#[verifier::external_body]
fn fnv_map_new<I: Hash + Eq>() -> (table: FnvHashMap<I, usize>)
    ensures
        table@ == (Map::<I, usize>::empty()),
{
    FnvHashMap::default()
}

/// `HashMap::get` on a map of the `fnv` crate: the number stored under `key`,
/// if one is. The Fnv hasher starts from a fixed state and hashes what it is
/// given and nothing else, so for keys whose `Hash` and `Eq` agree the map
/// behaves as the mathematical map that is its view.
#[verifier::external_body]
fn fnv_map_get<I: Hash + Eq>(table: &FnvHashMap<I, usize>, key: &I) -> (number: Option<usize>)
    ensures
        obeys_key_model::<I>() ==> number == (if table@.contains_key(*key) {
            Some(table@[*key])
        } else {
            None
        }),
{
    table.get(key).copied()
}

/// `HashMap::insert` on a map of the `fnv` crate: stores `number` under `key`,
/// in place of what was stored under it. See [`fnv_map_get`] for the condition.
#[verifier::external_body]
fn fnv_map_insert<I: Hash + Eq>(table: &mut FnvHashMap<I, usize>, key: I, number: usize)
    ensures
        obeys_key_model::<I>() ==> final(table)@ == old(table)@.insert(key, number),
{
    table.insert(key, number);
}

/// Gives each identifier a number: 0 to the first one it is asked for, 1 to the
/// next new one, and so on. An identifier keeps its number.
pub struct LookupBuilder<I: Hash + Eq + Copy> {
    forward: FnvHashMap<I, usize>,
    backward: Vec<I>,
}

impl<I: Hash + Eq + Copy> View for LookupBuilder<I> {
    type V = Seq<I>;

    /// The identifiers seen so far, each at the place of its number.
    closed spec fn view(&self) -> Seq<I> {
        self.backward@
    }
}

impl<I: Hash + Eq + Copy> LookupBuilder<I> {
    /// The map from identifiers to numbers holds exactly the identifiers seen,
    /// each with its place. It is asked only of keys whose `Hash` and `Eq` agree.
    pub closed spec fn wf(&self) -> bool {
        obeys_key_model::<I>() ==> {
            &&& forall|i: int|
                0 <= i < self.backward@.len() ==> self.forward@.contains_key(
                    #[trigger] self.backward@[i],
                ) && self.forward@[self.backward@[i]] == i
            &&& forall|id: I| #[trigger]
                self.forward@.contains_key(id) ==> 0 <= self.forward@[id] < self.backward@.len()
                    && self.backward@[self.forward@[id] as int] == id
        }
    }

    /// A builder that has seen no identifier.
    pub fn new() -> (builder: LookupBuilder<I>)
        ensures
            builder.wf(),
            builder@ == Seq::<I>::empty(),
    {
        LookupBuilder { forward: fnv_map_new(), backward: Vec::new() }
    }

    /// The number of `id`: the one it has, or, if it is new, the next free one,
    /// which it then keeps.
    pub fn forward(&mut self, id: I) -> (number: usize)
        requires
            old(self).wf(),
        ensures
            final(self).wf(),
            obeys_key_model::<I>() ==> {
                &&& 0 <= number < final(self)@.len()
                &&& final(self)@[number as int] == id
                &&& if old(self)@.contains(id) {
                    final(self)@ == old(self)@
                } else {
                    final(self)@ == old(self)@.push(id)
                }
            },
    {
        match fnv_map_get(&self.forward, &id) {
            Some(number) => {
                proof {
                    if obeys_key_model::<I>() {
                        assert(self.forward@.contains_key(id));
                        assert(self.backward@[number as int] == id);
                    }
                }
                number
            },
            None => {
                let number = self.backward.len();
                proof {
                    if obeys_key_model::<I>() {
                        assert(!self.forward@.contains_key(id));
                        assert(!old(self)@.contains(id));
                    }
                }
                self.backward.push(id);
                fnv_map_insert(&mut self.forward, id, number);
                number
            },
        }
    }

    /// The identifiers seen so far, each at the place of its number. None
    /// occurs twice.
    pub fn backward(&self) -> (ids: &Vec<I>)
        requires
            self.wf(),
        ensures
            ids@ == self@,
            obeys_key_model::<I>() ==> ids@.no_duplicates(),
    {
        &self.backward
    }
}

} // verus!

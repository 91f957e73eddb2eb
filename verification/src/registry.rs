//! Process-wide interning of function, value-type and trait-type descriptors
//! into dense integer identifiers, with reverse lookup by name.
//!
//! Each kind of descriptor has an append-only store indexed by its id, a
//! concurrent map from descriptor key to id, and a concurrent map from global
//! name to id. The concurrent maps come from the `flurry` crate and are used
//! through trusted wrappers below.

use vstd::prelude::*;
use crate::{FunctionId, TraitTypeId, ValueTypeId};
use crate::task::{NativeFunction, TraitType, ValueType};

verus! {

#[verifier::external_type_specification]
#[verifier::external_body]
#[verifier::reject_recursive_types(K)]
#[verifier::reject_recursive_types(V)]
#[verifier::reject_recursive_types(S)]
pub struct ExFlurryHashMap<K, V, S>(flurry::HashMap<K, V, S>);

#[verifier::external_type_specification]
#[verifier::external_body]
pub struct ExFlurryDefaultHashBuilder(flurry::DefaultHashBuilder);

/// The entries of a name-keyed concurrent id map.
pub uninterp spec fn name_map_entries(m: flurry::HashMap<String, usize>) -> Map<Seq<char>, usize>;

/// The entries of a descriptor-key-keyed concurrent id map.
pub uninterp spec fn key_map_entries(m: flurry::HashMap<u64, usize>) -> Map<u64, usize>;

/// Relies on flurry::HashMap::new; nothing is assumed of the fresh map, its
/// contents are pinned down by the `clear` below.
#[verifier::external_body]
fn name_map_raw() -> flurry::HashMap<String, usize> {
    flurry::HashMap::new()
}

/// Relies on flurry::HashMap::new; nothing is assumed of the fresh map, its
/// contents are pinned down by the `clear` below.
#[verifier::external_body]
fn key_map_raw() -> flurry::HashMap<u64, usize> {
    flurry::HashMap::new()
}

/// Relies on flurry::HashMap::pin / HashMapRef::clear: removes every entry.
#[verifier::external_body]
fn name_map_clear(m: &mut flurry::HashMap<String, usize>)
    ensures
        name_map_entries(*final(m)) == name_map_entries(*old(m)).restrict(
            Set::<Seq<char>>::empty(),
        ),
{
    m.pin().clear();
}

/// Relies on flurry::HashMap::pin / HashMapRef::clear: removes every entry.
#[verifier::external_body]
fn key_map_clear(m: &mut flurry::HashMap<u64, usize>)
    ensures
        key_map_entries(*final(m)) == key_map_entries(*old(m)).restrict(Set::<u64>::empty()),
{
    m.pin().clear();
}

/// An empty name-keyed id map.
fn name_map_new() -> (r: flurry::HashMap<String, usize>)
    ensures
        name_map_entries(r) == Map::<Seq<char>, usize>::empty(),
{
    let mut m = name_map_raw();
    name_map_clear(&mut m);
    proof {
        assert(name_map_entries(m) =~= Map::<Seq<char>, usize>::empty());
    }
    m
}

/// An empty descriptor-key-keyed id map.
fn key_map_new() -> (r: flurry::HashMap<u64, usize>)
    ensures
        key_map_entries(r) == Map::<u64, usize>::empty(),
{
    let mut m = key_map_raw();
    key_map_clear(&mut m);
    proof {
        assert(key_map_entries(m) =~= Map::<u64, usize>::empty());
    }
    m
}

/// Relies on flurry::HashMap::pin / HashMapRef::get: returns the value the
/// map currently associates with the key, or nothing.
#[verifier::external_body]
fn name_map_get(m: &flurry::HashMap<String, usize>, k: &str) -> (r: Option<usize>)
    ensures
        r == if name_map_entries(*m).contains_key(k@) {
            Some(name_map_entries(*m)[k@])
        } else {
            None::<usize>
        },
{
    m.pin().get(k).copied()
}

/// Relies on flurry::HashMap::pin / HashMapRef::get: returns the value the
/// map currently associates with the key, or nothing.
#[verifier::external_body]
fn key_map_get(m: &flurry::HashMap<u64, usize>, k: u64) -> (r: Option<usize>)
    ensures
        r == if key_map_entries(*m).contains_key(k) {
            Some(key_map_entries(*m)[k])
        } else {
            None::<usize>
        },
{
    m.pin().get(&k).copied()
}

/// Relies on flurry::HashMap::pin / HashMapRef::insert: associates the key
/// with the value, replacing any previous association.
#[verifier::external_body]
fn name_map_insert(m: &mut flurry::HashMap<String, usize>, k: String, v: usize)
    ensures
        name_map_entries(*final(m)) == name_map_entries(*old(m)).insert(k@, v),
{
    m.pin().insert(k, v);
}

/// Relies on flurry::HashMap::pin / HashMapRef::insert: associates the key
/// with the value, replacing any previous association.
#[verifier::external_body]
fn key_map_insert(m: &mut flurry::HashMap<u64, usize>, k: u64, v: usize)
    ensures
        key_map_entries(*final(m)) == key_map_entries(*old(m)).insert(k, v),
{
    m.pin().insert(k, v);
}

/// Interning tables for one kind of descriptor, generic over nothing: the
/// three kinds each get one store of their own inside [`Registry`].
///
/// `store` is append-only and indexed by id; the maps accelerate lookup by
/// descriptor key and by global name.
pub struct Registry {
    pub functions: Vec<(NativeFunction, String)>,
    pub functions_by_name: flurry::HashMap<String, usize>,
    pub functions_by_value: flurry::HashMap<u64, usize>,
    pub value_types: Vec<(ValueType, String)>,
    pub value_types_by_name: flurry::HashMap<String, usize>,
    pub value_types_by_value: flurry::HashMap<u64, usize>,
    pub trait_types: Vec<(TraitType, String)>,
    pub trait_types_by_name: flurry::HashMap<String, usize>,
    pub trait_types_by_value: flurry::HashMap<u64, usize>,
}

/// One kind's tables are coherent: the by-key map is exactly the inverse of
/// the descriptor keys in the store, and the by-name map points into the
/// store.
pub open spec fn tables_wf<T>(
    store: Seq<(T, String)>,
    by_name: Map<Seq<char>, usize>,
    by_value: Map<u64, usize>,
    key_of: spec_fn(T) -> u64,
) -> bool {
    &&& forall|d: u64| #[trigger] by_value.contains_key(d) ==> {
        &&& (by_value[d] as int) < store.len()
        &&& key_of(store[by_value[d] as int].0) == d
    }
    &&& forall|i: int|
        0 <= i < store.len() ==> {
            &&& #[trigger] by_value.contains_key(key_of(store[i].0))
            &&& by_value[key_of(store[i].0)] as int == i
        }
    &&& forall|n: Seq<char>| #[trigger] by_name.contains_key(n) ==> (by_name[n] as int) < store.len()
}

impl Registry {
    /// All three kinds' tables are coherent.
    pub open spec fn wf(self) -> bool {
        &&& tables_wf(
            self.functions@,
            name_map_entries(self.functions_by_name),
            key_map_entries(self.functions_by_value),
            |f: NativeFunction| f.descriptor,
        )
        &&& tables_wf(
            self.value_types@,
            name_map_entries(self.value_types_by_name),
            key_map_entries(self.value_types_by_value),
            |v: ValueType| v.descriptor,
        )
        &&& tables_wf(
            self.trait_types@,
            name_map_entries(self.trait_types_by_name),
            key_map_entries(self.trait_types_by_value),
            |t: TraitType| t.descriptor,
        )
    }

    /// A function descriptor key is registered.
    pub open spec fn function_registered(self, descriptor: u64) -> bool {
        key_map_entries(self.functions_by_value).contains_key(descriptor)
    }

    /// A value-type descriptor key is registered.
    pub open spec fn value_type_registered(self, descriptor: u64) -> bool {
        key_map_entries(self.value_types_by_value).contains_key(descriptor)
    }

    /// A trait-type descriptor key is registered.
    pub open spec fn trait_type_registered(self, descriptor: u64) -> bool {
        key_map_entries(self.trait_types_by_value).contains_key(descriptor)
    }

    /// An empty registry.
    pub fn new() -> (r: Registry)
        ensures
            r.wf(),
            r.functions@.len() == 0,
            r.value_types@.len() == 0,
            r.trait_types@.len() == 0,
            name_map_entries(r.functions_by_name) == Map::<Seq<char>, usize>::empty(),
            name_map_entries(r.value_types_by_name) == Map::<Seq<char>, usize>::empty(),
            name_map_entries(r.trait_types_by_name) == Map::<Seq<char>, usize>::empty(),
            key_map_entries(r.functions_by_value) == Map::<u64, usize>::empty(),
            key_map_entries(r.value_types_by_value) == Map::<u64, usize>::empty(),
            key_map_entries(r.trait_types_by_value) == Map::<u64, usize>::empty(),
    {
        Registry {
            functions: Vec::new(),
            functions_by_name: name_map_new(),
            functions_by_value: key_map_new(),
            value_types: Vec::new(),
            value_types_by_name: name_map_new(),
            value_types_by_value: key_map_new(),
            trait_types: Vec::new(),
            trait_types_by_name: name_map_new(),
            trait_types_by_value: key_map_new(),
        }
    }

    /// Idempotent registration of a function under a global name: a fresh
    /// dense id is assigned unless the descriptor key is already present, in
    /// which case nothing changes.
    pub fn register_function(&mut self, global_name: String, func: NativeFunction)
        requires
            old(self).wf(),
        ensures
            final(self).wf(),
            old(self).function_registered(func.descriptor) ==> *final(self) == *old(self),
            !old(self).function_registered(func.descriptor) ==> {
                &&& final(self).functions@ == old(self).functions@.push((func, global_name))
                &&& name_map_entries(final(self).functions_by_name)
                    == name_map_entries(old(self).functions_by_name)
                        .insert(global_name@, old(self).functions@.len() as usize)
                &&& key_map_entries(final(self).functions_by_value)
                    == key_map_entries(old(self).functions_by_value)
                        .insert(func.descriptor, old(self).functions@.len() as usize)
                &&& final(self).value_types == old(self).value_types
                &&& final(self).trait_types == old(self).trait_types
            },
            final(self).function_registered(func.descriptor),
    {
        if key_map_get(&self.functions_by_value, func.descriptor).is_none() {
            let new_id: usize = self.functions.len();
            let descriptor: u64 = func.descriptor;
            let name_copy: String = global_name.clone();
            self.functions.push((func, global_name));
            key_map_insert(&mut self.functions_by_value, descriptor, new_id);
            name_map_insert(&mut self.functions_by_name, name_copy, new_id);
        }
    }

    /// The id of a registered function descriptor. Registration is expected
    /// during process init; an unregistered descriptor is a caller error and
    /// is excluded here.
    pub fn get_function_id(&self, func: &NativeFunction) -> (r: FunctionId)
        requires
            self.wf(),
            self.function_registered(func.descriptor),
        ensures
            r == key_map_entries(self.functions_by_value)[func.descriptor],
            (r as int) < self.functions@.len(),
            self.functions@[r as int].0.descriptor == func.descriptor,
    {
        match key_map_get(&self.functions_by_value, func.descriptor) {
            Some(id) => id,
            None => {
                proof {
                    assert(false);
                }
                0
            },
        }
    }

    /// The id registered under a global name, if any.
    pub fn get_function_id_by_global_name(&self, global_name: &str) -> (r: Option<FunctionId>)
        requires
            self.wf(),
        ensures
            r == if name_map_entries(self.functions_by_name).contains_key(global_name@) {
                Some(name_map_entries(self.functions_by_name)[global_name@])
            } else {
                None::<FunctionId>
            },
            r is Some ==> (r->Some_0 as int) < self.functions@.len(),
    {
        name_map_get(&self.functions_by_name, global_name)
    }

    /// The descriptor stored under a function id.
    pub fn get_function(&self, id: FunctionId) -> (r: &NativeFunction)
        requires
            (id as int) < self.functions@.len(),
        ensures
            *r == self.functions@[id as int].0,
    {
        &self.functions[id].0
    }

    /// The global name stored under a function id.
    pub fn get_function_global_name(&self, id: FunctionId) -> (r: &String)
        requires
            (id as int) < self.functions@.len(),
        ensures
            *r == self.functions@[id as int].1,
    {
        &self.functions[id].1
    }

    /// Idempotent registration of a value type under a global name.
    pub fn register_value_type(&mut self, global_name: String, ty: ValueType)
        requires
            old(self).wf(),
        ensures
            final(self).wf(),
            old(self).value_type_registered(ty.descriptor) ==> *final(self) == *old(self),
            !old(self).value_type_registered(ty.descriptor) ==> {
                &&& final(self).value_types@ == old(self).value_types@.push((ty, global_name))
                &&& name_map_entries(final(self).value_types_by_name)
                    == name_map_entries(old(self).value_types_by_name)
                        .insert(global_name@, old(self).value_types@.len() as usize)
                &&& key_map_entries(final(self).value_types_by_value)
                    == key_map_entries(old(self).value_types_by_value)
                        .insert(ty.descriptor, old(self).value_types@.len() as usize)
                &&& final(self).functions == old(self).functions
                &&& final(self).trait_types == old(self).trait_types
            },
            final(self).value_type_registered(ty.descriptor),
    {
        if key_map_get(&self.value_types_by_value, ty.descriptor).is_none() {
            let new_id: usize = self.value_types.len();
            let descriptor: u64 = ty.descriptor;
            let name_copy: String = global_name.clone();
            self.value_types.push((ty, global_name));
            key_map_insert(&mut self.value_types_by_value, descriptor, new_id);
            name_map_insert(&mut self.value_types_by_name, name_copy, new_id);
        }
    }

    /// The id of a registered value-type descriptor.
    pub fn get_value_type_id(&self, ty: &ValueType) -> (r: ValueTypeId)
        requires
            self.wf(),
            self.value_type_registered(ty.descriptor),
        ensures
            r == key_map_entries(self.value_types_by_value)[ty.descriptor],
            (r as int) < self.value_types@.len(),
            self.value_types@[r as int].0.descriptor == ty.descriptor,
    {
        match key_map_get(&self.value_types_by_value, ty.descriptor) {
            Some(id) => id,
            None => {
                proof {
                    assert(false);
                }
                0
            },
        }
    }

    /// The id registered under a global name, if any.
    pub fn get_value_type_id_by_global_name(&self, global_name: &str) -> (r: Option<ValueTypeId>)
        requires
            self.wf(),
        ensures
            r == if name_map_entries(self.value_types_by_name).contains_key(global_name@) {
                Some(name_map_entries(self.value_types_by_name)[global_name@])
            } else {
                None::<ValueTypeId>
            },
            r is Some ==> (r->Some_0 as int) < self.value_types@.len(),
    {
        name_map_get(&self.value_types_by_name, global_name)
    }

    /// The descriptor stored under a value-type id.
    pub fn get_value_type(&self, id: ValueTypeId) -> (r: &ValueType)
        requires
            (id as int) < self.value_types@.len(),
        ensures
            *r == self.value_types@[id as int].0,
    {
        &self.value_types[id].0
    }

    /// The global name stored under a value-type id.
    pub fn get_value_type_global_name(&self, id: ValueTypeId) -> (r: &String)
        requires
            (id as int) < self.value_types@.len(),
        ensures
            *r == self.value_types@[id as int].1,
    {
        &self.value_types[id].1
    }

    /// Idempotent registration of a trait type under a global name.
    pub fn register_trait_type(&mut self, global_name: String, ty: TraitType)
        requires
            old(self).wf(),
        ensures
            final(self).wf(),
            old(self).trait_type_registered(ty.descriptor) ==> *final(self) == *old(self),
            !old(self).trait_type_registered(ty.descriptor) ==> {
                &&& final(self).trait_types@ == old(self).trait_types@.push((ty, global_name))
                &&& name_map_entries(final(self).trait_types_by_name)
                    == name_map_entries(old(self).trait_types_by_name)
                        .insert(global_name@, old(self).trait_types@.len() as usize)
                &&& key_map_entries(final(self).trait_types_by_value)
                    == key_map_entries(old(self).trait_types_by_value)
                        .insert(ty.descriptor, old(self).trait_types@.len() as usize)
                &&& final(self).functions == old(self).functions
                &&& final(self).value_types == old(self).value_types
            },
            final(self).trait_type_registered(ty.descriptor),
    {
        if key_map_get(&self.trait_types_by_value, ty.descriptor).is_none() {
            let new_id: usize = self.trait_types.len();
            let descriptor: u64 = ty.descriptor;
            let name_copy: String = global_name.clone();
            self.trait_types.push((ty, global_name));
            key_map_insert(&mut self.trait_types_by_value, descriptor, new_id);
            name_map_insert(&mut self.trait_types_by_name, name_copy, new_id);
        }
    }

    /// The id of a registered trait-type descriptor.
    pub fn get_trait_type_id(&self, ty: &TraitType) -> (r: TraitTypeId)
        requires
            self.wf(),
            self.trait_type_registered(ty.descriptor),
        ensures
            r == key_map_entries(self.trait_types_by_value)[ty.descriptor],
            (r as int) < self.trait_types@.len(),
            self.trait_types@[r as int].0.descriptor == ty.descriptor,
    {
        match key_map_get(&self.trait_types_by_value, ty.descriptor) {
            Some(id) => id,
            None => {
                proof {
                    assert(false);
                }
                0
            },
        }
    }

    /// The id registered under a global name, if any.
    pub fn get_trait_type_id_by_global_name(&self, global_name: &str) -> (r: Option<TraitTypeId>)
        requires
            self.wf(),
        ensures
            r == if name_map_entries(self.trait_types_by_name).contains_key(global_name@) {
                Some(name_map_entries(self.trait_types_by_name)[global_name@])
            } else {
                None::<TraitTypeId>
            },
            r is Some ==> (r->Some_0 as int) < self.trait_types@.len(),
    {
        name_map_get(&self.trait_types_by_name, global_name)
    }

    /// The descriptor stored under a trait-type id.
    pub fn get_trait(&self, id: TraitTypeId) -> (r: &TraitType)
        requires
            (id as int) < self.trait_types@.len(),
        ensures
            *r == self.trait_types@[id as int].0,
    {
        &self.trait_types[id].0
    }

    /// The global name stored under a trait-type id.
    pub fn get_trait_type_global_name(&self, id: TraitTypeId) -> (r: &String)
        requires
            (id as int) < self.trait_types@.len(),
        ensures
            *r == self.trait_types@[id as int].1,
    {
        &self.trait_types[id].1
    }
}

} // verus!

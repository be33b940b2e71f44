use vstd::prelude::*;

use ahash::AHashMap;
use std::any::TypeId;

verus! {

/// `std::any::TypeId`, carried through as an opaque key.
#[verifier::external_type_specification]
#[verifier::external_body]
pub struct ExTypeId(std::any::TypeId);

/// `ahash::AHashMap`, the map that descriptions are kept in; what it holds is
/// `described`.
#[verifier::external_type_specification]
#[verifier::external_body]
#[verifier::reject_recursive_types(K)]
#[verifier::reject_recursive_types(V)]
#[verifier::reject_recursive_types(S)]
pub struct ExAHashMap<K, V, S>(ahash::AHashMap<K, V, S>);

/// `ahash::RandomState`, the map's hasher, carried through as opaque.
#[verifier::external_type_specification]
#[verifier::external_body]
pub struct ExRandomState(ahash::RandomState);

/// A description of a component.
pub struct ComponentInfo {
    /// The name of the component.
    pub name: &'static str,
    /// The type id of the component.
    pub type_id: TypeId,
}

/// Relies on `std::any::TypeId::of`: the identifier of the type.
#[verifier::external_body]
fn id_of_type<T: ?Sized + 'static>() -> (r: TypeId) {
    TypeId::of::<T>()
}

impl ComponentInfo {
    /// The description of the component type `T`, under the given name.
    pub fn new<T: 'static>(name: &'static str) -> (r: ComponentInfo)
        ensures
            r.name == name,
    {
        ComponentInfo { name, type_id: id_of_type::<T>() }
    }
}

/// The map that a table of component descriptions is kept in.
pub type InfoMap = AHashMap<TypeId, ComponentInfo>;

/// What a table of component descriptions holds, by type id.
pub uninterp spec fn described(m: InfoMap) -> Map<TypeId, ComponentInfo>;

/// Relies on `ahash::AHashMap::new`: a map with no entries.
#[verifier::external_body]
fn empty_table() -> (r: InfoMap)
    ensures
        described(r).dom() == Set::<TypeId>::empty(),
{
    AHashMap::new()
}

/// Relies on `ahash::AHashMap::get`: the entry at `id`, if there is one.
#[verifier::external_body]
fn lookup<'a>(m: &'a InfoMap, id: &TypeId) -> (r: Option<&'a ComponentInfo>)
    ensures
        r == if described(*m).contains_key(*id) {
            Some(&described(*m)[*id])
        } else {
            None
        },
{
    m.get(id)
}

/// Relies on `ahash::AHashMap::insert`: sets the entry at `id` and returns
/// the one it replaced.
#[verifier::external_body]
fn store(m: &mut InfoMap, id: TypeId, info: ComponentInfo) -> (r: Option<ComponentInfo>)
    ensures
        described(*final(m)) == described(*old(m)).insert(id, info),
        r == if described(*old(m)).contains_key(id) {
            Some(described(*old(m))[id])
        } else {
            None
        },
{
    m.insert(id, info)
}

/// The descriptions of the component types registered so far, by type id.
pub struct ComponentInfoTable {
    map: InfoMap,
}

impl View for ComponentInfoTable {
    type V = Map<TypeId, ComponentInfo>;

    closed spec fn view(&self) -> Map<TypeId, ComponentInfo> {
        described(self.map)
    }
}

impl Default for ComponentInfoTable {
    fn default() -> (r: ComponentInfoTable)
        ensures
            r@ == Map::<TypeId, ComponentInfo>::empty(),
            r.wf(),
    {
        let r = ComponentInfoTable { map: empty_table() };
        assert(r@ =~= Map::<TypeId, ComponentInfo>::empty());
        r
    }
}

impl ComponentInfoTable {
    /// Each description is registered under its own type id.
    pub open spec fn wf(&self) -> bool {
        forall|id: TypeId| #[trigger] self@.contains_key(id) ==> self@[id].type_id == id
    }

    /// A table with no descriptions.
    pub fn new() -> (r: ComponentInfoTable)
        ensures
            r@ == Map::<TypeId, ComponentInfo>::empty(),
            r.wf(),
    {
        let r = ComponentInfoTable { map: empty_table() };
        assert(r@ =~= Map::<TypeId, ComponentInfo>::empty());
        r
    }

    /// The type id of `T`.
    pub fn id<T: 'static>(&self) -> (r: TypeId) {
        id_of_type::<T>()
    }

    /// The description of `T`, if it was registered.
    pub fn get<T: 'static>(&self) -> (r: Option<&ComponentInfo>)
        requires
            self.wf(),
        ensures
            r matches Some(info) ==> self@.contains_key(info.type_id) && self@[info.type_id] == *info,
    {
        self.get_by_id(self.id::<T>())
    }

    /// The description registered under `id`, if any.
    pub fn get_by_id(&self, id: TypeId) -> (r: Option<&ComponentInfo>)
        ensures
            r == if self@.contains_key(id) {
                Some(&self@[id])
            } else {
                None
            },
    {
        lookup(&self.map, &id)
    }

    /// Registers `info` under its own type id and returns the description it
    /// replaced, if any.
    pub fn insert_info(&mut self, info: ComponentInfo) -> (r: Option<ComponentInfo>)
        requires
            old(self).wf(),
        ensures
            final(self).wf(),
            final(self)@ == old(self)@.insert(info.type_id, info),
            r == if old(self)@.contains_key(info.type_id) {
                Some(old(self)@[info.type_id])
            } else {
                None
            },
    {
        let id = info.type_id;
        let ghost g = info;
        let r = store(&mut self.map, id, info);
        assert(self@ == old(self)@.insert(id, g));
        assert(self@[id] == g);
        r
    }

    /// Registers the description of `T`, under the given name, and returns
    /// the one it replaced, if any.
    pub fn register<T: 'static>(&mut self, name: &'static str) -> (r: Option<ComponentInfo>)
        requires
            old(self).wf(),
        ensures
            final(self).wf(),
            exists|info: ComponentInfo|
                info.name == name && final(self)@ == old(self)@.insert(info.type_id, info) && r == if old(
                    self,
                )@.contains_key(info.type_id) {
                    Some(old(self)@[info.type_id])
                } else {
                    None
                },
    {
        self.insert_info(ComponentInfo::new::<T>(name))
    }
}

} // verus!

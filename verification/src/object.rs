//! The object heap: objects by their ids, which are handed out in rising order and
//! never taken back.

use vstd::prelude::*;
use crate::operand::Item;
use crate::table::{Key, Table};

verus! {

/// Fields of one object: from field name id and object id to the one or two slots of
/// the field's value.
pub type FieldMap = Table<(Item, Item)>;

#[derive(Debug)]
pub struct Objectref {
    pub class_name_id: usize,
    pub field_map: FieldMap,
    pub is_initialized: bool,
}

/// An object with its fields as a map.
pub struct ObjectrefView {
    pub class_name_id: usize,
    pub field_map: Map<Key, (Item, Item)>,
    pub is_initialized: bool,
}

impl View for Objectref {
    type V = ObjectrefView;

    open spec fn view(&self) -> ObjectrefView {
        ObjectrefView {
            class_name_id: self.class_name_id,
            field_map: self.field_map@,
            is_initialized: self.is_initialized,
        }
    }
}

impl Objectref {
    pub fn new(class_name_id: usize, field_map: FieldMap, is_initialized: bool) -> (r: Objectref)
        ensures
            r.class_name_id == class_name_id,
            r.field_map == field_map,
            r.is_initialized == is_initialized,
    {
        Objectref { class_name_id, field_map, is_initialized }
    }
}

/// The objects that were created, each at the place of its id.
#[derive(Debug)]
pub struct ObjectMap {
    pub id: usize,
    pub map: Vec<Objectref>,
}

/// The view of each object.
pub open spec fn objects_view(objects: Seq<Objectref>) -> Seq<ObjectrefView> {
    Seq::new(objects.len(), |i: int| objects[i]@)
}

impl View for ObjectMap {
    type V = Seq<ObjectrefView>;

    open spec fn view(&self) -> Seq<ObjectrefView> {
        objects_view(self.map@)
    }
}

impl ObjectMap {
    /// The next id is the number of objects, and the field map of each object is a map.
    pub open spec fn wf(&self) -> bool {
        &&& self.id == self.map@.len()
        &&& forall|i: int| 0 <= i < self.map@.len() ==> (#[trigger] self.map@[i]).field_map.wf()
    }

    pub fn new() -> (r: ObjectMap)
        ensures
            r.wf(),
            r@ == Seq::<ObjectrefView>::empty(),
    {
        let r = ObjectMap { id: 0, map: Vec::new() };
        assert(r@ =~= Seq::<ObjectrefView>::empty());
        r
    }

    /// Stores `value` under the next id and hands that id out.
    pub fn add(&mut self, value: Objectref) -> (id: usize)
        requires
            old(self).wf(),
            value.field_map.wf(),
        ensures
            final(self).wf(),
            id == old(self).id,
            final(self).id == id + 1,
            final(self)@ == old(self)@.push(value@),
    {
        let id = self.map.len();
        self.map.push(value);
        self.id = self.map.len();
        assert(self@ =~= old(self)@.push(value@));
        id
    }

    /// The object with the given id, if one was created under it.
    pub fn get(&self, id: &usize) -> (r: Option<&Objectref>)
        ensures
            match r {
                Some(object) => *id < self.map@.len() && *object == self.map@[*id as int]
                    && object@ == self@[*id as int],
                None => *id >= self.map@.len(),
            },
    {
        if *id < self.map.len() {
            Some(&self.map[*id])
        } else {
            None
        }
    }

    /// The object with the given id, for changing it, if one was created under it.
    pub fn get_mut(&mut self, id: &usize) -> (r: Option<&mut Objectref>)
        ensures
            match r {
                Some(object) => *id < old(self).map@.len() && *object == old(self).map@[*id as int]
                    && final(self).map@ == old(self).map@.update(*id as int, *final(object))
                    && final(self).id == old(self).id,
                None => *id >= old(self).map@.len() && *final(self) == *old(self),
            },
    {
        if *id < self.map.len() {
            Some(&mut self.map[*id])
        } else {
            None
        }
    }

    /// Sets the field `key` of the object `id` to `value`. Hands out whether there is such
    /// an object; if not, nothing changes.
    pub fn set_field(&mut self, id: usize, key: Key, value: (Item, Item)) -> (r: bool)
        requires
            old(self).wf(),
        ensures
            final(self).wf(),
            r == (id < old(self)@.len()),
            r ==> final(self)@ == old(self)@.update(
                id as int,
                ObjectrefView {
                    field_map: old(self)@[id as int].field_map.insert(key, value),
                    ..old(self)@[id as int]
                },
            ),
            !r ==> final(self)@ == old(self)@,
    {
        if id < self.map.len() {
            let object = &mut self.map[id];
            object.field_map.insert(key, value);
            assert(self@ =~= old(self)@.update(
                id as int,
                ObjectrefView {
                    field_map: old(self)@[id as int].field_map.insert(key, value),
                    ..old(self)@[id as int]
                },
            ));
            true
        } else {
            false
        }
    }
}

} // verus!

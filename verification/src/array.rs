//! The array heap: arrays by their ids, which are handed out in rising order and never
//! taken back.

use vstd::prelude::*;
use crate::operand::Item;

verus! {

/// Element types of primitive arrays, by the operand of the instruction that creates one.
#[derive(Clone, Copy, Debug, PartialEq, Eq, Structural)]
pub enum PrimitiveArrayType {
    TBoolean,
    TChar,
    TFloat,
    TDouble,
    TByte,
    TShort,
    TInt,
    TLong,
}

/// The element type that the operand `code` stands for.
pub open spec fn primitive_type_of(code: usize) -> Option<PrimitiveArrayType> {
    if code == 4 {
        Some(PrimitiveArrayType::TBoolean)
    } else if code == 5 {
        Some(PrimitiveArrayType::TChar)
    } else if code == 6 {
        Some(PrimitiveArrayType::TFloat)
    } else if code == 7 {
        Some(PrimitiveArrayType::TDouble)
    } else if code == 8 {
        Some(PrimitiveArrayType::TByte)
    } else if code == 9 {
        Some(PrimitiveArrayType::TShort)
    } else if code == 10 {
        Some(PrimitiveArrayType::TInt)
    } else if code == 11 {
        Some(PrimitiveArrayType::TLong)
    } else {
        None
    }
}

impl PrimitiveArrayType {
    /// The element type that the operand `code` stands for.
    pub fn from(code: usize) -> (r: Option<PrimitiveArrayType>)
        ensures
            r == primitive_type_of(code),
    {
        if code == 4 {
            Some(PrimitiveArrayType::TBoolean)
        } else if code == 5 {
            Some(PrimitiveArrayType::TChar)
        } else if code == 6 {
            Some(PrimitiveArrayType::TFloat)
        } else if code == 7 {
            Some(PrimitiveArrayType::TDouble)
        } else if code == 8 {
            Some(PrimitiveArrayType::TByte)
        } else if code == 9 {
            Some(PrimitiveArrayType::TShort)
        } else if code == 10 {
            Some(PrimitiveArrayType::TInt)
        } else if code == 11 {
            Some(PrimitiveArrayType::TLong)
        } else {
            None
        }
    }

    /// The slots of an element that was not stored to yet.
    pub open spec fn initial(self) -> (Item, Item) {
        match self {
            PrimitiveArrayType::TBoolean => (Item::Boolean(false), Item::Null),
            PrimitiveArrayType::TFloat => (Item::Float(0), Item::Null),
            PrimitiveArrayType::TDouble => (Item::Double(0), Item::Double(0)),
            PrimitiveArrayType::TLong => (Item::Long(0), Item::Long(0)),
            _ => (Item::Int(0), Item::Null),
        }
    }

    /// The slots of an element that was not stored to yet.
    pub fn default_value(self) -> (r: (Item, Item))
        ensures
            r == self.initial(),
    {
        match self {
            PrimitiveArrayType::TBoolean => (Item::Boolean(false), Item::Null),
            PrimitiveArrayType::TFloat => (Item::Float(0), Item::Null),
            PrimitiveArrayType::TDouble => (Item::Double(0), Item::Double(0)),
            PrimitiveArrayType::TLong => (Item::Long(0), Item::Long(0)),
            _ => (Item::Int(0), Item::Null),
        }
    }
}

/// One array: of primitive values, each in one or two slots; of the ids of its child
/// arrays; or of the ids of objects.
#[derive(Debug)]
pub enum Array {
    Primitive(Vec<(Item, Item)>),
    Array(Vec<usize>),
    Custom(Vec<usize>),
}

/// An array with its elements as a sequence.
pub enum ArrayView {
    Primitive(Seq<(Item, Item)>),
    Array(Seq<usize>),
    Custom(Seq<usize>),
}

impl View for Array {
    type V = ArrayView;

    open spec fn view(&self) -> ArrayView {
        match self {
            Array::Primitive(items) => ArrayView::Primitive(items@),
            Array::Array(ids) => ArrayView::Array(ids@),
            Array::Custom(ids) => ArrayView::Custom(ids@),
        }
    }
}

/// The arrays that were created, each at the place of its id.
#[derive(Debug)]
pub struct ArrayMap {
    pub id: usize,
    pub map: Vec<Array>,
}

/// The view of each array.
pub open spec fn arrays_view(arrays: Seq<Array>) -> Seq<ArrayView> {
    Seq::new(arrays.len(), |i: int| arrays[i]@)
}

impl View for ArrayMap {
    type V = Seq<ArrayView>;

    open spec fn view(&self) -> Seq<ArrayView> {
        arrays_view(self.map@)
    }
}

/// What storing the slots `value` at `index` of the primitive array `id` makes of the
/// arrays, if there is such an element.
pub open spec fn with_element(
    arrays: Seq<ArrayView>,
    id: usize,
    index: usize,
    value: (Item, Item),
) -> Option<
    Seq<ArrayView>,
> {
    if id < arrays.len() {
        match arrays[id as int] {
            ArrayView::Primitive(items) => if index < items.len() {
                Some(arrays.update(id as int, ArrayView::Primitive(items.update(index as int, value))))
            } else {
                None
            },
            _ => None,
        }
    } else {
        None
    }
}

/// What storing the id `reference` at `index` of the array `id` makes of the arrays, if
/// there is such an element: of an array of objects where `child` is false, of an array
/// of arrays where it is true.
pub open spec fn with_reference(
    arrays: Seq<ArrayView>,
    id: usize,
    index: usize,
    reference: usize,
    child: bool,
) -> Option<Seq<ArrayView>> {
    if id < arrays.len() {
        match arrays[id as int] {
            ArrayView::Custom(ids) => if index < ids.len() && !child {
                Some(arrays.update(id as int, ArrayView::Custom(ids.update(index as int, reference))))
            } else {
                None
            },
            ArrayView::Array(ids) => if index < ids.len() && child {
                Some(arrays.update(id as int, ArrayView::Array(ids.update(index as int, reference))))
            } else {
                None
            },
            _ => None,
        }
    } else {
        None
    }
}

impl ArrayMap {
    /// The next id is the number of arrays.
    pub open spec fn wf(&self) -> bool {
        self.id == self.map@.len()
    }

    pub fn new() -> (r: ArrayMap)
        ensures
            r.wf(),
            r@ == Seq::<ArrayView>::empty(),
    {
        let r = ArrayMap { id: 0, map: Vec::new() };
        assert(r@ =~= Seq::<ArrayView>::empty());
        r
    }

    /// Stores `value` under the next id and hands that id out.
    pub fn add(&mut self, value: Array) -> (id: usize)
        requires
            old(self).wf(),
        ensures
            final(self).wf(),
            id == old(self).id,
            final(self).id == id + 1,
            final(self)@ == old(self)@.push(value@),
    {
        let id = self.map.len();
        self.map.push(value);
        self.id = self.map.len();
        assert(self@ =~= old(self)@.push(value@));
        id
    }

    /// The array with the given id, if one was created under it.
    pub fn get(&self, id: &usize) -> (r: Option<&Array>)
        ensures
            match r {
                Some(array) => *id < self.map@.len() && *array == self.map@[*id as int] && array@
                    == self@[*id as int],
                None => *id >= self.map@.len(),
            },
    {
        if *id < self.map.len() {
            Some(&self.map[*id])
        } else {
            None
        }
    }

    /// The array with the given id, for changing it, if one was created under it.
    pub fn get_mut(&mut self, id: &usize) -> (r: Option<&mut Array>)
        ensures
            match r {
                Some(array) => *id < old(self).map@.len() && *array == old(self).map@[*id as int]
                    && final(self).map@ == old(self).map@.update(*id as int, *final(array))
                    && final(self).id == old(self).id,
                None => *id >= old(self).map@.len() && *final(self) == *old(self),
            },
    {
        if *id < self.map.len() {
            Some(&mut self.map[*id])
        } else {
            None
        }
    }

    /// Stores the slots `value` at `index` of the primitive array `id`. Hands out whether
    /// there is such an element; if not, nothing changes.
    pub fn store_element(&mut self, id: usize, index: usize, value: (Item, Item)) -> (r: bool)
        requires
            old(self).wf(),
        ensures
            final(self).wf(),
            match with_element(old(self)@, id, index, value) {
                Some(arrays) => r && final(self)@ == arrays,
                None => !r && final(self)@ == old(self)@,
            },
    {
        if id >= self.map.len() {
            return false;
        }
        match &mut self.map[id] {
            Array::Primitive(items) => {
                if index < items.len() {
                    items.set(index, value);
                    assert(self@ =~= with_element(old(self)@, id, index, value)->0);
                    true
                } else {
                    false
                }
            },
            _ => false,
        }
    }

    /// Stores the id `reference` at `index` of the array `id`: of an array of objects
    /// where `child` is false, of an array of arrays where it is true. Hands out whether
    /// there is such an element; if not, nothing changes.
    pub fn store_reference(&mut self, id: usize, index: usize, reference: usize, child: bool) -> (r:
        bool)
        requires
            old(self).wf(),
        ensures
            final(self).wf(),
            match with_reference(old(self)@, id, index, reference, child) {
                Some(arrays) => r && final(self)@ == arrays,
                None => !r && final(self)@ == old(self)@,
            },
    {
        if id >= self.map.len() {
            return false;
        }
        match &mut self.map[id] {
            Array::Custom(ids) => {
                if index < ids.len() && !child {
                    ids.set(index, reference);
                    assert(self@ =~= with_reference(old(self)@, id, index, reference, child)->0);
                    true
                } else {
                    false
                }
            },
            Array::Array(ids) => {
                if index < ids.len() && child {
                    ids.set(index, reference);
                    assert(self@ =~= with_reference(old(self)@, id, index, reference, child)->0);
                    true
                } else {
                    false
                }
            },
            _ => false,
        }
    }
}

} // verus!

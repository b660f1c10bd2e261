//! Intern table: each text gets one id, and each id gives its text back.

use vstd::prelude::*;
use crate::error::Error;

verus! {

/// Bidirectional table between texts and ids. The id of a text is its place in `values`.
pub struct StringPool {
    pub id: usize,
    pub values: Vec<String>,
}

/// The texts of a pool, by id.
pub open spec fn texts_of(values: Seq<String>) -> Seq<Seq<char>> {
    Seq::new(values.len(), |i: int| values[i]@)
}

/// No text occurs twice.
pub open spec fn distinct(texts: Seq<Seq<char>>) -> bool {
    forall|i: int, j: int| 0 <= i < j < texts.len() ==> texts[i] != texts[j]
}

/// What interning `text` into `texts` gives: the table afterwards and the id of `text`.
/// A text that is in the table keeps its id; a new one gets the next id.
pub open spec fn interned(texts: Seq<Seq<char>>, text: Seq<char>) -> (Seq<Seq<char>>, usize) {
    if texts.contains(text) {
        (texts, texts.index_of(text) as usize)
    } else {
        (texts.push(text), texts.len() as usize)
    }
}

/// The id of `text` in `texts`, if it has one.
pub open spec fn id_of(texts: Seq<Seq<char>>, text: Seq<char>) -> Option<usize> {
    if texts.contains(text) {
        Some(texts.index_of(text) as usize)
    } else {
        None
    }
}

impl View for StringPool {
    type V = Seq<Seq<char>>;

    open spec fn view(&self) -> Seq<Seq<char>> {
        texts_of(self.values@)
    }
}

impl StringPool {
    /// The counter is the number of texts, and no text occurs twice.
    pub open spec fn wf(&self) -> bool {
        &&& self.id == self.values@.len()
        &&& distinct(self@)
    }

    /// An empty pool.
    pub fn new() -> (r: StringPool)
        ensures
            r.wf(),
            r@ == Seq::<Seq<char>>::empty(),
    {
        let r = StringPool { id: 0, values: Vec::new() };
        assert(r@ =~= Seq::<Seq<char>>::empty());
        r
    }

    /// The id of `value`, if it was interned.
    pub fn find(&self, value: &String) -> (r: Option<usize>)
        requires
            self.wf(),
        ensures
            r == id_of(self@, value@),
    {
        let mut i: usize = 0;
        while i < self.values.len()
            invariant
                self.wf(),
                i <= self.values@.len(),
                forall|j: int| 0 <= j < i ==> self@[j] != value@,
            decreases self.values@.len() - i,
        {
            if self.values[i] == *value {
                proof {
                    assert(self@[i as int] == value@);
                    let k = self@.index_of(value@);
                    assert(self@.contains(value@));
                    assert(k == i);
                }
                return Some(i);
            }
            i += 1;
        }
        None
    }

    /// Interns `value` and hands out its id: the id it had, or else the next free one.
    pub fn insert(&mut self, value: String) -> (id: usize)
        requires
            old(self).wf(),
        ensures
            final(self).wf(),
            (final(self)@, id) == interned(old(self)@, value@),
            final(self)@[id as int] == value@,
            id < final(self)@.len(),
            old(self)@.len() <= final(self)@.len(),
            forall|i: int| 0 <= i < old(self)@.len() ==> final(self)@[i] == old(self)@[i],
    {
        if let Some(found) = self.find(&value) {
            return found;
        }
        let id: usize = self.values.len();
        let ghost before = self@;
        self.values.push(value);
        self.id = self.values.len();
        proof {
            assert(self@ =~= before.push(value@));
            assert(!before.contains(value@));
            assert forall|i: int, j: int| 0 <= i < j < self@.len() implies self@[i] != self@[j] by {
                if j == before.len() {
                    assert(before[i] == self@[i]);
                    assert(before.contains(before[i]));
                }
            }
        }
        id
    }

    /// The text with the given id; fails if no text has it.
    pub fn get_value(&self, id: &usize) -> (r: Result<String, Error>)
        ensures
            match r {
                Ok(text) => *id < self@.len() && text@ == self@[*id as int],
                Err(e) => *id >= self@.len() && e == Error::InternalError,
            },
    {
        if *id < self.values.len() {
            Ok(self.values[*id].clone())
        } else {
            Err(Error::InternalError)
        }
    }

    /// Whether the text with the given id is `text`.
    pub fn is_text(&self, id: usize, text: &str) -> (r: bool)
        ensures
            r == (id < self@.len() && self@[id as int] == text@),
    {
        if id < self.values.len() {
            let other = String::from_str(text);
            self.values[id] == other
        } else {
            false
        }
    }
}

/// Interning a text twice gives the same id, and the second time changes nothing.
pub proof fn law_intern_idempotent(texts: Seq<Seq<char>>, text: Seq<char>)
    requires
        distinct(texts),
        texts.len() < usize::MAX,
    ensures
        interned(interned(texts, text).0, text) == interned(texts, text),
        distinct(interned(texts, text).0),
{
    let after = interned(texts, text).0;
    if texts.contains(text) {
    } else {
        assert(after[texts.len() as int] == text);
        assert(after.contains(text));
        assert forall|i: int, j: int| 0 <= i < j < after.len() implies after[i] != after[j] by {
            if j == texts.len() {
                assert(texts.contains(texts[i]));
            }
        }
        let k = after.index_of(text);
        assert(after[k] == text);
        if k < texts.len() {
            assert(texts.contains(texts[k]));
        }
    }
}

/// Every id of the table gives back the text that was interned under it.
pub proof fn law_intern_resolves(texts: Seq<Seq<char>>, text: Seq<char>)
    requires
        distinct(texts),
        texts.len() < usize::MAX,
    ensures
        interned(texts, text).0[interned(texts, text).1 as int] == text,
        forall|i: int| 0 <= i < texts.len() ==> interned(texts, text).0[i] == texts[i],
{
    if texts.contains(text) {
        let k = texts.index_of(text);
        assert(texts[k] == text);
    }
}

} // verus!

//! Interned names: each distinct text is kept once in a table, and a name is
//! the index of its text there.

use indexmap::IndexSet;
use vstd::prelude::*;

verus! {

/// `indexmap::IndexSet`: a set that keeps its entries in the order in which
/// they were added and gives each its index. Nothing inside it is seen here.
#[verifier::external_type_specification]
#[verifier::external_body]
#[verifier::reject_recursive_types(T)]
#[verifier::reject_recursive_types(S)]
pub struct ExIndexSet<T, S>(IndexSet<T, S>);

/// The texts that an `IndexSet` of strings holds, in the order of their
/// indices.
pub uninterp spec fn entries(set: IndexSet<String>) -> Seq<Seq<char>>;

/// `IndexSet::new`: a set that holds nothing.
#[verifier::external_body]
fn set_new() -> (set: IndexSet<String>)
    ensures
        entries(set) == Seq::<Seq<char>>::empty(),
{
    IndexSet::new()
}

/// `IndexSet::len`: the number of entries.
#[verifier::external_body]
fn set_len(set: &IndexSet<String>) -> (n: usize)
    ensures
        n == entries(*set).len(),
{
    set.len()
}

/// `IndexSet::get_index_of`: the index of an entry equal to the text, if the
/// set holds one.
#[verifier::external_body]
fn set_index_of(set: &IndexSet<String>, text: &str) -> (r: Option<usize>)
    ensures
        match r {
            Some(i) => i < entries(*set).len() && entries(*set)[i as int] == text@,
            None => !entries(*set).contains(text@),
        },
{
    set.get_index_of(text)
}

/// `IndexSet::insert_full`: where the set holds an equal entry, it stays as it
/// is and the call returns that entry's index and `false`; otherwise the text
/// becomes the last entry and the call returns its index and `true`.
#[verifier::external_body]
fn set_insert_full(set: &mut IndexSet<String>, text: String) -> (r: (usize, bool))
    ensures
        entries(*old(set)).contains(text@) ==> {
            &&& entries(*final(set)) == entries(*old(set))
            &&& r.0 < entries(*old(set)).len()
            &&& entries(*old(set))[r.0 as int] == text@
            &&& !r.1
        },
        !entries(*old(set)).contains(text@) ==> {
            &&& entries(*final(set)) == entries(*old(set)).push(text@)
            &&& r.0 == entries(*old(set)).len()
            &&& r.1
        },
{
    set.insert_full(text)
}

/// `IndexSet::get_index`: the entry at an index, if the index is below the
/// number of entries.
#[verifier::external_body]
fn set_get_index(set: &IndexSet<String>, index: usize) -> (r: Option<&String>)
    ensures
        match r {
            Some(text) => index < entries(*set).len() && text@ == entries(*set)[index as int],
            None => index >= entries(*set).len(),
        },
{
    set.get_index(index)
}

/// No text occurs twice.
pub open spec fn distinct(names: Seq<Seq<char>>) -> bool {
    forall|i: int, j: int| 0 <= i < j < names.len() ==> names[i] != names[j]
}

/// The index that a text has once it is interned: its place in the table, or
/// the next free place.
pub open spec fn handle_of(names: Seq<Seq<char>>, text: Seq<char>) -> nat {
    if names.contains(text) {
        names.index_of(text) as nat
    } else {
        names.len()
    }
}

/// The table after a text was interned.
pub open spec fn with_name(names: Seq<Seq<char>>, text: Seq<char>) -> Seq<Seq<char>> {
    if names.contains(text) {
        names
    } else {
        names.push(text)
    }
}

/// In a table without repeats a text's place is the only index that holds it.
pub proof fn lemma_handle_unique(names: Seq<Seq<char>>, text: Seq<char>, i: int)
    requires
        distinct(names),
        0 <= i < names.len(),
        names[i] == text,
    ensures
        names.contains(text),
        handle_of(names, text) == i,
{
}

/// Interning keeps the table free of repeats, keeps every earlier entry in its
/// place, and leaves the text at its handle.
pub proof fn lemma_with_name(names: Seq<Seq<char>>, text: Seq<char>)
    requires
        distinct(names),
    ensures
        distinct(with_name(names, text)),
        names.is_prefix_of(with_name(names, text)),
        handle_of(names, text) < with_name(names, text).len(),
        with_name(names, text)[handle_of(names, text) as int] == text,
{
}

/// Interning is idempotent: a text that was interned gets the same handle when
/// it is interned again, and the table stays as it is.
pub proof fn law_intern_again(names: Seq<Seq<char>>, text: Seq<char>)
    requires
        distinct(names),
    ensures
        handle_of(with_name(names, text), text) == handle_of(names, text),
        with_name(with_name(names, text), text) == with_name(names, text),
{
    lemma_with_name(names, text);
    lemma_handle_unique(with_name(names, text), text, handle_of(names, text) as int);
}

/// Two different texts, interned one after the other, get different handles.
pub proof fn law_intern_apart(names: Seq<Seq<char>>, first: Seq<char>, second: Seq<char>)
    requires
        distinct(names),
        first != second,
    ensures
        handle_of(with_name(names, first), second) != handle_of(names, first),
{
    lemma_with_name(names, first);
    let grown = with_name(names, first);
    let h = handle_of(names, first);
    if grown.contains(second) {
        let j = grown.index_of(second);
    }
}

/// An interned name: the index of its text in the table that issued it. Two
/// names of one table are equal exactly when their texts are.
#[derive(Debug, Clone, Copy, PartialEq, Eq, Hash, Structural)]
pub struct StringName(pub usize);

/// The table of interned texts. It only grows: a name stays valid once issued.
pub struct Interner {
    set: IndexSet<String>,
}

impl View for Interner {
    type V = Seq<Seq<char>>;

    /// The texts of the table, each at the index that is its name.
    closed spec fn view(&self) -> Seq<Seq<char>> {
        entries(self.set)
    }
}

impl Interner {
    /// No text stands in the table twice.
    pub open spec fn wf(&self) -> bool {
        distinct(self@)
    }

    /// Whether the table issued this name.
    pub open spec fn holds(&self, name: StringName) -> bool {
        name.0 < self@.len()
    }

    /// An empty table.
    pub fn new() -> (table: Interner)
        ensures
            table.wf(),
            table@ == Seq::<Seq<char>>::empty(),
    {
        Interner { set: set_new() }
    }

    /// Number of texts in the table.
    pub fn len(&self) -> (n: usize)
        ensures
            n == self@.len(),
    {
        set_len(&self.set)
    }

    /// The name of a text, if the text was interned before. The table is only
    /// read.
    pub fn lookup(&self, text: &str) -> (r: Option<StringName>)
        requires
            self.wf(),
        ensures
            r == if self@.contains(text@) {
                Some(StringName(handle_of(self@, text@) as usize))
            } else {
                None
            },
    {
        match set_index_of(&self.set, text) {
            Some(i) => {
                proof {
                    lemma_handle_unique(self@, text@, i as int);
                }
                Some(StringName(i))
            },
            None => None,
        }
    }

    /// The name of a text. A text seen before keeps its name; a new text is
    /// added behind the others.
    pub fn intern(&mut self, text: &str) -> (name: StringName)
        requires
            old(self).wf(),
        ensures
            final(self).wf(),
            final(self)@ == with_name(old(self)@, text@),
            name.0 == handle_of(old(self)@, text@),
            final(self).holds(name),
    {
        proof {
            lemma_with_name(self@, text@);
        }
        match set_index_of(&self.set, text) {
            Some(i) => {
                proof {
                    lemma_handle_unique(self@, text@, i as int);
                }
                StringName(i)
            },
            None => {
                let owned = text.to_owned();
                let (i, _) = set_insert_full(&mut self.set, owned);
                StringName(i)
            },
        }
    }

    /// The text of a name, or nothing if this table did not issue the name.
    pub fn text_of(&self, name: StringName) -> (r: Option<&str>)
        ensures
            match r {
                Some(text) => self.holds(name) && text@ == self@[name.0 as int],
                None => !self.holds(name),
            },
    {
        match set_get_index(&self.set, name.0) {
            Some(text) => Some(text.as_str()),
            None => None,
        }
    }
}

impl StringName {
    /// The text of a name that the table issued.
    pub fn as_str<'a>(&self, table: &'a Interner) -> (text: &'a str)
        requires
            table.holds(*self),
        ensures
            text@ == table@[self.0 as int],
    {
        match table.text_of(*self) {
            Some(text) => text,
            None => "",
        }
    }
}

} // verus!

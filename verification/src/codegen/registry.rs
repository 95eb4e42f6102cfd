//! The allocator of storage slots.
use vstd::prelude::*;
use vstd::string::*;
use crate::text::{str_eq, views};

verus! {

/// A storage namespace. Each namespace counts its slots on its own.
#[derive(Clone, Copy, Debug, PartialEq, Eq)]
pub enum StorageKind {
    Persistent,
    Transient,
}

/// Why a name gets no slot.
#[derive(Clone, Copy, Debug, PartialEq, Eq)]
pub enum AllocationError {
    /// The name already has a slot in the namespace.
    Duplicate,
    /// The namespace has no slot index left.
    Exhausted,
}

/// The most slots of a namespace: a slot index is an `i32`.
pub const MAX_SLOTS: usize = 0x7fff_ffff;

/// The slot that `name` gets in a namespace that already holds `names`, in
/// the order of their declaration: the next index, unless the name is
/// taken or the indices are used up.
pub open spec fn allocation(names: Seq<Seq<char>>, name: Seq<char>) -> Result<int, AllocationError> {
    if names.contains(name) {
        Err(AllocationError::Duplicate)
    } else if names.len() >= MAX_SLOTS {
        Err(AllocationError::Exhausted)
    } else {
        Ok(names.len() as int)
    }
}

/// The names of a namespace after `name` was declared in it.
pub open spec fn declared(names: Seq<Seq<char>>, name: Seq<char>) -> Seq<Seq<char>> {
    if allocation(names, name) is Ok {
        names.push(name)
    } else {
        names
    }
}

/// The names of a namespace after all of `declarations` were declared in
/// it, one after the other.
pub open spec fn declared_all(names: Seq<Seq<char>>, declarations: Seq<Seq<char>>) -> Seq<
    Seq<char>,
>
    decreases declarations.len(),
{
    if declarations.len() == 0 {
        names
    } else {
        declared(declared_all(names, declarations.drop_last()), declarations.last())
    }
}

/// The first names of `declarations` that a namespace has slot indices
/// for.
pub open spec fn within_slots(declarations: Seq<Seq<char>>) -> Seq<Seq<char>> {
    if declarations.len() <= MAX_SLOTS {
        declarations
    } else {
        declarations.take(MAX_SLOTS as int)
    }
}

/// Declaring distinct names in an empty namespace leaves exactly these
/// names behind, in the order of their declaration, as far as the slot
/// indices reach.
pub proof fn lemma_declared_all(declarations: Seq<Seq<char>>)
    requires
        declarations.no_duplicates(),
    ensures
        declared_all(Seq::empty(), declarations) == within_slots(declarations),
    decreases declarations.len(),
{
    if declarations.len() > 0 {
        let before = declarations.drop_last();
        let last = declarations.last();
        lemma_declared_all(before);
        assert(!within_slots(before).contains(last)) by {
            if within_slots(before).contains(last) {
                let j = choose|j: int|
                    0 <= j < within_slots(before).len() && within_slots(before)[j] == last;
                assert(declarations[j] == declarations[declarations.len() - 1]);
            }
        }
        if declarations.len() <= MAX_SLOTS {
            assert(before.push(last) =~= declarations);
        } else {
            assert(within_slots(before) =~= within_slots(declarations));
        }
    }
}

/// Distinct names, declared one after the other in an empty namespace, get
/// the slots 0, 1, 2 and so on, in the order of their declaration: none is
/// used twice and none is left out. A name behind the last slot index gets
/// none.
pub proof fn lemma_allocation_order(declarations: Seq<Seq<char>>, i: int)
    requires
        declarations.no_duplicates(),
        0 <= i < declarations.len(),
    ensures
        allocation(declared_all(Seq::empty(), declarations.take(i)), declarations[i]) == (if i
            < MAX_SLOTS {
            Ok::<int, AllocationError>(i)
        } else {
            Err::<int, AllocationError>(AllocationError::Exhausted)
        }),
{
    let before = declarations.take(i);
    assert(before.no_duplicates());
    lemma_declared_all(before);
    assert(!within_slots(before).contains(declarations[i])) by {
        if within_slots(before).contains(declarations[i]) {
            let j = choose|j: int|
                0 <= j < within_slots(before).len() && within_slots(before)[j] == declarations[i];
            assert(declarations[j] == declarations[i]);
        }
    }
}

/// A name that was declared in a namespace gets no second slot in it,
/// whatever was declared since.
pub proof fn lemma_duplicate_refused(names: Seq<Seq<char>>, name: Seq<char>, later: Seq<Seq<char>>)
    ensures
        allocation(declared_all(declared(names, name), later), name) is Err,
    decreases later.len(),
{
    if later.len() == 0 {
        if allocation(names, name) is Ok {
            assert(names.push(name)[names.len() as int] == name);
        }
    } else {
        lemma_duplicate_refused(names, name, later.drop_last());
        let so_far = declared_all(declared(names, name), later.drop_last());
        if so_far.contains(name) {
            let j = choose|j: int| 0 <= j < so_far.len() && so_far[j] == name;
            if allocation(so_far, later.last()) is Ok {
                assert(so_far.push(later.last())[j] == name);
            }
        }
    }
}

/// The registry of the storage names of a program: one list of names for
/// each namespace, in the order of their declaration. The slot of a name
/// is its position in the list of its namespace.
pub struct Registry {
    persistent: Vec<String>,
    transient: Vec<String>,
}

impl Registry {
    /// No name stands twice in the list of a namespace, and no list is
    /// longer than there are slot indices.
    pub closed spec fn well_formed(&self) -> bool {
        &&& views(self.persistent@).no_duplicates()
        &&& views(self.transient@).no_duplicates()
        &&& self.persistent@.len() <= MAX_SLOTS
        &&& self.transient@.len() <= MAX_SLOTS
    }

    /// The names declared in the namespace `kind`, in the order of their
    /// declaration.
    pub closed spec fn names(&self, kind: StorageKind) -> Seq<Seq<char>> {
        match kind {
            StorageKind::Persistent => views(self.persistent@),
            StorageKind::Transient => views(self.transient@),
        }
    }

    /// In a well-formed registry no name was declared twice in a namespace,
    /// and no namespace holds more names than it has slot indices.
    pub proof fn lemma_names_distinct(&self, kind: StorageKind)
        requires
            self.well_formed(),
        ensures
            self.names(kind).no_duplicates(),
            self.names(kind).len() <= MAX_SLOTS,
    {
    }

    /// A registry without names.
    pub fn new() -> (registry: Self)
        ensures
            registry.well_formed(),
            registry.names(StorageKind::Persistent) == Seq::<Seq<char>>::empty(),
            registry.names(StorageKind::Transient) == Seq::<Seq<char>>::empty(),
    {
        let registry = Registry { persistent: Vec::new(), transient: Vec::new() };
        assert(registry.names(StorageKind::Persistent) =~= Seq::<Seq<char>>::empty());
        assert(registry.names(StorageKind::Transient) =~= Seq::<Seq<char>>::empty());
        registry
    }

    /// Gives `name` the next slot of the namespace `kind`. A name that has
    /// a slot there gets no second one, and the registry stays as it was.
    pub fn allocate(&mut self, kind: StorageKind, name: &str) -> (result: Result<
        i32,
        AllocationError,
    >)
        requires
            old(self).well_formed(),
        ensures
            final(self).well_formed(),
            match result {
                Ok(slot) => allocation(old(self).names(kind), name@) == Ok::<int, AllocationError>(
                    slot as int,
                ),
                Err(error) => allocation(old(self).names(kind), name@) == Err::<
                    int,
                    AllocationError,
                >(error),
            },
            final(self).names(kind) == declared(old(self).names(kind), name@),
            forall|other: StorageKind|
                other != kind ==> final(self).names(other) == old(self).names(other),
    {
        match kind {
            StorageKind::Persistent => allocate_in(&mut self.persistent, name),
            StorageKind::Transient => allocate_in(&mut self.transient, name),
        }
    }
}

/// Tells whether `names` holds `name`.
fn holds(names: &Vec<String>, name: &str) -> (found: bool)
    ensures
        found == views(names@).contains(name@),
{
    let mut i: usize = 0;
    while i < names.len()
        invariant
            i <= names.len(),
            forall|k: int| 0 <= k < i ==> views(names@)[k] != name@,
        decreases names.len() - i,
    {
        if str_eq(names[i].as_str(), name) {
            assert(views(names@)[i as int] == name@);
            return true;
        }
        i = i + 1;
    }
    false
}

fn allocate_in(names: &mut Vec<String>, name: &str) -> (result: Result<i32, AllocationError>)
    requires
        views(old(names)@).no_duplicates(),
        old(names)@.len() <= MAX_SLOTS,
    ensures
        match result {
            Ok(slot) => allocation(views(old(names)@), name@) == Ok::<int, AllocationError>(
                slot as int,
            ),
            Err(error) => allocation(views(old(names)@), name@) == Err::<int, AllocationError>(
                error,
            ),
        },
        views(final(names)@) == declared(views(old(names)@), name@),
        views(final(names)@).no_duplicates(),
        final(names)@.len() <= MAX_SLOTS,
{
    if holds(names, name) {
        return Err(AllocationError::Duplicate);
    }
    if names.len() >= MAX_SLOTS {
        return Err(AllocationError::Exhausted);
    }
    let slot = names.len() as i32;
    let ghost before = views(names@);
    names.push(String::from_str(name));
    proof {
        assert(views(names@) =~= before.push(name@));
    }
    Ok(slot)
}

} // verus!

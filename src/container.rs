use crate::slot::{is_mismatch_error, ContainerError, Slot};
use crate::storage::{build_step, finish_result, ContainerTrait};
use std::sync::Arc;
use vstd::prelude::*;

verus! {

/// A list of named slots in which no name occurs twice.
spec fn names_distinct<S>(entries: Seq<(String, Slot<S>)>) -> bool {
    forall|i: int, j: int|
        0 <= i < entries.len() && 0 <= j < entries.len() && i != j ==> entries[i].0@ != entries[j].0@
}

/// Some entry of the list is named `name`.
spec fn holds<S>(entries: Seq<(String, Slot<S>)>, name: Seq<char>) -> bool {
    exists|i: int| 0 <= i < entries.len() && entries[i].0@ == name
}

/// An index of an entry named `name`.
spec fn position<S>(entries: Seq<(String, Slot<S>)>, name: Seq<char>) -> int {
    choose|i: int| 0 <= i < entries.len() && entries[i].0@ == name
}

/// The index of the entry named `key`, if there is one.
fn find<S>(entries: &Vec<(String, Slot<S>)>, key: &String) -> (r: Option<usize>)
    ensures
        match r {
            Some(i) => i < entries@.len() && entries@[i as int].0@ == key@,
            None => !holds(entries@, key@),
        },
{
    let mut i: usize = 0;
    while i < entries.len()
        invariant
            i <= entries@.len(),
            forall|j: int| 0 <= j < i ==> entries@[j].0@ != key@,
        decreases entries@.len() - i,
    {
        if entries[i].0 == *key {
            return Some(i);
        }
        i = i + 1;
    }
    None
}

/// What a typed request for `name` returns once `build` has answered
/// `served`: the projection of the stored instance to the kind the caller
/// expects, or a mismatch error when the instance is of another kind; an
/// error from `build` is passed on.
pub open spec fn project_result<S, T, P: FnOnce(&S) -> Option<T>>(
    name: Seq<char>,
    served: Result<Arc<S>, ContainerError>,
    project: P,
    r: Result<T, ContainerError>,
) -> bool {
    match served {
        Ok(a) => exists|p: Option<T>|
            call_ensures(project, (&*a,), p) && match p {
                Some(t) => r == Ok::<T, ContainerError>(t),
                None => r is Err && is_mismatch_error(r->Err_0, name),
            },
        Err(e) => r == Err::<T, ContainerError>(e),
    }
}

/// A service container over the representation `S` of its services: `S`
/// may be one sum type that enumerates every kind of service, or a handle
/// that erases the concrete type and is checked when it is retrieved.
pub struct Container<S> {
    entries: Vec<(String, Slot<S>)>,
}

impl<S> Container<S> {
    #[verifier::type_invariant]
    spec fn well_formed(self) -> bool {
        names_distinct(self.entries@)
    }

    /// An empty container: every name is absent.
    pub fn new() -> (r: Container<S>)
        ensures
            r.slots() == Map::<Seq<char>, Slot<S>>::empty(),
    {
        let r = Container { entries: Vec::new() };
        assert(r.slots() =~= Map::<Seq<char>, Slot<S>>::empty());
        r
    }

    /// Installs `instance` as the ready instance of `name`, whatever the
    /// name held before: later builds of `name` return it.
    pub fn set(&mut self, name: &str, instance: Arc<S>)
        ensures
            final(self).slots() == old(self).slots().insert(name@, Slot::Ready(instance)),
    {
        self.insert(name, Slot::Ready(instance));
    }

    /// Returns the instance of `name` as the kind `T` that the caller
    /// expects, building it with `builder` first if the name is absent (see
    /// `ContainerTrait::build`). `project` picks the expected kind out of the
    /// stored representation; when it finds another kind the request fails
    /// with a mismatch error instead of returning a misread value.
    pub fn build<T, F, P>(&mut self, name: &str, builder: F, project: P) -> (r: Result<T, ContainerError>) where
        F: FnOnce(&mut Container<S>) -> Result<S, ContainerError>,
        P: FnOnce(&S) -> Option<T>,
        requires
            forall|c: &mut Container<S>|
                (*c).slots() == old(self).slots().insert(name@, Slot::InProgress) ==> call_requires(builder, (c,)),
            forall|s: &S| call_requires(project, (s,)),
        ensures
            exists|served: Result<Arc<S>, ContainerError>|
                build_step(old(self).slots(), name@, served, final(self).slots()) && (!old(self).slots().contains_key(name@)
                    ==> exists|c: &mut Container<S>, res: Result<S, ContainerError>|
                    (*c).slots() == old(self).slots().insert(name@, Slot::InProgress) && call_ensures(builder, (c,), res)
                        && finish_result(name@, res, (*final(c)).slots(), served, final(self).slots()))
                    && project_result(name@, served, project, r),
    {
        let served = ContainerTrait::build(self, name, builder);
        let ghost answered = served;
        let r = match served {
            Ok(a) => {
                let expected = project(&*a);
                match expected {
                    Some(t) => Ok(t),
                    None => Err(ContainerError::KindMismatch(name.to_owned())),
                }
            },
            Err(e) => Err(e),
        };
        assert(project_result(name@, answered, project, r));
        r
    }
}

impl<S> ContainerTrait for Container<S> {
    type Service = S;

    closed spec fn slots(&self) -> Map<Seq<char>, Slot<S>> {
        Map::new(
            |k: Seq<char>| holds(self.entries@, k),
            |k: Seq<char>| self.entries@[position(self.entries@, k)].1,
        )
    }

    fn get(&self, key: &str) -> (r: Option<Slot<S>>) {
        proof {
            use_type_invariant(self);
        }
        let key = key.to_owned();
        match find(&self.entries, &key) {
            Some(i) => {
                assert(holds(self.entries@, key@));
                Some(self.entries[i].1.share())
            },
            None => None,
        }
    }

    fn insert(&mut self, key: &str, slot: Slot<S>) {
        proof {
            use_type_invariant(&*self);
        }
        let key = key.to_owned();
        let ghost before = self.slots();
        let mut entries: Vec<(String, Slot<S>)> = Vec::new();
        std::mem::swap(&mut self.entries, &mut entries);
        let ghost prior = entries@;
        let ghost mut at: int = 0;
        match find(&entries, &key) {
            Some(i) => {
                entries.set(i, (key, slot));
                proof {
                    at = i as int;
                }
                assert forall|j: int| 0 <= j < entries@.len() implies entries@[j].0@ == prior[j].0@ by {}
            },
            None => {
                entries.push((key, slot));
                proof {
                    at = prior.len() as int;
                }
                assert forall|j: int| 0 <= j < prior.len() implies entries@[j] == prior[j] by {}
            },
        }
        proof {
            let now = entries@;
            assert(names_distinct(now));
            assert(0 <= at < now.len() && now[at].0@ == key@ && now[at].1 == slot);
            assert forall|k: Seq<char>| holds(now, k) == (holds(prior, k) || k == key@) by {
                if k == key@ {
                    assert(now[at].0@ == k);
                }
                if holds(prior, k) {
                    let q = position(prior, k);
                    assert(now[q].0@ == k);
                }
                if holds(now, k) && k != key@ {
                    let p = position(now, k);
                    assert(prior[p].0@ == k);
                }
            }
            assert forall|k: Seq<char>| holds(now, k) implies now[position(now, k)].1
                == before.insert(key@, slot)[k] by {
                let p = position(now, k);
                if k != key@ {
                    let q = position(prior, k);
                    assert(prior[p].0@ == k);
                    assert(now[q].0@ == k);
                }
            }
        }
        self.entries = entries;
        assert(self.slots() =~= before.insert(key@, slot));
    }
}

} // verus!

use crate::slot::{is_cycle_error, ContainerError, Slot};
use std::sync::Arc;
use vstd::prelude::*;

verus! {

/// The slot that `slots` holds for `name`, if any.
pub open spec fn slot_of<S>(slots: Map<Seq<char>, Slot<S>>, name: Seq<char>) -> Option<Slot<S>> {
    if slots.contains_key(name) {
        Some(slots[name])
    } else {
        None
    }
}

/// What `build` returns for a name whose slot already exists: the stored
/// instance, or a circular-dependency error while the name is in progress.
pub open spec fn lookup_result<S>(
    slot: Slot<S>,
    name: Seq<char>,
    r: Result<Arc<S>, ContainerError>,
) -> bool {
    match slot {
        Slot::Ready(a) => r == Ok::<Arc<S>, ContainerError>(a),
        Slot::InProgress => r is Err && is_cycle_error(r->Err_0, name),
    }
}

/// How `build` finishes once the builder returned `res`, leaving the slots
/// `mid`: a built value is stored under `name` and returned; a builder's
/// error is passed on and the slots stay as the builder left them.
pub open spec fn finish_result<S>(
    name: Seq<char>,
    res: Result<S, ContainerError>,
    mid: Map<Seq<char>, Slot<S>>,
    r: Result<Arc<S>, ContainerError>,
    after: Map<Seq<char>, Slot<S>>,
) -> bool {
    match res {
        Ok(v) => r is Ok && *r->Ok_0 == v && after == mid.insert(name, Slot::Ready(r->Ok_0)),
        Err(e) => r == Err::<Arc<S>, ContainerError>(e) && after == mid,
    }
}

/// One call of `build` for `name` that starts from the slots `before`,
/// returns `r` and leaves the slots `after`. An existing slot is answered
/// without change; for an absent name some builder outcome `res`, with the
/// slots `mid` it left behind, is finished as `finish_result` says.
pub open spec fn build_step<S>(
    before: Map<Seq<char>, Slot<S>>,
    name: Seq<char>,
    r: Result<Arc<S>, ContainerError>,
    after: Map<Seq<char>, Slot<S>>,
) -> bool {
    if before.contains_key(name) {
        after == before && lookup_result(before[name], name, r)
    } else {
        exists|res: Result<S, ContainerError>, mid: Map<Seq<char>, Slot<S>>|
            finish_result(name, res, mid, r, after)
    }
}

/// Storage of named slots, with the build algorithm written once over it.
pub trait ContainerTrait: Sized {
    /// The representation of the stored services.
    type Service;

    /// The slot of every name that is not absent.
    spec fn slots(&self) -> Map<Seq<char>, Slot<Self::Service>>;

    /// The slot stored for `key`, if any.
    fn get(&self, key: &str) -> (r: Option<Slot<Self::Service>>)
        ensures
            r == slot_of(self.slots(), key@),
    ;

    /// Stores `slot` for `key`, replacing whatever was there.
    fn insert(&mut self, key: &str, slot: Slot<Self::Service>)
        ensures
            final(self).slots() == old(self).slots().insert(key@, slot),
    ;

    /// Returns the instance stored for `name`, constructing it with
    /// `builder` first if the name is absent. While the builder runs the name
    /// is marked in progress, so that a request for it from within its own
    /// construction fails with a circular-dependency error.
    fn build<F>(&mut self, name: &str, builder: F) -> (r: Result<Arc<Self::Service>, ContainerError>) where
        F: FnOnce(&mut Self) -> Result<Self::Service, ContainerError>,
        requires
            forall|c: &mut Self|
                (*c).slots() == old(self).slots().insert(name@, Slot::InProgress) ==> call_requires(builder, (c,)),
        ensures
            build_step(old(self).slots(), name@, r, final(self).slots()),
            !old(self).slots().contains_key(name@) ==> exists|c: &mut Self, res: Result<Self::Service, ContainerError>|
                (*c).slots() == old(self).slots().insert(name@, Slot::InProgress)
                    && call_ensures(builder, (c,), res)
                    && finish_result(name@, res, (*final(c)).slots(), r, final(self).slots()),
    {
        match self.get(name) {
            Some(Slot::Ready(a)) => Ok(a),
            Some(Slot::InProgress) => Err(ContainerError::CircularDependency(name.to_owned())),
            None => {
                self.insert(name, Slot::InProgress);
                let res = builder(self);
                let ghost mid = self.slots();
                match res {
                    Ok(v) => {
                        let a = Arc::new(v);
                        self.insert(name, Slot::Ready(a.clone()));
                        let r = Ok(a);
                        assert(finish_result(name@, res, mid, r, self.slots()));
                        r
                    },
                    Err(e) => {
                        let r = Err(e);
                        assert(finish_result(name@, res, mid, r, self.slots()));
                        r
                    },
                }
            },
        }
    }
}

} // verus!

use crate::container::project_result;
use crate::slot::{is_cycle_error, is_mismatch_error, ContainerError, Slot};
use crate::storage::{build_step, finish_result};
use std::sync::Arc;
use vstd::prelude::*;

verus! {

/// The slots that the innermost of a chain of nested builders sees, when
/// the builds of `names` were entered in order from the slots `s` and
/// nothing else changed the slots in between: each entered name is in
/// progress.
pub open spec fn entered<S>(s: Map<Seq<char>, Slot<S>>, names: Seq<Seq<char>>) -> Map<Seq<char>, Slot<S>>
    decreases names.len(),
{
    if names.len() == 0 {
        s
    } else {
        entered(s, names.drop_last()).insert(names.last(), Slot::InProgress)
    }
}

/// A build that succeeds leaves its result stored as the ready instance of
/// the name.
pub proof fn lemma_success_is_stored<S>(
    before: Map<Seq<char>, Slot<S>>,
    name: Seq<char>,
    r: Result<Arc<S>, ContainerError>,
    after: Map<Seq<char>, Slot<S>>,
)
    requires
        build_step(before, name, r, after),
        r is Ok,
    ensures
        after.contains_key(name),
        after[name] == Slot::Ready(r->Ok_0),
{
    if !before.contains_key(name) {
        let (res, mid) = choose|res: Result<S, ContainerError>, mid: Map<Seq<char>, Slot<S>>|
            finish_result(name, res, mid, r, after);
        assert(finish_result(name, res, mid, r, after));
    }
}

/// A build of a name that holds a ready instance returns that instance and
/// changes nothing.
pub proof fn lemma_ready_is_returned<S>(
    before: Map<Seq<char>, Slot<S>>,
    name: Seq<char>,
    instance: Arc<S>,
    r: Result<Arc<S>, ContainerError>,
    after: Map<Seq<char>, Slot<S>>,
)
    requires
        before.contains_key(name),
        before[name] == Slot::Ready(instance),
        build_step(before, name, r, after),
    ensures
        r == Ok::<Arc<S>, ContainerError>(instance),
        after == before,
{
}

/// Building the same name twice in a row returns the same shared instance
/// both times, and the second build changes nothing.
pub proof fn lemma_build_memoizes<S>(
    s0: Map<Seq<char>, Slot<S>>,
    name: Seq<char>,
    r1: Result<Arc<S>, ContainerError>,
    s1: Map<Seq<char>, Slot<S>>,
    r2: Result<Arc<S>, ContainerError>,
    s2: Map<Seq<char>, Slot<S>>,
)
    requires
        build_step(s0, name, r1, s1),
        r1 is Ok,
        build_step(s1, name, r2, s2),
    ensures
        r2 == r1,
        s2 == s1,
{
    lemma_success_is_stored(s0, name, r1, s1);
    lemma_ready_is_returned(s1, name, r1->Ok_0, r2, s2);
}

/// After `set(name, x)`, whatever the name held before, a build of the
/// name returns `x` without constructing anything and leaves the slots as
/// `set` left them, so every later build returns `x` as well.
pub proof fn lemma_set_overrides<S>(
    s0: Map<Seq<char>, Slot<S>>,
    name: Seq<char>,
    x: Arc<S>,
    r: Result<Arc<S>, ContainerError>,
    after: Map<Seq<char>, Slot<S>>,
)
    requires
        build_step(s0.insert(name, Slot::Ready(x)), name, r, after),
    ensures
        r == Ok::<Arc<S>, ContainerError>(x),
        after == s0.insert(name, Slot::Ready(x)),
{
    lemma_ready_is_returned(s0.insert(name, Slot::Ready(x)), name, x, r, after);
}

/// Every name of a chain of entered builds is in progress in the slots
/// that the innermost builder sees.
proof fn lemma_entered_in_progress<S>(s: Map<Seq<char>, Slot<S>>, names: Seq<Seq<char>>, name: Seq<char>)
    requires
        names.contains(name),
    ensures
        entered(s, names).contains_key(name),
        entered(s, names)[name] == Slot::<S>::InProgress,
    decreases names.len(),
{
    if names.last() != name {
        let i = choose|i: int| 0 <= i < names.len() && names[i] == name;
        assert(names.drop_last()[i] == name);
        lemma_entered_in_progress(s, names.drop_last(), name);
    }
}

/// When a builder, directly or through the builders of other names, asks
/// again for a name whose build it is part of, that request fails with a
/// circular-dependency error naming the re-entered name, and changes
/// nothing.
pub proof fn lemma_cycle_detected<S>(
    s: Map<Seq<char>, Slot<S>>,
    names: Seq<Seq<char>>,
    name: Seq<char>,
    r: Result<Arc<S>, ContainerError>,
    after: Map<Seq<char>, Slot<S>>,
)
    requires
        names.contains(name),
        build_step(entered(s, names), name, r, after),
    ensures
        r is Err,
        is_cycle_error(r->Err_0, name),
        after == entered(s, names),
{
    lemma_entered_in_progress(s, names, name);
}

/// Dependent built first: the builder of `b` runs with `b` in progress and
/// obtains `x` by building `a`, then `b` is stored; a direct build of `a`
/// afterwards returns the same shared `x`.
pub proof fn lemma_dependency_then_direct<S>(
    s0: Map<Seq<char>, Slot<S>>,
    a: Seq<char>,
    b: Seq<char>,
    x: Result<Arc<S>, ContainerError>,
    s2: Map<Seq<char>, Slot<S>>,
    res_b: Result<S, ContainerError>,
    r_b: Result<Arc<S>, ContainerError>,
    s3: Map<Seq<char>, Slot<S>>,
    r: Result<Arc<S>, ContainerError>,
    s4: Map<Seq<char>, Slot<S>>,
)
    requires
        a != b,
        build_step(s0.insert(b, Slot::InProgress), a, x, s2),
        x is Ok,
        finish_result(b, res_b, s2, r_b, s3),
        r_b is Ok,
        build_step(s3, a, r, s4),
    ensures
        r == x,
{
    lemma_success_is_stored(s0.insert(b, Slot::InProgress), a, x, s2);
    lemma_ready_is_returned(s3, a, x->Ok_0, r, s4);
}

/// Dependency built first: once a direct build of `a` returned `x`, the
/// builder of `b`, which runs with `b` in progress, gets the same shared `x`
/// when it builds `a`.
pub proof fn lemma_direct_then_dependency<S>(
    s0: Map<Seq<char>, Slot<S>>,
    a: Seq<char>,
    b: Seq<char>,
    x: Result<Arc<S>, ContainerError>,
    s1: Map<Seq<char>, Slot<S>>,
    r: Result<Arc<S>, ContainerError>,
    s2: Map<Seq<char>, Slot<S>>,
)
    requires
        a != b,
        build_step(s0, a, x, s1),
        x is Ok,
        build_step(s1.insert(b, Slot::InProgress), a, r, s2),
    ensures
        r == x,
{
    lemma_success_is_stored(s0, a, x, s1);
    lemma_ready_is_returned(s1.insert(b, Slot::InProgress), a, x->Ok_0, r, s2);
}

/// When the stored instance is not of the kind the caller expects, a typed
/// request fails with a mismatch error naming the service and never returns
/// a value.
pub proof fn lemma_mismatch_fails<S, T, P: FnOnce(&S) -> Option<T>>(
    name: Seq<char>,
    stored: Arc<S>,
    project: P,
    r: Result<T, ContainerError>,
)
    requires
        forall|p: Option<T>| call_ensures(project, (&*stored,), p) ==> p is None,
        project_result(name, Ok::<Arc<S>, ContainerError>(stored), project, r),
    ensures
        r is Err,
        is_mismatch_error(r->Err_0, name),
{
}

} // verus!

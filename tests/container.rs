use service_container::{Container, ContainerError, ContainerTrait, Slot};
use std::sync::Arc;

#[derive(Debug, PartialEq)]
enum Kind {
    Leaf(u64),
    Pair(Arc<Kind>, u64),
}

fn leaf(c: &mut Container<Kind>, name: &str, id: u64) -> Result<u64, ContainerError> {
    c.build(
        name,
        |_c: &mut Container<Kind>| Ok(Kind::Leaf(id)),
        |k: &Kind| match k {
            Kind::Leaf(v) => Some(*v),
            _ => None,
        },
    )
}

fn just<T: Clone>(v: &T) -> Option<T> {
    Some(v.clone())
}

#[test]
fn fresh_name_is_built_and_returned() {
    let c = &mut Container::new();
    assert_eq!(leaf(c, "a", 11), Ok(11));
}

#[test]
fn second_build_returns_first_instance_without_building() {
    let c = &mut Container::<u64>::new();
    let first = c.build("a", |_c: &mut Container<u64>| Ok(1), |v: &u64| Some(*v)).unwrap();
    let mut called = false;
    let second = c
        .build(
            "a",
            |_c: &mut Container<u64>| {
                called = true;
                Ok(2)
            },
            |v: &u64| Some(*v),
        )
        .unwrap();
    assert_eq!(first, 1);
    assert_eq!(second, 1);
    assert!(!called);
}

#[test]
fn memoized_instance_is_the_same_allocation() {
    let c = &mut Container::<u64>::new();
    let first = ContainerTrait::build(c, "a", |_c: &mut Container<u64>| Ok(5)).unwrap();
    let second = ContainerTrait::build(c, "a", |_c: &mut Container<u64>| Ok(6)).unwrap();
    assert!(Arc::ptr_eq(&first, &second));
    assert_eq!(*second, 5);
}

#[test]
fn set_after_build_wins() {
    let c = &mut Container::new();
    assert_eq!(leaf(c, "a", 1), Ok(1));
    c.set("a", Arc::new(Kind::Leaf(2)));
    assert_eq!(leaf(c, "a", 3), Ok(2));
    assert_eq!(leaf(c, "a", 4), Ok(2));
}

#[test]
fn set_before_build_skips_the_builder() {
    let c = &mut Container::new();
    c.set("a", Arc::new(Kind::Leaf(9)));
    let mut called = false;
    let r = c.build(
        "a",
        |_c: &mut Container<Kind>| {
            called = true;
            Ok(Kind::Leaf(1))
        },
        |k: &Kind| match k {
            Kind::Leaf(v) => Some(*v),
            _ => None,
        },
    );
    assert_eq!(r, Ok(9));
    assert!(!called);
}

fn pair(c: &mut Container<Kind>) -> Result<(u64, u64), ContainerError> {
    c.build(
        "b",
        |c: &mut Container<Kind>| {
            let a = leaf(c, "a", 7)?;
            Ok(Kind::Pair(Arc::new(Kind::Leaf(a)), 8))
        },
        |k: &Kind| match k {
            Kind::Pair(inner, id) => match inner.as_ref() {
                Kind::Leaf(a) => Some((*a, *id)),
                _ => None,
            },
            _ => None,
        },
    )
}

#[test]
fn dependency_built_first_is_shared() {
    let c = &mut Container::new();
    let a = leaf(c, "a", 1).unwrap();
    let (inner, id) = pair(c).unwrap();
    assert_eq!(inner, a);
    assert_eq!(inner, 1);
    assert_eq!(id, 8);
}

#[test]
fn dependent_built_first_shares_its_dependency() {
    let c = &mut Container::new();
    let (inner, _) = pair(c).unwrap();
    let a = leaf(c, "a", 1).unwrap();
    assert_eq!(inner, 7);
    assert_eq!(a, 7);
}

#[test]
fn override_replaces_instance_with_other_identifier() {
    let c = &mut Container::new();
    let u1 = leaf(c, "a", 100).unwrap();
    c.set("a", Arc::new(Kind::Leaf(200)));
    let u2 = leaf(c, "a", 300).unwrap();
    assert_eq!(u2, 200);
    assert_ne!(u1, u2);
}

fn circular(c: &mut Container<Kind>, name: &str, other: &str) -> Result<u64, ContainerError> {
    let other = other.to_string();
    let me = name.to_string();
    c.build(
        name,
        |c: &mut Container<Kind>| {
            circular(c, &other, &me)?;
            Ok(Kind::Leaf(0))
        },
        |k: &Kind| match k {
            Kind::Leaf(v) => Some(*v),
            _ => None,
        },
    )
}

#[test]
fn cycle_names_the_reentered_key() {
    let c = &mut Container::new();
    let err = circular(c, "circularA", "circularB").unwrap_err();
    assert!(matches!(&err, ContainerError::CircularDependency(_)));
    assert_eq!(err.name(), "circularA");
    assert_eq!(err.message(), "circular dependency detected for circularA");
}

#[test]
fn self_dependency_is_a_cycle() {
    let c = &mut Container::<u64>::new();
    let r = c.build(
        "a",
        |c: &mut Container<u64>| {
            let v = c.build("a", |_c: &mut Container<u64>| Ok(1), just)?;
            Ok(v + 1)
        },
        just,
    );
    match r {
        Err(ContainerError::CircularDependency(name)) => assert_eq!(name, "a"),
        _ => panic!("expected a circular dependency"),
    }
}

#[test]
fn failed_build_leaves_name_in_progress() {
    let c = &mut Container::new();
    assert!(circular(c, "x", "y").is_err());
    assert!(matches!(c.get("x"), Some(Slot::InProgress)));
    let err = leaf(c, "x", 1).unwrap_err();
    assert_eq!(err.name(), "x");
    assert!(matches!(err, ContainerError::CircularDependency(_)));
}

#[test]
fn builder_error_is_passed_on() {
    let c = &mut Container::<u64>::new();
    let r = c.build(
        "a",
        |_c: &mut Container<u64>| Err(ContainerError::KindMismatch("elsewhere".to_string())),
        just,
    );
    match r {
        Err(ContainerError::KindMismatch(name)) => assert_eq!(name, "elsewhere"),
        _ => panic!("expected the builder's error"),
    }
}

#[test]
fn wrong_variant_is_a_mismatch() {
    let c = &mut Container::new();
    c.set("a", Arc::new(Kind::Pair(Arc::new(Kind::Leaf(1)), 2)));
    let err = leaf(c, "a", 3).unwrap_err();
    assert!(matches!(&err, ContainerError::KindMismatch(_)));
    assert_eq!(err.name(), "a");
    assert_eq!(err.message(), "unexpected kind of service stored for a");
}

#[test]
fn get_reports_each_slot_state() {
    let c = &mut Container::<u64>::new();
    assert!(c.get("a").is_none());
    c.insert("a", Slot::InProgress);
    assert!(matches!(c.get("a"), Some(Slot::InProgress)));
    c.set("a", Arc::new(4));
    match c.get("a") {
        Some(Slot::Ready(v)) => assert_eq!(*v, 4),
        _ => panic!("expected a ready slot"),
    }
    assert!(c.get("b").is_none());
}

#[test]
fn names_are_kept_apart() {
    let c = &mut Container::new();
    assert_eq!(leaf(c, "a", 1), Ok(1));
    assert_eq!(leaf(c, "ab", 2), Ok(2));
    assert_eq!(leaf(c, "b", 3), Ok(3));
    c.set("ab", Arc::new(Kind::Leaf(20)));
    assert_eq!(leaf(c, "a", 0), Ok(1));
    assert_eq!(leaf(c, "ab", 0), Ok(20));
    assert_eq!(leaf(c, "b", 0), Ok(3));
}

#[test]
fn share_keeps_the_same_instance() {
    let a = Arc::new(3u64);
    let s = Slot::Ready(a.clone());
    match s.share() {
        Slot::Ready(b) => assert!(Arc::ptr_eq(&a, &b)),
        Slot::InProgress => panic!("expected a ready slot"),
    }
    assert!(matches!(Slot::<u64>::InProgress.share(), Slot::InProgress));
}

//! The flag-set behaviour: construction, membership, and the set algebra.

use strflags::Flags;
use strflags::Variant;

fn animal(name: &str) -> Variant {
    Variant::named(name).unwrap()
}

#[test]
fn stringify() {
    let dog = animal("Dog");
    assert!(dog.eq_str("dog"));
    assert!(!dog.eq_str("Dog"));
    assert!(!dog.eq_str("cat"));
}

#[test]
fn init_ops() {
    let empty = Flags::empty();
    assert!(empty.is_none());
    assert!(Flags::default().is_none());
    assert!(!empty.is_some());
    assert!(empty.len() == 0);

    let mut one = Flags::new(animal("Dog"));
    assert!(one.is_some());
    assert!(one.len() == 1);
    assert!(one.contains(animal("Dog")));
    assert!(!one.contains(animal("Cat")));

    one.union_one_assign(animal("Cat"));
    assert!(one.len() == 2);
    one.union_one_assign(animal("Cat"));
    assert!(one.len() == 2);
    one.union_one_assign(animal("Rabbit"));
    assert!(one.len() == 3);
    one.union_one_assign(animal("Rabbit"));
    assert!(one.len() == 3);
    assert!(one.contains(animal("Cat")));
    assert!(one.contains(animal("Rabbit")));

    let same = Flags::pair(animal("Dog"), animal("Dog"));
    assert!(same.len() == 1);

    let pair = Flags::pair(animal("Dog"), animal("Cat"));
    assert!(pair.len() == 2);
    assert!(pair.contains(animal("Dog")));
    assert!(pair.contains(animal("Cat")));
    assert!(!pair.contains(animal("Giraffe")));
}

#[test]
fn or() {
    let animals1 = Flags::pair(animal("Dog"), animal("Cat")).union_one(animal("Giraffe"));
    let animals2 = Flags::pair(animal("Rabbit"), animal("Whale")).union_one(animal("Giraffe"));
    assert!(animals1.len() == 3);
    assert!(animals2.len() == 3);
    assert!(animals1.union(&animals2).len() == 5);
}

#[test]
fn and() {
    let mut animals = Flags::pair(animal("Giraffe"), animal("Whale")).union_one(animal("Rabbit"));
    assert!(animals.contains(animal("Giraffe")));
    assert!(animals.contains(animal("Whale")));
    assert!(animals.contains(animal("Rabbit")));
    let a = animals.clone().intersect_one(animal("Rabbit"));
    assert!(!a.contains(animal("Giraffe")));
    assert!(a.contains(animal("Rabbit")));
    assert!(!a.contains(animal("Whale")));
    animals.intersect_one_assign(animal("Dog"));
    assert!(!animals.contains(animal("Dog")));
    assert!(!animals.contains(animal("Whale")));
    assert!(!animals.contains(animal("Rabbit")));

    let animals1 = Flags::pair(animal("Dog"), animal("Cat")).union_one(animal("Giraffe"));
    let animals2 = Flags::pair(animal("Dog"), animal("Cat")).union_one(animal("Whale"));
    let intersect = animals1.intersect(&animals2);
    assert!(intersect.len() == 2);
    assert!(intersect.contains(animal("Dog")));
    assert!(intersect.contains(animal("Cat")));
}

#[test]
fn xor() {
    let mut animals = Flags::pair(animal("Dog"), animal("Dolphin")).union_one(animal("Cat"));
    assert!(animals.contains(animal("Dog")));
    assert!(animals.contains(animal("Dolphin")));
    assert!(animals.contains(animal("Cat")));
    let a = animals.clone().symmetric_difference_one(animal("Dog"));
    assert!(!a.contains(animal("Dog")));
    assert!(a.contains(animal("Dolphin")));
    assert!(a.contains(animal("Cat")));
    animals.symmetric_difference_one_assign(animal("Dog"));
    assert!(!animals.contains(animal("Dog")));
    assert!(animals.contains(animal("Dolphin")));
    assert!(animals.contains(animal("Cat")));

    let animals1 = Flags::pair(animal("Dog"), animal("Cat")).union_one(animal("Giraffe"));
    let animals2 = Flags::pair(animal("Dog"), animal("Cat")).union_one(animal("Whale"));
    let intersect = animals1.symmetric_difference(&animals2);
    assert!(intersect.len() == 2);
    assert!(intersect.contains(animal("Giraffe")));
    assert!(intersect.contains(animal("Whale")));
}

#[test]
fn sub() {
    let mut animals = Flags::pair(animal("Dog"), animal("Dolphin")).union_one(animal("Cat"));
    assert!(animals.contains(animal("Dog")));
    assert!(animals.contains(animal("Dolphin")));
    assert!(animals.contains(animal("Cat")));
    animals.difference_one_assign(animal("Dog"));
    assert!(animals.len() == 2);
    animals.difference_one_assign(animal("Dog"));
    assert!(animals.len() == 2);
    animals.difference_one_assign(animal("Dolphin"));
    assert!(animals.len() == 1);
    assert!(animals.contains(animal("Cat")));

    let animals1 = Flags::pair(animal("Dog"), animal("Cat")).union_one(animal("Giraffe"));
    let animals2 = Flags::pair(animal("Dog"), animal("Cat")).union_one(animal("Whale"));
    let diff = animals1.difference(&animals2);
    assert!(diff.len() == 1);
    assert!(diff.contains(animal("Giraffe")));
}

#[test]
fn test_v3() {
    assert!(Variant::default().eq_str(""));
    let rust_lang = Variant::named("Rust").unwrap();
    let cpp = Variant::named("CPlusPlus").unwrap();
    assert!(rust_lang > cpp);
}

#[test]
fn toggle_twice_restores() {
    let start = Flags::pair(animal("Dog"), animal("Dolphin")).union_one(animal("Cat"));
    let once = start.symmetric_difference_one(animal("Dog"));
    assert!(once.len() == 2);
    assert!(!once.contains(animal("Dog")));
    let twice = once.symmetric_difference_one(animal("Dog"));
    assert!(twice.len() == 3);
    assert!(twice.contains(animal("Dog")));
    assert!(twice.contains(animal("Dolphin")));
    assert!(twice.contains(animal("Cat")));
}

#[test]
fn union_commutative_and_idempotent() {
    let x = Flags::pair(animal("Dog"), animal("Cat"));
    let y = Flags::pair(animal("Cat"), animal("Whale"));
    let xy = x.union(&y);
    let yx = y.union(&x);
    assert!(xy == yx);
    assert!(yx == xy);
    assert!(xy.len() == 3);
    let xx = x.union(&x);
    assert!(xx == x);
    assert!(xx.len() == 2);
}

#[test]
fn compound_assign_matches_value_ops() {
    let base = Flags::pair(animal("Dog"), animal("Cat")).union_one(animal("Giraffe"));
    let other = Flags::pair(animal("Cat"), animal("Whale"));
    let single = animal("Dog");

    let mut m = base.clone();
    m.union_assign(&other);
    assert!(m == base.union(&other) && base.union(&other) == m);

    let mut m = base.clone();
    m.difference_assign(&other);
    assert!(m == base.difference(&other) && base.difference(&other) == m);

    let mut m = base.clone();
    m.intersect_assign(&other);
    assert!(m == base.intersect(&other) && base.intersect(&other) == m);

    let mut m = base.clone();
    m.symmetric_difference_assign(&other);
    let v = base.symmetric_difference(&other);
    assert!(m == v && v == m);

    let mut m = base.clone();
    m.union_one_assign(single.clone());
    assert!(m == base.union_one(single.clone()));

    let mut m = base.clone();
    m.difference_one_assign(single.clone());
    assert!(m == base.difference_one(single.clone()));

    let mut m = base.clone();
    m.intersect_one_assign(single.clone());
    assert!(m == base.intersect_one(single.clone()));

    let mut m = base.clone();
    m.symmetric_difference_one_assign(single.clone());
    assert!(m == base.symmetric_difference_one(single.clone()));
}

#[test]
fn query_shapes() {
    let flags = Flags::pair(animal("Dog"), animal("Cat")).union_one(Variant::new("Yellow"));
    assert!(flags.contains(animal("Dog")));
    assert!(flags.contains(Variant::new("Green")) == false);
    assert!(flags.contains(Variant::new("yELLOW")));
    assert!(flags.contains("dog"));
    assert!(!flags.contains("Dog"));
    assert!(flags.contains(String::from("cat")));
    assert!(flags.contains(vec![Variant::new("Horse"), Variant::new("Cat")]));
    assert!(!flags.contains(vec![Variant::new("Horse"), Variant::new("Mouse")]));
    let batch = Flags::pair(Variant::new("Mouse"), Variant::new("Yellow"));
    assert!(flags.contains(&batch));
    let miss = Flags::new(Variant::new("Mouse"));
    assert!(!flags.contains(&miss));
    let none: Flags = Flags::empty();
    assert!(!flags.contains(&none));
}

#[test]
fn weak_equality_rule() {
    let x = Flags::pair(animal("Dog"), animal("Cat"));
    let y = Flags::pair(animal("Whale"), animal("Giraffe"));
    // same length compares equal, whatever the sets hold: the documented,
    // deliberately weak rule
    assert!(x == y);
    let z = Flags::pair(animal("Dog"), animal("Cat")).union_one(animal("Giraffe"));
    // left elements all found on the right
    assert!(x == z);
    // but not the other way around: lengths differ and "giraffe" is missing
    assert!(z != x);
}

use xanadu::collections::{GenerationalId, GenerationalVec};

#[test]
fn generational_vec_remove() {
    let mut v = GenerationalVec::new();
    let id1 = v.add(100);
    let id2 = v.add(200);
    let id3 = v.add(300);
    assert_eq!(v.remove(id2), Some(200));
    assert_eq!(v.remove(id1), Some(100));
    assert_eq!(v.remove(id3), Some(300));
}

#[test]
fn generational_vec_get() {
    let mut v = GenerationalVec::new();
    let id1 = v.add(100);
    let id2 = v.add(200);
    let id3 = v.add(300);
    assert_eq!(v.get(id1), Some(&100));
    assert_eq!(v.get(id2), Some(&200));
    assert_eq!(v.get(id3), Some(&300));
}

#[test]
fn generational_vec_get_mut() {
    let mut v = GenerationalVec::new();
    let id1 = v.add(100);
    let id2 = v.add(200);
    let id3 = v.add(300);
    *v.get_mut(id1).unwrap() += 1;
    *v.get_mut(id2).unwrap() += 1;
    *v.get_mut(id3).unwrap() += 1;
    assert_eq!(v.get(id1), Some(&101));
    assert_eq!(v.get(id2), Some(&201));
    assert_eq!(v.get(id3), Some(&301));
}

#[test]
fn generational_vec_num_elements() {
    let mut v = GenerationalVec::new();
    assert_eq!(v.len(), 0);
    let id1 = v.add(10);
    let id2 = v.add(20);
    assert_eq!(v.len(), 2);
    v.remove(id2);
    assert_eq!(v.len(), 1);
    v.remove(id1);
    assert_eq!(v.len(), 0);
}

#[test]
fn generational_vec_remove_and_then_add() {
    let mut v = GenerationalVec::new();
    v.add(100);
    let id2 = v.add(200);
    v.add(300);
    assert_eq!(v.len(), 3);
    assert_eq!(v.slots(), 3);

    v.remove(id2);
    assert_eq!(v.len(), 2);
    assert_eq!(v.slots(), 3);

    v.add(400);
    assert_eq!(v.len(), 3);
    assert_eq!(v.slots(), 3);

    v.add(500);
    assert_eq!(v.len(), 4);
    assert_eq!(v.slots(), 4);
}

#[test]
fn generational_vec_len() {
    let v = GenerationalVec::<()>::new();
    assert_eq!(v.len(), 0);
    assert!(v.is_empty());
}

#[test]
fn generational_vec_empty_after_remove() {
    let mut v = GenerationalVec::new();
    let id = v.add(100);
    assert!(!v.is_empty());
    v.remove(id);
    assert!(v.is_empty());
}

#[test]
fn first_ids_are_slots_in_generation_zero() {
    let mut v = GenerationalVec::new();
    assert_eq!(v.add('a'), GenerationalId { index: 0, generation: 0 });
    assert_eq!(v.add('b'), GenerationalId { index: 1, generation: 0 });
    assert_eq!(v.add('c'), GenerationalId { index: 2, generation: 0 });
}

#[test]
fn freed_slot_is_reused_in_next_generation() {
    let mut v = GenerationalVec::new();
    v.add(1);
    let e = v.add(2);
    v.add(3);
    assert_eq!(v.remove(e), Some(2));
    let reused = v.add(4);
    assert_eq!(reused.index, e.index);
    assert_eq!(reused.generation, e.generation + 1);
    assert_eq!(v.get(reused), Some(&4));
}

#[test]
fn stale_id_is_rejected_after_reuse() {
    let mut v = GenerationalVec::new();
    let old = v.add(10);
    assert_eq!(v.remove(old), Some(10));
    assert_eq!(v.get(old), None);
    let new = v.add(20);
    assert_eq!(new.index, old.index);
    assert_ne!(new, old);
    assert_eq!(v.get(old), None);
    assert_eq!(v.get_mut(old), None);
    assert_eq!(v.remove(old), None);
    assert_eq!(v.get(new), Some(&20));
    assert_eq!(v.len(), 1);
}

#[test]
fn removing_twice_frees_the_slot_once() {
    let mut v = GenerationalVec::new();
    let a = v.add(1);
    let b = v.add(2);
    assert_eq!(v.remove(a), Some(1));
    assert_eq!(v.remove(a), None);
    assert_eq!(v.len(), 1);
    let c = v.add(3);
    let d = v.add(4);
    assert_eq!(c, GenerationalId { index: 0, generation: 1 });
    assert_eq!(d, GenerationalId { index: 2, generation: 0 });
    assert_eq!(v.get(b), Some(&2));
    assert_eq!(v.len(), 3);
    assert_eq!(v.slots(), 3);
}

#[test]
fn free_slots_are_reused_oldest_first() {
    let mut v = GenerationalVec::new();
    let a = v.add(1);
    let b = v.add(2);
    let c = v.add(3);
    v.remove(b);
    v.remove(a);
    v.remove(c);
    assert_eq!(v.add(4).index, 1);
    assert_eq!(v.add(5).index, 0);
    assert_eq!(v.add(6).index, 2);
    assert_eq!(v.add(7).index, 3);
}

#[test]
fn unknown_id_finds_nothing() {
    let mut v = GenerationalVec::with_capacity(4);
    v.add(1);
    let unknown = GenerationalId { index: 7, generation: 0 };
    assert_eq!(v.get(unknown), None);
    assert_eq!(v.remove(unknown), None);
    let wrong_generation = GenerationalId { index: 0, generation: 3 };
    assert_eq!(v.get(wrong_generation), None);
    assert_eq!(v.len(), 1);
}

#[test]
fn is_valid_follows_the_element() {
    let mut v = GenerationalVec::new();
    let id = v.add("a");
    assert!(v.is_valid(id));
    assert!(!v.is_valid(GenerationalId { index: 1, generation: 0 }));
    assert!(!v.is_valid(GenerationalId { index: 0, generation: 1 }));
    v.remove(id);
    assert!(!v.is_valid(id));
    let next = v.add("b");
    assert!(v.is_valid(next));
    assert!(!v.is_valid(id));
}

#[test]
fn default_is_empty() {
    let v: GenerationalVec<u8> = Default::default();
    assert!(v.is_empty());
    assert_eq!(v.slots(), 0);
}

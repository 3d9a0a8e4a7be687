use slot_arena::Arena;
use slot_arena::FreePointer;
use slot_arena::Index;

use std::mem::size_of;

#[test]
fn size_of_index() {
    assert_eq!(size_of::<Index>(), 8);
    assert_eq!(size_of::<Option<Index>>(), 8);
}

#[test]
fn new() {
    let arena: Arena<u32> = Arena::new();
    assert_eq!(arena.len(), 0);
    assert_eq!(arena.capacity(), 0);
}

#[test]
fn with_capacity() {
    let arena: Arena<u32> = Arena::with_capacity(8);
    assert_eq!(arena.len(), 0);
    assert_eq!(arena.capacity(), 8);
}

#[test]
fn insert_and_get() {
    let mut arena = Arena::new();

    let one = arena.insert(1);
    assert_eq!(arena.len(), 1);
    assert_eq!(arena.get(one), Some(&1));

    let two = arena.insert(2);
    assert_eq!(arena.len(), 2);
    assert_eq!(arena.get(one), Some(&1));
    assert_eq!(arena.get(two), Some(&2));
}

#[test]
fn insert_remove_get() {
    let mut arena = Arena::new();
    let one = arena.insert(1);

    let two = arena.insert(2);
    assert_eq!(arena.len(), 2);
    assert!(arena.contains(two));
    assert_eq!(arena.remove(two), Some(2));
    assert!(!arena.contains(two));

    let three = arena.insert(3);
    assert_eq!(arena.len(), 2);
    assert_eq!(arena.get(one), Some(&1));
    assert_eq!(arena.get(three), Some(&3));
    assert_eq!(arena.get(two), None);
}

#[test]
fn insert_remove_get_by_slot() {
    let mut arena = Arena::new();
    let one = arena.insert(1);

    let two = arena.insert(2);
    assert_eq!(arena.len(), 2);
    assert!(arena.contains(two));
    assert_eq!(arena.remove_by_slot(two.slot()), Some((two, 2)));
    assert!(!arena.contains(two));
    assert_eq!(arena.get_by_slot(two.slot()), None);

    let three = arena.insert(3);
    assert_eq!(arena.len(), 2);
    assert_eq!(arena.get(one), Some(&1));
    assert_eq!(arena.get(three), Some(&3));
    assert_eq!(arena.get(two), None);
    assert_eq!(arena.get_by_slot(two.slot()), Some((three, &3)));
}

#[test]
fn get_mut() {
    let mut arena = Arena::new();
    let foo = arena.insert(5);

    let handle = arena.get_mut(foo).unwrap();
    *handle = 6;

    assert_eq!(arena.get(foo), Some(&6));
}

#[test]
fn get2_mut() {
    let mut arena = Arena::new();
    let foo = arena.insert(100);
    let bar = arena.insert(500);

    let (foo_handle, bar_handle) = arena.get2_mut(foo, bar);
    let foo_handle = foo_handle.unwrap();
    let bar_handle = bar_handle.unwrap();
    *foo_handle = 105;
    *bar_handle = 505;

    assert_eq!(arena.get(foo), Some(&105));
    assert_eq!(arena.get(bar), Some(&505));
}

#[test]
fn get2_mut_reversed_order() {
    let mut arena = Arena::new();
    let foo = arena.insert(100);
    let bar = arena.insert(500);

    let (bar_handle, foo_handle) = arena.get2_mut(bar, foo);
    let foo_handle = foo_handle.unwrap();
    let bar_handle = bar_handle.unwrap();
    *foo_handle = 105;
    *bar_handle = 505;

    assert_eq!(arena.get(foo), Some(&105));
    assert_eq!(arena.get(bar), Some(&505));
}

#[test]
fn get2_mut_non_exist_handle() {
    let mut arena = Arena::new();
    let foo = arena.insert(100);
    let bar = arena.insert(500);
    arena.remove(bar);

    let (bar_handle, foo_handle) = arena.get2_mut(bar, foo);
    let foo_handle = foo_handle.unwrap();
    assert!(bar_handle.is_none());
    *foo_handle = 105;

    assert_eq!(arena.get(foo), Some(&105));
}

#[test]
fn get2_mut_same_slot_different_generation() {
    let mut arena = Arena::new();
    let foo = arena.insert(100);
    let mut foo1 = foo;
    foo1.generation = foo1.generation.next();

    let (foo_handle, foo1_handle) = arena.get2_mut(foo, foo1);
    assert!(foo_handle.is_some());
    assert!(foo1_handle.is_none());
}

#[test]
fn insert_remove_insert_capacity() {
    let mut arena = Arena::with_capacity(2);
    assert_eq!(arena.capacity(), 2);

    let a = arena.insert("a");
    let b = arena.insert("b");
    assert_eq!(arena.len(), 2);
    assert_eq!(arena.capacity(), 2);

    arena.remove(a);
    arena.remove(b);
    assert_eq!(arena.len(), 0);
    assert_eq!(arena.capacity(), 2);

    let _a2 = arena.insert("a2");
    let _b2 = arena.insert("b2");
    assert_eq!(arena.len(), 2);
    assert_eq!(arena.capacity(), 2);
}

#[test]
fn invalidate() {
    let mut arena = Arena::new();

    let a = arena.insert("a");
    assert_eq!(arena.get(a), Some(&"a"));

    let new_a = arena.invalidate(a).unwrap();
    assert_eq!(arena.get(a), None);
    assert_eq!(arena.get(new_a), Some(&"a"));
}

#[test]
fn retain() {
    let mut arena = Arena::new();

    for i in 0..100 {
        arena.insert(i);
    }

    arena.retain(|_, &i| i % 2 == 1);

    let mut it = arena.iter();
    while let Some((_, i)) = it.next(&arena) {
        assert_eq!(i % 2, 1);
    }

    assert_eq!(arena.len(), 50);
}

#[test]
fn index_bits_roundtrip() {
    let index = Index::from_bits(0x1BADCAFE_DEADBEEF);
    assert_eq!(index.to_bits(), 0x1BADCAFE_DEADBEEF);
}

#[test]
#[should_panic]
fn index_bits_panic_on_zero_generation() {
    Index::from_bits(0x00000000_DEADBEEF);
}

#[test]
fn from_slot() {
    let ptr = FreePointer::from_slot(0);
    assert_eq!(ptr.slot(), 0);
}

#[test]
#[should_panic]
fn panic_on_overflow() {
    let _ = FreePointer::from_slot(usize::MAX);
}

#[test]
fn first_index_bits_exact() {
    let mut arena = Arena::new();
    let first = arena.insert(9);
    // The first insertion appends slot zero at generation one, so the
    // packed form is exactly generation one in the high word.
    assert_eq!(first.slot(), 0);
    assert_eq!(first.to_bits(), 0x00000001_00000000);
    let decoded = Index::from_bits(0x00000001_00000000);
    assert_eq!(decoded, first);
}

#[test]
fn lifo_reuse() {
    let mut arena = Arena::new();
    let a = arena.insert("a");
    let b = arena.insert("b");

    assert_eq!(arena.remove(b), Some("b"));

    let c = arena.insert("c");
    // The most recently freed slot is reused, under a fresh generation.
    assert_eq!(c.slot(), b.slot());
    assert_ne!(c, b);
    assert_eq!(arena.get(a), Some(&"a"));
    assert_eq!(arena.get(c), Some(&"c"));
    assert_eq!(arena.get(b), None);

    // The stale index stays dead in later states too.
    arena.insert("d");
    assert_eq!(arena.get(b), None);
    assert_eq!(arena.get(c), Some(&"c"));
}

#[test]
fn drain_all() {
    let mut arena = Arena::new();
    let indices: Vec<Index> = (0..10).map(|i| arena.insert(i)).collect();
    let capacity_before = arena.capacity();

    let mut drained = Vec::new();
    let mut drain = arena.drain();
    while let Some((index, value)) = drain.next(&mut arena) {
        drained.push((index, value));
    }

    assert_eq!(drained.len(), 10);
    for (k, (index, value)) in drained.iter().enumerate() {
        assert_eq!(*index, indices[k]);
        assert_eq!(*value, k as i32);
    }
    assert_eq!(arena.len(), 0);
    assert!(arena.is_empty());
    assert_eq!(arena.capacity(), capacity_before);
}

#[test]
fn drain_abandoned_early() {
    let mut arena = Arena::new();
    let indices: Vec<Index> = (0..5).map(|i| arena.insert(i)).collect();

    let mut drain = arena.drain();
    let first = drain.next(&mut arena).unwrap();
    let second = drain.next(&mut arena).unwrap();
    assert_eq!(first, (indices[0], 0));
    assert_eq!(second, (indices[1], 1));
    drop(drain);

    // Only the yielded elements are gone; the rest stay retrievable.
    assert_eq!(arena.len(), 3);
    assert_eq!(arena.get(indices[0]), None);
    assert_eq!(arena.get(indices[1]), None);
    assert_eq!(arena.get(indices[2]), Some(&2));
    assert_eq!(arena.get(indices[3]), Some(&3));
    assert_eq!(arena.get(indices[4]), Some(&4));
}

#[test]
fn clear_keeps_capacity() {
    let mut arena = Arena::with_capacity(4);
    let a = arena.insert(1);
    let b = arena.insert(2);

    arena.clear();

    assert_eq!(arena.len(), 0);
    assert!(arena.is_empty());
    assert_eq!(arena.capacity(), 4);
    assert_eq!(arena.get(a), None);
    assert_eq!(arena.get(b), None);
}

#[test]
fn iter_ascending_and_skips_vacant() {
    let mut arena = Arena::new();
    let a = arena.insert(10);
    let b = arena.insert(20);
    let c = arena.insert(30);
    arena.remove(b);

    let mut seen = Vec::new();
    let mut it = arena.iter();
    while let Some((index, value)) = it.next(&arena) {
        seen.push((index, *value));
    }
    assert_eq!(seen, vec![(a, 10), (c, 30)]);
}

#[test]
fn iter_mut_updates_values() {
    let mut arena = Arena::new();
    let a = arena.insert(1);
    let b = arena.insert(2);

    let mut it = arena.iter_mut();
    while let Some((_, value)) = it.next(&mut arena) {
        *value += 10;
    }

    assert_eq!(arena.get(a), Some(&11));
    assert_eq!(arena.get(b), Some(&12));
}

#[test]
fn into_iter_owns_values() {
    let mut arena = Arena::new();
    let a = arena.insert(String::from("x"));
    let b = arena.insert(String::from("y"));

    let mut owned = Vec::new();
    let mut consuming = arena.into_iter();
    while let Some(pair) = consuming.next() {
        owned.push(pair);
    }
    assert_eq!(owned, vec![(a, String::from("x")), (b, String::from("y"))]);
}

#[test]
fn contains_slot_reports_current_index() {
    let mut arena = Arena::new();
    let a = arena.insert(7);

    assert_eq!(arena.contains_slot(a.slot()), Some(a));
    assert_eq!(arena.contains_slot(a.slot() + 1), None);

    arena.remove(a);
    assert_eq!(arena.contains_slot(a.slot()), None);
}

#[test]
fn get_by_slot_mut_updates_value() {
    let mut arena = Arena::new();
    let a = arena.insert(3);

    let (index, value) = arena.get_by_slot_mut(a.slot()).unwrap();
    assert_eq!(index, a);
    *value = 4;

    assert_eq!(arena.get(a), Some(&4));
    assert_eq!(arena.get_by_slot_mut(a.slot() + 1), None);
}

#[test]
fn default_is_empty() {
    let arena: Arena<u8> = Arena::default();
    assert_eq!(arena.len(), 0);
    assert!(arena.is_empty());
}

#[test]
fn index_ordering_by_slot_then_generation() {
    let mut arena = Arena::new();
    let a = arena.insert(1);
    let b = arena.insert(2);
    assert!(a < b);

    arena.remove(a);
    let a2 = arena.insert(3);
    // Same slot, advanced generation: the newer index orders after.
    assert_eq!(a2.slot(), a.slot());
    assert!(a < a2);
    assert!(a2 < b);
}

#[test]
fn remove_stale_index_changes_nothing() {
    let mut arena = Arena::new();
    let a = arena.insert(1);
    arena.remove(a);
    let a2 = arena.insert(2);

    // The stale index no longer removes anything.
    assert_eq!(arena.remove(a), None);
    assert_eq!(arena.len(), 1);
    assert_eq!(arena.get(a2), Some(&2));
}

#[test]
fn retain_keeps_matching_values_retrievable() {
    let mut arena = Arena::new();
    let indices: Vec<Index> = (0..100).map(|i| arena.insert(i)).collect();

    arena.retain(|_, &i| i % 2 == 1);

    assert_eq!(arena.len(), 50);
    for (i, index) in indices.iter().enumerate() {
        if i % 2 == 1 {
            assert_eq!(arena.get(*index), Some(&(i as i32)));
        } else {
            assert_eq!(arena.get(*index), None);
        }
    }
}

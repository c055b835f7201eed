use std::cell::Cell;
use std::rc::Rc;

use dynarray::dyn_array::DynArray;

#[test]
fn push_tracks_length_and_doubling_capacity() {
    let mut arr: DynArray<u32> = DynArray::new();
    assert_eq!(arr.len(), 0);
    assert_eq!(arr.capacity(), 0);
    let expected = [1usize, 2, 4, 4, 8, 8, 8, 8, 16, 16, 16, 16, 16, 16, 16, 16, 32];
    for (i, cap) in expected.iter().enumerate() {
        arr.push(i as u32);
        assert_eq!(arr.len(), i + 1);
        assert_eq!(arr.capacity(), *cap);
        assert!(arr.capacity().is_power_of_two());
        assert!(arr.capacity() >= arr.len());
    }
}

#[test]
fn with_capacity_reserves_exactly() {
    let arr: DynArray<u8> = DynArray::with_capacity(5);
    assert_eq!(arr.len(), 0);
    assert_eq!(arr.capacity(), 5);
    let empty: DynArray<u8> = DynArray::with_capacity(0);
    assert_eq!(empty.capacity(), 0);
    assert_eq!(empty.len(), 0);
}

#[test]
fn with_capacity_grows_by_doubling_when_full() {
    let mut arr: DynArray<u8> = DynArray::with_capacity(3);
    arr.push(1);
    arr.push(2);
    arr.push(3);
    assert_eq!(arr.capacity(), 3);
    arr.push(4);
    assert_eq!(arr.capacity(), 6);
    assert_eq!(arr.len(), 4);
}

#[test]
fn push_then_pop_round_trip_reverses() {
    let mut arr = DynArray::new();
    let values = ["a", "b", "c", "d", "e"];
    for v in values.iter() {
        arr.push(v.to_string());
    }
    let mut popped = Vec::new();
    for _ in 0..values.len() + 1 {
        popped.push(arr.pop());
    }
    assert_eq!(
        popped,
        vec![
            Some("e".to_string()),
            Some("d".to_string()),
            Some("c".to_string()),
            Some("b".to_string()),
            Some("a".to_string()),
            None
        ]
    );
    assert_eq!(arr.len(), 0);
    assert_eq!(arr.capacity(), 8);
}

#[test]
fn pop_on_empty_is_repeatedly_absent() {
    let mut arr: DynArray<i64> = DynArray::new();
    for _ in 0..3 {
        assert_eq!(arr.pop(), None);
        assert_eq!(arr.len(), 0);
        assert_eq!(arr.capacity(), 0);
    }
    arr.push(7);
    assert_eq!(arr.pop(), Some(7));
    for _ in 0..3 {
        assert_eq!(arr.pop(), None);
        assert_eq!(arr.len(), 0);
        assert_eq!(arr.capacity(), 1);
    }
}

#[test]
fn get_out_of_range_is_absent() {
    let mut arr: DynArray<i32> = DynArray::new();
    assert_eq!(arr.get(0), None);
    assert!(arr.get_mut(0).is_none());
    arr.push(10);
    arr.push(20);
    assert_eq!(arr.get(0), Some(&10));
    assert_eq!(arr.get(1), Some(&20));
    assert_eq!(arr.get(2), None);
    assert_eq!(arr.get(usize::MAX), None);
    assert!(arr.get_mut(2).is_none());
}

#[test]
fn get_mut_writes_through() {
    let mut arr: DynArray<i32> = DynArray::new();
    arr.push(1);
    arr.push(2);
    if let Some(x) = arr.get_mut(1) {
        *x = 99;
    }
    assert_eq!(arr.get(0), Some(&1));
    assert_eq!(arr.get(1), Some(&99));
    assert_eq!(arr.len(), 2);
}

#[test]
fn set_replaces_only_its_index() {
    let mut arr: DynArray<i32> = DynArray::new();
    for i in 0..5 {
        arr.push(i * 10);
    }
    arr.set(3, -1);
    assert_eq!(arr.get(3), Some(&-1));
    assert_eq!(arr.get(0), Some(&0));
    assert_eq!(arr.get(1), Some(&10));
    assert_eq!(arr.get(2), Some(&20));
    assert_eq!(arr.get(4), Some(&40));
    assert_eq!(arr.len(), 5);
}

#[test]
fn growth_keeps_earlier_elements() {
    let mut arr: DynArray<u64> = DynArray::new();
    for i in 0..4u64 {
        arr.push(i * i);
    }
    assert_eq!(arr.capacity(), 4);
    arr.push(100);
    assert_eq!(arr.capacity(), 8);
    for i in 0..4u64 {
        assert_eq!(arr.get(i as usize), Some(&(i * i)));
    }
    assert_eq!(arr.get(4), Some(&100));
}

#[test]
fn iter_visits_elements_in_order() {
    let mut arr: DynArray<char> = DynArray::new();
    for c in ['x', 'y', 'z'] {
        arr.push(c);
    }
    let mut it = arr.iter();
    assert_eq!(it.next(), Some(&'x'));
    assert_eq!(it.next(), Some(&'y'));
    assert_eq!(it.next(), Some(&'z'));
    assert_eq!(it.next(), None);
    assert_eq!(it.next(), None);
    let empty: DynArray<char> = DynArray::new();
    assert_eq!(empty.iter().next(), None);
}

struct Counted {
    drops: Rc<Cell<usize>>,
}

impl Drop for Counted {
    fn drop(&mut self) {
        self.drops.set(self.drops.get() + 1);
    }
}

#[test]
fn dropping_the_array_drops_each_live_element_once() {
    for n in [0usize, 1, 2, 3, 7, 16, 33] {
        let drops = Rc::new(Cell::new(0));
        {
            let mut arr = DynArray::new();
            for _ in 0..n {
                arr.push(Counted { drops: drops.clone() });
            }
            assert_eq!(drops.get(), 0);
        }
        assert_eq!(drops.get(), n);
    }
}

#[test]
fn popped_and_replaced_elements_are_dropped_by_their_owner() {
    let drops = Rc::new(Cell::new(0));
    {
        let mut arr = DynArray::new();
        for _ in 0..4 {
            arr.push(Counted { drops: drops.clone() });
        }
        let popped = arr.pop();
        assert_eq!(drops.get(), 0);
        drop(popped);
        assert_eq!(drops.get(), 1);
        arr.set(0, Counted { drops: drops.clone() });
        assert_eq!(drops.get(), 2);
    }
    assert_eq!(drops.get(), 5);
}

#[test]
fn ten_pushes_set_and_drain() {
    let mut arr = DynArray::new();
    for i in 0..10 {
        arr.push(i);
    }
    assert_eq!(arr.len(), 10);
    assert_eq!(arr.capacity(), 16);
    let before: Vec<i32> = (0..10).map(|i| *arr.get(i).unwrap()).collect();
    assert_eq!(before, vec![0, 1, 2, 3, 4, 5, 6, 7, 8, 9]);
    arr.set(2, 42);
    assert_eq!(arr.get(2), Some(&42));
    for i in 0..10 {
        if i != 2 {
            assert_eq!(arr.get(i), Some(&(i as i32)));
        }
    }
    let mut seen = Vec::new();
    let mut it = arr.iter();
    while let Some(x) = it.next() {
        seen.push(*x);
    }
    assert_eq!(seen, vec![0, 1, 42, 3, 4, 5, 6, 7, 8, 9]);
    let mut drained = Vec::new();
    while let Some(v) = arr.pop() {
        drained.push(v);
    }
    assert_eq!(drained, vec![9, 8, 7, 6, 5, 4, 3, 42, 1, 0]);
    assert_eq!(arr.pop(), None);
    assert_eq!(arr.len(), 0);
    assert_eq!(arr.capacity(), 16);
}

use nostd_vec::static_vec::StaticVec;
use nostd_vec::storage::{Append, CommonVec, TryReserveError};

fn contents<T: Clone, V: CommonVec<T>>(v: &V) -> Vec<T> {
    v.as_slice().iter().map(|slot| slot.clone().unwrap()).collect()
}

fn filled<const C: usize>(items: &[i32]) -> StaticVec<i32, C> {
    let mut v: StaticVec<i32, C> = StaticVec::new();
    for item in items {
        v.push(*item);
    }
    v
}

#[test]
fn new_is_empty_with_fixed_capacity() {
    let v: StaticVec<i32, 4> = StaticVec::new();
    assert_eq!(v.len(), 0);
    assert!(v.is_empty());
    assert_eq!(v.capacity(), 4);
    assert_eq!(v.as_slice().len(), 0);
}

#[test]
fn with_capacity_ignores_its_argument() {
    let v: StaticVec<i32, 4> = StaticVec::with_capacity(100);
    assert_eq!(v.len(), 0);
    assert_eq!(v.capacity(), 4);
    let w: StaticVec<i32, 4> = StaticVec::with_capacity(0);
    assert_eq!(w.capacity(), 4);
}

#[test]
fn zero_capacity_container() {
    let mut v: StaticVec<i32, 0> = StaticVec::new();
    assert_eq!(v.capacity(), 0);
    assert_eq!(v.as_ptr().len(), 0);
    assert_eq!(v.pop(), None);
    assert_eq!(v.try_reserve(0), Ok(()));
    assert_eq!(v.try_reserve(1), Err(TryReserveError));
}

#[test]
fn length_never_exceeds_capacity_and_view_has_length_elements() {
    let mut v: StaticVec<i32, 3> = StaticVec::new();
    for step in 0..3 {
        v.push(step);
        assert!(v.len() <= v.capacity());
        assert_eq!(v.as_slice().len(), v.len());
    }
    v.remove(1);
    assert!(v.len() <= v.capacity());
    assert_eq!(v.as_slice().len(), v.len());
    v.clear();
    assert_eq!(v.as_slice().len(), v.len());
    assert_eq!(v.len(), 0);
}

#[test]
fn push_then_pop_returns_the_value() {
    let mut v = filled::<4>(&[10, 20]);
    v.push(30);
    assert_eq!(v.len(), 3);
    assert_eq!(v.pop(), Some(30));
    assert_eq!(contents(&v), vec![10, 20]);
}

#[test]
fn pop_on_empty_returns_none() {
    let mut v: StaticVec<i32, 4> = StaticVec::new();
    assert_eq!(v.pop(), None);
    assert_eq!(v.len(), 0);
}

#[test]
fn pop_empties_the_slot() {
    let mut v = filled::<2>(&[1, 2]);
    assert_eq!(v.pop(), Some(2));
    assert_eq!(v.as_ptr()[1], None);
    assert_eq!(v.as_ptr()[0], Some(1));
}

#[test]
fn insert_then_remove_restores_the_sequence() {
    for index in 0..=3 {
        let mut v = filled::<4>(&[1, 2, 3]);
        v.insert(index, 99);
        assert_eq!(v.len(), 4);
        assert_eq!(v.as_slice()[index], Some(99));
        assert_eq!(v.remove(index), 99);
        assert_eq!(contents(&v), vec![1, 2, 3]);
    }
}

#[test]
fn insert_shifts_to_the_right() {
    let mut v = filled::<5>(&[1, 2, 3]);
    v.insert(0, 7);
    assert_eq!(contents(&v), vec![7, 1, 2, 3]);
    v.insert(2, 8);
    assert_eq!(contents(&v), vec![7, 1, 8, 2, 3]);
}

#[test]
fn insert_at_the_end_appends() {
    let mut v = filled::<4>(&[1, 2]);
    v.insert(2, 3);
    assert_eq!(contents(&v), vec![1, 2, 3]);
}

#[test]
fn remove_shifts_to_the_left() {
    let mut v = filled::<4>(&[1, 2, 3, 4]);
    assert_eq!(v.remove(1), 2);
    assert_eq!(contents(&v), vec![1, 3, 4]);
    assert_eq!(v.remove(2), 4);
    assert_eq!(contents(&v), vec![1, 3]);
    assert_eq!(v.remove(0), 1);
    assert_eq!(contents(&v), vec![3]);
}

#[test]
fn swap_remove_moves_the_last_element_in() {
    let mut v = filled::<5>(&[1, 2, 3, 4, 5]);
    assert_eq!(v.swap_remove(1), 2);
    assert_eq!(v.len(), 4);
    assert_eq!(v.as_slice()[1], Some(5));
    assert_eq!(contents(&v), vec![1, 5, 3, 4]);
}

#[test]
fn swap_remove_of_the_last_element() {
    let mut v = filled::<3>(&[1, 2, 3]);
    assert_eq!(v.swap_remove(2), 3);
    assert_eq!(contents(&v), vec![1, 2]);
    let mut single = filled::<3>(&[9]);
    assert_eq!(single.swap_remove(0), 9);
    assert!(single.is_empty());
}

#[test]
fn push_swap_remove_retain_scenario() {
    let mut v: StaticVec<i32, 4> = StaticVec::new();
    v.push(1);
    v.push(2);
    v.push(3);
    v.push(4);
    assert_eq!(contents(&v), vec![1, 2, 3, 4]);
    assert_eq!(v.try_reserve(1), Err(TryReserveError));
    assert_eq!(v.len(), 4);

    assert_eq!(v.swap_remove(0), 1);
    assert_eq!(contents(&v), vec![4, 2, 3]);

    v.retain(|x| x % 2 == 0);
    assert_eq!(contents(&v), vec![4, 2]);
}

#[test]
fn try_reserve_succeeds_exactly_when_it_fits() {
    let mut v = filled::<4>(&[1, 2]);
    assert_eq!(v.try_reserve(0), Ok(()));
    assert_eq!(v.try_reserve(2), Ok(()));
    assert_eq!(v.try_reserve(3), Err(TryReserveError));
    assert_eq!(v.try_reserve(usize::MAX), Err(TryReserveError));
    assert_eq!(v.try_reserve_exact(2), Ok(()));
    assert_eq!(v.try_reserve_exact(3), Err(TryReserveError));
    assert_eq!(v.capacity(), 4);
    assert_eq!(contents(&v), vec![1, 2]);
}

#[test]
fn reserve_within_capacity_changes_nothing() {
    let mut v = filled::<4>(&[1, 2]);
    v.reserve(2);
    v.reserve_exact(1);
    assert_eq!(v.capacity(), 4);
    assert_eq!(contents(&v), vec![1, 2]);
}

#[test]
fn shrinking_leaves_inline_storage_as_it_is() {
    let mut v = filled::<4>(&[1, 2]);
    v.shrink_to_fit();
    v.shrink_to(1);
    assert_eq!(v.capacity(), 4);
    assert_eq!(contents(&v), vec![1, 2]);
}

#[test]
fn truncate_drops_the_tail() {
    let mut v = filled::<5>(&[1, 2, 3, 4, 5]);
    v.truncate(2);
    assert_eq!(contents(&v), vec![1, 2]);
    assert_eq!(v.as_ptr()[2], None);
    assert_eq!(v.as_ptr()[4], None);
    assert_eq!(v.capacity(), 5);
}

#[test]
fn truncate_to_a_longer_length_does_nothing() {
    let mut v = filled::<5>(&[1, 2, 3]);
    v.truncate(3);
    assert_eq!(contents(&v), vec![1, 2, 3]);
    v.truncate(10);
    assert_eq!(contents(&v), vec![1, 2, 3]);
}

#[test]
fn clear_keeps_the_capacity() {
    let mut v = filled::<3>(&[1, 2, 3]);
    v.clear();
    assert!(v.is_empty());
    assert_eq!(v.capacity(), 3);
    assert_eq!(v.as_ptr().iter().filter(|slot| slot.is_some()).count(), 0);
    v.push(7);
    assert_eq!(contents(&v), vec![7]);
}

#[test]
fn retain_keeps_order_and_counts_matches() {
    let mut v = filled::<8>(&[5, 1, 6, 2, 7, 3, 8, 4]);
    v.retain(|x| *x > 4);
    assert_eq!(contents(&v), vec![5, 6, 7, 8]);
    assert_eq!(v.len(), 4);
    assert_eq!(v.as_ptr()[4], None);
}

#[test]
fn retain_everything_and_nothing() {
    let mut v = filled::<4>(&[1, 2, 3]);
    v.retain(|_| true);
    assert_eq!(contents(&v), vec![1, 2, 3]);
    v.retain(|_| false);
    assert!(v.is_empty());
    v.retain(|_| true);
    assert!(v.is_empty());
}

#[test]
fn retain_visits_each_element_once_in_order() {
    let mut v = filled::<5>(&[1, 2, 3, 4, 5]);
    let mut seen = Vec::new();
    v.retain(|x| {
        seen.push(*x);
        *x != 2
    });
    assert_eq!(seen, vec![1, 2, 3, 4, 5]);
    assert_eq!(contents(&v), vec![1, 3, 4, 5]);
}

#[test]
fn retain_mut_may_change_what_it_keeps() {
    let mut v = filled::<6>(&[1, 2, 3, 4, 5, 6]);
    v.retain_mut(|x| {
        let keep = *x % 2 == 1;
        *x *= 10;
        keep
    });
    assert_eq!(contents(&v), vec![10, 30, 50]);
}

#[test]
fn dedup_by_key_collapses_only_consecutive_duplicates() {
    let mut v = filled::<4>(&[1, 1, 2, 1]);
    v.dedup_by_key(|x| *x);
    assert_eq!(contents(&v), vec![1, 2, 1]);
}

#[test]
fn dedup_by_key_compares_keys() {
    let mut v = filled::<8>(&[10, 11, 20, 21, 22, 10, 30, 31]);
    v.dedup_by_key(|x| *x / 10);
    assert_eq!(contents(&v), vec![10, 20, 10, 30]);
    assert_eq!(v.as_ptr()[4], None);
}

#[test]
fn dedup_by_compares_with_the_last_kept_element() {
    let mut v = filled::<6>(&[1, 2, 3, 7, 8, 20]);
    v.dedup_by(|x, kept| *x - *kept < 3);
    assert_eq!(contents(&v), vec![1, 7, 20]);
}

#[test]
fn dedup_by_may_change_the_kept_element() {
    let mut v = filled::<6>(&[1, 1, 1, 2, 2, 3]);
    v.dedup_by(|x, kept| {
        if *x % 10 == *kept % 10 {
            *kept += 10;
            true
        } else {
            false
        }
    });
    assert_eq!(contents(&v), vec![21, 12, 3]);
}

#[test]
fn dedup_of_short_containers_changes_nothing() {
    let mut empty: StaticVec<i32, 2> = StaticVec::new();
    empty.dedup_by_key(|x| *x);
    assert!(empty.is_empty());
    let mut single = filled::<2>(&[5]);
    single.dedup_by(|_, _| true);
    assert_eq!(contents(&single), vec![5]);
}

#[test]
fn append_moves_everything_in_order() {
    let mut a = filled::<6>(&[1, 2]);
    let mut b = filled::<3>(&[3, 4, 5]);
    a.append(&mut b);
    assert_eq!(contents(&a), vec![1, 2, 3, 4, 5]);
    assert_eq!(a.len(), 5);
    assert_eq!(b.len(), 0);
    assert_eq!(b.capacity(), 3);
    assert_eq!(b.as_ptr().iter().filter(|slot| slot.is_some()).count(), 0);
}

#[test]
fn append_of_an_empty_container() {
    let mut a = filled::<2>(&[1, 2]);
    let mut b: StaticVec<i32, 4> = StaticVec::new();
    a.append(&mut b);
    assert_eq!(contents(&a), vec![1, 2]);
    b.append(&mut a);
    assert_eq!(contents(&b), vec![1, 2]);
    assert!(a.is_empty());
}

#[test]
fn append_moves_owned_elements() {
    let mut a: StaticVec<String, 4> = StaticVec::new();
    let mut b: StaticVec<String, 4> = StaticVec::new();
    a.push(String::from("one"));
    b.push(String::from("two"));
    b.push(String::from("three"));
    a.append(&mut b);
    assert_eq!(contents(&a), vec!["one", "two", "three"]);
    assert!(b.is_empty());
}

#[test]
fn resize_with_grows_by_calling_the_factory_in_order() {
    let mut v = filled::<6>(&[1, 2]);
    let mut next = 10;
    v.resize_with(5, || {
        next += 1;
        next
    });
    assert_eq!(contents(&v), vec![1, 2, 11, 12, 13]);
    assert_eq!(next, 13);
}

#[test]
fn resize_with_shrinks_like_truncate() {
    let mut v = filled::<6>(&[1, 2, 3, 4]);
    let mut calls = 0;
    v.resize_with(2, || {
        calls += 1;
        0
    });
    assert_eq!(contents(&v), vec![1, 2]);
    assert_eq!(calls, 0);
    v.resize_with(2, || {
        calls += 1;
        0
    });
    assert_eq!(contents(&v), vec![1, 2]);
    assert_eq!(calls, 0);
}

#[test]
fn as_mut_slice_gives_the_live_range() {
    let mut v = filled::<4>(&[1, 2, 3]);
    {
        let live = v.as_mut_slice();
        assert_eq!(live.len(), 3);
        live[1] = Some(20);
    }
    assert_eq!(contents(&v), vec![1, 20, 3]);
}

#[test]
fn spare_capacity_is_published_by_set_len() {
    let mut v = filled::<5>(&[1, 2]);
    {
        let spare = v.spare_capacity_mut();
        assert_eq!(spare.len(), 3);
        assert!(spare.iter().all(|slot| slot.is_none()));
        spare[0] = Some(3);
        spare[1] = Some(4);
    }
    v.set_len(4);
    assert_eq!(contents(&v), vec![1, 2, 3, 4]);
}

#[test]
fn as_ptr_shows_every_slot() {
    let v = filled::<4>(&[1, 2]);
    assert_eq!(v.as_ptr(), &[Some(1), Some(2), None, None]);
}

#[test]
fn as_mut_ptr_writes_to_a_slot() {
    let mut v = filled::<4>(&[1, 2]);
    v.as_mut_ptr()[0] = Some(5);
    assert_eq!(contents(&v), vec![5, 2]);
    assert_eq!(v.len(), 2);
}

#[test]
fn owned_elements_move_through_the_operations() {
    let mut v: StaticVec<String, 4> = StaticVec::new();
    v.push(String::from("a"));
    v.push(String::from("b"));
    v.push(String::from("c"));
    v.insert(1, String::from("x"));
    assert_eq!(contents(&v), vec!["a", "x", "b", "c"]);
    assert_eq!(v.swap_remove(0), "a");
    assert_eq!(contents(&v), vec!["c", "x", "b"]);
    assert_eq!(v.remove(1), "x");
    v.retain(|s| s != "c");
    assert_eq!(contents(&v), vec!["b"]);
    assert_eq!(v.pop(), Some(String::from("b")));
    assert_eq!(v.pop(), None);
}

#[test]
fn try_reserve_error_compares_and_clones() {
    let e = TryReserveError;
    assert_eq!(e.clone(), TryReserveError);
    assert_eq!(format!("{:?}", e), "TryReserveError");
}

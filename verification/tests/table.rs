use ceaser::model::Model;
use ceaser::InvalidHandle;

fn empty_table() -> Model<u32, u64> {
    Model::new(Vec::new(), Vec::new())
}

#[test]
fn insert_issues_monotonic_handles() {
    let mut m = empty_table();
    assert_eq!(m.insert(100), 0);
    assert_eq!(m.insert(101), 1);
    assert_eq!(m.insert(102), 2);
    assert_eq!(m.next_handle, 3);
    assert_eq!(m.handles, vec![0, 1, 2]);
    assert_eq!(m.instances, vec![100, 101, 102]);
    // Plain insert appends invisible.
    assert_eq!(m.first_invisible, 0);
    assert_eq!(m.is_visible(0), Ok(false));
}

#[test]
fn get_finds_payloads_and_rejects_unknown_handles() {
    let mut m = empty_table();
    let h = m.insert(42);
    assert_eq!(m.get(h), Some(&42));
    assert_eq!(m.get(7), None);
    assert_eq!(m.is_visible(7), Err(InvalidHandle));
}

#[test]
fn get_mut_writes_through() {
    let mut m = empty_table();
    let h = m.insert_visibly(5);
    if let Some(p) = m.get_mut(h) {
        *p = 99;
    } else {
        panic!("handle must be present");
    }
    assert_eq!(m.get(h), Some(&99));
    assert_eq!(m.get_mut(12345), None);
}

#[test]
fn insert_visibly_promotes_to_front_partition() {
    let mut m = empty_table();
    let a = m.insert(1);
    let b = m.insert_visibly(2);
    assert_eq!(m.first_invisible, 1);
    assert_eq!(m.is_visible(a), Ok(false));
    assert_eq!(m.is_visible(b), Ok(true));
    // The visible instance sits in the prefix.
    assert_eq!(m.instances[0], 2);
    assert_eq!(m.instances[1], 1);
}

#[test]
fn handle_to_index_stays_exact_inverse_of_handles() {
    let mut m = empty_table();
    for i in 0..8u64 {
        if i % 2 == 0 {
            m.insert_visibly(i);
        } else {
            m.insert(i);
        }
    }
    m.make_visible(5).unwrap();
    m.make_invisible(0).unwrap();
    m.remove(3).unwrap();
    m.remove(4).unwrap();
    m.swap_by_handle(1, 6).unwrap();
    // The inverse-map invariant, checked concretely after a mixed workload.
    assert_eq!(m.handles.len(), m.instances.len());
    assert!(m.first_invisible <= m.instances.len());
    assert_eq!(m.handle_to_index.len(), m.handles.len());
    for (index, handle) in m.handles.iter().enumerate() {
        assert_eq!(m.handle_to_index.get(handle), Some(&index));
    }
}

#[test]
fn visibility_matches_partition_point() {
    let mut m = empty_table();
    let a = m.insert_visibly(10);
    let b = m.insert_visibly(11);
    let c = m.insert(12);
    for h in [a, b, c] {
        let index = m.handle_to_index[&h];
        assert_eq!(m.is_visible(h), Ok(index < m.first_invisible));
    }
}

#[test]
fn make_visible_then_invisible_restores_contents() {
    let mut m = empty_table();
    let a = m.insert_visibly(10);
    let b = m.insert(11);
    let c = m.insert(12);
    m.make_visible(b).unwrap();
    m.make_invisible(b).unwrap();
    assert_eq!(m.first_invisible, 1);
    assert_eq!(m.get(a), Some(&10));
    assert_eq!(m.get(b), Some(&11));
    assert_eq!(m.get(c), Some(&12));
    assert_eq!(m.is_visible(a), Ok(true));
    assert_eq!(m.is_visible(b), Ok(false));
    assert_eq!(m.is_visible(c), Ok(false));
}

#[test]
fn make_invisible_then_visible_restores_contents() {
    let mut m = empty_table();
    let a = m.insert_visibly(10);
    let b = m.insert_visibly(11);
    let c = m.insert(12);
    m.make_invisible(a).unwrap();
    m.make_visible(a).unwrap();
    assert_eq!(m.first_invisible, 2);
    assert_eq!(m.get(a), Some(&10));
    assert_eq!(m.get(b), Some(&11));
    assert_eq!(m.get(c), Some(&12));
    assert_eq!(m.is_visible(a), Ok(true));
    assert_eq!(m.is_visible(b), Ok(true));
    assert_eq!(m.is_visible(c), Ok(false));
}

#[test]
fn visibility_changes_are_noops_when_already_in_state() {
    let mut m = empty_table();
    let a = m.insert_visibly(10);
    let before_handles = m.handles.clone();
    let before_instances = m.instances.clone();
    m.make_visible(a).unwrap();
    assert_eq!(m.handles, before_handles);
    assert_eq!(m.instances, before_instances);
    assert_eq!(m.first_invisible, 1);
    m.make_invisible(a).unwrap();
    m.make_invisible(a).unwrap();
    assert_eq!(m.first_invisible, 0);
    assert_eq!(m.make_visible(999), Err(InvalidHandle));
    assert_eq!(m.make_invisible(999), Err(InvalidHandle));
}

#[test]
fn remove_returns_payload_and_spares_all_others() {
    let mut m = empty_table();
    let handles: Vec<usize> = (0..6u64).map(|i| m.insert_visibly(100 + i)).collect();
    m.make_invisible(handles[4]).unwrap();
    let removed = m.remove(handles[2]);
    assert_eq!(removed, Ok(102));
    assert_eq!(m.get(handles[2]), None);
    assert_eq!(m.remove(handles[2]), Err(InvalidHandle));
    for (i, &h) in handles.iter().enumerate() {
        if i == 2 {
            continue;
        }
        assert_eq!(m.get(h), Some(&(100 + i as u64)));
    }
    assert_eq!(m.is_visible(handles[4]), Ok(false));
    assert_eq!(m.is_visible(handles[5]), Ok(true));
    assert_eq!(m.handles.len(), 5);
}

#[test]
fn remove_of_invisible_instance_keeps_partition_point() {
    let mut m = empty_table();
    let a = m.insert_visibly(1);
    let b = m.insert(2);
    let c = m.insert(3);
    assert_eq!(m.first_invisible, 1);
    assert_eq!(m.remove(b), Ok(2));
    assert_eq!(m.first_invisible, 1);
    assert_eq!(m.get(a), Some(&1));
    assert_eq!(m.get(c), Some(&3));
    assert_eq!(m.handles.len(), 2);
}

#[test]
fn removed_handles_are_never_reissued() {
    let mut m = empty_table();
    let a = m.insert(7);
    m.remove(a).unwrap();
    let b = m.insert(8);
    assert_ne!(a, b);
    assert_eq!(b, 1);
}

#[test]
fn end_to_end_partition_scenario() {
    // Insert three instances visibly (handles 0, 1, 2), hide handle 1:
    // visible part [0, 2], invisible part [1], partition at 2. Then remove
    // handle 0: handles 1 and 2 stay valid and the partition drops to 1.
    let mut m = empty_table();
    let h0 = m.insert_visibly(0);
    let h1 = m.insert_visibly(1);
    let h2 = m.insert_visibly(2);
    assert_eq!((h0, h1, h2), (0, 1, 2));
    m.make_invisible(1).unwrap();
    assert_eq!(m.first_invisible, 2);
    assert_eq!(m.instances[..2].iter().copied().collect::<Vec<u64>>(), vec![0, 2]);
    assert_eq!(m.instances[2..].iter().copied().collect::<Vec<u64>>(), vec![1]);
    m.remove(0).unwrap();
    assert_eq!(m.first_invisible, 1);
    assert_eq!(m.get(1), Some(&1));
    assert_eq!(m.get(2), Some(&2));
    assert_eq!(m.get(0), None);
}

#[test]
fn swap_by_index_exchanges_rows_and_fixes_map() {
    let mut m = empty_table();
    let a = m.insert(10);
    let b = m.insert(11);
    let c = m.insert(12);
    m.swap_by_index(0, 2);
    assert_eq!(m.instances, vec![12, 11, 10]);
    assert_eq!(m.handles, vec![c, b, a]);
    assert_eq!(m.get(a), Some(&10));
    assert_eq!(m.get(c), Some(&12));
    // Equal indices: a no-op.
    m.swap_by_index(1, 1);
    assert_eq!(m.instances, vec![12, 11, 10]);
}

#[test]
fn swap_by_handle_exchanges_rows_and_rejects_unknowns() {
    let mut m = empty_table();
    let a = m.insert(10);
    let b = m.insert(11);
    m.swap_by_handle(a, b).unwrap();
    assert_eq!(m.instances, vec![11, 10]);
    assert_eq!(m.get(a), Some(&10));
    assert_eq!(m.get(b), Some(&11));
    // Equal handles succeed trivially, even when absent.
    assert_eq!(m.swap_by_handle(9, 9), Ok(()));
    assert_eq!(m.swap_by_handle(a, 9), Err(InvalidHandle));
    assert_eq!(m.instances, vec![11, 10]);
}

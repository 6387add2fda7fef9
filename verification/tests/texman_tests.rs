use ttri::texman::{TexError, Texman};

#[test]
fn new_table_is_empty_and_dirty() {
    let t: Texman<&str> = Texman::new();
    assert!(t.get_dirty());
    assert_eq!(t.slots(), 0);
    assert!(t.mapper().is_empty());
    assert!(t.compile_set().is_none());
}

#[test]
fn default_table_equals_new_table() {
    let t: Texman<&str> = Texman::default();
    assert!(t.get_dirty());
    assert_eq!(t.slots(), 0);
    assert!(t.mapper().is_empty());
}

#[test]
fn upload_hands_out_slots_in_order() {
    let mut t = Texman::new();
    t.upload("a", 10);
    t.upload("b", -2);
    t.upload("c", 7);
    assert_eq!(t.mapper().get(&10), Some(&0));
    assert_eq!(t.mapper().get(&-2), Some(&1));
    assert_eq!(t.mapper().get(&7), Some(&2));
    assert_eq!(t.slots(), 3);
    assert!(t.get_dirty());
}

#[test]
fn compaction_without_removals_keeps_everything() {
    let mut t = Texman::new();
    t.upload("a", 10);
    t.upload("b", 20);
    let (count, table) = t.tex_len();
    assert_eq!(count, 2);
    assert_eq!(table.len(), 2);
    assert_eq!(table.get(&0), Some(&0));
    assert_eq!(table.get(&1), Some(&1));
    assert!(!t.get_dirty());
    assert_eq!(t.slots(), 2);
    let (n, views) = t.compile_set().unwrap();
    assert_eq!(n, 2);
    assert_eq!(views, &vec!["a", "b"]);
}

#[test]
fn reupload_round_trip_leaves_one_mapping() {
    let mut t = Texman::new();
    t.upload("old image", 5);
    t.upload("new image", 5);
    assert_eq!(t.mapper().get(&5), Some(&1));
    assert_eq!(t.slots(), 2);
    let (count, table) = t.tex_len();
    assert_eq!(count, 1);
    assert_eq!(t.mapper().len(), 1);
    assert_eq!(t.mapper().get(&5), Some(&0));
    let (n, views) = t.compile_set().unwrap();
    assert_eq!(n, 1);
    assert_eq!(views, &vec!["new image"]);
    assert_eq!(table.get(&0), None);
    assert_eq!(table.get(&1), Some(&0));
    assert_eq!(table.len(), 1);
}

#[test]
fn remove_marks_and_compaction_purges() {
    let mut t = Texman::new();
    t.upload("a", 1);
    t.upload("b", 2);
    t.upload("c", 3);
    t.upload("d", 4);
    let _ = t.tex_len();
    assert!(!t.get_dirty());
    assert_eq!(t.remove(2), Ok(()));
    assert!(t.get_dirty());
    assert_eq!(t.mapper().get(&2), None);
    // The view stays in place until the compaction.
    assert_eq!(t.compile_set().unwrap().1, &vec!["a", "b", "c", "d"]);
    let (count, table) = t.tex_len();
    assert_eq!(count, 3);
    assert_eq!(t.compile_set().unwrap().1, &vec!["a", "c", "d"]);
    assert_eq!(table.get(&0), Some(&0));
    assert_eq!(table.get(&1), None);
    assert_eq!(table.get(&2), Some(&1));
    assert_eq!(table.get(&3), Some(&2));
    assert_eq!(t.mapper().get(&1), Some(&0));
    assert_eq!(t.mapper().get(&3), Some(&1));
    assert_eq!(t.mapper().get(&4), Some(&2));
    assert_eq!(t.slots(), 3);
}

#[test]
fn remove_of_unknown_id_is_not_found() {
    let mut t = Texman::new();
    t.upload("a", 1);
    let _ = t.tex_len();
    assert_eq!(t.remove(9), Err(TexError::NotFound));
    assert!(!t.get_dirty());
    assert_eq!(t.mapper().len(), 1);
    assert_eq!(t.remove(1), Ok(()));
    assert_eq!(t.remove(1), Err(TexError::NotFound));
}

#[test]
fn negative_ids_behave_like_any_other() {
    let mut t = Texman::new();
    t.upload("fallback", -2);
    t.upload("a", 0);
    assert_eq!(t.mapper().get(&-2), Some(&0));
    assert_eq!(t.remove(-2), Ok(()));
    let (count, table) = t.tex_len();
    assert_eq!(count, 1);
    assert_eq!(table.get(&1), Some(&0));
    assert_eq!(t.mapper().get(&0), Some(&0));
    assert_eq!(t.mapper().get(&-2), None);
}

#[test]
fn slots_are_dense_after_any_compaction() {
    let mut t = Texman::new();
    for id in 0..20 {
        t.upload(id * 100, id);
    }
    for id in [3, 4, 11, 19, 0] {
        assert_eq!(t.remove(id), Ok(()));
    }
    t.upload(7000, 7);
    t.upload(2100, 21);
    let (count, _) = t.tex_len();
    assert_eq!(count, 16);
    let mut slots: Vec<i32> = t.mapper().values().copied().collect();
    slots.sort();
    assert_eq!(slots, (0..16).collect::<Vec<i32>>());
    // every id still finds its own view at its slot
    let (_, views) = t.compile_set().unwrap();
    for (id, slot) in t.mapper().iter() {
        let want = if *id == 7 { 7000 } else { id * 100 };
        assert_eq!(views[*slot as usize], want);
    }
    // nothing changes when there is nothing to purge
    let before: Vec<i32> = views.clone();
    let (again, table) = t.tex_len();
    assert_eq!(again, 16);
    assert_eq!(t.compile_set().unwrap().1, &before);
    for s in 0..16 {
        assert_eq!(table.get(&s), Some(&s));
    }
}

#[test]
fn compaction_to_nothing_binds_nothing() {
    let mut t = Texman::new();
    t.upload("a", 1);
    assert_eq!(t.remove(1), Ok(()));
    let (count, table) = t.tex_len();
    assert_eq!(count, 0);
    assert!(table.is_empty());
    assert!(t.compile_set().is_none());
    assert_eq!(t.slots(), 0);
    t.upload("b", 1);
    assert_eq!(t.mapper().get(&1), Some(&0));
}

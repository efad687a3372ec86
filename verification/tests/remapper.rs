use pdf_export::remap::Remapper;

#[test]
fn new_table_is_empty() {
    let map = Remapper::new();
    assert_eq!(map.len(), 0);
    assert_eq!(map.pdf_indices(), Vec::<usize>::new());
    assert_eq!(map.layout_indices(), Vec::<u32>::new());
    assert!(!map.contains(0));
}

#[test]
fn indices_follow_first_seen_order() {
    let mut map = Remapper::new();
    for id in [40u32, 7, 40, 1000, 7, 3] {
        map.insert(id);
    }
    assert_eq!(map.len(), 4);
    assert_eq!(map.layout_indices(), vec![40, 7, 1000, 3]);
    assert_eq!(map.pdf_indices(), vec![0, 1, 2, 3]);
    assert_eq!(map.map(40), 0);
    assert_eq!(map.map(7), 1);
    assert_eq!(map.map(1000), 2);
    assert_eq!(map.map(3), 3);
}

#[test]
fn map_and_layout_indices_are_inverse() {
    let mut map = Remapper::new();
    let input = [9u32, 2, 9, 9, 5, 2, 0, u32::MAX, 5];
    for id in input {
        map.insert(id);
    }
    let ids = map.layout_indices();
    for (k, id) in ids.iter().enumerate() {
        assert_eq!(map.map(*id), k);
    }
    for id in input {
        assert_eq!(ids[map.map(id)], id);
    }
}

#[test]
fn inserting_twice_changes_nothing() {
    let mut map = Remapper::new();
    map.insert(11);
    map.insert(22);
    map.insert(33);
    let before = map.layout_indices();
    let count = map.pdf_indices().len();
    map.insert(22);
    assert_eq!(map.pdf_indices().len(), count);
    assert_eq!(map.layout_indices(), before);
    assert_eq!(map.map(11), 0);
    assert_eq!(map.map(22), 1);
    assert_eq!(map.map(33), 2);
    map.insert(22);
    assert_eq!(map.len(), 3);
}

#[test]
fn contains_tells_recorded_from_unknown() {
    let mut map = Remapper::new();
    map.insert(5);
    assert!(map.contains(5));
    assert!(!map.contains(6));
}

#[test]
fn two_tables_are_independent() {
    let mut fonts = Remapper::new();
    let mut images = Remapper::new();
    fonts.insert(3);
    images.insert(8);
    images.insert(3);
    assert_eq!(fonts.map(3), 0);
    assert_eq!(images.map(3), 1);
    assert_eq!(images.map(8), 0);
}

use qmerge::loader::{find_load_ordering, ImportLut, ImportLutEntry, ModLoadInfo};

fn info(id: &str, deps: &[&str], before: &[&str], after: &[&str]) -> ModLoadInfo {
    ModLoadInfo {
        id: id.to_string(),
        dependencies: deps.iter().map(|s| s.to_string()).collect(),
        load_before: before.iter().map(|s| s.to_string()).collect(),
        load_after: after.iter().map(|s| s.to_string()).collect(),
    }
}

#[test]
fn dependencies_load_first() {
    let mods = vec![
        info("C", &["B"], &[], &[]),
        info("B", &["A"], &[], &[]),
        info("A", &[], &[], &[]),
    ];
    let r = find_load_ordering(&mods);
    assert_eq!(r.order, vec![2, 1, 0]);
    assert!(r.unresolved.is_empty());
    assert!(r.cyclic.is_empty());
}

#[test]
fn load_before_and_after_order_mods() {
    // "load_before" names mods that load before this one, "load_after"
    // mods that load after it.
    let mods = vec![info("A", &[], &["B"], &[]), info("B", &[], &[], &["C"]), info("C", &[], &[], &[])];
    let r = find_load_ordering(&mods);
    let pos = |i: usize| r.order.iter().position(|&x| x == i).unwrap();
    assert!(pos(1) < pos(0));
    assert!(pos(1) < pos(2));
    assert_eq!(r.order.len(), 3);
}

#[test]
fn unresolved_dependencies_are_reported() {
    let mods = vec![info("A", &["X", "B"], &["Y"], &[]), info("B", &[], &[], &[])];
    let r = find_load_ordering(&mods);
    assert_eq!(r.unresolved, vec![(0, 0)]);
    assert_eq!(r.order, vec![1, 0]);
    assert!(r.cyclic.is_empty());
}

#[test]
fn cycles_leave_mods_out() {
    let mods = vec![info("A", &["B"], &[], &[]), info("B", &["A"], &[], &[]), info("C", &[], &[], &[])];
    let r = find_load_ordering(&mods);
    assert!(r.order.is_empty());
    // every mod left out of the order is listed, the unrelated one too
    assert_eq!(r.cyclic, vec![0, 1, 2]);
}

#[test]
fn mods_without_relations_are_not_ordered() {
    let mods = vec![info("A", &[], &[], &[])];
    let r = find_load_ordering(&mods);
    assert!(r.order.is_empty());
    assert!(r.cyclic.is_empty());
}

#[test]
fn later_ids_shadow_earlier_ones() {
    let mods = vec![info("A", &[], &[], &[]), info("A", &[], &[], &[]), info("B", &["A"], &[], &[])];
    let r = find_load_ordering(&mods);
    assert_eq!(r.order, vec![1, 2]);
}

#[test]
fn import_helpers_are_found_by_address() {
    let mut lut = ImportLut::new();
    lut.add_imports(0, &vec![(0x3000, 7), (0x1000, 2)]);
    lut.add_imports(1, &vec![(0x2000, 5)]);
    assert_eq!(lut.ptrs, vec![0x1000, 0x2000, 0x3000]);
    let e = lut.find(0x3000);
    assert_eq!((e.mod_index, e.fixup_index, e.ref_index), (0, 0, 7));
    let e = lut.find(0x1000);
    assert_eq!((e.mod_index, e.fixup_index, e.ref_index), (0, 1, 2));
    let e = lut.find(0x2000);
    assert_eq!((e.mod_index, e.fixup_index, e.ref_index), (1, 0, 5));
    // an address between two helpers leads to the next one
    let e = lut.find(0x1800);
    assert_eq!(e.ref_index, 5);
}

#[test]
fn an_inserted_helper_is_found_again() {
    let mut lut = ImportLut::new();
    lut.insert(50, ImportLutEntry { mod_index: 3, fixup_index: 4, ref_index: 9 });
    lut.insert(10, ImportLutEntry { mod_index: 1, fixup_index: 0, ref_index: 1 });
    let e = lut.find(50);
    assert_eq!((e.mod_index, e.fixup_index, e.ref_index), (3, 4, 9));
    let e = lut.find(10);
    assert_eq!((e.mod_index, e.fixup_index, e.ref_index), (1, 0, 1));
}

use elegant_clipboard::sync_import::sync_import_selection;

fn strings(v: &[&str]) -> Vec<String> {
    v.iter().map(|s| s.to_string()).collect()
}

#[test]
fn new_items_are_all_added() {
    assert_eq!(sync_import_selection(&strings(&["a", "b", "c"]), &[false, false, false]), vec![0, 1, 2]);
}

#[test]
fn stored_hashes_are_skipped() {
    assert_eq!(sync_import_selection(&strings(&["a", "b", "c"]), &[true, false, true]), vec![1]);
}

#[test]
fn repeated_hash_in_one_import_is_added_once() {
    assert_eq!(
        sync_import_selection(&strings(&["x", "y", "x", "y", "z"]), &[false, false, false, false, false]),
        vec![0, 1, 4]
    );
}

#[test]
fn repeat_of_a_stored_hash_stays_out() {
    // the first "x" was already stored; its later repeat is stored too by then
    assert_eq!(sync_import_selection(&strings(&["x", "x"]), &[true, true]), Vec::<usize>::new());
}

#[test]
fn empty_import_adds_nothing() {
    assert!(sync_import_selection(&[], &[]).is_empty());
}

use ksud::mount_exclusion::MountExclusionStore;

#[test]
fn add_twice_keeps_one_entry_with_latest_flags() {
    let mut s = MountExclusionStore::new();
    s.add("/data/adb".to_string(), 0);
    s.add("/data/foo".to_string(), 1);
    s.add("/data/foo".to_string(), 2);
    let l = s.list();
    assert_eq!(l.len(), 2);
    let hits: Vec<&_> = l.iter().filter(|e| e.path == "/data/foo").collect();
    assert_eq!(hits.len(), 1);
    assert_eq!(hits[0].flags, 2);
}

#[test]
fn replace_keeps_insertion_order() {
    let mut s = MountExclusionStore::new();
    s.add("/a".to_string(), 0);
    s.add("/b".to_string(), 0);
    s.add("/a".to_string(), 2);
    let l = s.list();
    assert_eq!(l[0].path, "/a");
    assert_eq!(l[0].flags, 2);
    assert_eq!(l[1].path, "/b");
}

#[test]
fn del_of_missing_path_is_noop_success() {
    let mut s = MountExclusionStore::new();
    s.add("/a".to_string(), 0);
    s.del(&"/nope".to_string());
    let l = s.list();
    assert_eq!(l.len(), 1);
    assert_eq!(l[0].path, "/a");
    assert_eq!(l[0].flags, 0);
}

#[test]
fn del_removes_only_named_path() {
    let mut s = MountExclusionStore::new();
    s.add("/a".to_string(), 0);
    s.add("/b".to_string(), 2);
    s.del(&"/a".to_string());
    let l = s.list();
    assert_eq!(l.len(), 1);
    assert_eq!(l[0].path, "/b");
}

#[test]
fn wipe_empties_the_list() {
    let mut s = MountExclusionStore::new();
    s.add("/a".to_string(), 0);
    s.add("/b".to_string(), 2);
    s.wipe();
    assert_eq!(s.list().len(), 0);
}

#[test]
fn json_listing_is_the_compact_serde_encoding() {
    let mut s = MountExclusionStore::new();
    s.add("/data/foo".to_string(), 2);
    assert_eq!(s.list_json(), "[[\"/data/foo\",2]]");
    s.add("/x".to_string(), 0);
    assert_eq!(s.list_json(), "[[\"/data/foo\",2],[\"/x\",0]]");
}

#[test]
fn json_listing_of_empty_store() {
    let s = MountExclusionStore::new();
    assert_eq!(s.list_json(), "[]");
}

use sftp_engine::bookmarks::{remove_bookmark, upsert_bookmark, Bookmark};

fn bm(id: &str, path: &str) -> Bookmark {
    Bookmark {
        id: id.to_string(),
        name: format!("bookmark {id}"),
        device_ip: "100.64.0.1".to_string(),
        device_hostname: "node".to_string(),
        path: path.to_string(),
    }
}

#[test]
fn upsert_appends_new_ids_in_order() {
    let mut list = Vec::new();
    upsert_bookmark(&mut list, bm("a", "/one"));
    upsert_bookmark(&mut list, bm("b", "/two"));
    assert_eq!(list.len(), 2);
    assert_eq!(list[0].id, "a".to_string());
    assert_eq!(list[1].id, "b".to_string());
}

#[test]
fn upsert_replaces_existing_id_in_place() {
    let mut list = vec![bm("a", "/one"), bm("b", "/two"), bm("c", "/three")];
    upsert_bookmark(&mut list, bm("b", "/elsewhere"));
    assert_eq!(list.len(), 3);
    assert_eq!(list[1].id, "b".to_string());
    assert_eq!(list[1].path, "/elsewhere".to_string());
    assert_eq!(list[0].path, "/one".to_string());
    assert_eq!(list[2].path, "/three".to_string());
}

#[test]
fn remove_deletes_by_id_and_keeps_order() {
    let mut list = vec![bm("a", "/one"), bm("b", "/two"), bm("c", "/three")];
    remove_bookmark(&mut list, &"b".to_string());
    assert_eq!(list.len(), 2);
    assert_eq!(list[0].id, "a".to_string());
    assert_eq!(list[1].id, "c".to_string());
}

#[test]
fn remove_of_unknown_id_changes_nothing() {
    let mut list = vec![bm("a", "/one")];
    remove_bookmark(&mut list, &"zz".to_string());
    assert_eq!(list.len(), 1);
    assert_eq!(list[0].id, "a".to_string());
}

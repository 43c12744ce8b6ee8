use admin_backend::files::{
    create, list, remove, save, CreateNode, FileNode, FsStore, NodeType, UpdateFile,
};
use admin_backend::status::{Status, StoreError};

fn request(name: &str, node_type: NodeType, parent: Option<u128>) -> CreateNode {
    CreateNode { name: name.to_string(), node_type, parent }
}

fn by_name(store: &FsStore, name: &str) -> FileNode {
    list(store).into_iter().find(|n| n.name == name).unwrap()
}

#[test]
fn mock_files_hold_three_sample_nodes() {
    let store = FsStore::new_mock();
    let all = list(&store);
    assert_eq!(all.len(), 3);
    let public = by_name(&store, "public");
    assert_eq!(public.node_type, NodeType::Folder);
    assert_eq!(public.size, None);
    assert_eq!(public.modified, "2 часа назад");
    assert_eq!(public.extension, None);
    assert_eq!(public.content, None);
    assert_eq!(public.parent, None);
    let src = by_name(&store, "src");
    assert_eq!(src.node_type, NodeType::Folder);
    assert_eq!(src.modified, "1 час назад");
    let pkg = by_name(&store, "package.json");
    assert_eq!(pkg.node_type, NodeType::File);
    assert_eq!(pkg.size.as_deref(), Some("2.1 KB"));
    assert_eq!(pkg.modified, "3 дня назад");
    assert_eq!(pkg.extension.as_deref(), Some("json"));
    assert_eq!(pkg.content.as_deref(), Some("{\n  \"name\": \"project\"\n}"));
    assert_eq!(pkg.parent, None);
    assert_ne!(public.id, src.id);
    assert_ne!(public.id, pkg.id);
    assert_ne!(src.id, pkg.id);
}

#[test]
fn seeded_files_get_distinct_identifiers() {
    let store = FsStore::seeded(5, 5, 5);
    assert_eq!(by_name(&store, "public").id, 5);
    assert_eq!(by_name(&store, "src").id, 6);
    assert_eq!(by_name(&store, "package.json").id, 7);
    let store = FsStore::seeded(5, 4, 4);
    assert_eq!(by_name(&store, "public").id, 5);
    assert_eq!(by_name(&store, "src").id, 4);
    assert_eq!(by_name(&store, "package.json").id, 6);
    let store = FsStore::seeded(1, 2, 3);
    assert_eq!(by_name(&store, "package.json").id, 3);
    assert_eq!(store.len(), 3);
}

#[test]
fn create_node_starts_empty_and_just_modified() {
    let mut store = FsStore::new_mock();
    let node = create(&mut store, request("notes.txt", NodeType::File, Some(77)));
    assert_eq!(node.name, "notes.txt");
    assert_eq!(node.node_type, NodeType::File);
    assert_eq!(node.size.as_deref(), Some("0 B"));
    assert_eq!(node.modified, "только что");
    assert_eq!(node.extension, None);
    assert_eq!(node.content.as_deref(), Some(""));
    assert_eq!(node.parent, Some(77));
    assert_eq!(store.len(), 4);
    let stored = by_name(&store, "notes.txt");
    assert_eq!(stored.id, node.id);
    assert_eq!(stored.parent, Some(77));
}

#[test]
fn create_folder_also_gets_size_and_content() {
    let mut store = FsStore::new();
    let node = store.add(1, request("dir", NodeType::Folder, None));
    assert_eq!(node.id, 1);
    assert_eq!(node.node_type, NodeType::Folder);
    assert_eq!(node.size.as_deref(), Some("0 B"));
    assert_eq!(node.content.as_deref(), Some(""));
    assert_eq!(node.parent, None);
}

#[test]
fn create_accepts_a_parent_that_does_not_exist_or_is_itself() {
    let mut store = FsStore::new();
    let node = store.add(1, request("orphan", NodeType::File, Some(12345)));
    assert_eq!(node.parent, Some(12345));
    let node = store.add(2, request("loop", NodeType::Folder, Some(2)));
    assert_eq!(node.id, 2);
    assert_eq!(node.parent, Some(2));
}

#[test]
fn created_node_identifiers_are_pairwise_distinct() {
    let mut store = FsStore::new();
    let mut ids = Vec::new();
    for i in 0..30 {
        ids.push(store.add(100, request(&format!("f{}", i), NodeType::File, None)).id);
    }
    for i in 0..ids.len() {
        assert_eq!(ids[i], 100 + i as u128);
    }
    assert_eq!(store.add(u128::MAX, request("a", NodeType::File, None)).id, u128::MAX);
    assert_eq!(store.add(u128::MAX, request("b", NodeType::File, None)).id, 0);
    assert_eq!(store.len(), 32);
    let mut listed: Vec<u128> = list(&store).into_iter().map(|n| n.id).collect();
    listed.sort();
    listed.dedup();
    assert_eq!(listed.len(), 32);
}

#[test]
fn save_replaces_content_and_marks_modified() {
    let mut store = FsStore::seeded(1, 2, 3);
    let saved = save(&mut store, 3, UpdateFile { content: "new text".to_string() }).unwrap();
    assert_eq!(saved.id, 3);
    assert_eq!(saved.name, "package.json");
    assert_eq!(saved.content.as_deref(), Some("new text"));
    assert_eq!(saved.modified, "только что");
    assert_eq!(saved.size.as_deref(), Some("2.1 KB"));
    let pkg = by_name(&store, "package.json");
    assert_eq!(pkg.id, 3);
    assert_eq!(pkg.content.as_deref(), Some("new text"));
    assert_eq!(pkg.modified, "только что");
    assert_eq!(pkg.size.as_deref(), Some("2.1 KB"));
    assert_eq!(pkg.extension.as_deref(), Some("json"));
    assert_eq!(pkg.node_type, NodeType::File);
    assert_eq!(by_name(&store, "src").modified, "1 час назад");
    assert_eq!(store.len(), 3);
}

#[test]
fn save_gives_content_to_a_folder_too() {
    let mut store = FsStore::seeded(1, 2, 3);
    assert!(save(&mut store, 1, UpdateFile { content: "x".to_string() }).is_ok());
    let public = by_name(&store, "public");
    assert_eq!(public.content.as_deref(), Some("x"));
    assert_eq!(public.node_type, NodeType::Folder);
    assert_eq!(public.size, None);
}

#[test]
fn save_to_unknown_node_is_not_found() {
    let mut store = FsStore::seeded(1, 2, 3);
    assert_eq!(
        save(&mut store, 4, UpdateFile { content: "x".to_string() }).err(),
        Some(StoreError::NotFound)
    );
    assert_eq!(store.len(), 3);
    assert_eq!(by_name(&store, "package.json").modified, "3 дня назад");
    assert_eq!(by_name(&store, "public").content, None);
}

#[test]
fn remove_node_removes_or_reports_not_found() {
    let mut store = FsStore::seeded(1, 2, 3);
    assert_eq!(remove(&mut store, 9), Status::NotFound);
    assert_eq!(store.len(), 3);
    assert_eq!(remove(&mut store, 2), Status::NoContent);
    assert_eq!(store.len(), 2);
    assert!(list(&store).iter().all(|n| n.id != 2));
    assert_eq!(remove(&mut store, 2), Status::NotFound);
    assert_eq!(remove(&mut store, 1), Status::NoContent);
    assert_eq!(remove(&mut store, 3), Status::NoContent);
    assert!(list(&store).is_empty());
    assert_eq!(remove(&mut store, 3), Status::NotFound);
}

#[test]
fn remove_leaves_children_with_a_dangling_parent() {
    let mut store = FsStore::new();
    let dir = store.add(1, request("dir", NodeType::Folder, None));
    let file = store.add(2, request("f", NodeType::File, Some(dir.id)));
    assert_eq!(remove(&mut store, dir.id), Status::NoContent);
    let left = list(&store);
    assert_eq!(left.len(), 1);
    assert_eq!(left[0].id, file.id);
    assert_eq!(left[0].parent, Some(1));
}

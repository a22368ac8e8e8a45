use sftp_engine::remove::{classify_delete, recursive_delete_plan, DeleteAction, FsNode};

#[test]
fn recursive_delete_walks_depth_first() {
    // the tree /a/{f1, b/{f2, f3}}
    let tree = FsNode::Dir {
        name: "a".to_string(),
        children: vec![
            FsNode::File { name: "f1".to_string() },
            FsNode::Dir {
                name: "b".to_string(),
                children: vec![
                    FsNode::File { name: "f2".to_string() },
                    FsNode::File { name: "f3".to_string() },
                ],
            },
        ],
    };
    let plan = recursive_delete_plan("/a", &tree);
    let steps: Vec<(&str, bool)> = plan.iter().map(|r| (r.path.as_str(), r.is_dir)).collect();
    // f1, f2, f3, then directory b, then directory a
    assert_eq!(
        steps,
        vec![
            ("/a/f1", false),
            ("/a/b/f2", false),
            ("/a/b/f3", false),
            ("/a/b", true),
            ("/a", true),
        ]
    );
}

#[test]
fn recursive_delete_handles_deep_nesting() {
    let tree = FsNode::Dir {
        name: "d1".to_string(),
        children: vec![FsNode::Dir {
            name: "d2".to_string(),
            children: vec![FsNode::Dir {
                name: "d3".to_string(),
                children: vec![FsNode::File { name: "leaf".to_string() }],
            }],
        }],
    };
    let plan = recursive_delete_plan("/d1", &tree);
    let steps: Vec<(&str, bool)> = plan.iter().map(|r| (r.path.as_str(), r.is_dir)).collect();
    assert_eq!(
        steps,
        vec![
            ("/d1/d2/d3/leaf", false),
            ("/d1/d2/d3", true),
            ("/d1/d2", true),
            ("/d1", true),
        ]
    );
}

#[test]
fn plan_of_single_file_removes_just_it() {
    let node = FsNode::File { name: "only".to_string() };
    let plan = recursive_delete_plan("/tmp/only", &node);
    assert_eq!(plan.len(), 1);
    assert_eq!(plan[0].path, "/tmp/only".to_string());
    assert!(!plan[0].is_dir);
}

#[test]
fn non_recursive_delete_of_directory_uses_empty_dir_operation() {
    // the empty-directory operation is the one the channel refuses for a
    // non-empty directory: the failure surfaces, the contents stay
    assert_eq!(classify_delete(true, false), DeleteAction::RemoveEmptyDir);
}

#[test]
fn delete_classification_matches_stat() {
    assert_eq!(classify_delete(false, false), DeleteAction::RemoveFile);
    assert_eq!(classify_delete(false, true), DeleteAction::RemoveFile);
    assert_eq!(classify_delete(true, true), DeleteAction::RecurseIntoDir);
}

use std::collections::BTreeMap;

use bridle::error::Error;
use bridle::manager::{InstallStatus, OutsideFile, ProfileManager};
use bridle::mirror::{plan_mirror, Entry, EntryKind, MirrorPlan};
use bridle::profile_name::ProfileName;
use bridle::registry::BridleConfig;

/// A directory tree held in memory: `None` is a directory, `Some` a file
/// with its content. Paths are relative and use `/`.
type Tree = BTreeMap<String, Option<String>>;

struct World {
    harness: String,
    live: Tree,
    store: Tree,
    /// Name of the file that the harness keeps outside the live directory,
    /// where it has one, and the file's content while it is present.
    outside: Option<(String, Option<String>)>,
    config: BridleConfig,
    manager: ProfileManager,
}

fn world(harness: &str) -> World {
    World {
        harness: harness.to_string(),
        live: Tree::new(),
        store: Tree::new(),
        outside: None,
        config: BridleConfig::default(),
        manager: ProfileManager::new("profiles".to_string()),
    }
}

fn create_dir_all(tree: &mut Tree, path: &str) {
    let mut at = String::new();
    for part in path.split('/') {
        if !at.is_empty() {
            at.push('/');
        }
        at.push_str(part);
        tree.insert(at.clone(), None);
    }
}

fn write(tree: &mut Tree, path: &str, content: &str) {
    if let Some((parent, _)) = path.rsplit_once('/') {
        create_dir_all(tree, parent);
    }
    tree.insert(path.to_string(), Some(content.to_string()));
}

fn read(tree: &Tree, path: &str) -> String {
    tree.get(path).cloned().flatten().unwrap()
}

fn present(tree: &Tree, path: &str) -> bool {
    tree.contains_key(path)
}

fn list(tree: &Tree) -> Vec<Entry> {
    tree.iter()
        .map(|(path, node)| Entry {
            path: path.clone(),
            kind: if node.is_some() { EntryKind::File } else { EntryKind::Dir },
        })
        .collect()
}

fn subtree(tree: &Tree, root: &str) -> Tree {
    let prefix = format!("{}/", root);
    tree.iter()
        .filter(|(path, _)| path.starts_with(&prefix))
        .map(|(path, node)| (path[prefix.len()..].to_string(), node.clone()))
        .collect()
}

fn carry_out(plan: &MirrorPlan, src: &Tree, src_root: &str, dst: &mut Tree, dst_root: &str) {
    for dir in &plan.make_dirs {
        dst.insert(format!("{}{}", dst_root, dir), None);
    }
    for file in &plan.copy_files {
        let content = src.get(&format!("{}{}", src_root, file)).cloned().unwrap();
        dst.insert(format!("{}{}", dst_root, file), content);
    }
    for gone in &plan.remove {
        let at = format!("{}{}", dst_root, gone);
        let below = format!("{}/", at);
        dst.retain(|path, _| path != &at && !path.starts_with(&below));
    }
}

fn outside_file(w: &World) -> Option<OutsideFile> {
    w.outside
        .as_ref()
        .map(|(name, content)| OutsideFile { name: name.clone(), present: content.is_some() })
}

fn store_outside(w: &mut World, root: &str, name: &Option<String>) {
    if let Some(name) = name {
        let content = w.outside.as_ref().unwrap().1.clone().unwrap();
        w.store.insert(format!("{}{}", root, name), Some(content));
    }
}

fn create_from_current(w: &mut World, name: &ProfileName) -> Result<String, Error> {
    let capture = w.manager.create_from_current(
        &w.harness,
        name,
        &list(&w.live),
        &list(&w.store),
        outside_file(w).as_ref(),
    )?;
    create_dir_all(&mut w.store, name.as_str());
    let root = format!("{}/", name.as_str());
    carry_out(&capture.plan, &w.live, "", &mut w.store, &root);
    store_outside(w, &root, &capture.outside);
    w.config.set_active_profile(&w.harness, &capture.active);
    Ok(capture.path)
}

fn switch_profile(w: &mut World, name: &ProfileName) -> Result<(), Error> {
    let plan = w.manager.switch_profile(
        &w.harness,
        name,
        &list(&w.live),
        &list(&w.store),
        &w.config,
        outside_file(w).as_ref(),
    );
    if let Some(save) = plan.save_out {
        create_dir_all(&mut w.store, &save.profile);
        let root = format!("{}/", save.profile);
        carry_out(&save.plan, &w.live, "", &mut w.store, &root);
        store_outside(w, &root, &save.outside);
    }
    let apply = plan.apply?;
    let root = format!("{}/", name.as_str());
    let store = w.store.clone();
    carry_out(&apply.plan, &store, &root, &mut w.live, "");
    if let Some(file) = &apply.outside {
        let content = read(&w.store, &format!("{}{}", root, file));
        w.outside = Some((file.clone(), Some(content)));
    }
    for marker in &apply.marker.remove {
        let below = format!("{}/", marker);
        w.live.retain(|path, _| path != marker && !path.starts_with(&below));
    }
    w.live.insert(apply.marker.create.clone(), Some(String::new()));
    w.config.set_active_profile(&w.harness, &apply.active);
    Ok(())
}

#[test]
fn switch_profile_preserves_edits() {
    let mut w = world("test-preserves-edits");
    let profile_a = ProfileName::new("profile-a").unwrap();
    let profile_b = ProfileName::new("profile-b").unwrap();

    write(&mut w.live, "initial.txt", "initial");
    create_from_current(&mut w, &profile_a).unwrap();

    write(&mut w.live, "initial.txt", "different");
    create_from_current(&mut w, &profile_b).unwrap();

    switch_profile(&mut w, &profile_a).unwrap();
    assert_eq!(read(&w.live, "initial.txt"), "initial");

    write(&mut w.live, "edited.txt", "user edit");

    switch_profile(&mut w, &profile_b).unwrap();
    assert_eq!(read(&w.live, "initial.txt"), "different");
    assert_eq!(read(&w.store, "profile-a/edited.txt"), "user edit");

    switch_profile(&mut w, &profile_a).unwrap();

    assert!(present(&w.live, "edited.txt"), "Edit should be preserved");
    assert_eq!(read(&w.live, "edited.txt"), "user edit");
    assert_eq!(read(&w.live, "initial.txt"), "initial");
}

#[test]
fn create_from_current_copies_mcp_config() {
    let mut w = world("test-copies-mcp");
    write(&mut w.live, "config.txt", "config content");
    w.outside = Some((".mcp.json".to_string(), Some(r#"{"servers": {}}"#.to_string())));

    let profile_name = ProfileName::new("test-profile").unwrap();
    let profile_path = create_from_current(&mut w, &profile_name).unwrap();
    assert_eq!(profile_path, "profiles/test-copies-mcp/test-profile");

    assert!(present(&w.store, "test-profile/config.txt"));
    assert!(present(&w.store, "test-profile/.mcp.json"));
    assert_eq!(read(&w.store, "test-profile/.mcp.json"), r#"{"servers": {}}"#);
}

#[test]
fn switch_profile_restores_mcp_config() {
    let mut w = world("test-restores-mcp");
    write(&mut w.live, "config.txt", "config A");
    w.outside = Some((".mcp.json".to_string(), Some(r#"{"servers": {"a": true}}"#.to_string())));

    let profile_a = ProfileName::new("profile-a").unwrap();
    create_from_current(&mut w, &profile_a).unwrap();

    write(&mut w.live, "config.txt", "config B");
    w.outside = Some((".mcp.json".to_string(), Some(r#"{"servers": {"b": true}}"#.to_string())));

    let profile_b = ProfileName::new("profile-b").unwrap();
    create_from_current(&mut w, &profile_b).unwrap();

    switch_profile(&mut w, &profile_a).unwrap();

    assert_eq!(read(&w.live, "config.txt"), "config A");
    assert_eq!(
        w.outside.clone().unwrap().1.unwrap(),
        r#"{"servers": {"a": true}}"#
    );
    assert_eq!(read(&w.store, "profile-b/.mcp.json"), r#"{"servers": {"b": true}}"#);
    assert!(!present(&w.live, ".mcp.json"));
}

#[test]
fn capture_with_resources_copies_them_too() {
    let mut w = world("h");
    write(&mut w.live, "config.txt", "c");
    let mut roots = Tree::new();
    write(&mut roots, "skills/one/SKILL.md", "s");
    let name = ProfileName::new("p").unwrap();
    let capture = w
        .manager
        .create_from_current_with_resources(
            "h",
            Some(&list(&roots)),
            &name,
            &list(&w.live),
            &list(&w.store),
            None,
        )
        .unwrap();
    assert!(capture.outside.is_none());
    let extra = capture.resources.unwrap();
    assert_eq!(extra.make_dirs, vec!["skills", "skills/one"]);
    assert_eq!(extra.copy_files, vec!["skills/one/SKILL.md"]);
    assert!(extra.remove.is_empty());
    assert_eq!(capture.plan.copy_files, vec!["config.txt"]);
}

#[test]
fn outside_file_is_copied_only_where_it_is() {
    let mut w = world("h");
    write(&mut w.live, "c", "1");
    write(&mut w.live, ".mcp.json", "a live file of the same name");
    w.outside = Some((".mcp.json".to_string(), None));
    let a = ProfileName::new("a").unwrap();
    let capture = w
        .manager
        .create_from_current("h", &a, &list(&w.live), &list(&w.store), outside_file(&w).as_ref())
        .unwrap();
    assert!(capture.outside.is_none());
    assert_eq!(capture.plan.copy_files, vec!["c"]);
    create_from_current(&mut w, &a).unwrap();
    assert!(!present(&w.store, "a/.mcp.json"));

    let plan = w.manager.switch_profile(
        "h",
        &a,
        &list(&w.live),
        &list(&w.store),
        &w.config,
        outside_file(&w).as_ref(),
    );
    let apply = plan.apply.unwrap();
    assert!(apply.outside.is_none());
    assert!(apply.plan.remove.is_empty());
}

#[test]
fn switch_does_full_replace() {
    let mut w = world("test-full-replace");

    write(&mut w.live, "known.txt", "profile content");
    let profile_a = ProfileName::new("profile-a").unwrap();
    create_from_current(&mut w, &profile_a).unwrap();

    write(&mut w.live, "extra.txt", "extra data");
    create_dir_all(&mut w.live, "extra-dir");
    write(&mut w.live, "extra-dir/nested.txt", "nested");

    switch_profile(&mut w, &profile_a).unwrap();

    assert!(
        !present(&w.live, "extra.txt"),
        "Extra files should be removed on full replace"
    );
    assert!(
        !present(&w.live, "extra-dir"),
        "Extra directories should be removed on full replace"
    );
    assert!(!present(&w.live, "extra-dir/nested.txt"));
    assert!(
        present(&w.live, "known.txt"),
        "Profile content should be applied"
    );
}

#[test]
fn save_to_profile_captures_everything() {
    let mut w = world("test-save-all");

    write(&mut w.live, "config.txt", "config");
    create_dir_all(&mut w.live, "runtime-dir/nested");
    write(&mut w.live, "runtime-dir/data.txt", "runtime");
    write(&mut w.live, "runtime-dir/nested/deep.txt", "deep");

    let profile = ProfileName::new("full-backup").unwrap();
    let path = create_from_current(&mut w, &profile).unwrap();
    assert_eq!(path, "profiles/test-save-all/full-backup");

    assert!(present(&w.store, "full-backup/config.txt"));
    assert!(present(&w.store, "full-backup/runtime-dir/data.txt"));
    assert!(present(&w.store, "full-backup/runtime-dir/nested/deep.txt"));
    assert_eq!(read(&w.store, "full-backup/runtime-dir/nested/deep.txt"), "deep");
}

#[test]
fn create_from_current_captures_arbitrary_directories() {
    let mut w = world("test-captures-dirs");

    write(&mut w.live, "config.json", "{}");
    create_dir_all(&mut w.live, "custom-dir/level2/level3");
    write(&mut w.live, "custom-dir/data.txt", "custom data");
    write(&mut w.live, "custom-dir/level2/nested.txt", "nested");
    write(&mut w.live, "custom-dir/level2/level3/deep.txt", "deep");

    let profile = ProfileName::new("test-profile").unwrap();
    create_from_current(&mut w, &profile).unwrap();

    assert!(
        present(&w.store, "test-profile/custom-dir"),
        "Arbitrary directory should be captured in profile"
    );
    assert!(
        present(&w.store, "test-profile/custom-dir/data.txt"),
        "Files inside arbitrary directory should be captured"
    );
    assert!(
        present(&w.store, "test-profile/custom-dir/level2/level3/deep.txt"),
        "Deep nested files should be captured"
    );
    assert_eq!(
        read(&w.store, "test-profile/custom-dir/level2/level3/deep.txt"),
        "deep"
    );
}

#[test]
fn switch_saves_new_directories_to_old_profile() {
    let mut w = world("test-saves-new-dirs");

    write(&mut w.live, "config.json", "A");
    let profile_a = ProfileName::new("profile-a").unwrap();
    create_from_current(&mut w, &profile_a).unwrap();

    write(&mut w.live, "config.json", "B");
    let profile_b = ProfileName::new("profile-b").unwrap();
    create_from_current(&mut w, &profile_b).unwrap();

    switch_profile(&mut w, &profile_a).unwrap();

    create_dir_all(&mut w.live, "new-dir/nested");
    write(&mut w.live, "new-dir/nested/data.txt", "new data");

    switch_profile(&mut w, &profile_b).unwrap();

    assert!(
        present(&w.store, "profile-a/new-dir/nested/data.txt"),
        "New directories added while on profile-a should be saved when switching away"
    );
    assert_eq!(read(&w.store, "profile-a/new-dir/nested/data.txt"), "new data");
    assert!(!present(&w.live, "new-dir"));
}

#[test]
fn deep_nesting_survives_multiple_round_trips() {
    let mut w = world("test-deep-nesting");

    create_dir_all(&mut w.live, "a/b/c/d/e/f");
    write(&mut w.live, "a/b/c/d/e/f/deep.txt", "level 6");
    write(&mut w.live, "a/b/c/mid.txt", "level 3");
    write(&mut w.live, "a/shallow.txt", "level 1");

    let profile_a = ProfileName::new("profile-a").unwrap();
    create_from_current(&mut w, &profile_a).unwrap();

    write(&mut w.live, "config.txt", "B");
    let profile_b = ProfileName::new("profile-b").unwrap();
    create_from_current(&mut w, &profile_b).unwrap();

    for _ in 0..3 {
        switch_profile(&mut w, &profile_a).unwrap();
        switch_profile(&mut w, &profile_b).unwrap();
    }
    switch_profile(&mut w, &profile_a).unwrap();

    assert!(
        present(&w.live, "a/b/c/d/e/f/deep.txt"),
        "Deep nested file should survive multiple round trips"
    );
    assert_eq!(read(&w.live, "a/b/c/d/e/f/deep.txt"), "level 6");
    assert_eq!(read(&w.live, "a/b/c/mid.txt"), "level 3");
    assert_eq!(read(&w.live, "a/shallow.txt"), "level 1");
    assert!(!present(&w.live, "config.txt"));
}

#[test]
fn wide_directory_structure_preserved() {
    let mut w = world("test-wide-dirs");

    for i in 0..10 {
        create_dir_all(&mut w.live, &format!("dir-{}/sub", i));
        write(&mut w.live, &format!("dir-{}/file.txt", i), &format!("data-{}", i));
        write(
            &mut w.live,
            &format!("dir-{}/sub/nested.txt", i),
            &format!("nested-{}", i),
        );
    }

    let profile_a = ProfileName::new("profile-a").unwrap();
    create_from_current(&mut w, &profile_a).unwrap();

    write(&mut w.live, "other.txt", "other");
    let profile_b = ProfileName::new("profile-b").unwrap();
    create_from_current(&mut w, &profile_b).unwrap();

    switch_profile(&mut w, &profile_b).unwrap();
    switch_profile(&mut w, &profile_a).unwrap();

    for i in 0..10 {
        assert!(
            present(&w.live, &format!("dir-{}/file.txt", i)),
            "dir-{}/file.txt should exist after round trip",
            i
        );
        assert_eq!(
            read(&w.live, &format!("dir-{}/file.txt", i)),
            format!("data-{}", i)
        );
        assert!(
            present(&w.live, &format!("dir-{}/sub/nested.txt", i)),
            "dir-{}/sub/nested.txt should exist after round trip",
            i
        );
        assert_eq!(
            read(&w.live, &format!("dir-{}/sub/nested.txt", i)),
            format!("nested-{}", i)
        );
    }
    assert!(!present(&w.live, "other.txt"));
}

#[test]
fn mirror_twice_gives_the_same_destination() {
    let mut src = Tree::new();
    write(&mut src, "a/one.txt", "1");
    write(&mut src, "two.txt", "2");
    let mut dst = Tree::new();
    write(&mut dst, "a/stale.txt", "x");
    write(&mut dst, "two.txt", "old");
    write(&mut dst, "gone/deep/file", "y");

    let first = plan_mirror(&list(&src), &list(&dst), &Vec::new());
    assert_eq!(first.make_dirs, vec!["a"]);
    assert_eq!(first.copy_files, vec!["a/one.txt", "two.txt"]);
    assert_eq!(
        first.remove,
        vec!["a/stale.txt", "gone", "gone/deep", "gone/deep/file"]
    );
    carry_out(&first, &src, "", &mut dst, "");
    assert_eq!(dst, src);

    let once = dst.clone();
    let second = plan_mirror(&list(&src), &list(&dst), &Vec::new());
    assert!(second.remove.is_empty());
    carry_out(&second, &src, "", &mut dst, "");
    assert_eq!(dst, once);
}

#[test]
fn mirror_removes_what_the_source_lacks() {
    let mut src = Tree::new();
    write(&mut src, "keep.txt", "k");
    let mut dst = Tree::new();
    write(&mut dst, "keep.txt", "old");
    write(&mut dst, "extra.txt", "e");
    write(&mut dst, "dir/inner.txt", "i");
    let plan = plan_mirror(&list(&src), &list(&dst), &Vec::new());
    carry_out(&plan, &src, "", &mut dst, "");
    assert!(!present(&dst, "extra.txt"));
    assert!(!present(&dst, "dir"));
    assert!(!present(&dst, "dir/inner.txt"));
    assert_eq!(read(&dst, "keep.txt"), "k");
}

#[test]
fn mirror_spares_excluded_entries_on_both_sides() {
    let mut src = Tree::new();
    write(&mut src, "secret/file", "s");
    write(&mut src, "plain", "p");
    let mut dst = Tree::new();
    write(&mut dst, "secret/other", "o");
    write(&mut dst, "kept", "k");
    let ex = vec!["secret".to_string(), "kept".to_string()];
    let plan = plan_mirror(&list(&src), &list(&dst), &ex);
    assert!(plan.make_dirs.is_empty());
    assert_eq!(plan.copy_files, vec!["plain"]);
    assert!(plan.remove.is_empty());
    carry_out(&plan, &src, "", &mut dst, "");
    assert_eq!(read(&dst, "secret/other"), "o");
    assert!(!present(&dst, "secret/file"));
    assert_eq!(read(&dst, "kept"), "k");
    assert_eq!(read(&dst, "plain"), "p");
}

#[test]
fn mirror_of_empty_trees_plans_nothing() {
    let plan = plan_mirror(&Vec::new(), &Vec::new(), &Vec::new());
    assert!(plan.make_dirs.is_empty());
    assert!(plan.copy_files.is_empty());
    assert!(plan.remove.is_empty());
}

#[test]
fn switch_to_missing_profile_changes_nothing_live() {
    let mut w = world("h");
    write(&mut w.live, "config.txt", "A");
    let a = ProfileName::new("a").unwrap();
    create_from_current(&mut w, &a).unwrap();
    switch_profile(&mut w, &a).unwrap();
    write(&mut w.live, "edit.txt", "e");
    let live_before = w.live.clone();

    let ghost = ProfileName::new("ghost").unwrap();
    let plan = w.manager.switch_profile(
        &w.harness,
        &ghost,
        &list(&w.live),
        &list(&w.store),
        &w.config,
        None,
    );
    match &plan.apply {
        Err(Error::ProfileNotFound(name)) => assert_eq!(name, "ghost"),
        other => panic!("unexpected: {:?}", other),
    }
    let save = plan.save_out.unwrap();
    assert_eq!(save.profile, "a");
    assert_eq!(save.path, "profiles/h/a");
    assert_eq!(save.plan.copy_files, vec!["config.txt", "edit.txt"]);

    assert!(matches!(
        switch_profile(&mut w, &ghost),
        Err(Error::ProfileNotFound(_))
    ));
    assert_eq!(w.live, live_before);
    assert!(present(&w.live, "BRIDLE_PROFILE_a"));
    assert_eq!(w.config.active_profile_for("h"), Some("a"));
}

#[test]
fn switch_writes_one_marker_and_the_registry() {
    let mut w = world("h");
    write(&mut w.live, "f", "1");
    let a = ProfileName::new("a").unwrap();
    let b = ProfileName::new("b").unwrap();
    create_from_current(&mut w, &a).unwrap();
    create_from_current(&mut w, &b).unwrap();
    switch_profile(&mut w, &a).unwrap();
    assert!(present(&w.live, "BRIDLE_PROFILE_a"));
    assert_eq!(read(&w.live, "BRIDLE_PROFILE_a"), "");
    switch_profile(&mut w, &b).unwrap();
    assert!(!present(&w.live, "BRIDLE_PROFILE_a"));
    assert!(present(&w.live, "BRIDLE_PROFILE_b"));
    assert!(!present(&w.store, "a/BRIDLE_PROFILE_a"));
    assert!(!present(&w.store, "b/BRIDLE_PROFILE_a"));
    assert_eq!(w.config.active_profile_for("h"), Some("b"));
    assert_eq!(subtree(&w.store, "a").len(), 1);
}

#[test]
fn marker_wins_over_registry() {
    let mut w = world("h");
    write(&mut w.live, "f", "1");
    let a = ProfileName::new("a").unwrap();
    let b = ProfileName::new("b").unwrap();
    let c = ProfileName::new("c").unwrap();
    create_from_current(&mut w, &a).unwrap();
    create_from_current(&mut w, &b).unwrap();
    create_from_current(&mut w, &c).unwrap();
    switch_profile(&mut w, &a).unwrap();
    w.config.set_active_profile("h", "b");
    write(&mut w.live, "new", "n");
    switch_profile(&mut w, &c).unwrap();
    assert_eq!(read(&w.store, "a/new"), "n");
    assert!(!present(&w.store, "b/new"));
}

#[test]
fn switch_to_bound_profile_saves_nothing() {
    let mut w = world("h");
    write(&mut w.live, "f", "1");
    let a = ProfileName::new("a").unwrap();
    create_from_current(&mut w, &a).unwrap();
    let plan = w.manager.switch_profile("h", &a, &list(&w.live), &list(&w.store), &w.config, None);
    assert!(plan.apply.as_ref().unwrap().outside.is_none());
    assert!(plan.save_out.is_none());
    let apply = plan.apply.unwrap();
    assert_eq!(apply.source, "profiles/h/a");
    assert_eq!(apply.active, "a");
    assert_eq!(apply.marker.create, "BRIDLE_PROFILE_a");
    assert!(apply.marker.remove.is_empty());
}

#[test]
fn create_profile_refuses_an_existing_name() {
    let mut w = world("h");
    let a = ProfileName::new("a").unwrap();
    let path = w.manager.create_profile("h", &a, &list(&w.store)).unwrap();
    assert_eq!(path, "profiles/h/a");
    create_dir_all(&mut w.store, "a");
    match w.manager.create_profile("h", &a, &list(&w.store)) {
        Err(Error::ProfileExists(name)) => assert_eq!(name, "a"),
        other => panic!("unexpected: {:?}", other),
    }
    match w.manager.create_from_current("h", &a, &list(&w.live), &list(&w.store), None) {
        Err(Error::ProfileExists(name)) => assert_eq!(name, "a"),
        other => panic!("unexpected: {:?}", other),
    }
}

#[test]
fn delete_profile_needs_a_stored_profile() {
    let mut w = world("h");
    let a = ProfileName::new("a").unwrap();
    match w.manager.delete_profile("h", &a, &list(&w.store)) {
        Err(Error::ProfileNotFound(name)) => assert_eq!(name, "a"),
        other => panic!("unexpected: {:?}", other),
    }
    create_dir_all(&mut w.store, "a");
    assert_eq!(
        w.manager.delete_profile("h", &a, &list(&w.store)).unwrap(),
        "profiles/h/a"
    );
}

#[test]
fn profile_path_and_existence() {
    let mut w = world("h");
    let a = ProfileName::new("work").unwrap();
    assert_eq!(w.manager.profiles_dir(), "profiles");
    assert_eq!(w.manager.profile_path("opencode", &a), "profiles/opencode/work");
    assert!(!w.manager.profile_exists(&list(&w.store), &a));
    write(&mut w.store, "work", "a file, not a directory");
    assert!(!w.manager.profile_exists(&list(&w.store), &a));
    w.store.clear();
    create_dir_all(&mut w.store, "work");
    assert!(w.manager.profile_exists(&list(&w.store), &a));
}

#[test]
fn list_profiles_sorts_and_filters() {
    let mut w = world("h");
    create_dir_all(&mut w.store, "work/sub");
    create_dir_all(&mut w.store, "default");
    create_dir_all(&mut w.store, "Zeta");
    create_dir_all(&mut w.store, "bad:name");
    write(&mut w.store, "notes.txt", "a file");
    write(&mut w.store, "alpha/config", "c");
    let names: Vec<String> = w
        .manager
        .list_profiles(&list(&w.store))
        .iter()
        .map(|n| n.as_str().to_string())
        .collect();
    assert_eq!(names, vec!["Zeta", "alpha", "default", "work"]);
    assert!(w.manager.list_profiles(&Vec::new()).is_empty());
}

#[test]
fn default_profile_is_made_only_when_missing_and_installed() {
    let mut w = world("h");
    write(&mut w.live, "c", "1");
    let installed = InstallStatus::FullyInstalled {
        binary_path: "/bin/mock".to_string(),
        config_path: "live".to_string(),
    };
    let partial = InstallStatus::ConfigOnly { config_path: "live".to_string() };
    assert!(w
        .manager
        .create_from_current_if_missing("h", &InstallStatus::NotInstalled, &list(&w.live), &list(&w.store), None)
        .unwrap()
        .is_none());
    assert!(w
        .manager
        .create_from_current_if_missing("h", &partial, &list(&w.live), &list(&w.store), None)
        .unwrap()
        .is_none());
    let capture = w
        .manager
        .create_from_current_if_missing("h", &installed, &list(&w.live), &list(&w.store), None)
        .unwrap()
        .unwrap();
    assert_eq!(capture.path, "profiles/h/default");
    assert_eq!(capture.active, "default");
    assert_eq!(capture.plan.copy_files, vec!["c"]);
    assert!(capture.resources.is_none());
    create_dir_all(&mut w.store, "default");
    assert!(w
        .manager
        .create_from_current_if_missing("h", &installed, &list(&w.live), &list(&w.store), None)
        .unwrap()
        .is_none());
}

#[test]
fn wide_directory_structure_survives_three_round_trips() {
    let mut w = world("test-wide-dirs");
    for i in 0..10 {
        write(&mut w.live, &format!("dir-{}/file.txt", i), &format!("data-{}", i));
        write(
            &mut w.live,
            &format!("dir-{}/sub/nested.txt", i),
            &format!("nested-{}", i),
        );
    }
    let profile_a = ProfileName::new("profile-a").unwrap();
    create_from_current(&mut w, &profile_a).unwrap();
    let captured = w.live.clone();
    write(&mut w.live, "other.txt", "other");
    let profile_b = ProfileName::new("profile-b").unwrap();
    create_from_current(&mut w, &profile_b).unwrap();

    for _ in 0..3 {
        switch_profile(&mut w, &profile_b).unwrap();
        assert_eq!(read(&w.live, "other.txt"), "other");
        switch_profile(&mut w, &profile_a).unwrap();
        assert!(!present(&w.live, "other.txt"));
    }
    let mut expected = captured;
    expected.insert("BRIDLE_PROFILE_profile-a".to_string(), Some(String::new()));
    assert_eq!(w.live, expected);
    assert_eq!(subtree(&w.store, "profile-a").len(), 40);
}

#[test]
fn switch_removes_every_entry_with_the_marker_prefix() {
    let mut w = world("h");
    write(&mut w.live, "config.txt", "1");
    let a = ProfileName::new("a").unwrap();
    let b = ProfileName::new("b").unwrap();
    create_from_current(&mut w, &a).unwrap();
    create_from_current(&mut w, &b).unwrap();
    switch_profile(&mut w, &a).unwrap();

    write(&mut w.live, "BRIDLE_PROFILE_stray/inner.txt", "x");
    write(&mut w.live, "edit.txt", "e");
    let plan = w.manager.switch_profile("h", &b, &list(&w.live), &list(&w.store), &w.config, None);
    let save = plan.save_out.unwrap();
    assert_eq!(save.profile, "a");
    assert_eq!(save.plan.copy_files, vec!["config.txt", "edit.txt"]);
    let apply = plan.apply.unwrap();
    assert_eq!(apply.marker.remove, vec!["BRIDLE_PROFILE_a", "BRIDLE_PROFILE_stray"]);

    switch_profile(&mut w, &b).unwrap();
    let left: Vec<&String> = w
        .live
        .keys()
        .filter(|path| path.starts_with("BRIDLE_PROFILE_"))
        .collect();
    assert_eq!(left, vec!["BRIDLE_PROFILE_b"]);
    assert!(!present(&w.store, "a/BRIDLE_PROFILE_stray"));
    assert!(!present(&w.store, "a/BRIDLE_PROFILE_stray/inner.txt"));
    assert_eq!(read(&w.store, "a/edit.txt"), "e");
    assert_eq!(read(&w.live, "config.txt"), "1");
}

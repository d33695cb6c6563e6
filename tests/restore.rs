use file_guard::{config_path_arg, initialize_cache, plan_batch, plan_event, SnapshotStore};

fn s(x: &str) -> String {
    x.to_string()
}

fn store_with(pairs: &[(&str, Option<&str>)]) -> SnapshotStore {
    let mut store = SnapshotStore::new();
    for (p, c) in pairs {
        initialize_cache(&mut store, &s(p), c.map(s));
    }
    store
}

#[test]
fn empty_store_has_nothing() {
    let store = SnapshotStore::new();
    assert_eq!(store.len(), 0);
    assert!(!store.contains(&s("/etc/passwd")));
    assert!(store.get(&s("/etc/passwd")).is_none());
}

#[test]
fn captured_baseline_is_stored() {
    let mut store = SnapshotStore::new();
    let out = initialize_cache(&mut store, &s("/srv/a.conf"), Some(s("key=1\n")));
    assert!(out.captured);
    assert_eq!(out.watch_path, "/srv/a.conf");
    assert_eq!(store.len(), 1);
    assert_eq!(store.get(&s("/srv/a.conf")), Some(&s("key=1\n")));
}

#[test]
fn unreadable_path_is_watched_but_not_stored() {
    let mut store = SnapshotStore::new();
    let out = initialize_cache(&mut store, &s("/missing"), None);
    assert!(!out.captured);
    assert_eq!(out.watch_path, "/missing");
    assert_eq!(store.len(), 0);
    assert!(!store.contains(&s("/missing")));
}

#[test]
fn duplicate_path_keeps_one_entry() {
    let store = store_with(&[("/a", Some("one")), ("/a", Some("two"))]);
    assert_eq!(store.len(), 1);
    assert_eq!(store.get(&s("/a")), Some(&s("two")));
}

#[test]
fn several_paths_are_kept_apart() {
    let store = store_with(&[("/a", Some("A")), ("/b", None), ("/c", Some(""))]);
    assert_eq!(store.len(), 2);
    assert_eq!(store.get(&s("/a")), Some(&s("A")));
    assert_eq!(store.get(&s("/c")), Some(&s("")));
    assert!(!store.contains(&s("/b")));
}

#[test]
fn change_to_baselined_path_writes_baseline() {
    let store = store_with(&[("/a", Some("first content"))]);
    let plan = plan_event(&store, Some(s("/a"))).unwrap();
    assert_eq!(plan.path, "/a");
    assert_eq!(plan.write_back, Some(s("first content")));
}

#[test]
fn change_without_baseline_writes_nothing() {
    let store = store_with(&[("/a", Some("first content")), ("/b", None)]);
    let plan = plan_event(&store, Some(s("/b"))).unwrap();
    assert_eq!(plan.path, "/b");
    assert_eq!(plan.write_back, None);
}

#[test]
fn unresolvable_event_path_is_skipped() {
    let store = store_with(&[("/a", Some("first content"))]);
    assert!(plan_event(&store, None).is_none());
}

#[test]
fn batch_is_planned_in_delivery_order() {
    let store = store_with(&[("/a", Some("A")), ("/b", Some("B"))]);
    let plans = plan_batch(&store, &vec![Some(s("/b")), None, Some(s("/x")), Some(s("/a"))]);
    assert_eq!(plans.len(), 4);
    let p0 = plans[0].as_ref().unwrap();
    assert_eq!((p0.path.as_str(), p0.write_back.as_deref()), ("/b", Some("B")));
    assert!(plans[1].is_none());
    let p2 = plans[2].as_ref().unwrap();
    assert_eq!((p2.path.as_str(), p2.write_back.as_deref()), ("/x", None));
    let p3 = plans[3].as_ref().unwrap();
    assert_eq!((p3.path.as_str(), p3.write_back.as_deref()), ("/a", Some("A")));
}

#[test]
fn empty_batch_gives_no_plans() {
    let store = store_with(&[("/a", Some("A"))]);
    assert!(plan_batch(&store, &Vec::new()).is_empty());
}

// A small in-memory filesystem that carries out plans as the daemon does.
fn carry_out(files: &mut Vec<(String, String)>, watched: &mut Vec<String>, plan: &file_guard::RestorePlan) {
    if let Some(c) = &plan.write_back {
        match files.iter_mut().find(|(p, _)| *p == plan.path) {
            Some(entry) => entry.1 = c.clone(),
            None => files.push((plan.path.clone(), c.clone())),
        }
    }
    if !watched.contains(&plan.path) {
        watched.push(plan.path.clone());
    }
}

fn content<'a>(files: &'a [(String, String)], path: &str) -> Option<&'a str> {
    files.iter().find(|(p, _)| p == path).map(|(_, c)| c.as_str())
}

#[test]
fn modified_file_is_restored() {
    let store = store_with(&[("/a", Some("baseline"))]);
    let mut files = vec![(s("/a"), s("tampered"))];
    let mut watched = vec![s("/a")];
    let plan = plan_event(&store, Some(s("/a"))).unwrap();
    carry_out(&mut files, &mut watched, &plan);
    assert_eq!(content(&files, "/a"), Some("baseline"));
}

#[test]
fn restoring_unchanged_file_keeps_content() {
    let store = store_with(&[("/a", Some("baseline"))]);
    let mut files = vec![(s("/a"), s("baseline"))];
    let mut watched = vec![s("/a")];
    let before = files.clone();
    for _ in 0..2 {
        let plan = plan_event(&store, Some(s("/a"))).unwrap();
        carry_out(&mut files, &mut watched, &plan);
    }
    assert_eq!(files, before);
}

#[test]
fn path_without_baseline_is_not_written() {
    let store = store_with(&[("/b", None)]);
    let mut files = vec![(s("/b"), s("new content"))];
    let mut watched = vec![s("/b")];
    let plan = plan_event(&store, Some(s("/b"))).unwrap();
    carry_out(&mut files, &mut watched, &plan);
    assert_eq!(files, vec![(s("/b"), s("new content"))]);
    assert_eq!(watched, vec![s("/b")]);
}

#[test]
fn deleted_and_recreated_file_stays_protected() {
    let store = store_with(&[("/a", Some("baseline"))]);
    let mut files: Vec<(String, String)> = Vec::new();
    let mut watched = vec![s("/a")];
    // deleted, then created again with other content, reported as one batch
    files.push((s("/a"), s("impostor")));
    for plan in plan_batch(&store, &vec![Some(s("/a")), Some(s("/a"))]) {
        carry_out(&mut files, &mut watched, &plan.unwrap());
    }
    assert_eq!(content(&files, "/a"), Some("baseline"));
    assert!(watched.contains(&s("/a")));
    // a later modification of the recreated file
    files[0].1 = s("again");
    let plan = plan_event(&store, Some(s("/a"))).unwrap();
    carry_out(&mut files, &mut watched, &plan);
    assert_eq!(content(&files, "/a"), Some("baseline"));
}

#[test]
fn deleted_file_is_written_back() {
    let store = store_with(&[("/a", Some("baseline"))]);
    let mut files: Vec<(String, String)> = Vec::new();
    let mut watched = Vec::new();
    let plan = plan_event(&store, Some(s("/a"))).unwrap();
    carry_out(&mut files, &mut watched, &plan);
    assert_eq!(content(&files, "/a"), Some("baseline"));
    assert_eq!(watched, vec![s("/a")]);
}

#[test]
fn no_arguments_gives_no_config_path() {
    assert_eq!(config_path_arg(&vec![s("file_guard")]), None);
    assert_eq!(config_path_arg(&Vec::new()), None);
}

#[test]
fn first_argument_is_config_path() {
    assert_eq!(config_path_arg(&vec![s("prog"), s("cfg.json")]), Some(s("cfg.json")));
    assert_eq!(config_path_arg(&vec![s("prog"), s("a.json"), s("b.json")]), Some(s("a.json")));
}

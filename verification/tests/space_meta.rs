use shanti::space_meta::{Remembered, SpaceMeta, SpaceRecord};

/// What a file written from `meta` holds.
fn written(meta: &SpaceMeta) -> Vec<Remembered> {
    meta.entries
        .iter()
        .map(|entry| Remembered {
            path: entry.path.clone(),
            record: SpaceRecord {
                pr: entry.record.pr.clone(),
            },
        })
        .collect()
}

#[test]
fn what_is_remembered_survives_a_reload() {
    let mut meta = SpaceMeta::load("/state/spaces.toml".to_string(), None);
    meta.remember_pr(
        "/w/feature",
        "https://github.com/o/r/pull/7".to_string(),
    );

    let reloaded = SpaceMeta::load("/state/spaces.toml".to_string(), Some(written(&meta)));
    assert_eq!(
        reloaded.pr_of("/w/feature").as_deref(),
        Some("https://github.com/o/r/pull/7")
    );
    assert_eq!(reloaded.pr_of("/elsewhere"), None);
}

#[test]
fn an_unreadable_file_is_an_empty_memory() {
    assert_eq!(
        SpaceMeta::load("/state/spaces.toml".to_string(), None).pr_of("/x"),
        None
    );
}

#[test]
fn an_entry_whose_space_is_gone_is_dropped_on_the_next_write() {
    let mut meta = SpaceMeta::load("/state/spaces.toml".to_string(), None);
    meta.remember_pr("/w/dead", "https://github.com/o/r/pull/1".to_string());
    meta.remember_pr("/w/alive", "https://github.com/o/r/pull/2".to_string());
    let alive: Vec<bool> = meta.entries.iter().map(|e| e.path == "/w/alive").collect();
    meta.forget_missing(&alive);

    let reloaded = SpaceMeta::load("/state/spaces.toml".to_string(), Some(written(&meta)));
    assert_eq!(reloaded.pr_of("/w/dead"), None);
    assert!(reloaded.pr_of("/w/alive").is_some());
}

#[test]
fn an_in_memory_store_writes_nothing() {
    let mut meta = SpaceMeta::in_memory();
    meta.remember_pr("/w/feature", "https://github.com/o/r/pull/3".to_string());
    assert_eq!(
        meta.pr_of("/w/feature").as_deref(),
        Some("https://github.com/o/r/pull/3")
    );
    assert_eq!(meta.file(), None);
}

#[test]
fn remembering_again_replaces_what_was_remembered() {
    let mut meta = SpaceMeta::in_memory();
    meta.remember_pr("/w/a", "one".to_string());
    meta.remember_pr("/w/b", "two".to_string());
    meta.remember_pr("/w/a", "three".to_string());
    assert_eq!(meta.pr_of("/w/a").as_deref(), Some("three"));
    assert_eq!(meta.pr_of("/w/b").as_deref(), Some("two"));
    assert_eq!(meta.entries.len(), 2);
    assert_eq!(meta.entries[0].path, "/w/a");
    assert_eq!(meta.entries[0].record.pr.as_deref(), Some("three"));
    assert_eq!(meta.entries[1].path, "/w/b");
}

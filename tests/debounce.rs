use kubewatch::{FileState, FileStateManager};

const MS: u128 = 1_000_000;

#[test]
fn test_first_file_detection() {
    let path = "/tmp/test.txt".to_string();
    let mut manager = FileStateManager::new(None);
    assert!(manager.check_changed(&path, 1_000, 0));
}

#[test]
fn test_unchanged_file() {
    let path = "/tmp/test.txt".to_string();
    let mut manager = FileStateManager::new(None);
    assert!(manager.check_changed(&path, 1_000, 0));
    assert!(!manager.check_changed(&path, 1_000, 10 * MS));
}

#[test]
fn test_debounce() {
    let path = "/tmp/test.txt".to_string();
    let mut manager = FileStateManager::new(Some(100));

    // First change is always detected
    assert!(manager.check_changed(&path, 1_000, 0));

    // Updated content right away: within the window
    assert!(!manager.check_changed(&path, 2_000, MS));

    // Updated again after 150 ms: past the window
    assert!(manager.check_changed(&path, 3_000, 150 * MS));
}

#[test]
fn first_sight_is_actionable_whatever_the_window() {
    for window in [None, Some(0), Some(100), Some(u64::MAX)] {
        let mut manager = FileStateManager::new(window);
        let path = "a.yaml".to_string();
        assert!(manager.check_changed(&path, -5, 0));
        assert_eq!(
            manager.state_of(&path),
            Some(FileState { last_modified: -5, last_processed: 0 })
        );
    }
}

#[test]
fn refused_change_leaves_the_record() {
    let path = "dev-app.yaml".to_string();
    let mut manager = FileStateManager::new(Some(100));
    assert!(manager.check_changed(&path, 10, 0));
    assert!(!manager.check_changed(&path, 20, 50 * MS));
    assert_eq!(
        manager.state_of(&path),
        Some(FileState { last_modified: 10, last_processed: 0 })
    );
    // the window counts from the accepted change, not the refused one
    assert!(manager.check_changed(&path, 20, 101 * MS));
    assert_eq!(
        manager.state_of(&path),
        Some(FileState { last_modified: 20, last_processed: 101 * MS })
    );
}

#[test]
fn window_must_be_strictly_exceeded() {
    let path = "dev-app.yaml".to_string();
    let mut manager = FileStateManager::new(Some(100));
    assert!(manager.check_changed(&path, 10, 0));
    assert!(!manager.check_changed(&path, 11, 100 * MS));
    assert!(manager.check_changed(&path, 11, 100 * MS + 1));
}

#[test]
fn unchanged_timestamp_after_window_is_refused() {
    let path = "dev-app.yaml".to_string();
    let mut manager = FileStateManager::new(Some(100));
    assert!(manager.check_changed(&path, 10, 0));
    assert!(!manager.check_changed(&path, 10, 500 * MS));
    assert!(!manager.check_changed(&path, 9, 900 * MS));
    assert!(manager.check_changed(&path, 11, 900 * MS));
}

#[test]
fn paths_are_tracked_apart() {
    let a = "a.yaml".to_string();
    let b = "b.yaml".to_string();
    let mut manager = FileStateManager::default();
    assert!(manager.check_changed(&a, 1, 0));
    assert!(manager.check_changed(&b, 1, 0));
    assert!(!manager.check_changed(&a, 1, 0));
    assert_eq!(manager.state_of(&"c.yaml".to_string()), None);
}

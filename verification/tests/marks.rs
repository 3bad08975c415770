use ksud::process_mark::ProcessMarkRegistry;

#[test]
fn mark_all_then_count_matches_process_table() {
    let mut m = ProcessMarkRegistry::new();
    let running = vec![1, 42, 999, 1000];
    m.mark_all(&running);
    assert_eq!(m.count(), 4);
    for pid in running {
        assert!(m.is_marked(pid));
    }
}

#[test]
fn mark_is_idempotent() {
    let mut m = ProcessMarkRegistry::new();
    m.mark_one(7);
    m.mark_one(7);
    assert_eq!(m.count(), 1);
}

#[test]
fn unmark_of_unmarked_pid_is_noop_success() {
    let mut m = ProcessMarkRegistry::new();
    m.mark_one(7);
    m.unmark_one(8);
    assert_eq!(m.count(), 1);
    assert!(m.is_marked(7));
    assert!(!m.is_marked(8));
}

#[test]
fn unmark_all_empties_registry() {
    let mut m = ProcessMarkRegistry::new();
    m.mark_all(&vec![1, 2, 3]);
    m.unmark_all();
    assert_eq!(m.count(), 0);
}

#[test]
fn refresh_rederives_the_whole_set() {
    let mut m = ProcessMarkRegistry::new();
    m.mark_all(&vec![1, 2, 3]);
    m.refresh(&vec![2, 5]);
    assert_eq!(m.count(), 2);
    assert!(!m.is_marked(1));
    assert!(m.is_marked(2));
    assert!(m.is_marked(5));
}

#[test]
fn wildcard_pid_zero_is_never_stored() {
    let mut m = ProcessMarkRegistry::new();
    m.mark_all(&vec![0, 4]);
    assert_eq!(m.count(), 1);
    assert!(!m.is_marked(0));
    assert!(m.is_marked(4));
}

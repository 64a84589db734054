use wgpu_app::windows::WindowSet;

fn set_of(entries: &[(u64, &'static str)]) -> WindowSet<&'static str> {
    let mut s = WindowSet::new();
    for &(id, w) in entries {
        s.push(id, w);
    }
    s
}

fn contents(s: &WindowSet<&'static str>) -> Vec<(u64, &'static str)> {
    (0..s.len()).map(|i| (s.id_at(i), *s.get(i))).collect()
}

#[test]
fn close_removes_the_window_and_keeps_the_rest_in_order() {
    let mut s = set_of(&[(1, "a"), (2, "b"), (3, "c")]);
    assert!(!s.close(2));
    assert_eq!(contents(&s), vec![(1, "a"), (3, "c")]);
}

#[test]
fn closing_the_last_window_says_so() {
    let mut s = set_of(&[(7, "only")]);
    assert!(s.close(7));
    assert!(s.is_empty());
    assert_eq!(s.len(), 0);
}

#[test]
fn close_removes_every_window_with_the_id() {
    let mut s = set_of(&[(4, "x"), (5, "y"), (4, "z")]);
    assert!(!s.close(4));
    assert_eq!(contents(&s), vec![(5, "y")]);
}

#[test]
fn closing_an_absent_window_changes_nothing() {
    let mut s = set_of(&[(1, "a"), (2, "b")]);
    assert!(!s.close(9));
    assert_eq!(contents(&s), vec![(1, "a"), (2, "b")]);
}

#[test]
fn closing_twice_is_closing_once() {
    let mut s = set_of(&[(1, "a"), (2, "b"), (1, "c")]);
    s.close(1);
    let once = contents(&s);
    s.close(1);
    assert_eq!(contents(&s), once);
}

#[test]
fn closing_on_an_empty_set_leaves_it_empty() {
    let mut s: WindowSet<&'static str> = WindowSet::new();
    assert!(s.close(3));
}

#[test]
fn position_finds_the_first_window_with_the_id() {
    let s = set_of(&[(1, "a"), (2, "b"), (2, "c")]);
    assert_eq!(s.position(2), Some(1));
    assert_eq!(s.position(1), Some(0));
    assert_eq!(s.position(3), None);
}

#[test]
fn get_mut_changes_only_that_window() {
    let mut s = set_of(&[(1, "a"), (2, "b")]);
    *s.get_mut(1) = "changed";
    assert_eq!(contents(&s), vec![(1, "a"), (2, "changed")]);
}

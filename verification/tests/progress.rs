use hotspots::progress::Progress;

#[test]
fn a_new_bar_has_its_length() {
    let bar = Progress::new(7);
    assert_eq!(bar.length(), Some(7));
    assert_eq!(bar.position(), 0);
    let hidden = Progress::hidden();
    assert_eq!(hidden.length(), None);
    assert_eq!(hidden.position(), 0);
}

#[test]
fn a_length_grows_and_is_set() {
    let mut bar = Progress::new(1);
    bar.inc_length(4);
    assert_eq!(bar.length(), Some(5));
    bar.set_length(2);
    assert_eq!(bar.length(), Some(2));
    bar.inc_length(0);
    assert_eq!(bar.length(), Some(2));
    assert_eq!(bar.position(), 0);
}

#[test]
fn a_length_stops_at_the_largest_number() {
    let mut bar = Progress::new(u64::MAX - 1);
    bar.inc_length(5);
    assert_eq!(bar.length(), Some(u64::MAX));
    bar.inc_length(u64::MAX);
    assert_eq!(bar.length(), Some(u64::MAX));
}

#[test]
fn a_bar_without_a_length_keeps_none() {
    let mut bar = Progress::hidden();
    bar.inc_length(3);
    assert_eq!(bar.length(), None);
    bar.set_length(3);
    assert_eq!(bar.length(), Some(3));
}

#[test]
fn done_rows_are_counted() {
    let mut bar = Progress::new(3);
    bar.inc(1);
    bar.inc(2);
    assert_eq!(bar.position(), 3);
    assert_eq!(bar.length(), Some(3));
    bar.inc(u64::MAX);
    assert_eq!(bar.position(), 2);
}

use coupler::dirty::DirtySet;

#[test]
fn new_set_is_empty() {
    let mut set = DirtySet::new(8);
    assert_eq!(set.len(), 8);
    assert_eq!(set.drain(), Vec::<usize>::new());
}

#[test]
fn marked_indices_drain_in_order() {
    let mut set = DirtySet::new(8);
    set.mark(5);
    set.mark(1);
    set.mark(3);
    assert_eq!(set.drain(), vec![1, 3, 5]);
}

#[test]
fn mark_is_idempotent() {
    let mut set = DirtySet::new(4);
    set.mark(2);
    set.mark(2);
    set.mark(2);
    assert_eq!(set.drain(), vec![2]);
}

#[test]
fn drain_clears_the_set() {
    let mut set = DirtySet::new(4);
    set.mark(0);
    set.mark(3);
    assert_eq!(set.drain(), vec![0, 3]);
    assert_eq!(set.drain(), Vec::<usize>::new());
}

#[test]
fn mark_all_marks_every_index() {
    let mut set = DirtySet::new(5);
    set.mark_all();
    assert_eq!(set.drain(), vec![0, 1, 2, 3, 4]);
}

#[test]
fn mark_between_drains_is_neither_lost_nor_doubled() {
    // One index is consumed by a first drain while another is marked
    // in between: each mark is delivered exactly once over the two drains,
    // whichever drain it lands in.
    let mut set = DirtySet::new(4);
    set.mark(1);
    set.mark(2);
    let first = set.drain();
    set.mark(2);
    let second = set.drain();
    assert_eq!(first, vec![1, 2]);
    assert_eq!(second, vec![2]);

    let mut set = DirtySet::new(4);
    set.mark(1);
    let first = set.drain();
    set.mark(2);
    let second = set.drain();
    assert_eq!(first, vec![1]);
    assert_eq!(second, vec![2]);
}

#[test]
fn zero_length_set_drains_empty() {
    let mut set = DirtySet::new(0);
    assert_eq!(set.len(), 0);
    assert_eq!(set.drain(), Vec::<usize>::new());
}

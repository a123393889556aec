use iyes_bevy_extras::access::{AccessDescriptor, AccessMode};

fn descriptor(reads: &[usize], writes: &[usize]) -> AccessDescriptor {
    let mut d = AccessDescriptor::new();
    for c in reads {
        d.add_read(*c);
    }
    for c in writes {
        d.add_write(*c);
    }
    d
}

fn content(d: &AccessDescriptor) -> (Vec<usize>, Vec<usize>, bool, bool) {
    (d.reads_and_writes(), d.writes(), d.has_read_all(), d.has_write_all())
}

#[test]
fn new_descriptor_touches_nothing() {
    let d = AccessDescriptor::new();
    assert!(!d.has_read(0));
    assert!(!d.has_write(0));
    assert!(!d.has_read_all());
    assert!(!d.has_write_all());
    assert!(d.reads_and_writes().is_empty());
    assert!(d.writes().is_empty());
    assert_eq!(d.mode(7), None);
}

#[test]
fn add_read_marks_the_category_as_read() {
    let mut d = AccessDescriptor::new();
    d.add_read(9);
    assert!(d.has_read(9));
    assert!(!d.has_write(9));
    assert!(!d.has_read(8));
    assert_eq!(d.mode(9), Some(AccessMode::Read));
    assert_eq!(content(&d), (vec![9], vec![], false, false));
}

#[test]
fn add_write_marks_the_category_as_written_and_read() {
    let mut d = AccessDescriptor::new();
    d.add_write(2);
    assert!(d.has_read(2));
    assert!(d.has_write(2));
    assert_eq!(d.mode(2), Some(AccessMode::Write));
    assert_eq!(content(&d), (vec![2], vec![2], false, false));
}

#[test]
fn read_all_reads_every_category() {
    let mut d = descriptor(&[1], &[]);
    d.read_all();
    assert!(d.has_read_all());
    assert!(!d.has_write_all());
    assert!(d.has_read(1000));
    assert!(!d.has_write(1000));
    assert_eq!(d.mode(1000), Some(AccessMode::Read));
    assert_eq!(content(&d), (vec![1], vec![], true, false));
}

#[test]
fn write_all_writes_and_reads_every_category() {
    let mut d = descriptor(&[], &[3]);
    d.write_all();
    assert!(d.has_read_all());
    assert!(d.has_write_all());
    assert!(d.has_write(77));
    assert_eq!(d.mode(77), Some(AccessMode::Write));
    assert_eq!(content(&d), (vec![3], vec![3], true, true));
}

#[test]
fn extend_keeps_the_stronger_mode() {
    let mut a = descriptor(&[3], &[]);
    let b = descriptor(&[5], &[3]);
    a.extend(&b);
    assert_eq!(a.mode(3), Some(AccessMode::Write));
    assert_eq!(a.mode(5), Some(AccessMode::Read));
    assert_eq!(a.mode(4), None);
    assert_eq!(a.reads_and_writes(), vec![3, 5]);
    assert_eq!(a.writes(), vec![3]);
    assert_eq!(content(&b), (vec![3, 5], vec![3], false, false));
}

#[test]
fn extend_takes_the_flags_of_either_side() {
    let mut a = descriptor(&[1], &[]);
    let mut b = AccessDescriptor::new();
    b.read_all();
    a.extend(&b);
    assert_eq!(content(&a), (vec![1], vec![], true, false));
    let mut c = AccessDescriptor::new();
    c.write_all();
    a.extend(&c);
    assert_eq!(content(&a), (vec![1], vec![], true, true));
}

#[test]
fn extend_is_commutative() {
    let mut ab = descriptor(&[1, 2], &[7]);
    ab.extend(&descriptor(&[2, 3], &[1]));
    let mut ba = descriptor(&[2, 3], &[1]);
    ba.extend(&descriptor(&[1, 2], &[7]));
    assert_eq!(content(&ab), content(&ba));
    assert_eq!(content(&ab), (vec![1, 2, 3, 7], vec![1, 7], false, false));
}

#[test]
fn extend_is_associative() {
    let a = || descriptor(&[1], &[4]);
    let b = || descriptor(&[4, 5], &[]);
    let c = || {
        let mut c = descriptor(&[], &[5]);
        c.read_all();
        c
    };
    let mut left = a();
    left.extend(&b());
    left.extend(&c());
    let mut bc = b();
    bc.extend(&c());
    let mut right = a();
    right.extend(&bc);
    assert_eq!(content(&left), content(&right));
    assert_eq!(content(&left), (vec![1, 4, 5], vec![4, 5], true, false));
}

#[test]
fn extend_with_an_empty_descriptor_changes_nothing() {
    let mut a = descriptor(&[1], &[2]);
    a.extend(&AccessDescriptor::new());
    assert_eq!(content(&a), (vec![1, 2], vec![2], false, false));
    let mut e = AccessDescriptor::new();
    e.extend(&a);
    assert_eq!(content(&e), content(&a));
}

#[test]
fn a_write_on_either_side_is_a_write_after_extend() {
    for (left_writes, right_writes) in [(true, false), (false, true), (true, true)] {
        let mut left = AccessDescriptor::new();
        if left_writes {
            left.add_write(6);
        } else {
            left.add_read(6);
        }
        let mut right = AccessDescriptor::new();
        if right_writes {
            right.add_write(6);
        } else {
            right.add_read(6);
        }
        left.extend(&right);
        assert_eq!(left.mode(6), Some(AccessMode::Write));
    }
}

#[test]
fn large_categories_are_kept() {
    let mut d = AccessDescriptor::new();
    d.add_read(100_000);
    d.add_write(0);
    assert_eq!(content(&d), (vec![0, 100_000], vec![0], false, false));
}

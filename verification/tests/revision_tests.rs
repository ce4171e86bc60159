use bootplat::revision::{check_revision, Revision, RevisionCheck};

#[test]
fn major_below_two_is_incompatible() {
    assert_eq!(check_revision(Revision::new(1, 0)), RevisionCheck::Incompatible);
    assert_eq!(check_revision(Revision::new(1, 50)), RevisionCheck::Incompatible);
    assert_eq!(check_revision(Revision::new(0, 99)), RevisionCheck::Incompatible);
}

#[test]
fn minor_below_thirty_is_degraded() {
    assert_eq!(check_revision(Revision::new(2, 0)), RevisionCheck::Degraded);
    assert_eq!(check_revision(Revision::new(2, 29)), RevisionCheck::Degraded);
    assert_eq!(check_revision(Revision::new(3, 0)), RevisionCheck::Degraded);
}

#[test]
fn both_thresholds_met_is_compatible() {
    assert_eq!(check_revision(Revision::new(2, 30)), RevisionCheck::Compatible);
    assert_eq!(check_revision(Revision::new(2, 31)), RevisionCheck::Compatible);
    assert_eq!(check_revision(Revision::new(3, 40)), RevisionCheck::Compatible);
}

#[test]
fn from_packed_splits_halves() {
    let r = Revision::from_packed(0x0002_001E);
    assert_eq!(r.major, 2);
    assert_eq!(r.minor, 30);

    let r = Revision::from_packed(0x0001_0002);
    assert_eq!(r.major, 1);
    assert_eq!(r.minor, 2);

    let r = Revision::from_packed(0xFFFF_FFFF);
    assert_eq!(r.major, 0xFFFF);
    assert_eq!(r.minor, 0xFFFF);

    let r = Revision::from_packed(0);
    assert_eq!(r.major, 0);
    assert_eq!(r.minor, 0);
}

#[test]
fn new_keeps_fields() {
    let r = Revision::new(2, 70);
    assert_eq!(r.major, 2);
    assert_eq!(r.minor, 70);
}

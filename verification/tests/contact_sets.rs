use platformer_core::contacts::ClimbContacts;
use platformer_core::contacts::ContactSet;

#[test]
fn contact_set_tracks_inserts_and_removes() {
    let mut s = ContactSet::new();
    assert!(s.is_empty());
    s.insert(7);
    s.insert(9);
    s.insert(7);
    assert!(!s.is_empty());
    assert!(s.contains(7));
    assert!(s.contains(9));
    assert!(!s.contains(8));
    s.remove(7);
    assert!(!s.contains(7));
    assert!(s.contains(9));
    s.remove(9);
    assert!(s.is_empty());
}

#[test]
fn removing_an_absent_id_is_a_no_op() {
    let mut s = ContactSet::new();
    s.insert(3);
    s.remove(44);
    assert!(s.contains(3));
    assert!(!s.is_empty());
    let mut empty = ContactSet::new();
    empty.remove(44);
    assert!(empty.is_empty());
}

#[test]
fn climb_contacts_remember_anchors() {
    let mut m = ClimbContacts::new();
    assert!(m.is_empty());
    assert_eq!(m.first(), None);
    m.insert(5, 120);
    m.insert(6, 200);
    assert_eq!(m.get(5), Some(120));
    assert_eq!(m.get(6), Some(200));
    assert_eq!(m.get(7), None);
    let first = m.first().unwrap();
    assert_eq!(m.get(first.id), Some(first.anchor_x));
}

#[test]
fn climb_contacts_reinsert_replaces_the_snapshot() {
    let mut m = ClimbContacts::new();
    m.insert(5, 120);
    m.insert(5, 140);
    assert_eq!(m.get(5), Some(140));
    m.remove(5);
    assert!(m.is_empty());
    m.remove(5);
    assert!(m.is_empty());
}

use voxoxide::group_voice_session::{GroupVoiceSession, GroupVoiceSessionMember};
use voxoxide::registry::{GroupHandle, GroupRegistry, RegistryError};

#[test]
fn member_buffer_is_first_in_first_out() {
    let mut m = GroupVoiceSessionMember::new(0xA, 1);
    assert_eq!(m.ssrc(), 0xA);
    assert_eq!(m.owner(), 1);
    assert!(m.offer(&vec![1, 2], 4));
    assert!(m.offer(&vec![3], 4));
    assert_eq!(m.pending(), 2);
    assert_eq!(m.take(), Some(vec![1, 2]));
    assert_eq!(m.take(), Some(vec![3]));
    assert_eq!(m.take(), None);
}

#[test]
fn full_buffer_drops_the_newest_and_counts() {
    let mut m = GroupVoiceSessionMember::new(0xA, 1);
    assert!(m.offer(&vec![1], 2));
    assert!(m.offer(&vec![2], 2));
    assert!(!m.offer(&vec![3], 2));
    assert!(!m.offer(&vec![4], 2));
    assert_eq!(m.pending(), 2);
    assert_eq!(m.dropped(), 2);
    assert_eq!(m.strikes(), 2);
    assert_eq!(m.take(), Some(vec![1]));
    assert!(m.offer(&vec![5], 2));
    assert_eq!(m.strikes(), 0);
    assert_eq!(m.dropped(), 2);
    assert_eq!(m.take(), Some(vec![2]));
    assert_eq!(m.take(), Some(vec![5]));
}

#[test]
fn group_keeps_ssrcs_unique() {
    let mut g = GroupVoiceSession::new(42);
    assert_eq!(g.room_id(), 42);
    assert!(g.is_empty());
    assert!(g.add(0xA, 1));
    assert!(!g.add(0xA, 2));
    assert!(g.add(0xB, 2));
    assert_eq!(g.len(), 2);
    assert_eq!(g.owner_of(0xA), Some(1));
    assert_eq!(g.owner_of(0xB), Some(2));
    assert_eq!(g.owner_of(0xC), None);
    assert!(g.remove(0xA));
    assert!(!g.remove(0xA));
    assert!(!g.contains(0xA));
    assert!(g.contains(0xB));
}

#[test]
fn join_creates_the_room() {
    let mut r = GroupRegistry::new(8, 3);
    assert_eq!(r.room_count(), 0);
    assert_eq!(r.join(42, 0xA, 1), Ok(GroupHandle { room_id: 42, ssrc: 0xA }));
    assert_eq!(r.room_count(), 1);
    assert_eq!(r.member_count(42), 1);
    assert!(r.contains(42, 0xA));
    assert_eq!(r.owner_of(42, 0xA), Some(1));
    assert!(!r.contains(43, 0xA));
    assert_eq!(r.member_count(43), 0);
}

#[test]
fn join_fails_on_ssrc_collision() {
    let mut r = GroupRegistry::new(8, 3);
    r.join(42, 0xA, 1).unwrap();
    assert_eq!(r.join(42, 0xA, 2), Err(RegistryError::SsrcCollision));
    assert_eq!(r.owner_of(42, 0xA), Some(1));
    assert_eq!(r.member_count(42), 1);
    assert_eq!(r.join(43, 0xA, 2), Ok(GroupHandle { room_id: 43, ssrc: 0xA }));
    assert_eq!(r.room_count(), 2);
}

#[test]
fn leave_deletes_the_room_when_empty() {
    let mut r = GroupRegistry::new(8, 3);
    r.join(42, 0xA, 1).unwrap();
    r.join(42, 0xB, 2).unwrap();
    r.leave(42, 0xA);
    assert_eq!(r.room_count(), 1);
    assert_eq!(r.member_count(42), 1);
    r.leave(42, 0xA);
    assert_eq!(r.member_count(42), 1);
    r.leave(42, 0xB);
    assert_eq!(r.room_count(), 0);
    r.leave(42, 0xB);
    r.leave(7, 7);
    assert_eq!(r.room_count(), 0);
}

#[test]
fn broadcast_reaches_everyone_but_the_sender() {
    let mut r = GroupRegistry::new(8, 3);
    r.join(42, 0xA, 1).unwrap();
    r.join(42, 0xB, 2).unwrap();
    r.join(42, 0xC, 3).unwrap();
    r.join(43, 0xD, 4).unwrap();
    r.broadcast(42, 0xA, 1, &vec![1, 2, 3]);
    assert_eq!(r.take(42, 0xA), None);
    assert_eq!(r.take(42, 0xB), Some(vec![1, 2, 3]));
    assert_eq!(r.take(42, 0xC), Some(vec![1, 2, 3]));
    assert_eq!(r.take(43, 0xD), None);
    assert_eq!(r.take(42, 0xB), None);
}

#[test]
fn broadcast_keeps_the_order_of_one_source() {
    let mut r = GroupRegistry::new(8, 3);
    r.join(1, 0xA, 1).unwrap();
    r.join(1, 0xB, 2).unwrap();
    r.broadcast(1, 0xA, 1, &vec![1]);
    r.broadcast(1, 0xA, 1, &vec![2]);
    r.broadcast(1, 0xA, 1, &vec![3]);
    assert_eq!(r.take(1, 0xB), Some(vec![1]));
    assert_eq!(r.take(1, 0xB), Some(vec![2]));
    assert_eq!(r.take(1, 0xB), Some(vec![3]));
}

#[test]
fn broadcast_to_an_unknown_room_does_nothing() {
    let mut r = GroupRegistry::new(8, 3);
    r.join(1, 0xA, 1).unwrap();
    r.broadcast(2, 0xA, 1, &vec![1]);
    assert_eq!(r.room_count(), 1);
    assert_eq!(r.take(1, 0xA), None);
}

#[test]
fn slow_listener_is_ejected_after_the_threshold() {
    let mut r = GroupRegistry::new(2, 3);
    r.join(1, 0xA, 1).unwrap();
    r.join(1, 0xB, 2).unwrap();
    r.broadcast(1, 0xA, 1, &vec![1]);
    r.broadcast(1, 0xA, 1, &vec![2]);
    r.broadcast(1, 0xA, 1, &vec![3]);
    assert!(r.contains(1, 0xB));
    r.broadcast(1, 0xA, 1, &vec![4]);
    assert!(r.contains(1, 0xB));
    r.broadcast(1, 0xA, 1, &vec![5]);
    assert!(!r.contains(1, 0xB));
    assert!(r.contains(1, 0xA));
    assert_eq!(r.member_count(1), 1);
}

#[test]
fn listener_that_catches_up_is_not_ejected() {
    let mut r = GroupRegistry::new(1, 2);
    r.join(1, 0xA, 1).unwrap();
    r.join(1, 0xB, 2).unwrap();
    r.broadcast(1, 0xA, 1, &vec![1]);
    r.broadcast(1, 0xA, 1, &vec![2]);
    assert_eq!(r.take(1, 0xB), Some(vec![1]));
    r.broadcast(1, 0xA, 1, &vec![3]);
    r.broadcast(1, 0xA, 1, &vec![4]);
    assert!(r.contains(1, 0xB));
    assert_eq!(r.take(1, 0xB), Some(vec![3]));
    r.broadcast(1, 0xA, 1, &vec![5]);
    r.broadcast(1, 0xA, 1, &vec![6]);
    r.broadcast(1, 0xA, 1, &vec![7]);
    assert!(!r.contains(1, 0xB));
}

#[test]
fn room_goes_when_its_last_listener_is_ejected() {
    let mut r = GroupRegistry::new(0, 1);
    r.join(1, 0xB, 2).unwrap();
    r.broadcast(1, 0xA, 1, &vec![1]);
    assert_eq!(r.room_count(), 0);
}

#[test]
fn take_of_an_unknown_member_gives_nothing() {
    let mut r = GroupRegistry::new(2, 3);
    assert_eq!(r.take(1, 0xA), None);
    r.join(1, 0xA, 1).unwrap();
    assert_eq!(r.take(1, 0xB), None);
    assert_eq!(r.take(2, 0xA), None);
}

#[test]
fn sender_gets_nothing_under_any_of_its_ssrcs() {
    let mut r = GroupRegistry::new(8, 3);
    r.join(42, 0xA, 1).unwrap();
    r.join(42, 0xB, 1).unwrap();
    r.join(42, 0xC, 2).unwrap();
    r.broadcast(42, 0xB, 1, &vec![7, 8]);
    assert_eq!(r.take(42, 0xA), None);
    assert_eq!(r.take(42, 0xB), None);
    assert_eq!(r.take(42, 0xC), Some(vec![7, 8]));
    r.broadcast(42, 0xC, 2, &vec![9]);
    assert_eq!(r.take(42, 0xA), Some(vec![9]));
    assert_eq!(r.take(42, 0xB), Some(vec![9]));
    assert_eq!(r.take(42, 0xC), None);
}

#[test]
fn listener_with_room_is_never_dropped() {
    let mut r = GroupRegistry::new(4, 0);
    r.join(1, 0xA, 1).unwrap();
    r.join(1, 0xB, 2).unwrap();
    r.broadcast(1, 0xA, 1, &vec![1]);
    r.broadcast(1, 0xA, 1, &vec![2]);
    assert!(r.contains(1, 0xB));
    assert_eq!(r.take(1, 0xB), Some(vec![1]));
    r.broadcast(1, 0xA, 1, &vec![3]);
    r.broadcast(1, 0xA, 1, &vec![4]);
    r.broadcast(1, 0xA, 1, &vec![5]);
    assert!(r.contains(1, 0xB));
    r.broadcast(1, 0xA, 1, &vec![6]);
    assert!(!r.contains(1, 0xB));
}

#[test]
fn only_the_owner_gives_up_or_takes_from_a_membership() {
    let mut r = GroupRegistry::new(8, 3);
    r.join(1, 0xA, 1).unwrap();
    r.join(1, 0xB, 2).unwrap();
    r.broadcast(1, 0xB, 2, &vec![5]);
    assert_eq!(r.take_owned(1, 0xA, 2), None);
    assert_eq!(r.take_owned(1, 0xA, 1), Some(vec![5]));
    assert_eq!(r.take_owned(1, 0xA, 1), None);
    r.leave_owned(1, 0xA, 2);
    assert!(r.contains(1, 0xA));
    r.leave_owned(1, 0xA, 1);
    assert!(!r.contains(1, 0xA));
    r.leave_owned(1, 0xC, 1);
    assert_eq!(r.member_count(1), 1);
}

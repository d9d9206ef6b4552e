use wifi_qr::mailbox::{MailboxSlot, Taken};

#[test]
fn first_take_waits_for_the_first_publication() {
    let mut slot: MailboxSlot<&str> = MailboxSlot::new();
    assert_eq!(slot.version(), 0);
    assert!(!slot.is_closed());
    assert_eq!(slot.take_latest(), Taken::Wait);
    assert_eq!(slot.publish("a"), None);
    assert_eq!(slot.take_latest(), Taken::Ready { value: "a", version: 1 });
}

#[test]
fn latest_of_many_publications_is_taken() {
    for count in 1..=50u64 {
        let mut slot: MailboxSlot<u64> = MailboxSlot::new();
        for value in 1..=count {
            let displaced = slot.publish(value * 10);
            if value == 1 {
                assert_eq!(displaced, None);
            } else {
                assert_eq!(displaced, Some((value - 1) * 10));
            }
        }
        assert_eq!(slot.version(), count);
        assert_eq!(slot.take_latest(), Taken::Ready { value: count * 10, version: count });
    }
}

#[test]
fn second_take_waits_until_the_next_publication() {
    let mut slot: MailboxSlot<u8> = MailboxSlot::new();
    slot.publish(1);
    assert_eq!(slot.take_latest(), Taken::Ready { value: 1, version: 1 });
    assert_eq!(slot.take_latest(), Taken::Wait);
    assert_eq!(slot.take_latest(), Taken::Wait);
    assert_eq!(slot.version(), 1);
    slot.publish(2);
    assert_eq!(slot.take_latest(), Taken::Ready { value: 2, version: 2 });
    assert_eq!(slot.take_latest(), Taken::Wait);
}

#[test]
fn versions_that_were_skipped_are_never_seen() {
    let mut slot: MailboxSlot<u8> = MailboxSlot::new();
    slot.publish(1);
    slot.publish(2);
    assert_eq!(slot.take_latest(), Taken::Ready { value: 2, version: 2 });
    slot.publish(3);
    slot.publish(4);
    slot.publish(5);
    assert_eq!(slot.take_latest(), Taken::Ready { value: 5, version: 5 });
    assert_eq!(slot.take_latest(), Taken::Wait);
}

#[test]
fn closed_slot_hands_out_what_is_pending_and_then_ends() {
    let mut slot: MailboxSlot<u8> = MailboxSlot::new();
    slot.publish(1);
    slot.close();
    assert!(slot.is_closed());
    assert_eq!(slot.take_latest(), Taken::Ready { value: 1, version: 1 });
    assert_eq!(slot.take_latest(), Taken::Closed);
    assert_eq!(slot.take_latest(), Taken::Closed);
}

#[test]
fn closed_empty_slot_ends_at_once() {
    let mut slot: MailboxSlot<u8> = MailboxSlot::new();
    slot.close();
    assert_eq!(slot.take_latest(), Taken::Closed);
}

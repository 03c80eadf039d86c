use reze_bridge::discord_bot::dc_bot::{relay_message, restore_bridge_list, BridgeList};
use reze_bridge::storage::{ReadOutcome, StorageError};
use reze_bridge::discord_bot::FromMinecraftEvent;

#[test]
fn bridge_list_keeps_order_and_no_repeats() {
    let mut b = BridgeList::new();
    assert_eq!(b.targets(), None);
    b.start_bridge(3);
    b.start_bridge(1);
    b.start_bridge(3);
    b.start_bridge(2);
    assert_eq!(b.targets(), Some(vec![3, 1, 2]));
    assert!(b.contains(1));
    assert!(!b.contains(4));
    assert!(b.stop_bridge(1));
    assert!(!b.stop_bridge(1));
    assert_eq!(b.targets(), Some(vec![3, 2]));
    assert!(b.stop_bridge(3));
    assert!(b.stop_bridge(2));
    assert_eq!(b.targets(), None);
}

#[test]
fn start_then_stop_restores_the_list() {
    let mut b = BridgeList::new();
    b.start_bridge(7);
    b.start_bridge(8);
    b.start_bridge(9);
    assert!(b.stop_bridge(9));
    assert_eq!(b.targets(), Some(vec![7, 8]));
}

#[test]
fn minecraft_events_show_in_discord_with_bold_names() {
    let e = FromMinecraftEvent { username: "Steve".to_string(), content: "hello".to_string() };
    assert_eq!(relay_message(&e), "**Steve**: hello");
}

#[test]
fn list_rebuilt_from_stored_ids() {
    let b = BridgeList::from_ids(&vec![4, 2, 4, 8]);
    assert_eq!(b.targets(), Some(vec![4, 2, 8]));
    assert_eq!(b.stored_ids(), vec![4, 2, 8]);
    assert!(b.is_well_formed());
    let empty = BridgeList::from_ids(&vec![]);
    assert_eq!(empty.targets(), None);
    assert_eq!(empty.stored_ids(), Vec::<u64>::new());
}

#[test]
fn stored_list_is_restored() {
    let mut b = BridgeList::new();
    b.start_bridge(11);
    b.start_bridge(12);
    let text = reze_bridge::storage::save_bridge_channels(&b.stored_ids());
    let r = restore_bridge_list(ReadOutcome::Contents(text)).unwrap();
    assert_eq!(r.list.targets(), Some(vec![11, 12]));
    assert!(!r.corrupt);
    let r = restore_bridge_list(ReadOutcome::Contents("oops".to_string())).unwrap();
    assert_eq!(r.list.targets(), None);
    assert!(r.corrupt);
    let r = restore_bridge_list(ReadOutcome::NotFound).unwrap();
    assert_eq!(r.list.targets(), None);
    assert!(matches!(
        restore_bridge_list(ReadOutcome::Failed("x".to_string())),
        Err(StorageError::ReadFailed(_))
    ));
}

use reze_bridge::storage::{
    load_bridge_channels, read_bridge_channels, save_bridge_channels, stored_channels, ReadOutcome,
    StorageError,
};

#[test]
fn save_then_load_round_trips() {
    let expected = vec![111_111_111u64, 222_222_222, 333_333_333];
    let json = save_bridge_channels(&expected);
    assert_eq!(load_bridge_channels(ReadOutcome::Contents(json)).unwrap(), expected);
}

#[test]
fn save_empty_then_load_returns_empty() {
    let json = save_bridge_channels(&[]);
    assert_eq!(load_bridge_channels(ReadOutcome::Contents(json)).unwrap(), Vec::<u64>::new());
}

#[test]
fn missing_file_returns_empty() {
    assert_eq!(load_bridge_channels(ReadOutcome::NotFound).unwrap(), Vec::<u64>::new());
}

#[test]
fn corrupt_file_returns_empty() {
    let read = ReadOutcome::Contents("not valid json [".to_string());
    assert_eq!(load_bridge_channels(read).unwrap(), Vec::<u64>::new());
}

#[test]
fn saved_text_is_compact_json() {
    assert_eq!(save_bridge_channels(&[1, 22, 333]), "[1,22,333]");
    assert_eq!(save_bridge_channels(&[]), "[]");
    assert_eq!(save_bridge_channels(&[u64::MAX]), "[18446744073709551615]");
}

#[test]
fn stored_text_with_spaces_is_read() {
    let read = ReadOutcome::Contents(" [ 5 , 6 ]\n".to_string());
    assert_eq!(load_bridge_channels(read).unwrap(), vec![5, 6]);
}

#[test]
fn stored_text_of_other_json_reads_as_empty() {
    let read = ReadOutcome::Contents("{\"a\": 1}".to_string());
    assert_eq!(load_bridge_channels(read).unwrap(), Vec::<u64>::new());
    let read = ReadOutcome::Contents("[-1]".to_string());
    assert_eq!(load_bridge_channels(read).unwrap(), Vec::<u64>::new());
}

#[test]
fn read_failure_is_an_error() {
    let read = ReadOutcome::Failed("permission denied".to_string());
    assert_eq!(
        load_bridge_channels(read),
        Err(StorageError::ReadFailed("permission denied".to_string()))
    );
}

#[test]
fn corrupt_text_is_reported() {
    let loaded = read_bridge_channels(ReadOutcome::Contents("[1,".to_string())).unwrap();
    assert!(loaded.corrupt);
    assert_eq!(loaded.channels, Vec::<u64>::new());
    let loaded = read_bridge_channels(ReadOutcome::Contents("[1,2]".to_string())).unwrap();
    assert!(!loaded.corrupt);
    assert_eq!(loaded.channels, vec![1, 2]);
    let loaded = read_bridge_channels(ReadOutcome::NotFound).unwrap();
    assert!(!loaded.corrupt);
}

#[test]
fn parsed_list_or_nothing() {
    assert_eq!(stored_channels(Some(vec![3])), vec![3]);
    assert_eq!(stored_channels(None), Vec::<u64>::new());
}

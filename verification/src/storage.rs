//! The stored list of bridged channels: a JSON array of channel ids.
//!
//! Reading and writing the file is left to the caller; this module turns
//! what was read into the list, and the list into the text to write.

use vstd::prelude::*;

use crate::text::{decimal, push_char, push_decimal};

verus! {

/// The JSON text of a list of ids as `serde_json` writes it: the decimal
/// numbers between `[` and `]`, separated by `,`, without white space.
pub open spec fn json_id_list(ids: Seq<u64>) -> Seq<char> {
    seq!['['] + json_items(ids) + seq![']']
}

/// The items of [`json_id_list`], separated by `,`.
pub open spec fn json_items(ids: Seq<u64>) -> Seq<char>
    decreases ids.len(),
{
    if ids.len() == 0 {
        Seq::empty()
    } else if ids.len() == 1 {
        decimal(ids[0] as nat)
    } else {
        json_items(ids.drop_last()) + seq![','] + decimal(ids.last() as nat)
    }
}

/// The list of ids that `serde_json::from_str::<Vec<u64>>` reads from a
/// text, or `None` where it fails.
pub uninterp spec fn json_to_id_list(text: Seq<char>) -> Option<Seq<u64>>;

/// `serde_json::from_str::<Vec<u64>>`, with the error dropped. Its result is
/// named [`json_to_id_list`]; the text that `serde_json` writes for a list
/// ([`json_id_list`]) is read back as that list.
#[verifier::external_body]
fn json_to_ids(text: &str) -> (res: Option<Vec<u64>>)
    ensures
        res is Some <==> json_to_id_list(text@) is Some,
        res is Some ==> json_to_id_list(text@) == Some(res->0@),
        forall|ids: Seq<u64>| text@ == json_id_list(ids) ==> res is Some && res->0@ == ids,
{
    serde_json::from_str::<Vec<u64>>(text).ok()
}

/// What came of reading the storage file.
pub enum ReadOutcome {
    /// The file was read; its text.
    Contents(String),
    /// There is no such file.
    NotFound,
    /// Reading failed otherwise; the reason.
    Failed(String),
}

/// A storage failure.
#[derive(Debug, Clone, PartialEq, Eq)]
pub enum StorageError {
    /// The file exists but could not be read; the reason.
    ReadFailed(String),
}

/// The channels that a parse of the stored text gives: the list read, or
/// none where the text is not a list of ids.
pub fn stored_channels(parsed: Option<Vec<u64>>) -> (res: Vec<u64>)
    ensures
        res@ == match parsed {
            Some(v) => v@,
            None => Seq::empty(),
        },
{
    match parsed {
        Some(channels) => channels,
        None => Vec::new(),
    }
}

/// The channels read from storage, and whether the stored text was corrupt
/// (not a list of ids).
pub struct Loaded {
    pub channels: Vec<u64>,
    pub corrupt: bool,
}

/// What was read, as the bridged channels: the stored list; an empty list
/// where the file is missing or does not hold a list of ids (then marked
/// corrupt); an error where the file could not be read.
pub fn read_bridge_channels(read: ReadOutcome) -> (res: Result<Loaded, StorageError>)
    ensures
        match read {
            ReadOutcome::Contents(c) => res matches Ok(l) && l.channels@ == match json_to_id_list(
                c@,
            ) {
                Some(ids) => ids,
                None => Seq::empty(),
            } && l.corrupt == json_to_id_list(c@) is None,
            ReadOutcome::NotFound => res matches Ok(l) && l.channels@ == Seq::<u64>::empty()
                && !l.corrupt,
            ReadOutcome::Failed(e) => res matches Err(StorageError::ReadFailed(m)) && m@ == e@,
        },
        forall|ids: Seq<u64>|
            (read matches ReadOutcome::Contents(c) && c@ == #[trigger] json_id_list(ids)) ==> (res matches Ok(
                l,
            ) && l.channels@ == ids && !l.corrupt),
{
    match read {
        ReadOutcome::Contents(contents) => {
            let parsed = json_to_ids(contents.as_str());
            let corrupt = parsed.is_none();
            Ok(Loaded { channels: stored_channels(parsed), corrupt })
        },
        ReadOutcome::NotFound => Ok(Loaded { channels: Vec::new(), corrupt: false }),
        ReadOutcome::Failed(reason) => Err(StorageError::ReadFailed(reason)),
    }
}

/// The list of bridged channels from what was read: the stored list; an
/// empty list where the file is missing or does not hold a list of ids; an
/// error where the file could not be read.
pub fn load_bridge_channels(read: ReadOutcome) -> (res: Result<Vec<u64>, StorageError>)
    ensures
        match read {
            ReadOutcome::Contents(c) => res matches Ok(v) && v@ == match json_to_id_list(c@) {
                Some(ids) => ids,
                None => Seq::empty(),
            },
            ReadOutcome::NotFound => res matches Ok(v) && v@ == Seq::<u64>::empty(),
            ReadOutcome::Failed(e) => res matches Err(StorageError::ReadFailed(m)) && m@ == e@,
        },
        // What was saved is loaded back.
        forall|ids: Seq<u64>|
            (read matches ReadOutcome::Contents(c) && c@ == #[trigger] json_id_list(ids)) ==> (res matches Ok(
                v,
            ) && v@ == ids),
{
    match read_bridge_channels(read) {
        Ok(loaded) => Ok(loaded.channels),
        Err(e) => Err(e),
    }
}

/// The text to store for a list of bridged channels.
pub fn save_bridge_channels(channels: &[u64]) -> (json: String)
    ensures
        json@ == json_id_list(channels@),
{
    let mut s = String::new();
    push_char(&mut s, '[');
    let mut i: usize = 0;
    assert(channels@.take(0) =~= Seq::<u64>::empty());
    while i < channels.len()
        invariant
            i <= channels.len(),
            s@ == seq!['['] + json_items(channels@.take(i as int)),
        decreases channels.len() - i,
    {
        if i > 0 {
            push_char(&mut s, ',');
        }
        push_decimal(&mut s, channels[i]);
        proof {
            let t = channels@.take(i + 1);
            assert(t.drop_last() =~= channels@.take(i as int));
            assert(t.last() == channels@[i as int]);
            if i == 0 {
                assert(t.len() == 1);
                assert(t[0] == channels@[0]);
            }
        }
        i += 1;
    }
    push_char(&mut s, ']');
    assert(channels@.take(channels.len() as int) =~= channels@);
    s
}

} // verus!

//! The bot's shared state: the Discord channels bridged with Minecraft chat,
//! and the message that Minecraft events become in those channels.

use vstd::prelude::*;

use crate::discord_bot::FromMinecraftEvent;
use crate::storage::{json_id_list, json_to_id_list, read_bridge_channels, ReadOutcome, StorageError};
use crate::text::{find_seq, lemma_find_seq_first, lemma_find_seq_none, occurs_at};

verus! {

/// A list of bridged channels is either absent (nothing was ever bridged,
/// or the last channel was unbridged) or a non-empty list without repeats.
pub open spec fn bridge_wf(list: Option<Seq<u64>>) -> bool {
    match list {
        None => true,
        Some(l) => l.len() > 0 && l.no_duplicates(),
    }
}

/// `channel` is bridged.
pub open spec fn is_bridged(list: Option<Seq<u64>>, channel: u64) -> bool {
    list matches Some(l) && l.contains(channel)
}

/// The list after bridging `channel`: created with it where absent, and
/// extended with it at the end unless it is already there.
pub open spec fn spec_start_bridge(list: Option<Seq<u64>>, channel: u64) -> Option<Seq<u64>> {
    match list {
        None => Some(seq![channel]),
        Some(l) => if l.contains(channel) {
            Some(l)
        } else {
            Some(l.push(channel))
        },
    }
}

/// The list after unbridging `channel`: its first occurrence is removed, and
/// a list left empty becomes absent.
pub open spec fn spec_stop_bridge(list: Option<Seq<u64>>, channel: u64) -> Option<Seq<u64>> {
    match list {
        None => None,
        Some(l) => match find_seq(l, seq![channel]) {
            Some(i) => if l.len() == 1 {
                None
            } else {
                Some(l.remove(i))
            },
            None => Some(l),
        },
    }
}

/// The Discord channels bridged with Minecraft chat.
pub struct BridgeList {
    channels: Option<Vec<u64>>,
}

impl View for BridgeList {
    type V = Option<Seq<u64>>;

    closed spec fn view(&self) -> Option<Seq<u64>> {
        match self.channels {
            Some(v) => Some(v@),
            None => None,
        }
    }
}

proof fn lemma_single_occurs(l: Seq<u64>, x: u64, i: int)
    ensures
        occurs_at(l, seq![x], i) == (0 <= i < l.len() && l[i] == x),
{
    if 0 <= i < l.len() {
        if l[i] == x {
            assert(l.subrange(i, i + 1) =~= seq![x]);
        } else {
            assert(l.subrange(i, i + 1)[0] == l[i]);
        }
    }
}

/// The first position of `x` in `v`.
fn position(v: &Vec<u64>, x: u64) -> (res: Option<usize>)
    ensures
        match res {
            Some(i) => i < v.len() && v@[i as int] == x && find_seq(v@, seq![x]) == Some(i as int),
            None => find_seq(v@, seq![x]) is None && !v@.contains(x),
        },
{
    let mut i: usize = 0;
    while i < v.len()
        invariant
            i <= v.len(),
            forall|j: int| 0 <= j < i ==> v@[j] != x,
        decreases v.len() - i,
    {
        if v[i] == x {
            proof {
                assert forall|j: int| 0 <= j < i implies !occurs_at(v@, seq![x], j) by {
                    lemma_single_occurs(v@, x, j);
                }
                lemma_single_occurs(v@, x, i as int);
                lemma_find_seq_first(v@, seq![x], i as int);
            }
            return Some(i);
        }
        i += 1;
    }
    proof {
        assert forall|j: int| !occurs_at(v@, seq![x], j) by {
            lemma_single_occurs(v@, x, j);
        }
        lemma_find_seq_none(v@, seq![x]);
    }
    None
}

/// The ids to store for a list: the bridged channels in order, none when
/// absent.
pub open spec fn stored_ids(list: Option<Seq<u64>>) -> Seq<u64> {
    match list {
        Some(l) => l,
        None => Seq::empty(),
    }
}

/// The list rebuilt from stored ids: each bridged in turn, from nothing.
pub open spec fn spec_from_ids(ids: Seq<u64>) -> Option<Seq<u64>>
    decreases ids.len(),
{
    if ids.len() == 0 {
        None
    } else {
        spec_start_bridge(spec_from_ids(ids.drop_last()), ids.last())
    }
}

impl BridgeList {
    #[verifier::type_invariant]
    spec fn well_formed(self) -> bool {
        bridge_wf(self@)
    }

    /// No channel is bridged.
    pub fn new() -> (res: BridgeList)
        ensures
            res@ == None::<Seq<u64>>,
    {
        BridgeList { channels: None }
    }

    /// The list holds no repeats and, where present, at least one channel.
    pub fn is_well_formed(&self) -> (res: bool)
        ensures
            res,
            bridge_wf(self@),
    {
        proof {
            use_type_invariant(self);
        }
        true
    }

    /// The list of the stored ids: each bridged in turn.
    pub fn from_ids(ids: &Vec<u64>) -> (res: BridgeList)
        ensures
            res@ == spec_from_ids(ids@),
            bridge_wf(res@),
    {
        let mut b = BridgeList::new();
        let mut i: usize = 0;
        assert(ids@.take(0) =~= Seq::<u64>::empty());
        while i < ids.len()
            invariant
                i <= ids.len(),
                b@ == spec_from_ids(ids@.take(i as int)),
            decreases ids.len() - i,
        {
            b.start_bridge(ids[i]);
            proof {
                assert(ids@.take(i + 1).drop_last() =~= ids@.take(i as int));
                assert(ids@.take(i + 1).last() == ids@[i as int]);
            }
            i += 1;
        }
        assert(ids@.take(ids.len() as int) =~= ids@);
        proof {
            use_type_invariant(&b);
        }
        b
    }

    /// The ids to store: the bridged channels in order, none when absent.
    pub fn stored_ids(&self) -> (res: Vec<u64>)
        ensures
            res@ == stored_ids(self@),
    {
        match &self.channels {
            Some(v) => {
                let c = v.clone();
                assert(c@ =~= v@);
                c
            },
            None => Vec::new(),
        }
    }

    /// Is `channel` bridged?
    pub fn contains(&self, channel: u64) -> (res: bool)
        ensures
            res == is_bridged(self@, channel),
    {
        match &self.channels {
            Some(v) => position(v, channel).is_some(),
            None => false,
        }
    }

    /// The bridged channels, in the order they were bridged.
    pub fn targets(&self) -> (res: Option<Vec<u64>>)
        ensures
            match res {
                Some(v) => self@ == Some(v@),
                None => self@ == None::<Seq<u64>>,
            },
    {
        match &self.channels {
            Some(v) => {
                let c = v.clone();
                assert(c@ =~= v@);
                Some(c)
            },
            None => None,
        }
    }

    /// Bridges `channel`.
    pub fn start_bridge(&mut self, channel: u64)
        ensures
            bridge_wf(final(self)@),
            final(self)@ == spec_start_bridge(old(self)@, channel),
    {
        proof {
            use_type_invariant(&*self);
        }
        let ghost before = self@;
        let mut taken: Option<Vec<u64>> = None;
        std::mem::swap(&mut taken, &mut self.channels);
        match taken {
            None => {
                let mut v: Vec<u64> = Vec::new();
                v.push(channel);
                assert(v@ =~= seq![channel]);
                self.channels = Some(v);
            },
            Some(mut v) => {
                if position(&v, channel).is_none() {
                    v.push(channel);
                    proof {
                        assert forall|i: int, j: int|
                            0 <= i < v@.len() && 0 <= j < v@.len() && i != j implies v@[i]
                            != v@[j] by {
                            if i < v@.len() - 1 && j < v@.len() - 1 {
                            } else if i == v@.len() - 1 {
                                assert(!before.unwrap().contains(v@[j]) || v@[i] != v@[j]);
                            }
                        }
                    }
                }
                self.channels = Some(v);
            },
        }
    }

    /// Unbridges `channel`; tells whether it was bridged.
    pub fn stop_bridge(&mut self, channel: u64) -> (was_bridged: bool)
        ensures
            bridge_wf(final(self)@),
            final(self)@ == spec_stop_bridge(old(self)@, channel),
            was_bridged == is_bridged(old(self)@, channel),
    {
        proof {
            use_type_invariant(&*self);
        }
        let mut taken: Option<Vec<u64>> = None;
        std::mem::swap(&mut taken, &mut self.channels);
        match taken {
            None => false,
            Some(mut v) => {
                match position(&v, channel) {
                    Some(i) => {
                        let ghost before = v@;
                        v.remove(i);
                        proof {
                            assert(before.contains(channel)) by {
                                assert(before[i as int] == channel);
                            }
                            assert forall|a: int, b: int|
                                0 <= a < v@.len() && 0 <= b < v@.len() && a != b implies v@[a]
                                != v@[b] by {
                                let a0 = if a < i { a } else { a + 1 };
                                let b0 = if b < i { b } else { b + 1 };
                                assert(v@[a] == before[a0]);
                                assert(v@[b] == before[b0]);
                            }
                        }
                        if v.len() == 0 {
                            self.channels = None;
                        } else {
                            self.channels = Some(v);
                        }
                        true
                    },
                    None => {
                        self.channels = Some(v);
                        false
                    },
                }
            },
        }
    }
}

proof fn lemma_from_prefix(l: Seq<u64>, k: int)
    requires
        l.no_duplicates(),
        1 <= k <= l.len(),
    ensures
        spec_from_ids(l.take(k)) == Some(l.take(k)),
    decreases k,
{
    assert(l.take(k).drop_last() =~= l.take(k - 1));
    if k == 1 {
        assert(l.take(0) =~= Seq::<u64>::empty());
        assert(l.take(1) =~= seq![l[0]]);
    } else {
        lemma_from_prefix(l, k - 1);
        if l.take(k - 1).contains(l[k - 1]) {
            let j = choose|j: int| 0 <= j < k - 1 && #[trigger] l.take(k - 1)[j] == l[k - 1];
            assert(l[j] == l[k - 1]);
        }
        assert(l.take(k - 1).push(l[k - 1]) =~= l.take(k));
    }
}

/// A list stored as its ids and rebuilt from them is the list it was.
pub proof fn law_stored_list_restores(list: Option<Seq<u64>>)
    requires
        bridge_wf(list),
    ensures
        spec_from_ids(stored_ids(list)) == list,
{
    if let Some(l) = list {
        lemma_from_prefix(l, l.len() as int);
        assert(l.take(l.len() as int) =~= l);
    }
}

/// Bridging a channel that was not bridged and then unbridging it gives back
/// the list as it was.
pub proof fn law_start_then_stop_restores(list: Option<Seq<u64>>, channel: u64)
    requires
        bridge_wf(list),
        !is_bridged(list, channel),
    ensures
        spec_stop_bridge(spec_start_bridge(list, channel), channel) == list,
{
    let started = spec_start_bridge(list, channel).unwrap();
    let n = started.len() as int - 1;
    assert(started[n] == channel);
    assert forall|j: int| 0 <= j < n implies !occurs_at(started, seq![channel], j) by {
        lemma_single_occurs(started, channel, j);
    }
    lemma_single_occurs(started, channel, n);
    lemma_find_seq_first(started, seq![channel], n);
    if let Some(l) = list {
        assert(started.remove(n) =~= l);
    }
}

/// After bridging, the channel is bridged; bridging twice is bridging once.
pub proof fn law_start_bridges(list: Option<Seq<u64>>, channel: u64)
    requires
        bridge_wf(list),
    ensures
        is_bridged(spec_start_bridge(list, channel), channel),
        spec_start_bridge(spec_start_bridge(list, channel), channel) == spec_start_bridge(
            list,
            channel,
        ),
{
    let started = spec_start_bridge(list, channel).unwrap();
    assert(started[started.len() - 1] == channel || list is Some);
    if let Some(l) = list {
        if !l.contains(channel) {
            assert(started[started.len() - 1] == channel);
        }
    } else {
        assert(started[0] == channel);
    }
}

/// After unbridging, the channel is no longer bridged, and no other channel
/// changes its state.
pub proof fn law_stop_unbridges(list: Option<Seq<u64>>, channel: u64, other: u64)
    requires
        bridge_wf(list),
        other != channel,
    ensures
        !is_bridged(spec_stop_bridge(list, channel), channel),
        is_bridged(spec_stop_bridge(list, channel), other) == is_bridged(list, other),
{
    if let Some(l) = list {
        match find_seq(l, seq![channel]) {
            Some(i) => {
                lemma_find_seq_is_occurrence(l, channel, i);
                let r = l.remove(i);
                assert forall|k: int| 0 <= k < r.len() implies r[k] != channel by {
                    let k0 = if k < i { k } else { k + 1 };
                    assert(r[k] == l[k0]);
                }
                if l.contains(other) {
                    let k = choose|k: int| 0 <= k < l.len() && l[k] == other;
                    assert(k != i);
                    let k1 = if k < i { k } else { k - 1 };
                    assert(r[k1] == other);
                    assert(l.len() > 1);
                }
                if r.contains(other) {
                    let k = choose|k: int| 0 <= k < r.len() && r[k] == other;
                    let k0 = if k < i { k } else { k + 1 };
                    assert(l[k0] == other);
                }
            },
            None => {
                if l.contains(channel) {
                    let k = choose|k: int| 0 <= k < l.len() && l[k] == channel;
                    lemma_single_occurs(l, channel, k);
                    lemma_find_seq_some_if_occurs(l, seq![channel], k);
                }
            },
        }
    }
}

proof fn lemma_find_seq_is_occurrence(l: Seq<u64>, x: u64, i: int)
    requires
        find_seq(l, seq![x]) == Some(i),
    ensures
        0 <= i < l.len(),
        l[i] == x,
{
    crate::text::lemma_find_seq_occurs(l, seq![x]);
    lemma_single_occurs(l, x, i);
}

proof fn lemma_find_seq_some_if_occurs(l: Seq<u64>, pat: Seq<u64>, k: int)
    requires
        occurs_at(l, pat, k),
    ensures
        find_seq(l, pat) is Some,
{
    if find_seq(l, pat) is None {
        crate::text::lemma_find_seq_occurs(l, pat);
    }
}

/// The bridged channels restored from storage, and whether the stored text
/// was corrupt.
pub struct BridgeRestored {
    pub list: BridgeList,
    pub corrupt: bool,
}

/// The bridged channels as they were stored: the stored ids bridged in turn;
/// nothing bridged where the file is missing or corrupt; an error where it
/// could not be read. A list stored by `start_bridge` or `stop_bridge` comes
/// back as it was.
pub fn restore_bridge_list(read: ReadOutcome) -> (res: Result<BridgeRestored, StorageError>)
    ensures
        match read {
            ReadOutcome::Contents(c) => res matches Ok(r) && r.list@ == spec_from_ids(
                match json_to_id_list(c@) {
                    Some(ids) => ids,
                    None => Seq::empty(),
                },
            ) && r.corrupt == json_to_id_list(c@) is None,
            ReadOutcome::NotFound => res matches Ok(r) && r.list@ == None::<Seq<u64>> && !r.corrupt,
            ReadOutcome::Failed(e) => res matches Err(StorageError::ReadFailed(m)) && m@ == e@,
        },
        res matches Ok(r) ==> bridge_wf(r.list@),
        // A stored list comes back as it was.
        forall|list: Option<Seq<u64>>|
            bridge_wf(list) && (read matches ReadOutcome::Contents(c) && c@ == #[trigger] json_id_list(
                stored_ids(list),
            )) ==> (res matches Ok(r) && r.list@ == list && !r.corrupt),
{
    let ghost text = match &read {
        ReadOutcome::Contents(c) => Some(c@),
        _ => None,
    };
    match read_bridge_channels(read) {
        Ok(loaded) => {
            let list = BridgeList::from_ids(&loaded.channels);
            proof {
                assert forall|l: Option<Seq<u64>>|
                    bridge_wf(l) && text == Some(#[trigger] json_id_list(stored_ids(l))) implies list@
                    == l by {
                    law_stored_list_restores(l);
                }
            }
            Ok(BridgeRestored { list, corrupt: loaded.corrupt })
        },
        Err(e) => Err(e),
    }
}

/// The message that a Minecraft event becomes in the bridged channels:
/// the name in bold, a colon, and the content.
pub fn relay_message(event: &FromMinecraftEvent) -> (res: String)
    ensures
        res@ == "**"@ + event.username@ + "**: "@ + event.content@,
{
    let mut s = String::new();
    s.append("**");
    s.append(event.username.as_str());
    s.append("**: ");
    s.append(event.content.as_str());
    s
}

} // verus!

//! Per-round message buffering: a broadcast store expects one message from
//! every other party; a point-to-point store expects one message from every
//! other party addressed to the local one.  Rejected messages carry a
//! classified cause.
use vstd::prelude::*;

verus! {

/// A protocol message.  No receiver means broadcast; a receiver names the
/// addressed party.  Parties are one-indexed.
pub struct Msg<B> {
    pub sender: u16,
    pub receiver: Option<u16>,
    pub body: B,
}

/// Why a store refused a message.
#[derive(Copy, Clone, PartialEq, Eq, Structural, Debug)]
pub enum StoreErr {
    /// A point-to-point message arrived where a broadcast was expected, or
    /// the other way round.
    WrongDirection,
    /// A point-to-point message addressed to some other party.
    NotAddressedToMe,
    /// The local party's own message came back.
    OwnMessage,
    /// The sender index is outside `[1, n]`.
    UnknownSender,
    /// The sender already delivered its message for this round.
    DuplicateSender,
    /// The round already holds everything it expects.
    TooManyMessages,
    /// The store was asked to finish before it was full.
    WantsMoreMessages,
    /// The message failed the round's validity check.
    InvalidMessage,
}

/// Whether a broadcast store takes this message: a broadcast from some
/// other known party that has not delivered yet.
pub open spec fn bstore_accepts<T>(
    s: &BroadcastStore<T>,
    sender: u16,
    receiver: Option<u16>,
) -> bool {
    receiver is None && sender != s.party_i && 1 <= sender <= s.parties_n && s.slots@[sender
        - 1] is None
}

/// The classified refusal a broadcast store answers, decided in the order
/// the checks run.
pub open spec fn bstore_refusal<T>(
    s: &BroadcastStore<T>,
    sender: u16,
    receiver: Option<u16>,
) -> StoreErr {
    if receiver is Some {
        StoreErr::WrongDirection
    } else if sender == s.party_i {
        StoreErr::OwnMessage
    } else if !(1 <= sender <= s.parties_n) {
        StoreErr::UnknownSender
    } else {
        StoreErr::DuplicateSender
    }
}

/// Whether a point-to-point store takes this message: addressed to the local
/// party, from some other known party that has not delivered yet.
pub open spec fn pstore_accepts<T>(
    s: &P2PStore<T>,
    sender: u16,
    receiver: Option<u16>,
) -> bool {
    receiver == Some(s.party_i) && sender != s.party_i && 1 <= sender <= s.parties_n
        && s.slots@[sender - 1] is None
}

/// The classified refusal a point-to-point store answers, decided in the
/// order the checks run.
pub open spec fn pstore_refusal<T>(
    s: &P2PStore<T>,
    sender: u16,
    receiver: Option<u16>,
) -> StoreErr {
    if receiver is None {
        StoreErr::WrongDirection
    } else if receiver != Some(s.party_i) {
        StoreErr::NotAddressedToMe
    } else if sender == s.party_i {
        StoreErr::OwnMessage
    } else if !(1 <= sender <= s.parties_n) {
        StoreErr::UnknownSender
    } else {
        StoreErr::DuplicateSender
    }
}

/// Buffers the round's broadcast messages, one slot per party.
pub struct BroadcastStore<T> {
    pub party_i: u16,
    pub parties_n: u16,
    pub slots: Vec<Option<T>>,
}

pub open spec fn bstore_wf<T>(s: &BroadcastStore<T>) -> bool {
    &&& s.slots@.len() == s.parties_n
    &&& 1 <= s.party_i <= s.parties_n
    &&& s.slots@[s.party_i - 1] is None
}

/// Every party but the local one has delivered.
pub open spec fn bstore_full<T>(s: &BroadcastStore<T>) -> bool {
    forall|j: int| 0 <= j < s.slots@.len() && j != s.party_i - 1 ==> s.slots@[j] is Some
}

impl<T> BroadcastStore<T> {
    /// An empty store for party `i` of `n`.
    pub fn new(i: u16, n: u16) -> (r: BroadcastStore<T>)
        requires
            1 <= i <= n,
        ensures
            bstore_wf(&r),
            forall|j: int| 0 <= j < r.slots@.len() ==> r.slots@[j] is None,
            r.party_i == i,
            r.parties_n == n,
    {
        let mut slots: Vec<Option<T>> = Vec::new();
        let mut k: usize = 0;
        while k < n as usize
            invariant
                k <= n,
                slots@.len() == k,
                forall|j: int| 0 <= j < k ==> slots@[j] is None,
            decreases n - k,
        {
            slots.push(None);
            k += 1;
        }
        BroadcastStore { party_i: i, parties_n: n, slots }
    }

    /// True while some other party's message is still missing.
    pub fn wants_more(&self) -> (r: bool)
        requires
            bstore_wf(self),
        ensures
            r == !bstore_full(self),
    {
        let mut j: usize = 0;
        while j < self.slots.len()
            invariant
                j <= self.slots@.len(),
                bstore_wf(self),
                forall|k: int| 0 <= k < j && k != self.party_i - 1 ==> self.slots@[k] is Some,
            decreases self.slots@.len() - j,
        {
            if j != self.party_i as usize - 1 && self.slots[j].is_none() {
                return true;
            }
            j += 1;
        }
        false
    }

    /// Accepts one broadcast message from a party that has not delivered yet.
    pub fn push_msg(&mut self, msg: Msg<T>) -> (r: Result<(), StoreErr>)
        requires
            bstore_wf(&*old(self)),
        ensures
            bstore_wf(&*final(self)),
            final(self).party_i == old(self).party_i,
            final(self).parties_n == old(self).parties_n,
            msg.receiver is Some ==> r == Err::<(), StoreErr>(StoreErr::WrongDirection)
                && final(self).slots@ == old(self).slots@,
            msg.receiver is None && msg.sender == old(self).party_i ==> r == Err::<(), StoreErr>(
                StoreErr::OwnMessage,
            ) && final(self).slots@ == old(self).slots@,
            msg.receiver is None && msg.sender != old(self).party_i && !(1 <= msg.sender
                <= old(self).parties_n) ==> r == Err::<(), StoreErr>(StoreErr::UnknownSender)
                && final(self).slots@ == old(self).slots@,
            msg.receiver is None && msg.sender != old(self).party_i && 1 <= msg.sender
                <= old(self).parties_n && old(self).slots@[msg.sender - 1] is Some ==> r == Err::<
                (),
                StoreErr,
            >(StoreErr::DuplicateSender) && final(self).slots@ == old(self).slots@,
            msg.receiver is None && msg.sender != old(self).party_i && 1 <= msg.sender
                <= old(self).parties_n && old(self).slots@[msg.sender - 1] is None ==> r == Ok::<
                (),
                StoreErr,
            >(()) && final(self).slots@ == old(self).slots@.update(
                msg.sender - 1,
                Some(msg.body),
            ),
            bstore_accepts(&*old(self), msg.sender, msg.receiver) ==> r is Ok,
            !bstore_accepts(&*old(self), msg.sender, msg.receiver) ==> r == Err::<(), StoreErr>(
                bstore_refusal(&*old(self), msg.sender, msg.receiver),
            ) && *final(self) == *old(self),
    {
        if msg.receiver.is_some() {
            return Err(StoreErr::WrongDirection);
        }
        if msg.sender == self.party_i {
            return Err(StoreErr::OwnMessage);
        }
        if !(1 <= msg.sender && msg.sender <= self.parties_n) {
            return Err(StoreErr::UnknownSender);
        }
        if self.slots[msg.sender as usize - 1].is_some() {
            return Err(StoreErr::DuplicateSender);
        }
        self.slots.set(msg.sender as usize - 1, Some(msg.body));
        Ok(())
    }

    /// Hands back everything in ascending party order, the local party's own
    /// contribution merged in at its slot.
    pub fn into_vec_including_me(self, own: T) -> (r: Vec<T>)
        requires
            bstore_wf(&self),
            bstore_full(&self),
        ensures
            r@.len() == self.parties_n,
            forall|j: int|
                0 <= j < r@.len() ==> r@[j] == if j == self.party_i - 1 {
                    own
                } else {
                    self.slots@[j]->Some_0
                },
    {
        let ghost gself = self;
        let mut r: Vec<T> = Vec::new();
        let mut own_opt: Option<T> = Some(own);
        let mut rest = self.slots;
        let n = self.parties_n;
        let party_i = self.party_i;
        let ghost gown = own_opt->Some_0;
        let mut j: usize = 0;
        proof {
            assert(rest@ =~= gself.slots@.subrange(0, n as int));
        }
        while j < n as usize
            invariant
                j <= n,
                gself.parties_n == n,
                gself.party_i == party_i,
                gself.slots@.len() == n,
                rest@.len() == n - j,
                rest@ =~= gself.slots@.subrange(j as int, n as int),
                1 <= party_i <= n,
                j <= party_i - 1 ==> own_opt == Some(gown),
                r@.len() == j,
                bstore_full(&gself),
                forall|k: int|
                    0 <= k < j ==> r@[k] == if k == party_i - 1 {
                        gown
                    } else {
                        gself.slots@[k]->Some_0
                    },
            decreases n - j,
        {
            let top = rest.remove(0);
            proof {
                assert(rest@ =~= gself.slots@.subrange(j + 1, n as int));
                assert(gself.slots@.subrange(j as int, n as int)[0] == gself.slots@[j as int]);
            }
            if j == party_i as usize - 1 {
                let mut taken: Option<T> = None;
                core::mem::swap(&mut taken, &mut own_opt);
                r.push(taken.unwrap());
            } else {
                r.push(top.unwrap());
            }
            j += 1;
        }
        r
    }
}

/// Buffers the round's point-to-point messages addressed to the local party.
pub struct P2PStore<T> {
    pub party_i: u16,
    pub parties_n: u16,
    pub slots: Vec<Option<T>>,
}

pub open spec fn pstore_wf<T>(s: &P2PStore<T>) -> bool {
    &&& s.slots@.len() == s.parties_n
    &&& 1 <= s.party_i <= s.parties_n
    &&& s.slots@[s.party_i - 1] is None
}

pub open spec fn pstore_full<T>(s: &P2PStore<T>) -> bool {
    forall|j: int| 0 <= j < s.slots@.len() && j != s.party_i - 1 ==> s.slots@[j] is Some
}

impl<T> P2PStore<T> {
    /// An empty store for party `i` of `n`.
    pub fn new(i: u16, n: u16) -> (r: P2PStore<T>)
        requires
            1 <= i <= n,
        ensures
            pstore_wf(&r),
            forall|j: int| 0 <= j < r.slots@.len() ==> r.slots@[j] is None,
            r.party_i == i,
            r.parties_n == n,
    {
        let b: BroadcastStore<T> = BroadcastStore::new(i, n);
        P2PStore { party_i: b.party_i, parties_n: b.parties_n, slots: b.slots }
    }

    /// True while some other party's message is still missing.
    pub fn wants_more(&self) -> (r: bool)
        requires
            pstore_wf(self),
        ensures
            r == !pstore_full(self),
    {
        let mut j: usize = 0;
        while j < self.slots.len()
            invariant
                j <= self.slots@.len(),
                pstore_wf(self),
                forall|k: int| 0 <= k < j && k != self.party_i - 1 ==> self.slots@[k] is Some,
            decreases self.slots@.len() - j,
        {
            if j != self.party_i as usize - 1 && self.slots[j].is_none() {
                return true;
            }
            j += 1;
        }
        false
    }

    /// Accepts one message addressed to the local party from a party that has
    /// not delivered yet.
    pub fn push_msg(&mut self, msg: Msg<T>) -> (r: Result<(), StoreErr>)
        requires
            pstore_wf(&*old(self)),
        ensures
            pstore_wf(&*final(self)),
            final(self).party_i == old(self).party_i,
            final(self).parties_n == old(self).parties_n,
            msg.receiver is None ==> r == Err::<(), StoreErr>(StoreErr::WrongDirection)
                && final(self).slots@ == old(self).slots@,
            msg.receiver is Some && msg.receiver->Some_0 != old(self).party_i ==> r == Err::<
                (),
                StoreErr,
            >(StoreErr::NotAddressedToMe) && final(self).slots@ == old(self).slots@,
            msg.receiver == Some(old(self).party_i) && msg.sender == old(self).party_i ==> r
                == Err::<(), StoreErr>(StoreErr::OwnMessage) && final(self).slots@ == old(
                self,
            ).slots@,
            msg.receiver == Some(old(self).party_i) && msg.sender != old(self).party_i && !(1
                <= msg.sender <= old(self).parties_n) ==> r == Err::<(), StoreErr>(
                StoreErr::UnknownSender,
            ) && final(self).slots@ == old(self).slots@,
            msg.receiver == Some(old(self).party_i) && msg.sender != old(self).party_i && 1
                <= msg.sender <= old(self).parties_n && old(self).slots@[msg.sender - 1] is Some
                ==> r == Err::<(), StoreErr>(StoreErr::DuplicateSender) && final(self).slots@
                == old(self).slots@,
            msg.receiver == Some(old(self).party_i) && msg.sender != old(self).party_i && 1
                <= msg.sender <= old(self).parties_n && old(self).slots@[msg.sender - 1] is None
                ==> r == Ok::<(), StoreErr>(()) && final(self).slots@ == old(self).slots@.update(
                msg.sender - 1,
                Some(msg.body),
            ),
            pstore_accepts(&*old(self), msg.sender, msg.receiver) ==> r is Ok,
            !pstore_accepts(&*old(self), msg.sender, msg.receiver) ==> r == Err::<(), StoreErr>(
                pstore_refusal(&*old(self), msg.sender, msg.receiver),
            ) && *final(self) == *old(self),
    {
        match msg.receiver {
            None => {
                return Err(StoreErr::WrongDirection);
            },
            Some(to) => {
                if to != self.party_i {
                    return Err(StoreErr::NotAddressedToMe);
                }
            },
        }
        if msg.sender == self.party_i {
            return Err(StoreErr::OwnMessage);
        }
        if !(1 <= msg.sender && msg.sender <= self.parties_n) {
            return Err(StoreErr::UnknownSender);
        }
        if self.slots[msg.sender as usize - 1].is_some() {
            return Err(StoreErr::DuplicateSender);
        }
        self.slots.set(msg.sender as usize - 1, Some(msg.body));
        Ok(())
    }

    /// Hands back everything in ascending party order, the local party's own
    /// contribution merged in at its slot.
    pub fn into_vec_including_me(self, own: T) -> (r: Vec<T>)
        requires
            pstore_wf(&self),
            pstore_full(&self),
        ensures
            r@.len() == self.parties_n,
            forall|j: int|
                0 <= j < r@.len() ==> r@[j] == if j == self.party_i - 1 {
                    own
                } else {
                    self.slots@[j]->Some_0
                },
    {
        let b = BroadcastStore { party_i: self.party_i, parties_n: self.parties_n, slots: self.slots };
        b.into_vec_including_me(own)
    }
}

} // verus!

//! The whole persistent state of one bridge instance, its mathematical view,
//! and the well-formedness invariant every operation preserves.

use vstd::prelude::*;
use crate::datatypes::{CollectionInfo, CollectionTokens, CollectionTokensV, IbcPacketOutgoing, IbcPacketOutgoingV, PacketTypeV, State, StateV, UserData, UserDataV, ChannelInfo, ChannelInfoV, str_seq_view};
use crate::order::lex_lt;

verus! {

/// One in-flight request, keyed by (initiating user, request id).
#[derive(Clone, Debug, PartialEq, Eq)]
pub struct PendingPacket {
    pub user: String,
    pub packet: IbcPacketOutgoing,
}

#[verifier::ext_equal]
pub struct PendingPacketV {
    pub user: Seq<char>,
    pub packet: IbcPacketOutgoingV,
}

impl View for PendingPacket {
    type V = PendingPacketV;

    open spec fn view(&self) -> PendingPacketV {
        PendingPacketV { user: self.user@, packet: self.packet@ }
    }
}

/// The consecutive-timeout counter of one (token, user) unlock attempt.
#[derive(Clone, Debug, PartialEq, Eq)]
pub struct TimeoutEntry {
    pub token_id: String,
    pub user: String,
    pub count: u8,
}

#[verifier::ext_equal]
pub struct TimeoutEntryV {
    pub token_id: Seq<char>,
    pub user: Seq<char>,
    pub count: u8,
}

impl View for TimeoutEntry {
    type V = TimeoutEntryV;

    open spec fn view(&self) -> TimeoutEntryV {
        TimeoutEntryV { token_id: self.token_id@, user: self.user@, count: self.count }
    }
}

/// The full state of one bridge instance: configuration, the single channel
/// slot, the request-id allocator, the user ledger (sorted by address), the
/// pending-request ledger (in insertion order, so ids ascend), and the
/// timeout counters.
#[derive(Clone, Debug, PartialEq, Eq)]
pub struct Contract {
    pub state: State,
    pub channel: Option<ChannelInfo>,
    pub last_request_id: u128,
    pub users: Vec<UserData>,
    pub pending: Vec<PendingPacket>,
    pub timeouts: Vec<TimeoutEntry>,
}

#[verifier::ext_equal]
pub struct ContractV {
    pub state: StateV,
    pub channel: Option<ChannelInfoV>,
    pub last_request_id: u128,
    pub users: Seq<UserDataV>,
    pub pending: Seq<PendingPacketV>,
    pub timeouts: Seq<TimeoutEntryV>,
}

impl View for Contract {
    type V = ContractV;

    open spec fn view(&self) -> ContractV {
        ContractV {
            state: self.state@,
            channel: match self.channel {
                Some(c) => Some(c@),
                None => None,
            },
            last_request_id: self.last_request_id,
            users: self.users@.map_values(|u: UserData| u@),
            pending: self.pending@.map_values(|p: PendingPacket| p@),
            timeouts: self.timeouts@.map_values(|t: TimeoutEntry| t@),
        }
    }
}

// ---------------------------------------------------------------------------
// Finding the first element that satisfies a predicate.

/// The first index of `s` whose element satisfies `p`, or `-1`.
pub open spec fn find_by<T>(s: Seq<T>, p: spec_fn(T) -> bool) -> int
    decreases s.len(),
{
    if s.len() == 0 {
        -1
    } else if p(s[0]) {
        0
    } else if find_by(s.drop_first(), p) < 0 {
        -1
    } else {
        find_by(s.drop_first(), p) + 1
    }
}

/// `find_by` names the first match, and `-1` means there is none.
pub proof fn lemma_find_by<T>(s: Seq<T>, p: spec_fn(T) -> bool)
    ensures
        find_by(s, p) < 0 ==> forall|i: int| 0 <= i < s.len() ==> !p(#[trigger] s[i]),
        find_by(s, p) >= 0 ==> 0 <= find_by(s, p) < s.len() && p(s[find_by(s, p)]) && forall|i: int|
            0 <= i < find_by(s, p) ==> !p(#[trigger] s[i]),
    decreases s.len(),
{
    if s.len() > 0 && !p(s[0]) {
        let t = s.drop_first();
        lemma_find_by(t, p);
        assert forall|i: int| 1 <= i < s.len() implies t[i - 1] == s[i] by {}
        if find_by(s, p) < 0 {
            assert forall|i: int| 0 <= i < s.len() implies !p(s[i]) by {
                if i >= 1 {
                    assert(!p(t[i - 1]));
                }
            }
        } else {
            assert forall|i: int| 0 <= i < find_by(s, p) implies !p(s[i]) by {
                if i >= 1 {
                    assert(!p(t[i - 1]));
                }
            }
        }
    }
}

/// A first match at `i` pins `find_by` to `i`.
pub proof fn lemma_find_by_is_first<T>(s: Seq<T>, p: spec_fn(T) -> bool, i: int)
    requires
        0 <= i < s.len(),
        p(s[i]),
        forall|j: int| 0 <= j < i ==> !p(#[trigger] s[j]),
    ensures
        find_by(s, p) == i,
{
    lemma_find_by(s, p);
    let f = find_by(s, p);
    if f < 0 {
        assert(!p(s[i]));
    } else if f < i {
        assert(!p(s[f]));
    } else if f > i {
        assert(!p(s[i]));
    }
}

/// No match at all pins `find_by` to `-1`.
pub proof fn lemma_find_by_none<T>(s: Seq<T>, p: spec_fn(T) -> bool)
    requires
        forall|j: int| 0 <= j < s.len() ==> !p(#[trigger] s[j]),
    ensures
        find_by(s, p) == -1,
{
    lemma_find_by(s, p);
    if find_by(s, p) >= 0 {
        assert(!p(s[find_by(s, p)]));
    }
}

/// Pointwise-equivalent predicates find the same index.
pub proof fn lemma_find_by_equiv<T>(s1: Seq<T>, s2: Seq<T>, p: spec_fn(T) -> bool)
    requires
        s1.len() == s2.len(),
        forall|i: int| 0 <= i < s1.len() ==> (p(#[trigger] s1[i]) <==> p(#[trigger] s2[i])),
    ensures
        find_by(s1, p) == find_by(s2, p),
{
    lemma_find_by(s1, p);
    lemma_find_by(s2, p);
    let f1 = find_by(s1, p);
    let f2 = find_by(s2, p);
    if f1 < 0 && f2 >= 0 {
        assert(!p(s1[f2]));
    } else if f1 >= 0 && f2 < 0 {
        assert(!p(s2[f1]));
    } else if f1 >= 0 && f2 >= 0 && f1 < f2 {
        assert(!p(s2[f1]));
    } else if f1 >= 0 && f2 >= 0 && f2 < f1 {
        assert(!p(s1[f2]));
    }
}

/// Appending the first match puts it at the end.
pub proof fn lemma_find_by_push_first<T>(s: Seq<T>, p: spec_fn(T) -> bool, e: T)
    requires
        forall|i: int| 0 <= i < s.len() ==> !p(#[trigger] s[i]),
        p(e),
    ensures
        find_by(s.push(e), p) == s.len(),
{
    let s2 = s.push(e);
    assert forall|j: int| 0 <= j < s.len() implies !p(#[trigger] s2[j]) by {
        assert(s2[j] == s[j]);
    }
    lemma_find_by_is_first(s2, p, s.len() as int);
}

// ---------------------------------------------------------------------------
// Counting occurrences of one token id.

/// How many entries of `s` are exactly `t`.
pub open spec fn count_matches(s: Seq<Seq<char>>, t: Seq<char>) -> nat
    decreases s.len(),
{
    if s.len() == 0 {
        0
    } else {
        count_matches(s.drop_last(), t) + (if s.last() == t {
            1nat
        } else {
            0nat
        })
    }
}

/// Appending an element raises its own count by one and no other.
pub proof fn lemma_count_push(s: Seq<Seq<char>>, e: Seq<char>, t: Seq<char>)
    ensures
        count_matches(s.push(e), t) == count_matches(s, t) + (if e == t {
            1nat
        } else {
            0nat
        }),
{
    assert(s.push(e).drop_last() =~= s);
    assert(s.push(e).last() == e);
}

/// In a filtered sequence nothing violates the filter: every copy of `t` is
/// gone after keeping only what differs from `t`.
pub proof fn lemma_count_filter_ne(s: Seq<Seq<char>>, t: Seq<char>)
    ensures
        count_matches(s.filter(ne_key(t)), t) == 0,
{
    let f = s.filter(ne_key(t));
    broadcast use vstd::seq_lib::group_filter_ensures;

    assert forall|i: int| 0 <= i < f.len() implies f[i] != t by {
        assert(ne_key(t)(f[i]));
    }
    lemma_count_all_miss(f, t);
}

/// A sequence without `t` counts zero copies of `t`.
pub proof fn lemma_count_all_miss(s: Seq<Seq<char>>, t: Seq<char>)
    requires
        forall|i: int| 0 <= i < s.len() ==> s[i] != t,
    ensures
        count_matches(s, t) == 0,
    decreases s.len(),
{
    if s.len() > 0 {
        lemma_count_all_miss(s.drop_last(), t);
    }
}

/// A sequence containing `t` counts at least one copy.
pub proof fn lemma_count_hit(s: Seq<Seq<char>>, t: Seq<char>, i: int)
    requires
        0 <= i < s.len(),
        s[i] == t,
    ensures
        count_matches(s, t) >= 1,
    decreases s.len(),
{
    if i == s.len() - 1 {
    } else {
        lemma_count_hit(s.drop_last(), t, i);
    }
}

// ---------------------------------------------------------------------------
// The key predicates of the three ledgers.

/// Differs from the given token id (what a removal keeps).
pub open spec fn ne_key(t: Seq<char>) -> spec_fn(Seq<char>) -> bool {
    |x: Seq<char>| x != t
}

/// Matches the user record with this address.
pub open spec fn user_key(addr: Seq<char>) -> spec_fn(UserDataV) -> bool {
    |u: UserDataV| u.address == addr
}

/// Matches the collection entry with this name.
pub open spec fn coll_key(coll: Seq<char>) -> spec_fn(CollectionTokensV) -> bool {
    |c: CollectionTokensV| c.collection == coll
}

/// Matches the pending request under key (user, id).
pub open spec fn pending_key(user: Seq<char>, id: u128) -> spec_fn(PendingPacketV) -> bool {
    |p: PendingPacketV| p.user == user && p.packet.request_id == id
}

/// Matches the timeout counter under key (token, user).
pub open spec fn timeout_key(tok: Seq<char>, user: Seq<char>) -> spec_fn(TimeoutEntryV) -> bool {
    |t: TimeoutEntryV| t.token_id == tok && t.user == user
}

// ---------------------------------------------------------------------------
// The keys of packets and ledgers.

/// The initiating user named inside a packet payload.
pub open spec fn packet_user(p: PacketTypeV) -> Seq<char> {
    match p {
        PacketTypeV::LockRequest { user, .. } => user,
        PacketTypeV::UnlockRequest { user, .. } => user,
    }
}

/// The token id named inside a packet payload.
pub open spec fn packet_token(p: PacketTypeV) -> Seq<char> {
    match p {
        PacketTypeV::LockRequest { token_id, .. } => token_id,
        PacketTypeV::UnlockRequest { token_id, .. } => token_id,
    }
}

/// The collection named inside a packet payload.
pub open spec fn packet_collection(p: PacketTypeV) -> Seq<char> {
    match p {
        PacketTypeV::LockRequest { collection, .. } => collection,
        PacketTypeV::UnlockRequest { collection, .. } => collection,
    }
}

/// Whether the payload is a lock intent.
pub open spec fn is_lock(p: PacketTypeV) -> bool {
    p is LockRequest
}

impl ContractV {
    /// The index of the user record with this address, or `-1`.
    pub open spec fn user_index(self, addr: Seq<char>) -> int {
        find_by(self.users, user_key(addr))
    }

    pub open spec fn has_user(self, addr: Seq<char>) -> bool {
        self.user_index(addr) >= 0
    }

    pub open spec fn user(self, addr: Seq<char>) -> UserDataV {
        self.users[self.user_index(addr)]
    }

    /// The credit balance of an address; an absent record holds nothing.
    pub open spec fn credits_of(self, addr: Seq<char>) -> u16 {
        if self.has_user(addr) {
            self.user(addr).lock_credits
        } else {
            0
        }
    }

    /// The token ids this address has locked in this collection.
    pub open spec fn tokens_of(self, addr: Seq<char>, coll: Seq<char>) -> Seq<Seq<char>> {
        if !self.has_user(addr) {
            Seq::empty()
        } else {
            let u = self.user(addr);
            let ci = find_by(u.locked_tokens, coll_key(coll));
            if ci < 0 {
                Seq::empty()
            } else {
                u.locked_tokens[ci].token_ids
            }
        }
    }

    /// How many times one token id appears in this user's collection entry.
    pub open spec fn token_count(self, addr: Seq<char>, coll: Seq<char>, tok: Seq<char>) -> nat {
        count_matches(self.tokens_of(addr, coll), tok)
    }

    /// Custody membership: authoritative for "is this asset locked".
    pub open spec fn locked(self, addr: Seq<char>, coll: Seq<char>, tok: Seq<char>) -> bool {
        self.token_count(addr, coll, tok) > 0
    }

    /// The index of the pending request under key (user, id), or `-1`.
    pub open spec fn pending_index(self, user: Seq<char>, id: u128) -> int {
        find_by(self.pending, pending_key(user, id))
    }

    pub open spec fn has_pending(self, user: Seq<char>, id: u128) -> bool {
        self.pending_index(user, id) >= 0
    }

    /// The index of the timeout counter under key (token, user), or `-1`.
    pub open spec fn timeout_index(self, tok: Seq<char>, user: Seq<char>) -> int {
        find_by(self.timeouts, timeout_key(tok, user))
    }

    /// The consecutive-timeout count of one (token, user) pair, `0` if absent.
    pub open spec fn timeout_count(self, tok: Seq<char>, user: Seq<char>) -> u8 {
        if self.timeout_index(tok, user) >= 0 {
            self.timeouts[self.timeout_index(tok, user)].count
        } else {
            0
        }
    }

    /// Whether this collection address is in the allow-list.
    pub open spec fn collection_supported(self, coll: Seq<char>) -> bool {
        exists|i: int| 0 <= i < self.state.collections.len() && self.state.collections[i] == coll
    }

    /// Sends are permitted only over a finalized channel.
    pub open spec fn channel_ready(self) -> bool {
        match self.channel {
            Some(c) => c.finalized,
            None => false,
        }
    }

    /// Well-formedness: users strictly sorted by address (hence unique) with
    /// unique collection entries, pending ids strictly ascending in insertion
    /// order and tied to the allocator, and timeout-counter keys unique with
    /// positive counts.
    pub open spec fn wf(self) -> bool {
        &&& users_wf(self.users)
        &&& pending_wf(self.pending, self.last_request_id)
        &&& timeouts_wf(self.timeouts)
    }
}

/// The user ledger is sorted by address and each record's collection entries
/// carry distinct collection names.
pub open spec fn users_wf(users: Seq<UserDataV>) -> bool {
    &&& sorted_users(users)
    &&& forall|k: int, i: int, j: int|
        0 <= k < users.len() && 0 <= i < j < users[k].locked_tokens.len() ==> (
        #[trigger] users[k].locked_tokens[i]).collection != (#[trigger] users[k].locked_tokens[j]).collection
}

/// Pending ids strictly ascend in insertion order, stay within what the
/// allocator has handed out, and each entry's key names its payload's user.
pub open spec fn pending_wf(pending: Seq<PendingPacketV>, last_request_id: u128) -> bool {
    &&& forall|i: int, j: int|
        0 <= i < j < pending.len() ==> (#[trigger] pending[i].packet.request_id) < (
        #[trigger] pending[j].packet.request_id)
    &&& forall|i: int|
        0 <= i < pending.len() ==> 1 <= (#[trigger] pending[i].packet.request_id)
            <= last_request_id
    &&& forall|i: int|
        0 <= i < pending.len() ==> (#[trigger] pending[i].user) == packet_user(
            pending[i].packet.packet_type,
        )
}

/// Timeout-counter keys are unique and every stored count is positive.
pub open spec fn timeouts_wf(timeouts: Seq<TimeoutEntryV>) -> bool {
    &&& forall|i: int, j: int|
        0 <= i < j < timeouts.len() ==> !((#[trigger] timeouts[i].token_id) == (
        #[trigger] timeouts[j].token_id) && timeouts[i].user == timeouts[j].user)
    &&& forall|i: int| 0 <= i < timeouts.len() ==> (#[trigger] timeouts[i].count) >= 1
}

/// Removing one pending entry keeps the pending ledger well-formed.
pub proof fn lemma_pending_wf_remove(s: Seq<PendingPacketV>, last: u128, k: int)
    requires
        pending_wf(s, last),
        0 <= k < s.len(),
    ensures
        pending_wf(s.remove(k), last),
{
    let s2 = s.remove(k);
    assert forall|i: int| 0 <= i < s2.len() implies (#[trigger] s2[i]) == s[if i < k {
        i
    } else {
        i + 1
    }] by {}
}

/// Removing one timeout counter keeps the counters well-formed.
pub proof fn lemma_timeouts_wf_remove(s: Seq<TimeoutEntryV>, k: int)
    requires
        timeouts_wf(s),
        0 <= k < s.len(),
    ensures
        timeouts_wf(s.remove(k)),
{
    let s2 = s.remove(k);
    assert forall|i: int| 0 <= i < s2.len() implies (#[trigger] s2[i]) == s[if i < k {
        i
    } else {
        i + 1
    }] by {}
}

/// Raising one stored count to a positive value keeps the counters
/// well-formed.
pub proof fn lemma_timeouts_wf_update(s: Seq<TimeoutEntryV>, k: int, e: TimeoutEntryV)
    requires
        timeouts_wf(s),
        0 <= k < s.len(),
        e.token_id == s[k].token_id,
        e.user == s[k].user,
        e.count >= 1,
    ensures
        timeouts_wf(s.update(k, e)),
{
}

/// Appending a counter under a fresh key keeps the counters well-formed.
pub proof fn lemma_timeouts_wf_push(s: Seq<TimeoutEntryV>, e: TimeoutEntryV)
    requires
        timeouts_wf(s),
        e.count >= 1,
        forall|i: int|
            0 <= i < s.len() ==> !((#[trigger] s[i]).token_id == e.token_id && s[i].user
                == e.user),
    ensures
        timeouts_wf(s.push(e)),
{
    let s2 = s.push(e);
    assert forall|i: int, j: int|
        0 <= i < j < s2.len() implies !((#[trigger] s2[i].token_id) == (#[trigger] s2[j].token_id)
        && s2[i].user == s2[j].user) by {
        if j < s.len() {
            assert(s2[i] == s[i]);
            assert(s2[j] == s[j]);
        } else {
            assert(s2[i] == s[i]);
            assert(s2[j] == e);
        }
    }
}

/// Replacing one record by another with the same address and with distinct
/// collection names keeps the user ledger well-formed.
pub proof fn lemma_users_wf_update(s: Seq<UserDataV>, i: int, u: UserDataV)
    requires
        users_wf(s),
        0 <= i < s.len(),
        u.address == s[i].address,
        forall|a: int, b: int|
            0 <= a < b < u.locked_tokens.len() ==> (#[trigger] u.locked_tokens[a]).collection != (
            #[trigger] u.locked_tokens[b]).collection,
    ensures
        users_wf(s.update(i, u)),
{
    let s2 = s.update(i, u);
    assert forall|a: int, b: int|
        0 <= a < b < s2.len() implies lex_lt((#[trigger] s2[a]).address, (#[trigger] s2[b]).address) by {
        assert(s2[a].address == s[a].address);
        assert(s2[b].address == s[b].address);
    }
    assert forall|k: int, a: int, b: int|
        0 <= k < s2.len() && 0 <= a < b < s2[k].locked_tokens.len() implies (
    #[trigger] s2[k].locked_tokens[a]).collection != (#[trigger] s2[k].locked_tokens[b]).collection by {
        if k != i {
            assert(s2[k] == s[k]);
        }
    }
}

/// Inserting a fresh record with distinct collection names at its place
/// keeps the user ledger well-formed.
pub proof fn lemma_users_wf_insert(s: Seq<UserDataV>, u: UserDataV)
    requires
        users_wf(s),
        forall|k: int| 0 <= k < s.len() ==> (#[trigger] s[k]).address != u.address,
        forall|a: int, b: int|
            0 <= a < b < u.locked_tokens.len() ==> (#[trigger] u.locked_tokens[a]).collection != (
            #[trigger] u.locked_tokens[b]).collection,
    ensures
        users_wf(s.insert(user_place(s, u.address), u)),
{
    lemma_sorted_insert_user(s, u);
    let p = user_place(s, u.address);
    lemma_user_place_props(s, u.address);
    let s2 = s.insert(p, u);
    assert forall|k: int, a: int, b: int|
        0 <= k < s2.len() && 0 <= a < b < s2[k].locked_tokens.len() implies (
    #[trigger] s2[k].locked_tokens[a]).collection != (#[trigger] s2[k].locked_tokens[b]).collection by {
        if k != p {
            let ok: int = if k < p {
                k
            } else {
                k - 1
            };
            assert(s2[k] == s[ok]);
        }
    }
}

impl Contract {
    /// Well-formedness of the real state is that of its view.
    pub open spec fn wf(self) -> bool {
        self@.wf()
    }
}

// ---------------------------------------------------------------------------
// Exec lookups, each pinned to its spec counterpart.

/// Finds the position of an address in the user ledger.
pub fn find_user_pos(users: &Vec<UserData>, addr: &String) -> (r: Option<usize>)
    ensures
        match r {
            Some(i) => i < users@.len() && find_by(
                users@.map_values(|u: UserData| u@),
                user_key(addr@),
            ) == i as int,
            None => find_by(users@.map_values(|u: UserData| u@), user_key(addr@)) == -1,
        },
{
    let ghost s = users@.map_values(|u: UserData| u@);
    let mut i: usize = 0;
    while i < users.len()
        invariant
            i <= users@.len(),
            s == users@.map_values(|u: UserData| u@),
            forall|j: int| 0 <= j < i ==> !user_key(addr@)(#[trigger] s[j]),
        decreases users@.len() - i,
    {
        proof {
            assert(s[i as int] == users@[i as int]@);
        }
        if users[i].address == *addr {
            proof {
                assert(user_key(addr@)(s[i as int]));
                lemma_find_by_is_first(s, user_key(addr@), i as int);
            }
            return Some(i);
        }
        i = i + 1;
    }
    proof {
        lemma_find_by_none(s, user_key(addr@));
    }
    None
}

/// Finds the position of a collection in one user's locked-token entries.
pub fn find_coll_pos(entries: &Vec<CollectionTokens>, coll: &String) -> (r: Option<usize>)
    ensures
        match r {
            Some(i) => i < entries@.len() && find_by(
                entries@.map_values(|c: CollectionTokens| c@),
                coll_key(coll@),
            ) == i as int,
            None => find_by(
                entries@.map_values(|c: CollectionTokens| c@),
                coll_key(coll@),
            ) == -1,
        },
{
    let ghost s = entries@.map_values(|c: CollectionTokens| c@);
    let mut i: usize = 0;
    while i < entries.len()
        invariant
            i <= entries@.len(),
            s == entries@.map_values(|c: CollectionTokens| c@),
            forall|j: int| 0 <= j < i ==> !coll_key(coll@)(#[trigger] s[j]),
        decreases entries@.len() - i,
    {
        proof {
            assert(s[i as int] == entries@[i as int]@);
        }
        if entries[i].collection == *coll {
            proof {
                assert(coll_key(coll@)(s[i as int]));
                lemma_find_by_is_first(s, coll_key(coll@), i as int);
            }
            return Some(i);
        }
        i = i + 1;
    }
    proof {
        lemma_find_by_none(s, coll_key(coll@));
    }
    None
}

/// Finds the position of a pending request under key (user, id).
pub fn find_pending_pos(pending: &Vec<PendingPacket>, user: &String, id: u128) -> (r: Option<
    usize,
>)
    ensures
        match r {
            Some(i) => i < pending@.len() && find_by(
                pending@.map_values(|p: PendingPacket| p@),
                pending_key(user@, id),
            ) == i as int,
            None => find_by(
                pending@.map_values(|p: PendingPacket| p@),
                pending_key(user@, id),
            ) == -1,
        },
{
    let ghost s = pending@.map_values(|p: PendingPacket| p@);
    let mut i: usize = 0;
    while i < pending.len()
        invariant
            i <= pending@.len(),
            s == pending@.map_values(|p: PendingPacket| p@),
            forall|j: int| 0 <= j < i ==> !pending_key(user@, id)(#[trigger] s[j]),
        decreases pending@.len() - i,
    {
        proof {
            assert(s[i as int] == pending@[i as int]@);
        }
        if pending[i].user == *user && pending[i].packet.request_id == id {
            proof {
                assert(pending_key(user@, id)(s[i as int]));
                lemma_find_by_is_first(s, pending_key(user@, id), i as int);
            }
            return Some(i);
        }
        i = i + 1;
    }
    proof {
        lemma_find_by_none(s, pending_key(user@, id));
    }
    None
}

/// Finds the position of a timeout counter under key (token, user).
pub fn find_timeout_pos(timeouts: &Vec<TimeoutEntry>, tok: &String, user: &String) -> (r: Option<
    usize,
>)
    ensures
        match r {
            Some(i) => i < timeouts@.len() && find_by(
                timeouts@.map_values(|t: TimeoutEntry| t@),
                timeout_key(tok@, user@),
            ) == i as int,
            None => find_by(
                timeouts@.map_values(|t: TimeoutEntry| t@),
                timeout_key(tok@, user@),
            ) == -1,
        },
{
    let ghost s = timeouts@.map_values(|t: TimeoutEntry| t@);
    let mut i: usize = 0;
    while i < timeouts.len()
        invariant
            i <= timeouts@.len(),
            s == timeouts@.map_values(|t: TimeoutEntry| t@),
            forall|j: int| 0 <= j < i ==> !timeout_key(tok@, user@)(#[trigger] s[j]),
        decreases timeouts@.len() - i,
    {
        proof {
            assert(s[i as int] == timeouts@[i as int]@);
        }
        if timeouts[i].token_id == *tok && timeouts[i].user == *user {
            proof {
                assert(timeout_key(tok@, user@)(s[i as int]));
                lemma_find_by_is_first(s, timeout_key(tok@, user@), i as int);
            }
            return Some(i);
        }
        i = i + 1;
    }
    proof {
        lemma_find_by_none(s, timeout_key(tok@, user@));
    }
    None
}

// ---------------------------------------------------------------------------
// Sortedness of the user ledger.

/// Addresses strictly ascend.
pub open spec fn sorted_users(s: Seq<UserDataV>) -> bool {
    forall|i: int, j: int|
        0 <= i < j < s.len() ==> lex_lt((#[trigger] s[i]).address, (#[trigger] s[j]).address)
}

/// The prefix before a record's place comes before its address, and the
/// record at its place does not.
pub proof fn lemma_user_place_props(s: Seq<UserDataV>, addr: Seq<char>)
    ensures
        0 <= user_place(s, addr) <= s.len(),
        forall|j: int| 0 <= j < user_place(s, addr) ==> lex_lt((#[trigger] s[j]).address, addr),
        user_place(s, addr) < s.len() ==> !lex_lt(s[user_place(s, addr)].address, addr),
    decreases s.len(),
{
    if s.len() > 0 && lex_lt(s[0].address, addr) {
        let t = s.drop_first();
        lemma_user_place_props(t, addr);
        let p = user_place(s, addr);
        assert forall|j: int| 0 <= j < p implies lex_lt((#[trigger] s[j]).address, addr) by {
            if j >= 1 {
                assert(t[j - 1] == s[j]);
            }
        }
        if p < s.len() {
            assert(t[p - 1] == s[p]);
        }
    }
}

/// Inserting a fresh record at its place keeps the ledger sorted.
pub proof fn lemma_sorted_insert_user(s: Seq<UserDataV>, u: UserDataV)
    requires
        sorted_users(s),
        forall|k: int| 0 <= k < s.len() ==> (#[trigger] s[k]).address != u.address,
    ensures
        sorted_users(s.insert(user_place(s, u.address), u)),
{
    let p = user_place(s, u.address);
    lemma_user_place_props(s, u.address);
    let s2 = s.insert(p, u);
    if p < s.len() {
        crate::order::lemma_lex_trichotomy(s[p].address, u.address);
    }
    assert forall|i: int, j: int|
        0 <= i < j < s2.len() implies lex_lt((#[trigger] s2[i]).address, (#[trigger] s2[j]).address) by {
        let oi: int = if i < p { i } else { i - 1 };
        let oj: int = if j < p { j } else { j - 1 };
        if i == p {
            // u before the tail: u < s[p] <= s[oj]
            assert(s2[j] == s[oj]);
            assert(lex_lt(u.address, s[p as int].address));
            if oj > p {
                crate::order::lemma_lex_transitive(u.address, s[p as int].address, s[oj].address);
            }
        } else if j == p {
            assert(s2[i] == s[oi]);
        } else {
            assert(s2[i] == s[oi]);
            assert(s2[j] == s[oj]);
        }
    }
}

// ---------------------------------------------------------------------------
// Where a new user record belongs in the sorted ledger.

/// The length of the prefix of records whose address comes before `addr`.
pub open spec fn user_place(s: Seq<UserDataV>, addr: Seq<char>) -> int
    decreases s.len(),
{
    if s.len() == 0 {
        0
    } else if lex_lt(s[0].address, addr) {
        1 + user_place(s.drop_first(), addr)
    } else {
        0
    }
}

/// A scan that stops at the first address not before `addr` finds the place.
pub proof fn lemma_user_place_at(s: Seq<UserDataV>, addr: Seq<char>, i: int)
    requires
        0 <= i <= s.len(),
        forall|j: int| 0 <= j < i ==> lex_lt((#[trigger] s[j]).address, addr),
        i == s.len() || !lex_lt(s[i].address, addr),
    ensures
        user_place(s, addr) == i,
    decreases s.len(),
{
    if s.len() > 0 && i > 0 {
        let t = s.drop_first();
        assert(lex_lt(s[0].address, addr));
        assert forall|j: int| 0 <= j < i - 1 implies lex_lt((#[trigger] t[j]).address, addr) by {
            assert(t[j] == s[j + 1]);
        }
        if i - 1 < t.len() {
            assert(t[i - 1] == s[i]);
        }
        lemma_user_place_at(t, addr, i - 1);
    }
}

/// Finds where a new record for `addr` belongs.
pub fn find_user_place(users: &Vec<UserData>, addr: &String) -> (r: usize)
    ensures
        r <= users@.len(),
        r as int == user_place(users@.map_values(|u: UserData| u@), addr@),
{
    let ghost s = users@.map_values(|u: UserData| u@);
    let mut i: usize = 0;
    while i < users.len()
        invariant
            i <= users@.len(),
            s == users@.map_values(|u: UserData| u@),
            forall|j: int| 0 <= j < i ==> lex_lt((#[trigger] s[j]).address, addr@),
        decreases users@.len() - i,
    {
        proof {
            assert(s[i as int] == users@[i as int]@);
        }
        if !crate::order::str_lt(&users[i].address, addr) {
            proof {
                lemma_user_place_at(s, addr@, i as int);
            }
            return i;
        }
        i = i + 1;
    }
    proof {
        lemma_user_place_at(s, addr@, i as int);
    }
    i
}

/// Whether a collection address stands in the allow-list.
pub fn collection_in_list(list: &Vec<CollectionInfo>, coll: &String) -> (r: bool)
    ensures
        r == exists|i: int| 0 <= i < list@.len() && (#[trigger] list@[i])@ == coll@,
{
    let mut i: usize = 0;
    while i < list.len()
        invariant
            i <= list@.len(),
            forall|j: int| 0 <= j < i ==> (#[trigger] list@[j])@ != coll@,
        decreases list@.len() - i,
    {
        if list[i].address == *coll {
            proof {
                assert(list@[i as int]@ == coll@);
            }
            return true;
        }
        i = i + 1;
    }
    false
}

/// Whether one token id stands in a list.
pub fn token_in_list(tokens: &Vec<String>, t: &String) -> (r: bool)
    ensures
        r == (count_matches(str_seq_view(tokens@), t@) > 0),
{
    let ghost s = str_seq_view(tokens@);
    let mut i: usize = 0;
    while i < tokens.len()
        invariant
            i <= tokens@.len(),
            s == str_seq_view(tokens@),
            forall|j: int| 0 <= j < i ==> (#[trigger] s[j]) != t@,
        decreases tokens@.len() - i,
    {
        proof {
            assert(s[i as int] == tokens@[i as int]@);
        }
        if tokens[i] == *t {
            proof {
                lemma_count_hit(s, t@, i as int);
            }
            return true;
        }
        i = i + 1;
    }
    proof {
        lemma_count_all_miss(s, t@);
    }
    false
}

/// Removes all copies of one token id, keeping the rest in order.
pub fn remove_token(v: &Vec<String>, t: &String) -> (r: Vec<String>)
    ensures
        str_seq_view(r@) == str_seq_view(v@).filter(ne_key(t@)),
{
    broadcast use vstd::seq_lib::group_filter_ensures;

    
    let mut r: Vec<String> = Vec::new();
    let mut i: usize = 0;
    proof {
        assert(v@.subrange(0, 0).map_values(|x: String| x@) =~= Seq::<Seq<char>>::empty());
        assert(str_seq_view(v@.subrange(0, 0)).filter(ne_key(t@)) =~= Seq::<Seq<char>>::empty());
        assert(str_seq_view(r@) =~= Seq::<Seq<char>>::empty());
    }
    while i < v.len()
        invariant
            i <= v@.len(),
            str_seq_view(r@) == str_seq_view(v@.subrange(0, i as int)).filter(ne_key(t@)),
        decreases v@.len() - i,
    {
        let ghost prefix = str_seq_view(v@.subrange(0, i as int));
        let ghost next = str_seq_view(v@.subrange(0, i as int + 1));
        let ghost r0 = r@;
        let keep: bool = !(v[i] == *t);
        if keep {
            r.push(v[i].clone());
        }
        proof {
            reveal(Seq::filter);
            assert(next.drop_last() =~= prefix);
            assert(next.last() == v@[i as int]@);
            if keep {
                assert(ne_key(t@)(next.last()));
                assert(next.filter(ne_key(t@)) == next.drop_last().filter(ne_key(t@)).push(next.last()));
                assert(str_seq_view(r@) =~= str_seq_view(r0).push(v@[i as int]@));
                assert(str_seq_view(r@) =~= next.filter(ne_key(t@)));
            } else {
                assert(!ne_key(t@)(next.last()));
                assert(next.filter(ne_key(t@)) == next.drop_last().filter(ne_key(t@)));
            }
        }
        i = i + 1;
    }
    proof {
        assert(v@.subrange(0, v@.len() as int) =~= v@);
    }
    r
}

} // verus!

//! Read-only queries: single records, paginated listings (users ascending by
//! address, pending requests descending by insertion), and the per-token
//! status in which a pending request of the user overrides the ledger.

use vstd::prelude::*;
use crate::datatypes::{PacketType, PacketTypeV, State, TokenStatus, UserData, UserDataV};
use crate::error::ContractError;
use crate::order::{lex_lt, str_lt};
use crate::state::{Contract, ContractV, PendingPacketV, find_coll_pos, find_user_pos, is_lock, token_in_list};

verus! {

// ---------------------------------------------------------------------------
// Single records.

impl Contract {
    /// The configuration.
    pub fn get_state(&self) -> (r: &State)
        ensures
            r@ == self@.state,
    {
        &self.state
    }

    /// One user's record, or an error when none exists.
    pub fn get_user_data(&self, address: &String) -> (r: Result<UserData, ContractError>)
        ensures
            match r {
                Ok(u) => self@.has_user(address@) && u@ == self@.user(address@),
                Err(e) => e == ContractError::UserNotFound && !self@.has_user(address@),
            },
    {
        match find_user_pos(&self.users, address) {
            Some(i) => {
                proof {
                    assert(self@.users[i as int] == self.users@[i as int]@);
                }
                Ok(self.users[i].duplicate())
            },
            None => Err(ContractError::UserNotFound),
        }
    }
}

// ---------------------------------------------------------------------------
// The status of one token.

/// Whether the user has any pending request of the given kind.
pub open spec fn has_pending_of_kind(c: ContractV, user: Seq<char>, lock: bool) -> bool {
    exists|i: int|
        0 <= i < c.pending.len() && (#[trigger] c.pending[i]).user == user && is_lock(
            c.pending[i].packet.packet_type,
        ) == lock
}

/// The status of one (user, collection, token): an unknown user is an error;
/// any pending lock of the user reports a lock in progress, else any pending
/// unlock an unlock in progress; otherwise custody membership decides.
pub open spec fn spec_token_status(c: ContractV, user: Seq<char>, collection: Seq<char>, token_id: Seq<char>) -> Result<TokenStatus, ContractError> {
    if !c.has_user(user) {
        Err(ContractError::UserNotFound)
    } else if has_pending_of_kind(c, user, true) {
        Ok(TokenStatus::LockInProgress)
    } else if has_pending_of_kind(c, user, false) {
        Ok(TokenStatus::UnlockInProgress)
    } else if c.locked(user, collection, token_id) {
        Ok(TokenStatus::Locked)
    } else {
        Ok(TokenStatus::Unlocked)
    }
}

impl Contract {
    /// Reports the status of one token for one user.
    pub fn get_token_status(&self, user: &String, collection: &String, token_id: &String) -> (r: Result<TokenStatus, ContractError>)
        ensures
            r == spec_token_status(self@, user@, collection@, token_id@),
    {
        let i: usize = match find_user_pos(&self.users, user) {
            None => {
                return Err(ContractError::UserNotFound);
            },
            Some(i) => i,
        };
        let mut has_lock: bool = false;
        let mut has_unlock: bool = false;
        let mut k: usize = 0;
        while k < self.pending.len()
            invariant
                k <= self.pending@.len(),
                has_lock == exists|j: int|
                    0 <= j < k && (#[trigger] self@.pending[j]).user == user@ && is_lock(
                        self@.pending[j].packet.packet_type,
                    ),
                has_unlock == exists|j: int|
                    0 <= j < k && (#[trigger] self@.pending[j]).user == user@ && !is_lock(
                        self@.pending[j].packet.packet_type,
                    ),
            decreases self.pending@.len() - k,
        {
            proof {
                assert(self@.pending[k as int] == self.pending@[k as int]@);
            }
            if self.pending[k].user == *user {
                let entry_is_lock: bool = match &self.pending[k].packet.packet_type {
                    PacketType::LockRequest { .. } => true,
                    PacketType::UnlockRequest { .. } => false,
                };
                if entry_is_lock {
                    has_lock = true;
                } else {
                    has_unlock = true;
                }
            }
            k = k + 1;
        }
        if has_lock {
            return Ok(TokenStatus::LockInProgress);
        }
        if has_unlock {
            return Ok(TokenStatus::UnlockInProgress);
        }
        proof {
            assert(self@.users[i as int] == self.users@[i as int]@);
            assert(self@.user(user@) == self@.users[i as int]);
        }
        let is_locked: bool = match find_coll_pos(&self.users[i].locked_tokens, collection) {
            None => false,
            Some(ci) => {
                proof {
                    assert(self@.user(user@).locked_tokens[ci as int] == self.users@[i as int].locked_tokens@[ci as int]@);
                }
                token_in_list(&self.users[i].locked_tokens[ci].token_ids, token_id)
            },
        };
        if is_locked {
            Ok(TokenStatus::Locked)
        } else {
            Ok(TokenStatus::Unlocked)
        }
    }
}

// ---------------------------------------------------------------------------
// Paginated listings.

/// The page size: the caller's limit, or ten.
pub open spec fn spec_limit(limit: Option<u16>) -> nat {
    match limit {
        Some(l) => l as nat,
        None => 10,
    }
}

/// Whether an address lies strictly after the exclusive start bound.
pub open spec fn after_start(a: Seq<char>, start: Option<Seq<char>>) -> bool {
    match start {
        Some(b) => lex_lt(b, a),
        None => true,
    }
}

/// The first `limit` records, in ledger (ascending address) order, strictly
/// after the start bound.
pub open spec fn users_page(s: Seq<UserDataV>, start: Option<Seq<char>>, limit: nat) -> Seq<UserDataV>
    decreases s.len(),
{
    if s.len() == 0 || limit == 0 {
        Seq::empty()
    } else if after_start(s[0].address, start) {
        seq![s[0]] + users_page(s.drop_first(), start, (limit - 1) as nat)
    } else {
        users_page(s.drop_first(), start, limit)
    }
}

/// Whether a request id lies strictly below the exclusive start bound.
pub open spec fn below_start(id: u128, start: Option<u128>) -> bool {
    match start {
        Some(b) => id < b,
        None => true,
    }
}

/// The first `limit` payloads, walking the pending ledger backwards (newest
/// first), with ids strictly below the start bound.
pub open spec fn pending_page_desc(s: Seq<PendingPacketV>, start: Option<u128>, limit: nat) -> Seq<PacketTypeV>
    decreases s.len(),
{
    if s.len() == 0 || limit == 0 {
        Seq::empty()
    } else if below_start(s.last().packet.request_id, start) {
        seq![s.last().packet.packet_type] + pending_page_desc(s.drop_last(), start, (limit - 1) as nat)
    } else {
        pending_page_desc(s.drop_last(), start, limit)
    }
}

/// As `pending_page_desc`, restricted to one user's requests.
pub open spec fn user_pending_page_desc(s: Seq<PendingPacketV>, user: Seq<char>, start: Option<u128>, limit: nat) -> Seq<PacketTypeV>
    decreases s.len(),
{
    if s.len() == 0 || limit == 0 {
        Seq::empty()
    } else if s.last().user == user && below_start(s.last().packet.request_id, start) {
        seq![s.last().packet.packet_type] + user_pending_page_desc(s.drop_last(), user, start, (limit - 1) as nat)
    } else {
        user_pending_page_desc(s.drop_last(), user, start, limit)
    }
}

impl Contract {
    /// Lists user records ascending by address, strictly after `start_after`,
    /// at most `limit` (ten by default).
    pub fn get_all_users_data(&self, start_after: Option<&String>, limit: Option<u16>) -> (r: Vec<UserData>)
        ensures
            r@.map_values(|u: UserData| u@) == users_page(
                self@.users,
                match start_after {
                    Some(s) => Some(s@),
                    None => None,
                },
                spec_limit(limit),
            ),
    {
        let ghost s = self@.users;
        let ghost start = match start_after {
            Some(b) => Some(b@),
            None => None,
        };
        let ghost lim = spec_limit(limit);
        let max: usize = match limit {
            Some(l) => l as usize,
            None => 10,
        };
        let mut out: Vec<UserData> = Vec::new();
        let mut i: usize = 0;
        proof {
            assert(s.subrange(0, s.len() as int) =~= s);
            assert(out@.map_values(|u: UserData| u@) =~= Seq::<UserDataV>::empty());
        }
        while i < self.users.len() && out.len() < max
            invariant
                i <= self.users@.len(),
                s == self@.users,
                lim == spec_limit(limit),
                max == lim,
                start == (match start_after {
                    Some(b) => Some(b@),
                    None => None,
                }),
                out@.len() <= lim,
                users_page(s, start, lim) == out@.map_values(|u: UserData| u@) + users_page(
                    s.subrange(i as int, s.len() as int),
                    start,
                    (lim - out@.len()) as nat,
                ),
            decreases self.users@.len() - i,
        {
            let ghost rest = s.subrange(i as int, s.len() as int);
            let ghost outv = out@.map_values(|u: UserData| u@);
            proof {
                assert(rest[0] == s[i as int]);
                assert(rest.drop_first() =~= s.subrange(i as int + 1, s.len() as int));
                assert(s[i as int] == self.users@[i as int]@);
            }
            let keep: bool = match start_after {
                Some(b) => str_lt(b, &self.users[i].address),
                None => true,
            };
            if keep {
                out.push(self.users[i].duplicate());
                proof {
                    assert(out@.map_values(|u: UserData| u@) =~= outv.push(s[i as int]));
                    assert(outv + (seq![rest[0]] + users_page(
                        rest.drop_first(),
                        start,
                        (lim - outv.len() - 1) as nat,
                    )) =~= outv.push(s[i as int]) + users_page(
                        rest.drop_first(),
                        start,
                        (lim - outv.len() - 1) as nat,
                    ));
                }
            }
            i = i + 1;
        }
        proof {
            if i == self.users@.len() {
                assert(s.subrange(i as int, s.len() as int) =~= Seq::<UserDataV>::empty());
            }
            assert(users_page(s, start, lim) =~= out@.map_values(|u: UserData| u@));
        }
        out
    }

    /// Lists pending request payloads, newest first, with request ids
    /// strictly below the id of `start_after`, at most `limit` (ten by
    /// default).  Request ids ascend in insertion order and are unique, so
    /// the id alone names the position of the cursor.
    pub fn get_all_pending_packets(&self, start_after: Option<(String, u128)>, limit: Option<u16>) -> (r: Vec<PacketType>)
        ensures
            r@.map_values(|p: PacketType| p@) == pending_page_desc(
                self@.pending,
                match start_after {
                    Some(b) => Some(b.1),
                    None => None,
                },
                spec_limit(limit),
            ),
    {
        let ghost s = self@.pending;
        let ghost start = match &start_after {
            Some(b) => Some(b.1),
            None => None,
        };
        let ghost lim = spec_limit(limit);
        let max: usize = match limit {
            Some(l) => l as usize,
            None => 10,
        };
        let mut out: Vec<PacketType> = Vec::new();
        let mut i: usize = self.pending.len();
        proof {
            assert(s.subrange(0, s.len() as int) =~= s);
            assert(out@.map_values(|p: PacketType| p@) =~= Seq::<PacketTypeV>::empty());
        }
        while i > 0 && out.len() < max
            invariant
                i <= self.pending@.len(),
                s == self@.pending,
                lim == spec_limit(limit),
                max == lim,
                start == (match &start_after {
                    Some(b) => Some(b.1),
                    None => None,
                }),
                out@.len() <= lim,
                pending_page_desc(s, start, lim) == out@.map_values(|p: PacketType| p@)
                    + pending_page_desc(s.subrange(0, i as int), start, (lim - out@.len()) as nat),
            decreases i,
        {
            i = i - 1;
            let ghost rest = s.subrange(0, i as int + 1);
            let ghost outv = out@.map_values(|p: PacketType| p@);
            proof {
                assert(rest.last() == s[i as int]);
                assert(rest.drop_last() =~= s.subrange(0, i as int));
                assert(s[i as int] == self.pending@[i as int]@);
            }
            let keep: bool = match &start_after {
                Some(b) => self.pending[i].packet.request_id < b.1,
                None => true,
            };
            if keep {
                out.push(self.pending[i].packet.packet_type.duplicate());
                proof {
                    assert(out@.map_values(|p: PacketType| p@) =~= outv.push(
                        s[i as int].packet.packet_type,
                    ));
                    assert(outv + (seq![rest.last().packet.packet_type] + pending_page_desc(
                        rest.drop_last(),
                        start,
                        (lim - outv.len() - 1) as nat,
                    )) =~= outv.push(s[i as int].packet.packet_type) + pending_page_desc(
                        rest.drop_last(),
                        start,
                        (lim - outv.len() - 1) as nat,
                    ));
                }
            }
        }
        proof {
            if i == 0 {
                assert(s.subrange(0, 0) =~= Seq::<PendingPacketV>::empty());
            }
            assert(pending_page_desc(s, start, lim) =~= out@.map_values(|p: PacketType| p@));
        }
        out
    }

    /// Lists one user's pending request payloads, newest first, with request
    /// ids strictly below `start_after`, at most `limit` (ten by default).
    pub fn get_user_pending_packets(&self, start_after: Option<u128>, limit: Option<u16>, user: &String) -> (r: Vec<PacketType>)
        ensures
            r@.map_values(|p: PacketType| p@) == user_pending_page_desc(
                self@.pending,
                user@,
                start_after,
                spec_limit(limit),
            ),
    {
        let ghost s = self@.pending;
        let ghost lim = spec_limit(limit);
        let max: usize = match limit {
            Some(l) => l as usize,
            None => 10,
        };
        let mut out: Vec<PacketType> = Vec::new();
        let mut i: usize = self.pending.len();
        proof {
            assert(s.subrange(0, s.len() as int) =~= s);
            assert(out@.map_values(|p: PacketType| p@) =~= Seq::<PacketTypeV>::empty());
        }
        while i > 0 && out.len() < max
            invariant
                i <= self.pending@.len(),
                s == self@.pending,
                lim == spec_limit(limit),
                max == lim,
                out@.len() <= lim,
                user_pending_page_desc(s, user@, start_after, lim) == out@.map_values(
                    |p: PacketType| p@,
                ) + user_pending_page_desc(
                    s.subrange(0, i as int),
                    user@,
                    start_after,
                    (lim - out@.len()) as nat,
                ),
            decreases i,
        {
            i = i - 1;
            let ghost rest = s.subrange(0, i as int + 1);
            let ghost outv = out@.map_values(|p: PacketType| p@);
            proof {
                assert(rest.last() == s[i as int]);
                assert(rest.drop_last() =~= s.subrange(0, i as int));
                assert(s[i as int] == self.pending@[i as int]@);
            }
            let keep: bool = self.pending[i].user == *user && (match start_after {
                Some(b) => self.pending[i].packet.request_id < b,
                None => true,
            });
            if keep {
                out.push(self.pending[i].packet.packet_type.duplicate());
                proof {
                    assert(out@.map_values(|p: PacketType| p@) =~= outv.push(
                        s[i as int].packet.packet_type,
                    ));
                    assert(outv + (seq![rest.last().packet.packet_type] + user_pending_page_desc(
                        rest.drop_last(),
                        user@,
                        start_after,
                        (lim - outv.len() - 1) as nat,
                    )) =~= outv.push(s[i as int].packet.packet_type) + user_pending_page_desc(
                        rest.drop_last(),
                        user@,
                        start_after,
                        (lim - outv.len() - 1) as nat,
                    ));
                }
            }
        }
        proof {
            if i == 0 {
                assert(s.subrange(0, 0) =~= Seq::<PendingPacketV>::empty());
            }
            assert(user_pending_page_desc(s, user@, start_after, lim) =~= out@.map_values(
                |p: PacketType| p@,
            ));
        }
        out
    }
}

} // verus!

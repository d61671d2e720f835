//! The ownership ledger: who holds each art piece, who may move it on the
//! holder's behalf, and the transfer that moves it.
use vstd::prelude::*;
use crate::strmap::StringMap;

verus! {

/// Why a ledger operation was refused.
#[derive(Clone, Copy, Debug, PartialEq, Eq, Structural)]
pub enum LedgerError {
    /// No piece has this id.
    NotFound,
    /// A piece with this id was minted before.
    AlreadyExists,
    /// The caller is neither the holder nor a delegate approved for the piece,
    /// or lacks the ledger owner's identity.
    Unauthorized,
    /// The receiver already holds the piece.
    SameHolder,
}

/// A minted piece and its holder.
#[derive(Clone, Debug)]
pub struct Token {
    pub token_id: String,
    pub owner_id: String,
}

/// The record of one completed transfer, for the event log.
#[derive(Clone, Debug)]
pub struct NftTransferEvent {
    pub old_owner_id: String,
    pub new_owner_id: String,
    pub token_id: String,
    pub authorized_id: Option<String>,
    pub memo: Option<String>,
}

/// What a completed transfer hands back: the previous holder, the approvals
/// it cleared (delegate to approval number), and the event to log.
pub struct TransferReceipt {
    pub prior_owner: String,
    pub prior_approvals: StringMap<u64>,
    pub event: NftTransferEvent,
}

/// Whether `sender` may move a piece with these approvals: it must be listed,
/// and where an approval number is given, listed with that number.
pub open spec fn approval_accepts(
    approvals: Map<Seq<char>, u64>,
    sender: Seq<char>,
    approval_id: Option<u64>,
) -> bool {
    &&& approvals.contains_key(sender)
    &&& match approval_id {
        Some(n) => approvals[sender] == n,
        None => true,
    }
}

/// The outcome of a transfer attempt on a ledger with these holders and approvals.
pub open spec fn transfer_result(
    holders: Map<Seq<char>, Seq<char>>,
    approvals: Map<Seq<char>, Map<Seq<char>, u64>>,
    sender: Seq<char>,
    receiver: Seq<char>,
    token_id: Seq<char>,
    approval_id: Option<u64>,
) -> Result<(), LedgerError> {
    if !holders.contains_key(token_id) {
        Err(LedgerError::NotFound)
    } else if sender != holders[token_id] && !approval_accepts(
        approvals[token_id],
        sender,
        approval_id,
    ) {
        Err(LedgerError::Unauthorized)
    } else if receiver == holders[token_id] {
        Err(LedgerError::SameHolder)
    } else {
        Ok(())
    }
}

/// The holders after a transfer attempt: the piece moves only when the attempt succeeds.
pub open spec fn holders_after_transfer(
    holders: Map<Seq<char>, Seq<char>>,
    approvals: Map<Seq<char>, Map<Seq<char>, u64>>,
    sender: Seq<char>,
    receiver: Seq<char>,
    token_id: Seq<char>,
    approval_id: Option<u64>,
) -> Map<Seq<char>, Seq<char>> {
    if transfer_result(holders, approvals, sender, receiver, token_id, approval_id) is Ok {
        holders.insert(token_id, receiver)
    } else {
        holders
    }
}

/// The approvals after a transfer attempt on a known piece: its list is emptied,
/// whatever the outcome.
pub open spec fn approvals_after_transfer(
    approvals: Map<Seq<char>, Map<Seq<char>, u64>>,
    token_id: Seq<char>,
) -> Map<Seq<char>, Map<Seq<char>, u64>> {
    if approvals.contains_key(token_id) {
        approvals.insert(token_id, Map::<Seq<char>, u64>::empty())
    } else {
        approvals
    }
}

/// The pieces that `account` holds.
pub open spec fn tokens_of(holders: Map<Seq<char>, Seq<char>>, account: Seq<char>) -> Set<
    Seq<char>,
> {
    holders.dom().filter(|t: Seq<char>| holders[t] == account)
}

/// Whether some string in `v` has the characters `t`.
pub open spec fn in_strings(v: Seq<String>, t: Seq<char>) -> bool {
    exists|k: int| 0 <= k < v.len() && (#[trigger] v[k])@ == t
}

/// The ledger: each minted piece has exactly one holder and a map from
/// approved delegates to approval numbers.
///
/// The state is held in memory. Persisting it in NEAR contract storage (the
/// near-sdk collections, which read and write through host functions and so
/// only run inside the NEAR runtime) is left to the contract around it.
pub struct Contract {
    owner_id: String,
    owner_by_id: StringMap<String>,
    approvals_by_id: StringMap<StringMap<u64>>,
    next_approval_id: u64,
}

impl Contract {
    /// Both maps are well formed and cover the same pieces.
    pub closed spec fn wf(&self) -> bool {
        &&& self.owner_by_id.wf()
        &&& self.approvals_by_id.wf()
        &&& self.approvals_by_id@.dom() == self.owner_by_id@.dom()
        &&& forall|t: Seq<char>| #[trigger]
            self.approvals_by_id@.contains_key(t) ==> self.approvals_by_id@[t].wf()
    }

    /// What well-formedness shows callers: every minted piece has an approval map.
    pub proof fn lemma_wf(&self)
        requires
            self.wf(),
        ensures
            self.approvals().dom() == self.holders().dom(),
    {
        assert(self.approvals().dom() =~= self.holders().dom());
    }

    /// The identity allowed to mint.
    pub closed spec fn ledger_owner(&self) -> Seq<char> {
        self.owner_id@
    }

    /// The holder of each minted piece.
    pub closed spec fn holders(&self) -> Map<Seq<char>, Seq<char>> {
        Map::new(|t: Seq<char>| self.owner_by_id@.contains_key(t), |t: Seq<char>| self.owner_by_id@[t]@)
    }

    /// The approvals of each minted piece.
    pub closed spec fn approvals(&self) -> Map<Seq<char>, Map<Seq<char>, u64>> {
        Map::new(
            |t: Seq<char>| self.approvals_by_id@.contains_key(t),
            |t: Seq<char>| self.approvals_by_id@[t]@,
        )
    }

    /// The number the next approval will carry.
    pub closed spec fn approval_counter(&self) -> u64 {
        self.next_approval_id
    }

    /// An empty ledger whose minting is reserved to `current_account_id`.
    pub fn init(current_account_id: String) -> (r: Self)
        ensures
            r.wf(),
            r.ledger_owner() == current_account_id@,
            r.holders() == Map::<Seq<char>, Seq<char>>::empty(),
            r.approvals() == Map::<Seq<char>, Map<Seq<char>, u64>>::empty(),
            r.approval_counter() == 0,
    {
        let r = Contract {
            owner_id: current_account_id,
            owner_by_id: StringMap::new(),
            approvals_by_id: StringMap::new(),
            next_approval_id: 0,
        };
        assert(r.holders() =~= Map::<Seq<char>, Seq<char>>::empty());
        assert(r.approvals() =~= Map::<Seq<char>, Map<Seq<char>, u64>>::empty());
        r
    }

    /// Mints `token_id` to `token_owner_id`; only the ledger owner may mint.
    pub fn nft_mint(
        &mut self,
        predecessor_id: &String,
        token_id: String,
        token_owner_id: String,
    ) -> (r: Result<Token, LedgerError>)
        requires
            old(self).wf(),
        ensures
            final(self).wf(),
            final(self).ledger_owner() == old(self).ledger_owner(),
            final(self).approval_counter() == old(self).approval_counter(),
            predecessor_id@ != old(self).ledger_owner() ==> r == Err::<Token, LedgerError>(
                LedgerError::Unauthorized,
            ),
            predecessor_id@ == old(self).ledger_owner() && old(self).holders().contains_key(
                token_id@,
            ) ==> r == Err::<Token, LedgerError>(LedgerError::AlreadyExists),
            r is Ok <==> predecessor_id@ == old(self).ledger_owner() && !old(
                self,
            ).holders().contains_key(token_id@),
            r is Ok ==> {
                &&& final(self).holders() == old(self).holders().insert(token_id@, token_owner_id@)
                &&& final(self).approvals() == old(self).approvals().insert(token_id@, Map::<Seq<char>, u64>::empty())
                &&& r->Ok_0.token_id@ == token_id@
                &&& r->Ok_0.owner_id@ == token_owner_id@
            },
            r is Err ==> final(self).holders() == old(self).holders() && final(self).approvals()
                == old(self).approvals(),
    {
        if *predecessor_id != self.owner_id {
            return Err(LedgerError::Unauthorized);
        }
        if self.owner_by_id.get(&token_id).is_some() {
            return Err(LedgerError::AlreadyExists);
        }
        let ghost h0 = self.holders();
        let ghost a0 = self.approvals();
        self.owner_by_id.insert(token_id.clone(), token_owner_id.clone());
        self.approvals_by_id.insert(token_id.clone(), StringMap::new());
        assert(self.holders() =~= h0.insert(token_id@, token_owner_id@));
        assert(self.approvals() =~= a0.insert(token_id@, Map::<Seq<char>, u64>::empty()));
        Ok(Token { token_id, owner_id: token_owner_id })
    }

    /// The holder of `token_id`.
    pub fn get_holder(&self, token_id: &String) -> (r: Result<String, LedgerError>)
        requires
            self.wf(),
        ensures
            match r {
                Ok(h) => self.holders().contains_key(token_id@) && h@ == self.holders()[token_id@],
                Err(e) => !self.holders().contains_key(token_id@) && e == LedgerError::NotFound,
            },
    {
        match self.owner_by_id.get(token_id) {
            Some(h) => Ok(h.clone()),
            None => Err(LedgerError::NotFound),
        }
    }

    /// Whether `t` is held by `account` and among the first `n` stored pieces.
    closed spec fn listed_before(&self, n: int, account: Seq<char>, t: Seq<char>) -> bool {
        exists|j: int| 0 <= j < n && self.owner_by_id.key_at(j) == t && self.holders()[t] == account
    }

    /// The pieces that `account_id` holds, each once.
    pub fn tokens_for_owner(&self, account_id: &String) -> (r: Vec<String>)
        requires
            self.wf(),
        ensures
            forall|t: Seq<char>|
                tokens_of(self.holders(), account_id@).contains(t) <==> in_strings(r@, t),
            forall|i: int, j: int| 0 <= i < j < r@.len() ==> (#[trigger] r@[i])@ != (#[trigger] r@[j])@,
    {
        proof {
            self.owner_by_id.lemma_entries_cover();
        }
        let mut out: Vec<String> = Vec::new();
        let mut i: usize = 0;
        while i < self.owner_by_id.len()
            invariant
                self.wf(),
                i <= self.owner_by_id.size(),
                forall|t: Seq<char>|
                    #![trigger self.listed_before(i as int, account_id@, t)]
                    #![trigger in_strings(out@, t)]
                    self.listed_before(i as int, account_id@, t) <==> in_strings(out@, t),
                forall|k: int| 0 <= k < out@.len() ==> exists|j: int|
                    0 <= j < i && self.owner_by_id.key_at(j) == (#[trigger] out@[k])@,
                forall|a: int, b: int| 0 <= a < b < out@.len() ==> (#[trigger] out@[a])@ != (#[trigger] out@[b])@,
            decreases self.owner_by_id.size() - i,
        {
            proof {
                self.owner_by_id.lemma_entries_cover();
            }
            let (t, h) = self.owner_by_id.entry(i);
            let ghost before = out@;
            if *h == *account_id {
                out.push(t.clone());
                assert forall|a: int, b: int| 0 <= a < b < out@.len() implies (#[trigger] out@[a])@
                    != (#[trigger] out@[b])@ by {
                    if b == out@.len() - 1 {
                        assert(out@[a] == before[a]);
                        let j = choose|j: int| 0 <= j < i && self.owner_by_id.key_at(j) == (#[trigger] before[a])@;
                        assert(self.owner_by_id.key_at(j) != self.owner_by_id.key_at(i as int));
                    }
                }
                assert forall|k: int| 0 <= k < out@.len() implies exists|j: int|
                    0 <= j < i + 1 && self.owner_by_id.key_at(j) == (#[trigger] out@[k])@ by {
                    if k == out@.len() - 1 {
                        assert(self.owner_by_id.key_at(i as int) == out@[k]@);
                    } else {
                        assert(out@[k] == before[k]);
                    }
                }
                assert forall|x: Seq<char>|
                    #![trigger self.listed_before(i + 1, account_id@, x)]
                    #![trigger in_strings(out@, x)]
                    self.listed_before(i + 1, account_id@, x) <==> in_strings(out@, x) by {
                    if self.listed_before(i + 1, account_id@, x) {
                        let j = choose|j: int|
                            0 <= j < i + 1 && self.owner_by_id.key_at(j) == x && self.holders()[x]
                                == account_id@;
                        if j == i {
                            assert(out@[out@.len() - 1]@ == x);
                        } else {
                            assert(self.listed_before(i as int, account_id@, x));
                            assert(in_strings(before, x));
                            let k = choose|k: int| 0 <= k < before.len() && (#[trigger] before[k])@ == x;
                            assert(out@[k] == before[k]);
                        }
                    }
                    if in_strings(out@, x) {
                        let k = choose|k: int| 0 <= k < out@.len() && (#[trigger] out@[k])@ == x;
                        if k == out@.len() - 1 {
                            assert(self.owner_by_id.key_at(i as int) == x);
                        } else {
                            assert(out@[k] == before[k]);
                            assert(in_strings(before, x));
                            assert(self.listed_before(i as int, account_id@, x));
                        }
                    }
                }
            } else {
                assert forall|x: Seq<char>|
                    #![trigger self.listed_before(i + 1, account_id@, x)]
                    #![trigger in_strings(out@, x)]
                    self.listed_before(i + 1, account_id@, x) <==> in_strings(out@, x) by {
                    if self.listed_before(i + 1, account_id@, x) {
                        let j = choose|j: int|
                            0 <= j < i + 1 && self.owner_by_id.key_at(j) == x && self.holders()[x]
                                == account_id@;
                        assert(j != i);
                        assert(self.listed_before(i as int, account_id@, x));
                    }
                    if in_strings(out@, x) {
                        assert(self.listed_before(i as int, account_id@, x));
                    }
                }
            }
            i = i + 1;
        }
        assert forall|t: Seq<char>|
            tokens_of(self.holders(), account_id@).contains(t) <==> in_strings(out@, t) by {
            if tokens_of(self.holders(), account_id@).contains(t) {
                assert(self.owner_by_id@.contains_key(t));
                let j = choose|j: int| 0 <= j < self.owner_by_id.size() && self.owner_by_id.key_at(j) == t;
                assert(self.listed_before(i as int, account_id@, t));
            }
            if in_strings(out@, t) {
                assert(self.listed_before(i as int, account_id@, t));
            }
        }
        out
    }

    /// Approves `account_id` to move `token_id` on the holder's behalf, under
    /// the next approval number; only the holder may approve.
    pub fn nft_approve(
        &mut self,
        predecessor_id: &String,
        token_id: &String,
        account_id: String,
    ) -> (r: Result<u64, LedgerError>)
        requires
            old(self).wf(),
            old(self).approval_counter() < u64::MAX,
        ensures
            final(self).wf(),
            final(self).ledger_owner() == old(self).ledger_owner(),
            final(self).holders() == old(self).holders(),
            !old(self).holders().contains_key(token_id@) ==> r == Err::<u64, LedgerError>(
                LedgerError::NotFound,
            ),
            old(self).holders().contains_key(token_id@) && predecessor_id@ != old(self).holders()[token_id@]
                ==> r == Err::<u64, LedgerError>(LedgerError::Unauthorized),
            r is Ok <==> old(self).holders().contains_key(token_id@) && predecessor_id@ == old(
                self,
            ).holders()[token_id@],
            r is Ok ==> {
                &&& r->Ok_0 == old(self).approval_counter()
                &&& final(self).approval_counter() == old(self).approval_counter() + 1
                &&& final(self).approvals() == old(self).approvals().insert(
                    token_id@,
                    old(self).approvals()[token_id@].insert(account_id@, r->Ok_0),
                )
            },
            r is Err ==> final(self).approvals() == old(self).approvals()
                && final(self).approval_counter() == old(self).approval_counter(),
    {
        let holder = match self.owner_by_id.get(token_id) {
            Some(h) => h,
            None => return Err(LedgerError::NotFound),
        };
        if *predecessor_id != *holder {
            return Err(LedgerError::Unauthorized);
        }
        let ghost a0 = self.approvals();
        let n = self.next_approval_id;
        let mut delegates = match self.approvals_by_id.remove(token_id) {
            Some(l) => l,
            None => StringMap::new(),
        };
        delegates.insert(account_id, n);
        self.approvals_by_id.insert(token_id.clone(), delegates);
        self.next_approval_id = n + 1;
        assert(self.approvals() =~= a0.insert(token_id@, self.approvals()[token_id@]));
        Ok(n)
    }

    /// Clears the approvals of `token_id`, handing back what they were (none
    /// for an unknown piece).
    pub fn remove_approvals(&mut self, token_id: &String) -> (r: StringMap<u64>)
        requires
            old(self).wf(),
        ensures
            final(self).wf(),
            final(self).ledger_owner() == old(self).ledger_owner(),
            final(self).approval_counter() == old(self).approval_counter(),
            final(self).holders() == old(self).holders(),
            final(self).approvals() == approvals_after_transfer(old(self).approvals(), token_id@),
            r.wf(),
            r@ == (if old(self).approvals().contains_key(token_id@) {
                old(self).approvals()[token_id@]
            } else {
                Map::<Seq<char>, u64>::empty()
            }),
    {
        let ghost a0 = self.approvals();
        match self.approvals_by_id.remove(token_id) {
            Some(l) => {
                self.approvals_by_id.insert(token_id.clone(), StringMap::new());
                assert(self.approvals() =~= a0.insert(token_id@, Map::<Seq<char>, u64>::empty()));
                assert(self.approvals_by_id@.dom() =~= self.owner_by_id@.dom());
                l
            },
            None => {
                assert(self.approvals_by_id@.dom() =~= self.owner_by_id@.dom());
                assert(self.approvals() =~= a0);
                StringMap::new()
            },
        }
    }

    /// Moves `token_id` to `to` without any check. The per-holder index is
    /// derived from the holders, so it follows at once.
    fn internal_transfer_unguarded(&mut self, token_id: &String, to: &String)
        requires
            old(self).wf(),
            old(self).holders().contains_key(token_id@),
        ensures
            final(self).wf(),
            final(self).ledger_owner() == old(self).ledger_owner(),
            final(self).approval_counter() == old(self).approval_counter(),
            final(self).approvals() == old(self).approvals(),
            final(self).holders() == old(self).holders().insert(token_id@, to@),
    {
        let ghost h0 = self.holders();
        self.owner_by_id.insert(token_id.clone(), to.clone());
        assert(self.holders() =~= h0.insert(token_id@, to@));
        assert(self.approvals_by_id@.dom() =~= self.owner_by_id@.dom());
    }

    /// Moves `token_id` from its holder to `receiver_id` on behalf of `sender_id`.
    ///
    /// The piece's approvals are cleared before the sender is checked, so a
    /// refused attempt forfeits them too. The sender must be the holder, or an
    /// approved delegate (with the given approval number, where one is given).
    /// The receiver must differ from the holder.
    pub fn internal_transfer(
        &mut self,
        sender_id: &String,
        receiver_id: &String,
        token_id: &String,
        approval_id: Option<u64>,
        memo: Option<String>,
    ) -> (r: Result<TransferReceipt, LedgerError>)
        requires
            old(self).wf(),
        ensures
            final(self).wf(),
            final(self).ledger_owner() == old(self).ledger_owner(),
            final(self).approval_counter() == old(self).approval_counter(),
            r matches Err(e) ==> Err::<(), LedgerError>(e) == transfer_result(
                old(self).holders(),
                old(self).approvals(),
                sender_id@,
                receiver_id@,
                token_id@,
                approval_id,
            ),
            r is Ok <==> transfer_result(
                old(self).holders(),
                old(self).approvals(),
                sender_id@,
                receiver_id@,
                token_id@,
                approval_id,
            ) is Ok,
            final(self).holders() == holders_after_transfer(
                old(self).holders(),
                old(self).approvals(),
                sender_id@,
                receiver_id@,
                token_id@,
                approval_id,
            ),
            final(self).approvals() == approvals_after_transfer(old(self).approvals(), token_id@),
            r matches Ok(t) ==> {
                &&& t.prior_owner@ == old(self).holders()[token_id@]
                &&& t.prior_approvals.wf()
                &&& t.prior_approvals@ == old(self).approvals()[token_id@]
                &&& t.event.old_owner_id@ == old(self).holders()[token_id@]
                &&& t.event.new_owner_id@ == receiver_id@
                &&& t.event.token_id@ == token_id@
                &&& t.event.authorized_id.is_none()
                &&& t.event.memo == memo
            },
    {
        let owner_id = match self.owner_by_id.get(token_id) {
            Some(h) => h.clone(),
            None => return Err(LedgerError::NotFound),
        };
        let approved_account_ids = self.remove_approvals(token_id);
        let delegate: Option<&String> = if *sender_id != owner_id {
            let accepted = match approved_account_ids.get(sender_id) {
                Some(actual) => match approval_id {
                    Some(n) => *actual == n,
                    None => true,
                },
                None => false,
            };
            if !accepted {
                return Err(LedgerError::Unauthorized);
            }
            Some(sender_id)
        } else {
            None
        };
        if owner_id == *receiver_id {
            return Err(LedgerError::SameHolder);
        }
        self.internal_transfer_unguarded(token_id, receiver_id);
        // Recorded only for a delegate equal to the holder, which the branch
        // above never yields: the field is always empty.
        let authorized_id = match delegate {
            Some(d) => if *d == owner_id {
                Some(d.clone())
            } else {
                None
            },
            None => None,
        };
        let event = NftTransferEvent {
            old_owner_id: owner_id.clone(),
            new_owner_id: receiver_id.clone(),
            token_id: token_id.clone(),
            authorized_id,
            memo,
        };
        Ok(TransferReceipt { prior_owner: owner_id, prior_approvals: approved_account_ids, event })
    }

    /// A transfer requested from outside; hands back the event to log.
    pub fn nft_transfer(
        &mut self,
        sender_id: String,
        receiver_id: String,
        token_id: String,
        approval_id: Option<u64>,
        memo: Option<String>,
    ) -> (r: Result<NftTransferEvent, LedgerError>)
        requires
            old(self).wf(),
        ensures
            final(self).wf(),
            final(self).ledger_owner() == old(self).ledger_owner(),
            final(self).approval_counter() == old(self).approval_counter(),
            r matches Err(e) ==> Err::<(), LedgerError>(e) == transfer_result(
                old(self).holders(),
                old(self).approvals(),
                sender_id@,
                receiver_id@,
                token_id@,
                approval_id,
            ),
            r is Ok <==> transfer_result(
                old(self).holders(),
                old(self).approvals(),
                sender_id@,
                receiver_id@,
                token_id@,
                approval_id,
            ) is Ok,
            final(self).holders() == holders_after_transfer(
                old(self).holders(),
                old(self).approvals(),
                sender_id@,
                receiver_id@,
                token_id@,
                approval_id,
            ),
            final(self).approvals() == approvals_after_transfer(old(self).approvals(), token_id@),
            r matches Ok(ev) ==> {
                &&& ev.old_owner_id@ == old(self).holders()[token_id@]
                &&& ev.new_owner_id@ == receiver_id@
                &&& ev.token_id@ == token_id@
                &&& ev.authorized_id.is_none()
                &&& ev.memo == memo
            },
    {
        match self.internal_transfer(&sender_id, &receiver_id, &token_id, approval_id, memo) {
            Ok(t) => Ok(t.event),
            Err(e) => Err(e),
        }
    }
}


/// Every minted piece has exactly one holder, and is among that holder's
/// pieces and no one else's; a piece minted to `owner` is held by `owner`
/// and nothing else changes holder.
pub proof fn lemma_mint_gives_one_holder(
    holders: Map<Seq<char>, Seq<char>>,
    token_id: Seq<char>,
    owner: Seq<char>,
)
    requires
        !holders.contains_key(token_id),
    ensures
        ({
            let post = holders.insert(token_id, owner);
            &&& post[token_id] == owner
            &&& tokens_of(post, owner).contains(token_id)
            &&& forall|other: Seq<char>| other != owner ==> !tokens_of(post, other).contains(token_id)
            &&& forall|t: Seq<char>|
                #![trigger post.contains_key(t)]
                t != token_id ==> (post.contains_key(t) == holders.contains_key(t)) && post[t]
                    == holders[t]
        }),
        forall|t: Seq<char>| #[trigger]
            holders.contains_key(t) ==> {
                &&& tokens_of(holders, holders[t]).contains(t)
                &&& forall|other: Seq<char>|
                    other != holders[t] ==> !(#[trigger] tokens_of(holders, other)).contains(t)
            },
{
}

/// A transfer by the holder to anyone else succeeds: the receiver then holds
/// the piece and its approval list is empty.
pub proof fn lemma_holder_transfer_succeeds(
    holders: Map<Seq<char>, Seq<char>>,
    approvals: Map<Seq<char>, Map<Seq<char>, u64>>,
    receiver: Seq<char>,
    token_id: Seq<char>,
    approval_id: Option<u64>,
)
    requires
        holders.contains_key(token_id),
        approvals.contains_key(token_id),
        receiver != holders[token_id],
    ensures
        ({
            let sender = holders[token_id];
            &&& transfer_result(holders, approvals, sender, receiver, token_id, approval_id) is Ok
            &&& holders_after_transfer(
                holders,
                approvals,
                sender,
                receiver,
                token_id,
                approval_id,
            )[token_id] == receiver
            &&& approvals_after_transfer(approvals, token_id)[token_id] == Map::<Seq<char>, u64>::empty()
        }),
{
}

/// A transfer by someone who is neither the holder nor on the approval list
/// is refused as unauthorized, and the holder stays.
pub proof fn lemma_stranger_transfer_refused(
    holders: Map<Seq<char>, Seq<char>>,
    approvals: Map<Seq<char>, Map<Seq<char>, u64>>,
    sender: Seq<char>,
    receiver: Seq<char>,
    token_id: Seq<char>,
    approval_id: Option<u64>,
)
    requires
        holders.contains_key(token_id),
        sender != holders[token_id],
        approvals.contains_key(token_id),
        !approvals[token_id].contains_key(sender),
    ensures
        transfer_result(holders, approvals, sender, receiver, token_id, approval_id) == Err::<
            (),
            LedgerError,
        >(LedgerError::Unauthorized),
        holders_after_transfer(holders, approvals, sender, receiver, token_id, approval_id)
            == holders,
{
}

/// Approvals serve one attempt: after any transfer attempt on a piece,
/// successful or not, a transfer by anyone but the new holder is refused as
/// unauthorized, whatever approval number it gives.
pub proof fn lemma_approvals_single_use(
    holders: Map<Seq<char>, Seq<char>>,
    approvals: Map<Seq<char>, Map<Seq<char>, u64>>,
    sender: Seq<char>,
    receiver: Seq<char>,
    token_id: Seq<char>,
    approval_id: Option<u64>,
    delegate: Seq<char>,
    next_receiver: Seq<char>,
    next_approval_id: Option<u64>,
)
    requires
        holders.contains_key(token_id),
        approvals.contains_key(token_id),
        delegate != holders_after_transfer(
            holders,
            approvals,
            sender,
            receiver,
            token_id,
            approval_id,
        )[token_id],
    ensures
        transfer_result(
            holders_after_transfer(holders, approvals, sender, receiver, token_id, approval_id),
            approvals_after_transfer(approvals, token_id),
            delegate,
            next_receiver,
            token_id,
            next_approval_id,
        ) == Err::<(), LedgerError>(LedgerError::Unauthorized),
{
    assert(!approvals_after_transfer(approvals, token_id)[token_id].contains_key(delegate));
}

} // verus!

//! The exhibition coordinator: holders lend it their pieces to display, may
//! rent them out for a reward per epoch, and recall them.
//!
//! Custody moves on the ledger through transfer requests that this machine
//! hands back for the caller to send; the outcome comes back through the
//! callbacks.
use vstd::prelude::*;
use crate::strmap::StringMap;

verus! {

/// The default epoch: one month, in nanoseconds.
pub const DEFAULT_EPOCH: u64 = 2_628_000_000_000_000;

/// Why a coordinator operation was refused.
#[derive(Clone, Copy, Debug, PartialEq, Eq, Structural)]
pub enum ExhibitionError {
    /// Renting out needs the coordinator's balance below one epoch's reward.
    NotEnoughFunds,
    /// The caller has not this piece on display.
    NotDisplayed,
    /// Only the coordinator itself may change the reward parameters.
    Unauthorized,
    /// The reward due does not fit in 128 bits.
    RewardOverflow,
    /// A reward cannot be counted in epochs of zero length.
    ZeroEpoch,
}

/// A transfer to request from the ledger, without approval number or memo.
#[derive(Clone, Debug)]
pub struct TransferRequest {
    pub sender_id: String,
    pub receiver_id: String,
    pub token_id: String,
}

/// A payment of `amount` yoctoNEAR to `receiver_id`.
#[derive(Clone, Debug)]
pub struct Payout {
    pub receiver_id: String,
    pub amount: u128,
}

/// How a recall ended, and the compensating transfer to send if it failed.
#[derive(Clone, Debug)]
pub struct RecallOutcome {
    pub succeeded: bool,
    pub compensation: Option<TransferRequest>,
}

/// The sender, receiver and piece of a request.
pub open spec fn request_view(t: TransferRequest) -> (Seq<char>, Seq<char>, Seq<char>) {
    (t.sender_id@, t.receiver_id@, t.token_id@)
}

/// Whether a piece may be rented out: the balance is below one epoch's
/// reward, both in yoctoNEAR.
pub open spec fn rent_affordable(account_balance: u128, reward_per_epoch: u128) -> bool {
    account_balance < reward_per_epoch
}

/// The reward for a rental that started at `start`: whole epochs elapsed by
/// `now`, times the reward per epoch.
pub open spec fn reward_due(start: u64, now: u64, epoch: u64, reward_per_epoch: u128) -> int
    recommends
        epoch > 0,
{
    if now >= start {
        ((now - start) as int / epoch as int) * (reward_per_epoch as int)
    } else {
        0
    }
}

/// Whether `caller` may recall `token_id`: it must be the piece on display for it.
pub open spec fn recall_result(
    displayed: Map<Seq<char>, Seq<char>>,
    caller: Seq<char>,
    token_id: Seq<char>,
) -> Result<(), ExhibitionError> {
    if displayed.contains_key(caller) && displayed[caller] == token_id {
        Ok(())
    } else {
        Err(ExhibitionError::NotDisplayed)
    }
}

/// The compensating transfer after a recall's transfer ended: none after a
/// success, one from the coordinator back to the holder after a failure.
pub open spec fn recall_compensation(
    holder: Seq<char>,
    coordinator: Seq<char>,
    token_id: Seq<char>,
    succeeded: bool,
) -> Option<(Seq<char>, Seq<char>, Seq<char>)> {
    if succeeded {
        None
    } else {
        Some((coordinator, holder, token_id))
    }
}

/// Whether a balance of `account_balance` yoctoNEAR lies below one epoch's
/// reward of `reward_per_epoch` yoctoNEAR.
pub fn can_rent(account_balance: u128, reward_per_epoch: u128) -> (r: bool)
    ensures
        r == rent_affordable(account_balance, reward_per_epoch),
{
    account_balance < reward_per_epoch
}

/// The coordinator's state: the piece each holder has on display, the start
/// of each rental, and the reward parameters.
///
/// The state is held in memory. Persisting it in NEAR contract storage (the
/// near-sdk collections, which read and write through host functions and so
/// only run inside the NEAR runtime) is left to the contract around it.
pub struct Contract {
    art_pieces_account: String,
    displayed_art_pieces: StringMap<String>,
    rented_art_pieces: StringMap<u64>,
    epoch: u64,
    reward_per_epoch: u128,
}

impl Contract {
    /// Both maps are well formed.
    pub closed spec fn wf(&self) -> bool {
        &&& self.displayed_art_pieces.wf()
        &&& self.rented_art_pieces.wf()
    }

    /// The ledger that holds the pieces.
    pub closed spec fn ledger_account(&self) -> Seq<char> {
        self.art_pieces_account@
    }

    /// The piece each holder has on display.
    pub closed spec fn displayed(&self) -> Map<Seq<char>, Seq<char>> {
        Map::new(
            |h: Seq<char>| self.displayed_art_pieces@.contains_key(h),
            |h: Seq<char>| self.displayed_art_pieces@[h]@,
        )
    }

    /// When each rented piece was rented out.
    pub closed spec fn rented(&self) -> Map<Seq<char>, u64> {
        self.rented_art_pieces@
    }

    pub closed spec fn epoch_length(&self) -> u64 {
        self.epoch
    }

    pub closed spec fn reward_rate(&self) -> u128 {
        self.reward_per_epoch
    }

    /// A coordinator for the pieces of `art_pieces_account`, with nothing on
    /// display, a one-month epoch and a reward of one NEAR per epoch.
    pub fn init(art_pieces_account: String) -> (r: Self)
        ensures
            r.wf(),
            r.ledger_account() == art_pieces_account@,
            r.displayed() == Map::<Seq<char>, Seq<char>>::empty(),
            r.rented() == Map::<Seq<char>, u64>::empty(),
            r.epoch_length() == DEFAULT_EPOCH,
            r.reward_rate() == 1,
    {
        let r = Contract {
            art_pieces_account,
            displayed_art_pieces: StringMap::new(),
            rented_art_pieces: StringMap::new(),
            epoch: DEFAULT_EPOCH,
            reward_per_epoch: 1,
        };
        assert(r.displayed() =~= Map::<Seq<char>, Seq<char>>::empty());
        r
    }

    /// `predecessor_id` lends `token_id` to the coordinator for display, and
    /// rents it out when `rent` is `Some(true)`.
    ///
    /// The display is recorded at once, before the ledger has moved the piece;
    /// renting needs the coordinator's balance below one epoch's reward and
    /// starts the rental clock at `block_timestamp`. On success the transfer
    /// from the holder to the coordinator is handed back, to be sent.
    pub fn display_art_piece(
        &mut self,
        predecessor_id: String,
        current_account_id: String,
        account_balance: u128,
        block_timestamp: u64,
        token_id: String,
        rent: Option<bool>,
    ) -> (r: Result<TransferRequest, ExhibitionError>)
        requires
            old(self).wf(),
        ensures
            final(self).wf(),
            final(self).ledger_account() == old(self).ledger_account(),
            final(self).epoch_length() == old(self).epoch_length(),
            final(self).reward_rate() == old(self).reward_rate(),
            r is Err <==> rent == Some(true) && !rent_affordable(
                account_balance,
                old(self).reward_rate(),
            ),
            r matches Err(e) ==> e == ExhibitionError::NotEnoughFunds
                && final(self).displayed() == old(self).displayed()
                && final(self).rented() == old(self).rented(),
            r matches Ok(t) ==> {
                &&& request_view(t) == (predecessor_id@, current_account_id@, token_id@)
                &&& final(self).displayed() == old(self).displayed().insert(predecessor_id@, token_id@)
                &&& final(self).rented() == if rent == Some(true) {
                    old(self).rented().insert(token_id@, block_timestamp)
                } else {
                    old(self).rented()
                }
            },
    {
        let renting = match rent {
            Some(b) => b,
            None => false,
        };
        if renting && !can_rent(account_balance, self.reward_per_epoch) {
            return Err(ExhibitionError::NotEnoughFunds);
        }
        let ghost d0 = self.displayed();
        self.displayed_art_pieces.insert(predecessor_id.clone(), token_id.clone());
        assert(self.displayed() =~= d0.insert(predecessor_id@, token_id@));
        if renting {
            self.rented_art_pieces.insert(token_id.clone(), block_timestamp);
        }
        Ok(TransferRequest { sender_id: predecessor_id, receiver_id: current_account_id, token_id })
    }

    /// The outcome of a display's transfer: whether it went through. A failure
    /// leaves the recorded display in place.
    pub fn display_art_piece_callback(&self, call_succeeded: bool) -> (r: bool)
        ensures
            r == call_succeeded,
    {
        call_succeeded
    }

    /// The reward that `predecessor_id` collects for `token_id` at
    /// `block_timestamp`: whole epochs since the rental started, times the
    /// reward per epoch, in yoctoNEAR. No payout without a rental or for a
    /// zero reward; for a rented piece, an error where the epoch length is
    /// zero or the reward does not fit in 128 bits. The rental clock is not
    /// reset.
    pub fn collect_rewards(
        &self,
        predecessor_id: String,
        token_id: &String,
        block_timestamp: u64,
    ) -> (r: Result<Option<Payout>, ExhibitionError>)
        requires
            self.wf(),
        ensures
            !self.rented().contains_key(token_id@) ==> r matches Ok(None),
            self.rented().contains_key(token_id@) && self.epoch_length() == 0 ==> r
                == Err::<Option<Payout>, ExhibitionError>(ExhibitionError::ZeroEpoch),
            self.rented().contains_key(token_id@) && self.epoch_length() > 0 ==> {
                let due = reward_due(
                    self.rented()[token_id@],
                    block_timestamp,
                    self.epoch_length(),
                    self.reward_rate(),
                );
                match r {
                    Ok(Some(p)) => 0 < due <= u128::MAX && p.amount == due && p.receiver_id@
                        == predecessor_id@,
                    Ok(None) => due == 0,
                    Err(e) => due > u128::MAX && e == ExhibitionError::RewardOverflow,
                }
            },
    {
        let mut reward: u128 = 0;
        if let Some(start) = self.rented_art_pieces.get(token_id) {
            let rented_time: u64 = if block_timestamp >= *start {
                block_timestamp - *start
            } else {
                0
            };
            if self.epoch == 0 {
                return Err(ExhibitionError::ZeroEpoch);
            }
            let epochs: u64 = rented_time / self.epoch;
            if block_timestamp < *start {
                assert(epochs as int * self.reward_per_epoch as int == 0) by (nonlinear_arith)
                    requires
                        rented_time == 0,
                        epochs == rented_time / self.epoch,
                        self.epoch > 0,
                ;
            }
            match (epochs as u128).checked_mul(self.reward_per_epoch) {
                Some(v) => reward = v,
                None => return Err(ExhibitionError::RewardOverflow),
            }
        }
        if reward > 0 {
            Ok(Some(Payout { receiver_id: predecessor_id, amount: reward }))
        } else {
            Ok(None)
        }
    }

    /// `predecessor_id` takes back `token_id`, which must be the piece it has
    /// on display. The display and any rental end at once; the transfer from
    /// the coordinator back to the holder is handed back, to be sent.
    pub fn recall_art_piece(
        &mut self,
        predecessor_id: String,
        current_account_id: String,
        token_id: String,
    ) -> (r: Result<TransferRequest, ExhibitionError>)
        requires
            old(self).wf(),
        ensures
            final(self).wf(),
            final(self).ledger_account() == old(self).ledger_account(),
            final(self).epoch_length() == old(self).epoch_length(),
            final(self).reward_rate() == old(self).reward_rate(),
            r is Ok <==> recall_result(old(self).displayed(), predecessor_id@, token_id@) is Ok,
            r matches Err(e) ==> e == ExhibitionError::NotDisplayed
                && final(self).displayed() == old(self).displayed()
                && final(self).rented() == old(self).rented(),
            r matches Ok(t) ==> {
                &&& request_view(t) == (current_account_id@, predecessor_id@, token_id@)
                &&& final(self).displayed() == old(self).displayed().remove(predecessor_id@)
                &&& final(self).rented() == old(self).rented().remove(token_id@)
            },
    {
        let shown = match self.displayed_art_pieces.get(&predecessor_id) {
            Some(t) => *t == token_id,
            None => false,
        };
        if !shown {
            return Err(ExhibitionError::NotDisplayed);
        }
        let ghost d0 = self.displayed();
        let _ = self.displayed_art_pieces.remove(&predecessor_id);
        assert(self.displayed() =~= d0.remove(predecessor_id@));
        let _ = self.rented_art_pieces.remove(&token_id);
        Ok(TransferRequest { sender_id: current_account_id, receiver_id: predecessor_id, token_id })
    }

    /// The outcome of a recall's transfer. After a failure one compensating
    /// transfer from the coordinator back to `holder_id` is handed back, to be
    /// sent once; its own outcome is not awaited.
    pub fn recall_art_piece_callback(
        &self,
        holder_id: String,
        current_account_id: String,
        token_id: String,
        call_succeeded: bool,
    ) -> (r: RecallOutcome)
        ensures
            r.succeeded == call_succeeded,
            match r.compensation {
                Some(t) => recall_compensation(
                    holder_id@,
                    current_account_id@,
                    token_id@,
                    call_succeeded,
                ) == Some(request_view(t)),
                None => recall_compensation(
                    holder_id@,
                    current_account_id@,
                    token_id@,
                    call_succeeded,
                ) is None,
            },
    {
        if call_succeeded {
            RecallOutcome { succeeded: true, compensation: None }
        } else {
            let t = TransferRequest {
                sender_id: current_account_id,
                receiver_id: holder_id,
                token_id,
            };
            RecallOutcome { succeeded: false, compensation: Some(t) }
        }
    }

    /// The piece that `holder_id` has on display.
    pub fn displayed_piece(&self, holder_id: &String) -> (r: Option<String>)
        requires
            self.wf(),
        ensures
            match r {
                Some(t) => self.displayed().contains_key(holder_id@) && t@ == self.displayed()[holder_id@],
                None => !self.displayed().contains_key(holder_id@),
            },
    {
        match self.displayed_art_pieces.get(holder_id) {
            Some(t) => Some(t.clone()),
            None => None,
        }
    }

    /// When `token_id` was rented out, while it is.
    pub fn rental_start(&self, token_id: &String) -> (r: Option<u64>)
        requires
            self.wf(),
        ensures
            match r {
                Some(t) => self.rented().contains_key(token_id@) && t == self.rented()[token_id@],
                None => !self.rented().contains_key(token_id@),
            },
    {
        match self.rented_art_pieces.get(token_id) {
            Some(t) => Some(*t),
            None => None,
        }
    }

    /// Sets the epoch length and the reward per epoch; only the coordinator
    /// itself may.
    pub fn set_reward_per_epoch(
        &mut self,
        predecessor_id: &String,
        current_account_id: &String,
        epoch: u64,
        reward_per_epoch: u128,
    ) -> (r: Result<(), ExhibitionError>)
        requires
            old(self).wf(),
        ensures
            final(self).wf(),
            final(self).ledger_account() == old(self).ledger_account(),
            final(self).displayed() == old(self).displayed(),
            final(self).rented() == old(self).rented(),
            r is Ok <==> predecessor_id@ == current_account_id@,
            r matches Err(e) ==> e == ExhibitionError::Unauthorized
                && final(self).epoch_length() == old(self).epoch_length()
                && final(self).reward_rate() == old(self).reward_rate(),
            r is Ok ==> final(self).epoch_length() == epoch && final(self).reward_rate()
                == reward_per_epoch,
    {
        if *predecessor_id != *current_account_id {
            return Err(ExhibitionError::Unauthorized);
        }
        self.epoch = epoch;
        self.reward_per_epoch = reward_per_epoch;
        Ok(())
    }
}


/// A rental collected exactly two epochs after it started pays twice the
/// reward per epoch.
pub proof fn lemma_two_epochs_pay_twice(start: u64, epoch: u64, reward_per_epoch: u128)
    requires
        epoch > 0,
        start + 2 * epoch <= u64::MAX,
    ensures
        reward_due(start, (start + 2 * epoch) as u64, epoch, reward_per_epoch) == 2
            * reward_per_epoch,
{
    assert((2 * epoch as int) / (epoch as int) == 2) by (nonlinear_arith)
        requires
            epoch > 0,
    ;
}

/// A recall that passes its check has already cleared the holder's display
/// and the piece's rental when its transfer is sent; if that transfer fails,
/// exactly one compensating transfer follows, from the coordinator back to
/// the holder.
pub proof fn lemma_failed_recall_compensates_once(
    displayed: Map<Seq<char>, Seq<char>>,
    rented: Map<Seq<char>, u64>,
    holder: Seq<char>,
    coordinator: Seq<char>,
    token_id: Seq<char>,
)
    requires
        recall_result(displayed, holder, token_id) is Ok,
    ensures
        !displayed.remove(holder).contains_key(holder),
        !rented.remove(token_id).contains_key(token_id),
        recall_compensation(holder, coordinator, token_id, false) == Some(
            (coordinator, holder, token_id),
        ),
        recall_compensation(holder, coordinator, token_id, true) is None,
{
}

} // verus!

use art_exhibition::exchange::Contract as Ledger;
use art_exhibition::exhibition::{can_rent, Contract, ExhibitionError, DEFAULT_EPOCH};

fn s(x: &str) -> String {
    x.to_string()
}

const COORD: &str = "gallery.near";

fn gallery() -> Contract {
    Contract::init(s("exchange.near"))
}

#[test]
fn display_without_rent_records_display_only() {
    let mut g = gallery();
    let req = g
        .display_art_piece(s("alice.near"), s(COORD), u128::MAX, 100, s("A1"), None)
        .unwrap();
    assert_eq!(req.sender_id, "alice.near");
    assert_eq!(req.receiver_id, COORD);
    assert_eq!(req.token_id, "A1");
    assert_eq!(g.displayed_piece(&s("alice.near")), Some(s("A1")));
    assert_eq!(g.rental_start(&s("A1")), None);
    let req = g
        .display_art_piece(s("bob.near"), s(COORD), u128::MAX, 100, s("B1"), Some(false))
        .unwrap();
    assert_eq!(req.token_id, "B1");
    assert_eq!(g.rental_start(&s("B1")), None);
}

#[test]
fn display_with_rent_needs_low_balance() {
    let mut g = gallery();
    // the default reward is one yoctoNEAR per epoch
    let res = g.display_art_piece(s("alice.near"), s(COORD), 1, 100, s("A1"), Some(true));
    assert_eq!(res.err(), Some(ExhibitionError::NotEnoughFunds));
    assert_eq!(g.displayed_piece(&s("alice.near")), None);
    assert_eq!(g.rental_start(&s("A1")), None);
    assert!(g.set_reward_per_epoch(&s(COORD), &s(COORD), 10, 1_000).is_ok());
    let res = g.display_art_piece(s("alice.near"), s(COORD), 1_000, 100, s("A1"), Some(true));
    assert_eq!(res.err(), Some(ExhibitionError::NotEnoughFunds));
    let res = g.display_art_piece(s("alice.near"), s(COORD), 999, 100, s("A1"), Some(true));
    assert!(res.is_ok());
    assert_eq!(g.rental_start(&s("A1")), Some(100));
}

#[test]
fn later_display_replaces_earlier() {
    let mut g = gallery();
    assert!(g.display_art_piece(s("alice.near"), s(COORD), 0, 1, s("A1"), None).is_ok());
    assert!(g.display_art_piece(s("alice.near"), s(COORD), 0, 2, s("A2"), None).is_ok());
    assert_eq!(g.displayed_piece(&s("alice.near")), Some(s("A2")));
}

#[test]
fn can_rent_needs_balance_below_one_epoch() {
    assert!(!can_rent(5, 1));
    assert!(can_rent(0, 1));
    assert!(can_rent(2, 3));
    assert!(!can_rent(3, 3));
    assert!(!can_rent(0, 0));
    assert!(!can_rent(u128::MAX, u128::MAX));
    assert!(can_rent(u128::MAX - 1, u128::MAX));
}

#[test]
fn collect_without_rental_pays_nothing() {
    let g = gallery();
    assert!(g.collect_rewards(s("alice.near"), &s("A1"), 1_000_000).unwrap().is_none());
    let mut g = gallery();
    assert!(g.display_art_piece(s("alice.near"), s(COORD), 0, 0, s("A1"), None).is_ok());
    assert!(g.collect_rewards(s("alice.near"), &s("A1"), 10 * DEFAULT_EPOCH).unwrap().is_none());
}

#[test]
fn collect_pays_whole_epochs_only() {
    let mut g = gallery();
    assert!(g.set_reward_per_epoch(&s(COORD), &s(COORD), 10, 7).is_ok());
    assert!(g.display_art_piece(s("alice.near"), s(COORD), 0, 100, s("A1"), Some(true)).is_ok());
    assert!(g.collect_rewards(s("alice.near"), &s("A1"), 109).unwrap().is_none());
    let p = g.collect_rewards(s("alice.near"), &s("A1"), 125).unwrap().unwrap();
    assert_eq!(p.amount, 14);
    assert_eq!(p.receiver_id, "alice.near");
    // the clock is not reset by a payout
    let p = g.collect_rewards(s("alice.near"), &s("A1"), 130).unwrap().unwrap();
    assert_eq!(p.amount, 21);
    // a time before the rental began pays nothing
    assert!(g.collect_rewards(s("alice.near"), &s("A1"), 50).unwrap().is_none());
}

#[test]
fn reward_rate_is_self_administered() {
    let mut g = gallery();
    assert_eq!(
        g.set_reward_per_epoch(&s("alice.near"), &s(COORD), 10, 7),
        Err(ExhibitionError::Unauthorized)
    );
    assert!(g.display_art_piece(s("alice.near"), s(COORD), 0, 0, s("A1"), Some(true)).is_ok());
    let p = g.collect_rewards(s("alice.near"), &s("A1"), 3 * DEFAULT_EPOCH + 5).unwrap().unwrap();
    assert_eq!(p.amount, 3);
}

#[test]
fn recall_needs_the_displayed_piece() {
    let mut g = gallery();
    assert_eq!(
        g.recall_art_piece(s("alice.near"), s(COORD), s("A1")).err(),
        Some(ExhibitionError::NotDisplayed)
    );
    assert!(g.display_art_piece(s("alice.near"), s(COORD), 0, 0, s("A1"), None).is_ok());
    assert_eq!(
        g.recall_art_piece(s("alice.near"), s(COORD), s("A2")).err(),
        Some(ExhibitionError::NotDisplayed)
    );
    assert_eq!(
        g.recall_art_piece(s("bob.near"), s(COORD), s("A1")).err(),
        Some(ExhibitionError::NotDisplayed)
    );
    assert_eq!(g.displayed_piece(&s("alice.near")), Some(s("A1")));
}

#[test]
fn display_callback_reports_outcome() {
    let mut g = gallery();
    assert!(g.display_art_piece(s("alice.near"), s(COORD), 0, 0, s("A1"), None).is_ok());
    assert!(g.display_art_piece_callback(true));
    assert!(!g.display_art_piece_callback(false));
    // a failed display is not rolled back
    assert_eq!(g.displayed_piece(&s("alice.near")), Some(s("A1")));
}

#[test]
fn recall_success_needs_no_compensation() {
    let g = gallery();
    let out = g.recall_art_piece_callback(s("alice.near"), s(COORD), s("A1"), true);
    assert!(out.succeeded);
    assert!(out.compensation.is_none());
}

#[test]
fn rented_display_pays_two_epochs() {
    let mut ledger = Ledger::init(s("exchange.near"));
    assert!(ledger.nft_mint(&s("exchange.near"), s("A1"), s("h1.near")).is_ok());
    let mut g = gallery();
    assert!(g.set_reward_per_epoch(&s(COORD), &s(COORD), 1_000, 5).is_ok());
    let start: u64 = 42;
    let req = g
        .display_art_piece(s("h1.near"), s(COORD), 0, start, s("A1"), Some(true))
        .unwrap();
    let res = ledger.nft_transfer(req.sender_id, req.receiver_id, req.token_id, None, None);
    assert!(g.display_art_piece_callback(res.is_ok()));
    assert_eq!(ledger.get_holder(&s("A1")), Ok(s(COORD)));
    let p = g.collect_rewards(s("h1.near"), &s("A1"), start + 2 * 1_000).unwrap().unwrap();
    assert_eq!(p.amount, 2 * 5);
    assert_eq!(p.receiver_id, "h1.near");
}

#[test]
fn failed_recall_sends_one_compensation() {
    let mut ledger = Ledger::init(s("exchange.near"));
    assert!(ledger.nft_mint(&s("exchange.near"), s("A1"), s("h1.near")).is_ok());
    let mut g = gallery();
    let req = g
        .display_art_piece(s("h1.near"), s(COORD), 0, 10, s("A1"), Some(true))
        .unwrap();
    assert!(ledger.nft_transfer(req.sender_id, req.receiver_id, req.token_id, None, None).is_ok());

    let req = g.recall_art_piece(s("h1.near"), s(COORD), s("A1")).unwrap();
    assert_eq!(req.sender_id, COORD);
    assert_eq!(req.receiver_id, "h1.near");
    assert_eq!(g.displayed_piece(&s("h1.near")), None);
    assert_eq!(g.rental_start(&s("A1")), None);
    // the remote transfer fails
    let out = g.recall_art_piece_callback(s("h1.near"), s(COORD), s("A1"), false);
    assert!(!out.succeeded);
    let comp = out.compensation.unwrap();
    assert_eq!(comp.sender_id, COORD);
    assert_eq!(comp.receiver_id, "h1.near");
    assert_eq!(comp.token_id, "A1");
    assert!(ledger.nft_transfer(comp.sender_id, comp.receiver_id, comp.token_id, None, None).is_ok());
    assert_eq!(ledger.get_holder(&s("A1")), Ok(s("h1.near")));
    assert_eq!(g.rental_start(&s("A1")), None);
    assert!(g.collect_rewards(s("h1.near"), &s("A1"), 10_000).unwrap().is_none());
}

#[test]
fn oversized_reward_is_refused() {
    let mut g = gallery();
    assert!(g.set_reward_per_epoch(&s(COORD), &s(COORD), 1, u128::MAX).is_ok());
    assert!(g.display_art_piece(s("alice.near"), s(COORD), 0, 0, s("A1"), Some(true)).is_ok());
    let p = g.collect_rewards(s("alice.near"), &s("A1"), 1).unwrap().unwrap();
    assert_eq!(p.amount, u128::MAX);
    let res = g.collect_rewards(s("alice.near"), &s("A1"), 2);
    assert_eq!(res.err(), Some(ExhibitionError::RewardOverflow));
}

#[test]
fn zero_epoch_is_accepted_and_refused_at_collection() {
    let mut g = gallery();
    assert_eq!(
        g.set_reward_per_epoch(&s("alice.near"), &s(COORD), 0, 7),
        Err(ExhibitionError::Unauthorized)
    );
    assert!(g.set_reward_per_epoch(&s(COORD), &s(COORD), 0, 7).is_ok());
    // without a rental nothing is counted
    assert!(g.collect_rewards(s("alice.near"), &s("A1"), 100).unwrap().is_none());
    assert!(g.display_art_piece(s("alice.near"), s(COORD), 0, 10, s("A1"), Some(true)).is_ok());
    let res = g.collect_rewards(s("alice.near"), &s("A1"), 100);
    assert_eq!(res.err(), Some(ExhibitionError::ZeroEpoch));
    assert!(g.set_reward_per_epoch(&s(COORD), &s(COORD), 30, 7).is_ok());
    let p = g.collect_rewards(s("alice.near"), &s("A1"), 100).unwrap().unwrap();
    assert_eq!(p.amount, 21);
}

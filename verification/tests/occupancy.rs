use pal_occupy_bot::catalog::{Catalog, OrePoint, OreType};
use pal_occupy_bot::service::{
    force_occupy, judge, occupy, occupy_at_current_time, JudgeOutcome, OccupyOutcome,
    LEASE_SECONDS,
};
use pal_occupy_bot::store::{OccupancyStore, OccupyData, StoreError};

fn ore_type(id: i32, name: &str, emoji: &str) -> OreType {
    OreType { id, name: String::from(name), emoji: String::from(emoji) }
}

fn ore_point(id: i32, mask: i32, x: i32, y: i32, name: &str) -> OrePoint {
    OrePoint { id, ore_type: mask, x, y, name: String::from(name) }
}

fn small_catalog() -> Catalog {
    let types = vec![ore_type(1, "iron", "iron"), ore_type(2, "gold", "gold")];
    let points = vec![
        ore_point(1, 1, 10, 20, "north"),
        ore_point(2, 2, 30, 40, "east"),
        ore_point(3, 1, 50, 60, "south"),
        ore_point(4, 3, 70, 80, "west"),
        ore_point(5, 1, 90, 95, "middle"),
    ];
    Catalog::new(types, points).expect("catalog must validate")
}

const GUILD: u64 = 900;
const ALICE: u64 = 1;
const BOB: u64 = 2;
const CAROL: u64 = 3;

#[test]
fn occupy_vacant_point_grants_full_lease() {
    let catalog = small_catalog();
    let mut store = OccupancyStore::new();
    let now = 1_000;
    let r = occupy(&mut store, &catalog, GUILD, ALICE, 1, now);
    assert_eq!(r, OccupyOutcome::Occupied);
    let rec = store.get_occupy_data(GUILD, 1).expect("record must exist");
    assert_eq!(rec.user_id, ALICE);
    assert_eq!(rec.due_time, now + LEASE_SECONDS);
    assert_eq!(rec.due_time, now + 14 * 86400);
    assert_eq!(rec.battle_user_id, None);
}

#[test]
fn occupy_same_category_rejected_without_new_record() {
    // User A occupies point 3 (category bit 0x1); the attempt on point 5
    // (also 0x1) is rejected and leaves no record for point 5.
    let catalog = small_catalog();
    let mut store = OccupancyStore::new();
    assert_eq!(occupy(&mut store, &catalog, GUILD, ALICE, 3, 1_000), OccupyOutcome::Occupied);
    let r = occupy(&mut store, &catalog, GUILD, ALICE, 5, 2_000);
    assert_eq!(r, OccupyOutcome::RejectedConflict);
    assert!(store.get_occupy_data(GUILD, 5).is_none());
    assert_eq!(store.records.len(), 1);
}

#[test]
fn occupy_distinct_categories_allowed() {
    let catalog = small_catalog();
    let mut store = OccupancyStore::new();
    assert_eq!(occupy(&mut store, &catalog, GUILD, ALICE, 1, 1_000), OccupyOutcome::Occupied);
    assert_eq!(occupy(&mut store, &catalog, GUILD, ALICE, 2, 1_000), OccupyOutcome::Occupied);
    assert_eq!(store.records.len(), 2);
}

#[test]
fn occupy_unexpired_point_rejected_with_due_time() {
    let catalog = small_catalog();
    let mut store = OccupancyStore::new();
    let now = 1_000;
    occupy(&mut store, &catalog, GUILD, ALICE, 1, now);
    let r = occupy(&mut store, &catalog, GUILD, BOB, 1, now + 5);
    assert_eq!(r, OccupyOutcome::RejectedLeased { due_time: now + LEASE_SECONDS });
    let rec = store.get_occupy_data(GUILD, 1).unwrap();
    assert_eq!(rec.user_id, ALICE);
    assert_eq!(rec.battle_user_id, None);
}

#[test]
fn occupy_expired_point_registers_challenge() {
    let catalog = small_catalog();
    let mut store = OccupancyStore::new();
    let now = 1_000;
    occupy(&mut store, &catalog, GUILD, ALICE, 1, now);
    let due = now + LEASE_SECONDS;
    let r = occupy(&mut store, &catalog, GUILD, BOB, 1, due);
    assert_eq!(r, OccupyOutcome::ChallengeRegistered { holder: ALICE, notify_role: None });
    let rec = store.get_occupy_data(GUILD, 1).unwrap();
    assert_eq!(rec.user_id, ALICE);
    assert_eq!(rec.due_time, due);
    assert_eq!(rec.battle_user_id, Some(BOB));
}

#[test]
fn challenge_mentions_configured_notify_role() {
    let catalog = small_catalog();
    let mut store = OccupancyStore::new();
    store.set_guild_notify_role(GUILD, 4242);
    let now = 1_000;
    occupy(&mut store, &catalog, GUILD, ALICE, 1, now);
    let r = occupy(&mut store, &catalog, GUILD, BOB, 1, now + LEASE_SECONDS + 1);
    assert_eq!(r, OccupyOutcome::ChallengeRegistered { holder: ALICE, notify_role: Some(4242) });
}

#[test]
fn occupy_contested_point_rejected() {
    let catalog = small_catalog();
    let mut store = OccupancyStore::new();
    let now = 1_000;
    occupy(&mut store, &catalog, GUILD, ALICE, 1, now);
    occupy(&mut store, &catalog, GUILD, BOB, 1, now + LEASE_SECONDS);
    let r = occupy(&mut store, &catalog, GUILD, CAROL, 1, now + LEASE_SECONDS + 10);
    assert_eq!(r, OccupyOutcome::RejectedContested);
    let rec = store.get_occupy_data(GUILD, 1).unwrap();
    assert_eq!(rec.battle_user_id, Some(BOB));
}

#[test]
fn holder_cannot_challenge_own_expired_point() {
    // The holder's own lease counts as a category conflict, so a record
    // can never name its holder as challenger.
    let catalog = small_catalog();
    let mut store = OccupancyStore::new();
    let now = 1_000;
    occupy(&mut store, &catalog, GUILD, ALICE, 1, now);
    let r = occupy(&mut store, &catalog, GUILD, ALICE, 1, now + LEASE_SECONDS + 1);
    assert_eq!(r, OccupyOutcome::RejectedConflict);
    assert_eq!(store.get_occupy_data(GUILD, 1).unwrap().battle_user_id, None);
}

#[test]
fn challenger_holding_blocks_same_category() {
    // A registered challenge counts like a holding for the category test.
    let catalog = small_catalog();
    let mut store = OccupancyStore::new();
    let now = 1_000;
    occupy(&mut store, &catalog, GUILD, ALICE, 1, now);
    occupy(&mut store, &catalog, GUILD, BOB, 1, now + LEASE_SECONDS);
    let r = occupy(&mut store, &catalog, GUILD, BOB, 3, now + LEASE_SECONDS + 1);
    assert_eq!(r, OccupyOutcome::RejectedConflict);
    assert!(store.get_occupy_data(GUILD, 3).is_none());
}

#[test]
fn occupy_unknown_point_rejected() {
    let catalog = small_catalog();
    let mut store = OccupancyStore::new();
    assert_eq!(occupy(&mut store, &catalog, GUILD, ALICE, 99, 1_000), OccupyOutcome::UnknownPoint);
    assert_eq!(store.records.len(), 0);
}

#[test]
fn tenants_are_isolated() {
    let catalog = small_catalog();
    let mut store = OccupancyStore::new();
    assert_eq!(occupy(&mut store, &catalog, GUILD, ALICE, 1, 1_000), OccupyOutcome::Occupied);
    assert_eq!(occupy(&mut store, &catalog, GUILD + 1, ALICE, 1, 1_000), OccupyOutcome::Occupied);
    assert_eq!(store.records.len(), 2);
}

#[test]
fn force_occupy_overrides_any_state() {
    let catalog = small_catalog();
    let mut store = OccupancyStore::new();
    let now = 1_000;
    occupy(&mut store, &catalog, GUILD, ALICE, 1, now);
    occupy(&mut store, &catalog, GUILD, BOB, 1, now + LEASE_SECONDS);
    let later = now + LEASE_SECONDS + 77;
    let r = force_occupy(&mut store, &catalog, GUILD, CAROL, 1, later);
    assert_eq!(r, OccupyOutcome::Occupied);
    let rec = store.get_occupy_data(GUILD, 1).unwrap();
    assert_eq!(rec.user_id, CAROL);
    assert_eq!(rec.due_time, later + LEASE_SECONDS);
    assert_eq!(rec.battle_user_id, None);
    assert_eq!(store.records.len(), 1);
}

#[test]
fn force_occupy_on_vacant_point() {
    let catalog = small_catalog();
    let mut store = OccupancyStore::new();
    let r = force_occupy(&mut store, &catalog, GUILD, BOB, 2, 5_000);
    assert_eq!(r, OccupyOutcome::Occupied);
    let rec = store.get_occupy_data(GUILD, 2).unwrap();
    assert_eq!(rec.user_id, BOB);
    assert_eq!(rec.due_time, 5_000 + LEASE_SECONDS);
}

#[test]
fn force_occupy_ignores_category_conflicts() {
    let catalog = small_catalog();
    let mut store = OccupancyStore::new();
    occupy(&mut store, &catalog, GUILD, ALICE, 3, 1_000);
    let r = force_occupy(&mut store, &catalog, GUILD, ALICE, 5, 1_000);
    assert_eq!(r, OccupyOutcome::Occupied);
    assert_eq!(store.records.len(), 2);
}

#[test]
fn force_occupy_unknown_point_rejected() {
    let catalog = small_catalog();
    let mut store = OccupancyStore::new();
    assert_eq!(
        force_occupy(&mut store, &catalog, GUILD, ALICE, 42, 1_000),
        OccupyOutcome::UnknownPoint
    );
}

#[test]
fn judge_resolves_challenge_for_challenger() {
    let catalog = small_catalog();
    let mut store = OccupancyStore::new();
    let now = 1_000;
    occupy(&mut store, &catalog, GUILD, ALICE, 1, now);
    occupy(&mut store, &catalog, GUILD, BOB, 1, now + LEASE_SECONDS);
    let later = now + LEASE_SECONDS + 500;
    let r = judge(&mut store, GUILD, 1, BOB, later);
    assert_eq!(r, JudgeOutcome::Resolved { winner: BOB });
    let rec = store.get_occupy_data(GUILD, 1).unwrap();
    assert_eq!(rec.user_id, BOB);
    assert_eq!(rec.due_time, later + LEASE_SECONDS);
    assert_eq!(rec.battle_user_id, None);
}

#[test]
fn judge_can_keep_original_holder() {
    let catalog = small_catalog();
    let mut store = OccupancyStore::new();
    let now = 1_000;
    occupy(&mut store, &catalog, GUILD, ALICE, 1, now);
    occupy(&mut store, &catalog, GUILD, BOB, 1, now + LEASE_SECONDS);
    let r = judge(&mut store, GUILD, 1, ALICE, now + LEASE_SECONDS + 1);
    assert_eq!(r, JudgeOutcome::Resolved { winner: ALICE });
    let rec = store.get_occupy_data(GUILD, 1).unwrap();
    assert_eq!(rec.user_id, ALICE);
    assert_eq!(rec.battle_user_id, None);
}

#[test]
fn judge_without_pending_challenge_rejected() {
    let catalog = small_catalog();
    let mut store = OccupancyStore::new();
    assert_eq!(judge(&mut store, GUILD, 1, ALICE, 1_000), JudgeOutcome::NoPendingChallenge);
    occupy(&mut store, &catalog, GUILD, ALICE, 1, 1_000);
    assert_eq!(judge(&mut store, GUILD, 1, ALICE, 2_000), JudgeOutcome::NoPendingChallenge);
}

#[test]
fn judge_rejects_uninvolved_winner() {
    let catalog = small_catalog();
    let mut store = OccupancyStore::new();
    let now = 1_000;
    occupy(&mut store, &catalog, GUILD, ALICE, 1, now);
    occupy(&mut store, &catalog, GUILD, BOB, 1, now + LEASE_SECONDS);
    let r = judge(&mut store, GUILD, 1, CAROL, now + LEASE_SECONDS + 1);
    assert_eq!(r, JudgeOutcome::InvalidWinner);
    assert_eq!(store.get_occupy_data(GUILD, 1).unwrap().battle_user_id, Some(BOB));
}

#[test]
fn store_insert_conflict_is_distinguishable() {
    let mut store = OccupancyStore::new();
    let data = OccupyData {
        ore_point_id: 1,
        guild_id: GUILD,
        user_id: ALICE,
        due_time: 7,
        battle_user_id: None,
    };
    assert_eq!(store.occupy(data), Ok(()));
    let again = OccupyData { user_id: BOB, ..data };
    assert_eq!(store.occupy(again), Err(StoreError::Conflict));
    assert_eq!(store.get_occupy_data(GUILD, 1).unwrap().user_id, ALICE);
}

#[test]
fn store_insert_never_writes_a_challenger() {
    // The insert has no challenger column: whatever the passed data
    // holds, a fresh record starts unchallenged.
    let mut store = OccupancyStore::new();
    let data = OccupyData {
        ore_point_id: 2,
        guild_id: GUILD,
        user_id: ALICE,
        due_time: 9,
        battle_user_id: Some(BOB),
    };
    assert_eq!(store.occupy(data), Ok(()));
    let rec = store.get_occupy_data(GUILD, 2).unwrap();
    assert_eq!(rec.user_id, ALICE);
    assert_eq!(rec.due_time, 9);
    assert_eq!(rec.battle_user_id, None);
}

#[test]
fn notify_role_is_single_valued_and_last_write_wins() {
    let mut store = OccupancyStore::new();
    assert_eq!(store.get_guild_notify_role(GUILD), None);
    store.set_guild_notify_role(GUILD, 10);
    assert_eq!(store.get_guild_notify_role(GUILD), Some(10));
    store.set_guild_notify_role(GUILD, 11);
    assert_eq!(store.get_guild_notify_role(GUILD), Some(11));
    assert_eq!(store.get_guild_notify_role(GUILD + 1), None);
    assert_eq!(store.notify_roles.len(), 1);
}

#[test]
fn write_log_appends_only() {
    let mut store = OccupancyStore::new();
    store.write_log(Some(GUILD), 5, ALICE, "first");
    store.write_log(None, 6, BOB, "second");
    assert_eq!(store.audit_log.len(), 2);
    assert_eq!(store.audit_log[0].content, "first");
    assert_eq!(store.audit_log[0].guild_id, Some(GUILD));
    assert_eq!(store.audit_log[1].content, "second");
    assert_eq!(store.audit_log[1].guild_id, None);
    assert_eq!(store.audit_log[1].channel_id, 6);
}

#[test]
fn from_rows_enforces_the_uniqueness_constraints() {
    let a = OccupyData {
        ore_point_id: 1,
        guild_id: GUILD,
        user_id: ALICE,
        due_time: 5,
        battle_user_id: None,
    };
    let b = OccupyData { user_id: BOB, ..a };
    assert!(OccupancyStore::from_rows(vec![a, b], Vec::new()).is_none());
    assert!(OccupancyStore::from_rows(vec![a], vec![(GUILD, 1), (GUILD, 2)]).is_none());
    let s = OccupancyStore::from_rows(vec![a], vec![(GUILD, 9)]).unwrap();
    assert_eq!(s.records.len(), 1);
    assert_eq!(s.get_guild_notify_role(GUILD), Some(9));
}

#[test]
fn occupy_at_current_time_occupies_a_vacant_point() {
    let catalog = small_catalog();
    let mut store = OccupancyStore::new();
    let r = occupy_at_current_time(&mut store, &catalog, GUILD, ALICE, 1);
    assert_eq!(r, Some(OccupyOutcome::Occupied));
    let rec = store.get_occupy_data(GUILD, 1).unwrap();
    assert_eq!(rec.user_id, ALICE);
    assert!(rec.due_time >= LEASE_SECONDS);
}

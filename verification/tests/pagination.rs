use pal_occupy_bot::catalog::{Catalog, OrePoint, OreType};
use pal_occupy_bot::interaction::{
    interaction_income, show_target_ore_point_buttons, Reply, ShowType,
};
use pal_occupy_bot::list::list;
use pal_occupy_bot::service::{occupy, OccupyOutcome, LEASE_SECONDS};
use pal_occupy_bot::store::OccupancyStore;
use pal_occupy_bot::token::TokenError;

fn ore_type(id: i32, name: &str, emoji: &str) -> OreType {
    OreType { id, name: String::from(name), emoji: String::from(emoji) }
}

fn ore_point(id: i32, mask: i32, x: i32, y: i32, name: &str) -> OrePoint {
    OrePoint { id, ore_type: mask, x, y, name: String::from(name) }
}

fn catalog_of(n: i32) -> Catalog {
    let types = vec![ore_type(1, "iron", "iron"), ore_type(2, "gold", "gold")];
    let mut points = Vec::new();
    for i in 1..=n {
        let mask = if i % 2 == 0 { 2 } else { 1 };
        points.push(ore_point(i, mask, i * 10, i * 10 + 1, "pt"));
    }
    Catalog::new(types, points).expect("catalog must validate")
}

const GUILD: u64 = 900;
const ALICE: u64 = 1;
const BOB: u64 = 2;

#[test]
fn seven_points_page_size_five_first_page() {
    // Seven points with a page size of five: page 0 shows points 1 to 5,
    // with the previous button disabled and the next button enabled.
    let catalog = catalog_of(7);
    let store = OccupancyStore::new();
    let c = list(&store, &catalog, GUILD, 0, 5, false);
    assert_eq!(c.max_page, 2);
    assert_eq!(c.rows.len(), 5);
    let ids: Vec<i32> = c.rows.iter().map(|r| r.id).collect();
    assert_eq!(ids, vec![1, 2, 3, 4, 5]);
    assert!(!c.prev.enabled);
    assert_eq!(c.prev.custom_id, "0");
    assert!(c.refresh.enabled);
    assert_eq!(c.refresh.custom_id, "list_points:0:5");
    assert!(c.next.enabled);
    assert_eq!(c.next.custom_id, "list_points:1:5");
}

#[test]
fn seven_points_page_size_five_second_page() {
    // Page 1 shows points 6 and 7, with the next button disabled.
    let catalog = catalog_of(7);
    let store = OccupancyStore::new();
    let c = list(&store, &catalog, GUILD, 1, 5, false);
    assert_eq!(c.max_page, 2);
    assert_eq!(c.rows.len(), 2);
    let ids: Vec<i32> = c.rows.iter().map(|r| r.id).collect();
    assert_eq!(ids, vec![6, 7]);
    assert!(c.prev.enabled);
    assert_eq!(c.prev.custom_id, "list_points:0:5");
    assert!(!c.next.enabled);
    assert_eq!(c.next.custom_id, "0");
}

#[test]
fn max_page_rounds_up() {
    let store = OccupancyStore::new();
    assert_eq!(list(&store, &catalog_of(7), GUILD, 0, 5, false).max_page, 2);
    assert_eq!(list(&store, &catalog_of(10), GUILD, 0, 5, false).max_page, 2);
    assert_eq!(list(&store, &catalog_of(11), GUILD, 0, 5, false).max_page, 3);
    assert_eq!(list(&store, &catalog_of(1), GUILD, 0, 20, false).max_page, 1);
}

#[test]
fn empty_catalog_renders_empty_page() {
    let catalog = Catalog::new(Vec::new(), Vec::new()).unwrap();
    let store = OccupancyStore::new();
    let c = list(&store, &catalog, GUILD, 0, 5, false);
    assert_eq!(c.max_page, 0);
    assert_eq!(c.rows.len(), 0);
    assert!(!c.prev.enabled);
    assert!(!c.next.enabled);
}

#[test]
fn out_of_range_page_is_empty_not_an_error() {
    let catalog = catalog_of(7);
    let store = OccupancyStore::new();
    let c = list(&store, &catalog, GUILD, 99, 5, false);
    assert_eq!(c.rows.len(), 0);
    assert_eq!(c.max_page, 2);
}

#[test]
fn rows_join_lease_data() {
    let catalog = catalog_of(3);
    let mut store = OccupancyStore::new();
    let now = 1_000;
    occupy(&mut store, &catalog, GUILD, ALICE, 2, now);
    let c = list(&store, &catalog, GUILD, 0, 20, false);
    assert_eq!(c.rows[0].user_id, None);
    assert_eq!(c.rows[0].due_time, None);
    assert_eq!(c.rows[1].user_id, Some(ALICE));
    assert_eq!(c.rows[1].due_time, Some(now + LEASE_SECONDS));
    assert_eq!(c.rows[1].battle_user_id, None);
    assert_eq!(c.rows[2].user_id, None);
}

#[test]
fn judge_button_token_only_for_admins() {
    let catalog = catalog_of(3);
    let store = OccupancyStore::new();
    let c = list(&store, &catalog, GUILD, 0, 5, true);
    assert_eq!(c.show_occupy, "show_occupy:0:5");
    assert_eq!(c.show_challenge, "show_challenge:0:5");
    assert_eq!(c.show_judge.as_deref(), Some("show_judge:0:5"));
    let c2 = list(&store, &catalog, GUILD, 0, 5, false);
    assert!(c2.show_judge.is_none());
}

#[test]
fn show_occupy_filters_vacant_and_category_free_points() {
    let catalog = catalog_of(3);
    let mut store = OccupancyStore::new();
    occupy(&mut store, &catalog, GUILD, ALICE, 1, 1_000);
    let buttons =
        show_target_ore_point_buttons(&store, &catalog, GUILD, ALICE, ShowType::Occupy, 0, 20, 2_000);
    // Point 1 is taken, point 3 shares its category with the holding;
    // only point 2 is offered.
    assert_eq!(buttons.len(), 1);
    assert_eq!(buttons[0].ore_point_id, 2);
    assert_eq!(buttons[0].custom_id, "occupy:2:0:20");
}

#[test]
fn show_challenge_offers_expired_unchallenged_points() {
    let catalog = catalog_of(3);
    let mut store = OccupancyStore::new();
    let now = 1_000;
    occupy(&mut store, &catalog, GUILD, ALICE, 1, now);
    let before =
        show_target_ore_point_buttons(&store, &catalog, GUILD, BOB, ShowType::Challenge, 0, 20, now + 5);
    assert_eq!(before.len(), 0);
    let after = show_target_ore_point_buttons(
        &store,
        &catalog,
        GUILD,
        BOB,
        ShowType::Challenge,
        0,
        20,
        now + LEASE_SECONDS + 1,
    );
    assert_eq!(after.len(), 1);
    assert_eq!(after[0].ore_point_id, 1);
    assert_eq!(after[0].custom_id, "challenge:1:0:20");
}

#[test]
fn show_judge_offers_contested_points() {
    let catalog = catalog_of(3);
    let mut store = OccupancyStore::new();
    let now = 1_000;
    occupy(&mut store, &catalog, GUILD, ALICE, 1, now);
    occupy(&mut store, &catalog, GUILD, BOB, 1, now + LEASE_SECONDS);
    let buttons =
        show_target_ore_point_buttons(&store, &catalog, GUILD, ALICE, ShowType::Judge, 0, 20, now);
    assert_eq!(buttons.len(), 1);
    assert_eq!(buttons[0].ore_point_id, 1);
    assert_eq!(buttons[0].custom_id, "judge:1:0:20");
}

#[test]
fn income_routes_paging_tokens() {
    let catalog = catalog_of(7);
    let mut store = OccupancyStore::new();
    match interaction_income(&mut store, &catalog, GUILD, ALICE, false, "list_points:1:5", 1_000) {
        Ok(Reply::UpdatePage(c)) => {
            assert_eq!(c.page_index, 1);
            assert_eq!(c.rows.len(), 2);
        }
        other => panic!("unexpected reply: {:?}", other.is_ok()),
    }
    match interaction_income(&mut store, &catalog, GUILD, ALICE, true, "list_points", 1_000) {
        Ok(Reply::NewPage(c)) => {
            assert_eq!(c.page_index, 0);
            assert_eq!(c.rows.len(), 7);
            assert!(c.show_judge.is_some());
        }
        other => panic!("unexpected reply: {:?}", other.is_ok()),
    }
}

#[test]
fn income_routes_occupy_and_refreshes_page() {
    let catalog = catalog_of(7);
    let mut store = OccupancyStore::new();
    match interaction_income(&mut store, &catalog, GUILD, ALICE, false, "occupy:3:0:5", 1_000) {
        Ok(Reply::OccupyDone { outcome, page }) => {
            assert_eq!(outcome, OccupyOutcome::Occupied);
            assert_eq!(page.rows[2].user_id, Some(ALICE));
        }
        other => panic!("unexpected reply: {:?}", other.is_ok()),
    }
    assert!(store.get_occupy_data(GUILD, 3).is_some());
}

#[test]
fn income_routes_show_tokens_with_back_button() {
    let catalog = catalog_of(3);
    let mut store = OccupancyStore::new();
    match interaction_income(&mut store, &catalog, GUILD, ALICE, false, "show_occupy:0:5", 1_000) {
        Ok(Reply::TargetButtons { buttons, back }) => {
            assert_eq!(buttons.len(), 3);
            assert_eq!(back, "list_points:0:5");
        }
        other => panic!("unexpected reply: {:?}", other.is_ok()),
    }
}

#[test]
fn income_rejects_unknown_and_malformed_tokens() {
    let catalog = catalog_of(3);
    let mut store = OccupancyStore::new();
    assert!(matches!(
        interaction_income(&mut store, &catalog, GUILD, ALICE, false, "bogus:1:2", 1_000),
        Err(TokenError::UnknownCommand)
    ));
    assert!(matches!(
        interaction_income(&mut store, &catalog, GUILD, ALICE, false, "list_points:0", 1_000),
        Err(TokenError::BadArguments)
    ));
    assert!(matches!(
        interaction_income(&mut store, &catalog, GUILD, ALICE, false, "list_points:0:0", 1_000),
        Err(TokenError::BadArguments)
    ));
    assert!(matches!(
        interaction_income(&mut store, &catalog, GUILD, ALICE, false, "occupy:1:0:0", 1_000),
        Err(TokenError::BadArguments)
    ));
    assert_eq!(store.records.len(), 0);
}

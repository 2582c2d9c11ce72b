use pal_occupy_bot::catalog::{Catalog, OrePoint, OreType};
use pal_occupy_bot::list::list;
use pal_occupy_bot::store::OccupancyStore;

fn ore_type(id: i32, name: &str, emoji: &str) -> OreType {
    OreType { id, name: String::from(name), emoji: String::from(emoji) }
}

fn ore_point(id: i32, mask: i32, x: i32, y: i32, name: &str) -> OrePoint {
    OrePoint { id, ore_type: mask, x, y, name: String::from(name) }
}

fn types() -> Vec<OreType> {
    vec![ore_type(1, "iron", ":iron:11"), ore_type(2, "gold", ":gold:22")]
}

#[test]
fn catalog_accepts_ordered_positive_points() {
    let c = Catalog::new(types(), vec![ore_point(1, 1, 0, 0, "a"), ore_point(5, 3, 1, 1, "b")]);
    let c = c.expect("a sorted catalog with positive ids must validate");
    assert_eq!(c.get_point_count(), 2);
}

#[test]
fn catalog_refuses_unsorted_or_duplicate_ids() {
    assert!(Catalog::new(types(), vec![ore_point(5, 1, 0, 0, "a"), ore_point(1, 1, 1, 1, "b")])
        .is_none());
    assert!(Catalog::new(types(), vec![ore_point(3, 1, 0, 0, "a"), ore_point(3, 1, 1, 1, "b")])
        .is_none());
}

#[test]
fn catalog_requires_category_ids_to_be_ordered_bit_flags() {
    let p = vec![ore_point(1, 1, 0, 0, "a")];
    // Powers of two in ascending order validate.
    let ok = vec![ore_type(1, "a", "a"), ore_type(2, "b", "b"), ore_type(4, "c", "c")];
    assert!(Catalog::new(ok, p.clone()).is_some());
    // A combined mask is not a single flag.
    assert!(Catalog::new(vec![ore_type(3, "a", "a")], p.clone()).is_none());
    // Zero and negatives are no flags.
    assert!(Catalog::new(vec![ore_type(0, "a", "a")], p.clone()).is_none());
    assert!(Catalog::new(vec![ore_type(-4, "a", "a")], p.clone()).is_none());
    // Duplicate or descending ids are refused.
    assert!(Catalog::new(vec![ore_type(2, "a", "a"), ore_type(2, "b", "b")], p.clone()).is_none());
    assert!(Catalog::new(vec![ore_type(4, "a", "a"), ore_type(1, "b", "b")], p).is_none());
}

#[test]
fn catalog_refuses_nonpositive_ids_and_empty_masks() {
    assert!(Catalog::new(types(), vec![ore_point(0, 1, 0, 0, "a")]).is_none());
    assert!(Catalog::new(types(), vec![ore_point(-2, 1, 0, 0, "a")]).is_none());
    assert!(Catalog::new(types(), vec![ore_point(1, 0, 0, 0, "a")]).is_none());
}

#[test]
fn iter_exposes_the_whole_catalog_in_order() {
    let c = Catalog::new(types(), vec![ore_point(1, 1, 0, 0, "a"), ore_point(2, 2, 1, 1, "b")])
        .unwrap();
    let points = OrePoint::iter(&c);
    assert_eq!(points.len(), 2);
    assert_eq!(points[0].id, 1);
    assert_eq!(points[1].id, 2);
    let ts = OreType::iter(&c);
    assert_eq!(ts.len(), 2);
    assert_eq!(ts[0].name, "iron");
}

#[test]
fn point_emoji_concatenates_matching_categories() {
    let c = Catalog::new(
        types(),
        vec![ore_point(1, 1, 0, 0, "a"), ore_point(2, 2, 1, 1, "b"), ore_point(3, 3, 2, 2, "c")],
    )
    .unwrap();
    let points = OrePoint::iter(&c);
    assert_eq!(points[0].emoji(&c), "<:iron:11>");
    assert_eq!(points[1].emoji(&c), "<:gold:22>");
    assert_eq!(points[2].emoji(&c), "<:iron:11><:gold:22>");
}

#[test]
fn list_row_emoji_matches_point_emoji() {
    let c = Catalog::new(types(), vec![ore_point(1, 3, 0, 0, "a")]).unwrap();
    let store = OccupancyStore::new();
    let page = list(&store, &c, 7, 0, 20, false);
    assert_eq!(page.rows[0].emoji(&c), "<:iron:11><:gold:22>");
}

#[test]
fn find_point_index_finds_exactly_known_ids() {
    let c = Catalog::new(types(), vec![ore_point(2, 1, 0, 0, "a"), ore_point(9, 2, 1, 1, "b")])
        .unwrap();
    assert_eq!(c.find_point_index(2), Some(0));
    assert_eq!(c.find_point_index(9), Some(1));
    assert_eq!(c.find_point_index(1), None);
    assert_eq!(c.find_point_index(-4), None);
}

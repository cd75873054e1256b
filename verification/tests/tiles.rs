//! The tiles of the month-over-month map.
use cloudbridge::amount::Amount;
use cloudbridge::ui::chart::{
    change_line, direction, split_tiles, top_tiles, ChartHover, Move, TreemapHover, TreemapItem,
    TILE_CAP,
};

fn amount(value: f64) -> Amount {
    Amount { bits: value.to_bits() }
}

fn number(amount: Amount) -> f64 {
    f64::from_bits(amount.bits)
}

fn item(label: &str, current: f64, previous: f64) -> TreemapItem {
    TreemapItem::new(label.to_string(), amount(current), amount(previous))
}

/// The tiles, the rest added up.
fn tiles_of(items: Vec<TreemapItem>, cap: usize) -> Vec<TreemapItem> {
    let split = split_tiles(items, cap);
    let current: f64 = split.tail.iter().map(|tile| number(tile.amount)).sum();
    let previous: f64 = split.tail.iter().map(|tile| number(tile.previous)).sum();
    top_tiles(split, amount(current), amount(previous))
}

fn change_of(item: &TreemapItem) -> Option<f64> {
    let ratio = (number(item.amount) - number(item.previous)) / number(item.previous);
    item.change(amount(ratio)).map(number)
}

#[test]
fn top_tiles_folds_the_tail() {
    let items: Vec<TreemapItem> = (0..20)
        .map(|i| item(&format!("s{i}"), 100.0 - i as f64, 50.0))
        .collect();
    let tiles = tiles_of(items, 11);
    assert_eq!(tiles.len(), 12);
    assert_eq!(tiles[11].label, "9 more");
    // The tail sums both periods, so its heat is honest.
    let want: f64 = (11..20).map(|i| 100.0 - i as f64).sum();
    assert!((number(tiles[11].amount) - want).abs() < 1e-3);
    assert!((number(tiles[11].previous) - 9.0 * 50.0).abs() < 1e-3);
    // Largest first, and small inputs pass through untouched.
    assert_eq!(tiles[0].label, "s0");
    let few = tiles_of(vec![item("a", 1.0, 1.0)], 11);
    assert_eq!(few.len(), 1);
}

#[test]
fn change_ratio_marks_new_buckets() {
    assert_eq!(change_of(&item("a", 10.0, 0.0)), None);
    let m = change_of(&item("a", 15.0, 10.0)).unwrap();
    assert!((m - 0.5).abs() < 1e-9);
    let m = change_of(&item("a", 5.0, 10.0)).unwrap();
    assert!((m + 0.5).abs() < 1e-9);
}

#[test]
fn a_split_loses_no_bucket() {
    let items: Vec<TreemapItem> = (0..15).map(|i| item(&format!("s{i}"), i as f64, 1.0)).collect();
    let split = split_tiles(items, TILE_CAP);
    assert_eq!(split.top.len(), 11);
    assert_eq!(split.tail.len(), 4);
    let mut labels: Vec<String> =
        split.top.iter().chain(split.tail.iter()).map(|tile| tile.label.clone()).collect();
    labels.sort();
    let mut want: Vec<String> = (0..15).map(|i| format!("s{i}")).collect();
    want.sort();
    assert_eq!(labels, want);
}

#[test]
fn a_change_points_one_way() {
    assert_eq!(direction(None), Move::New);
    assert_eq!(direction(Some(amount(0.5))), Move::Up);
    assert_eq!(direction(Some(amount(-0.5))), Move::Down);
    assert_eq!(direction(Some(amount(-0.0))), Move::Flat);
    assert_eq!(direction(Some(amount(f64::NAN))), Move::Flat);
    assert_eq!(change_line(None, amount(1.0)), "New this period");
    assert_eq!(change_line(Some(amount(0.5)), amount(50.0)), "+50.0% vs last month");
}

#[test]
fn the_mouse_is_on_the_nearest_point() {
    let distances = |values: &[f64]| values.iter().map(|value| amount(*value)).collect();
    assert_eq!(ChartHover::nearest(&distances(&[])), None);
    assert_eq!(ChartHover::nearest(&distances(&[4.0, 1.0, 1.0, 2.0])), Some(1));
    assert_eq!(ChartHover::nearest(&distances(&[f64::NAN, 9.0])), Some(1));
    let mut hover = ChartHover::new();
    assert!(hover.follow(Some(2)) && !hover.follow(Some(2)) && !hover.follow(None));
    assert_eq!(hover.index(), Some(2));
    hover.clear();
    assert_eq!(hover.index(), None);
    let mut tile = TreemapHover::new();
    assert!(tile.follow(Some(1)) && tile.follow(None) && !tile.follow(None));
    tile.set(Some(4));
    assert_eq!(tile.index(), Some(4));
}

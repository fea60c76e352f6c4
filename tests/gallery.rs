use cloudshot::cache::TextureCache;
use cloudshot::gallery::plan_gallery;
use cloudshot::hover::{HoverReport, HoverSet};
use cloudshot::layout::{fit, Size};
use cloudshot::shots::{RecentShot, StorageKind};

fn size(width: u32, height: u32) -> Size {
    Size { width, height }
}

fn shots() -> Vec<RecentShot> {
    vec![
        RecentShot::new(1, "a.png".to_string(), StorageKind::Clipboard),
        RecentShot::new(2, "missing.png".to_string(), StorageKind::Local),
        RecentShot::new(3, "c.png".to_string(), StorageKind::Clipboard),
    ]
}

fn cache() -> TextureCache<u32> {
    TextureCache::from_loaded(vec![
        ("a.png".to_string(), Some((10u32, size(1200, 600)))),
        ("missing.png".to_string(), None),
        ("c.png".to_string(), Some((30u32, size(400, 800)))),
    ])
    .unwrap()
}

#[test]
fn plan_skips_missing_and_keeps_order() {
    let shots = shots();
    let cache = cache();
    let mut hover = HoverSet::new();
    hover.apply_frame(&vec![HoverReport { key: "c.png".to_string(), contained: true }]);
    let cards = plan_gallery(&shots, &cache, &hover, 300);
    assert_eq!(cards.len(), 2);
    assert_eq!(cards[0].shot_index, 0);
    assert_eq!(cards[0].container, size(300, 200));
    assert_eq!(Some(cards[0].placement), fit(size(300, 200), size(1200, 600)));
    assert!(!cards[0].hovered);
    assert_eq!(cards[1].shot_index, 2);
    assert_eq!(Some(cards[1].placement), fit(size(300, 200), size(400, 800)));
    assert!(cards[1].hovered);
}

#[test]
fn no_room_draws_nothing() {
    let shots = shots();
    let cache = cache();
    let hover = HoverSet::new();
    assert!(plan_gallery(&shots, &cache, &hover, 1).is_empty());
    assert!(plan_gallery(&shots, &cache, &hover, 0).is_empty());
}

#[test]
fn empty_gallery() {
    let cache = cache();
    let hover = HoverSet::new();
    assert!(plan_gallery(&Vec::new(), &cache, &hover, 300).is_empty());
}

use cloudshot::cache::{CacheError, TextureCache};
use cloudshot::layout::Size;

fn size(width: u32, height: u32) -> Size {
    Size { width, height }
}

#[test]
fn register_then_lookup() {
    let mut c: TextureCache<u32> = TextureCache::new();
    assert_eq!(c.len(), 0);
    assert_eq!(c.register("a".to_string(), 7, size(10, 20)), Ok(()));
    assert_eq!(c.lookup("a"), Some(&(7, size(10, 20))));
    assert_eq!(c.lookup("b"), None);
    assert_eq!(c.len(), 1);
}

#[test]
fn duplicate_key_is_refused() {
    let mut c: TextureCache<u32> = TextureCache::new();
    assert_eq!(c.register("a".to_string(), 7, size(10, 20)), Ok(()));
    assert_eq!(c.register("a".to_string(), 8, size(1, 1)), Err(CacheError::DuplicateKey));
    assert_eq!(c.lookup("a"), Some(&(7, size(10, 20))));
    assert_eq!(c.len(), 1);
}

#[test]
fn lookup_is_identity_stable() {
    let mut c: TextureCache<String> = TextureCache::new();
    c.register("a".to_string(), "texture-a".to_string(), size(3, 4)).unwrap();
    let first = c.lookup("a").unwrap();
    let second = c.lookup("a").unwrap();
    assert!(std::ptr::eq(first, second));
}

#[test]
fn missing_assets_are_left_out() {
    let outcomes = vec![
        ("one".to_string(), Some((1u32, size(10, 10)))),
        ("two".to_string(), None),
        ("three".to_string(), Some((3u32, size(30, 20)))),
        ("four".to_string(), None),
        ("five".to_string(), Some((5u32, size(5, 50)))),
    ];
    let c = TextureCache::from_loaded(outcomes).unwrap();
    assert_eq!(c.len(), 3);
    assert_eq!(c.lookup("one"), Some(&(1, size(10, 10))));
    assert_eq!(c.lookup("two"), None);
    assert_eq!(c.lookup("three"), Some(&(3, size(30, 20))));
    assert_eq!(c.lookup("four"), None);
    assert_eq!(c.lookup("five"), Some(&(5, size(5, 50))));
}

#[test]
fn all_missing_gives_empty_cache() {
    let outcomes: Vec<(String, Option<(u32, Size)>)> =
        vec![("x".to_string(), None), ("y".to_string(), None)];
    let c = TextureCache::from_loaded(outcomes).unwrap();
    assert_eq!(c.len(), 0);
}

#[test]
fn duplicate_loaded_names_fail() {
    let outcomes = vec![
        ("a".to_string(), Some((1u32, size(1, 1)))),
        ("b".to_string(), None),
        ("a".to_string(), Some((2u32, size(1, 1)))),
    ];
    assert!(matches!(TextureCache::from_loaded(outcomes), Err(CacheError::DuplicateKey)));
}

#[test]
fn duplicate_name_without_image_is_fine() {
    let outcomes = vec![
        ("a".to_string(), Some((1u32, size(1, 1)))),
        ("a".to_string(), None),
    ];
    let c = TextureCache::from_loaded(outcomes).unwrap();
    assert_eq!(c.len(), 1);
}

use otlyra_app::images::{ImageCache, Picture, IMAGE_CACHE_BUDGET};

/// A picture of `bytes` bytes, with no pixels worth looking at.
fn picture(handle: u64, bytes: usize) -> Picture {
    Picture { handle, bytes }
}

/// The cache keeps what fits and drops what has not been looked at longest.
#[test]
fn the_image_cache_evicts_the_least_recently_used() {
    let mut cache = ImageCache::default();
    let big = IMAGE_CACHE_BUDGET / 2;

    cache.insert("a".to_owned(), picture(1, big));
    cache.insert("b".to_owned(), picture(2, big));
    assert!(cache.get("a").is_some(), "both fit");

    // `a` was just used, so `b` is the one that goes.
    cache.insert("c".to_owned(), picture(3, big));
    assert!(cache.get("b").is_none(), "the older one should have gone");
    assert!(cache.get("a").is_some());
    assert!(cache.get("c").is_some());
    assert!(cache.bytes() <= IMAGE_CACHE_BUDGET);
    assert_eq!(cache.bytes(), big + big);
}

/// One larger than the whole budget is not worth emptying the cache for.
#[test]
fn an_oversized_picture_is_not_cached_at_all() {
    let mut cache = ImageCache::default();
    cache.insert("small".to_owned(), picture(1, 1024));
    cache.insert("huge".to_owned(), picture(2, IMAGE_CACHE_BUDGET + 1));

    assert!(cache.get("huge").is_none());
    assert!(cache.get("small").is_some(), "it emptied the cache anyway");
}

/// What is put in again replaces what was there, and nothing goes while there is room.
#[test]
fn a_picture_is_kept_once_and_room_is_made_only_where_it_is_needed() {
    let mut cache = ImageCache::default();
    let third = IMAGE_CACHE_BUDGET / 3;
    cache.insert("a".to_owned(), picture(1, third));
    cache.insert("b".to_owned(), picture(2, third));
    cache.insert("a".to_owned(), picture(3, third));
    assert_eq!(cache.get("a"), Some(picture(3, third)));
    assert_eq!(cache.get("b"), Some(picture(2, third)));
    cache.insert("c".to_owned(), picture(4, third));
    assert!(cache.get("a").is_some() && cache.get("b").is_some() && cache.get("c").is_some());
    cache.insert("d".to_owned(), picture(5, IMAGE_CACHE_BUDGET));
    assert!(cache.get("a").is_none() && cache.get("c").is_none());
    assert!(cache.get("d").is_some());
}

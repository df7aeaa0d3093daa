use wallpaper::display::monitor::{Monitor, MonitorBuilder};
use wallpaper::engine::buffer::Buffer;
use wallpaper::engine::cache::{Cache, CacheKey};

#[test]
fn new_buffer_counts_as_released() {
    let b = Buffer::new(1920, 1080, 4);
    assert_eq!(b.buffer(), 4);
    assert_eq!(b.width(), 1920);
    assert_eq!(b.height(), 1080);
    assert_eq!(b.size(), (1920, 1080));
    assert!(b.is_released());
    assert_eq!(b.release_count(), 0);
}

#[test]
fn set_released_counts_releases_only() {
    let mut b = Buffer::new(1, 1, 1);
    b.set_released(false);
    assert!(!b.is_released());
    assert_eq!(b.release_count(), 0);
    b.set_released(true);
    b.set_released(true);
    assert!(b.is_released());
    assert_eq!(b.release_count(), 2);
}

#[test]
fn release_count_wraps_round() {
    let mut b = Buffer { buffer: 1, width: 1, height: 1, released: false, release_count: u32::MAX };
    b.set_released(true);
    assert_eq!(b.release_count(), 0);
}

#[test]
fn monitor_starts_without_geometry() {
    let m = Monitor::new(5, 6);
    assert_eq!(
        m,
        Monitor { output: 5, name: 6, x: 0, y: 0, width: 0, height: 0, refresh: 0, scale: 1 }
    );
}

#[test]
fn builder_collects_what_is_known() {
    let m = MonitorBuilder::new(9, 8).position(10, -20).size(1920, 1080).refresh(60000).build();
    assert_eq!(
        m,
        Monitor {
            output: 8,
            name: 9,
            x: 10,
            y: -20,
            width: 1920,
            height: 1080,
            refresh: 60000,
            scale: 1
        }
    );
}

#[test]
fn physical_size_scales_and_saturates() {
    let mut m = MonitorBuilder::new(1, 1).size(1920, 1080).build();
    assert_eq!(m.physical_size(), (1920, 1080));
    m.scale = 2;
    assert_eq!(m.physical_size(), (3840, 2160));
    m.width = -5;
    assert_eq!(m.physical_size(), (0, 2160));
    m.width = i32::MAX;
    m.scale = 3;
    assert_eq!(m.physical_size(), (u32::MAX, 3240));
}

#[test]
fn cache_key_tells_paths_and_sizes_apart() {
    let a = CacheKey::new("a.jpg", 1920, 1080);
    assert_eq!(a.path(), "a.jpg");
    assert_eq!(a.width(), 1920);
    assert_eq!(a.height(), 1080);
    assert!(a.same(&CacheKey::new("a.jpg", 1920, 1080)));
    assert!(!a.same(&CacheKey::new("b.jpg", 1920, 1080)));
    assert!(!a.same(&CacheKey::new("a.jpg", 1921, 1080)));
    assert!(!a.same(&CacheKey::new("a.jpg", 1920, 1081)));
    assert_eq!(a, CacheKey::new("a.jpg", 1920, 1080));
}

#[test]
fn cache_get_is_a_pure_lookup() {
    let mut cache = Cache::new();
    assert!(cache.is_empty());
    assert_eq!(cache.get(&CacheKey::new("a.jpg", 1, 1)), None);
    cache.insert(CacheKey::new("a.jpg", 1, 1), Buffer::new(1, 1, 10));
    assert_eq!(cache.get(&CacheKey::new("a.jpg", 1, 1)), Some(&Buffer::new(1, 1, 10)));
    assert_eq!(cache.get(&CacheKey::new("a.jpg", 1, 1)), Some(&Buffer::new(1, 1, 10)));
    assert_eq!(cache.get(&CacheKey::new("a.jpg", 2, 1)), None);
    assert_eq!(cache.len(), 1);
}

#[test]
fn cache_insert_overwrites() {
    let mut cache = Cache::default();
    cache.insert(CacheKey::new("a.jpg", 1, 1), Buffer::new(1, 1, 10));
    cache.insert(CacheKey::new("b.jpg", 1, 1), Buffer::new(1, 1, 11));
    cache.insert(CacheKey::new("a.jpg", 1, 1), Buffer::new(1, 1, 12));
    assert_eq!(cache.len(), 2);
    assert_eq!(cache.get(&CacheKey::new("a.jpg", 1, 1)).unwrap().buffer, 12);
    assert_eq!(cache.get(&CacheKey::new("b.jpg", 1, 1)).unwrap().buffer, 11);
}

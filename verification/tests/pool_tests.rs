use memmap2::MmapMut;
use wallpaper::engine::buffer::Buffer;
use wallpaper::engine::pool::{region_size, BufferPool, BUFFER_COUNT};
use wallpaper::engine::protocol::{Format, Request};

fn pool(id: u32, width: i32, height: i32) -> BufferPool {
    let size = region_size(width, height).unwrap();
    let map = MmapMut::map_anon(size).unwrap();
    BufferPool::new(id, width, height, map).unwrap()
}

#[test]
fn region_size_counts_both_frames() {
    assert_eq!(region_size(3, 2), Some(48));
    assert_eq!(region_size(0, 2), None);
    assert_eq!(region_size(-1, 2), None);
    assert_eq!(region_size(1920, 1080), Some(1920 * 1080 * 8));
    assert_eq!(region_size(32768, 32768), None);
}

#[test]
fn write_pixels_swaps_red_and_blue() {
    let mut p = pool(10, 2, 1);
    let src: Vec<u8> = vec![1, 2, 3, 4, 5, 6, 7, 8];
    assert!(p.can_write());
    p.write_pixels(&src);
    let got: Vec<u8> = (0..8).map(|i| p.byte_at(i).unwrap()).collect();
    assert_eq!(got, vec![3, 2, 1, 4, 7, 6, 5, 8]);
    assert_eq!(p.byte_at(8), Some(0));
    assert_eq!(p.byte_at(16), None);
}

#[test]
fn write_pixels_leaves_a_partial_pixel_alone() {
    let mut p = pool(10, 2, 1);
    let src: Vec<u8> = vec![9, 8, 7, 6, 5, 4, 3];
    p.write_pixels(&src);
    let got: Vec<u8> = (0..8).map(|i| p.byte_at(i).unwrap()).collect();
    assert_eq!(got, vec![7, 8, 9, 6, 0, 0, 0, 0]);
}

#[test]
fn pool_of_two_never_holds_a_third_buffer() {
    let mut p = pool(100, 4, 4);
    let (a, reqs_a) = p.get_buffer().unwrap();
    assert_eq!(a, Buffer { buffer: 101, width: 4, height: 4, released: true, release_count: 0 });
    assert_eq!(
        reqs_a,
        vec![
            Request::CreatePool { pool: 100, size: 128 },
            Request::CreateBuffer {
                pool: 100,
                buffer: 101,
                offset: 0,
                width: 4,
                height: 4,
                stride: 16,
                format: Format::Argb8888,
            },
        ]
    );
    assert!(p.mark_attached(101));
    let (b, reqs_b) = p.get_buffer().unwrap();
    assert_eq!(b.buffer, 102);
    assert_eq!(
        reqs_b,
        vec![Request::CreateBuffer {
            pool: 100,
            buffer: 102,
            offset: 64,
            width: 4,
            height: 4,
            stride: 16,
            format: Format::Argb8888,
        }]
    );
    assert_eq!(p.current_index(), 1);
    assert!(p.mark_attached(102));
    assert!(p.get_buffer().is_none());
    assert_eq!(p.buffer_count(), BUFFER_COUNT);
    assert!(!p.can_write());

    assert!(p.mark_released(101));
    assert!(p.mark_released(102));
    assert!(!p.mark_released(7));
    let (c, reqs_c) = p.get_buffer().unwrap();
    assert_eq!(c.buffer, 101);
    assert_eq!(c.release_count, 1);
    assert!(reqs_c.is_empty());
    assert_eq!(p.buffer_count(), BUFFER_COUNT);
    assert_eq!(p.current_index(), 0);
}

#[test]
fn pool_new_refuses_what_cannot_be_served() {
    let small = MmapMut::map_anon(47).unwrap();
    assert!(matches!(
        BufferPool::new(1, 3, 2, small),
        Err(wallpaper::WallpaperError::Memory(_))
    ));
    let zero = MmapMut::map_anon(16).unwrap();
    assert!(matches!(
        BufferPool::new(1, 0, 2, zero),
        Err(wallpaper::WallpaperError::Memory(_))
    ));
    let negative = MmapMut::map_anon(16).unwrap();
    assert!(matches!(
        BufferPool::new(1, 2, -2, negative),
        Err(wallpaper::WallpaperError::Memory(_))
    ));
    let handles = MmapMut::map_anon(48).unwrap();
    assert!(matches!(
        BufferPool::new(u32::MAX - 1, 3, 2, handles),
        Err(wallpaper::WallpaperError::Memory(_))
    ));
    let fits = MmapMut::map_anon(48).unwrap();
    let p = BufferPool::new(u32::MAX - 2, 3, 2, fits).unwrap();
    assert_eq!(p.id(), u32::MAX - 2);
    assert_eq!(p.width(), 3);
    assert_eq!(p.height(), 2);
    assert_eq!(p.frame_size(), 24);
    assert_eq!(p.buffer_count(), 0);
    assert_eq!(p.buffer_at(0), None);
}

#[test]
fn write_pixels_goes_to_the_slot_of_the_chosen_buffer() {
    let mut p = pool(0, 1, 1);
    let (a, _) = p.get_buffer().unwrap();
    p.write_pixels(&[1, 2, 3, 4]);
    p.mark_attached(a.buffer);
    let (b, _) = p.get_buffer().unwrap();
    assert_eq!(b.buffer, 2);
    p.write_pixels(&[10, 20, 30, 40]);
    let got: Vec<u8> = (0..8).map(|i| p.byte_at(i).unwrap()).collect();
    assert_eq!(got, vec![3, 2, 1, 4, 30, 20, 10, 40]);
}

#[test]
fn write_pixels_is_lossless_for_odd_sizes() {
    for (w, h) in [(1, 1), (3, 1), (1, 3), (5, 7), (7, 5), (13, 3)] {
        let mut p = pool(0, w, h);
        let n = (w * h * 4) as usize;
        let src: Vec<u8> = (0..n).map(|i| (i * 37 % 251) as u8).collect();
        p.get_buffer().unwrap();
        p.write_pixels(&src);
        for i in 0..(n / 4) {
            let blue = p.byte_at(4 * i).unwrap();
            let green = p.byte_at(4 * i + 1).unwrap();
            let red = p.byte_at(4 * i + 2).unwrap();
            let alpha = p.byte_at(4 * i + 3).unwrap();
            assert_eq!(
                (red, green, blue, alpha),
                (src[4 * i], src[4 * i + 1], src[4 * i + 2], src[4 * i + 3])
            );
        }
    }
}

#[test]
fn first_released_buffer_is_chosen_again_without_marking() {
    let mut p = pool(0, 2, 2);
    let (a, _) = p.get_buffer().unwrap();
    let (b, created) = p.get_buffer().unwrap();
    assert_eq!(a.buffer, b.buffer);
    assert!(created.is_empty());
    assert_eq!(p.buffer_count(), 1);
}

#[test]
fn teardown_destroys_buffers_then_the_pool() {
    let mut p = pool(30, 2, 2);
    p.get_buffer().unwrap();
    p.mark_attached(31);
    p.get_buffer().unwrap();
    assert_eq!(
        p.teardown(),
        vec![
            Request::DestroyBuffer { buffer: 31 },
            Request::DestroyBuffer { buffer: 32 },
            Request::DestroyPool { pool: 30 },
        ]
    );
    let untouched = pool(30, 2, 2);
    assert!(untouched.teardown().is_empty());
}

#[test]
fn mark_attached_keeps_the_release_count() {
    let mut p = pool(0, 2, 2);
    p.get_buffer().unwrap();
    assert!(p.mark_released(1));
    assert!(p.mark_attached(1));
    assert_eq!(
        p.buffer_at(0),
        Some(Buffer { buffer: 1, width: 2, height: 2, released: false, release_count: 1 })
    );
    assert!(!p.mark_attached(2));
}

use memmap2::MmapMut;
use wallpaper::engine::buffer::Buffer;
use wallpaper::engine::protocol::{Format, Request};
use wallpaper::engine::shm::ShmBuffer;
use wallpaper::WallpaperError;

#[test]
fn shm_buffer_checks_its_memory() {
    assert!(matches!(
        ShmBuffer::new(2, 2, MmapMut::map_anon(15).unwrap()),
        Err(WallpaperError::Memory(_))
    ));
    assert!(matches!(
        ShmBuffer::new(0, 2, MmapMut::map_anon(16).unwrap()),
        Err(WallpaperError::Memory(_))
    ));
    assert!(matches!(
        ShmBuffer::new(65536, 65536, MmapMut::map_anon(16).unwrap()),
        Err(WallpaperError::Memory(_))
    ));
    let shm = ShmBuffer::new(2, 2, MmapMut::map_anon(16).unwrap()).unwrap();
    assert_eq!(shm.size(), (2, 2));
    assert_eq!(shm.as_slice().len(), 16);
}

#[test]
fn shm_buffer_keeps_what_is_written_to_its_slice() {
    let mut shm = ShmBuffer::new(1, 2, MmapMut::map_anon(8).unwrap()).unwrap();
    shm.as_mut_slice().copy_from_slice(&[1, 2, 3, 4, 5, 6, 7, 8]);
    assert_eq!(shm.as_slice(), &[1, 2, 3, 4, 5, 6, 7, 8]);
}

#[test]
fn shm_create_buffer_uses_a_pool_of_its_own() {
    let shm = ShmBuffer::new(3, 2, MmapMut::map_anon(24).unwrap()).unwrap();
    let (buffer, requests) = shm.create_buffer(40, 41);
    assert_eq!(buffer, Buffer::new(3, 2, 41));
    assert_eq!(
        requests,
        vec![
            Request::CreatePool { pool: 40, size: 24 },
            Request::CreateBuffer {
                pool: 40,
                buffer: 41,
                offset: 0,
                width: 3,
                height: 2,
                stride: 12,
                format: Format::Argb8888,
            },
            Request::DestroyPool { pool: 40 },
        ]
    );
}

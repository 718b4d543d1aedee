use bucket_streamer::frame::{pack_planes, DecodedFrame, Plane};

fn frame_of(width: u32, height: u32) -> DecodedFrame {
    let len = (width * height + 2 * (width / 2) * (height / 2)) as usize;
    DecodedFrame {
        width,
        height,
        pts: None,
        data: vec![0; len],
        linesize: [width as i32, (width / 2) as i32, (width / 2) as i32],
    }
}

#[test]
fn test_plane_sizes() {
    let frame = frame_of(640, 480);
    assert_eq!(frame.y_plane_size(), 307200);
    assert_eq!(frame.chroma_plane_size(), 76800);
    assert_eq!(frame.data.len(), frame.y_plane_size() + 2 * frame.chroma_plane_size());
    let frame = frame_of(1920, 1080);
    assert_eq!(frame.y_plane_size(), 2073600);
    assert_eq!(frame.chroma_plane_size(), 518400);
}

#[test]
fn test_plane_sizes_of_small_and_odd_frames() {
    assert_eq!(frame_of(0, 0).y_plane_size(), 0);
    assert_eq!(frame_of(0, 0).chroma_plane_size(), 0);
    assert_eq!(frame_of(2, 2).y_plane_size(), 4);
    assert_eq!(frame_of(2, 2).chroma_plane_size(), 1);
    // each chroma plane has half the width and half the height, rounded down
    assert_eq!(frame_of(3, 3).y_plane_size(), 9);
    assert_eq!(frame_of(3, 3).chroma_plane_size(), 1);
    let mut large = frame_of(2, 2);
    large.width = 65535;
    large.height = 65535;
    assert_eq!(large.y_plane_size(), 4294836225);
    assert_eq!(large.chroma_plane_size(), 32767 * 32767);
}

#[test]
fn test_packing_drops_row_padding() {
    // 4x2 luma with stride 6, 2x1 chroma with stride 3
    let y = [1, 2, 3, 4, 0, 0, 5, 6, 7, 8, 0, 0];
    let u = [9, 10, 0];
    let v = [11, 12, 0];
    let frame = pack_planes(
        4,
        2,
        Some(42),
        &Plane { data: &y, stride: 6 },
        &Plane { data: &u, stride: 3 },
        &Plane { data: &v, stride: 3 },
    )
    .unwrap();
    assert_eq!(frame.width, 4);
    assert_eq!(frame.height, 2);
    assert_eq!(frame.pts, Some(42));
    assert_eq!(frame.data, vec![1, 2, 3, 4, 5, 6, 7, 8, 9, 10, 11, 12]);
    assert_eq!(frame.linesize, [4, 2, 2]);
    assert_eq!(frame.data.len(), 4 * 2 + 2 * (4 / 2) * (2 / 2));
}

#[test]
fn test_packing_needs_no_padding_behind_the_last_row() {
    let y = [1, 2, 0, 3, 4];
    let u = [5];
    let v = [6];
    let frame = pack_planes(
        2,
        2,
        None,
        &Plane { data: &y, stride: 3 },
        &Plane { data: &u, stride: 1 },
        &Plane { data: &v, stride: 1 },
    )
    .unwrap();
    assert_eq!(frame.data, vec![1, 2, 3, 4, 5, 6]);
    assert_eq!(frame.pts, None);
}

#[test]
fn test_packing_refuses_planes_that_are_too_small() {
    let y = [1, 2, 0, 3];
    let u = [5];
    let v = [6];
    let none: [u8; 0] = [];
    assert!(pack_planes(
        2,
        2,
        None,
        &Plane { data: &y, stride: 3 },
        &Plane { data: &u, stride: 1 },
        &Plane { data: &v, stride: 1 },
    )
    .is_none());
    let y = [1, 2, 3, 4];
    assert!(pack_planes(
        2,
        2,
        None,
        &Plane { data: &y, stride: 2 },
        &Plane { data: &none, stride: 1 },
        &Plane { data: &v, stride: 1 },
    )
    .is_none());
    assert!(pack_planes(
        2,
        2,
        None,
        &Plane { data: &y, stride: 2 },
        &Plane { data: &u, stride: 1 },
        &Plane { data: &none, stride: 1 },
    )
    .is_none());
    // a stride so large that the last row would start beyond any address
    assert!(pack_planes(
        2,
        2,
        None,
        &Plane { data: &y, stride: usize::MAX },
        &Plane { data: &u, stride: 1 },
        &Plane { data: &v, stride: 1 },
    )
    .is_none());
}

#[test]
fn test_packing_an_empty_picture() {
    let none: [u8; 0] = [];
    let frame = pack_planes(
        0,
        0,
        None,
        &Plane { data: &none, stride: 0 },
        &Plane { data: &none, stride: 0 },
        &Plane { data: &none, stride: 0 },
    )
    .unwrap();
    assert!(frame.data.is_empty());
    assert_eq!(frame.linesize, [0, 0, 0]);
}

#[test]
fn test_plane_row_check() {
    let bytes = [0u8; 10];
    let plane = Plane { data: &bytes, stride: 4 };
    assert!(plane.has_rows(2, 3)); // 2 * 4 + 2 = 10
    assert!(!plane.has_rows(3, 3)); // 2 * 4 + 3 = 11
    assert!(plane.has_rows(10, 1));
    assert!(!plane.has_rows(11, 1));
    assert!(plane.has_rows(11, 0));
}

use background_fission::raster::Raster;

#[test]
fn from_raw_accepts_exact_buffers_only() {
    assert!(Raster::from_raw(2, 1, vec![1, 2, 3, 4, 5, 6, 7, 8]).is_some());
    assert!(Raster::from_raw(2, 1, vec![1, 2, 3, 4, 5, 6, 7]).is_none());
    assert!(Raster::from_raw(2, 1, vec![0; 9]).is_none());
    assert!(Raster::from_raw(0, 1, vec![]).is_none());
    assert!(Raster::from_raw(1, 0, vec![]).is_none());
}

#[test]
fn get_reads_row_major_rgba() {
    let data: Vec<u8> = (0..24).collect();
    let r = Raster::from_raw(3, 2, data).unwrap();
    assert_eq!(r.width(), 3);
    assert_eq!(r.height(), 2);
    assert_eq!(r.get(0, 0, 0), Some(0));
    assert_eq!(r.get(2, 0, 3), Some(11));
    assert_eq!(r.get(1, 1, 2), Some(4 * (3 + 1) + 2));
    assert_eq!(r.get(3, 0, 0), None);
    assert_eq!(r.get(0, 2, 0), None);
    assert_eq!(r.get(0, 0, 4), None);
}

#[test]
fn filled_repeats_the_colour() {
    let r = Raster::filled(2, 2, 9, 8, 7, 6);
    assert_eq!(r.as_bytes(), &vec![9, 8, 7, 6, 9, 8, 7, 6, 9, 8, 7, 6, 9, 8, 7, 6]);
}

#[test]
fn blit_replaces_exactly_the_covered_pixels() {
    let mut canvas = Raster::filled(3, 2, 0, 0, 0, 0);
    let top = Raster::from_raw(2, 1, vec![1, 2, 3, 4, 5, 6, 7, 8]).unwrap();
    canvas.blit(&top, 1, 1);
    assert_eq!(
        canvas.as_bytes(),
        &vec![0, 0, 0, 0, 0, 0, 0, 0, 0, 0, 0, 0, 0, 0, 0, 0, 1, 2, 3, 4, 5, 6, 7, 8]
    );
}

#[test]
fn blit_clips_at_the_edges() {
    let mut canvas = Raster::filled(2, 2, 0, 0, 0, 0);
    let top = Raster::from_raw(2, 2, (1..=16).collect()).unwrap();
    canvas.blit(&top, 1, 1);
    assert_eq!(canvas.as_bytes(), &vec![0, 0, 0, 0, 0, 0, 0, 0, 0, 0, 0, 0, 1, 2, 3, 4]);
}

#[test]
fn blit_outside_changes_nothing() {
    let mut canvas = Raster::filled(2, 2, 5, 5, 5, 5);
    let before = canvas.clone();
    let top = Raster::filled(2, 2, 1, 1, 1, 1);
    canvas.blit(&top, 2, 0);
    assert_eq!(canvas, before);
    canvas.blit(&top, 0, 2);
    assert_eq!(canvas, before);
    canvas.blit(&top, u32::MAX, u32::MAX);
    assert_eq!(canvas, before);
}

#[test]
fn scale_to_gives_the_wanted_size() {
    let src = Raster::from_raw(2, 2, vec![255, 0, 0, 255, 0, 255, 0, 255, 0, 0, 255, 255, 9, 9, 9, 255])
        .unwrap();
    let out = src.scale_to(5, 3);
    assert_eq!((out.width(), out.height()), (5, 3));
    assert_eq!(out.as_bytes().len(), 60);
    let same = src.scale_to(2, 2);
    assert_eq!(same, src);
    let uniform = Raster::filled(3, 3, 40, 50, 60, 255).scale_to(6, 2);
    assert_eq!(uniform, Raster::filled(6, 2, 40, 50, 60, 255));
}

#[test]
fn encode_writes_a_png_of_the_pixels() {
    let src = Raster::from_raw(2, 2, vec![255, 0, 0, 255, 0, 255, 0, 128, 0, 0, 255, 0, 9, 8, 7, 6])
        .unwrap();
    let bytes = src.encode().unwrap();
    assert_eq!(&bytes[..8], &[0x89, b'P', b'N', b'G', 0x0d, 0x0a, 0x1a, 0x0a]);
    let back = image::load_from_memory(&bytes).unwrap().into_rgba8();
    assert_eq!(back.dimensions(), (2, 2));
    assert_eq!(&back.into_raw(), src.as_bytes());
    assert_eq!(src.encode().unwrap(), bytes);
}

fn numbered(width: u32, height: u32, first: u8) -> Raster {
    let data: Vec<u8> = (0..4 * width * height).map(|k| first.wrapping_add(k as u8)).collect();
    Raster::from_raw(width, height, data).unwrap()
}

#[test]
fn blit_agrees_with_the_image_crate() {
    for (ox, oy) in [(0u32, 0u32), (1, 2), (3, 1), (4, 0), (0, 3), (5, 5), (2, 2)] {
        let mut canvas = numbered(5, 4, 100);
        let top = numbered(3, 2, 7);
        let mut expected =
            image::RgbaImage::from_raw(5, 4, canvas.as_bytes().clone()).unwrap();
        let over = image::RgbaImage::from_raw(3, 2, top.as_bytes().clone()).unwrap();
        image::imageops::replace(&mut expected, &over, ox as i64, oy as i64);
        canvas.blit(&top, ox, oy);
        assert_eq!(canvas.as_bytes(), &expected.into_raw());
    }
}

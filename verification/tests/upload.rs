use photo_album::components::upload::{
    album_path, bounds_binds, date_string, error_detail, extract_ext, face_crop, find_char,
    find_padding, first_failure, media_bytes, media_text, people_from_faces, upload_status,
    upload_tag, Bbox, Person,
};

#[test]
fn padding_kept_far_from_edges() {
    assert_eq!(find_padding(30, 30, 25), 25);
    assert_eq!(find_padding(25, 100, 25), 25);
}

#[test]
fn padding_shrinks_near_left_edge() {
    assert_eq!(find_padding(10, 30, 25), 10);
    assert_eq!(find_padding(0, 30, 25), 0);
}

#[test]
fn padding_shrinks_near_top_edge() {
    assert_eq!(find_padding(30, 5, 25), 5);
    assert_eq!(find_padding(3, 5, 25), 3);
    assert_eq!(find_padding(7, 7, 25), 7);
}

#[test]
fn padding_is_never_more_than_a_distance() {
    for x in 0..40 {
        for y in 0..40 {
            let p = find_padding(x, y, 25);
            assert!(p <= 25 && p <= x && p <= y);
            assert!(p == 25 || p == x || p == y);
        }
    }
}

#[test]
fn face_crop_adds_margin() {
    assert_eq!(face_crop(Bbox { x: 100, y: 80, w: 50, h: 60 }), (75, 55, 100, 110));
    assert_eq!(face_crop(Bbox { x: 10, y: 30, w: 50, h: 60 }), (0, 20, 70, 80));
    assert_eq!(face_crop(Bbox { x: 0, y: 0, w: 5, h: 5 }), (0, 0, 5, 5));
}

#[test]
fn bbox_rect_converts_corner() {
    assert_eq!(Bbox::rect(3, 4, 5, 6), Bbox { x: 3, y: 4, w: 5, h: 6 });
    assert_eq!(Bbox::rect(-1, 0, 1, 1).x, u32::MAX);
}

#[test]
fn extension_is_after_last_dot() {
    assert_eq!(extract_ext("photo.final.JPG".to_string()), Some("JPG".to_string()));
    assert_eq!(extract_ext("a.png".to_string()), Some("png".to_string()));
    assert_eq!(extract_ext("a.".to_string()), Some("".to_string()));
    assert_eq!(extract_ext("noext".to_string()), None);
    assert_eq!(extract_ext("".to_string()), None);
}

#[test]
fn extension_rebuilds_file_name() {
    let name = "my.holiday.webp";
    let ext = extract_ext(name.to_string()).unwrap();
    let stem = &name[..name.len() - ext.len() - 1];
    assert_eq!(format!("{}.{}", stem, ext), name);
    assert!(!ext.contains('.'));
}

#[test]
fn album_path_joins_id_and_extension() {
    assert_eq!(album_path("abc-123", "png"), "./album/abc-123.png");
}

#[test]
fn people_from_faces_numbers_faces() {
    let faces = vec![Bbox { x: 1, y: 2, w: 3, h: 4 }, Bbox { x: 5, y: 6, w: 7, h: 8 }];
    let people = people_from_faces(&faces);
    assert_eq!(people.len(), 2);
    assert_eq!(people[0].id, 0);
    assert_eq!(people[1].id, 1);
    assert_eq!(people[0].name, "");
    assert_eq!(people[1].bounds, Some(faces[1]));
    assert!(people_from_faces(&vec![]).is_empty());
}

#[test]
fn bounds_binds_lists_coordinates_or_nulls() {
    assert_eq!(
        bounds_binds(Some(Bbox { x: 1, y: 2, w: 3, h: 4 })),
        vec![Some(1), Some(2), Some(3), Some(4)]
    );
    assert_eq!(bounds_binds(None), vec![None, None, None, None]);
}

#[test]
fn upload_tag_replaces_spaces() {
    assert_eq!(upload_tag(""), None);
    assert_eq!(upload_tag("beach"), Some("beach".to_string()));
    assert_eq!(upload_tag("my tag  x"), Some("my-tag--x".to_string()));
    assert_eq!(upload_tag(" "), Some("-".to_string()));
    let stored = upload_tag("summer holiday in spain").unwrap();
    assert!(!stored.contains(' '));
    assert_eq!(stored.chars().count(), "summer holiday in spain".chars().count());
}

#[test]
fn date_string_pads_month_and_day() {
    assert_eq!(date_string(2023, 5, 7), "2023-05-07");
    assert_eq!(date_string(2023, 12, 31), "2023-12-31");
    assert_eq!(date_string(999, 10, 1), "999-10-01");
    assert_eq!(date_string(2023, 0, 0), "2023-00-00");
}

#[test]
fn upload_status_reports_progress() {
    assert_eq!(upload_status(0, 0, 0), "");
    assert_eq!(upload_status(3, 0, 2), "2 / 3 files ready to be uploaded");
    assert_eq!(upload_status(3, 1, 3), "1 / 3 files uploaded");
    assert_eq!(upload_status(3, 3, 3), "The files have been successfully uploaded");
}

#[test]
fn error_detail_takes_second_field() {
    assert_eq!(error_detail("error running server function: Not allowed: x"), " Not allowed");
    assert_eq!(error_detail("a:b"), "b");
    assert_eq!(error_detail("a:"), "");
    assert_eq!(error_detail(":x:y:z"), "x");
}

#[test]
fn find_char_finds_first_from_start() {
    assert_eq!(find_char("a;b;c", ';', 0), 1);
    assert_eq!(find_char("a;b;c", ';', 2), 3);
    assert_eq!(find_char("a;b;c", ';', 4), 5);
    assert_eq!(find_char("", ';', 0), 0);
}

#[test]
fn first_failure_reports_earliest_error() {
    let r: Result<(), &str> = first_failure(vec![Ok(()), Err("a"), Err("b")]);
    assert_eq!(r, Err("a"));
    let ok: Result<(), &str> = first_failure(vec![Ok(()), Ok(())]);
    assert_eq!(ok, Ok(()));
    let none: Result<(), &str> = first_failure(vec![]);
    assert_eq!(none, Ok(()));
}

#[test]
fn media_round_trips_through_base64() {
    assert_eq!(media_text(b"hello"), "aGVsbG8=");
    assert_eq!(media_bytes("aGVsbG8="), Some(b"hello".to_vec()));
    let bytes: Vec<u8> = (0..=255).collect();
    assert_eq!(media_bytes(&media_text(&bytes)), Some(bytes));
}

#[test]
fn media_bytes_refuses_invalid_text() {
    assert_eq!(media_bytes("!!!!"), None);
    assert_eq!(media_bytes("aGVsbG8"), None);
    assert_eq!(media_bytes(""), Some(vec![]));
}

#[test]
fn person_duplicate_is_equal() {
    let p = Person { bounds: Some(Bbox { x: 1, y: 1, w: 2, h: 2 }), name: "Ann".to_string(), id: 4 };
    let q = p.duplicate();
    assert_eq!(q.name, "Ann");
    assert_eq!(q.id, 4);
    assert_eq!(q.bounds, p.bounds);
}

#[test]
fn random_created_date_is_in_range() {
    for _ in 0..50 {
        let d = photo_album::components::upload::random_created_date();
        assert_eq!(d.len(), 10, "{}", d);
        let y: u32 = d[0..4].parse().unwrap();
        let m: u32 = d[5..7].parse().unwrap();
        let day: u32 = d[8..10].parse().unwrap();
        assert!((2010..2023).contains(&y));
        assert!((1..13).contains(&m));
        assert!((1..29).contains(&day));
        assert_eq!(date_string(y, m, day), d);
    }
}

#[test]
fn upload_location_uses_fresh_uuid() {
    let (id, path) = photo_album::components::upload::new_upload_location("png");
    assert_eq!(id.len(), 36);
    assert_eq!(path, format!("./album/{}.png", id));
    for (i, c) in id.chars().enumerate() {
        if [8, 13, 18, 23].contains(&i) {
            assert_eq!(c, '-');
        } else {
            assert!(c.is_ascii_hexdigit() && !c.is_ascii_uppercase());
        }
    }
    let (other, _) = photo_album::components::upload::new_upload_location("png");
    assert_ne!(id, other);
}

#[test]
fn upload_batch_needs_files() {
    assert_eq!(photo_album::components::upload::upload_batch_outcome(vec![]), Err("No files to upload".to_string()));
    assert_eq!(photo_album::components::upload::upload_batch_outcome(vec![Ok(()), Err("x".to_string())]), Err("x".to_string()));
    assert_eq!(photo_album::components::upload::upload_batch_outcome(vec![Ok(())]), Ok(()));
}

#[test]
fn upload_stores_bytes_unchanged() {
    let original: Vec<u8> = b"\x89PNG\r\n\x1a\n some image bytes".to_vec();
    let sent = media_text(&original);
    assert_eq!(media_bytes(&sent), Some(original));
}

fn png_bytes(width: u32, height: u32) -> Vec<u8> {
    let img = image::RgbImage::from_fn(width, height, |x, y| image::Rgb([(x % 256) as u8, (y % 256) as u8, 7]));
    let mut buf = Vec::new();
    image::DynamicImage::ImageRgb8(img)
        .write_to(&mut std::io::Cursor::new(&mut buf), image::ImageFormat::Png)
        .unwrap();
    buf
}

#[test]
fn face_picture_is_cut_with_margin() {
    let file = png_bytes(100, 80);
    let webp = photo_album::components::upload::face_webp(&file, Bbox { x: 10, y: 30, w: 20, h: 20 }).unwrap();
    let cut = image::load_from_memory(&webp).unwrap();
    assert_eq!((cut.width(), cut.height()), (40, 40));
    let cut = cut.to_rgb8();
    assert_eq!(cut.get_pixel(0, 0), &image::Rgb([0, 20, 7]));
}

#[test]
fn whole_picture_without_box() {
    let file = png_bytes(30, 20);
    let text = photo_album::components::upload::img_from_bounds(&file, None).unwrap();
    let webp = media_bytes(&text).unwrap();
    let pic = image::load_from_memory(&webp).unwrap();
    assert_eq!((pic.width(), pic.height()), (30, 20));
    let face = photo_album::components::upload::img_from_bounds(&file, Some(Bbox { x: 5, y: 5, w: 4, h: 4 })).unwrap();
    let pic = image::load_from_memory(&media_bytes(&face).unwrap()).unwrap();
    assert_eq!((pic.width(), pic.height()), (14, 14));
}

#[test]
fn gray_pixels_for_detector() {
    let file = png_bytes(12, 9);
    let g = photo_album::components::upload::gray_image(&file).unwrap();
    assert_eq!((g.width, g.height), (12, 9));
    assert_eq!(g.pixels.len(), 108);
}

#[test]
fn undecodable_image_gives_nothing() {
    let junk = b"not an image".to_vec();
    assert!(photo_album::components::upload::gray_image(&junk).is_none());
    assert!(photo_album::components::upload::whole_webp(&junk).is_none());
    assert!(photo_album::components::upload::img_from_bounds(&junk, None).is_none());
    assert!(photo_album::components::upload::face_webp(&junk, Bbox { x: 30, y: 30, w: 5, h: 5 }).is_none());
}

#[test]
fn unnamed_people_are_skipped() {
    let p = |id: i64, name: &str| Person { bounds: None, name: name.to_string(), id };
    let kept = photo_album::components::upload::named_people(vec![p(1, "a"), p(2, ""), p(3, "c")]);
    let ids: Vec<i64> = kept.iter().map(|x| x.id).collect();
    assert_eq!(ids, vec![1, 3]);
    let changes = photo_album::components::upload::named_changes(vec![(5, p(5, "")), (6, p(6, "x"))]);
    assert_eq!(changes.len(), 1);
    assert_eq!(changes[0].0, 6);
    assert_eq!(changes[0].1.name, "x");
}

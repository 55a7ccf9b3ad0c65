use photo_album::components::feed::{
    feed_query, group_by_date, heading_label, next_page_index, page_past_end, parse_i32_decimal,
    Element, ImageDb, FETCH_IMAGE_COUNT,
};

fn image(id: &str, created: &str) -> ImageDb {
    ImageDb {
        id: id.to_string(),
        path: format!("{}.jpg", id),
        upload_date: "2024-01-01".to_string(),
        created_date: created.to_string(),
    }
}

fn describe(entries: &[Element]) -> Vec<String> {
    entries
        .iter()
        .map(|e| match e {
            Element::String(s) => format!("heading {}", s),
            Element::ImageDb(i) => format!("image {}", i.id),
        })
        .collect()
}

fn sample() -> Vec<ImageDb> {
    vec![
        image("a", "2023-06-10 12:00:00"),
        image("b", "2023-06-01"),
        image("c", "2023-05-20"),
        image("d", "2022-12-31"),
        image("e", "2022-11-30"),
    ]
}

#[test]
fn feed_groups_by_year_and_month() {
    let r = group_by_date(None, sample());
    assert_eq!(
        describe(&r),
        vec![
            "heading 2023", "heading 06", "image a", "image b", "heading 05", "image c",
            "heading 2022", "heading 12", "image d", "heading 11", "image e",
        ]
    );
}

#[test]
fn feed_continues_from_previous_date() {
    let r = group_by_date(Some("2023-06-15".to_string()), sample());
    assert_eq!(
        describe(&r),
        vec![
            "image a", "image b", "heading 05", "image c", "heading 2022", "heading 12", "image d",
            "heading 11", "image e",
        ]
    );
}

#[test]
fn feed_month_change_in_other_year_repeats_year() {
    let r = group_by_date(Some("2021-06-15".to_string()), vec![image("x", "2023-06-01")]);
    assert_eq!(describe(&r), vec!["heading 2023", "heading 06", "image x"]);
}

#[test]
fn feed_empty_page_has_no_entries() {
    let r = group_by_date(Some("2021-06-15".to_string()), vec![]);
    assert!(r.is_empty());
}

#[test]
fn feed_pages_join_as_one_fetch() {
    let all = describe(&group_by_date(None, sample()));
    let mut first = sample();
    let second = first.split_off(2);
    let last_date = first[1].created_date.clone();
    let mut paged = describe(&group_by_date(None, first));
    paged.extend(describe(&group_by_date(Some(last_date), second)));
    assert_eq!(paged, all);
}

#[test]
fn feed_keeps_every_image_in_order() {
    let r = group_by_date(None, sample());
    let ids: Vec<String> = r
        .iter()
        .filter_map(|e| match e {
            Element::ImageDb(i) => Some(i.id.clone()),
            _ => None,
        })
        .collect();
    assert_eq!(ids, vec!["a", "b", "c", "d", "e"]);
}

#[test]
fn heading_label_names_months() {
    assert_eq!(heading_label("01"), "January");
    assert_eq!(heading_label("05"), "May");
    assert_eq!(heading_label("12"), "December");
    assert_eq!(heading_label("2023"), "2023");
    assert_eq!(heading_label("13"), "13");
    assert_eq!(heading_label("00"), "00");
}

#[test]
fn parse_i32_decimal_accepts_what_parse_accepts() {
    assert_eq!(parse_i32_decimal("42"), Some(42));
    assert_eq!(parse_i32_decimal("+12"), Some(12));
    assert_eq!(parse_i32_decimal("-7"), Some(-7));
    assert_eq!(parse_i32_decimal("007"), Some(7));
    assert_eq!(parse_i32_decimal("2147483647"), Some(i32::MAX));
    assert_eq!(parse_i32_decimal("-2147483648"), Some(i32::MIN));
}

#[test]
fn parse_i32_decimal_refuses_what_parse_refuses() {
    for s in ["", "+", "-", "1a", " 1", "2147483648", "-2147483649", "99999999999999999999", "1.0"] {
        assert_eq!(parse_i32_decimal(s), None, "{}", s);
        assert!(s.parse::<i32>().is_err());
    }
}

#[test]
fn page_past_end_compares_index_with_count() {
    assert!(page_past_end(11, 10));
    assert!(!page_past_end(10, 10));
    assert!(!page_past_end(0, 0));
    assert!(page_past_end(0, -1));
}

#[test]
fn next_page_index_advances_by_fetch_count() {
    assert_eq!(FETCH_IMAGE_COUNT, 10);
    assert_eq!(next_page_index(0), 10);
    assert_eq!(next_page_index(20), 30);
}

#[test]
fn feed_query_without_filters() {
    let (q, binds) = feed_query(None, None, 10, 0);
    assert_eq!(
        q,
        "SELECT DISTINCT f.id, f.path, f.uploadDate AS upload_date, f.createdDate AS created_date FROM files f ORDER BY f.createdDate DESC LIMIT 10 OFFSET 0;"
    );
    assert_eq!(binds, vec!["10".to_string(), "0".to_string()]);
}

#[test]
fn feed_query_with_tag_filter() {
    let (q, binds) = feed_query(
        Some(("NOT".to_string(), vec!["Beach".to_string()])),
        None,
        5,
        20,
    );
    assert_eq!(
        q,
        "SELECT DISTINCT f.id, f.path, f.uploadDate AS upload_date, f.createdDate AS created_date FROM files f LEFT JOIN tagFile tf ON f.id = tf.fileID LEFT JOIN tags t ON tf.tagString = t.tagString WHERE f.id NOT IN (SELECT tf.fileID FROM tagFile tf WHERE tf.tagString IN (?)) ORDER BY f.createdDate DESC LIMIT 5 OFFSET 20;"
    );
    assert_eq!(binds, vec!["beach".to_string(), "5".to_string(), "20".to_string()]);
}

#[test]
fn image_data_replaces_path_with_base64() {
    let img = image("a", "2023-01-01").with_image_data(&[1, 2, 3]);
    assert_eq!(img.path, "AQID");
    assert_eq!(img.id, "a");
    assert_eq!(img.created_date, "2023-01-01");
    let empty = image("b", "2023-01-01").with_image_data(&[]);
    assert_eq!(empty.path, "");
    let two = image("c", "2023-01-01").with_image_data(b"hi");
    assert_eq!(two.path, "aGk=");
}

#[test]
fn feed_page_encodes_and_groups() {
    let files = vec![image("a", "2023-06-10"), image("b", "2022-01-02")];
    let data = vec![vec![1u8, 2, 3], b"hi".to_vec()];
    let r = photo_album::components::feed::feed_page(None, files, data);
    assert_eq!(describe(&r), vec!["heading 2023", "heading 06", "image a", "heading 2022", "heading 01", "image b"]);
    let paths: Vec<String> = r
        .iter()
        .filter_map(|e| match e {
            Element::ImageDb(i) => Some(i.path.clone()),
            _ => None,
        })
        .collect();
    assert_eq!(paths, vec!["AQID".to_string(), "aGk=".to_string()]);
}

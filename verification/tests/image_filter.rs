use photo_album::image_filter::{
    build_filtered_query, prepare_filtered_query, prepare_filtered_query_with_pagination,
};

fn s(v: &str) -> String {
    v.to_string()
}

#[test]
fn build_query_with_everything() {
    let q = build_filtered_query(
        s("SELECT * FROM files f"),
        vec![s("a = 1"), s("b = 2")],
        vec![s("JOIN x"), s("JOIN y")],
        Some(s("f.id")),
        Some(10),
        Some(20),
    );
    assert_eq!(q, "SELECT * FROM files f JOIN x JOIN y WHERE a = 1 AND b = 2 ORDER BY f.id LIMIT 10 OFFSET 20;");
}

#[test]
fn build_query_with_nothing_added() {
    let q = build_filtered_query(s("SELECT 1"), vec![], vec![], None, None, None);
    assert_eq!(q, "SELECT 1;");
}

#[test]
fn build_query_zero_limit() {
    let q = build_filtered_query(s("Q"), vec![s("c")], vec![], None, Some(0), None);
    assert_eq!(q, "Q WHERE c LIMIT 0;");
}

#[test]
fn tag_filter_has_normalizes_and_drops_invalid() {
    let (c, j, b) = prepare_filtered_query(
        Some((s("HAS"), vec![s("  Beach "), s("bad tag!"), s(""), s("Sun_set-2")])),
        None,
    );
    assert_eq!(c, vec![s("t.tagString IN (?,?)")]);
    assert_eq!(j, vec![s("LEFT JOIN tagFile tf ON f.id = tf.fileID LEFT JOIN tags t ON tf.tagString = t.tagString")]);
    assert_eq!(b, vec![s("beach"), s("sun_set-2")]);
}

#[test]
fn tag_filter_not() {
    let (c, _j, b) = prepare_filtered_query(Some((s("NOT"), vec![s("a")])), None);
    assert_eq!(c, vec![s("f.id NOT IN (SELECT tf.fileID FROM tagFile tf WHERE tf.tagString IN (?))")]);
    assert_eq!(b, vec![s("a")]);
}

#[test]
fn tag_filter_only_binds_twice() {
    let (c, _j, b) = prepare_filtered_query(Some((s("ONLY"), vec![s("a"), s("B")])), None);
    assert_eq!(c, vec![s("(SELECT COUNT(DISTINCT tf.tagString) FROM tagFile tf WHERE tf.fileID = f.id) = 2 AND NOT EXISTS (SELECT 1 FROM tagFile tf WHERE tf.fileID = f.id AND tf.tagString NOT IN (?,?))")]);
    assert_eq!(b, vec![s("a"), s("b"), s("a"), s("b")]);
}

#[test]
fn tag_filter_unknown_kind_only_joins() {
    let (c, j, b) = prepare_filtered_query(Some((s("MAYBE"), vec![s("a")])), None);
    assert!(c.is_empty());
    assert_eq!(j.len(), 1);
    assert!(b.is_empty());
}

#[test]
fn tag_filter_without_usable_tags_adds_nothing() {
    let (c, j, b) = prepare_filtered_query(Some((s("HAS"), vec![s("   "), s("?")])), None);
    assert!(c.is_empty() && j.is_empty() && b.is_empty());
}

#[test]
fn tag_filter_unicode_whitespace_and_case() {
    let (_c, _j, b) = prepare_filtered_query(Some((s("HAS"), vec![s("\u{3000}ÉTÉ\u{a0}")])), None);
    assert_eq!(b, vec![s("été")]);
}

#[test]
fn people_filter_has_lists_ids() {
    let (c, j, b) = prepare_filtered_query(None, Some((s("HAS"), vec![3, -1, 0, 12])));
    assert_eq!(c, vec![s("uf.userID IN (3,12)")]);
    assert_eq!(j, vec![s("LEFT JOIN userFile uf ON f.id = uf.fileID")]);
    assert_eq!(b, vec![s("3"), s("12")]);
}

#[test]
fn people_filter_not_and_only() {
    let (c, _j, b) = prepare_filtered_query(None, Some((s("NOT"), vec![7])));
    assert_eq!(c, vec![s("f.id NOT IN (SELECT uf.fileID FROM userFile uf WHERE uf.userID IN (?))")]);
    assert_eq!(b, vec![s("7")]);
    let (c, _j, b) = prepare_filtered_query(None, Some((s("ONLY"), vec![7, 8])));
    assert_eq!(c, vec![s("(SELECT COUNT(DISTINCT uf.userID) FROM userFile uf WHERE uf.fileID = f.id) = 2 AND NOT EXISTS (SELECT 1 FROM userFile uf WHERE uf.fileID = f.id AND uf.userID NOT IN (?,?))")]);
    assert_eq!(b, vec![s("7"), s("8"), s("7"), s("8")]);
}

#[test]
fn both_filters_tags_first() {
    let (c, j, b) = prepare_filtered_query(Some((s("HAS"), vec![s("x")])), Some((s("NOT"), vec![5])));
    assert_eq!(c.len(), 2);
    assert_eq!(j.len(), 2);
    assert_eq!(b, vec![s("x"), s("5")]);
    assert!(c[0].starts_with("t.tagString"));
}

#[test]
fn pagination_appends_limit_and_offset() {
    let (c, j, b) = prepare_filtered_query_with_pagination(None, None, 10, 30);
    assert!(c.is_empty() && j.is_empty());
    assert_eq!(b, vec![s("10"), s("30")]);
}

fn count_marks(conditions: &[String]) -> usize {
    conditions.iter().map(|c| c.matches('?').count()).sum()
}

#[test]
fn binds_fill_placeholders_in_order() {
    let (c, _, b) = prepare_filtered_query(
        Some((s("NOT"), vec![s("Sea"), s("bad tag"), s("sun")])),
        Some((s("ONLY"), vec![4, -1, 9])),
    );
    let k = count_marks(&c);
    assert_eq!(k, 4);
    assert_eq!(b[..k].to_vec(), vec![s("sea"), s("sun"), s("4"), s("9")]);
}

#[test]
fn only_tag_filter_binds_unused_copy() {
    let (c, _, b) = prepare_filtered_query(Some((s("ONLY"), vec![s("a"), s("b")])), None);
    assert_eq!(count_marks(&c), 2);
    assert_eq!(b, vec![s("a"), s("b"), s("a"), s("b")]);
}

#[test]
fn people_has_writes_ids_into_condition() {
    let (c, _, b) = prepare_filtered_query(None, Some((s("HAS"), vec![3, 0, 12])));
    assert_eq!(count_marks(&c), 0);
    assert_eq!(b, vec![s("3"), s("12")]);
}

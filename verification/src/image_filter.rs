use vstd::prelude::*;
use vstd::string::*;
use crate::text::{
    digit_char, char_alphabetic, char_numeric, decimal, is_alphabetic, is_numeric, join, join_strings,
    lowercase_of, str_eq, to_lowercase, trim, trimmed, u64_to_decimal, usize_to_decimal,
};

verus! {

/// The view of an optional string.
pub open spec fn opt_view(s: Option<String>) -> Option<Seq<char>> {
    match s {
        Some(v) => Some(v@),
        None => None,
    }
}

/// The join clauses, separated by spaces and led by one, or nothing.
pub open spec fn joins_clause(joins: Seq<Seq<char>>) -> Seq<char> {
    if joins.len() > 0 { " "@ + join(joins, " "@) } else { Seq::empty() }
}

/// The conditions joined by `AND` after `WHERE`, or nothing.
pub open spec fn where_clause(conditions: Seq<Seq<char>>) -> Seq<char> {
    if conditions.len() > 0 { " WHERE "@ + join(conditions, " AND "@) } else { Seq::empty() }
}

/// The ordering clause, or nothing.
pub open spec fn order_clause(order_by: Option<Seq<char>>) -> Seq<char> {
    match order_by {
        Some(o) => " ORDER BY "@ + o,
        None => Seq::empty(),
    }
}

/// The limit clause, or nothing.
pub open spec fn limit_clause(limit: Option<usize>) -> Seq<char> {
    match limit {
        Some(l) => " LIMIT "@ + decimal(l as nat),
        None => Seq::empty(),
    }
}

/// The offset clause, or nothing.
pub open spec fn offset_clause(offset: Option<usize>) -> Seq<char> {
    match offset {
        Some(o) => " OFFSET "@ + decimal(o as nat),
        None => Seq::empty(),
    }
}

/// The SQL text that `build_filtered_query` produces: the base query, then the
/// joins separated by spaces, the conditions joined by `AND` after `WHERE`, the
/// ordering, the limit and the offset, each only where given, and a closing `;`.
pub open spec fn filtered_query(
    base: Seq<char>,
    conditions: Seq<Seq<char>>,
    joins: Seq<Seq<char>>,
    order_by: Option<Seq<char>>,
    limit: Option<usize>,
    offset: Option<usize>,
) -> Seq<char> {
    base + joins_clause(joins) + where_clause(conditions) + order_clause(order_by)
        + limit_clause(limit) + offset_clause(offset) + ";"@
}

/// Assembles a query from a base `SELECT`, join clauses, `WHERE` conditions
/// and optional ordering and pagination.
pub fn build_filtered_query(
    base_query: String,
    conditions: Vec<String>,
    joins: Vec<String>,
    order_by: Option<String>,
    limit: Option<usize>,
    offset: Option<usize>,
) -> (query: String)
    ensures
        query@ == filtered_query(
            base_query@,
            conditions.deep_view(),
            joins.deep_view(),
            opt_view(order_by),
            limit,
            offset,
        ),
{
    let mut query = base_query;

    let mut part = String::new();
    if joins.len() > 0 {
        part.append(" ");
        let j = join_strings(&joins, " ");
        part.append(j.as_str());
    } else {
        assert(part@ =~= Seq::<char>::empty());
    }
    assert(part@ == joins_clause(joins.deep_view()));
    query.append(part.as_str());

    let mut part = String::new();
    if conditions.len() > 0 {
        part.append(" WHERE ");
        let c = join_strings(&conditions, " AND ");
        part.append(c.as_str());
    } else {
        assert(part@ =~= Seq::<char>::empty());
    }
    assert(part@ == where_clause(conditions.deep_view()));
    query.append(part.as_str());

    let mut part = String::new();
    match order_by {
        Some(order) => {
            part.append(" ORDER BY ");
            part.append(order.as_str());
        },
        None => {
            assert(part@ =~= Seq::<char>::empty());
        },
    }
    query.append(part.as_str());

    let mut part = String::new();
    match limit {
        Some(l) => {
            part.append(" LIMIT ");
            let d = usize_to_decimal(l);
            part.append(d.as_str());
        },
        None => {
            assert(part@ =~= Seq::<char>::empty());
        },
    }
    query.append(part.as_str());

    let mut part = String::new();
    match offset {
        Some(o) => {
            part.append(" OFFSET ");
            let d = usize_to_decimal(o);
            part.append(d.as_str());
        },
        None => {
            assert(part@ =~= Seq::<char>::empty());
        },
    }
    query.append(part.as_str());

    query.append(";");
    query
}

/// A character that a tag may hold: a letter, a digit, `-` or `_`.
pub open spec fn tag_char_allowed(c: char) -> bool {
    char_alphabetic(c) || char_numeric(c) || c == '-' || c == '_'
}

/// A tag as the filter compares it: trimmed and lower-cased.
pub open spec fn normalized_tag(tag: Seq<char>) -> Seq<char> {
    lowercase_of(trimmed(tag))
}

/// Whether a normalized tag may be used in a filter: not empty, and made of
/// allowed characters only.
pub open spec fn usable_tag(t: Seq<char>) -> bool {
    t.len() > 0 && forall|i: int| 0 <= i < t.len() ==> tag_char_allowed(#[trigger] t[i])
}

/// The normalized forms of the usable tags, in their original order.
pub open spec fn valid_tags(tags: Seq<Seq<char>>) -> Seq<Seq<char>>
    decreases tags.len(),
{
    if tags.len() == 0 {
        Seq::empty()
    } else {
        let rest = valid_tags(tags.drop_last());
        if usable_tag(normalized_tag(tags.last())) {
            rest.push(normalized_tag(tags.last()))
        } else {
            rest
        }
    }
}

/// The positive user ids, in their original order.
pub open spec fn valid_ids(ids: Seq<i64>) -> Seq<i64>
    decreases ids.len(),
{
    if ids.len() == 0 {
        Seq::empty()
    } else {
        let rest = valid_ids(ids.drop_last());
        if ids.last() > 0 {
            rest.push(ids.last())
        } else {
            rest
        }
    }
}

/// The decimal text of each id.
pub open spec fn ids_text(ids: Seq<i64>) -> Seq<Seq<char>> {
    ids.map_values(|id: i64| decimal(id as nat))
}

/// `n` bind placeholders separated by commas: `?,?,...,?`.
pub open spec fn placeholders(n: nat) -> Seq<char> {
    join(Seq::new(n, |i: int| "?"@), ","@)
}

/// The clause that joins the tag tables to the files.
pub open spec fn tag_join() -> Seq<char> {
    "LEFT JOIN tagFile tf ON f.id = tf.fileID LEFT JOIN tags t ON tf.tagString = t.tagString"@
}

/// The clause that joins the user table to the files.
pub open spec fn people_join() -> Seq<char> {
    "LEFT JOIN userFile uf ON f.id = uf.fileID"@
}

/// Conditions, joins and binds, in this order.
pub type QueryParts = (Seq<Seq<char>>, Seq<Seq<char>>, Seq<Seq<char>>);

/// The parts that a tag filter contributes. Without a usable tag, nothing; else
/// the tag join, and for `HAS`, `NOT` and `ONLY` a condition with one
/// placeholder per tag and the tags as binds (twice for `ONLY`).
pub open spec fn tag_filter_parts(filter_type: Seq<char>, tags: Seq<Seq<char>>) -> QueryParts {
    let valid = valid_tags(tags);
    let ph = placeholders(valid.len());
    if valid.len() == 0 {
        (Seq::empty(), Seq::empty(), Seq::empty())
    } else if filter_type == "HAS"@ {
        (seq!["t.tagString IN ("@ + ph + ")"@], seq![tag_join()], valid)
    } else if filter_type == "NOT"@ {
        (
            seq!["f.id NOT IN (SELECT tf.fileID FROM tagFile tf WHERE tf.tagString IN ("@ + ph + "))"@],
            seq![tag_join()],
            valid,
        )
    } else if filter_type == "ONLY"@ {
        (
            seq![
                "(SELECT COUNT(DISTINCT tf.tagString) FROM tagFile tf WHERE tf.fileID = f.id) = "@
                    + decimal(valid.len())
                    + " AND NOT EXISTS (SELECT 1 FROM tagFile tf WHERE tf.fileID = f.id AND tf.tagString NOT IN ("@
                    + ph + "))"@,
            ],
            seq![tag_join()],
            valid + valid,
        )
    } else {
        (Seq::empty(), seq![tag_join()], Seq::empty())
    }
}

/// The parts that a people filter contributes. Without a positive id, nothing;
/// else the user join, and for `HAS` a condition that lists the ids, for `NOT`
/// and `ONLY` one with a placeholder per id; the ids as binds (twice for `ONLY`).
pub open spec fn people_filter_parts(filter_type: Seq<char>, ids: Seq<i64>) -> QueryParts {
    let valid = valid_ids(ids);
    let text = ids_text(valid);
    let ph = placeholders(valid.len());
    if valid.len() == 0 {
        (Seq::empty(), Seq::empty(), Seq::empty())
    } else if filter_type == "HAS"@ {
        (seq!["uf.userID IN ("@ + join(text, ","@) + ")"@], seq![people_join()], text)
    } else if filter_type == "NOT"@ {
        (
            seq!["f.id NOT IN (SELECT uf.fileID FROM userFile uf WHERE uf.userID IN ("@ + ph + "))"@],
            seq![people_join()],
            text,
        )
    } else if filter_type == "ONLY"@ {
        (
            seq![
                "(SELECT COUNT(DISTINCT uf.userID) FROM userFile uf WHERE uf.fileID = f.id) = "@
                    + decimal(valid.len())
                    + " AND NOT EXISTS (SELECT 1 FROM userFile uf WHERE uf.fileID = f.id AND uf.userID NOT IN ("@
                    + ph + "))"@,
            ],
            seq![people_join()],
            text + text,
        )
    } else {
        (Seq::empty(), seq![people_join()], Seq::empty())
    }
}

/// The view of an optional tag filter.
pub open spec fn tag_filter_view(f: Option<(String, Vec<String>)>) -> Option<(Seq<char>, Seq<Seq<char>>)> {
    match f {
        Some((t, tags)) => Some((t@, tags.deep_view())),
        None => None,
    }
}

/// The view of an optional people filter.
pub open spec fn people_filter_view(f: Option<(String, Vec<i64>)>) -> Option<(Seq<char>, Seq<i64>)> {
    match f {
        Some((t, ids)) => Some((t@, ids@)),
        None => None,
    }
}

/// The conditions, joins and binds for both filters: those of the tag filter
/// first, then those of the people filter.
pub open spec fn filter_parts(
    tag_filter: Option<(Seq<char>, Seq<Seq<char>>)>,
    people_filter: Option<(Seq<char>, Seq<i64>)>,
) -> QueryParts {
    let t = match tag_filter {
        Some((ft, tags)) => tag_filter_parts(ft, tags),
        None => (Seq::empty(), Seq::empty(), Seq::empty()),
    };
    let p = match people_filter {
        Some((ft, ids)) => people_filter_parts(ft, ids),
        None => (Seq::empty(), Seq::empty(), Seq::empty()),
    };
    (t.0 + p.0, t.1 + p.1, t.2 + p.2)
}

/// The deep view of three string vectors.
pub open spec fn parts_view(r: (Vec<String>, Vec<String>, Vec<String>)) -> QueryParts {
    (r.0.deep_view(), r.1.deep_view(), r.2.deep_view())
}

/// Returns an already trimmed and lower-cased tag if it may be used in a
/// filter: it is not empty and holds only letters, digits, `-` and `_`.
pub fn usable_tag_text(lowered: String) -> (r: Option<String>)
    ensures
        r is Some <==> usable_tag(lowered@),
        r matches Some(t) ==> t@ == lowered@,
{
    let n = lowered.as_str().unicode_len();
    if n == 0 {
        return None;
    }
    let mut i: usize = 0;
    while i < n
        invariant
            n == lowered@.len(),
            i <= n,
            forall|j: int| 0 <= j < i ==> tag_char_allowed(#[trigger] lowered@[j]),
        decreases n - i,
    {
        let c = lowered.as_str().get_char(i);
        if !(is_alphabetic(c) || is_numeric(c) || c == '-' || c == '_') {
            assert(!tag_char_allowed(lowered@[i as int]));
            return None;
        }
        i = i + 1;
    }
    Some(lowered)
}

/// Normalizes a tag and returns it if it may be used in a filter.
fn usable_normalized_tag(tag: &String) -> (r: Option<String>)
    ensures
        r is Some <==> usable_tag(normalized_tag(tag@)),
        r matches Some(t) ==> t@ == normalized_tag(tag@),
{
    let trimmed_tag = trim(tag.as_str());
    let t = to_lowercase(trimmed_tag);
    usable_tag_text(t)
}

fn collect_valid_tags(tags: &Vec<String>) -> (r: Vec<String>)
    ensures
        r.deep_view() == valid_tags(tags.deep_view()),
{
    let ghost dv = tags.deep_view();
    let mut r: Vec<String> = Vec::new();
    let mut i: usize = 0;
    while i < tags.len()
        invariant
            dv == tags.deep_view(),
            i <= tags.len(),
            r.deep_view() == valid_tags(dv.take(i as int)),
        decreases tags.len() - i,
    {
        proof {
            assert(dv.take(i as int + 1).drop_last() =~= dv.take(i as int));
            assert(dv.take(i as int + 1).last() == tags[i as int]@);
        }
        match usable_normalized_tag(&tags[i]) {
            Some(t) => {
                let ghost before = r.deep_view();
                r.push(t);
                assert(r.deep_view() =~= before.push(normalized_tag(tags[i as int]@)));
            },
            None => {},
        }
        i = i + 1;
    }
    assert(dv.take(tags.len() as int) =~= dv);
    r
}

fn collect_valid_ids(ids: &Vec<i64>) -> (r: Vec<i64>)
    ensures
        r@ == valid_ids(ids@),
{
    let mut r: Vec<i64> = Vec::new();
    let mut i: usize = 0;
    while i < ids.len()
        invariant
            i <= ids.len(),
            r@ == valid_ids(ids@.take(i as int)),
        decreases ids.len() - i,
    {
        proof {
            assert(ids@.take(i as int + 1).drop_last() =~= ids@.take(i as int));
        }
        if ids[i] > 0 {
            r.push(ids[i]);
        }
        i = i + 1;
    }
    assert(ids@.take(ids.len() as int) =~= ids@);
    r
}

proof fn lemma_valid_ids_positive(ids: Seq<i64>)
    ensures
        forall|k: int| 0 <= k < valid_ids(ids).len() ==> valid_ids(ids)[k] > 0,
    decreases ids.len(),
{
    if ids.len() > 0 {
        lemma_valid_ids_positive(ids.drop_last());
        let rest = valid_ids(ids.drop_last());
        if ids.last() > 0 {
            assert(valid_ids(ids) == rest.push(ids.last()));
            assert forall|k: int| 0 <= k < valid_ids(ids).len() implies valid_ids(ids)[k] > 0 by {
                if k < rest.len() {
                    assert(valid_ids(ids)[k] == rest[k]);
                }
            }
        } else {
            assert(valid_ids(ids) == rest);
        }
    }
}

fn ids_to_text(ids: &Vec<i64>) -> (r: Vec<String>)
    requires
        forall|k: int| 0 <= k < ids.len() ==> ids[k] > 0,
    ensures
        r.deep_view() == ids_text(ids@),
{
    let mut r: Vec<String> = Vec::new();
    let mut i: usize = 0;
    while i < ids.len()
        invariant
            forall|k: int| 0 <= k < ids.len() ==> ids[k] > 0,
            i <= ids.len(),
            r.deep_view() =~= ids_text(ids@.take(i as int)),
        decreases ids.len() - i,
    {
        let ghost before = r.deep_view();
        let d = u64_to_decimal(ids[i] as u64);
        r.push(d);
        assert(r.deep_view() =~= before.push(decimal(ids[i as int] as nat)));
        assert(ids_text(ids@.take(i as int + 1)) =~= ids_text(ids@.take(i as int)).push(
            decimal(ids[i as int] as nat),
        ));
        i = i + 1;
    }
    assert(ids@.take(ids.len() as int) =~= ids@);
    r
}

/// `n` bind placeholders separated by commas.
pub fn placeholder_list(n: usize) -> (r: String)
    ensures
        r@ == placeholders(n as nat),
{
    let mut marks: Vec<String> = Vec::new();
    let mut i: usize = 0;
    while i < n
        invariant
            i <= n,
            marks.deep_view() =~= Seq::new(i as nat, |k: int| "?"@),
        decreases n - i,
    {
        let ghost before = marks.deep_view();
        marks.push(String::from_str("?"));
        assert(marks.deep_view() =~= before.push("?"@));
        i = i + 1;
    }
    join_strings(&marks, ",")
}

fn single(s: String) -> (r: Vec<String>)
    ensures
        r.deep_view() == seq![s@],
{
    let mut r = Vec::new();
    r.push(s);
    assert(r.deep_view() =~= seq![s@]);
    r
}

fn concat(a: &Vec<String>, b: &Vec<String>) -> (r: Vec<String>)
    ensures
        r.deep_view() == a.deep_view() + b.deep_view(),
{
    let mut r: Vec<String> = Vec::new();
    let mut i: usize = 0;
    while i < a.len()
        invariant
            i <= a.len(),
            r.deep_view() =~= a.deep_view().take(i as int),
        decreases a.len() - i,
    {
        let ghost before = r.deep_view();
        r.push(a[i].clone());
        assert(r.deep_view() =~= before.push(a[i as int]@));
        assert(a.deep_view()[i as int] == a[i as int]@);
        assert(a.deep_view().take(i as int + 1) =~= a.deep_view().take(i as int).push(a[i as int]@));
        i = i + 1;
    }
    let mut j: usize = 0;
    assert(a.deep_view().take(i as int) =~= a.deep_view());
    assert(b.deep_view().take(0) =~= Seq::<Seq<char>>::empty());
    while j < b.len()
        invariant
            i == a.len(),
            j <= b.len(),
            r.deep_view() =~= a.deep_view() + b.deep_view().take(j as int),
        decreases b.len() - j,
    {
        let ghost before = r.deep_view();
        r.push(b[j].clone());
        assert(r.deep_view() =~= before.push(b[j as int]@));
        assert(b.deep_view()[j as int] == b[j as int]@);
        assert(b.deep_view().take(j as int + 1) =~= b.deep_view().take(j as int).push(b[j as int]@));
        j = j + 1;
    }
    r
}

fn empty_parts() -> (r: (Vec<String>, Vec<String>, Vec<String>))
    ensures
        parts_view(r) == (Seq::<Seq<char>>::empty(), Seq::<Seq<char>>::empty(), Seq::<Seq<char>>::empty()),
{
    let r = (Vec::new(), Vec::new(), Vec::new());
    assert(r.0.deep_view() =~= Seq::<Seq<char>>::empty());
    assert(r.1.deep_view() =~= Seq::<Seq<char>>::empty());
    assert(r.2.deep_view() =~= Seq::<Seq<char>>::empty());
    r
}

fn tag_parts(filter_type: &String, tags: &Vec<String>) -> (r: (Vec<String>, Vec<String>, Vec<String>))
    ensures
        parts_view(r) == tag_filter_parts(filter_type@, tags.deep_view()),
{
    let valid = collect_valid_tags(tags);
    if valid.len() == 0 {
        return empty_parts();
    }
    let ph = placeholder_list(valid.len());
    let joins = single(String::from_str(
        "LEFT JOIN tagFile tf ON f.id = tf.fileID LEFT JOIN tags t ON tf.tagString = t.tagString",
    ));
    if str_eq(filter_type.as_str(), "HAS") {
        let mut c = String::from_str("t.tagString IN (");
        c.append(ph.as_str());
        c.append(")");
        (single(c), joins, valid)
    } else if str_eq(filter_type.as_str(), "NOT") {
        let mut c = String::from_str("f.id NOT IN (SELECT tf.fileID FROM tagFile tf WHERE tf.tagString IN (");
        c.append(ph.as_str());
        c.append("))");
        (single(c), joins, valid)
    } else if str_eq(filter_type.as_str(), "ONLY") {
        let mut c = String::from_str(
            "(SELECT COUNT(DISTINCT tf.tagString) FROM tagFile tf WHERE tf.fileID = f.id) = ",
        );
        let count = usize_to_decimal(valid.len());
        c.append(count.as_str());
        c.append(" AND NOT EXISTS (SELECT 1 FROM tagFile tf WHERE tf.fileID = f.id AND tf.tagString NOT IN (");
        c.append(ph.as_str());
        c.append("))");
        let binds = concat(&valid, &valid);
        (single(c), joins, binds)
    } else {
        let e = empty_parts();
        (e.0, joins, e.2)
    }
}

fn people_parts(filter_type: &String, ids: &Vec<i64>) -> (r: (Vec<String>, Vec<String>, Vec<String>))
    ensures
        parts_view(r) == people_filter_parts(filter_type@, ids@),
{
    let valid = collect_valid_ids(ids);
    if valid.len() == 0 {
        return empty_parts();
    }
    proof { lemma_valid_ids_positive(ids@); }
    let text = ids_to_text(&valid);
    let ph = placeholder_list(valid.len());
    let joins = single(String::from_str("LEFT JOIN userFile uf ON f.id = uf.fileID"));
    if str_eq(filter_type.as_str(), "HAS") {
        let mut c = String::from_str("uf.userID IN (");
        let listed = join_strings(&text, ",");
        c.append(listed.as_str());
        c.append(")");
        (single(c), joins, text)
    } else if str_eq(filter_type.as_str(), "NOT") {
        let mut c = String::from_str("f.id NOT IN (SELECT uf.fileID FROM userFile uf WHERE uf.userID IN (");
        c.append(ph.as_str());
        c.append("))");
        (single(c), joins, text)
    } else if str_eq(filter_type.as_str(), "ONLY") {
        let mut c = String::from_str(
            "(SELECT COUNT(DISTINCT uf.userID) FROM userFile uf WHERE uf.fileID = f.id) = ",
        );
        let count = usize_to_decimal(valid.len());
        c.append(count.as_str());
        c.append(" AND NOT EXISTS (SELECT 1 FROM userFile uf WHERE uf.fileID = f.id AND uf.userID NOT IN (");
        c.append(ph.as_str());
        c.append("))");
        let binds = concat(&text, &text);
        (single(c), joins, binds)
    } else {
        let e = empty_parts();
        (e.0, joins, e.2)
    }
}

/// Builds the `WHERE` conditions, the joins and the bind values that restrict
/// the file list to a tag filter and a people filter. A filter is a kind
/// (`HAS`, `NOT` or `ONLY`) and its tags or user ids; tags are trimmed and
/// lower-cased, and only non-empty tags of letters, digits, `-` and `_`, and
/// only positive ids, take part.
pub fn prepare_filtered_query(
    tag_filter: Option<(String, Vec<String>)>,
    people_filter: Option<(String, Vec<i64>)>,
) -> (r: (Vec<String>, Vec<String>, Vec<String>))
    ensures
        parts_view(r) == filter_parts(tag_filter_view(tag_filter), people_filter_view(people_filter)),
{
    let t = match &tag_filter {
        Some((filter_type, tags)) => tag_parts(filter_type, tags),
        None => empty_parts(),
    };
    let p = match &people_filter {
        Some((filter_type, ids)) => people_parts(filter_type, ids),
        None => empty_parts(),
    };
    (concat(&t.0, &p.0), concat(&t.1, &p.1), concat(&t.2, &p.2))
}

/// As `prepare_filtered_query`, with the limit and the offset appended to the binds.
pub fn prepare_filtered_query_with_pagination(
    tag_filter: Option<(String, Vec<String>)>,
    people_filter: Option<(String, Vec<i64>)>,
    limit: usize,
    offset: usize,
) -> (r: (Vec<String>, Vec<String>, Vec<String>))
    ensures
        ({
            let f = filter_parts(tag_filter_view(tag_filter), people_filter_view(people_filter));
            parts_view(r) == (f.0, f.1, f.2.push(decimal(limit as nat)).push(decimal(offset as nat)))
        }),
{
    let (conditions, joins, mut binds) = prepare_filtered_query(tag_filter, people_filter);
    let ghost b0 = binds.deep_view();
    binds.push(usize_to_decimal(limit));
    binds.push(usize_to_decimal(offset));
    assert(binds.deep_view() =~= b0.push(decimal(limit as nat)).push(decimal(offset as nat)));
    (conditions, joins, binds)
}

/// The number of `?` bind placeholders in a text.
pub open spec fn marks(s: Seq<char>) -> nat
    decreases s.len(),
{
    if s.len() == 0 {
        0
    } else {
        marks(s.drop_last()) + if s.last() == '?' { 1nat } else { 0nat }
    }
}

/// The number of `?` bind placeholders in some conditions, in order.
pub open spec fn marks_all(conditions: Seq<Seq<char>>) -> nat
    decreases conditions.len(),
{
    if conditions.len() == 0 {
        0
    } else {
        marks_all(conditions.drop_last()) + marks(conditions.last())
    }
}

proof fn lemma_marks_add(a: Seq<char>, b: Seq<char>)
    ensures
        marks(a + b) == marks(a) + marks(b),
    decreases b.len(),
{
    if b.len() == 0 {
        assert(a + b =~= a);
    } else {
        assert((a + b).drop_last() =~= a + b.drop_last());
        assert((a + b).last() == b.last());
        lemma_marks_add(a, b.drop_last());
    }
}

proof fn lemma_marks_none(s: Seq<char>)
    requires
        forall|i: int| 0 <= i < s.len() ==> s[i] != '?',
    ensures
        marks(s) == 0,
    decreases s.len(),
{
    if s.len() > 0 {
        assert forall|i: int| 0 <= i < s.drop_last().len() implies s.drop_last()[i] != '?' by {
            assert(s.drop_last()[i] == s[i]);
        }
        lemma_marks_none(s.drop_last());
    }
}

proof fn lemma_marks_decimal(n: nat)
    ensures
        marks(decimal(n)) == 0,
    decreases n,
{
    if n >= 10 {
        lemma_marks_decimal(n / 10);
        assert(decimal(n).drop_last() =~= decimal(n / 10));
        assert(decimal(n).last() == digit_char((n % 10) as nat));
        assert(digit_char((n % 10) as nat) != '?');
        assert(marks(decimal(n)) == marks(decimal(n).drop_last()) + if decimal(n).last() == '?' { 1nat } else { 0nat });
    } else {
        assert(decimal(n).drop_last() =~= Seq::<char>::empty());
        assert(decimal(n).last() == digit_char(n));
        assert(digit_char(n) != '?');
        assert(marks(Seq::<char>::empty()) == 0);
    }
}

proof fn lemma_marks_placeholders(n: nat)
    ensures
        marks(placeholders(n)) == n,
    decreases n,
{
    reveal_strlit("?");
    reveal_strlit(",");
    let parts = Seq::new(n, |i: int| "?"@);
    if n == 1 {
        assert(placeholders(1) == parts[0]);
        assert(marks("?"@.drop_last()) == 0);
    } else if n >= 2 {
        lemma_marks_placeholders((n - 1) as nat);
        assert(parts.drop_last() =~= Seq::new((n - 1) as nat, |i: int| "?"@));
        assert(placeholders(n) == placeholders((n - 1) as nat) + ","@ + "?"@);
        lemma_marks_add(placeholders((n - 1) as nat) + ","@, "?"@);
        lemma_marks_add(placeholders((n - 1) as nat), ","@);
        assert(marks(","@.drop_last()) == 0);
        assert(marks("?"@.drop_last()) == 0);
    }
}

proof fn lemma_marks_one(c: Seq<char>)
    ensures
        marks_all(seq![c]) == marks(c),
{
    assert(seq![c].drop_last() =~= Seq::<Seq<char>>::empty());
    assert(seq![c].last() == c);
    assert(marks_all(Seq::<Seq<char>>::empty()) == 0);
}

proof fn lemma_marks_all_add(a: Seq<Seq<char>>, b: Seq<Seq<char>>)
    ensures
        marks_all(a + b) == marks_all(a) + marks_all(b),
    decreases b.len(),
{
    if b.len() == 0 {
        assert(a + b =~= a);
    } else {
        assert((a + b).drop_last() =~= a + b.drop_last());
        assert((a + b).last() == b.last());
        lemma_marks_all_add(a, b.drop_last());
    }
}

/// The number of placeholders that a tag filter's condition holds: one per
/// usable tag for `HAS`, `NOT` and `ONLY`, none otherwise.
pub open spec fn tag_marks(filter_type: Seq<char>, tags: Seq<Seq<char>>) -> nat {
    if filter_type == "HAS"@ || filter_type == "NOT"@ || filter_type == "ONLY"@ {
        valid_tags(tags).len()
    } else {
        0
    }
}

/// The number of placeholders that a people filter's condition holds: one per
/// positive id for `NOT` and `ONLY`, none otherwise (`HAS` writes the ids
/// into the condition).
pub open spec fn people_marks(filter_type: Seq<char>, ids: Seq<i64>) -> nat {
    if filter_type == "NOT"@ || filter_type == "ONLY"@ {
        valid_ids(ids).len()
    } else {
        0
    }
}

/// The placeholders of a tag filter are filled, in order, by its leading
/// binds, which are its usable tags: binds are positional, and those beyond
/// the placeholders (the second copy of the tags for `ONLY`) go unused.
pub proof fn law_tag_binds_fill_placeholders(filter_type: Seq<char>, tags: Seq<Seq<char>>)
    ensures
        ({
            let p = tag_filter_parts(filter_type, tags);
            let k = tag_marks(filter_type, tags);
            &&& marks_all(p.0) == k
            &&& k <= p.2.len()
            &&& p.2.take(k as int) == valid_tags(tags).take(k as int)
        }),
{
    let valid = valid_tags(tags);
    let n = valid.len();
    let ph = placeholders(n);
    lemma_marks_placeholders(n);
    lemma_marks_decimal(n);
    if n == 0 {
        assert(Seq::<Seq<char>>::empty().take(0) =~= valid.take(0));
    } else if filter_type == "HAS"@ {
        let a = "t.tagString IN ("@;
        let b = ")"@;
        reveal_strlit("t.tagString IN (");
        reveal_strlit(")");
        lemma_marks_none(a);
        lemma_marks_none(b);
        lemma_marks_add(a, ph);
        lemma_marks_add(a + ph, b);
        lemma_marks_one(a + ph + b);
        assert(valid.take(n as int) =~= valid);
    } else if filter_type == "NOT"@ {
        let a = "f.id NOT IN (SELECT tf.fileID FROM tagFile tf WHERE tf.tagString IN ("@;
        let b = "))"@;
        reveal_strlit("f.id NOT IN (SELECT tf.fileID FROM tagFile tf WHERE tf.tagString IN (");
        reveal_strlit("))");
        lemma_marks_none(a);
        lemma_marks_none(b);
        lemma_marks_add(a, ph);
        lemma_marks_add(a + ph, b);
        lemma_marks_one(a + ph + b);
        assert(valid.take(n as int) =~= valid);
    } else if filter_type == "ONLY"@ {
        let a = "(SELECT COUNT(DISTINCT tf.tagString) FROM tagFile tf WHERE tf.fileID = f.id) = "@;
        let b = " AND NOT EXISTS (SELECT 1 FROM tagFile tf WHERE tf.fileID = f.id AND tf.tagString NOT IN ("@;
        let c = "))"@;
        reveal_strlit("(SELECT COUNT(DISTINCT tf.tagString) FROM tagFile tf WHERE tf.fileID = f.id) = ");
        reveal_strlit(" AND NOT EXISTS (SELECT 1 FROM tagFile tf WHERE tf.fileID = f.id AND tf.tagString NOT IN (");
        reveal_strlit("))");
        lemma_marks_none(a);
        lemma_marks_none(b);
        lemma_marks_none(c);
        let d = decimal(n);
        lemma_marks_add(a, d);
        lemma_marks_add(a + d, b);
        lemma_marks_add(a + d + b, ph);
        lemma_marks_add(a + d + b + ph, c);
        lemma_marks_one(a + d + b + ph + c);
        assert((valid + valid).take(n as int) =~= valid.take(n as int));
    } else {
        assert(marks_all(Seq::<Seq<char>>::empty()) == 0);
        assert(Seq::<Seq<char>>::empty().take(0) =~= valid.take(0));
    }
}

proof fn lemma_marks_join_none(parts: Seq<Seq<char>>, sep: Seq<char>)
    requires
        marks(sep) == 0,
        forall|i: int| 0 <= i < parts.len() ==> marks(#[trigger] parts[i]) == 0,
    ensures
        marks(join(parts, sep)) == 0,
    decreases parts.len(),
{
    if parts.len() >= 2 {
        lemma_marks_join_none(parts.drop_last(), sep);
        lemma_marks_add(join(parts.drop_last(), sep), sep);
        lemma_marks_add(join(parts.drop_last(), sep) + sep, parts.last());
    } else if parts.len() == 1 {
        assert(marks(parts[0]) == 0);
    }
}

/// The placeholders of a people filter are filled, in order, by its leading
/// binds, which are its positive ids in decimal; the binds beyond the
/// placeholders (all of them for `HAS`, which writes the ids into its
/// condition, and the second copy for `ONLY`) go unused.
pub proof fn law_people_binds_fill_placeholders(filter_type: Seq<char>, ids: Seq<i64>)
    ensures
        ({
            let p = people_filter_parts(filter_type, ids);
            let k = people_marks(filter_type, ids);
            &&& marks_all(p.0) == k
            &&& k <= p.2.len()
            &&& p.2.take(k as int) == ids_text(valid_ids(ids)).take(k as int)
        }),
{
    let valid = valid_ids(ids);
    let text = ids_text(valid);
    let n = valid.len();
    let ph = placeholders(n);
    lemma_marks_placeholders(n);
    lemma_marks_decimal(n);
    if n == 0 {
        assert(Seq::<Seq<char>>::empty().take(0) =~= text.take(0));
    } else if filter_type == "HAS"@ {
        let a = "uf.userID IN ("@;
        let b = ")"@;
        reveal_strlit("uf.userID IN (");
        reveal_strlit(")");
        reveal_strlit(",");
        reveal_strlit("HAS");
        reveal_strlit("NOT");
        reveal_strlit("ONLY");
        assert("HAS"@ != "NOT"@ && "HAS"@ != "ONLY"@) by {
            assert("HAS"@[0] != "NOT"@[0]);
            assert("HAS"@.len() != "ONLY"@.len());
        }
        lemma_marks_none(a);
        lemma_marks_none(b);
        lemma_marks_none(","@);
        lemma_valid_ids_positive(ids);
        assert forall|i: int| 0 <= i < text.len() implies marks(#[trigger] text[i]) == 0 by {
            assert(text[i] == decimal(valid[i] as nat));
            lemma_marks_decimal(valid[i] as nat);
        }
        lemma_marks_join_none(text, ","@);
        let j = join(text, ","@);
        lemma_marks_add(a, j);
        lemma_marks_add(a + j, b);
        lemma_marks_one(a + j + b);
        assert(text.take(0) =~= Seq::<Seq<char>>::empty());
    } else if filter_type == "NOT"@ {
        let a = "f.id NOT IN (SELECT uf.fileID FROM userFile uf WHERE uf.userID IN ("@;
        let b = "))"@;
        reveal_strlit("f.id NOT IN (SELECT uf.fileID FROM userFile uf WHERE uf.userID IN (");
        reveal_strlit("))");
        lemma_marks_none(a);
        lemma_marks_none(b);
        lemma_marks_add(a, ph);
        lemma_marks_add(a + ph, b);
        lemma_marks_one(a + ph + b);
        assert(text.take(n as int) =~= text);
    } else if filter_type == "ONLY"@ {
        let a = "(SELECT COUNT(DISTINCT uf.userID) FROM userFile uf WHERE uf.fileID = f.id) = "@;
        let b = " AND NOT EXISTS (SELECT 1 FROM userFile uf WHERE uf.fileID = f.id AND uf.userID NOT IN ("@;
        let c = "))"@;
        reveal_strlit("(SELECT COUNT(DISTINCT uf.userID) FROM userFile uf WHERE uf.fileID = f.id) = ");
        reveal_strlit(" AND NOT EXISTS (SELECT 1 FROM userFile uf WHERE uf.fileID = f.id AND uf.userID NOT IN (");
        reveal_strlit("))");
        lemma_marks_none(a);
        lemma_marks_none(b);
        lemma_marks_none(c);
        let d = decimal(n);
        lemma_marks_add(a, d);
        lemma_marks_add(a + d, b);
        lemma_marks_add(a + d + b, ph);
        lemma_marks_add(a + d + b + ph, c);
        lemma_marks_one(a + d + b + ph + c);
        assert((text + text).take(n as int) =~= text.take(n as int));
    } else {
        assert(marks_all(Seq::<Seq<char>>::empty()) == 0);
        assert(Seq::<Seq<char>>::empty().take(0) =~= text.take(0));
    }
}

/// The values that the placeholders of both filters take, in order: the
/// usable tags, then the positive ids in decimal.
pub open spec fn placeholder_values(
    tag_filter: Option<(Seq<char>, Seq<Seq<char>>)>,
    people_filter: Option<(Seq<char>, Seq<i64>)>,
) -> Seq<Seq<char>> {
    let t = match tag_filter {
        Some((ft, tags)) => valid_tags(tags).take(tag_marks(ft, tags) as int),
        None => Seq::empty(),
    };
    let p = match people_filter {
        Some((ft, ids)) => ids_text(valid_ids(ids)).take(people_marks(ft, ids) as int),
        None => Seq::empty(),
    };
    t + p
}

/// With both filters, the binds fill the placeholders of the conditions in
/// order: first with the usable tags, then with the ids. This needs a tag
/// filter other than `ONLY` (or one without usable tags): the second copy of
/// the tags that `ONLY` binds would otherwise fill the people placeholders.
pub proof fn law_filter_binds_fill_placeholders(
    tag_filter: Option<(Seq<char>, Seq<Seq<char>>)>,
    people_filter: Option<(Seq<char>, Seq<i64>)>,
)
    requires
        tag_filter matches Some((ft, tags)) ==> (ft != "ONLY"@ || valid_tags(tags).len() == 0),
    ensures
        ({
            let f = filter_parts(tag_filter, people_filter);
            let k = marks_all(f.0);
            &&& k <= f.2.len()
            &&& f.2.take(k as int) == placeholder_values(tag_filter, people_filter)
        }),
{
    let t = match tag_filter {
        Some((ft, tags)) => tag_filter_parts(ft, tags),
        None => (Seq::<Seq<char>>::empty(), Seq::<Seq<char>>::empty(), Seq::<Seq<char>>::empty()),
    };
    let p = match people_filter {
        Some((ft, ids)) => people_filter_parts(ft, ids),
        None => (Seq::<Seq<char>>::empty(), Seq::<Seq<char>>::empty(), Seq::<Seq<char>>::empty()),
    };
    let tv = match tag_filter {
        Some((ft, tags)) => valid_tags(tags).take(tag_marks(ft, tags) as int),
        None => Seq::<Seq<char>>::empty(),
    };
    let pv = match people_filter {
        Some((ft, ids)) => ids_text(valid_ids(ids)).take(people_marks(ft, ids) as int),
        None => Seq::<Seq<char>>::empty(),
    };
    let tk = marks_all(t.0);
    let pk = marks_all(p.0);
    match tag_filter {
        Some((ft, tags)) => {
            law_tag_binds_fill_placeholders(ft, tags);
            assert(t.2.len() == tk);
            assert(t.2 =~= t.2.take(tk as int));
        },
        None => {
            assert(tk == 0);
            assert(tv =~= t.2);
        },
    }
    match people_filter {
        Some((ft, ids)) => {
            law_people_binds_fill_placeholders(ft, ids);
        },
        None => {
            assert(pk == 0);
            assert(pv =~= p.2.take(0));
        },
    }
    lemma_marks_all_add(t.0, p.0);
    assert((t.2 + p.2).take((tk + pk) as int) =~= t.2 + p.2.take(pk as int));
}

/// In an `ONLY` tag filter, the number of distinct tags that a file must
/// carry is the number of usable tags, which is also the number of
/// placeholders in the condition, whatever unusable tags were given.
pub proof fn law_only_count_is_placeholder_count(tags: Seq<Seq<char>>)
    requires
        valid_tags(tags).len() > 0,
    ensures
        ({
            let c = tag_filter_parts("ONLY"@, tags).0;
            let k = marks(c[0]);
            &&& c.len() == 1
            &&& k == valid_tags(tags).len()
            &&& c[0] == "(SELECT COUNT(DISTINCT tf.tagString) FROM tagFile tf WHERE tf.fileID = f.id) = "@
                + decimal(k)
                + " AND NOT EXISTS (SELECT 1 FROM tagFile tf WHERE tf.fileID = f.id AND tf.tagString NOT IN ("@
                + placeholders(k) + "))"@
        }),
{
    reveal_strlit("HAS");
    reveal_strlit("NOT");
    reveal_strlit("ONLY");
    assert("ONLY"@ != "HAS"@ && "ONLY"@ != "NOT"@) by {
        assert("ONLY"@.len() != "HAS"@.len());
        assert("ONLY"@.len() != "NOT"@.len());
    }
    law_tag_binds_fill_placeholders("ONLY"@, tags);
    let c = tag_filter_parts("ONLY"@, tags).0;
    lemma_marks_one(c[0]);
    assert(c =~= seq![c[0]]);
}

/// In an `ONLY` people filter, the number of distinct people that a file must
/// show is the number of positive ids, which is also the number of
/// placeholders in the condition, whatever other ids were given.
pub proof fn law_only_people_count_is_placeholder_count(ids: Seq<i64>)
    requires
        valid_ids(ids).len() > 0,
    ensures
        ({
            let c = people_filter_parts("ONLY"@, ids).0;
            let k = marks(c[0]);
            &&& c.len() == 1
            &&& k == valid_ids(ids).len()
            &&& c[0] == "(SELECT COUNT(DISTINCT uf.userID) FROM userFile uf WHERE uf.fileID = f.id) = "@
                + decimal(k)
                + " AND NOT EXISTS (SELECT 1 FROM userFile uf WHERE uf.fileID = f.id AND uf.userID NOT IN ("@
                + placeholders(k) + "))"@
        }),
{
    reveal_strlit("HAS");
    reveal_strlit("NOT");
    reveal_strlit("ONLY");
    assert("ONLY"@ != "HAS"@ && "ONLY"@ != "NOT"@) by {
        assert("ONLY"@.len() != "HAS"@.len());
        assert("ONLY"@.len() != "NOT"@.len());
    }
    law_people_binds_fill_placeholders("ONLY"@, ids);
    let c = people_filter_parts("ONLY"@, ids).0;
    lemma_marks_one(c[0]);
    assert(c =~= seq![c[0]]);
}

} // verus!

use vstd::prelude::*;
use vstd::string::*;

verus! {

/// The filters of the feed: a kind and tags, and a kind and user ids.
#[derive(Clone, Debug, PartialEq)]
pub struct Filters {
    pub tags: Option<(String, Vec<String>)>,
    pub people: Option<(String, Vec<i64>)>,
}

/// A tag as the tag table holds it.
#[derive(Debug, Eq, Ord, PartialEq, PartialOrd, Clone)]
pub struct Tag {
    pub tag_string: String,
}

/// The stored path of a file.
#[derive(Clone, Debug, Eq, Hash, PartialEq)]
pub struct ImageDb {
    pub path: String,
}

/// Whether every tag is empty.
pub open spec fn all_tags_empty(tags: Seq<Seq<char>>) -> bool {
    forall|i: int| 0 <= i < tags.len() ==> (#[trigger] tags[i]).len() == 0
}

/// Whether every id is 0.
pub open spec fn all_ids_zero(ids: Seq<i64>) -> bool {
    forall|i: int| 0 <= i < ids.len() ==> #[trigger] ids[i] == 0
}

/// The filters that the filter button sets: a tag filter unless no tag (or
/// only empty ones) is chosen, and a people filter unless no person (or only
/// id 0) is chosen.
pub fn make_filters(tag_kind: String, tags: Vec<String>, people_kind: String, people: Vec<i64>) -> (r: Filters)
    ensures
        (tags@.len() == 0 || all_tags_empty(tags.deep_view())) ==> r.tags is None,
        !(tags@.len() == 0 || all_tags_empty(tags.deep_view())) ==> r.tags == Some((tag_kind, tags)),
        (people@.len() == 0 || all_ids_zero(people@)) ==> r.people is None,
        !(people@.len() == 0 || all_ids_zero(people@)) ==> r.people == Some((people_kind, people)),
{
    let mut all_empty = true;
    let mut i: usize = 0;
    while i < tags.len()
        invariant
            i <= tags.len(),
            all_empty == (forall|j: int| 0 <= j < i ==> (#[trigger] tags.deep_view()[j]).len() == 0),
        decreases tags.len() - i,
    {
        assert(tags.deep_view()[i as int] == tags[i as int]@);
        if tags[i].as_str().unicode_len() != 0 {
            all_empty = false;
        }
        i = i + 1;
    }
    let mut all_zero = true;
    let mut k: usize = 0;
    while k < people.len()
        invariant
            k <= people.len(),
            all_zero == (forall|j: int| 0 <= j < k ==> #[trigger] people@[j] == 0),
        decreases people.len() - k,
    {
        if people[k] != 0 {
            all_zero = false;
        }
        k = k + 1;
    }
    let valid_tag_filter = if tags.len() == 0 || all_empty {
        None
    } else {
        Some((tag_kind, tags))
    };
    let valid_people_filter = if people.len() == 0 || all_zero {
        None
    } else {
        Some((people_kind, people))
    };
    Filters { tags: valid_tag_filter, people: valid_people_filter }
}

/// The message for a user who may not delete an image.
pub open spec fn not_allowed_to_delete_message() -> Seq<char> {
    "You are not authorized to delete this image"@
}

/// Only the uploader of an image or an administrator may delete it.
pub fn may_delete_image(is_uploader: bool, is_admin: bool) -> (r: Result<(), String>)
    ensures
        (is_uploader || is_admin) ==> r is Ok,
        !(is_uploader || is_admin) ==> (r matches Err(m) && m@ == not_allowed_to_delete_message()),
{
    if !is_uploader {
        if !is_admin {
            return Err(String::from_str("You are not authorized to delete this image"));
        }
    }
    Ok(())
}

/// The image to show after one was deleted: the next one if there is one,
/// else the previous one, else none (the dialog closes).
pub fn image_after_delete(next: Option<Option<String>>, prev: Option<Option<String>>) -> (r: Option<String>)
    ensures
        r == (match next {
            Some(Some(id)) => Some(id),
            _ => match prev {
                Some(Some(id)) => Some(id),
                _ => None,
            },
        }),
{
    match next {
        Some(Some(id)) => Some(id),
        _ => match prev {
            Some(Some(id)) => Some(id),
            _ => None,
        },
    }
}

} // verus!

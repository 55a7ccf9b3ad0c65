use vstd::prelude::*;
use vstd::string::*;
use crate::auth::User;
use crate::components::upload::{Bbox, Person};
use crate::encoding::{
    all_ascii, ascii_digit, base64_encode, base64_len, base64_text, regex_is_match, regex_match_outcome,
    yyyy_mm_dd,
};
use crate::image_filter::{opt_view, placeholder_list, placeholders};
use crate::text::str_eq;

verus! {

/// A file with its details, as the image view shows it; `path` holds the
/// image data once the file has been read.
#[derive(Clone, Debug, PartialEq, Eq)]
pub struct ImageDb {
    pub id: String,
    pub path: String,
    pub upload_date: String,
    pub created_date: Option<String>,
    pub uploader: String,
    pub location: Option<String>,
}

/// The details of a file, without its data.
#[derive(Clone, Debug, PartialEq, Eq)]
pub struct ImageInfo {
    pub id: String,
    pub upload_date: String,
    pub created_date: Option<String>,
    pub uploader: String,
    pub location: Option<String>,
}

impl ImageDb {
    /// The details of the file.
    pub fn into_info(self) -> (r: ImageInfo)
        ensures
            r.id == self.id,
            r.upload_date == self.upload_date,
            r.created_date == self.created_date,
            r.uploader == self.uploader,
            r.location == self.location,
    {
        ImageInfo {
            id: self.id,
            upload_date: self.upload_date,
            created_date: self.created_date,
            uploader: self.uploader,
            location: self.location,
        }
    }

    /// The file with its data, Base64-encoded, in place of its path.
    pub fn with_image_data(self, data: &[u8]) -> (r: ImageDb)
        requires
            base64_len(data@.len()) <= usize::MAX,
        ensures
            r.path@ == base64_text(data@),
            r.id == self.id,
            r.upload_date == self.upload_date,
            r.created_date == self.created_date,
            r.uploader == self.uploader,
            r.location == self.location,
    {
        let mut img = self;
        img.path = base64_encode(data);
        img
    }
}

impl Default for ImageInfo {
    /// Empty details: no id, dates, uploader or location.
    fn default() -> (r: Self)
        ensures
            r.id@ == ""@,
            r.upload_date@ == ""@,
            r.created_date is None,
            r.uploader@ == ""@,
            r.location is None,
    {
        ImageInfo {
            id: String::from_str(""),
            upload_date: String::from_str(""),
            created_date: None,
            uploader: String::from_str(""),
            location: None,
        }
    }
}

/// The face box of a person row: present only when all four of its
/// coordinates are.
pub fn person_bounds(x: Option<u32>, y: Option<u32>, w: Option<u32>, h: Option<u32>) -> (r: Option<Bbox>)
    ensures
        r == (match (x, y, w, h) {
            (Some(x), Some(y), Some(w), Some(h)) => Some(Bbox { x, y, w, h }),
            _ => None,
        }),
{
    match (x, y, w, h) {
        (Some(x), Some(y), Some(w), Some(h)) => Some(Bbox { x, y, w, h }),
        _ => None,
    }
}

/// The pattern a creation date must match: `yyyy-mm-dd` with a valid month
/// and day number.
pub open spec fn date_pattern() -> Seq<char> {
    "^\\d{4}-(0[1-9]|1[012])-(0[1-9]|[12][0-9]|3[01])$"@
}

/// The message for a creation date that does not match the pattern.
pub open spec fn corrupted_date_message() -> Seq<char> {
    "The date is corrupted. The date must have the format yyyy-mm-dd"@
}

/// Accepts a creation date that matched the date pattern and refuses one that
/// did not.
pub fn date_check_outcome(matched: bool) -> (r: Result<(), String>)
    ensures
        matched ==> r is Ok,
        !matched ==> (r matches Err(m) && m@ == corrupted_date_message()),
{
    if matched {
        Ok(())
    } else {
        Err(String::from_str("The date is corrupted. The date must have the format yyyy-mm-dd"))
    }
}

/// Checks a creation date against the date pattern: `Some` with the verdict
/// of `date_check_outcome`, or `None` if the pattern could not be compiled.
pub fn check_created_date(date: &str) -> (r: Option<Result<(), String>>)
    ensures
        match regex_match_outcome(date_pattern(), date@) {
            None => r is None,
            Some(true) => r matches Some(v) && v is Ok,
            Some(false) => r matches Some(v) && (v matches Err(m) && m@ == corrupted_date_message()),
        },
        all_ascii(date@) ==> (r matches Some(v) && (v is Ok <==> yyyy_mm_dd(date@))),
{
    match regex_is_match("^\\d{4}-(0[1-9]|1[012])-(0[1-9]|[12][0-9]|3[01])$", date) {
        Some(m) => Some(date_check_outcome(m)),
        None => None,
    }
}

/// The message for a user who may not change an image.
pub open spec fn not_uploader_message() -> Seq<char> {
    "You are not authorized, only the uploader can change an image"@
}

/// Only the uploader of an image or an administrator may change its details.
pub fn may_change_image(is_uploader: bool, user: &User) -> (r: Result<(), String>)
    ensures
        (is_uploader || user.permission_names().contains("admin"@)) ==> r is Ok,
        !(is_uploader || user.permission_names().contains("admin"@)) ==> (r matches Err(m)
            && m@ == not_uploader_message()),
{
    if !is_uploader && !user.has("admin") {
        return Err(String::from_str("You are not authorized, only the uploader can change an image"));
    }
    Ok(())
}

/// Whether the current user may not edit or delete an image uploaded by
/// `uploader`: unless signed in as the uploader or as an administrator.
pub open spec fn not_owner(uploader: Seq<char>, user: Option<&User>) -> bool {
    match user {
        Some(u) => u.username@ != uploader && !u.permission_names().contains("admin"@),
        None => true,
    }
}

/// Whether the edit button of the details is disabled: while no image is
/// loaded, or for a user who is neither its uploader nor an administrator.
pub fn edit_disabled(image_id: &str, uploader: &str, user: Option<&User>) -> (r: bool)
    ensures
        r == (image_id@.len() == 0 || not_owner(uploader@, user)),
{
    if image_id.unicode_len() == 0 {
        return true;
    }
    delete_disabled(uploader, user)
}

/// Whether the delete button is disabled: for a user who is neither the
/// uploader nor an administrator.
pub fn delete_disabled(uploader: &str, user: Option<&User>) -> (r: bool)
    ensures
        r == not_owner(uploader@, user),
{
    match user {
        Some(u) => !str_eq(u.username.as_str(), uploader) && !u.has("admin"),
        None => true,
    }
}

/// An entered value: nothing when the field is empty.
pub fn optional_text(value: String) -> (r: Option<String>)
    ensures
        value@.len() == 0 ==> r is None,
        value@.len() > 0 ==> r == Some(value),
{
    if value.as_str().unicode_len() == 0 {
        None
    } else {
        Some(value)
    }
}

fn same_optional_text(a: &Option<String>, b: &Option<String>) -> (r: bool)
    ensures
        r == (opt_view(*a) == opt_view(*b)),
{
    match (a, b) {
        (Some(x), Some(y)) => str_eq(x.as_str(), y.as_str()),
        (None, None) => true,
        _ => false,
    }
}

/// Whether the edited creation date or location differ from the image's
/// details; when neither does, the edit dialog closes without saving.
pub fn details_changed(info: &ImageInfo, created_date: &Option<String>, location: &Option<String>) -> (r: bool)
    ensures
        r == !(opt_view(info.created_date) == opt_view(*created_date) && opt_view(info.location) == opt_view(*location)),
{
    !(same_optional_text(&info.created_date, created_date) && same_optional_text(&info.location, location))
}

/// The message for a person without a name.
pub open spec fn unset_name_message() -> Seq<char> {
    "All names must be set. Remove unneeded fields."@
}

/// The message for a name given twice.
pub open spec fn duplicate_name_message(name: Seq<char>) -> Seq<char> {
    "Names must be unique, but "@ + name + " appears at least twice"@
}

/// The first problem with a list of names, in order: an empty name, or a name
/// that an earlier one repeats.
pub open spec fn names_problem(names: Seq<Seq<char>>) -> Option<Seq<char>>
    decreases names.len(),
{
    if names.len() == 0 {
        None
    } else {
        match names_problem(names.drop_last()) {
            Some(m) => Some(m),
            None => {
                let n = names.last();
                if n.len() == 0 {
                    Some(unset_name_message())
                } else if names.drop_last().contains(n) {
                    Some(duplicate_name_message(n))
                } else {
                    None
                }
            },
        }
    }
}

/// The names of some people.
pub open spec fn names_of(people: Seq<Person>) -> Seq<Seq<char>> {
    people.map_values(|p: Person| p.name@)
}

fn contains_name(names: &Vec<String>, name: &str) -> (r: bool)
    ensures
        r == names.deep_view().contains(name@),
{
    let mut i: usize = 0;
    while i < names.len()
        invariant
            i <= names.len(),
            forall|j: int| 0 <= j < i ==> names.deep_view()[j] != name@,
        decreases names.len() - i,
    {
        assert(names.deep_view()[i as int] == names[i as int]@);
        if str_eq(names[i].as_str(), name) {
            return true;
        }
        i = i + 1;
    }
    false
}

/// Checks the people of an image before saving: every name must be set and
/// no name may appear twice. The first problem found is reported.
pub fn validate_people(people: &Vec<Person>) -> (r: Result<(), String>)
    ensures
        names_problem(names_of(people@)) is None ==> r is Ok,
        names_problem(names_of(people@)) matches Some(m) ==> (r matches Err(e) && e@ == m),
{
    let ghost all = names_of(people@);
    let mut names: Vec<String> = Vec::new();
    let mut i: usize = 0;
    while i < people.len()
        invariant
            all == names_of(people@),
            i <= people.len(),
            names.deep_view() =~= all.take(i as int),
            names_problem(all.take(i as int)) is None,
        decreases people.len() - i,
    {
        let ghost prefix = all.take(i as int);
        assert(all.take(i + 1).drop_last() =~= prefix);
        assert(all.take(i + 1).last() == people[i as int].name@);
        let name = &people[i].name;
        if name.as_str().unicode_len() > 0 {
            if contains_name(&names, name.as_str()) {
                let mut m = String::from_str("Names must be unique, but ");
                m.append(name.as_str());
                m.append(" appears at least twice");
                proof { lemma_problem_persists(all, i as int + 1); }
                return Err(m);
            }
            let ghost before = names.deep_view();
            names.push(name.clone());
            assert(names.deep_view() =~= before.push(name@));
        } else {
            proof { lemma_problem_persists(all, i as int + 1); }
            return Err(String::from_str("All names must be set. Remove unneeded fields."));
        }
        i = i + 1;
    }
    assert(all.take(people.len() as int) =~= all);
    Ok(())
}

proof fn lemma_problem_persists(names: Seq<Seq<char>>, k: int)
    requires
        0 <= k <= names.len(),
        names_problem(names.take(k)) is Some,
    ensures
        names_problem(names) == names_problem(names.take(k)),
    decreases names.len() - k,
{
    if k < names.len() {
        assert(names.take(k + 1).drop_last() =~= names.take(k));
        lemma_problem_persists(names, k + 1);
    } else {
        assert(names.take(k) =~= names);
    }
}

/// Names pass the check exactly when all are set and none appears twice.
pub proof fn law_names_valid_iff_set_and_distinct(names: Seq<Seq<char>>)
    ensures
        names_problem(names) is None <==> (
            (forall|i: int| 0 <= i < names.len() ==> (#[trigger] names[i]).len() > 0)
            && names.no_duplicates()
        ),
    decreases names.len(),
{
    if names.len() > 0 {
        let init = names.drop_last();
        law_names_valid_iff_set_and_distinct(init);
        if names_problem(names) is None {
            assert forall|i: int| 0 <= i < names.len() implies (#[trigger] names[i]).len() > 0 by {
                if i < init.len() {
                    assert(names[i] == init[i]);
                }
            }
            assert forall|i: int, j: int| 0 <= i < names.len() && 0 <= j < names.len() && i != j
                implies names[i] != names[j] by {
                if i < init.len() && j < init.len() {
                    assert(names[i] == init[i] && names[j] == init[j]);
                } else if i == names.len() - 1 {
                    assert(names[j] == init[j]);
                    assert(!init.contains(names.last()));
                } else {
                    assert(names[i] == init[i]);
                    assert(!init.contains(names.last()));
                }
            }
        } else {
            if names_problem(init) is None {
                if names.last().len() == 0 {
                    assert(names[names.len() - 1].len() == 0);
                } else {
                    let k = choose|k: int| 0 <= k < init.len() && init[k] == names.last();
                    assert(names[k] == names[names.len() - 1]);
                }
            } else {
                if !(forall|i: int| 0 <= i < init.len() ==> (#[trigger] init[i]).len() > 0) {
                    let i = choose|i: int| 0 <= i < init.len() && !((#[trigger] init[i]).len() > 0);
                    assert(names[i] == init[i]);
                } else {
                    let (i, j) = choose|i: int, j: int| 0 <= i < init.len() && 0 <= j < init.len() && i != j
                        && init[i] == init[j];
                    assert(names[i] == init[i] && names[j] == init[j]);
                }
            }
        }
    }
}

/// The index of the first person with id `id`.
pub open spec fn first_with_id(people: Seq<Person>, id: i64) -> int
    decreases people.len(),
{
    if people.len() == 0 {
        0
    } else if people[0].id == id {
        0
    } else {
        1 + first_with_id(people.drop_first(), id)
    }
}

/// The people to add: those with a negative (not yet stored) id, in order.
pub open spec fn people_to_add(people: Seq<Person>) -> Seq<Person>
    decreases people.len(),
{
    if people.len() == 0 {
        Seq::empty()
    } else {
        let rest = people_to_add(people.drop_last());
        if people.last().id < 0 { rest.push(people.last()) } else { rest }
    }
}

/// The people to rename: stored ones whose name differs from that of the
/// first original person with the same id, each with its id.
pub open spec fn people_to_change(people: Seq<Person>, original: Seq<Person>) -> Seq<(i64, Person)>
    decreases people.len(),
{
    if people.len() == 0 {
        Seq::empty()
    } else {
        let rest = people_to_change(people.drop_last(), original);
        let p = people.last();
        if p.id >= 0 && p.name@ != original[first_with_id(original, p.id)].name@ {
            rest.push((p.id, p))
        } else {
            rest
        }
    }
}

fn find_first_with_id(original: &Vec<Person>, id: i64) -> (r: usize)
    requires
        exists|j: int| 0 <= j < original.len() && original[j].id == id,
    ensures
        r == first_with_id(original@, id),
        r < original.len(),
{
    let mut k: usize = 0;
    assert(original@.subrange(0, original.len() as int) =~= original@);
    while k < original.len()
        invariant
            k <= original.len(),
            exists|j: int| k <= j < original.len() && original[j].id == id,
            first_with_id(original@, id) == k + first_with_id(original@.subrange(k as int, original.len() as int), id),
        decreases original.len() - k,
    {
        let ghost tail = original@.subrange(k as int, original.len() as int);
        if original[k].id == id {
            assert(tail[0] == original[k as int]);
            return k;
        }
        assert(tail[0] == original[k as int]);
        assert(tail.drop_first() =~= original@.subrange(k + 1, original.len() as int));
        k = k + 1;
    }
    k
}

/// Splits the edited people of an image into those to add (new ones, with a
/// negative id) and those to rename (stored ones whose name changed), as the
/// save of the edit dialog does. Every stored person must be among the originals.
pub fn people_changes(people: &Vec<Person>, original: &Vec<Person>) -> (r: (Vec<Person>, Vec<(i64, Person)>))
    requires
        forall|i: int| 0 <= i < people.len() && people[i].id >= 0 ==> exists|j: int|
            0 <= j < original.len() && (#[trigger] original[j]).id == people[i].id,
    ensures
        r.0@ == people_to_add(people@),
        r.1@ == people_to_change(people@, original@),
{
    let mut add: Vec<Person> = Vec::new();
    let mut change: Vec<(i64, Person)> = Vec::new();
    let mut i: usize = 0;
    while i < people.len()
        invariant
            i <= people.len(),
            forall|i: int| 0 <= i < people.len() && people[i].id >= 0 ==> exists|j: int|
                0 <= j < original.len() && (#[trigger] original[j]).id == people[i].id,
            add@ == people_to_add(people@.take(i as int)),
            change@ == people_to_change(people@.take(i as int), original@),
        decreases people.len() - i,
    {
        assert(people@.take(i + 1).drop_last() =~= people@.take(i as int));
        assert(people@.take(i + 1).last() == people[i as int]);
        let person = &people[i];
        if person.id < 0 {
            add.push(person.duplicate());
        } else {
            let k = find_first_with_id(original, person.id);
            if !str_eq(person.name.as_str(), original[k].name.as_str()) {
                change.push((person.id, person.duplicate()));
            }
        }
        i = i + 1;
    }
    assert(people@.take(people.len() as int) =~= people@);
    (add, change)
}

/// The people left after removing those with id `id`, in order.
pub open spec fn people_without(people: Seq<Person>, id: i64) -> Seq<Person>
    decreases people.len(),
{
    if people.len() == 0 {
        Seq::empty()
    } else {
        let rest = people_without(people.drop_last(), id);
        if people.last().id != id { rest.push(people.last()) } else { rest }
    }
}

/// The ids that removing the people with id `id` puts on the delete list: the
/// id once per person removed, and only for a stored person (id above 0).
pub open spec fn removed_ids(people: Seq<Person>, id: i64) -> Seq<i64>
    decreases people.len(),
{
    if people.len() == 0 {
        Seq::empty()
    } else {
        let rest = removed_ids(people.drop_last(), id);
        if people.last().id == id && id > 0 { rest.push(id) } else { rest }
    }
}

/// Removes the people with id `id` from the edited list, as the remove button
/// of the people editor does: the people left, and the ids to add to the
/// delete list (those of removed stored people).
pub fn removal_of(people: &Vec<Person>, id: i64) -> (r: (Vec<Person>, Vec<i64>))
    ensures
        r.0@ == people_without(people@, id),
        r.1@ == removed_ids(people@, id),
{
    let mut remaining: Vec<Person> = Vec::new();
    let mut deleted: Vec<i64> = Vec::new();
    let mut i: usize = 0;
    while i < people.len()
        invariant
            i <= people.len(),
            remaining@ == people_without(people@.take(i as int), id),
            deleted@ == removed_ids(people@.take(i as int), id),
        decreases people.len() - i,
    {
        assert(people@.take(i + 1).drop_last() =~= people@.take(i as int));
        assert(people@.take(i + 1).last() == people[i as int]);
        let p = &people[i];
        if p.id == id {
            if p.id > 0 {
                deleted.push(p.id);
            }
        } else {
            remaining.push(p.duplicate());
        }
        i = i + 1;
    }
    assert(people@.take(people.len() as int) =~= people@);
    (remaining, deleted)
}

/// What saving the people editor does.
pub enum PeopleSave {
    /// Nothing was changed: the dialog closes.
    Close,
    /// The names are refused, with the message shown.
    Refused(String),
    /// The people to add and those to rename are sent.
    Save(Vec<Person>, Vec<(i64, Person)>),
}

/// Decides what saving the people editor does: close when nothing changed,
/// refuse names that are empty or given twice, else send the people to add
/// and to rename. When the changes are sent, every stored person must be
/// among the originals.
pub fn people_save_step(changed: bool, people: &Vec<Person>, original: &Vec<Person>) -> (r: PeopleSave)
    requires
        changed && names_problem(names_of(people@)) is None ==> forall|i: int| 0 <= i < people.len()
            && people[i].id >= 0 ==> exists|j: int| 0 <= j < original.len() && (#[trigger] original[j]).id
            == people[i].id,
    ensures
        !changed ==> r is Close,
        changed && names_problem(names_of(people@)) is Some ==> (r matches PeopleSave::Refused(m)
            && Some(m@) == names_problem(names_of(people@))),
        changed && names_problem(names_of(people@)) is None ==> (r matches PeopleSave::Save(a, c)
            && a@ == people_to_add(people@) && c@ == people_to_change(people@, original@)),
{
    if !changed {
        return PeopleSave::Close;
    }
    match validate_people(people) {
        Err(m) => PeopleSave::Refused(m),
        Ok(()) => {
            let (add, change) = people_changes(people, original);
            PeopleSave::Save(add, change)
        },
    }
}

/// The statement that unlinks people from a file: one placeholder per person.
pub open spec fn unlink_people_query(n: nat) -> Seq<char> {
    "DELETE FROM userFile WHERE fileID=? and userID IN ("@ + placeholders(n) + ");"@
}

/// Writes the statement that unlinks `n` people from a file.
pub fn unlink_people_statement(n: usize) -> (r: String)
    ensures
        r@ == unlink_people_query(n as nat),
{
    let mut q = String::from_str("DELETE FROM userFile WHERE fileID=? and userID IN (");
    let ph = placeholder_list(n);
    q.append(ph.as_str());
    q.append(");");
    q
}

/// Whether an edited person renames a stored one: the person is stored (id 0
/// or more) and their name differs from that of the original with their id.
pub open spec fn renames_stored(p: Person, original: Seq<Person>) -> bool {
    p.id >= 0 && p.name@ != original[first_with_id(original, p.id)].name@
}

/// Saving an edit renames every stored person whose name changed, and only
/// those: the renamings are exactly the renamed people, in their order, each
/// with its id.
pub proof fn law_every_renaming_is_kept(people: Seq<Person>, original: Seq<Person>)
    ensures
        people_to_change(people, original) == people.filter(|p: Person| renames_stored(p, original)).map_values(
            |p: Person| (p.id, p),
        ),
    decreases people.len(),
{
    let pred = |p: Person| renames_stored(p, original);
    let f = |p: Person| (p.id, p);
    if people.len() == 0 {
        reveal(Seq::filter);
        assert(people.filter(pred) =~= Seq::<Person>::empty());
        assert(people.filter(pred).map_values(f) =~= Seq::<(i64, Person)>::empty());
    } else {
        let init = people.drop_last();
        law_every_renaming_is_kept(init, original);
        assert(people =~= init.push(people.last()));
        init.lemma_filter_push(people.last(), pred);
        if pred(people.last()) {
            assert(init.filter(pred).push(people.last()).map_values(f) =~= init.filter(pred).map_values(f).push(
                f(people.last()),
            ));
        }
    }
}

/// Saving an edit adds exactly the new people (negative ids), in their order.
pub proof fn law_every_new_person_is_added(people: Seq<Person>)
    ensures
        people_to_add(people) == people.filter(|p: Person| p.id < 0),
    decreases people.len(),
{
    let pred = |p: Person| p.id < 0;
    if people.len() == 0 {
        reveal(Seq::filter);
        assert(people.filter(pred) =~= Seq::<Person>::empty());
    } else {
        let init = people.drop_last();
        law_every_new_person_is_added(init);
        assert(people =~= init.push(people.last()));
        init.lemma_filter_push(people.last(), pred);
    }
}

/// The value of an ASCII digit.
pub open spec fn digit_value(c: char) -> int {
    c as int - '0' as int
}

/// For a text of four digits, `-`, two digits, `-`, two digits, the date
/// check accepts exactly a month from 1 to 12 and a day from 1 to 31.
pub proof fn law_date_check_is_month_and_day_range(s: Seq<char>)
    requires
        s.len() == 10,
        ascii_digit(s[0]) && ascii_digit(s[1]) && ascii_digit(s[2]) && ascii_digit(s[3]),
        s[4] == '-' && s[7] == '-',
        ascii_digit(s[5]) && ascii_digit(s[6]) && ascii_digit(s[8]) && ascii_digit(s[9]),
    ensures
        yyyy_mm_dd(s) <==> (1 <= 10 * digit_value(s[5]) + digit_value(s[6]) <= 12
            && 1 <= 10 * digit_value(s[8]) + digit_value(s[9]) <= 31),
{
}

} // verus!

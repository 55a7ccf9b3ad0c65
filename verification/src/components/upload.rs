use vstd::prelude::*;
use vstd::string::*;
use crate::encoding::{base64_bytes, base64_decode, base64_encode, base64_len, base64_text};
use crate::imaging::{gray_of, gray_pixels, webp_crop, webp_image, webp_region, webp_whole};
use crate::random::{new_uuid_text, random_below, uuid_text};
use crate::text::{decimal, u64_to_decimal, usize_to_decimal};

verus! {

/// Files to upload: each a file name and its bytes.
#[derive(Debug, Clone)]
pub struct MediaPayload {
    pub data: Vec<(String, Vec<u8>)>,
}

/// A rectangle in an image: its top-left corner and its size, in pixels.
#[derive(Debug, Clone, Copy, PartialEq, Eq, Structural)]
pub struct Bbox {
    pub x: u32,
    pub y: u32,
    pub w: u32,
    pub h: u32,
}

impl Bbox {
    /// The box of a detected face from its corner (which the detector gives as
    /// signed values, converted as `as u32` does) and its size.
    pub fn rect(x: i32, y: i32, width: u32, height: u32) -> (r: Bbox)
        ensures
            r.x == x as u32,
            r.y == y as u32,
            r.w == width,
            r.h == height,
    {
        Bbox { x: x as u32, y: y as u32, w: width, h: height }
    }
}

/// A person shown in an image: a name, an id, and where the face is, if known.
#[derive(Debug, Clone)]
pub struct Person {
    pub bounds: Option<Bbox>,
    pub name: String,
    pub id: i64,
}

impl Person {
    /// An identical copy of the person.
    pub fn duplicate(&self) -> (r: Person)
        ensures
            r == *self,
    {
        Person { bounds: self.bounds, name: self.name.clone(), id: self.id }
    }
}

/// The padding around a face at `(x, y)`: `padding`, unless the face is
/// nearer than that to the left or top edge, in which case the nearer of the
/// two distances.
pub open spec fn padding_for(x: int, y: int, padding: int) -> int {
    if x - padding >= 0 && y - padding >= 0 {
        padding
    } else if x - padding < y - padding {
        x
    } else {
        y
    }
}

/// The padding around a face: `padding`, unless the face is nearer than that
/// to the left or top edge, in which case the nearer of the two distances.
pub fn find_padding(x: i32, y: i32, padding: i32) -> (r: i32)
    requires
        i32::MIN <= x - padding <= i32::MAX,
        i32::MIN <= y - padding <= i32::MAX,
    ensures
        r == padding_for(x as int, y as int, padding as int),
{
    let x1 = x - padding;
    let y1 = y - padding;

    if x1 >= 0 && y1 >= 0 {
        return padding;
    }
    // Whichever is the smallest,
    // "add" that (negative values, so it will subtract)
    if x1 < y1 {
        return padding + x1;
    } else {
        return padding + y1;
    }
}

/// The padding that the face crops use.
pub open spec fn face_padding() -> int {
    25
}

/// The region cut out around a face: the box grown by the padding on each
/// side, as left, top, width and height.
pub open spec fn face_crop_spec(b: Bbox) -> (int, int, int, int) {
    let p = padding_for(b.x as int, b.y as int, face_padding());
    (b.x - p, b.y - p, b.w + 2 * p, b.h + 2 * p)
}

/// The region to cut out of an image to show a face: its box with a margin of
/// 25 pixels, less where the face is nearer the left or top edge.
pub fn face_crop(b: Bbox) -> (r: (u32, u32, u32, u32))
    requires
        b.x <= i32::MAX,
        b.y <= i32::MAX,
        face_crop_spec(b).2 <= u32::MAX,
        face_crop_spec(b).3 <= u32::MAX,
    ensures
        (r.0 as int, r.1 as int, r.2 as int, r.3 as int) == face_crop_spec(b),
{
    let padding = find_padding(b.x as i32, b.y as i32, 25) as u32;
    (b.x - padding, b.y - padding, b.w + padding * 2, b.h + padding * 2)
}

/// An image as 8-bit gray pixels, row by row, as the face detector reads it.
pub struct GrayImage {
    pub width: u32,
    pub height: u32,
    pub pixels: Vec<u8>,
}

/// Decodes an image file into gray pixels for the face detector, or `None`
/// where the file cannot be decoded.
pub fn gray_image(image: &[u8]) -> (r: Option<GrayImage>)
    ensures
        r is Some <==> gray_of(image@) is Some,
        r matches Some(g) ==> gray_of(image@) == Some((g.width, g.height, g.pixels@)),
{
    match gray_pixels(image) {
        Some((width, height, pixels)) => Some(GrayImage { width, height, pixels }),
        None => None,
    }
}

/// The WebP file of a face with its margin, cut out of an image file as
/// `face_crop` gives the region, or `None` where that fails.
pub fn face_webp(image: &[u8], b: Bbox) -> (r: Option<Vec<u8>>)
    requires
        b.x <= i32::MAX,
        b.y <= i32::MAX,
        face_crop_spec(b).2 <= u32::MAX,
        face_crop_spec(b).3 <= u32::MAX,
    ensures
        ({
            let c = face_crop_spec(b);
            let w = webp_region(image@, c.0 as u32, c.1 as u32, c.2 as u32, c.3 as u32);
            &&& r is Some <==> w is Some
            &&& r matches Some(v) ==> w == Some(v@)
        }),
{
    let (x, y, w, h) = face_crop(b);
    webp_crop(image, x, y, w, h)
}

/// The WebP file of a whole image file, or `None` where that fails.
pub fn whole_webp(image: &[u8]) -> (r: Option<Vec<u8>>)
    ensures
        r is Some <==> webp_image(image@) is Some,
        r matches Some(v) ==> webp_image(image@) == Some(v@),
{
    webp_whole(image)
}

/// The WebP picture of a person that the image view shows: the face with its
/// margin where it is located, else the whole image.
pub open spec fn person_webp(image: Seq<u8>, bounds: Option<Bbox>) -> Option<Seq<u8>> {
    match bounds {
        Some(b) => {
            let c = face_crop_spec(b);
            webp_region(image, c.0 as u32, c.1 as u32, c.2 as u32, c.3 as u32)
        },
        None => webp_image(image),
    }
}

/// Whether a face box leaves room for its margin in `u32` coordinates.
pub open spec fn croppable(b: Bbox) -> bool {
    &&& b.x <= i32::MAX
    &&& b.y <= i32::MAX
    &&& face_crop_spec(b).2 <= u32::MAX
    &&& face_crop_spec(b).3 <= u32::MAX
}

/// The Base64 text of a person's WebP picture in an image file, as the image
/// view embeds it: `None` where the picture cannot be made, or where its
/// Base64 text would not fit in memory.
pub fn img_from_bounds(image: &[u8], bounds: Option<Bbox>) -> (r: Option<String>)
    requires
        bounds matches Some(b) ==> croppable(b),
    ensures
        person_webp(image@, bounds) is None ==> r is None,
        person_webp(image@, bounds) matches Some(w) ==> (if base64_len(w.len()) <= usize::MAX {
            r matches Some(t) && t@ == base64_text(w)
        } else {
            r is None
        }),
{
    let webp = match bounds {
        Some(b) => face_webp(image, b),
        None => whole_webp(image),
    };
    match webp {
        Some(w) => {
            let n = w.len();
            let q = n / 3;
            let extra: usize = if n % 3 > 0 { 4 } else { 0 };
            let limit = (usize::MAX - extra) / 4;
            assert(base64_len(n as nat) == q * 4 + extra);
            if q <= limit {
                assert(q * 4 + extra <= usize::MAX) by (nonlinear_arith)
                    requires
                        q <= limit,
                        limit == (usize::MAX - extra) / 4,
                        extra <= 4,
                ;
                Some(base64_encode(w.as_slice()))
            } else {
                assert(q * 4 + extra > usize::MAX) by (nonlinear_arith)
                    requires
                        q > limit,
                        limit == (usize::MAX - extra) / 4,
                        extra <= 4,
                ;
                None
            }
        },
        None => None,
    }
}

/// The extension of a file name: what follows its last `.`, or nothing if it
/// holds no `.`.
pub fn extract_ext(filename: String) -> (r: Option<String>)
    ensures
        r is Some <==> filename@.contains('.'),
        r matches Some(e) ==> exists|k: int| 0 <= k < filename@.len() && filename@[k] == '.'
            && (forall|j: int| k < j < filename@.len() ==> filename@[j] != '.')
            && e@ == filename@.subrange(k + 1, filename@.len() as int),
{
    let s = filename.as_str();
    let n = s.unicode_len();
    let mut i: usize = n;
    while i > 0 && s.get_char(i - 1) != '.'
        invariant
            n == s@.len(),
            s@ == filename@,
            i <= n,
            forall|j: int| i <= j < n ==> s@[j] != '.',
        decreases i,
    {
        i = i - 1;
    }
    if i == 0 {
        assert(!filename@.contains('.')) by {
            if filename@.contains('.') {
                let k = choose|k: int| 0 <= k < filename@.len() && filename@[k] == '.';
                assert(s@[k] != '.');
            }
        }
        None
    } else {
        assert(filename@[i - 1] == '.');
        Some(String::from_str(s.substring_char(i, n)))
    }
}

/// The path under which an upload is stored: `./album/<id>.<extension>`.
pub fn album_path(id: &str, ext: &str) -> (r: String)
    ensures
        r@ == "./album/"@ + id@ + "."@ + ext@,
{
    let mut r = String::from_str("./album/");
    r.append(id);
    r.append(".");
    r.append(ext);
    r
}

/// One person per detected face, unnamed, numbered from 0 in the order of the faces.
pub fn people_from_faces(faces: &Vec<Bbox>) -> (r: Vec<Person>)
    requires
        faces.len() <= i64::MAX,
    ensures
        r.len() == faces.len(),
        forall|i: int| 0 <= i < faces.len() ==> (#[trigger] r[i]).name@ == ""@ && r[i].id == i
            && r[i].bounds == Some(faces[i]),
{
    let mut r: Vec<Person> = Vec::new();
    let mut i: usize = 0;
    while i < faces.len()
        invariant
            faces.len() <= i64::MAX,
            i <= faces.len(),
            r.len() == i,
            forall|k: int| 0 <= k < i ==> (#[trigger] r[k]).name@ == ""@ && r[k].id == k
                && r[k].bounds == Some(faces[k]),
        decreases faces.len() - i,
    {
        r.push(Person { name: String::from_str(""), id: i as i64, bounds: Some(faces[i]) });
        i = i + 1;
    }
    r
}

/// The people that are stored with an image: those with a name, in order
/// (people left unnamed are skipped).
pub open spec fn named_only(people: Seq<Person>) -> Seq<Person>
    decreases people.len(),
{
    if people.len() == 0 {
        Seq::empty()
    } else {
        let rest = named_only(people.drop_last());
        if people.last().name@.len() > 0 { rest.push(people.last()) } else { rest }
    }
}

/// Keeps the people with a name, in order.
pub fn named_people(people: Vec<Person>) -> (r: Vec<Person>)
    ensures
        r@ == named_only(people@),
{
    let mut r: Vec<Person> = Vec::new();
    let mut i: usize = 0;
    while i < people.len()
        invariant
            i <= people.len(),
            r@ == named_only(people@.take(i as int)),
        decreases people.len() - i,
    {
        assert(people@.take(i + 1).drop_last() =~= people@.take(i as int));
        assert(people@.take(i + 1).last() == people[i as int]);
        if people[i].name.as_str().unicode_len() > 0 {
            r.push(people[i].duplicate());
        }
        i = i + 1;
    }
    assert(people@.take(people.len() as int) =~= people@);
    r
}

/// The renamings that are stored: those whose new name is set, in order.
pub open spec fn named_renamings(changes: Seq<(i64, Person)>) -> Seq<(i64, Person)>
    decreases changes.len(),
{
    if changes.len() == 0 {
        Seq::empty()
    } else {
        let rest = named_renamings(changes.drop_last());
        if changes.last().1.name@.len() > 0 { rest.push(changes.last()) } else { rest }
    }
}

/// Keeps the renamings whose new name is set, in order.
pub fn named_changes(changes: Vec<(i64, Person)>) -> (r: Vec<(i64, Person)>)
    ensures
        r@ == named_renamings(changes@),
{
    let mut r: Vec<(i64, Person)> = Vec::new();
    let mut i: usize = 0;
    while i < changes.len()
        invariant
            i <= changes.len(),
            r@ == named_renamings(changes@.take(i as int)),
        decreases changes.len() - i,
    {
        assert(changes@.take(i + 1).drop_last() =~= changes@.take(i as int));
        assert(changes@.take(i + 1).last() == changes[i as int]);
        if changes[i].1.name.as_str().unicode_len() > 0 {
            r.push((changes[i].0, changes[i].1.duplicate()));
        }
        i = i + 1;
    }
    assert(changes@.take(changes.len() as int) =~= changes@);
    r
}

/// The values bound for a person's face box: its four coordinates, or four
/// nulls when the face is not located.
pub fn bounds_binds(bounds: Option<Bbox>) -> (r: Vec<Option<u32>>)
    ensures
        r@ == match bounds {
            Some(b) => seq![Some(b.x), Some(b.y), Some(b.w), Some(b.h)],
            None => seq![None::<u32>, None, None, None],
        },
{
    let mut r = Vec::new();
    match bounds {
        Some(b) => {
            r.push(Some(b.x));
            r.push(Some(b.y));
            r.push(Some(b.w));
            r.push(Some(b.h));
        },
        None => {
            r.push(None);
            r.push(None);
            r.push(None);
            r.push(None);
        },
    }
    assert(r@ =~= match bounds {
        Some(b) => seq![Some(b.x), Some(b.y), Some(b.w), Some(b.h)],
        None => seq![None::<u32>, None, None, None],
    });
    r
}

/// `s` with every space replaced by `-`.
pub open spec fn dashed(s: Seq<char>) -> Seq<char> {
    s.map_values(|c: char| if c == ' ' { '-' } else { c })
}

/// The tag stored for an entered one: nothing for an empty tag, else the tag
/// with spaces replaced by `-`, since tags hold no spaces.
pub fn upload_tag(tag: &str) -> (r: Option<String>)
    ensures
        tag@.len() == 0 ==> r is None,
        tag@.len() > 0 ==> (r matches Some(t) && t@ == dashed(tag@)),
{
    let n = tag.unicode_len();
    if n == 0 {
        return None;
    }
    let mut r = String::new();
    let mut start: usize = 0;
    let mut i: usize = 0;
    proof { reveal_strlit("-"); }
    while i < n
        invariant
            n == tag@.len(),
            start <= i <= n,
            r@ + tag@.subrange(start as int, i as int) =~= dashed(tag@.subrange(0, i as int)),
            forall|j: int| start <= j < i ==> tag@[j] != ' ',
        decreases n - i,
    {
        let c = tag.get_char(i);
        let ghost before = r@;
        let ghost st = start;
        assert(dashed(tag@.subrange(0, i + 1)) =~= dashed(tag@.subrange(0, i as int)).push(
            if c == ' ' { '-' } else { c },
        ));
        if c == ' ' {
            proof { reveal_strlit("-"); }
            r.append(tag.substring_char(start, i));
            r.append("-");
            start = i + 1;
            assert(r@ + tag@.subrange(start as int, i + 1) =~= before + tag@.subrange(st as int, i as int) + seq!['-']);
        } else {
            assert(tag@.subrange(start as int, i + 1) =~= tag@.subrange(start as int, i as int).push(c));
        }
        i = i + 1;
    }
    r.append(tag.substring_char(start, n));
    assert(tag@.subrange(0, n as int) =~= tag@);
    Some(r)
}

/// `n` in decimal with at least two digits, as `{:02}` writes it.
pub open spec fn two_digits(n: nat) -> Seq<char> {
    if n < 10 { seq!['0'] + decimal(n) } else { decimal(n) }
}

/// The text `year-mm-dd` of a date.
pub open spec fn date_text(year: nat, month: nat, day: nat) -> Seq<char> {
    decimal(year) + "-"@ + two_digits(month) + "-"@ + two_digits(day)
}

/// A date written `year-mm-dd`, as `format!("{}-{:02}-{:02}", ..)` writes it.
pub fn date_string(year: u32, month: u32, day: u32) -> (r: String)
    ensures
        r@ == date_text(year as nat, month as nat, day as nat),
{
    proof { reveal_strlit("0"); }
    let mut r = u64_to_decimal(year as u64);
    r.append("-");
    if month < 10 {
        r.append("0");
    }
    let m = u64_to_decimal(month as u64);
    r.append(m.as_str());
    r.append("-");
    if day < 10 {
        r.append("0");
    }
    let d = u64_to_decimal(day as u64);
    r.append(d.as_str());
    r
}

/// The creation date given to an upload: a random day (1 to 28) of a random
/// month of a random year from 2010 to 2022.
pub fn random_created_date() -> (r: String)
    ensures
        exists|y: nat, m: nat, d: nat| 2010 <= y < 2023 && 1 <= m < 13 && 1 <= d < 29
            && r@ == #[trigger] date_text(y, m, d),
{
    let year = random_below(2010, 2023);
    let month = random_below(1, 13);
    let day = random_below(1, 29);
    let r = date_string(year, month, day);
    assert(r@ == date_text(year as nat, month as nat, day as nat));
    r
}

/// A new id for an upload and the path that the file is stored under.
pub fn new_upload_location(ext: &str) -> (r: (String, String))
    ensures
        uuid_text(r.0@),
        r.1@ == "./album/"@ + r.0@ + "."@ + ext@,
{
    let id = new_uuid_text();
    let path = album_path(id.as_str(), ext);
    (id, path)
}

/// The progress line of the upload dialog, from the number of files chosen,
/// the number uploaded and the number read.
pub open spec fn upload_status_text(count: u32, done: usize, ready: usize) -> Seq<char> {
    if count == 0 {
        Seq::empty()
    } else if done == 0 {
        decimal(ready as nat) + " / "@ + decimal(count as nat) + " files ready to be uploaded"@
    } else if done < count {
        decimal(done as nat) + " / "@ + decimal(count as nat) + " files uploaded"@
    } else {
        "The files have been successfully uploaded"@
    }
}

/// Writes the progress line of the upload dialog.
pub fn upload_status(count: u32, done: usize, ready: usize) -> (r: String)
    ensures
        r@ == upload_status_text(count, done, ready),
{
    if count == 0 {
        proof { reveal_strlit(""); }
        return String::from_str("");
    }
    if done == 0 {
        let mut r = usize_to_decimal(ready);
        r.append(" / ");
        let c = u64_to_decimal(count as u64);
        r.append(c.as_str());
        r.append(" files ready to be uploaded");
        r
    } else if done < count as usize {
        let mut r = usize_to_decimal(done);
        r.append(" / ");
        let c = u64_to_decimal(count as u64);
        r.append(c.as_str());
        r.append(" files uploaded");
        r
    } else {
        String::from_str("The files have been successfully uploaded")
    }
}

/// The index of the first `c` in `s`, or its length if there is none.
pub open spec fn first_index_of(s: Seq<char>, c: char) -> int
    decreases s.len(),
{
    if s.len() == 0 {
        0
    } else if s[0] == c {
        0
    } else {
        1 + first_index_of(s.drop_first(), c)
    }
}

/// `first_index_of` is a position in `s` holding `c`, or the length of `s`,
/// and no `c` comes before it.
pub proof fn lemma_first_index_bound(s: Seq<char>, c: char)
    ensures
        0 <= first_index_of(s, c) <= s.len(),
        first_index_of(s, c) < s.len() ==> s[first_index_of(s, c)] == c,
        forall|j: int| 0 <= j < first_index_of(s, c) ==> s[j] != c,
    decreases s.len(),
{
    if s.len() > 0 && s[0] != c {
        lemma_first_index_bound(s.drop_first(), c);
        assert forall|j: int| 0 <= j < first_index_of(s, c) implies s[j] != c by {
            if j > 0 {
                assert(s[j] == s.drop_first()[j - 1]);
            }
        }
    }
}

/// The index of the first `c` in `s` from `from` on, or the length of `s`.
pub fn find_char(s: &str, c: char, from: usize) -> (r: usize)
    requires
        from <= s@.len(),
    ensures
        r == from + first_index_of(s@.subrange(from as int, s@.len() as int), c),
{
    let n = s.unicode_len();
    let mut i = from;
    assert(s@.subrange(from as int, n as int).subrange(0, 0) =~= Seq::<char>::empty());
    while i < n && s.get_char(i) != c
        invariant
            n == s@.len(),
            from <= i <= n,
            first_index_of(s@.subrange(from as int, n as int), c)
                == (i - from) + first_index_of(s@.subrange(i as int, n as int), c),
        decreases n - i,
    {
        let ghost t = s@.subrange(i as int, n as int);
        assert(t[0] == s@[i as int]);
        assert(t.drop_first() =~= s@.subrange(i + 1, n as int));
        i = i + 1;
    }
    proof {
        let t = s@.subrange(i as int, n as int);
        if i < n {
            assert(t[0] == s@[i as int]);
        }
    }
    i
}

/// The second `:`-separated field of a text: what lies between its first
/// `:` and the next one (or the end).
pub open spec fn second_field(s: Seq<char>) -> Seq<char> {
    let i = first_index_of(s, ':');
    let rest = s.subrange(i + 1, s.len() as int);
    rest.subrange(0, first_index_of(rest, ':'))
}

/// The part of an error's text that the upload dialog shows: its second
/// `:`-separated field. The text must hold a `:`.
pub fn error_detail(message: &str) -> (r: String)
    requires
        message@.contains(':'),
    ensures
        r@ == second_field(message@),
{
    let n = message.unicode_len();
    proof {
        lemma_first_index_bound(message@, ':');
        assert(message@.subrange(0, n as int) =~= message@);
        if first_index_of(message@, ':') == n {
            let k = choose|k: int| 0 <= k < n && message@[k] == ':';
            assert(message@[k] != ':');
        }
    }
    let i = find_char(message, ':', 0);
    assert(message@.subrange(0, n as int) =~= message@);
    let j = find_char(message, ':', i + 1);
    proof {
        lemma_first_index_bound(message@.subrange(i + 1, n as int), ':');
    }
    String::from_str(message.substring_char(i + 1, j))
}

/// The first failure among some outcomes, or success if there is none.
pub open spec fn first_failure_of<E>(outcomes: Seq<Result<(), E>>) -> Result<(), E>
    decreases outcomes.len(),
{
    if outcomes.len() == 0 {
        Ok(())
    } else {
        match outcomes[0] {
            Err(e) => Err(e),
            Ok(()) => first_failure_of(outcomes.drop_first()),
        }
    }
}

/// The outcome of uploading several files: the first failure, if any.
pub fn first_failure<E>(outcomes: Vec<Result<(), E>>) -> (r: Result<(), E>)
    ensures
        r == first_failure_of(outcomes@),
{
    let mut results = outcomes;
    let ghost all = outcomes@;
    while results.len() > 0
        invariant
            all == outcomes@,
            first_failure_of(all) == first_failure_of(results@),
        decreases results.len(),
    {
        let ghost rest = results@;
        let first = results.remove(0);
        assert(first == rest[0]);
        assert(results@ =~= rest.drop_first());
        match first {
            Err(e) => {
                assert(rest[0] == Err::<(), E>(e));
                assert(first_failure_of(rest) == Err::<(), E>(e));
                return Err(e);
            },
            Ok(()) => {},
        }
    }
    Ok(())
}

/// The message for an upload without files.
pub open spec fn no_files_message() -> Seq<char> {
    "No files to upload"@
}

/// The outcome of uploading a batch of files: an error when there were no
/// files, else the first failure, if any.
pub fn upload_batch_outcome(outcomes: Vec<Result<(), String>>) -> (r: Result<(), String>)
    ensures
        outcomes.len() == 0 ==> (r matches Err(m) && m@ == no_files_message()),
        outcomes.len() > 0 ==> r == first_failure_of(outcomes@),
{
    if outcomes.len() == 0 {
        return Err(String::from_str("No files to upload"));
    }
    first_failure(outcomes)
}

/// The bytes of an uploaded file from its Base64 text, or `None` if the text
/// is not valid standard Base64.
pub fn media_bytes(encoded: &str) -> (r: Option<Vec<u8>>)
    ensures
        r is Some <==> base64_bytes(encoded@) is Some,
        r matches Some(b) ==> base64_bytes(encoded@) == Some(b@),
{
    match base64_decode(encoded) {
        Ok(bytes) => Some(bytes),
        Err(_) => None,
    }
}

/// The Base64 text of a file's bytes, as it is sent for upload. Decoding it
/// with `media_bytes` gives the same bytes back, so an upload is stored byte
/// for byte.
pub fn media_text(bytes: &[u8]) -> (r: String)
    requires
        base64_len(bytes@.len()) <= usize::MAX,
    ensures
        r@ == base64_text(bytes@),
        base64_bytes(r@) == Some(bytes@),
{
    base64_encode(bytes)
}

/// Spaces are not allowed in tags: a stored tag holds none.
pub proof fn law_stored_tags_have_no_spaces(tag: Seq<char>)
    ensures
        !dashed(tag).contains(' '),
        dashed(tag).len() == tag.len(),
{
    if dashed(tag).contains(' ') {
        let i = choose|i: int| 0 <= i < dashed(tag).len() && dashed(tag)[i] == ' ';
        assert(dashed(tag)[i] == (if tag[i] == ' ' { '-' } else { tag[i] }));
    }
}

/// The padding around a face is the smallest of the wanted padding and the
/// face's distances to the left and top edges.
pub proof fn law_padding_is_smallest_distance(x: int, y: int, padding: int)
    ensures
        padding_for(x, y, padding) <= padding,
        padding_for(x, y, padding) <= x,
        padding_for(x, y, padding) <= y,
        padding_for(x, y, padding) == padding || padding_for(x, y, padding) == x
            || padding_for(x, y, padding) == y,
{
}

/// A file name with an extension is its stem, a `.`, and the extension, which
/// holds no `.` itself.
pub proof fn law_extension_is_last_part(filename: Seq<char>, k: int, ext: Seq<char>)
    requires
        0 <= k < filename.len(),
        filename[k] == '.',
        forall|j: int| k < j < filename.len() ==> filename[j] != '.',
        ext == filename.subrange(k + 1, filename.len() as int),
    ensures
        filename == filename.subrange(0, k) + seq!['.'] + ext,
        !ext.contains('.'),
{
    assert(filename =~= filename.subrange(0, k) + seq!['.'] + ext);
    if ext.contains('.') {
        let i = choose|i: int| 0 <= i < ext.len() && ext[i] == '.';
        assert(filename[k + 1 + i] == '.');
    }
}

} // verus!

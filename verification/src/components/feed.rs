use vstd::prelude::*;
use vstd::string::*;
use vstd::utf8::*;
use crate::encoding::{base64_encode, base64_len, base64_text};
use crate::image_filter::{
    build_filtered_query, filter_parts, opt_view, filtered_query, people_filter_view,
    prepare_filtered_query_with_pagination, tag_filter_view,
};
use crate::text::{decimal, str_eq};

verus! {

broadcast use vstd::utf8::encode_utf8_decode_utf8, vstd::utf8::encode_utf8_valid_utf8;

/// A file of the album as the feed lists it; `path` holds the image data once
/// the file has been read.
pub struct ImageDb {
    pub id: String,
    pub path: String,
    pub upload_date: String,
    pub created_date: String,
}

/// The creation date of the file just before the requested page.
pub struct PrevImageDb {
    pub created_date: String,
}

/// An entry of the feed: a year or month heading, or an image.
pub enum Element {
    String(String),
    ImageDb(ImageDb),
}

/// What an entry of the feed stands for: a heading's text, or the image.
pub enum ElementView {
    Heading(Seq<char>),
    Image(ImageDb),
}

impl View for Element {
    type V = ElementView;

    open spec fn view(&self) -> ElementView {
        match self {
            Element::String(s) => ElementView::Heading(s@),
            Element::ImageDb(i) => ElementView::Image(*i),
        }
    }
}

/// The entries of a feed, each by its view.
pub open spec fn elements_view(v: Seq<Element>) -> Seq<ElementView> {
    v.map_values(|e: Element| e@)
}

/// A date string whose UTF-8 bytes can be cut at 4, 5 and 7, as `&d[0..4]`
/// and `&d[5..7]` need.
pub open spec fn date_sliceable(d: Seq<char>) -> bool {
    let b = encode_utf8(d);
    &&& b.len() >= 7
    &&& is_char_boundary(b, 4)
    &&& is_char_boundary(b, 5)
    &&& is_char_boundary(b, 7)
}

/// The text of bytes 0 to 4 of a date: its year.
pub open spec fn year_of(d: Seq<char>) -> Seq<char> {
    decode_utf8(encode_utf8(d).subrange(0, 4))
}

/// The text of bytes 5 to 7 of a date: its month.
pub open spec fn month_of(d: Seq<char>) -> Seq<char> {
    decode_utf8(encode_utf8(d).subrange(5, 7))
}

/// The feed entries for `files`, given the year and month of the entry before
/// them: before each image its year where the year changes, and its month
/// where the year or the month changes.
pub open spec fn grouped(year: Seq<char>, month: Seq<char>, files: Seq<ImageDb>) -> Seq<ElementView>
    decreases files.len(),
{
    if files.len() == 0 {
        Seq::empty()
    } else {
        let f = files[0];
        let y = year_of(f.created_date@);
        let m = month_of(f.created_date@);
        let head = if m != month || y != year {
            (if y != year { seq![ElementView::Heading(y)] } else { Seq::empty() }) + seq![ElementView::Heading(m)]
        } else {
            Seq::empty()
        };
        head + seq![ElementView::Image(f)] + grouped(y, m, files.drop_first())
    }
}

/// The year a feed page continues from: that of the previous file, or none.
pub open spec fn start_year(prev: Option<Seq<char>>) -> Seq<char> {
    match prev {
        Some(d) => year_of(d),
        None => Seq::empty(),
    }
}

/// The month a feed page continues from: that of the previous file, or none.
pub open spec fn start_month(prev: Option<Seq<char>>) -> Seq<char> {
    match prev {
        Some(d) => month_of(d),
        None => Seq::empty(),
    }
}

proof fn lemma_prefix_char_boundary(b: Seq<u8>, i: int, j: int)
    requires
        valid_utf8(b),
        is_char_boundary(b, i),
        is_char_boundary(b, j),
        0 <= i <= j,
    ensures
        valid_utf8(b.subrange(0, j)),
        is_char_boundary(b.subrange(0, j), i),
    decreases i,
{
    broadcast use vstd::utf8::valid_utf8_split;
    let q = b.subrange(0, j);
    assert(valid_utf8(q));
    if i > 0 {
        reveal_with_fuel(is_char_boundary, 2);
        let l = length_of_first_scalar(b);
        assert(b.len() > 0);
        assert(is_char_boundary(pop_first_scalar(b), i - l));
        assert(l <= i);
        assert(l <= j);
        assert(q[0] == b[0]);
        assert(length_of_first_scalar(q) == l);
        assert(pop_first_scalar(q) =~= pop_first_scalar(b).subrange(0, j - l));
        lemma_prefix_char_boundary(pop_first_scalar(b), i - l, j - l);
    }
}

/// Cuts the year (bytes 0 to 4) and the month (bytes 5 to 7) out of a date.
pub fn date_parts(d: &str) -> (r: (String, String))
    requires
        date_sliceable(d@),
    ensures
        r.0@ == year_of(d@),
        r.1@ == month_of(d@),
{
    let ghost b = d.spec_bytes();
    proof {
        lemma_prefix_char_boundary(b, 4, 7);
        lemma_prefix_char_boundary(b, 5, 7);
    }
    let (p, _) = d.split_at(7);
    assert(p.spec_bytes() =~= b.subrange(0, 7));
    let (y, _) = p.split_at(4);
    let (_, m) = p.split_at(5);
    assert(y.spec_bytes() =~= b.subrange(0, 4));
    assert(m.spec_bytes() =~= b.subrange(5, 7));
    assert(y@ == decode_utf8(encode_utf8(y@)));
    assert(m@ == decode_utf8(encode_utf8(m@)));
    (String::from_str(y), String::from_str(m))
}

/// Interleaves the files of a feed page, newest first, with year and month
/// headings: a year heading where the year changes and a month heading where
/// the month or year changes, counted from the file before the page, if any.
pub fn group_by_date(prev_created_date: Option<String>, files: Vec<ImageDb>) -> (r: Vec<Element>)
    requires
        prev_created_date matches Some(p) ==> date_sliceable(p@),
        forall|k: int| 0 <= k < files.len() ==> date_sliceable(#[trigger] files[k].created_date@),
    ensures
        elements_view(r@) == grouped(
            start_year(match prev_created_date { Some(p) => Some(p@), None => None }),
            start_month(match prev_created_date { Some(p) => Some(p@), None => None }),
            files@,
        ),
{
    let ghost all = files@;
    let mut current_year = String::new();
    let mut current_month = String::new();
    match &prev_created_date {
        Some(p) => {
            let (y, m) = date_parts(p.as_str());
            current_year = y;
            current_month = m;
        },
        None => {},
    }
    let mut grouped_images: Vec<Element> = Vec::new();
    let mut files = files;
    let ghost rest = all;
    assert(elements_view(grouped_images@) =~= Seq::<ElementView>::empty());
    while files.len() > 0
        invariant
            files@ == rest,
            forall|k: int| 0 <= k < rest.len() ==> date_sliceable(#[trigger] rest[k].created_date@),
            grouped(start_year(match prev_created_date { Some(p) => Some(p@), None => None }),
                start_month(match prev_created_date { Some(p) => Some(p@), None => None }), all)
                == elements_view(grouped_images@) + grouped(current_year@, current_month@, rest),
        decreases files.len(),
    {
        let image = files.remove(0);
        assert(image == rest[0]);
        assert(date_sliceable(rest[0].created_date@));
        let (year, month) = date_parts(image.created_date.as_str());
        let ghost before = elements_view(grouped_images@);
        let ghost cy = current_year@;
        let ghost cm = current_month@;
        let ghost head = if month@ != cm || year@ != cy {
            (if year@ != cy { seq![ElementView::Heading(year@)] } else { Seq::empty() }) + seq![ElementView::Heading(month@)]
        } else {
            Seq::empty()
        };
        if !str_eq(month.as_str(), current_month.as_str()) || !str_eq(year.as_str(), current_year.as_str()) {
            if !str_eq(year.as_str(), current_year.as_str()) {
                grouped_images.push(Element::String(year.clone()));
                current_year = year;
            }
            grouped_images.push(Element::String(month.clone()));
            current_month = month;
        }
        assert(elements_view(grouped_images@) =~= before + head);
        let ghost mid = elements_view(grouped_images@);
        grouped_images.push(Element::ImageDb(image));
        proof {
            assert(elements_view(grouped_images@) =~= mid + seq![ElementView::Image(image)]);
            assert(grouped(cy, cm, rest) == head + seq![ElementView::Image(image)] + grouped(current_year@, current_month@, rest.drop_first()));
            assert(elements_view(grouped_images@) + grouped(current_year@, current_month@, rest.drop_first())
                =~= before + grouped(cy, cm, rest));
            rest = rest.drop_first();
            assert forall|k: int| 0 <= k < rest.len() implies date_sliceable(#[trigger] rest[k].created_date@) by {
                assert(rest[k] == files@[k]);
            }
        }
    }
    grouped_images
}

/// Images fetched per request of the infinite feed.
pub const FETCH_IMAGE_COUNT: usize = 10;

/// Whether a requested page starts past the end of the file list, in which
/// case nothing is returned; the index is compared as `db_index as i64`.
pub fn page_past_end(db_index: usize, total_count: i64) -> (r: bool)
    ensures
        r == ((db_index as i64) > total_count),
{
    (db_index as i64) > total_count
}

/// The index of the next page of the feed.
pub fn next_page_index(db_index: usize) -> (r: usize)
    requires
        db_index + FETCH_IMAGE_COUNT <= usize::MAX,
    ensures
        r == db_index + FETCH_IMAGE_COUNT,
{
    db_index + FETCH_IMAGE_COUNT
}

/// The value of a string of ASCII digits.
pub open spec fn digits_value(s: Seq<char>) -> int
    decreases s.len(),
{
    if s.len() == 0 {
        0
    } else {
        10 * digits_value(s.drop_last()) + (s.last() as int - '0' as int)
    }
}

/// Whether every character is an ASCII digit.
pub open spec fn all_digits(s: Seq<char>) -> bool {
    forall|i: int| 0 <= i < s.len() ==> '0' <= #[trigger] s[i] <= '9'
}

/// What `str::parse::<i32>` gives: an optional `+` or `-`, then at least one
/// ASCII digit and nothing else, with a value that fits in an `i32`.
pub open spec fn parse_i32(s: Seq<char>) -> Option<int> {
    if s.len() == 0 {
        None
    } else {
        let negative = s[0] == '-';
        let digits = if s[0] == '+' || s[0] == '-' { s.subrange(1, s.len() as int) } else { s };
        if digits.len() == 0 || !all_digits(digits) {
            None
        } else {
            let v = if negative { -digits_value(digits) } else { digits_value(digits) };
            if i32::MIN <= v <= i32::MAX { Some(v) } else { None }
        }
    }
}

proof fn lemma_digits_value_nonneg(s: Seq<char>)
    requires
        all_digits(s),
    ensures
        digits_value(s) >= 0,
    decreases s.len(),
{
    if s.len() > 0 {
        assert(all_digits(s.drop_last())) by {
            assert forall|i: int| 0 <= i < s.drop_last().len() implies '0' <= #[trigger] s.drop_last()[i] <= '9' by {
                assert(s.drop_last()[i] == s[i]);
            }
        }
        lemma_digits_value_nonneg(s.drop_last());
        assert('0' <= s[s.len() - 1] <= '9');
    }
}

proof fn lemma_digits_value_grows(s: Seq<char>, k: int)
    requires
        all_digits(s),
        0 <= k <= s.len(),
    ensures
        digits_value(s) >= digits_value(s.subrange(0, k)),
    decreases s.len() - k,
{
    if k < s.len() {
        let t = s.subrange(0, k + 1);
        assert(t.drop_last() =~= s.subrange(0, k));
        assert(all_digits(s.subrange(0, k))) by {
            assert forall|i: int| 0 <= i < k implies '0' <= #[trigger] s.subrange(0, k)[i] <= '9' by {
                assert(s.subrange(0, k)[i] == s[i]);
            }
        }
        lemma_digits_value_nonneg(s.subrange(0, k));
        assert('0' <= s[k] <= '9');
        assert(t.last() == s[k]);
        lemma_digits_value_grows(s, k + 1);
    } else {
        assert(s.subrange(0, k) =~= s);
    }
}

/// Parses a decimal `i32` as `str::parse::<i32>` does.
pub fn parse_i32_decimal(s: &str) -> (r: Option<i32>)
    ensures
        r matches Some(v) ==> parse_i32(s@) == Some(v as int),
        r is None ==> parse_i32(s@) is None,
{
    let n = s.unicode_len();
    if n == 0 {
        return None;
    }
    let first = s.get_char(0);
    let negative = first == '-';
    let start: usize = if first == '+' || first == '-' { 1 } else { 0 };
    let ghost digits = s@.subrange(start as int, n as int);
    assert(digits =~= (if s@[0] == '+' || s@[0] == '-' { s@.subrange(1, s@.len() as int) } else { s@ }));
    if start == n {
        return None;
    }
    let mut value: i64 = 0;
    let mut i: usize = start;
    while i < n
        invariant
            n == s@.len(),
            start <= i <= n,
            digits == s@.subrange(start as int, n as int),
            n > 0,
            negative == (s@[0] == '-'),
            digits == (if s@[0] == '+' || s@[0] == '-' { s@.subrange(1, s@.len() as int) } else { s@ }),
            digits.len() > 0,
            all_digits(s@.subrange(start as int, i as int)),
            value == digits_value(s@.subrange(start as int, i as int)),
            0 <= value <= 2147483648,
        decreases n - i,
    {
        let c = s.get_char(i);
        if !('0' <= c && c <= '9') {
            assert(!all_digits(digits)) by {
                assert(digits[i - start] == c);
            }
            return None;
        }
        let d = (c as u32 - '0' as u32) as i64;
        let next = value * 10 + d;
        proof {
            let pre = s@.subrange(start as int, i as int);
            let ext = s@.subrange(start as int, i + 1);
            assert(ext.drop_last() =~= pre);
            assert(ext.last() == c);
            assert(all_digits(ext)) by {
                assert forall|j: int| 0 <= j < ext.len() implies '0' <= #[trigger] ext[j] <= '9' by {
                    if j < pre.len() {
                        assert(ext[j] == pre[j]);
                    }
                }
            }
            assert(next == digits_value(ext));
        }
        if next > 2147483648 {
            proof {
                let ext = s@.subrange(start as int, i + 1);
                if all_digits(digits) {
                    assert(digits.subrange(0, ext.len() as int) =~= ext);
                    lemma_digits_value_grows(digits, ext.len() as int);
                }
            }
            return None;
        }
        value = next;
        i = i + 1;
    }
    if negative {
        Some((-value) as i32)
    } else if value <= 2147483647 {
        Some(value as i32)
    } else {
        None
    }
}

/// The heading shown for a month number: its English name for 1 to 12, else
/// the text itself (as for a year).
pub open spec fn month_heading(text: Seq<char>, value: int) -> Seq<char> {
    if value == 1 { "January"@ }
    else if value == 2 { "February"@ }
    else if value == 3 { "March"@ }
    else if value == 4 { "April"@ }
    else if value == 5 { "May"@ }
    else if value == 6 { "June"@ }
    else if value == 7 { "July"@ }
    else if value == 8 { "August"@ }
    else if value == 9 { "September"@ }
    else if value == 10 { "October"@ }
    else if value == 11 { "November"@ }
    else if value == 12 { "December"@ }
    else { text }
}

/// The text of a feed heading: a month's name for a month number, else the
/// heading itself. The heading must be a decimal number.
pub fn heading_label(heading: &str) -> (r: String)
    requires
        parse_i32(heading@) is Some,
    ensures
        r@ == month_heading(heading@, parse_i32(heading@)->0),
{
    let v = match parse_i32_decimal(heading) {
        Some(v) => v,
        None => {
            assert(false);
            0
        },
    };
    match v {
        1 => String::from_str("January"),
        2 => String::from_str("February"),
        3 => String::from_str("March"),
        4 => String::from_str("April"),
        5 => String::from_str("May"),
        6 => String::from_str("June"),
        7 => String::from_str("July"),
        8 => String::from_str("August"),
        9 => String::from_str("September"),
        10 => String::from_str("October"),
        11 => String::from_str("November"),
        12 => String::from_str("December"),
        _ => String::from_str(heading),
    }
}

impl ImageDb {
    /// The file with its data, Base64-encoded, in place of its path.
    pub fn with_image_data(self, data: &[u8]) -> (r: ImageDb)
        requires
            base64_len(data@.len()) <= usize::MAX,
        ensures
            r.path@ == base64_text(data@),
            r.id == self.id,
            r.upload_date == self.upload_date,
            r.created_date == self.created_date,
    {
        let mut img = self;
        img.path = base64_encode(data);
        img
    }
}

/// The query that selects the files of the feed.
pub open spec fn feed_base_query() -> Seq<char> {
    "SELECT DISTINCT f.id, f.path, f.uploadDate AS upload_date, f.createdDate AS created_date FROM files f"@
}

/// The order of the feed: newest first.
pub open spec fn feed_order() -> Seq<char> {
    "f.createdDate DESC"@
}

/// The query for a page of the feed and its binds: the filtered file query,
/// newest first, limited to `count` files from `db_index` on; the binds of the
/// filters followed by the count and the index.
pub fn feed_query(
    tags: Option<(String, Vec<String>)>,
    people: Option<(String, Vec<i64>)>,
    count: usize,
    db_index: usize,
) -> (r: (String, Vec<String>))
    ensures
        ({
            let f = filter_parts(tag_filter_view(tags), people_filter_view(people));
            &&& r.0@ == filtered_query(feed_base_query(), f.0, f.1, Some(feed_order()), Some(count), Some(db_index))
            &&& r.1.deep_view() == f.2.push(decimal(count as nat)).push(decimal(db_index as nat))
        }),
{
    let (conditions, joins, binds) = prepare_filtered_query_with_pagination(tags, people, count, db_index);
    let query = build_filtered_query(
        String::from_str(
            "SELECT DISTINCT f.id, f.path, f.uploadDate AS upload_date, f.createdDate AS created_date FROM files f",
        ),
        conditions,
        joins,
        Some(String::from_str("f.createdDate DESC")),
        Some(count),
        Some(db_index),
    );
    (query, binds)
}

/// The images of a feed, in order, without its headings.
pub open spec fn images_of(entries: Seq<ElementView>) -> Seq<ImageDb>
    decreases entries.len(),
{
    if entries.len() == 0 {
        Seq::empty()
    } else {
        let rest = images_of(entries.drop_first());
        match entries[0] {
            ElementView::Image(i) => seq![i] + rest,
            ElementView::Heading(_) => rest,
        }
    }
}

proof fn lemma_images_of_append(a: Seq<ElementView>, b: Seq<ElementView>)
    ensures
        images_of(a + b) == images_of(a) + images_of(b),
    decreases a.len(),
{
    if a.len() == 0 {
        assert(a + b =~= b);
    } else {
        assert((a + b).drop_first() =~= a.drop_first() + b);
        lemma_images_of_append(a.drop_first(), b);
    }
}

/// The feed shows every file of a page exactly once, in the order fetched:
/// leaving out the headings gives back the files.
pub proof fn law_feed_keeps_every_image(year: Seq<char>, month: Seq<char>, files: Seq<ImageDb>)
    ensures
        images_of(grouped(year, month, files)) == files,
    decreases files.len(),
{
    if files.len() > 0 {
        let f = files[0];
        let y = year_of(f.created_date@);
        let m = month_of(f.created_date@);
        let head = if m != month || y != year {
            (if y != year { seq![ElementView::Heading(y)] } else { Seq::empty() }) + seq![ElementView::Heading(m)]
        } else {
            Seq::empty()
        };
        law_feed_keeps_every_image(y, m, files.drop_first());
        lemma_images_of_append(head + seq![ElementView::Image(f)], grouped(y, m, files.drop_first()));
        lemma_images_of_append(head, seq![ElementView::Image(f)]);
        assert(images_of(head) =~= Seq::<ImageDb>::empty()) by {
            if m != month || y != year {
                if y != year {
                    assert(images_of(head.drop_first()) =~= Seq::<ImageDb>::empty()) by {
                        assert(head.drop_first() =~= seq![ElementView::Heading(m)]);
                        assert(images_of(seq![ElementView::Heading(m)].drop_first()) =~= Seq::<ImageDb>::empty());
                    }
                } else {
                    assert(images_of(head.drop_first()) =~= Seq::<ImageDb>::empty()) by {
                        assert(head.drop_first() =~= Seq::<ElementView>::empty());
                    }
                }
            }
        }
        assert(images_of(seq![ElementView::Image(f)]) =~= seq![f]) by {
            let one = seq![ElementView::Image(f)];
            assert(one.drop_first() =~= Seq::<ElementView>::empty());
            assert(images_of(one.drop_first()) =~= Seq::<ImageDb>::empty());
            assert(one[0] == ElementView::Image(f));
            assert(seq![f] + Seq::<ImageDb>::empty() =~= seq![f]);
        }
        assert(files =~= seq![f] + files.drop_first());
    }
}

/// Fetching the feed page by page, each page continuing from the date of the
/// last file before it, gives the same entries as fetching it at once: no
/// heading is repeated across a page boundary.
pub proof fn law_feed_pages_join(year: Seq<char>, month: Seq<char>, first: Seq<ImageDb>, second: Seq<ImageDb>)
    requires
        first.len() > 0,
    ensures
        grouped(year, month, first + second) == grouped(year, month, first) + grouped(
            year_of(first.last().created_date@),
            month_of(first.last().created_date@),
            second,
        ),
    decreases first.len(),
{
    let f = first[0];
    let y = year_of(f.created_date@);
    let m = month_of(f.created_date@);
    assert((first + second)[0] == f);
    assert((first + second).drop_first() =~= first.drop_first() + second);
    if first.len() == 1 {
        assert(first.drop_first() =~= Seq::<ImageDb>::empty());
        assert(first.last() == f);
        assert(grouped(y, m, Seq::<ImageDb>::empty()) == Seq::<ElementView>::empty());
        let head = if m != month || y != year {
            (if y != year { seq![ElementView::Heading(y)] } else { Seq::empty() }) + seq![ElementView::Heading(m)]
        } else {
            Seq::empty()
        };
        assert(grouped(year, month, first) =~= head + seq![ElementView::Image(f)]);
        assert(grouped(year, month, first + second) =~= head + seq![ElementView::Image(f)] + grouped(y, m, second));
    } else {
        law_feed_pages_join(y, m, first.drop_first(), second);
        assert(first.drop_first().last() == first.last());
        let head = if m != month || y != year {
            (if y != year { seq![ElementView::Heading(y)] } else { Seq::empty() }) + seq![ElementView::Heading(m)]
        } else {
            Seq::empty()
        };
        assert(grouped(year, month, first + second) =~= head + seq![ElementView::Image(f)]
            + grouped(y, m, first.drop_first() + second));
        assert(grouped(year, month, first) =~= head + seq![ElementView::Image(f)] + grouped(y, m, first.drop_first()));
    }
}

/// Builds a page of the feed from its files, newest first, and their data:
/// each file's path is replaced by its data in Base64, and the files are
/// grouped under year and month headings counted from the file before the
/// page. The page holds every file once, in order.
pub fn feed_page(prev_created_date: Option<String>, files: Vec<ImageDb>, data: Vec<Vec<u8>>) -> (r: Vec<Element>)
    requires
        files.len() == data.len(),
        prev_created_date matches Some(p) ==> date_sliceable(p@),
        forall|k: int| 0 <= k < files.len() ==> date_sliceable(#[trigger] files[k].created_date@),
        forall|k: int| 0 <= k < data.len() ==> base64_len((#[trigger] data[k])@.len()) <= usize::MAX,
    ensures
        ({
            let imgs = images_of(elements_view(r@));
            &&& imgs.len() == files.len()
            &&& forall|k: int| 0 <= k < files.len() ==> {
                &&& (#[trigger] imgs[k]).path@ == base64_text(data[k]@)
                &&& imgs[k].id == files[k].id
                &&& imgs[k].upload_date == files[k].upload_date
                &&& imgs[k].created_date == files[k].created_date
            }
            &&& elements_view(r@) == grouped(
                start_year(match prev_created_date { Some(p) => Some(p@), None => None }),
                start_month(match prev_created_date { Some(p) => Some(p@), None => None }),
                imgs,
            )
        }),
{
    let ghost orig = files@;
    let mut encoded: Vec<ImageDb> = Vec::new();
    let mut rest = files;
    let mut k: usize = 0;
    while rest.len() > 0
        invariant
            orig.len() == data.len(),
            k + rest.len() == orig.len(),
            rest@ == orig.subrange(k as int, orig.len() as int),
            encoded.len() == k,
            forall|m: int| 0 <= m < orig.len() ==> date_sliceable(#[trigger] orig[m].created_date@),
            forall|m: int| 0 <= m < data.len() ==> base64_len((#[trigger] data[m])@.len()) <= usize::MAX,
            forall|m: int| 0 <= m < k ==> {
                &&& (#[trigger] encoded[m]).path@ == base64_text(data[m]@)
                &&& encoded[m].id == orig[m].id
                &&& encoded[m].upload_date == orig[m].upload_date
                &&& encoded[m].created_date == orig[m].created_date
            },
        decreases rest.len(),
    {
        let f = rest.remove(0);
        assert(f == orig[k as int]);
        let img = f.with_image_data(data[k].as_slice());
        encoded.push(img);
        k = k + 1;
    }
    assert forall|m: int| 0 <= m < encoded.len() implies date_sliceable(#[trigger] encoded[m].created_date@) by {
        assert(encoded[m].created_date == orig[m].created_date);
    }
    let ghost enc = encoded@;
    let ghost prev = opt_view(prev_created_date);
    assert(prev == match prev_created_date { Some(p) => Some(p@), None => None });
    proof {
        law_feed_keeps_every_image(start_year(prev), start_month(prev), enc);
    }
    group_by_date(prev_created_date, encoded)
}

/// The English month names, in calendar order.
pub open spec fn month_names() -> Seq<Seq<char>> {
    seq![
        "January"@, "February"@, "March"@, "April"@, "May"@, "June"@,
        "July"@, "August"@, "September"@, "October"@, "November"@, "December"@,
    ]
}

/// A month heading with value `m` from 1 to 12 is labelled with the `m`-th
/// month of the calendar, and the twelve labels are all different.
pub proof fn law_month_headings_in_calendar_order(text: Seq<char>, m: int)
    requires
        1 <= m <= 12,
    ensures
        month_heading(text, m) == month_names()[m - 1],
        forall|i: int, j: int| 0 <= i < j < 12 ==> month_names()[i] != month_names()[j],
{
    reveal_strlit("January");
    reveal_strlit("February");
    reveal_strlit("March");
    reveal_strlit("April");
    reveal_strlit("May");
    reveal_strlit("June");
    reveal_strlit("July");
    reveal_strlit("August");
    reveal_strlit("September");
    reveal_strlit("October");
    reveal_strlit("November");
    reveal_strlit("December");
    let n = month_names();
    assert forall|i: int, j: int| 0 <= i < j < 12 implies n[i] != n[j] by {
        if n[i] == n[j] {
            assert(n[i].len() == n[j].len());
            assert(n[i][0] == n[j][0]);
            assert(n[i][1] == n[j][1]);
            assert(n[i][2] == n[j][2]);
        }
    }
}

} // verus!

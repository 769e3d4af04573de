//! A note picked for reminding, with what is known of its material, and the
//! text that presents it.

use vstd::prelude::*;

use crate::markup::{render, render_chars};
use crate::text::{
    chars_of, decimal, decimal_text, same_text, extend_chars, extend_rows, extend_str, join, join_with,
    string_of, views,
};
use crate::time::{
    ago_text, date_text, date_time_text, days_between, format_date, format_date_time, now,
    repeated_ago_text, whole_days_between, Timestamp,
};

verus! {

/// The kinds of material a note may belong to.
#[derive(Clone, Copy, Debug, PartialEq, Eq, Structural)]
pub enum MaterialTypes {
    Book,
    Article,
    Lecture,
    Course,
    Audiobook,
}

impl MaterialTypes {
    /// What a chapter of this kind of material is called.
    pub open spec fn chapter_label(self) -> Seq<char> {
        match self {
            MaterialTypes::Book | MaterialTypes::Article | MaterialTypes::Audiobook => "Chapter"@,
            MaterialTypes::Lecture | MaterialTypes::Course => "Part"@,
        }
    }

    /// What a page of this kind of material is called.
    pub open spec fn page_label(self) -> Seq<char> {
        match self {
            MaterialTypes::Book | MaterialTypes::Article => "Page"@,
            MaterialTypes::Lecture | MaterialTypes::Audiobook => "Minute"@,
            MaterialTypes::Course => "Lecture"@,
        }
    }

    /// The name storage gives the kind: its name in lower case.
    pub open spec fn stored_name(self) -> Seq<char> {
        match self {
            MaterialTypes::Book => "book"@,
            MaterialTypes::Article => "article"@,
            MaterialTypes::Lecture => "lecture"@,
            MaterialTypes::Course => "course"@,
            MaterialTypes::Audiobook => "audiobook"@,
        }
    }

    /// The kind with the stored name `name`, if any.
    pub fn from_name(name: &str) -> (r: Option<MaterialTypes>)
        ensures
            r matches Some(t) ==> t.stored_name() == name@,
            r is None ==> forall|t: MaterialTypes| t.stored_name() != name@,
    {
        if same_text(name, "book") {
            Some(MaterialTypes::Book)
        } else if same_text(name, "article") {
            Some(MaterialTypes::Article)
        } else if same_text(name, "lecture") {
            Some(MaterialTypes::Lecture)
        } else if same_text(name, "course") {
            Some(MaterialTypes::Course)
        } else if same_text(name, "audiobook") {
            Some(MaterialTypes::Audiobook)
        } else {
            None
        }
    }

    pub fn as_chapter(&self) -> (r: &'static str)
        ensures
            r@ == self.chapter_label(),
    {
        match self {
            MaterialTypes::Book | MaterialTypes::Article | MaterialTypes::Audiobook => "Chapter",
            MaterialTypes::Lecture | MaterialTypes::Course => "Part",
        }
    }

    pub fn as_page(&self) -> (r: &'static str)
        ensures
            r@ == self.page_label(),
    {
        match self {
            MaterialTypes::Book | MaterialTypes::Article => "Page",
            MaterialTypes::Lecture | MaterialTypes::Audiobook => "Minute",
            MaterialTypes::Course => "Lecture",
        }
    }
}

/// A note to remind of, as read from storage.
#[derive(Debug)]
pub struct RemindNote {
    /// The 128-bit value of the note's UUID.
    pub note_id: u128,
    pub content: String,
    pub chapter: String,
    pub page: i32,
    pub added_at: Timestamp,
    /// The tag names, without `#`.
    pub tags: Vec<String>,
    /// How many active notes there are in all.
    pub notes_count: i64,
    pub material_title: Option<String>,
    pub material_authors: Option<String>,
    pub material_type: Option<MaterialTypes>,
    pub material_pages: i32,
    pub material_status: String,
    pub material_repeats_count: Option<i64>,
    pub material_last_repeated_at: Option<Timestamp>,
}

/// The text of an optional string; empty where it is absent.
pub open spec fn text_or_empty(s: Option<String>) -> Seq<char> {
    match s {
        Some(v) => v@,
        None => seq![],
    }
}

/// Lowercase hexadecimal digits, indexed by their value.
pub open spec fn hex_digit_chars() -> Seq<char> {
    seq!['0', '1', '2', '3', '4', '5', '6', '7', '8', '9', 'a', 'b', 'c', 'd', 'e', 'f']
}

/// The last `count` hexadecimal digits of `n`, most significant first.
pub open spec fn hex_digits(n: nat, count: nat) -> Seq<char>
    decreases count,
{
    if count == 0 {
        seq![]
    } else {
        hex_digits(n / 16, (count - 1) as nat).push(hex_digit_chars()[(n % 16) as int])
    }
}

/// A UUID in its hyphenated form: 32 lowercase hexadecimal digits of the
/// value, in groups of 8, 4, 4, 4 and 12.
pub open spec fn uuid_text(id: u128) -> Seq<char> {
    let h = hex_digits(id as nat, 32);
    h.subrange(0, 8) + seq!['-'] + h.subrange(8, 12) + seq!['-'] + h.subrange(12, 16) + seq!['-']
        + h.subrange(16, 20) + seq!['-'] + h.subrange(20, 32)
}

/// Relies on uuid's `Uuid::from_u128`, which takes the value's bytes most
/// significant first, and on its `Display`, the lowercase hyphenated form.
#[verifier::external_body]
fn hyphenated_uuid(id: u128) -> (r: String)
    ensures
        r@ == uuid_text(id),
{
    uuid::Uuid::from_u128(id).to_string()
}

impl RemindNote {
    /// The timestamps are real points in time.
    pub open spec fn wf(&self) -> bool {
        &&& self.added_at.wf()
        &&& (self.material_last_repeated_at matches Some(t) ==> t.wf())
    }

    /// The tags as shown: each name after a `#`.
    pub open spec fn tag_texts(&self) -> Seq<Seq<char>> {
        Seq::new(self.tags@.len(), |i: int| seq!['#'] + self.tags@[i]@)
    }

    /// The age of the last repeat, or `-` where there was none.
    pub open spec fn ago_at(&self, now: Timestamp) -> Seq<char> {
        match self.material_last_repeated_at {
            Some(t) => ago_text(days_between(now, t) + 1),
            None => "-"@,
        }
    }

    /// The title and authors line, where the note has a material.
    pub open spec fn header_rows(&self) -> Seq<Seq<char>> {
        if self.material_type is Some {
            seq![
                "«"@ + text_or_empty(self.material_title) + "» – "@ + text_or_empty(
                    self.material_authors,
                ) + "\n"@,
            ]
        } else {
            seq![]
        }
    }

    /// The tags line and a blank line, where there are tags.
    pub open spec fn tag_rows(&self) -> Seq<Seq<char>> {
        if self.tags@.len() > 0 {
            seq![join(self.tag_texts(), " "@), seq![]]
        } else {
            seq![]
        }
    }

    /// Chapter, page and status of the material, where there is one; chapter
    /// only where it is set, page only where it is positive.
    pub open spec fn material_rows(&self) -> Seq<Seq<char>> {
        match self.material_type {
            Some(t) => (if self.chapter@.len() > 0 {
                seq![t.chapter_label() + ": "@ + self.chapter@]
            } else {
                seq![]
            }) + (if self.page > 0 {
                seq![
                    t.page_label() + ": "@ + decimal_text(self.page as int) + "/"@ + decimal_text(
                        self.material_pages as int,
                    ),
                ]
            } else {
                seq![]
            }) + seq!["Material status: "@ + self.material_status@],
            None => seq![],
        }
    }

    /// When the note was added: the date alone at midnight, else date and time.
    pub open spec fn added_row(&self) -> Seq<char> {
        "Added at (UTC): "@ + if self.added_at.at_midnight() {
            date_text(self.added_at)
        } else {
            date_time_text(self.added_at)
        }
    }

    /// The repeat count and the last repeat, where the material was repeated.
    pub open spec fn repeat_rows(&self, now: Timestamp) -> Seq<Seq<char>> {
        match self.material_last_repeated_at {
            Some(t) => seq![
                "Repeats count: "@ + decimal_text(
                    match self.material_repeats_count {
                        Some(c) => c as int,
                        None => 0,
                    },
                ),
                "Last repeated: "@ + date_text(t) + ", "@ + self.ago_at(now),
            ],
            None => seq![],
        }
    }

    /// The lines of the note's text, at time `now`.
    pub open spec fn rows(&self, now: Timestamp) -> Seq<Seq<char>> {
        self.header_rows() + seq![render(self.content@), seq![]] + self.tag_rows()
            + self.material_rows() + seq![self.added_row()] + self.repeat_rows(now) + seq![
            "Total notes count: "@ + decimal_text(self.notes_count as int),
        ]
    }

    /// The note's text at time `now`: its lines joined by line breaks.
    pub open spec fn text(&self, now: Timestamp) -> Seq<char> {
        join(self.rows(now), "\n"@)
    }
}

impl RemindNote {
    pub fn material_title(&self) -> (r: &str)
        ensures
            r@ == text_or_empty(self.material_title),
    {
        match &self.material_title {
            Some(v) => v.as_str(),
            None => {
                proof {
                    reveal_strlit("");
                }
                ""
            },
        }
    }

    pub fn material_authors(&self) -> (r: &str)
        ensures
            r@ == text_or_empty(self.material_authors),
    {
        match &self.material_authors {
            Some(v) => v.as_str(),
            None => {
                proof {
                    reveal_strlit("");
                }
                ""
            },
        }
    }

    /// The note's content, rendered.
    pub fn content_html(&self) -> (r: String)
        ensures
            r@ == render(self.content@),
    {
        crate::markup::demark(self.content.as_str())
    }

    pub fn note_id(&self) -> (r: u128)
        ensures
            r == self.note_id,
    {
        self.note_id
    }

    pub fn has_material(&self) -> (r: bool)
        ensures
            r == self.material_type is Some,
    {
        self.material_type.is_some()
    }

    pub fn has_material_repeat(&self) -> (r: bool)
        ensures
            r == self.material_last_repeated_at is Some,
    {
        self.material_last_repeated_at.is_some()
    }

    /// The address of the note's page under `tracker_url`.
    pub fn get_url(&self, tracker_url: &str) -> (r: String)
        ensures
            r@ == tracker_url@ + "/notes/note?note_id="@ + uuid_text(self.note_id),
    {
        let mut v = chars_of(tracker_url);
        extend_str(&mut v, "/notes/note?note_id=");
        let id = hyphenated_uuid(self.note_id);
        extend_str(&mut v, id.as_str());
        string_of(&v)
    }

    fn tag_chars(&self) -> (r: Vec<Vec<char>>)
        ensures
            views(r@) == self.tag_texts(),
    {
        let mut r: Vec<Vec<char>> = Vec::new();
        let mut i: usize = 0;
        while i < self.tags.len()
            invariant
                i <= self.tags@.len(),
                views(r@) == self.tag_texts().take(i as int),
            decreases self.tags@.len() - i,
        {
            let mut tag = vec!['#'];
            assert(tag@ == seq!['#']);
            extend_str(&mut tag, self.tags[i].as_str());
            let ghost prev = r@;
            r.push(tag);
            assert(views(r@) =~= views(prev).push(tag@));
            assert(views(r@) =~= self.tag_texts().take(i + 1));
            i += 1;
        }
        assert(self.tag_texts().take(i as int) =~= self.tag_texts());
        r
    }

    /// The tags as shown: each name after a `#`.
    pub fn tags(&self) -> (r: Vec<String>)
        ensures
            r@.len() == self.tags@.len(),
            forall|i: int| 0 <= i < r@.len() ==> #[trigger] r@[i]@ == self.tag_texts()[i],
    {
        let chars = self.tag_chars();
        let mut r: Vec<String> = Vec::new();
        let mut i: usize = 0;
        while i < chars.len()
            invariant
                i <= chars@.len(),
                views(chars@) == self.tag_texts(),
                r@.len() == i,
                forall|k: int| 0 <= k < i ==> #[trigger] r@[k]@ == views(chars@)[k],
            decreases chars@.len() - i,
        {
            r.push(string_of(&chars[i]));
            i += 1;
        }
        assert(views(chars@).len() == chars@.len());
        r
    }

    fn ago_chars(&self, now: &Timestamp) -> (r: Vec<char>)
        requires
            self.wf(),
            now.wf(),
        ensures
            r@ == self.ago_at(*now),
    {
        match self.material_last_repeated_at {
            Some(t) => repeated_ago_text(whole_days_between(now, &t)),
            None => chars_of("-"),
        }
    }

    /// The age of the last repeat at time `now`, or `-` where there was none.
    pub fn repeated_ago_at(&self, now: &Timestamp) -> (r: String)
        requires
            self.wf(),
            now.wf(),
        ensures
            r@ == self.ago_at(*now),
    {
        string_of(&self.ago_chars(now))
    }

    /// The age of the last repeat at the current time.
    pub fn repeated_ago(&self) -> (r: String)
        requires
            self.wf(),
        ensures
            exists|now: Timestamp| now.wf() && r@ == #[trigger] self.ago_at(now),
    {
        let now = now();
        let r = self.repeated_ago_at(&now);
        assert(now.wf() && r@ == self.ago_at(now));
        r
    }
}

impl RemindNote {
    fn header_lines(&self) -> (r: Vec<Vec<char>>)
        ensures
            views(r@) == self.header_rows(),
    {
        let mut r: Vec<Vec<char>> = Vec::new();
        if self.material_type.is_some() {
            let mut line = chars_of("«");
            extend_str(&mut line, self.material_title());
            extend_str(&mut line, "» – ");
            extend_str(&mut line, self.material_authors());
            extend_str(&mut line, "\n");
            r.push(line);
            assert(views(r@) =~= self.header_rows());
        } else {
            assert(views(r@) =~= self.header_rows());
        }
        r
    }

    fn tag_lines(&self) -> (r: Vec<Vec<char>>)
        ensures
            views(r@) == self.tag_rows(),
    {
        let mut r: Vec<Vec<char>> = Vec::new();
        if self.tags.len() > 0 {
            let tags = self.tag_chars();
            r.push(join_with(&tags, &chars_of(" ")));
            r.push(Vec::new());
        }
        assert(views(r@) =~= self.tag_rows());
        r
    }

    fn material_lines(&self) -> (r: Vec<Vec<char>>)
        ensures
            views(r@) == self.material_rows(),
    {
        let mut r: Vec<Vec<char>> = Vec::new();
        match self.material_type {
            Some(t) => {
                let ghost first: Seq<Seq<char>> = if self.chapter@.len() > 0 {
                    seq![t.chapter_label() + ": "@ + self.chapter@]
                } else {
                    seq![]
                };
                if self.chapter.as_str().unicode_len() > 0 {
                    let mut line = chars_of(t.as_chapter());
                    extend_str(&mut line, ": ");
                    extend_str(&mut line, self.chapter.as_str());
                    r.push(line);
                }
                assert(views(r@) =~= first);
                let ghost second: Seq<Seq<char>> = if self.page > 0 {
                    seq![
                        t.page_label() + ": "@ + decimal_text(self.page as int) + "/"@
                            + decimal_text(self.material_pages as int),
                    ]
                } else {
                    seq![]
                };
                if self.page > 0 {
                    let mut line = chars_of(t.as_page());
                    extend_str(&mut line, ": ");
                    extend_chars(&mut line, &decimal(self.page as i128));
                    extend_str(&mut line, "/");
                    extend_chars(&mut line, &decimal(self.material_pages as i128));
                    let ghost prev = r@;
                    r.push(line);
                    assert(views(r@) =~= views(prev).push(line@));
                }
                assert(views(r@) =~= first + second);
                let mut line = chars_of("Material status: ");
                extend_str(&mut line, self.material_status.as_str());
                let ghost prev = r@;
                r.push(line);
                assert(views(r@) =~= views(prev).push(line@));
                assert(views(r@) =~= self.material_rows());
            },
            None => {
                assert(views(r@) =~= self.material_rows());
            },
        }
        r
    }

    fn added_line(&self) -> (r: Vec<char>)
        requires
            self.wf(),
        ensures
            r@ == self.added_row(),
    {
        let t = self.added_at;
        let mut line = chars_of("Added at (UTC): ");
        if t.hour + t.minute + t.second == 0 {
            extend_str(&mut line, format_date(&t).as_str());
        } else {
            extend_str(&mut line, format_date_time(&t).as_str());
        }
        line
    }

    fn repeat_lines(&self, now: &Timestamp) -> (r: Vec<Vec<char>>)
        requires
            self.wf(),
            now.wf(),
        ensures
            views(r@) == self.repeat_rows(*now),
    {
        let mut r: Vec<Vec<char>> = Vec::new();
        match self.material_last_repeated_at {
            Some(t) => {
                let count: i64 = match self.material_repeats_count {
                    Some(c) => c,
                    None => 0,
                };
                let mut first = chars_of("Repeats count: ");
                extend_chars(&mut first, &decimal(count as i128));
                let mut second = chars_of("Last repeated: ");
                extend_str(&mut second, format_date(&t).as_str());
                extend_str(&mut second, ", ");
                extend_chars(&mut second, &self.ago_chars(now));
                r.push(first);
                r.push(second);
                assert(views(r@) =~= self.repeat_rows(*now));
            },
            None => {
                assert(views(r@) =~= self.repeat_rows(*now));
            },
        }
        r
    }

    /// The note's text at time `now`.
    pub fn text_at(&self, now: &Timestamp) -> (r: String)
        requires
            self.wf(),
            now.wf(),
        ensures
            r@ == self.text(*now),
    {
        let mut rows = self.header_lines();
        let ghost prev = rows@;
        rows.push(render_chars(&chars_of(self.content.as_str())));
        rows.push(Vec::new());
        assert(views(rows@) =~= self.header_rows() + seq![render(self.content@), seq![]]);
        extend_rows(&mut rows, self.tag_lines());
        extend_rows(&mut rows, self.material_lines());
        let ghost prev = rows@;
        let added = self.added_line();
        rows.push(added);
        assert(views(rows@) =~= views(prev).push(added@));
        extend_rows(&mut rows, self.repeat_lines(now));
        let mut total = chars_of("Total notes count: ");
        extend_chars(&mut total, &decimal(self.notes_count as i128));
        let ghost prev = rows@;
        rows.push(total);
        assert(views(rows@) =~= views(prev).push(total@));
        assert(views(rows@) =~= self.rows(*now));
        string_of(&join_with(&rows, &chars_of("\n")))
    }

    /// The note's text at the current time.
    pub fn to_text(&self) -> (r: String)
        requires
            self.wf(),
        ensures
            exists|now: Timestamp| now.wf() && r@ == #[trigger] self.text(now),
    {
        let now = now();
        let r = self.text_at(&now);
        assert(now.wf() && r@ == self.text(now));
        r
    }
}

/// A note whose material was never repeated shows no repeat count and no
/// last-repeat line, and its text is the same at every time.
pub proof fn lemma_no_repeat_no_repeat_lines(n: RemindNote, now: Timestamp, later: Timestamp)
    requires
        n.material_last_repeated_at is None,
    ensures
        n.repeat_rows(now) == Seq::<Seq<char>>::empty(),
        n.rows(now) == n.header_rows() + seq![render(n.content@), seq![]] + n.tag_rows()
            + n.material_rows() + seq![
            n.added_row(),
            "Total notes count: "@ + decimal_text(n.notes_count as int),
        ],
        n.text(now) == n.text(later),
{
    assert(n.rows(now) =~= n.header_rows() + seq![render(n.content@), seq![]] + n.tag_rows()
        + n.material_rows() + seq![
        n.added_row(),
        "Total notes count: "@ + decimal_text(n.notes_count as int),
    ]);
    assert(n.rows(now) =~= n.rows(later));
}

} // verus!

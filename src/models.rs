use vstd::prelude::*;
use vstd::string::StringExecFns;

verus! {

/// The site a story was taken from.
#[allow(non_camel_case_types)]
#[derive(Debug, Clone, Copy, PartialEq, Eq, Structural)]
pub enum Source {
    TRUYEN_FULL,
    MTC,
}

/// The source that a stored tag names; any tag but `MTC` falls back to
/// `TRUYEN_FULL`.
pub open spec fn source_of_tag(tag: Seq<char>) -> Source {
    if tag == "MTC"@ {
        Source::MTC
    } else {
        Source::TRUYEN_FULL
    }
}

/// The tag under which a source is stored.
pub open spec fn tag_of_source(s: Source) -> Seq<char> {
    match s {
        Source::TRUYEN_FULL => "TRUYEN_FULL"@,
        Source::MTC => "MTC"@,
    }
}

impl Source {
    /// The source that `tag` names.
    pub fn from_tag(tag: &str) -> (r: Source)
        ensures
            r == source_of_tag(tag@),
    {
        let mtc = String::from_str("MTC");
        let given = String::from_str(tag);
        if given == mtc {
            Source::MTC
        } else {
            Source::TRUYEN_FULL
        }
    }

    /// The tag under which this source is stored.
    pub fn tag(&self) -> (r: String)
        ensures
            r@ == tag_of_source(*self),
    {
        match self {
            Source::TRUYEN_FULL => String::from_str("TRUYEN_FULL"),
            Source::MTC => String::from_str("MTC"),
        }
    }
}

impl From<String> for Source {
    fn from(s: String) -> (r: Source) {
        Source::from_tag(s.as_str())
    }
}

impl vstd::std_specs::convert::FromSpecImpl<String> for Source {
    open spec fn obeys_from_spec() -> bool {
        true
    }

    open spec fn from_spec(s: String) -> Source {
        source_of_tag(s@)
    }
}

impl From<Source> for String {
    fn from(s: Source) -> (r: String) {
        s.tag()
    }
}

impl vstd::std_specs::convert::FromSpecImpl<Source> for String {
    open spec fn obeys_from_spec() -> bool {
        false
    }

    open spec fn from_spec(s: Source) -> String {
        arbitrary()
    }
}

/// A story as the store holds it; `created_at` is in seconds since the Unix epoch.
#[derive(Debug, Clone)]
pub struct Story {
    pub id: i64,
    pub name: String,
    pub title: Option<String>,
    pub source: Option<String>,
    pub created_at: Option<i64>,
}

/// A chapter as the store holds it; `created_at` is in seconds since the Unix epoch.
#[derive(Debug, Clone)]
pub struct Chapter {
    pub id: i64,
    pub story_id: i64,
    pub title: Option<String>,
    pub key: Option<i32>,
    pub content: Option<String>,
    pub created_at: Option<i64>,
}

/// A bookmark on a story; `created_at` is in seconds since the Unix epoch.
#[derive(Debug, Clone)]
pub struct Bookmark {
    pub id: i64,
    pub story_id: i64,
    pub chapter_id: Option<i64>,
    pub created_at: Option<i64>,
}

/// A chapter that a listing offers and that has not been fetched yet.
#[derive(Debug, Clone)]
pub struct ChapterTask {
    pub name: String,
    pub index: i32,
    pub raw_key: String,
}

/// What a chapter task is: its name, its ordering key and its locator.
pub type TaskModel = (Seq<char>, i32, Seq<char>);

impl ChapterTask {
    pub open spec fn model(&self) -> TaskModel {
        (self.name@, self.index, self.raw_key@)
    }

    /// Another task with the same name, key and locator.
    pub fn duplicate(&self) -> (r: ChapterTask)
        ensures
            r.model() == self.model(),
    {
        ChapterTask { name: self.name.clone(), index: self.index, raw_key: self.raw_key.clone() }
    }
}

/// A chapter ready to be written: its title, ordering key and content.
#[derive(Debug, Clone)]
pub struct NewChapter {
    pub title: String,
    pub key: i32,
    pub content: String,
}

/// What a new chapter is: title, key and content.
pub type RecordModel = (Seq<char>, i32, Seq<char>);

impl NewChapter {
    pub open spec fn model(&self) -> RecordModel {
        (self.title@, self.key, self.content@)
    }
}

/// The body of a chapter as a strategy extracted it, with a title that
/// replaces the task's name where one was found.
#[derive(Debug, Clone)]
pub struct ParsedChapter {
    pub content: String,
    pub title: Option<String>,
}

/// What a parsed chapter is: content and optional title.
pub type ParsedModel = (Seq<char>, Option<Seq<char>>);

impl ParsedChapter {
    pub open spec fn model(&self) -> ParsedModel {
        (
            self.content@,
            match self.title {
                Some(t) => Some(t@),
                None => None,
            },
        )
    }
}

/// Request to start crawling a story page.
#[derive(Debug, Clone)]
pub struct CrawlRequest {
    pub url: String,
}

/// Request to bookmark a chapter of a story.
#[derive(Debug, Clone, Copy)]
pub struct BookmarkParams {
    pub story_id: i64,
    pub chapter_id: i64,
}

/// A story as the story list shows it.
#[derive(Debug, Clone)]
pub struct StoryView {
    pub id: i64,
    pub name: String,
    pub title: String,
    pub created_at: String,
}

/// A bookmark as the story list shows it.
#[derive(Debug, Clone)]
pub struct BookmarkView {
    pub id: i64,
    pub story_name: String,
    pub chapter_id: i64,
    pub chapter_title: String,
}

/// A chapter as the chapter list shows it.
#[derive(Debug, Clone)]
pub struct ChapterView {
    pub id: i64,
    pub title: String,
    pub created_at: String,
}

/// The story list page.
#[derive(Debug, Clone)]
pub struct StoriesTemplate {
    pub stories: Vec<StoryView>,
    pub bookmarks: Vec<BookmarkView>,
}

/// The chapter list page.
#[derive(Debug, Clone)]
pub struct ChaptersTemplate {
    pub story: Story,
    pub chapters: Vec<ChapterView>,
    pub current_page: i64,
    pub total_pages: i64,
    pub total_elements: i64,
    pub page_size: i64,
    pub display_items: Vec<crate::view::PageItem>,
}

/// The page of one chapter, with its neighbours and its position.
#[derive(Debug, Clone)]
pub struct ChapterTemplate {
    pub story: Story,
    pub chapter: Chapter,
    pub previous_chapter: Option<Chapter>,
    pub next_chapter: Option<Chapter>,
    pub chapter_index: usize,
    pub total_chapters: usize,
}

/// Page and page size asked of the chapter list.
#[derive(Debug, Clone, Copy)]
pub struct PaginationParams {
    pub page: Option<i64>,
    pub size: Option<i64>,
}

/// Why a crawl, or one step of it, failed.
#[derive(Debug, Clone)]
pub enum CrawlError {
    /// No registered strategy accepts the URL.
    NoStrategyFound,
    /// The network or the HTTP exchange failed.
    FetchError(String),
    /// A page or a reply lacks the structure that was expected.
    ParseError(String),
    /// The store refused a write.
    PersistError(String),
}

} // verus!

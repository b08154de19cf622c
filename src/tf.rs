use vstd::prelude::*;
use vstd::string::StringExecFns;
use crate::interop::{html_select, html_select_within, select_html, select_within};
use crate::models::{ChapterTask, CrawlError, ParsedChapter, Story, TaskModel};
use crate::text::{
    after_last, join, parse_i32, parse_i32_or_zero, text_after_last, text_trim_end_char,
    trim_end_char,
};

verus! {

/// An element found by a selector: its text, its HTML and one attribute.
pub type MatchModel = (Seq<char>, Seq<char>, Option<Seq<char>>);

/// The chosen attribute of the first element found, if an element was found
/// and carries it.
pub open spec fn first_attr(found: Seq<MatchModel>) -> Option<Seq<char>> {
    if found.len() > 0 {
        found[0].2
    } else {
        None
    }
}

/// The plain-HTML site: story pages, a listing endpoint and chapter pages of
/// ordinary markup.
pub struct TFCrawlStrategy {
    pub base_url: String,
}

/// The slug of a story: the last segment of its URL, trailing slashes aside.
pub open spec fn tf_slug(url: Seq<char>) -> Seq<char> {
    after_last(trim_end_char(url, '/'), '/')
}

/// The title that the chapter page gives, if any: the `title` of the first
/// `a.chapter-title` inside the first big container, or in the whole page
/// where there is no container.
pub open spec fn tf_title(page: Seq<char>) -> Option<Seq<char>> {
    match html_select_within(page, "#chapter-big-container"@, "a.chapter-title"@, "title"@) {
        Some(found) => first_attr(found),
        None => first_attr(html_select(page, "a.chapter-title"@, "title"@)),
    }
}

/// The matches of the content element: inside the first big container, or
/// in the whole page where there is no container.
pub open spec fn tf_content_matches(page: Seq<char>) -> Seq<MatchModel> {
    match html_select_within(page, "#chapter-big-container"@, "#chapter-c"@, "id"@) {
        Some(found) => found,
        None => html_select(page, "#chapter-c"@, "id"@),
    }
}

/// The ordering key of a chapter locator: its last dash-separated part read
/// as an `i32`, or 0.
pub open spec fn tf_key(raw: Seq<char>) -> i32 {
    match parse_i32(after_last(raw, '-')) {
        Some(v) => v,
        None => 0,
    }
}

/// The tasks that the listing's options give, one for each option, in order.
pub open spec fn tf_tasks(options: Seq<MatchModel>) -> Seq<TaskModel>
    decreases options.len(),
{
    if options.len() == 0 {
        Seq::empty()
    } else {
        let o = options.last();
        let raw = match o.2 {
            Some(v) => v,
            None => Seq::empty(),
        };
        tf_tasks(options.drop_last()).push((o.0, tf_key(raw), raw))
    }
}

impl TFCrawlStrategy {
    /// The strategy for `https://truyenfull.vision`.
    pub fn new() -> (r: TFCrawlStrategy)
        ensures
            r.base_url@ == "https://truyenfull.vision"@,
    {
        TFCrawlStrategy { base_url: String::from_str("https://truyenfull.vision") }
    }

    /// Whether `url` belongs to this site.
    pub fn supports(&self, url: &str) -> (r: bool)
        ensures
            r == crate::text::has_prefix(url@, self.base_url@),
    {
        crate::text::starts_with(url, self.base_url.as_str())
    }

    /// The story that `url` names, its slug doubling as its title; the store
    /// assigns the id.
    pub fn parse_story(&self, url: &str) -> (r: Story)
        ensures
            r.id == 0,
            r.name@ == tf_slug(url@),
            r.title matches Some(t) && t@ == tf_slug(url@),
            r.source matches Some(s) && s@ == "TRUYEN_FULL"@,
            r.created_at is None,
    {
        let trimmed = text_trim_end_char(url, '/');
        let name = text_after_last(trimmed.as_str(), '/');
        let title = name.clone();
        Story {
            id: 0,
            name,
            title: Some(title),
            source: Some(String::from_str("TRUYEN_FULL")),
            created_at: None,
        }
    }

    /// The URL of the listing endpoint for the story page `page`: the story's
    /// numeric id is read from the `value` of `#truyen-id`.
    pub fn listing_url(&self, page: &str) -> (r: Result<String, CrawlError>)
        ensures
            match first_attr(html_select(page@, "#truyen-id"@, "value"@)) {
                Some(id) => r matches Ok(u) && u@ == self.base_url@
                    + "/ajax.php?type=chapter_option&data="@ + id,
                None => r matches Err(CrawlError::ParseError(_)),
            },
    {
        let found = select_html(page, "#truyen-id", "value");
        if found.len() == 0 {
            return Err(CrawlError::ParseError(String::from_str("Could not find truyen-id")));
        }
        assert(found@[0].model() == html_select(page@, "#truyen-id"@, "value"@)[0]);
        match &found[0].attr {
            Some(id) => {
                let head = join(self.base_url.as_str(), "/ajax.php?type=chapter_option&data=");
                Ok(join(head.as_str(), id.as_str()))
            },
            None => Err(CrawlError::ParseError(String::from_str("Could not find truyen-id"))),
        }
    }

    /// The chapter tasks that the listing endpoint's reply offers.
    pub fn parse_tasks(&self, listing: &str) -> (r: Vec<ChapterTask>)
        ensures
            r@.len() == tf_tasks(html_select(listing@, "select.chapter_jump option"@, "value"@)).len(),
            forall|i: int| 0 <= i < r@.len() ==> #[trigger] r@[i].model()
                == tf_tasks(html_select(listing@, "select.chapter_jump option"@, "value"@))[i],
    {
        let found = select_html(listing, "select.chapter_jump option", "value");
        let ghost all = html_select(listing@, "select.chapter_jump option"@, "value"@);
        let mut tasks: Vec<ChapterTask> = Vec::new();
        let mut i: usize = 0;
        assert(all.take(0) =~= Seq::<MatchModel>::empty());
        while i < found.len()
            invariant
                i <= found@.len(),
                found@.len() == all.len(),
                forall|k: int| 0 <= k < found@.len() ==> #[trigger] found@[k].model() == all[k],
                tasks@.len() == tf_tasks(all.take(i as int)).len(),
                forall|k: int| 0 <= k < tasks@.len() ==> #[trigger] tasks@[k].model() == tf_tasks(all.take(i as int))[k],
            decreases found@.len() - i,
        {
            assert(all.take(i + 1).drop_last() =~= all.take(i as int));
            assert(all.take(i + 1).last() == found@[i as int].model());
            let m = &found[i];
            let raw = match &m.attr {
                Some(v) => v.clone(),
                None => String::new(),
            };
            let last = text_after_last(raw.as_str(), '-');
            let key = parse_i32_or_zero(last.as_str());
            tasks.push(ChapterTask { name: m.text.clone(), index: key, raw_key: raw });
            i = i + 1;
        }
        assert(all.take(found@.len() as int) =~= all);
        tasks
    }

    /// The URL of a chapter page: the site, the story's slug and the task's locator.
    pub fn chapter_url(&self, story: &Story, task: &ChapterTask) -> (r: String)
        ensures
            r@ == self.base_url@ + "/"@ + story.name@ + "/"@ + task.raw_key@,
    {
        let a = join(self.base_url.as_str(), "/");
        let b = join(a.as_str(), story.name.as_str());
        let c = join(b.as_str(), "/");
        join(c.as_str(), task.raw_key.as_str())
    }

    /// The content and title of a chapter page. Inside the first big
    /// container where the page has one, else anywhere: the content is the
    /// HTML of the first `#chapter-c` and the title the `title` of the first
    /// `a.chapter-title`.
    pub fn parse_chapter(&self, page: &str) -> (r: Result<ParsedChapter, CrawlError>)
        ensures
            tf_content_matches(page@).len() > 0 ==> (r matches Ok(p)
                && p.model() == (tf_content_matches(page@)[0].1, tf_title(page@))),
            tf_content_matches(page@).len() == 0 ==> r matches Err(CrawlError::ParseError(_)),
    {
        let titles = match select_within(page, "#chapter-big-container", "a.chapter-title", "title") {
            Some(found) => found,
            None => select_html(page, "a.chapter-title", "title"),
        };
        let ghost tseq = match html_select_within(page@, "#chapter-big-container"@, "a.chapter-title"@, "title"@) {
            Some(f) => f,
            None => html_select(page@, "a.chapter-title"@, "title"@),
        };
        assert(titles@.len() == tseq.len());
        assert(tf_title(page@) == first_attr(tseq));
        let title = if titles.len() > 0 {
            assert(titles@[0].model() == tseq[0]);
            match &titles[0].attr {
                Some(t) => Some(t.clone()),
                None => None,
            }
        } else {
            None
        };
        let (contents, scoped) = match select_within(page, "#chapter-big-container", "#chapter-c", "id") {
            Some(found) => (found, true),
            None => (select_html(page, "#chapter-c", "id"), false),
        };
        if contents.len() == 0 {
            if scoped {
                return Err(CrawlError::ParseError(String::from_str("Could not find #chapter-c inside container")));
            }
            return Err(CrawlError::ParseError(String::from_str("Could not find chapter container or content")));
        }
        assert(contents@[0].model() == tf_content_matches(page@)[0]);
        Ok(ParsedChapter { content: contents[0].html.clone(), title })
    }
}

} // verus!

use vstd::prelude::*;
use vstd::string::StringExecFns;
use vstd::utf8::encode_utf8;
use crate::interop::{
    aes128_cbc_decrypt, aes128_cbc_deciphered, base64_decoded, decode_base64, first_group,
    html_select, lossy_text, opt_view, regex_first_group, select_html, utf8_lossy,
};
use crate::key_cache::KeyCache;
use crate::models::{ChapterTask, CrawlError, ParsedChapter, Story, TaskModel};
use crate::text::{
    after_last, contains, has_prefix, i32_to_decimal, int_decimal, join, occurs_in, parse_i32,
    parse_i32_or_zero, parse_u8, parse_u8_or_zero, split_chars, split_on, starts_with, string_of,
    text_after_last, trim_space, unescape_slashes, unescape_slashes_of,
};
use crate::tf::MatchModel;

verus! {

/// The key used until one has been read from the site's client bundle.
pub const MTC_DEFAULT_KEY: &'static str = "cNdR17YqKmWx9BgT";

/// The pattern of the story id in the page's book data.
pub const BOOK_ID_PATTERN: &'static str = "\"id\":\\s*(\\d+)";

/// The pattern of the encoded content in the page's chapter data.
pub const CONTENT_PATTERN: &'static str = "content\\s*:\\s*\"([^\"]+)\"";

/// The pattern of the sixteen byte codes of the key in the client bundle.
pub const KEY_CODES_PATTERN: &'static str = "\\[(\\d+(?:,\\s*\\d+){15})\\]";

/// The selector of the script tag that loads the client bundle.
pub const BUNDLE_SELECTOR: &'static str = "script[src*='/build/assets/app-']";

/// What decrypting `cipher_text` under `key` gives: the base64 text is
/// decoded, deciphered with the key's bytes as both key and IV, and read as
/// UTF-8; any failure on the way gives the empty string.
pub open spec fn decrypt_outcome(key: Seq<char>, cipher_text: Seq<char>) -> Seq<char> {
    if cipher_text.len() == 0 {
        Seq::empty()
    } else {
        match base64_decoded(cipher_text) {
            None => Seq::empty(),
            Some(bytes) => if bytes.len() == 0 {
                Seq::empty()
            } else {
                match aes128_cbc_deciphered(encode_utf8(key), encode_utf8(key), bytes) {
                    Some(plain) => utf8_lossy(plain),
                    None => Seq::empty(),
                }
            },
        }
    }
}

/// Decrypts the base64 `cipher_text` with AES-128-CBC and PKCS#7 padding,
/// `key`'s bytes serving as both key and IV. Never fails: where the text is
/// empty or malformed, or deciphering fails, the result is empty.
pub fn decrypt_with_key(key: &str, cipher_text: &str) -> (r: String)
    ensures
        r@ == decrypt_outcome(key@, cipher_text@),
        cipher_text@.len() == 0 ==> r@.len() == 0,
        base64_decoded(cipher_text@) is None ==> r@.len() == 0,
        encode_utf8(key@).len() != 16 ==> r@.len() == 0,
        base64_decoded(cipher_text@) matches Some(b) && b.len() % 16 != 0 ==> r@.len() == 0,
{
    if cipher_text.is_empty() {
        return String::new();
    }
    let bytes = match decode_base64(cipher_text) {
        Some(b) => b,
        None => {
            return String::new();
        },
    };
    if bytes.len() == 0 {
        return String::new();
    }
    let k = key.as_bytes();
    match aes128_cbc_decrypt(k, k, bytes.as_slice()) {
        Some(plain) => lossy_text(plain.as_slice()),
        None => String::new(),
    }
}

/// The key that sixteen comma-separated byte codes give: each code, trimmed
/// and read as a `u8` (0 where it is not one), becomes the character of that
/// code, and the characters are taken in reverse order.
pub open spec fn key_of_codes(codes: Seq<char>) -> Option<Seq<char>> {
    let parts = split_on(codes, ',');
    if parts.len() == 16 {
        Some(Seq::new(16, |i: int| code_char(parts[15 - i])))
    } else {
        None
    }
}

/// The character of one byte code.
pub open spec fn code_char(part: Seq<char>) -> char {
    (match parse_u8(trim_space(part)) {
        Some(v) => v,
        None => 0u8,
    }) as char
}

/// The key that the byte codes `codes` give, if there are sixteen of them.
pub fn key_from_codes(codes: &str) -> (r: Option<String>)
    ensures
        opt_view(r) == key_of_codes(codes@),
{
    let parts = split_chars(codes, ',');
    if parts.len() != 16 {
        return None;
    }
    let mut out: Vec<char> = Vec::new();
    let mut i: usize = 0;
    while i < 16
        invariant
            parts@.len() == 16,
            forall|k: int| 0 <= k < 16 ==> #[trigger] parts@[k]@ == split_on(codes@, ',')[k],
            i <= 16,
            out@.len() == i,
            forall|k: int| 0 <= k < i ==> #[trigger] out@[k] == code_char(split_on(codes@, ',')[15 - k]),
        decreases 16 - i,
    {
        let part = string_of(parts[15 - i].as_slice());
        let v = parse_u8_or_zero(part.as_str());
        out.push(v as char);
        i = i + 1;
    }
    let ghost want = Seq::new(16, |k: int| code_char(split_on(codes@, ',')[15 - k]));
    assert(out@ =~= want);
    Some(string_of(out.as_slice()))
}

/// The first script whose text mentions `marker` and matches `pattern`
/// gives the pattern's capture; scripts are taken in page order.
pub open spec fn script_capture(scripts: Seq<MatchModel>, marker: Seq<char>, pattern: Seq<char>) -> Option<Seq<char>>
    decreases scripts.len(),
{
    if scripts.len() == 0 {
        None
    } else if occurs_in(scripts[0].0, marker) && regex_first_group(pattern, scripts[0].0) is Some {
        regex_first_group(pattern, scripts[0].0)
    } else {
        script_capture(scripts.drop_first(), marker, pattern)
    }
}

/// Scans the scripts of `page` for the first whose text holds `marker` and
/// matches `pattern`, and returns the pattern's capture.
fn find_in_scripts(page: &str, marker: &str, pattern: &str) -> (r: Option<String>)
    ensures
        opt_view(r) == script_capture(html_select(page@, "script"@, "src"@), marker@, pattern@),
{
    let scripts = select_html(page, "script", "src");
    let ghost all = html_select(page@, "script"@, "src"@);
    let n: usize = scripts.len();
    let mut i: usize = 0;
    assert(all.subrange(0, n as int) =~= all);
    while i < n
        invariant
            n == scripts@.len(),
            n == all.len(),
            all == html_select(page@, "script"@, "src"@),
            i <= n,
            forall|k: int| 0 <= k < n ==> #[trigger] scripts@[k].model() == all[k],
            script_capture(all, marker@, pattern@) == script_capture(all.subrange(i as int, n as int), marker@, pattern@),
        decreases n - i,
    {
        let ghost rest = all.subrange(i as int, n as int);
        assert(rest[0] == scripts@[i as int].model());
        assert(rest.drop_first() =~= all.subrange(i + 1, n as int));
        let text = &scripts[i].text;
        if contains(text.as_str(), marker) {
            match first_group(pattern, text.as_str()) {
                Some(c) => {
                    assert(rest.len() > 0);
                    assert(text@ == rest[0].0);
                    assert(script_capture(rest, marker@, pattern@) == regex_first_group(pattern@, rest[0].0));
                    return Some(c);
                },
                None => {},
            }
        }
        i = i + 1;
    }
    None
}

/// The site whose chapters come encrypted: story data is embedded in page
/// scripts, the listing comes from a JSON API, and chapter bodies are
/// deciphered with a key recovered from the site's client bundle.
pub struct MTCCrawlStrategy {
    pub base_url: String,
    pub backend_url: String,
    pub default_key: String,
    pub cached_key: KeyCache,
}

/// One chapter of the JSON listing: its name and its index as text.
#[derive(Debug, Clone)]
pub struct ChapterEntry {
    pub name: String,
    pub index: String,
}

/// What a chapter page gave: the chapter, or why it could not be read, and
/// the client bundle to take a fresh key from, where one is wanted.
#[derive(Debug)]
pub struct ChapterPage {
    pub chapter: Result<ParsedChapter, CrawlError>,
    pub bundle_url: Option<String>,
}

/// The slug of a story: the last segment of its URL.
pub open spec fn mtc_slug(url: Seq<char>) -> Seq<char> {
    after_last(url, '/')
}

/// The task that one listing entry gives.
pub open spec fn entry_task(name: Seq<char>, index: Seq<char>) -> TaskModel {
    (
        name,
        match parse_i32(index) {
            Some(v) => v,
            None => 0,
        },
        index,
    )
}

impl MTCCrawlStrategy {
    pub open spec fn wf(&self) -> bool {
        self.cached_key.wf()
    }

    /// The strategy for `https://metruyencv.com`, with no key cached yet.
    pub fn new() -> (r: MTCCrawlStrategy)
        ensures
            r.wf(),
            r.base_url@ == "https://metruyencv.com"@,
            r.backend_url@ == "https://backend.metruyencv.com"@,
            r.default_key@ == MTC_DEFAULT_KEY@,
    {
        MTCCrawlStrategy {
            base_url: String::from_str("https://metruyencv.com"),
            backend_url: String::from_str("https://backend.metruyencv.com"),
            default_key: String::from_str(MTC_DEFAULT_KEY),
            cached_key: KeyCache::new(),
        }
    }

    /// Whether `url` belongs to this site.
    pub fn supports(&self, url: &str) -> (r: bool)
        ensures
            r == has_prefix(url@, self.base_url@),
    {
        starts_with(url, self.base_url.as_str())
    }

    /// The story that `url` names, titled by the first `h1` of its page, or
    /// by its slug where the page has none; the store assigns the id.
    pub fn parse_story(&self, url: &str, page: &str) -> (r: Story)
        ensures
            r.id == 0,
            r.name@ == mtc_slug(url@),
            r.title matches Some(t) && t@ == (if html_select(page@, "h1"@, "id"@).len() > 0 {
                html_select(page@, "h1"@, "id"@)[0].0
            } else {
                mtc_slug(url@)
            }),
            r.source matches Some(s) && s@ == "MTC"@,
            r.created_at is None,
    {
        let name = text_after_last(url, '/');
        let heads = select_html(page, "h1", "id");
        let title = if heads.len() > 0 {
            assert(heads@[0].model() == html_select(page@, "h1"@, "id"@)[0]);
            heads[0].text.clone()
        } else {
            name.clone()
        };
        Story { id: 0, name, title: Some(title), source: Some(String::from_str("MTC")), created_at: None }
    }

    /// The URL of the chapter API for the story page `page`, whose id is read
    /// from the first script holding `window.bookData`.
    pub fn listing_url(&self, page: &str) -> (r: Result<String, CrawlError>)
        ensures
            match script_capture(html_select(page@, "script"@, "src"@), "window.bookData"@, BOOK_ID_PATTERN@) {
                Some(id) => if id.len() > 0 {
                    r matches Ok(u) && u@ == self.backend_url@ + "/api/chapters?filter[book_id]="@ + id
                        + "&filter[type]=published"@
                } else {
                    r matches Err(CrawlError::ParseError(_))
                },
                None => r matches Err(CrawlError::ParseError(_)),
            },
    {
        let id = match find_in_scripts(page, "window.bookData", BOOK_ID_PATTERN) {
            Some(id) => id,
            None => {
                return Err(CrawlError::ParseError(String::from_str("Could not find book_id")));
            },
        };
        if id.as_str().is_empty() {
            return Err(CrawlError::ParseError(String::from_str("Could not find book_id")));
        }
        let a = join(self.backend_url.as_str(), "/api/chapters?filter[book_id]=");
        let b = join(a.as_str(), id.as_str());
        Ok(join(b.as_str(), "&filter[type]=published"))
    }

    /// The chapter tasks of the API's listing: the index, read as an `i32`
    /// (0 where it is not one), orders the chapter and locates it.
    pub fn tasks_from_entries(&self, entries: &Vec<ChapterEntry>) -> (r: Vec<ChapterTask>)
        ensures
            r@.len() == entries@.len(),
            forall|i: int| 0 <= i < r@.len() ==> #[trigger] r@[i].model()
                == entry_task(entries@[i].name@, entries@[i].index@),
    {
        let mut tasks: Vec<ChapterTask> = Vec::new();
        let mut i: usize = 0;
        while i < entries.len()
            invariant
                i <= entries@.len(),
                tasks@.len() == i,
                forall|k: int| 0 <= k < i ==> #[trigger] tasks@[k].model()
                    == entry_task(entries@[k].name@, entries@[k].index@),
            decreases entries@.len() - i,
        {
            let e = &entries[i];
            let key = parse_i32_or_zero(e.index.as_str());
            tasks.push(ChapterTask { name: e.name.clone(), index: key, raw_key: e.index.clone() });
            i = i + 1;
        }
        tasks
    }

    /// The URL of a chapter page: the story's slug and the task's key.
    pub fn chapter_url(&self, story: &Story, task: &ChapterTask) -> (r: String)
        ensures
            r@ == self.base_url@ + "/truyen/"@ + story.name@ + "/chuong-"@ + int_decimal(task.index as int),
    {
        let a = join(self.base_url.as_str(), "/truyen/");
        let b = join(a.as_str(), story.name.as_str());
        let c = join(b.as_str(), "/chuong-");
        let d = i32_to_decimal(task.index);
        join(c.as_str(), d.as_str())
    }

    /// Decrypts `cipher_text` with the key `cached` read from the cache, or
    /// with the default key where none was cached; the empty string where
    /// that fails.
    pub fn decrypt_with(&self, cipher_text: &str, cached: Option<String>) -> (r: String)
        ensures
            r@ == decrypt_outcome(key_in_use(cached, self.default_key@), cipher_text@),
            cipher_text@.len() == 0 ==> r@.len() == 0,
            base64_decoded(cipher_text@) is None ==> r@.len() == 0,
            base64_decoded(cipher_text@) matches Some(b) && b.len() % 16 != 0 ==> r@.len() == 0,
    {
        let key = match cached {
            Some(k) => k,
            None => self.default_key.clone(),
        };
        decrypt_with_key(key.as_str(), cipher_text)
    }

    /// Decrypts `cipher_text` with the cached key, or with the default key
    /// where none has been cached; the empty string where that fails.
    pub fn decrypt(&self, cipher_text: &str) -> (r: String)
        requires
            self.wf(),
        ensures
            cipher_text@.len() == 0 ==> r@.len() == 0,
            base64_decoded(cipher_text@) is None ==> r@.len() == 0,
            base64_decoded(cipher_text@) matches Some(b) && b.len() % 16 != 0 ==> r@.len() == 0,
            exists|key: Seq<char>| (key == self.default_key@ || key.len() == 16)
                && r@ == decrypt_outcome(key, cipher_text@),
    {
        let cached = self.cached_key.read();
        self.decrypt_with(cipher_text, cached)
    }

    /// Reads a chapter page, given the key `cached` read from the cache. The
    /// encoded content comes from the first script holding
    /// `window.chapterData`, with `\/` unescaped, and is decrypted with that
    /// key, or the default key where none was cached. Where none was cached,
    /// the URL of the client bundle is handed back too, where the page names
    /// one, relative URLs made absolute.
    pub fn chapter_page_with(&self, page: &str, cached: Option<String>) -> (r: ChapterPage)
        ensures
            match script_capture(html_select(page@, "script"@, "src"@), "window.chapterData"@, CONTENT_PATTERN@) {
                Some(raw) => if unescape_slashes(raw).len() > 0 {
                    r.chapter matches Ok(p) && p.title is None
                        && p.content@ == decrypt_outcome(key_in_use(cached, self.default_key@), unescape_slashes(raw))
                } else {
                    r.chapter matches Err(CrawlError::ParseError(_))
                },
                None => r.chapter matches Err(CrawlError::ParseError(_)),
            },
            r.bundle_url is Some <==> (cached is None && html_select(page@, BUNDLE_SELECTOR@, "src"@).len() > 0),
            r.bundle_url matches Some(u) ==> u@ == bundle_location(self.base_url@,
                html_select(page@, BUNDLE_SELECTOR@, "src"@)),
    {
        let mut bundle_url: Option<String> = None;
        if cached.is_none() {
            let tags = select_html(page, BUNDLE_SELECTOR, "src");
            if tags.len() > 0 {
                assert(tags@[0].model() == html_select(page@, BUNDLE_SELECTOR@, "src"@)[0]);
                let src = match &tags[0].attr {
                    Some(s) => s.clone(),
                    None => String::new(),
                };
                if starts_with(src.as_str(), "/") {
                    bundle_url = Some(join(self.base_url.as_str(), src.as_str()));
                } else {
                    bundle_url = Some(src);
                }
            }
        }
        let encoded = match find_in_scripts(page, "window.chapterData", CONTENT_PATTERN) {
            Some(raw) => unescape_slashes_of(raw.as_str()),
            None => String::new(),
        };
        if encoded.as_str().is_empty() {
            return ChapterPage {
                chapter: Err(CrawlError::ParseError(String::from_str("Could not find encoded content"))),
                bundle_url,
            };
        }
        let content = self.decrypt_with(encoded.as_str(), cached);
        ChapterPage { chapter: Ok(ParsedChapter { content, title: None }), bundle_url }
    }

    /// Reads a chapter page with the key held now, as `chapter_page_with`
    /// does: the cache is read once.
    pub fn read_chapter_page(&self, page: &str) -> (r: ChapterPage)
        requires
            self.wf(),
        ensures
            match script_capture(html_select(page@, "script"@, "src"@), "window.chapterData"@, CONTENT_PATTERN@) {
                Some(raw) => if unescape_slashes(raw).len() > 0 {
                    r.chapter matches Ok(p) && p.title is None
                        && exists|key: Seq<char>| (key == self.default_key@ || key.len() == 16)
                            && p.content@ == decrypt_outcome(key, unescape_slashes(raw))
                } else {
                    r.chapter matches Err(CrawlError::ParseError(_))
                },
                None => r.chapter matches Err(CrawlError::ParseError(_)),
            },
            r.bundle_url matches Some(u) ==> u@ == bundle_location(self.base_url@,
                html_select(page@, BUNDLE_SELECTOR@, "src"@)),
            r.bundle_url is Some ==> html_select(page@, BUNDLE_SELECTOR@, "src"@).len() > 0,
    {
        let cached = self.cached_key.read();
        self.chapter_page_with(page, cached)
    }

    /// Takes a fresh key from the client bundle's source `bundle`, where its
    /// sixteen byte codes are found; the cache is left as it was otherwise.
    pub fn refresh_key(&self, bundle: &str) -> (r: Option<String>)
        requires
            self.wf(),
        ensures
            match regex_first_group(KEY_CODES_PATTERN@, bundle@) {
                Some(codes) => opt_view(r) == key_of_codes(codes),
                None => r is None,
            },
    {
        let codes = match first_group(KEY_CODES_PATTERN, bundle) {
            Some(c) => c,
            None => {
                return None;
            },
        };
        match key_from_codes(codes.as_str()) {
            Some(k) => {
                self.cached_key.replace(k.clone());
                Some(k)
            },
            None => None,
        }
    }
}

/// The key that decrypts: the one read from the cache, else the default.
pub open spec fn key_in_use(cached: Option<String>, default_key: Seq<char>) -> Seq<char> {
    match cached {
        Some(k) => k@,
        None => default_key,
    }
}

/// Where the client bundle is: the `src` of the first tag that loads it,
/// put under the site's root where it starts with `/`.
pub open spec fn bundle_location(base: Seq<char>, tags: Seq<MatchModel>) -> Seq<char> {
    let src = match tags[0].2 {
        Some(s) => s,
        None => Seq::empty(),
    };
    if has_prefix(src, "/"@) {
        base + src
    } else {
        src
    }
}

} // verus!

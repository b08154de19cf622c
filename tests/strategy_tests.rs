use aes::cipher::{block_padding::Pkcs7, BlockEncryptMut, KeyIvInit};
use base64::Engine;
use story_crawler::crawl::{CrawlService, SiteStrategy};
use story_crawler::models::{ChapterTask, CrawlError, Source, Story};
use story_crawler::mtc::{decrypt_with_key, key_from_codes, ChapterEntry, MTCCrawlStrategy, MTC_DEFAULT_KEY};
use story_crawler::tf::TFCrawlStrategy;

fn encrypt(key: &str, plain: &[u8]) -> String {
    let enc = cbc::Encryptor::<aes::Aes128>::new_from_slices(key.as_bytes(), key.as_bytes()).unwrap();
    let bytes = enc.encrypt_padded_vec_mut::<Pkcs7>(plain);
    base64::engine::general_purpose::STANDARD.encode(bytes)
}

fn story(name: &str) -> Story {
    Story { id: 9, name: name.to_string(), title: None, source: None, created_at: None }
}

fn task(name: &str, index: i32, raw_key: &str) -> ChapterTask {
    ChapterTask { name: name.to_string(), index, raw_key: raw_key.to_string() }
}

#[test]
fn source_tags() {
    assert_eq!(Source::from_tag("MTC"), Source::MTC);
    assert_eq!(Source::from_tag("TRUYEN_FULL"), Source::TRUYEN_FULL);
    assert_eq!(Source::from_tag("other"), Source::TRUYEN_FULL);
    assert_eq!(Source::from("MTC".to_string()), Source::MTC);
    assert_eq!(String::from(Source::MTC), "MTC");
    assert_eq!(Source::TRUYEN_FULL.tag(), "TRUYEN_FULL");
}

#[test]
fn tf_story_from_url() {
    let s = TFCrawlStrategy::new();
    assert!(s.supports("https://truyenfull.vision/tien-nghich/"));
    assert!(!s.supports("https://metruyencv.com/truyen/x"));
    let st = s.parse_story("https://truyenfull.vision/tien-nghich/");
    assert_eq!(st.id, 0);
    assert_eq!(st.name, "tien-nghich");
    assert_eq!(st.title.as_deref(), Some("tien-nghich"));
    assert_eq!(st.source.as_deref(), Some("TRUYEN_FULL"));
}

#[test]
fn tf_listing_url_from_story_page() {
    let s = TFCrawlStrategy::new();
    let page = "<html><body><input id=\"truyen-id\" value=\"12345\"></body></html>";
    let url = s.listing_url(page).unwrap();
    assert_eq!(url, "https://truyenfull.vision/ajax.php?type=chapter_option&data=12345");
    assert!(matches!(s.listing_url("<p>none</p>"), Err(CrawlError::ParseError(_))));
}

#[test]
fn tf_tasks_from_listing() {
    let s = TFCrawlStrategy::new();
    let listing = "<select class=\"chapter_jump\">\
        <option value=\"chuong-1\">Chapter 1</option>\
        <option value=\"nodash\">Skip</option>\
        <option value=\"chuong-x\">Odd</option>\
        <option value=\"quyen-2-chuong-15\">Chapter 15</option></select>";
    let tasks = s.parse_tasks(listing);
    assert_eq!(tasks.len(), 4);
    assert_eq!(tasks[0].name, "Chapter 1");
    assert_eq!(tasks[0].index, 1);
    assert_eq!(tasks[0].raw_key, "chuong-1");
    assert_eq!(tasks[1].name, "Skip");
    assert_eq!(tasks[1].index, 0);
    assert_eq!(tasks[1].raw_key, "nodash");
    assert_eq!(tasks[2].index, 0);
    assert_eq!(tasks[3].index, 15);
    assert_eq!(tasks[3].raw_key, "quyen-2-chuong-15");
}

#[test]
fn tf_option_without_dash_is_kept() {
    let s = TFCrawlStrategy::new();
    let tasks = s.parse_tasks("<select class=\"chapter_jump\"><option value=\"12\">Twelve</option></select>");
    assert_eq!(tasks.len(), 1);
    assert_eq!(tasks[0].index, 12);
    assert_eq!(tasks[0].raw_key, "12");
}

#[test]
fn tf_chapter_only_first_container() {
    let s = TFCrawlStrategy::new();
    let page = "<div id=\"chapter-big-container\"><p>empty</p></div>\
        <div id=\"chapter-big-container\"><a class=\"chapter-title\" title=\"Later\">t</a>\
        <div id=\"chapter-c\">Later body</div></div>";
    assert!(matches!(s.parse_chapter(page), Err(CrawlError::ParseError(_))));
}

#[test]
fn tf_chapter_in_container() {
    let s = TFCrawlStrategy::new();
    let page = "<div id=\"chapter-big-container\"><a class=\"chapter-title\" title=\"Inner\">t</a>\
        <div id=\"chapter-c\">Body</div></div><a class=\"chapter-title\" title=\"Outer\">o</a>";
    let p = s.parse_chapter(page).unwrap();
    assert_eq!(p.content, "<div id=\"chapter-c\">Body</div>");
    assert_eq!(p.title.as_deref(), Some("Inner"));
}

#[test]
fn tf_chapter_without_container() {
    let s = TFCrawlStrategy::new();
    let page = "<a class=\"chapter-title\" title=\"Loose\">t</a><div id=\"chapter-c\">Text</div>";
    let p = s.parse_chapter(page).unwrap();
    assert_eq!(p.content, "<div id=\"chapter-c\">Text</div>");
    assert_eq!(p.title.as_deref(), Some("Loose"));
}

#[test]
fn tf_chapter_missing_content_fails() {
    let s = TFCrawlStrategy::new();
    assert!(matches!(s.parse_chapter("<p>nothing</p>"), Err(CrawlError::ParseError(_))));
    let page = "<div id=\"chapter-big-container\"><p>no body</p></div><div id=\"chapter-c\">x</div>";
    assert!(matches!(s.parse_chapter(page), Err(CrawlError::ParseError(_))));
}

#[test]
fn tf_chapter_url() {
    let s = TFCrawlStrategy::new();
    let url = s.chapter_url(&story("tien-nghich"), &task("c", 3, "chuong-3"));
    assert_eq!(url, "https://truyenfull.vision/tien-nghich/chuong-3");
}

#[test]
fn mtc_story_from_page() {
    let s = MTCCrawlStrategy::new();
    let st = s.parse_story("https://metruyencv.com/truyen/vo-luyen", "<h1>Vo Luyen</h1>");
    assert_eq!(st.name, "vo-luyen");
    assert_eq!(st.title.as_deref(), Some("Vo Luyen"));
    assert_eq!(st.source.as_deref(), Some("MTC"));
    let bare = s.parse_story("https://metruyencv.com/truyen/vo-luyen", "<p>no heading</p>");
    assert_eq!(bare.title.as_deref(), Some("vo-luyen"));
}

#[test]
fn mtc_listing_url_from_book_data() {
    let s = MTCCrawlStrategy::new();
    let page = "<script>var x = {\"id\": 1};</script>\
        <script>window.bookData = {\"name\":\"b\", \"id\": 777};</script>";
    let url = s.listing_url(page).unwrap();
    assert_eq!(url, "https://backend.metruyencv.com/api/chapters?filter[book_id]=777&filter[type]=published");
    assert!(matches!(s.listing_url("<script>nothing</script>"), Err(CrawlError::ParseError(_))));
}

#[test]
fn mtc_tasks_from_entries() {
    let s = MTCCrawlStrategy::new();
    let entries = vec![
        ChapterEntry { name: "One".to_string(), index: "1".to_string() },
        ChapterEntry { name: "Bad".to_string(), index: "x".to_string() },
    ];
    let tasks = s.tasks_from_entries(&entries);
    assert_eq!(tasks.len(), 2);
    assert_eq!(tasks[0].index, 1);
    assert_eq!(tasks[0].raw_key, "1");
    assert_eq!(tasks[1].index, 0);
    assert_eq!(tasks[1].name, "Bad");
}

#[test]
fn mtc_chapter_url() {
    let s = MTCCrawlStrategy::new();
    let url = s.chapter_url(&story("vo-luyen"), &task("c", 42, "42"));
    assert_eq!(url, "https://metruyencv.com/truyen/vo-luyen/chuong-42");
}

#[test]
fn decrypt_round_trip() {
    for plain in ["", "a", "exactly sixteen!", "Chuong 1: noi dung co dau tieng Viet - dai hon mot khoi"] {
        let ct = encrypt(MTC_DEFAULT_KEY, plain.as_bytes());
        assert_eq!(decrypt_with_key(MTC_DEFAULT_KEY, &ct), plain);
    }
}

#[test]
fn decrypt_robustness() {
    let ct = encrypt(MTC_DEFAULT_KEY, b"some chapter text that is long enough");
    assert_eq!(decrypt_with_key(MTC_DEFAULT_KEY, ""), "");
    assert_eq!(decrypt_with_key(MTC_DEFAULT_KEY, "%%%not base64%%%"), "");
    assert_eq!(decrypt_with_key(MTC_DEFAULT_KEY, "YWJj"), "");
    assert_eq!(decrypt_with_key("0123456789abcdef", &ct), "");
    assert_eq!(decrypt_with_key("short", &ct), "");
    assert_eq!(decrypt_with_key(MTC_DEFAULT_KEY, "aGVsbG8="), "");
}

#[test]
fn strategy_decrypts_with_default_key() {
    let s = MTCCrawlStrategy::new();
    let ct = encrypt(MTC_DEFAULT_KEY, b"hello");
    assert_eq!(s.decrypt(&ct), "hello");
    assert_eq!(s.decrypt(""), "");
}

#[test]
fn key_from_sixteen_codes() {
    let codes = "65, 66,67,68,69,70,71,72,73,74,75,76,77,78,79,80";
    assert_eq!(key_from_codes(codes).as_deref(), Some("PONMLKJIHGFEDCBA"));
    assert_eq!(key_from_codes("1,2,3"), None);
}

#[test]
fn chapter_page_then_key_refresh() {
    let s = MTCCrawlStrategy::new();
    let ct = encrypt(MTC_DEFAULT_KEY, b"first body").replace('/', "\\/");
    let page = format!(
        "<script src=\"/build/assets/app-abc.js\"></script>\
         <script>window.chapterData = {{ content: \"{}\" }};</script>",
        ct
    );
    let read = s.read_chapter_page(&page);
    assert_eq!(read.chapter.unwrap().content, "first body");
    assert_eq!(read.bundle_url.as_deref(), Some("https://metruyencv.com/build/assets/app-abc.js"));

    let bundle = "var k=[65,66,67,68,69,70,71,72,73,74,75,76,77,78,79,80];";
    assert_eq!(s.refresh_key(bundle).as_deref(), Some("PONMLKJIHGFEDCBA"));
    assert_eq!(s.cached_key.read().as_deref(), Some("PONMLKJIHGFEDCBA"));

    let ct2 = encrypt("PONMLKJIHGFEDCBA", b"second body");
    let page2 = format!(
        "<script src=\"/build/assets/app-abc.js\"></script>\
         <script>window.chapterData = {{ content: \"{}\" }};</script>",
        ct2
    );
    let read2 = s.read_chapter_page(&page2);
    assert_eq!(read2.chapter.unwrap().content, "second body");
    assert!(read2.bundle_url.is_none());
}

#[test]
fn chapter_page_without_content_fails() {
    let s = MTCCrawlStrategy::new();
    let read = s.read_chapter_page("<script>window.other = 1;</script>");
    assert!(matches!(read.chapter, Err(CrawlError::ParseError(_))));
    assert!(read.bundle_url.is_none());
    assert_eq!(s.refresh_key("no codes here"), None);
    assert!(s.cached_key.read().is_none());
}

#[test]
fn resolution_picks_first_registered() {
    let svc = CrawlService::new();
    assert_eq!(svc.resolve("https://truyenfull.vision/abc").unwrap(), 0);
    assert_eq!(svc.resolve("https://metruyencv.com/truyen/abc").unwrap(), 1);
    assert!(matches!(svc.resolve("https://example.com/x"), Err(CrawlError::NoStrategyFound)));
    assert!(matches!(svc.strategies[0], SiteStrategy::Tf(_)));
    assert_eq!(svc.batch_size, 400);
    assert_eq!(svc.batch_delay_secs, 300);
}

#[test]
fn resolution_with_overlapping_strategies() {
    let mut svc = CrawlService::new();
    let mut wide = TFCrawlStrategy::new();
    wide.base_url = "https://".to_string();
    svc.strategies.insert(0, SiteStrategy::Tf(wide));
    assert_eq!(svc.resolve("https://metruyencv.com/truyen/abc").unwrap(), 0);
    assert_eq!(svc.resolve("https://truyenfull.vision/abc").unwrap(), 0);
}

#[test]
fn chapter_page_with_given_key() {
    let s = MTCCrawlStrategy::new();
    let key = "PONMLKJIHGFEDCBA".to_string();
    let ct = encrypt(&key, b"keyed body");
    let page = format!(
        "<script src=\"/build/assets/app-x.js\"></script>\
         <script>window.chapterData = {{ content: \"{}\" }};</script>",
        ct
    );
    let with_key = s.chapter_page_with(&page, Some(key));
    assert_eq!(with_key.chapter.unwrap().content, "keyed body");
    assert!(with_key.bundle_url.is_none());
    let without = s.chapter_page_with(&page, None);
    assert_eq!(without.bundle_url.as_deref(), Some("https://metruyencv.com/build/assets/app-x.js"));
    assert_eq!(s.decrypt_with(&ct, None), "");
    assert_eq!(s.decrypt_with(&ct, Some("PONMLKJIHGFEDCBA".to_string())), "keyed body");
}

use story_crawler::crawl::{delay_after, pending_tasks, window_bounds, window_records};
use story_crawler::models::{ChapterTask, ParsedChapter};
use story_crawler::view::{chapter_neighbours, page_items, total_pages, PageItem};

fn task(name: &str, index: i32) -> ChapterTask {
    ChapterTask { name: name.to_string(), index, raw_key: format!("chuong-{}", index) }
}

fn parsed(content: &str, title: Option<&str>) -> Option<ParsedChapter> {
    Some(ParsedChapter { content: content.to_string(), title: title.map(|t| t.to_string()) })
}

#[test]
fn dedup_keeps_only_new_keys() {
    let tasks = vec![task("a", 1), task("b", 2), task("c", 3), task("d", 4)];
    let pending = pending_tasks(&tasks, &vec![2, 4, 9]);
    let keys: Vec<i32> = pending.iter().map(|t| t.index).collect();
    assert_eq!(keys, vec![1, 3]);
    assert_eq!(pending[1].name, "c");
    assert_eq!(pending_tasks(&tasks, &vec![]).len(), 4);
    assert!(pending_tasks(&vec![], &vec![1]).is_empty());
}

#[test]
fn windows_are_ceiling_of_tasks_over_size() {
    assert!(window_bounds(0, 400).is_empty());
    assert_eq!(window_bounds(1, 400), vec![(0, 1)]);
    assert_eq!(window_bounds(400, 400), vec![(0, 400)]);
    assert_eq!(window_bounds(401, 400), vec![(0, 400), (400, 401)]);
    assert_eq!(window_bounds(1000, 400), vec![(0, 400), (400, 800), (800, 1000)]);
    assert_eq!(window_bounds(7, 3).len(), 3);
}

#[test]
fn delays_between_windows_only() {
    let count = window_bounds(1000, 400).len();
    let waits = (0..count).filter(|&w| delay_after(w, count)).count();
    assert_eq!(waits, count - 1);
    assert!(!delay_after(count - 1, count));
    assert!(!delay_after(0, 1));
    assert!(delay_after(0, 2));
}

#[test]
fn one_failure_is_isolated() {
    let tasks = vec![task("a", 1), task("b", 2), task("c", 3)];
    let outcomes = vec![parsed("A", None), None, parsed("C", Some("Title C"))];
    let recs = window_records(&tasks, 0, 3, &outcomes);
    assert_eq!(recs.len(), 2);
    assert_eq!(recs[0].key, 1);
    assert_eq!(recs[0].title, "a");
    assert_eq!(recs[0].content, "A");
    assert_eq!(recs[1].key, 3);
    assert_eq!(recs[1].title, "Title C");
    assert!(recs.iter().all(|r| r.key != 2));
}

#[test]
fn window_records_use_window_slice() {
    let tasks = vec![task("a", 1), task("b", 2), task("c", 3)];
    let recs = window_records(&tasks, 1, 3, &vec![parsed("B", None), parsed("C", None)]);
    let keys: Vec<i32> = recs.iter().map(|r| r.key).collect();
    assert_eq!(keys, vec![2, 3]);
    assert!(window_records(&tasks, 0, 1, &vec![None]).is_empty());
}

#[test]
fn new_story_with_three_chapters() {
    let tasks = vec![task("One", 1), task("Two", 2), task("Three", 3)];
    let pending = pending_tasks(&tasks, &vec![]);
    let windows = window_bounds(pending.len(), 400);
    assert_eq!(windows, vec![(0, 3)]);
    let outcomes = vec![parsed("body 1", None), parsed("body 2", None), parsed("body 3", None)];
    let recs = window_records(&pending, 0, 3, &outcomes);
    assert_eq!(recs.len(), 3);
    for (i, r) in recs.iter().enumerate() {
        assert_eq!(r.key, i as i32 + 1);
        assert_eq!(r.content, format!("body {}", i + 1));
    }
    assert!(!delay_after(0, windows.len()));
}

#[test]
fn rerun_finds_nothing_new() {
    let tasks = vec![task("One", 1), task("Two", 2), task("Three", 3)];
    let pending = pending_tasks(&tasks, &vec![]);
    let outcomes = vec![parsed("x", None), parsed("y", None), parsed("z", None)];
    let stored: Vec<i32> = window_records(&pending, 0, 3, &outcomes).iter().map(|r| r.key).collect();
    assert!(pending_tasks(&tasks, &stored).is_empty());
}

#[test]
fn rerun_retries_failed_chapter() {
    let tasks = vec![task("One", 1), task("Two", 2)];
    let pending = pending_tasks(&tasks, &vec![]);
    let stored: Vec<i32> =
        window_records(&pending, 0, 2, &vec![parsed("x", None), None]).iter().map(|r| r.key).collect();
    let again = pending_tasks(&tasks, &stored);
    assert_eq!(again.len(), 1);
    assert_eq!(again[0].index, 2);
}

#[test]
fn pager_items() {
    assert!(page_items(0, 0).is_empty());
    assert_eq!(
        page_items(0, 3),
        vec![PageItem::Page(0), PageItem::Page(1), PageItem::Page(2)]
    );
    let items = page_items(10, 20);
    let expected = vec![
        PageItem::Page(0), PageItem::Page(1), PageItem::Page(2), PageItem::Page(3), PageItem::Page(4),
        PageItem::Ellipsis,
        PageItem::Page(8), PageItem::Page(9), PageItem::Page(10), PageItem::Page(11), PageItem::Page(12),
        PageItem::Ellipsis,
        PageItem::Page(19),
    ];
    assert_eq!(items, expected);
}

#[test]
fn page_counts() {
    assert_eq!(total_pages(0, 50), 0);
    assert_eq!(total_pages(50, 50), 1);
    assert_eq!(total_pages(51, 50), 2);
    assert_eq!(total_pages(10, 0), 0);
}

#[test]
fn neighbours_of_chapter() {
    let ids = vec![10, 20, 30];
    assert_eq!(chapter_neighbours(&ids, 10), (1, None, Some(1)));
    assert_eq!(chapter_neighbours(&ids, 20), (2, Some(0), Some(2)));
    assert_eq!(chapter_neighbours(&ids, 30), (3, Some(1), None));
    assert_eq!(chapter_neighbours(&ids, 99), (0, None, None));
}

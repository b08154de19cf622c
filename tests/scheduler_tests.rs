use story_crawler::models::{ChapterTask, NewChapter, ParsedChapter};
use story_crawler::scheduler::{BatchScheduler, CrawlAction};

fn tasks(keys: &[i32]) -> Vec<ChapterTask> {
    keys.iter()
        .map(|&k| ChapterTask { name: format!("Chapter {}", k), index: k, raw_key: format!("chuong-{}", k) })
        .collect()
}

struct Run {
    inserts: Vec<Vec<NewChapter>>,
    waits: Vec<u64>,
    fetched: Vec<i32>,
}

fn drive(mut s: BatchScheduler, fails: &[i32]) -> Run {
    let mut run = Run { inserts: Vec::new(), waits: Vec::new(), fetched: Vec::new() };
    loop {
        match s.next_action() {
            CrawlAction::FetchChapter(i) => {
                let key = s.tasks[i].index;
                run.fetched.push(key);
                let outcome = if fails.contains(&key) {
                    None
                } else {
                    Some(ParsedChapter { content: format!("body {}", key), title: None })
                };
                assert!(s.awaiting_outcome());
                s.record(outcome);
            }
            CrawlAction::InsertBatch(recs) => run.inserts.push(recs),
            CrawlAction::Wait(secs) => run.waits.push(secs),
            CrawlAction::Finished => break,
        }
    }
    run
}

#[test]
fn three_new_chapters_one_window() {
    let s = BatchScheduler::new(&tasks(&[1, 2, 3]), &vec![], 400, 300);
    let run = drive(s, &[]);
    assert_eq!(run.inserts.len(), 1);
    let keys: Vec<i32> = run.inserts[0].iter().map(|r| r.key).collect();
    assert_eq!(keys, vec![1, 2, 3]);
    for r in &run.inserts[0] {
        assert_eq!(r.content, format!("body {}", r.key));
        assert_eq!(r.title, format!("Chapter {}", r.key));
    }
    assert!(run.waits.is_empty());
}

#[test]
fn windows_and_waits() {
    let keys: Vec<i32> = (1..=10).collect();
    let s = BatchScheduler::new(&tasks(&keys), &vec![], 4, 7);
    assert_eq!(s.windows.len(), 3);
    let run = drive(s, &[]);
    assert_eq!(run.inserts.len(), 3);
    assert_eq!(run.inserts.iter().map(|b| b.len()).collect::<Vec<_>>(), vec![4, 4, 2]);
    assert_eq!(run.waits, vec![7, 7]);
    assert_eq!(run.fetched, keys);
}

#[test]
fn failed_chapter_left_out_of_its_window() {
    let s = BatchScheduler::new(&tasks(&[1, 2, 3, 4]), &vec![], 2, 1);
    let run = drive(s, &[3]);
    let keys: Vec<Vec<i32>> = run.inserts.iter().map(|b| b.iter().map(|r| r.key).collect()).collect();
    assert_eq!(keys, vec![vec![1, 2], vec![4]]);
    assert_eq!(run.waits.len(), 1);
}

#[test]
fn window_without_success_writes_nothing() {
    let s = BatchScheduler::new(&tasks(&[1, 2, 3]), &vec![], 2, 5);
    let run = drive(s, &[1, 2]);
    assert_eq!(run.inserts.len(), 1);
    assert_eq!(run.inserts[0][0].key, 3);
    assert_eq!(run.waits, vec![5]);
}

#[test]
fn second_run_fetches_nothing() {
    let all = tasks(&[1, 2, 3]);
    let first = drive(BatchScheduler::new(&all, &vec![], 400, 300), &[]);
    let stored: Vec<i32> = first.inserts.iter().flatten().map(|r| r.key).collect();
    let again = BatchScheduler::new(&all, &stored, 400, 300);
    assert!(again.is_finished());
    let second = drive(again, &[]);
    assert!(second.inserts.is_empty());
    assert!(second.fetched.is_empty());
}

#[test]
fn already_stored_chapters_are_skipped() {
    let s = BatchScheduler::new(&tasks(&[1, 2, 3]), &vec![2], 400, 300);
    let run = drive(s, &[]);
    assert_eq!(run.fetched, vec![1, 3]);
}

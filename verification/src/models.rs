//! The records the crawler stores and shows: books, chapters, sections, the
//! reading data, crawl tasks and the crawl status.

use vstd::prelude::*;

verus! {

/// A stored book.
#[derive(Debug, Clone)]
pub struct BookRecord {
    pub id: i64,
    pub website_book_id: Option<i64>,
    pub path_num: i64,
    pub title: String,
    pub filename: String,
    pub author: String,
    pub category: String,
    pub introduce: String,
    pub likes: i64,
    pub word_count: i64,
    pub page_count: i64,
    pub created_at: i64,
    pub updated_at: i64,
}

/// A stored chapter.
#[derive(Debug, Clone)]
pub struct ChapterRecord {
    pub id: i64,
    pub book_id: i64,
    pub title: String,
    pub url: String,
    pub chapter_order: i64,
    pub word_count: i64,
}

/// A stored page of a chapter.
#[derive(Debug, Clone)]
pub struct SectionRecord {
    pub id: i64,
    pub chapter_id: i64,
    pub book_id: i64,
    pub url: String,
    pub content: String,
    pub section_order: i64,
}

/// A book on the reader's shelf.
#[derive(Debug, Clone)]
pub struct BookshelfRecord {
    pub id: i64,
    pub book_id: i64,
    pub group_name: String,
    pub added_at: i64,
}

/// Where the reader stopped in a book.
#[derive(Debug, Clone)]
pub struct ReadingProgressRecord {
    pub id: i64,
    pub book_id: i64,
    pub chapter_order: i64,
    pub page_index: i64,
    pub last_read_at: i64,
    pub updated_at: i64,
}

/// A line of the crawl log.
#[derive(Debug, Clone)]
pub struct CrawlLogRecord {
    pub id: i64,
    pub level: String,
    pub message: String,
    pub created_at: i64,
}

/// The crawl task of one book.
#[derive(Debug, Clone)]
pub struct CrawlTaskRecord {
    pub id: i64,
    pub website_book_id: i64,
    pub book_id: Option<i64>,
    pub title: String,
    pub status: String,
    pub progress: i64,
    pub chapters_total: i64,
    pub chapters_done: i64,
    pub error_message: String,
    pub trigger: String,
    pub started_at: Option<i64>,
    pub finished_at: Option<i64>,
    pub created_at: i64,
    pub updated_at: i64,
}

/// A book as a plain search lists it.
#[derive(Debug, Clone)]
pub struct SearchRecord {
    pub id: i64,
    pub title: String,
    pub author: String,
    pub category: String,
    pub word_count: i64,
    pub chapter_count: i64,
    pub created_at: i64,
}

/// One reading session.
#[derive(Debug, Clone)]
pub struct ReadingSessionRecord {
    pub id: i64,
    pub book_id: i64,
    pub chapter_order: i64,
    pub duration_sec: i64,
    pub chapters_read: i64,
    pub started_at: i64,
    pub ended_at: i64,
}

/// The reader's daily goal.
#[derive(Debug, Clone)]
pub struct ReadingGoalRecord {
    pub id: i64,
    pub daily_minutes: i64,
    pub daily_chapters: i64,
    pub updated_at: i64,
}

/// How many crawl tasks are in each state.
#[derive(Debug, Clone)]
pub struct CrawlTaskStatusCount {
    pub pending: i64,
    pub running: i64,
    pub success: i64,
    pub failed: i64,
    pub skipped: i64,
    pub total: i64,
}

impl Default for CrawlTaskStatusCount {
    fn default() -> (res: Self)
        ensures
            res.pending == 0 && res.running == 0 && res.success == 0 && res.failed == 0
                && res.skipped == 0 && res.total == 0,
    {
        CrawlTaskStatusCount { pending: 0, running: 0, success: 0, failed: 0, skipped: 0, total: 0 }
    }
}

/// One book of the reading history.
#[derive(Debug, Clone)]
pub struct ReadingHistoryRow {
    pub book_id: i64,
    pub book_title: Option<String>,
    pub last_read_at: i64,
    pub last_chapter_order: i64,
    pub total_duration_sec: i64,
    pub chapters_read: i64,
}

/// The state of the crawler, as shown to the user.
#[derive(Debug, Clone)]
pub struct CrawlStatus {
    pub running: bool,
    pub current_page: u32,
    pub pages_limit: u32,
    pub books_found: u32,
    pub books_downloaded: u32,
    pub books_failed: u32,
    pub books_skipped: u32,
    pub last_run: String,
    pub message: String,
}

impl Default for CrawlStatus {
    fn default() -> (res: Self)
        ensures
            !res.running,
            res.current_page == 0 && res.pages_limit == 0 && res.books_found == 0,
            res.books_downloaded == 0 && res.books_failed == 0 && res.books_skipped == 0,
            res.last_run@.len() == 0 && res.message@.len() == 0,
    {
        CrawlStatus {
            running: false,
            current_page: 0,
            pages_limit: 0,
            books_found: 0,
            books_downloaded: 0,
            books_failed: 0,
            books_skipped: 0,
            last_run: String::new(),
            message: String::new(),
        }
    }
}

/// Limits of the download client.
#[derive(Debug)]
pub struct SpiderConfig {
    pub max_concurrent_tasks: usize,
    pub retry_attempts: u32,
    /// The wait before the first retry, in milliseconds.
    pub retry_delay: u64,
    /// The time a request may take, in seconds.
    pub request_timeout: u64,
}

impl Default for SpiderConfig {
    fn default() -> (res: Self)
        ensures
            res.max_concurrent_tasks == 16,
            res.retry_attempts == 3,
            res.retry_delay == 100,
            res.request_timeout == 5,
    {
        SpiderConfig { max_concurrent_tasks: 16, retry_attempts: 3, retry_delay: 100, request_timeout: 5 }
    }
}

impl SpiderConfig {
    /// The limits read from the settings `spider.request_timeout_secs`,
    /// `spider.retry_attempts`, `spider.retry_delay_ms` and
    /// `spider.max_concurrent_tasks`, each converted with `as` and defaulting
    /// to 15 seconds, 3 attempts, 100 ms and 16 tasks when unset.
    pub fn from_settings(
        request_timeout_secs: Option<i64>,
        retry_attempts: Option<i64>,
        retry_delay_ms: Option<i64>,
        max_concurrent_tasks: Option<i64>,
    ) -> (res: Self)
        ensures
            res.request_timeout == (match request_timeout_secs { Some(v) => v, None => 15 }) as u64,
            res.retry_attempts == (match retry_attempts { Some(v) => v, None => 3 }) as u32,
            res.retry_delay == (match retry_delay_ms { Some(v) => v, None => 100 }) as u64,
            res.max_concurrent_tasks == (match max_concurrent_tasks { Some(v) => v, None => 16 }) as usize,
    {
        let t: i64 = match request_timeout_secs { Some(v) => v, None => 15 };
        let a: i64 = match retry_attempts { Some(v) => v, None => 3 };
        let d: i64 = match retry_delay_ms { Some(v) => v, None => 100 };
        let m: i64 = match max_concurrent_tasks { Some(v) => v, None => 16 };
        SpiderConfig {
            max_concurrent_tasks: m as usize,
            retry_attempts: a as u32,
            retry_delay: d as u64,
            request_timeout: t as u64,
        }
    }
}

/// A book as the latest-update listing shows it.
#[derive(Debug, Clone)]
pub struct BookSummary {
    pub book_id: u32,
    pub book_num: u32,
    pub title: String,
    pub author: String,
    pub category: String,
    pub word_count: u32,
    pub latest_chapter_url: String,
}

} // verus!

use rusqlite::types::Value;
use rusqlite::{params_from_iter, Connection};
use twitch_translator::cache::{
    get_cache_path, CachedTranslation, CleanupInput, Param, Statement, TranslationCache,
};

/// A cache with an SQLite database in memory.
struct TestCache {
    conn: Connection,
    rules: TranslationCache,
}

fn values(statement: &Statement) -> Vec<Value> {
    statement
        .params
        .iter()
        .map(|p| match p {
            Param::Null => Value::Null,
            Param::Text(s) => Value::Text(s.clone()),
            Param::Integer(n) => Value::Integer(*n),
        })
        .collect()
}

fn create_test_cache() -> TestCache {
    let conn = Connection::open(":memory:").unwrap();
    for batch in TranslationCache::setup() {
        conn.execute_batch(batch).unwrap();
    }
    TestCache { conn, rules: TranslationCache::with_max_size(50 * 1024 * 1024) }
}

impl TestCache {
    fn insert(&self, text: &str, lang: &str, translation: &str, romanization: Option<&str>) {
        let s = self.rules.insert(text, lang, translation, romanization);
        self.conn.execute(s.sql, params_from_iter(values(&s))).unwrap();
    }

    fn get(&self, text: &str, lang: &str) -> Option<CachedTranslation> {
        let s = self.rules.get(text, lang);
        self.conn
            .query_row(s.sql, params_from_iter(values(&s)), |row| {
                Ok(CachedTranslation { translation: row.get(0)?, romanization: row.get(1)? })
            })
            .ok()
    }

    fn number(&self, s: &Statement) -> i64 {
        self.conn.query_row(s.sql, params_from_iter(values(s)), |row| row.get(0)).unwrap()
    }
}

#[test]
fn test_insert_and_get() {
    let cache = create_test_cache();

    cache.insert("привет", "ru", "hello", Some("privet"));

    let result = cache.get("привет", "ru");
    assert!(result.is_some());

    let cached = result.unwrap();
    assert_eq!(cached.translation, "hello");
    assert_eq!(cached.romanization, Some("privet".to_string()));
}

#[test]
fn test_cache_miss() {
    let cache = create_test_cache();

    let result = cache.get("nonexistent", "en");
    assert!(result.is_none());
}

#[test]
fn test_update_existing() {
    let cache = create_test_cache();

    cache.insert("test", "en", "first", None);
    cache.insert("test", "en", "second", Some("rom"));

    let result = cache.get("test", "en").unwrap();
    assert_eq!(result.translation, "second");
    assert_eq!(result.romanization, Some("rom".to_string()));
}

#[test]
fn updates_renew_the_times() {
    let cache = create_test_cache();
    cache.insert("test", "en", "first", None);
    cache.conn.execute("UPDATE translations SET created_at = 0, last_accessed = 0", []).unwrap();
    cache.insert("test", "en", "second", None);
    let times: (i64, i64) = cache
        .conn
        .query_row("SELECT created_at, last_accessed FROM translations", [], |row| {
            Ok((row.get(0)?, row.get(1)?))
        })
        .unwrap();
    assert!(times.0 > 0 && times.1 > 0);
}

#[test]
fn languages_are_kept_apart() {
    let cache = create_test_cache();
    cache.insert("test", "en", "a", None);
    cache.insert("test", "de", "b", None);
    assert_eq!(cache.get("test", "en").unwrap().translation, "a");
    assert_eq!(cache.get("test", "de").unwrap().translation, "b");
    assert_eq!(cache.get("test", "en").unwrap().romanization, None);
}

#[test]
fn cleanup_removes_a_fifth_of_the_table() {
    let mut cache = create_test_cache();
    for i in 0..11 {
        cache.insert(&format!("text {}", i), "en", "t", None);
    }
    assert!(cache.number(&cache.rules.size_bytes()) > 0);
    let count = cache.rules.cleanup_if_needed(CleanupInput::Size(u64::MAX)).unwrap();
    let total = cache.number(&count);
    assert_eq!(total, 11);
    let removal = cache.rules.cleanup_if_needed(CleanupInput::Total(total)).unwrap();
    cache.conn.execute(removal.sql, params_from_iter(values(&removal))).unwrap();
    assert!(cache.rules.cleanup_if_needed(CleanupInput::Removed).is_none());
    assert_eq!(cache.number(&cache.rules.entry_count()), 8);
}

#[test]
fn removal_counts() {
    let mut rules = TranslationCache::with_max_size(0);
    let mut count = |total: i64| match rules.cleanup_if_needed(CleanupInput::Total(total)) {
        Some(s) => match s.params[0] {
            Param::Integer(n) => n,
            _ => panic!("no number"),
        },
        None => 0,
    };
    assert_eq!(count(-7), 0);
    assert_eq!(count(0), 0);
    assert_eq!(count(1), 1);
    assert_eq!(count(5), 1);
    assert_eq!(count(6), 2);
    assert_eq!(count(100), 20);
}

#[test]
fn size_is_checked_every_fifty_inserts() {
    let mut rules = TranslationCache::with_max_size(100);
    let mut checks = Vec::new();
    for i in 0..101 {
        if rules.inserted() {
            checks.push(i);
        }
    }
    assert_eq!(checks, vec![0, 50, 100]);
    assert!(rules.cleanup_if_needed(CleanupInput::Size(100)).is_none());
    assert!(rules.cleanup_if_needed(CleanupInput::Size(101)).is_some());
    let mut full = TranslationCache { max_size_bytes: 0, cleanup_count: 0, insert_count: u32::MAX };
    assert!(!full.inserted());
    assert_eq!(full.insert_count, 0);
}

#[test]
fn every_fifth_cleanup_shrinks_the_file() {
    let mut rules = TranslationCache::with_max_size(100);
    let mut shrinks = Vec::new();
    for i in 1..11 {
        if let Some(s) = rules.cleanup_if_needed(CleanupInput::Removed) {
            assert_eq!(s.sql, "VACUUM");
            shrinks.push(i);
        }
    }
    assert_eq!(shrinks, vec![5, 10]);
}

#[test]
fn cache_path() {
    assert_eq!(get_cache_path(true), "data/translation_cache.db");
    assert_eq!(get_cache_path(false), "translation_cache.db");
}

//! Persistent translation cache: the statements that it runs on its SQLite
//! database and the rules by which it stays below its size limit.
//!
//! When the database exceeds the configured size limit, oldest entries are
//! purged. The statements themselves are run by the program around the library.

use crate::text::{has_word, word_at};
use vstd::prelude::*;

verus! {

/// Number of inserts between cache size checks.
pub const CLEANUP_CHECK_INTERVAL: u32 = 50;

/// One entry in this many is removed when the cache is full (20%).
pub const CLEANUP_DIVISOR: i64 = 5;

/// Number of cleanup operations before running VACUUM.
pub const VACUUM_FREQUENCY: u32 = 5;

/// Turns on the write-ahead log, so that readers and writers do not block each
/// other.
pub const JOURNAL_SQL: &'static str = "PRAGMA journal_mode=WAL;";

/// Losing the last transaction on a power failure is acceptable for a cache.
pub const SYNCHRONOUS_SQL: &'static str = "PRAGMA synchronous=NORMAL;";

/// The table of the cache. A pair of text and language occurs once.
pub const SCHEMA_SQL: &'static str =
    "CREATE TABLE IF NOT EXISTS translations (id INTEGER PRIMARY KEY AUTOINCREMENT, source_text TEXT NOT NULL, source_lang TEXT NOT NULL, translation TEXT NOT NULL, romanization TEXT, created_at INTEGER NOT NULL DEFAULT (strftime('%s', 'now')), last_accessed INTEGER NOT NULL DEFAULT (strftime('%s', 'now')), UNIQUE(source_text, source_lang)); CREATE INDEX IF NOT EXISTS idx_translations_last_accessed ON translations(last_accessed);";

/// Fetches an entry and marks it as used now.
pub const LOOKUP_SQL: &'static str =
    "UPDATE translations SET last_accessed = strftime('%s', 'now') WHERE source_text = ?1 AND source_lang = ?2 RETURNING translation, romanization";

/// Adds an entry, or replaces the one with the same text and language and marks
/// it as made and used now.
pub const INSERT_SQL: &'static str =
    "INSERT INTO translations (source_text, source_lang, translation, romanization) VALUES (?1, ?2, ?3, ?4) ON CONFLICT(source_text, source_lang) DO UPDATE SET translation = excluded.translation, romanization = excluded.romanization, created_at = strftime('%s', 'now'), last_accessed = strftime('%s', 'now')";

/// The size of the database in bytes.
pub const SIZE_SQL: &'static str =
    "SELECT page_count * page_size FROM pragma_page_count(), pragma_page_size()";

/// The number of entries.
pub const COUNT_SQL: &'static str = "SELECT COUNT(*) FROM translations";

/// Removes the entries that were used longest ago.
pub const REMOVE_SQL: &'static str =
    "DELETE FROM translations WHERE id IN (SELECT id FROM translations ORDER BY last_accessed ASC LIMIT ?1)";

/// Gives freed pages back to the file system.
pub const VACUUM_SQL: &'static str = "VACUUM";

/// Result of a translation lookup.
#[derive(Debug, Clone)]
pub struct CachedTranslation {
    /// The translated text.
    pub translation: String,
    /// Romanization/pronunciation of the source text (if available).
    pub romanization: Option<String>,
}

/// What a translation holds: the text and, where there is one, the
/// romanization.
pub struct TranslationModel {
    pub translation: Seq<char>,
    pub romanization: Option<Seq<char>>,
}

impl DeepView for CachedTranslation {
    type V = TranslationModel;

    open spec fn deep_view(&self) -> TranslationModel {
        TranslationModel {
            translation: self.translation@,
            romanization: self.romanization.deep_view(),
        }
    }
}

/// A value that a statement is given.
#[derive(Debug, Clone)]
pub enum Param {
    /// No value.
    Null,
    /// A text.
    Text(String),
    /// A number.
    Integer(i64),
}

/// What a [`Param`] holds.
pub enum ParamModel {
    Null,
    Text(Seq<char>),
    Integer(int),
}

impl DeepView for Param {
    type V = ParamModel;

    open spec fn deep_view(&self) -> ParamModel {
        match self {
            Param::Null => ParamModel::Null,
            Param::Text(s) => ParamModel::Text(s@),
            Param::Integer(n) => ParamModel::Integer(*n as int),
        }
    }
}

/// A statement for the database, with the values of its parameters.
#[derive(Debug, Clone)]
pub struct Statement {
    /// The statement in SQL.
    pub sql: &'static str,
    /// The values of `?1`, `?2` and so on.
    pub params: Vec<Param>,
}

/// What a [`Statement`] holds.
pub struct StatementModel {
    pub sql: Seq<char>,
    pub params: Seq<ParamModel>,
}

impl DeepView for Statement {
    type V = StatementModel;

    open spec fn deep_view(&self) -> StatementModel {
        StatementModel { sql: self.sql@, params: self.params.deep_view() }
    }
}

/// The statement that looks up a text of a language.
pub open spec fn lookup_of(text: Seq<char>, source_lang: Seq<char>) -> StatementModel {
    StatementModel {
        sql: LOOKUP_SQL@,
        params: seq![ParamModel::Text(text), ParamModel::Text(source_lang)],
    }
}

/// A romanization as a parameter: no value where there is none.
pub open spec fn optional_param(text: Option<Seq<char>>) -> ParamModel {
    match text {
        Some(s) => ParamModel::Text(s),
        None => ParamModel::Null,
    }
}

/// The statement that stores the translation of a text of a language.
pub open spec fn insertion_of(
    text: Seq<char>,
    source_lang: Seq<char>,
    row: TranslationModel,
) -> StatementModel {
    StatementModel {
        sql: INSERT_SQL@,
        params: seq![
            ParamModel::Text(text),
            ParamModel::Text(source_lang),
            ParamModel::Text(row.translation),
            optional_param(row.romanization),
        ],
    }
}

/// One fifth of the entries, rounded up.
pub open spec fn entries_to_remove(total: int) -> int {
    -((-total) / (CLEANUP_DIVISOR as int))
}

/// A statement without parameters.
pub open spec fn bare_statement(sql: Seq<char>) -> StatementModel {
    StatementModel { sql, params: Seq::empty() }
}

/// The statement that removes the oldest entries of a table with `total`
/// entries; none where there is nothing to remove.
pub open spec fn removal_of(total: int) -> Option<StatementModel> {
    if entries_to_remove(total) > 0 {
        Some(
            StatementModel {
                sql: REMOVE_SQL@,
                params: seq![ParamModel::Integer(entries_to_remove(total))],
            },
        )
    } else {
        None
    }
}

/// The statement that shrinks the file after the given number of cleanups: it
/// follows every fifth one.
pub open spec fn shrinking_of(cleanups: int) -> Option<StatementModel> {
    if cleanups % VACUUM_FREQUENCY as int == 0 {
        Some(bare_statement(VACUUM_SQL@))
    } else {
        None
    }
}

/// Whether the size is to be checked at an insert, by the number of inserts
/// before it.
pub open spec fn check_is_due(inserts: int) -> bool {
    inserts % CLEANUP_CHECK_INTERVAL as int == 0
}

/// The number of inserts after one more, in 32 bits.
pub open spec fn next_insert_count(inserts: u32) -> u32 {
    if inserts == u32::MAX {
        0
    } else {
        (inserts + 1) as u32
    }
}

/// The statement that a cleanup runs next, by the size limit and the number of
/// removals so far, the last one included.
pub open spec fn cleanup_step(max_size: u64, removals: int, input: CleanupInput) -> Option<
    StatementModel,
> {
    match input {
        CleanupInput::Size(size) => if size > max_size {
            Some(bare_statement(COUNT_SQL@))
        } else {
            None
        },
        CleanupInput::Total(total) => removal_of(total as int),
        CleanupInput::Removed => shrinking_of(removals),
    }
}

/// Something that is known in the course of a cleanup.
#[derive(Debug, Clone, Copy, PartialEq, Eq, Structural)]
pub enum CleanupInput {
    /// The size of the database in bytes.
    Size(u64),
    /// The number of entries.
    Total(i64),
    /// The oldest entries were removed.
    Removed,
}

/// The rules of the translation cache and the counts that they go by.
#[derive(Debug, Clone, Copy)]
pub struct TranslationCache {
    /// Maximum cache size in bytes.
    pub max_size_bytes: u64,
    /// Number of cleanup operations so far, to batch VACUUM calls.
    pub cleanup_count: u32,
    /// Number of inserts so far, to rate-limit cleanup size checks.
    pub insert_count: u32,
}

impl TranslationCache {
    /// A cache with the given size limit in bytes and nothing counted yet.
    pub fn with_max_size(max_size_bytes: u64) -> (r: TranslationCache)
        ensures
            r == (TranslationCache { max_size_bytes, cleanup_count: 0, insert_count: 0 }),
    {
        TranslationCache { max_size_bytes, cleanup_count: 0, insert_count: 0 }
    }

    /// The batches that prepare the database, in order.
    pub fn setup() -> (r: Vec<&'static str>)
        ensures
            r@ == seq![JOURNAL_SQL, SYNCHRONOUS_SQL, SCHEMA_SQL],
    {
        vec![JOURNAL_SQL, SYNCHRONOUS_SQL, SCHEMA_SQL]
    }

    /// The statement that gets a cached translation and marks it as used now.
    pub fn get(&self, text: &str, source_lang: &str) -> (r: Statement)
        ensures
            r.deep_view() == lookup_of(text@, source_lang@),
    {
        let r = Statement {
            sql: LOOKUP_SQL,
            params: vec![Param::Text(text.to_string()), Param::Text(source_lang.to_string())],
        };
        assert(r.params.deep_view() =~= lookup_of(text@, source_lang@).params);
        r
    }

    /// The statement that inserts a translation, or updates the entry that
    /// exists.
    pub fn insert(
        &self,
        text: &str,
        source_lang: &str,
        translation: &str,
        romanization: Option<&str>,
    ) -> (r: Statement)
        ensures
            r.deep_view() == insertion_of(
                text@,
                source_lang@,
                TranslationModel { translation: translation@, romanization: romanization.deep_view() },
            ),
    {
        let last = match romanization {
            Some(s) => Param::Text(s.to_string()),
            None => Param::Null,
        };
        let ghost row = TranslationModel {
            translation: translation@,
            romanization: romanization.deep_view(),
        };
        let r = Statement {
            sql: INSERT_SQL,
            params: vec![
                Param::Text(text.to_string()),
                Param::Text(source_lang.to_string()),
                Param::Text(translation.to_string()),
                last,
            ],
        };
        assert(r.params.deep_view() =~= insertion_of(text@, source_lang@, row).params);
        r
    }

    /// Counts an insert that was done. The size is to be checked now if the
    /// number of inserts before it is a multiple of the check interval.
    pub fn inserted(&mut self) -> (check_size: bool)
        ensures
            check_size == (old(self).insert_count as int % CLEANUP_CHECK_INTERVAL as int == 0),
            final(self).insert_count == if old(self).insert_count == u32::MAX {
                0
            } else {
                (old(self).insert_count + 1) as u32
            },
            check_size == check_is_due(old(self).insert_count as int),
            final(self).insert_count == next_insert_count(old(self).insert_count),
            final(self).max_size_bytes == old(self).max_size_bytes,
            final(self).cleanup_count == old(self).cleanup_count,
    {
        let before = self.insert_count;
        self.insert_count = if before == u32::MAX {
            0
        } else {
            before + 1
        };
        before % CLEANUP_CHECK_INTERVAL == 0
    }

    /// The statement whose only value is the size of the database in bytes.
    pub fn size_bytes(&self) -> (r: Statement)
        ensures
            r.deep_view() == bare_statement(SIZE_SQL@),
    {
        let r = Statement { sql: SIZE_SQL, params: Vec::new() };
        assert(r.params.deep_view() =~= Seq::<ParamModel>::empty());
        r
    }

    /// The statement whose only value is the number of entries.
    pub fn entry_count(&self) -> (r: Statement)
        ensures
            r.deep_view() == bare_statement(COUNT_SQL@),
    {
        let r = Statement { sql: COUNT_SQL, params: Vec::new() };
        assert(r.params.deep_view() =~= Seq::<ParamModel>::empty());
        r
    }

    /// The statement that removes the oldest fifth of the entries; none where
    /// there is nothing to remove.
    fn removal(&self, total_count: i64) -> (r: Option<Statement>)
        ensures
            r.deep_view() == removal_of(total_count as int),
    {
        if total_count <= 0 {
            return None;
        }
        let full: i64 = total_count / CLEANUP_DIVISOR;
        let remove_count: i64 = if total_count % CLEANUP_DIVISOR == 0 {
            full
        } else {
            full + 1
        };
        assert(remove_count == entries_to_remove(total_count as int));
        let r = Statement { sql: REMOVE_SQL, params: vec![Param::Integer(remove_count)] };
        assert(r.params.deep_view() =~= seq![ParamModel::Integer(remove_count as int)]);
        Some(r)
    }

    /// Counts a cleanup that was done. Every fifth one is followed by the
    /// statement that shrinks the file.
    fn cleaned(&mut self) -> (r: Option<Statement>)
        requires
            old(self).cleanup_count < u32::MAX,
        ensures
            final(self).cleanup_count == old(self).cleanup_count + 1,
            final(self).max_size_bytes == old(self).max_size_bytes,
            final(self).insert_count == old(self).insert_count,
            r.deep_view() == shrinking_of(final(self).cleanup_count as int),
    {
        self.cleanup_count = self.cleanup_count + 1;
        if self.cleanup_count % VACUUM_FREQUENCY == 0 {
            let r = Statement { sql: VACUUM_SQL, params: Vec::new() };
            assert(r.params.deep_view() =~= Seq::<ParamModel>::empty());
            Some(r)
        } else {
            None
        }
    }

    /// The statement that a cleanup runs next, none where it is done: above the
    /// size limit the entries are counted, then the oldest fifth of them is
    /// removed, and after every fifth removal the file is shrunk.
    pub fn cleanup_if_needed(&mut self, input: CleanupInput) -> (r: Option<Statement>)
        requires
            input is Removed ==> old(self).cleanup_count < u32::MAX,
        ensures
            final(self).max_size_bytes == old(self).max_size_bytes,
            final(self).insert_count == old(self).insert_count,
            final(self).cleanup_count == old(self).cleanup_count + if input is Removed {
                1int
            } else {
                0int
            },
            r.deep_view() == match input {
                CleanupInput::Size(size) => if size > old(self).max_size_bytes {
                    Some(bare_statement(COUNT_SQL@))
                } else {
                    None
                },
                CleanupInput::Total(total) => removal_of(total as int),
                CleanupInput::Removed => shrinking_of(final(self).cleanup_count as int),
            },
            r.deep_view() == cleanup_step(
                old(self).max_size_bytes,
                final(self).cleanup_count as int,
                input,
            ),
    {
        match input {
            CleanupInput::Size(size) => if size > self.max_size_bytes {
                Some(self.entry_count())
            } else {
                None
            },
            CleanupInput::Total(total) => self.removal(total),
            CleanupInput::Removed => self.cleaned(),
        }
    }
}

/// The path of the database: below `data/` if that directory exists (e.g., a
/// mounted volume), else in the current directory.
pub fn get_cache_path(data_dir_exists: bool) -> (r: &'static str)
    ensures
        r@ == if data_dir_exists {
            "data/translation_cache.db"@
        } else {
            "translation_cache.db"@
        },
{
    if data_dir_exists {
        "data/translation_cache.db"
    } else {
        "translation_cache.db"
    }
}

/// A cleanup removes something from every table that holds something, at most
/// all of it, and at least a fifth of it but less than one entry more.
pub proof fn law_cleanup_removes_a_fifth(total: int)
    requires
        total > 0,
    ensures
        1 <= entries_to_remove(total) <= total,
        5 * entries_to_remove(total) >= total,
        5 * (entries_to_remove(total) - 1) < total,
{
}

/// The size is checked at the first insert and at every fiftieth after it, and
/// at no other.
pub proof fn law_size_is_checked_every_fifty_inserts(round: nat, i: nat)
    requires
        i < 50,
    ensures
        check_is_due((50 * round + i) as int) <==> i == 0,
{
}

/// Inserts are counted one by one, from zero again after the last number.
pub proof fn law_inserts_are_counted(inserts: u32)
    ensures
        next_insert_count(inserts) as int == (inserts + 1) % 0x1_0000_0000,
{
}

/// A cleanup begins exactly where the database is larger than it may be: the
/// entries are counted, and then a fifth of them, rounded up, is removed.
pub proof fn law_cleanup_keeps_the_limit(max_size: u64, size: u64, total: i64, removals: int)
    ensures
        cleanup_step(max_size, removals, CleanupInput::Size(size)) is Some <==> size > max_size,
        cleanup_step(max_size, removals, CleanupInput::Size(size)) matches Some(statement)
            ==> statement.sql == COUNT_SQL@ && statement.params.len() == 0,
        cleanup_step(max_size, removals, CleanupInput::Total(total)) is Some <==> total > 0,
        cleanup_step(max_size, removals, CleanupInput::Total(total)) matches Some(statement)
            ==> statement.sql == REMOVE_SQL@ && statement.params.len() == 1 && (
        statement.params[0] matches ParamModel::Integer(n) && 5 * n >= total && 5 * (n - 1)
            < total),
{
}

/// After the fifth removal, and after every fifth one from there, the file is
/// shrunk; after no other.
pub proof fn law_every_fifth_removal_shrinks_the_file(max_size: u64, round: nat, i: nat)
    requires
        1 <= i <= 5,
    ensures
        ({
            let next = cleanup_step(max_size, (5 * round + i) as int, CleanupInput::Removed);
            &&& next is Some <==> i == 5
            &&& next matches Some(statement) ==> statement.sql == VACUUM_SQL@
                && statement.params.len() == 0
        }),
{
}

/// What is stored for a text and a language is looked up by the same text and
/// language, and by no others.
pub proof fn law_lookup_matches_insertion(
    text: Seq<char>,
    lang: Seq<char>,
    row: TranslationModel,
    other_text: Seq<char>,
    other_lang: Seq<char>,
)
    ensures
        ({
            let stored = insertion_of(text, lang, row).params;
            let asked = lookup_of(other_text, other_lang).params;
            &&& stored.len() == 4 && asked.len() == 2
            &&& stored[0] == asked[0] && stored[1] == asked[1] <==> text == other_text && lang
                == other_lang
            &&& stored[2] == ParamModel::Text(row.translation)
            &&& stored[3] == if row.romanization is Some {
                ParamModel::Text(row.romanization->0)
            } else {
                ParamModel::Null
            }
        }),
{
}

/// The statements speak of the same columns: a lookup marks the entry that it
/// finds as used, an insertion replaces what stood there for the same text and
/// language and renews both times, and what is removed is what was used longest
/// ago.
pub proof fn law_statements_go_by_use()
    ensures
        has_word(LOOKUP_SQL@, "UPDATE translations SET last_accessed = strftime('%s', 'now') WHERE"@),
        has_word(LOOKUP_SQL@, "WHERE source_text = ?1 AND source_lang = ?2 RETURNING translation, romanization"@),
        has_word(REMOVE_SQL@, "DELETE FROM translations WHERE id IN (SELECT id FROM translations"@),
        has_word(REMOVE_SQL@, "ORDER BY last_accessed ASC LIMIT ?1"@),
        has_word(INSERT_SQL@, "(source_text, source_lang, translation, romanization) VALUES (?1, ?2, ?3, ?4)"@),
        has_word(INSERT_SQL@, "DO UPDATE SET translation = excluded.translation, romanization = excluded.romanization"@),
        has_word(INSERT_SQL@, "created_at = strftime('%s', 'now'), last_accessed = strftime('%s', 'now')"@),
        has_word(SCHEMA_SQL@, "UNIQUE(source_text, source_lang)"@),
{
    reveal_strlit("UPDATE translations SET last_accessed = strftime('%s', 'now') WHERE source_text = ?1 AND source_lang = ?2 RETURNING translation, romanization");
    reveal_strlit("UPDATE translations SET last_accessed = strftime('%s', 'now') WHERE");
    assert(LOOKUP_SQL@.subrange(0, 67) =~= "UPDATE translations SET last_accessed = strftime('%s', 'now') WHERE"@);
    assert(word_at(LOOKUP_SQL@, "UPDATE translations SET last_accessed = strftime('%s', 'now') WHERE"@, 0));
    reveal_strlit("WHERE source_text = ?1 AND source_lang = ?2 RETURNING translation, romanization");
    assert(LOOKUP_SQL@.subrange(62, 141) =~= "WHERE source_text = ?1 AND source_lang = ?2 RETURNING translation, romanization"@);
    assert(word_at(LOOKUP_SQL@, "WHERE source_text = ?1 AND source_lang = ?2 RETURNING translation, romanization"@, 62));
    reveal_strlit("DELETE FROM translations WHERE id IN (SELECT id FROM translations ORDER BY last_accessed ASC LIMIT ?1)");
    reveal_strlit("DELETE FROM translations WHERE id IN (SELECT id FROM translations");
    assert(REMOVE_SQL@.subrange(0, 65) =~= "DELETE FROM translations WHERE id IN (SELECT id FROM translations"@);
    assert(word_at(REMOVE_SQL@, "DELETE FROM translations WHERE id IN (SELECT id FROM translations"@, 0));
    reveal_strlit("ORDER BY last_accessed ASC LIMIT ?1");
    assert(REMOVE_SQL@.subrange(66, 101) =~= "ORDER BY last_accessed ASC LIMIT ?1"@);
    assert(word_at(REMOVE_SQL@, "ORDER BY last_accessed ASC LIMIT ?1"@, 66));
    reveal_strlit("INSERT INTO translations (source_text, source_lang, translation, romanization) VALUES (?1, ?2, ?3, ?4) ON CONFLICT(source_text, source_lang) DO UPDATE SET translation = excluded.translation, romanization = excluded.romanization, created_at = strftime('%s', 'now'), last_accessed = strftime('%s', 'now')");
    reveal_strlit("(source_text, source_lang, translation, romanization) VALUES (?1, ?2, ?3, ?4)");
    assert(INSERT_SQL@.subrange(25, 102) =~= "(source_text, source_lang, translation, romanization) VALUES (?1, ?2, ?3, ?4)"@);
    assert(word_at(INSERT_SQL@, "(source_text, source_lang, translation, romanization) VALUES (?1, ?2, ?3, ?4)"@, 25));
    reveal_strlit("DO UPDATE SET translation = excluded.translation, romanization = excluded.romanization");
    assert(INSERT_SQL@.subrange(141, 227) =~= "DO UPDATE SET translation = excluded.translation, romanization = excluded.romanization"@);
    assert(word_at(INSERT_SQL@, "DO UPDATE SET translation = excluded.translation, romanization = excluded.romanization"@, 141));
    reveal_strlit("created_at = strftime('%s', 'now'), last_accessed = strftime('%s', 'now')");
    assert(INSERT_SQL@.subrange(229, 302) =~= "created_at = strftime('%s', 'now'), last_accessed = strftime('%s', 'now')"@);
    assert(word_at(INSERT_SQL@, "created_at = strftime('%s', 'now'), last_accessed = strftime('%s', 'now')"@, 229));
    reveal_strlit("CREATE TABLE IF NOT EXISTS translations (id INTEGER PRIMARY KEY AUTOINCREMENT, source_text TEXT NOT NULL, source_lang TEXT NOT NULL, translation TEXT NOT NULL, romanization TEXT, created_at INTEGER NOT NULL DEFAULT (strftime('%s', 'now')), last_accessed INTEGER NOT NULL DEFAULT (strftime('%s', 'now')), UNIQUE(source_text, source_lang)); CREATE INDEX IF NOT EXISTS idx_translations_last_accessed ON translations(last_accessed);");
    reveal_strlit("UNIQUE(source_text, source_lang)");
    assert(SCHEMA_SQL@.subrange(304, 336) =~= "UNIQUE(source_text, source_lang)"@);
    assert(word_at(SCHEMA_SQL@, "UNIQUE(source_text, source_lang)"@, 304));
}

} // verus!

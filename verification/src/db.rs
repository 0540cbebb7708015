//! The statements that the tag database runs, and the decisions its
//! operations make between them: which rows a folder pattern matches, whether
//! a toggle adds or removes a tag, and which parent a new tag gets.
use vstd::prelude::*;
use crate::text::byte_len;

verus! {

/// Creates the table of tags: a unique name and an optional parent tag.
pub const CREATE_TAGS_SQL: &'static str = "CREATE TABLE IF NOT EXISTS tags (
            id INTEGER PRIMARY KEY,
            name TEXT UNIQUE NOT NULL,
            parent_id INTEGER,
            FOREIGN KEY(parent_id) REFERENCES tags(id)
        )";

/// Creates the table of recorded entries: a unique path relative to the indexed root, and whether it is a directory.
pub const CREATE_FILES_SQL: &'static str = "CREATE TABLE IF NOT EXISTS files (
            id INTEGER PRIMARY KEY,
            rel_path TEXT UNIQUE NOT NULL,
            is_dir BOOLEAN NOT NULL DEFAULT 0
        )";

/// Creates the table that links entries to the tags they carry.
pub const CREATE_FILE_TAGS_SQL: &'static str = "CREATE TABLE IF NOT EXISTS file_tags (
            file_id INTEGER,
            tag_id INTEGER,
            PRIMARY KEY (file_id, tag_id),
            FOREIGN KEY(file_id) REFERENCES files(id) ON DELETE CASCADE,
            FOREIGN KEY(tag_id) REFERENCES tags(id) ON DELETE CASCADE
        )";

/// Finds the id of the tag named `?1`.
pub const FIND_TAG_SQL: &'static str = "SELECT id FROM tags WHERE name = ?1";

/// Adds the tag `?1` with parent `?2`, unless a tag of that name exists.
pub const INSERT_TAG_SQL: &'static str = "INSERT OR IGNORE INTO tags (name, parent_id) VALUES (?1, ?2)";

/// The names of the tags that entry `?1` carries, in order.
pub const TAGS_OF_FILE_SQL: &'static str = "SELECT t.name FROM tags t
         JOIN file_tags ft ON t.id = ft.tag_id
         WHERE ft.file_id = ?1
         ORDER BY t.name";

/// How many times entry `?1` carries tag `?2`.
pub const COUNT_FILE_TAG_SQL: &'static str = "SELECT count(*) FROM file_tags WHERE file_id = ?1 AND tag_id = ?2";

/// Removes tag `?2` from entry `?1`.
pub const UNTAG_FILE_SQL: &'static str = "DELETE FROM file_tags WHERE file_id = ?1 AND tag_id = ?2";

/// Adds tag `?2` to entry `?1`.
pub const TAG_FILE_SQL: &'static str = "INSERT INTO file_tags (file_id, tag_id) VALUES (?1, ?2)";

/// The names of the tags that every file whose path is like `?1` carries, in order.
pub const TAGS_OF_FOLDER_SQL: &'static str = "SELECT t.name FROM tags t
         JOIN file_tags ft ON t.id = ft.tag_id
         JOIN files f ON ft.file_id = f.id
         WHERE f.rel_path LIKE ?1 AND f.is_dir = 0
         GROUP BY t.id
         HAVING COUNT(f.id) = (SELECT COUNT(*) FROM files WHERE rel_path LIKE ?1 AND is_dir = 0)
         ORDER BY t.name";

/// How many files whose path is like `?1` lack tag `?2`.
pub const COUNT_UNTAGGED_IN_FOLDER_SQL: &'static str = "SELECT COUNT(*) FROM files f 
         WHERE f.rel_path LIKE ?1 AND f.is_dir = 0 AND f.id NOT IN (
             SELECT file_id FROM file_tags WHERE tag_id = ?2
         )";

/// Adds tag `?2` to every file whose path is like `?1` that lacks it.
pub const TAG_FOLDER_SQL: &'static str = "INSERT OR IGNORE INTO file_tags (file_id, tag_id)
             SELECT id, ?2 FROM files WHERE rel_path LIKE ?1 AND is_dir = 0";

/// Removes tag `?2` from every file whose path is like `?1`.
pub const UNTAG_FOLDER_SQL: &'static str = "DELETE FROM file_tags 
             WHERE tag_id = ?2 AND file_id IN (
                 SELECT id FROM files WHERE rel_path LIKE ?1 AND is_dir = 0
             )";

/// Records the entry at path `?2` under the path `?1`.
pub const RENAME_ENTRY_SQL: &'static str = "UPDATE files SET rel_path = ?1 WHERE rel_path = ?2";

/// Records every entry whose path is like `?3` under `?1` followed by its path after its first `?2` characters.
pub const RENAME_CHILDREN_SQL: &'static str = "UPDATE files SET rel_path = ?1 || SUBSTR(rel_path, ?2 + 1) WHERE rel_path LIKE ?3";

/// Removes the entries whose path, or a directory on it, is hidden.
pub const PURGE_HIDDEN_SQL: &'static str = "DELETE FROM files WHERE rel_path LIKE '.%' OR rel_path LIKE '%/.%'";

/// Records an entry at path `?1` (a directory where `?2` is 1), unless it is recorded.
pub const INSERT_ENTRY_SQL: &'static str = "INSERT OR IGNORE INTO files (rel_path, is_dir) VALUES (?1, ?2)";

/// The names of all tags, in order.
pub const ALL_TAGS_SQL: &'static str = "SELECT name FROM tags ORDER BY name";

/// A value bound to a statement's parameter.
pub enum SqlValue {
    Text(String),
    Int(i64),
    Null,
}

pub enum SqlValueView {
    Text(Seq<char>),
    Int(i64),
    Null,
}

impl View for SqlValue {
    type V = SqlValueView;

    open spec fn view(&self) -> SqlValueView {
        match self {
            SqlValue::Text(s) => SqlValueView::Text(s@),
            SqlValue::Int(i) => SqlValueView::Int(*i),
            SqlValue::Null => SqlValueView::Null,
        }
    }
}

/// A statement and the values of its parameters, `?1` being the first.
pub struct Statement {
    pub sql: String,
    pub params: Vec<SqlValue>,
}

pub struct StatementView {
    pub sql: Seq<char>,
    pub params: Seq<SqlValueView>,
}

impl View for Statement {
    type V = StatementView;

    open spec fn view(&self) -> StatementView {
        StatementView { sql: self.sql@, params: self.params@.map_values(|v: SqlValue| v@) }
    }
}

pub open spec fn statement(sql: &str, params: Seq<SqlValueView>) -> StatementView {
    StatementView { sql: sql@, params }
}

fn make(sql: &str, params: Vec<SqlValue>) -> (s: Statement)
    ensures
        s@ == statement(sql, params@.map_values(|v: SqlValue| v@)),
{
    Statement { sql: String::from_str(sql), params }
}

/// The `LIKE` pattern for every path under `folder`: `folder/%`.
pub open spec fn folder_pattern_of(folder: Seq<char>) -> Seq<char> {
    folder + "/%"@
}

/// The `LIKE` pattern for every path under `folder`.
pub fn folder_pattern(folder: &str) -> (p: String)
    ensures
        p@ == folder_pattern_of(folder@),
{
    let mut p = String::from_str(folder);
    p.append("/%");
    p
}

/// Finds the id of the tag named `name`.
pub fn find_tag(name: &str) -> (s: Statement)
    ensures
        s@ == statement(FIND_TAG_SQL, seq![SqlValueView::Text(name@)]),
{
    let params = vec![SqlValue::Text(String::from_str(name))];
    assert(params@.map_values(|v: SqlValue| v@) =~= seq![SqlValueView::Text(name@)]);
    make(FIND_TAG_SQL, params)
}

/// Adds the tag `name` under the parent with id `parent_id`, if any.
pub fn insert_tag(name: &str, parent_id: Option<i64>) -> (s: Statement)
    ensures
        s@ == statement(
            INSERT_TAG_SQL,
            seq![
                SqlValueView::Text(name@),
                match parent_id {
                    Some(id) => SqlValueView::Int(id),
                    None => SqlValueView::Null,
                },
            ],
        ),
{
    let parent = match parent_id {
        Some(id) => SqlValue::Int(id),
        None => SqlValue::Null,
    };
    let params = vec![SqlValue::Text(String::from_str(name)), parent];
    assert(params@.map_values(|v: SqlValue| v@) =~= seq![
        SqlValueView::Text(name@),
        match parent_id {
            Some(id) => SqlValueView::Int(id),
            None => SqlValueView::Null,
        },
    ]);
    make(INSERT_TAG_SQL, params)
}

/// The tags that the entry with id `file_id` carries.
pub fn tags_of_file(file_id: i64) -> (s: Statement)
    ensures
        s@ == statement(TAGS_OF_FILE_SQL, seq![SqlValueView::Int(file_id)]),
{
    let params = vec![SqlValue::Int(file_id)];
    assert(params@.map_values(|v: SqlValue| v@) =~= seq![SqlValueView::Int(file_id)]);
    make(TAGS_OF_FILE_SQL, params)
}

/// How many times the entry carries the tag.
pub fn count_file_tag(file_id: i64, tag_id: i64) -> (s: Statement)
    ensures
        s@ == statement(
            COUNT_FILE_TAG_SQL,
            seq![SqlValueView::Int(file_id), SqlValueView::Int(tag_id)],
        ),
{
    let params = vec![SqlValue::Int(file_id), SqlValue::Int(tag_id)];
    assert(params@.map_values(|v: SqlValue| v@) =~= seq![
        SqlValueView::Int(file_id),
        SqlValueView::Int(tag_id),
    ]);
    make(COUNT_FILE_TAG_SQL, params)
}

/// Toggles a tag on a file that carries it on `existing_links` rows: where
/// it carries it on none, the statement adds it and the toggle reports
/// `true`; otherwise the statement removes it and the toggle reports `false`.
pub fn toggle_file_tag(file_id: i64, tag_id: i64, existing_links: i64) -> (r: (Statement, bool))
    ensures
        r.1 == (existing_links <= 0),
        r.0@ == statement(
            if r.1 { TAG_FILE_SQL } else { UNTAG_FILE_SQL },
            seq![SqlValueView::Int(file_id), SqlValueView::Int(tag_id)],
        ),
{
    let params = vec![SqlValue::Int(file_id), SqlValue::Int(tag_id)];
    assert(params@.map_values(|v: SqlValue| v@) =~= seq![
        SqlValueView::Int(file_id),
        SqlValueView::Int(tag_id),
    ]);
    if existing_links > 0 {
        (make(UNTAG_FILE_SQL, params), false)
    } else {
        (make(TAG_FILE_SQL, params), true)
    }
}

/// The tags that every file under `folder` carries.
pub fn tags_of_folder(folder: &str) -> (s: Statement)
    ensures
        s@ == statement(
            TAGS_OF_FOLDER_SQL,
            seq![
                SqlValueView::Text(folder_pattern_of(folder@)),
                SqlValueView::Text(folder_pattern_of(folder@)),
            ],
        ),
{
    let params = vec![SqlValue::Text(folder_pattern(folder)), SqlValue::Text(folder_pattern(folder))];
    assert(params@.map_values(|v: SqlValue| v@) =~= seq![
        SqlValueView::Text(folder_pattern_of(folder@)),
        SqlValueView::Text(folder_pattern_of(folder@)),
    ]);
    make(TAGS_OF_FOLDER_SQL, params)
}

/// How many files under `folder` lack the tag.
pub fn count_untagged_in_folder(folder: &str, tag_id: i64) -> (s: Statement)
    ensures
        s@ == statement(
            COUNT_UNTAGGED_IN_FOLDER_SQL,
            seq![SqlValueView::Text(folder_pattern_of(folder@)), SqlValueView::Int(tag_id)],
        ),
{
    let params = vec![SqlValue::Text(folder_pattern(folder)), SqlValue::Int(tag_id)];
    assert(params@.map_values(|v: SqlValue| v@) =~= seq![
        SqlValueView::Text(folder_pattern_of(folder@)),
        SqlValueView::Int(tag_id),
    ]);
    make(COUNT_UNTAGGED_IN_FOLDER_SQL, params)
}

/// Toggles a tag on every file under `folder`, `untagged_files` of which
/// lack it: where some file lacks it, the statement adds it to all of them
/// and the toggle reports `true`; where none does, the statement removes it
/// from all of them and the toggle reports `false`.
pub fn toggle_folder_tag(folder: &str, tag_id: i64, untagged_files: i64) -> (r: (Statement, bool))
    ensures
        r.1 == (untagged_files > 0),
        r.0@ == statement(
            if r.1 { TAG_FOLDER_SQL } else { UNTAG_FOLDER_SQL },
            seq![SqlValueView::Text(folder_pattern_of(folder@)), SqlValueView::Int(tag_id)],
        ),
{
    let params = vec![SqlValue::Text(folder_pattern(folder)), SqlValue::Int(tag_id)];
    assert(params@.map_values(|v: SqlValue| v@) =~= seq![
        SqlValueView::Text(folder_pattern_of(folder@)),
        SqlValueView::Int(tag_id),
    ]);
    if untagged_files > 0 {
        (make(TAG_FOLDER_SQL, params), true)
    } else {
        (make(UNTAG_FOLDER_SQL, params), false)
    }
}

/// The offset, in bytes, after which a path under `old_rel` continues: the
/// byte length of `old_rel`, as an `i32` (wrapping as `as` does).
pub fn rename_offset(old_rel: &str) -> (n: i32)
    ensures
        n == byte_len(old_rel@) as i32,
{
    let len = old_rel.as_bytes().len();
    #[verifier::truncate]
    (len as i32)
}

/// Records the entry at `old_rel` under `new_rel`.
pub fn rename_entry(old_rel: &str, new_rel: &str) -> (s: Statement)
    ensures
        s@ == statement(
            RENAME_ENTRY_SQL,
            seq![SqlValueView::Text(new_rel@), SqlValueView::Text(old_rel@)],
        ),
{
    let params = vec![SqlValue::Text(String::from_str(new_rel)), SqlValue::Text(String::from_str(old_rel))];
    assert(params@.map_values(|v: SqlValue| v@) =~= seq![
        SqlValueView::Text(new_rel@),
        SqlValueView::Text(old_rel@),
    ]);
    make(RENAME_ENTRY_SQL, params)
}

/// Records every entry under `old_rel` under `new_rel`: its path keeps what
/// follows the length of `old_rel`.
pub fn rename_children(old_rel: &str, new_rel: &str) -> (s: Statement)
    ensures
        s@ == statement(
            RENAME_CHILDREN_SQL,
            seq![
                SqlValueView::Text(new_rel@),
                SqlValueView::Int((byte_len(old_rel@) as i32) as i64),
                SqlValueView::Text(folder_pattern_of(old_rel@)),
            ],
        ),
{
    let offset = rename_offset(old_rel);
    let params = vec![
        SqlValue::Text(String::from_str(new_rel)),
        SqlValue::Int(offset as i64),
        SqlValue::Text(folder_pattern(old_rel)),
    ];
    assert(params@.map_values(|v: SqlValue| v@) =~= seq![
        SqlValueView::Text(new_rel@),
        SqlValueView::Int((byte_len(old_rel@) as i32) as i64),
        SqlValueView::Text(folder_pattern_of(old_rel@)),
    ]);
    make(RENAME_CHILDREN_SQL, params)
}

/// Records an entry at `rel_path`, `dir_flag` being 1 for a directory.
pub fn record_entry(rel_path: &str, dir_flag: i32) -> (s: Statement)
    ensures
        s@ == statement(
            INSERT_ENTRY_SQL,
            seq![SqlValueView::Text(rel_path@), SqlValueView::Int(dir_flag as i64)],
        ),
{
    let params = vec![SqlValue::Text(String::from_str(rel_path)), SqlValue::Int(dir_flag as i64)];
    assert(params@.map_values(|v: SqlValue| v@) =~= seq![
        SqlValueView::Text(rel_path@),
        SqlValueView::Int(dir_flag as i64),
    ]);
    make(INSERT_ENTRY_SQL, params)
}

/// Why a tag could not be added.
#[derive(Clone, Copy, PartialEq, Eq, Structural, Debug)]
pub enum AddTagError {
    /// The parent tag that was named does not exist.
    NoSuchParent,
}

/// The parent id that a new tag is stored with: none where no parent was
/// named; the id that looking the parent up found; and an error where the
/// named parent was not found.
pub fn tag_parent(parent_named: bool, found: Option<i64>) -> (r: Result<Option<i64>, AddTagError>)
    ensures
        !parent_named ==> r == Ok::<Option<i64>, AddTagError>(None),
        parent_named ==> r == match found {
            Some(id) => Ok::<Option<i64>, AddTagError>(Some(id)),
            None => Err(AddTagError::NoSuchParent),
        },
{
    if parent_named {
        match found {
            Some(id) => Ok(Some(id)),
            None => Err(AddTagError::NoSuchParent),
        }
    } else {
        Ok(None)
    }
}

} // verus!

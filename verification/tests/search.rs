use tui_tagger::search::{
    browse_query, build_search_query, build_search_sql, keep_direct_children, parse_query,
    parse_tag_expression, parse_tag_term, SearchResult, TagFilter,
};

fn tag_clause(op: &str, idx: usize) -> String {
    format!(
        "f.id {} (SELECT file_id FROM file_tags ft JOIN tags t ON ft.tag_id = t.id WHERE t.name = ?{idx} OR t.parent_id IN (SELECT id FROM tags WHERE name = ?{idx}))",
        op,
        idx = idx
    )
}

fn entry(id: i64, rel_path: &str, is_dir: bool) -> SearchResult {
    SearchResult { id, rel_path: rel_path.to_string(), is_dir }
}

fn describe(t: &Option<TagFilter>) -> String {
    match t {
        Some(TagFilter::Has(s)) => format!("has:{}", s),
        Some(TagFilter::Lacks(s)) => format!("lacks:{}", s),
        Some(TagFilter::Untagged) => "untagged".to_string(),
        None => "none".to_string(),
    }
}

#[test]
fn parse_query_splits_at_first_quote() {
    let (filter, tags) = parse_query("folder_name \"funny&&video||meme\"");
    assert_eq!(filter, "folder_name");
    assert_eq!(tags, "\"funny&&video||meme\"");
}

#[test]
fn parse_query_without_quote_is_name_filter() {
    let (filter, tags) = parse_query("  holiday clips \t");
    assert_eq!(filter, "holiday clips");
    assert_eq!(tags, "");
}

#[test]
fn parse_query_keeps_bang_before_quote() {
    let (filter, tags) = parse_query("music !\"old\"");
    assert_eq!(filter, "music");
    assert_eq!(tags, "!\"old\"");
    let (filter, tags) = parse_query("!\"old\"");
    assert_eq!(filter, "");
    assert_eq!(tags, "!\"old\"");
}

#[test]
fn parse_query_quote_at_start() {
    let (filter, tags) = parse_query("\"a\" rest");
    assert_eq!(filter, "");
    assert_eq!(tags, "\"a\" rest");
}

#[test]
fn parse_query_unicode_text() {
    let (filter, tags) = parse_query("\u{e9}t\u{e9} \"vid\u{e9}o\"");
    assert_eq!(filter, "\u{e9}t\u{e9}");
    assert_eq!(tags, "\"vid\u{e9}o\"");
}

#[test]
fn tag_terms() {
    assert_eq!(describe(&parse_tag_term(" \"funny\" ")), "has:funny");
    assert_eq!(describe(&parse_tag_term("!\"old\"")), "lacks:old");
    assert_eq!(describe(&parse_tag_term(" ! old")), "lacks: old");
    assert_eq!(describe(&parse_tag_term("!")), "untagged");
    assert_eq!(describe(&parse_tag_term("!\"\"")), "untagged");
    assert_eq!(describe(&parse_tag_term("  ")), "none");
    assert_eq!(describe(&parse_tag_term("\"\"")), "none");
}

#[test]
fn tag_expression_groups() {
    let groups = parse_tag_expression("\"funny&&video||meme\"");
    assert_eq!(groups.len(), 2);
    assert_eq!(groups[0].len(), 2);
    assert_eq!(groups[1].len(), 1);
    assert_eq!(describe(&Some(clone_filter(&groups[0][0]))), "has:funny");
    assert_eq!(describe(&Some(clone_filter(&groups[0][1]))), "has:video");
    assert_eq!(describe(&Some(clone_filter(&groups[1][0]))), "has:meme");
}

#[test]
fn tag_expression_separators_left_to_right() {
    let groups = parse_tag_expression("a|||b");
    assert_eq!(groups.len(), 2);
    assert_eq!(describe(&Some(clone_filter(&groups[0][0]))), "has:a");
    assert_eq!(describe(&Some(clone_filter(&groups[1][0]))), "has:|b");
}

fn clone_filter(t: &TagFilter) -> TagFilter {
    match t {
        TagFilter::Has(s) => TagFilter::Has(s.clone()),
        TagFilter::Lacks(s) => TagFilter::Lacks(s.clone()),
        TagFilter::Untagged => TagFilter::Untagged,
    }
}

#[test]
fn empty_search_lists_everything() {
    let q = build_search_query("");
    assert_eq!(q.sql, "SELECT id, rel_path, is_dir FROM files f WHERE 1=1 ORDER BY f.rel_path");
    assert!(q.params.is_empty());
}

#[test]
fn name_only_search() {
    let q = build_search_query(" clip ");
    assert_eq!(
        q.sql,
        "SELECT id, rel_path, is_dir FROM files f WHERE 1=1 AND f.rel_path LIKE ?1 ORDER BY f.rel_path"
    );
    assert_eq!(q.params, vec!["%clip%".to_string()]);
}

#[test]
fn readme_search_example() {
    let q = build_search_query("folder_name \"funny&&video||meme\"");
    let expected = format!(
        "SELECT id, rel_path, is_dir FROM files f WHERE 1=1 AND f.rel_path LIKE ?1 AND (({} AND {}) OR ({})) ORDER BY f.rel_path",
        tag_clause("IN", 2),
        tag_clause("IN", 3),
        tag_clause("IN", 4)
    );
    assert_eq!(q.sql, expected);
    assert_eq!(
        q.params,
        vec!["%folder_name%".to_string(), "funny".to_string(), "video".to_string(), "meme".to_string()]
    );
}

#[test]
fn negated_and_untagged_search() {
    let q = build_search_query("!\"old\"");
    let expected = format!(
        "SELECT id, rel_path, is_dir FROM files f WHERE 1=1 AND (({})) ORDER BY f.rel_path",
        tag_clause("NOT IN", 1)
    );
    assert_eq!(q.sql, expected);
    assert_eq!(q.params, vec!["old".to_string()]);

    let q = build_search_query("!\"\"");
    assert_eq!(
        q.sql,
        "SELECT id, rel_path, is_dir FROM files f WHERE 1=1 AND ((f.id NOT IN (SELECT file_id FROM file_tags))) ORDER BY f.rel_path"
    );
    assert!(q.params.is_empty());
}

#[test]
fn untagged_condition_takes_no_parameter_number() {
    let groups = parse_tag_expression("!&&a||b&&!c");
    let q = build_search_sql("x", &groups);
    let expected = format!(
        "SELECT id, rel_path, is_dir FROM files f WHERE 1=1 AND f.rel_path LIKE ?1 AND ((f.id NOT IN (SELECT file_id FROM file_tags) AND {}) OR ({} AND {})) ORDER BY f.rel_path",
        tag_clause("IN", 2),
        tag_clause("IN", 3),
        tag_clause("NOT IN", 4)
    );
    assert_eq!(q.sql, expected);
    assert_eq!(
        q.params,
        vec!["%x%".to_string(), "a".to_string(), "b".to_string(), "c".to_string()]
    );
}

#[test]
fn empty_groups_are_left_out() {
    let q = build_search_query("\"\" || \"t\"");
    let expected = format!(
        "SELECT id, rel_path, is_dir FROM files f WHERE 1=1 AND (({})) ORDER BY f.rel_path",
        tag_clause("IN", 1)
    );
    assert_eq!(q.sql, expected);
    assert_eq!(q.params, vec!["t".to_string()]);
}

#[test]
fn many_parameters_get_two_digit_numbers() {
    let expr: Vec<String> = (0..11).map(|i| format!("t{}", i)).collect();
    let q = build_search_query(&format!("\"{}\"", expr.join("&&")));
    assert!(q.sql.contains("?10 OR"));
    assert!(q.sql.contains("?11 OR"));
    assert_eq!(q.params.len(), 11);
    assert_eq!(q.params[10], "t10");
}

#[test]
fn browse_root_query() {
    let q = browse_query("");
    assert_eq!(
        q.sql,
        "SELECT id, rel_path, is_dir FROM files WHERE rel_path NOT LIKE '%/%' ORDER BY is_dir DESC, rel_path COLLATE NOCASE ASC"
    );
    assert!(q.params.is_empty());
}

#[test]
fn browse_subdir_query() {
    let q = browse_query("music/rock");
    assert_eq!(
        q.sql,
        "SELECT id, rel_path, is_dir FROM files WHERE rel_path LIKE ?1 ORDER BY is_dir DESC, rel_path COLLATE NOCASE ASC"
    );
    assert_eq!(q.params, vec!["music/rock/%".to_string()]);
}

#[test]
fn listing_keeps_direct_children() {
    let rows = vec![
        entry(1, "music/a.mp3", false),
        entry(2, "music/live", true),
        entry(3, "music/live/b.mp3", false),
        entry(4, "Music/c.mp3", false),
    ];
    let kept = keep_direct_children("music", &rows);
    let ids: Vec<i64> = kept.iter().map(|r| r.id).collect();
    assert_eq!(ids, vec![1, 2, 4]);
    assert_eq!(kept[1].rel_path, "music/live");
    assert!(kept[1].is_dir);
}

#[test]
fn listing_of_root_keeps_all_rows() {
    let rows = vec![entry(1, "a", false), entry(2, "b/c", false)];
    let kept = keep_direct_children("", &rows);
    assert_eq!(kept.len(), 2);
}

#[test]
fn listing_cuts_by_bytes() {
    let rows = vec![
        entry(1, "m\u{fa}sica/canci\u{f3}n.mp3", false),
        entry(2, "m\u{fa}sica/a/b", false),
    ];
    let kept = keep_direct_children("m\u{fa}sica", &rows);
    assert_eq!(kept.len(), 1);
    assert_eq!(kept[0].id, 1);
}

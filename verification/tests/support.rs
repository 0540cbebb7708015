use tui_tagger::cli::{parse_args, ArgError, Target};
use tui_tagger::db::{
    count_untagged_in_folder, find_tag, folder_pattern, insert_tag, record_entry, rename_children,
    rename_entry, rename_offset, tag_parent, tags_of_file, tags_of_folder, toggle_file_tag,
    toggle_folder_tag, AddTagError, SqlValue, Statement, COUNT_UNTAGGED_IN_FOLDER_SQL,
    FIND_TAG_SQL, INSERT_ENTRY_SQL, INSERT_TAG_SQL, RENAME_CHILDREN_SQL, RENAME_ENTRY_SQL,
    TAGS_OF_FILE_SQL, TAGS_OF_FOLDER_SQL, TAG_FILE_SQL, TAG_FOLDER_SQL, UNTAG_FILE_SQL,
    UNTAG_FOLDER_SQL,
};
use tui_tagger::layout::{screen_panes, Area};
use tui_tagger::scanner::{entry_record, is_hidden_name, is_image_extension};
use tui_tagger::text::{
    decimal_string, file_name_of, join_with, split_on_char, split_on_pair, trim, trim_quotes,
};
use tui_tagger::tui::AppMode;

fn args(list: &[&str]) -> Vec<String> {
    list.iter().map(|s| s.to_string()).collect()
}

#[test]
fn command_line() {
    assert_eq!(parse_args(&args(&["tagger"])), Err(ArgError::Usage));
    assert_eq!(parse_args(&args(&["tagger", "--here"])), Ok(Target::Here));
    assert_eq!(parse_args(&args(&["tagger", "--dir", "/media"])), Ok(Target::Dir("/media".to_string())));
    assert_eq!(parse_args(&args(&["tagger", "--dir", "/a", "--here"])), Ok(Target::Here));
    assert_eq!(parse_args(&args(&["tagger", "--dir"])), Err(ArgError::MissingDirPath));
    assert_eq!(parse_args(&args(&["tagger", "-x"])), Err(ArgError::Unknown("-x".to_string())));
    assert_eq!(parse_args(&args(&["tagger", "--here", "--bogus"])), Err(ArgError::Unknown("--bogus".to_string())));
}

#[test]
fn hidden_names() {
    assert!(is_hidden_name(".DS_Store"));
    assert!(is_hidden_name("._song.mp3"));
    assert!(is_hidden_name(".Trash"));
    assert!(!is_hidden_name("song.mp3"));
    assert!(!is_hidden_name(""));
}

#[test]
fn image_extensions() {
    for ext in ["png", "jpg", "jpeg", "gif", "bmp", "webp", "tiff", "svg", "ico", "PNG", "JpG", "TIFF"] {
        assert!(is_image_extension(ext), "{}", ext);
    }
    for ext in ["mp4", "pn", "pngg", "", "\u{212a}", "svg\u{301}", "\u{130}co"] {
        assert!(!is_image_extension(ext), "{}", ext);
    }
}

#[test]
fn entry_records() {
    assert_eq!(entry_record(Some("JPG"), "a/b.JPG", false), None);
    assert_eq!(entry_record(None, "", true), None);
    assert_eq!(entry_record(Some("mp3"), "a/b.mp3", false), Some(("a/b.mp3".to_string(), 0)));
    assert_eq!(entry_record(None, "a", true), Some(("a".to_string(), 1)));
}

fn shown(s: &Statement) -> String {
    let params: Vec<String> = s
        .params
        .iter()
        .map(|v| match v {
            SqlValue::Text(t) => format!("'{}'", t),
            SqlValue::Int(i) => i.to_string(),
            SqlValue::Null => "NULL".to_string(),
        })
        .collect();
    format!("{} [{}]", s.sql, params.join(", "))
}

#[test]
fn database_statements() {
    assert_eq!(shown(&find_tag("rock")), format!("{} ['rock']", FIND_TAG_SQL));
    assert_eq!(shown(&insert_tag("punk", Some(3))), format!("{} ['punk', 3]", INSERT_TAG_SQL));
    assert_eq!(shown(&insert_tag("punk", None)), format!("{} ['punk', NULL]", INSERT_TAG_SQL));
    assert_eq!(shown(&tags_of_file(9)), format!("{} [9]", TAGS_OF_FILE_SQL));
    assert_eq!(
        shown(&tags_of_folder("music")),
        format!("{} ['music/%', 'music/%']", TAGS_OF_FOLDER_SQL)
    );
    assert_eq!(
        shown(&count_untagged_in_folder("music", 4)),
        format!("{} ['music/%', 4]", COUNT_UNTAGGED_IN_FOLDER_SQL)
    );
    assert_eq!(shown(&rename_entry("a/b", "a/c")), format!("{} ['a/c', 'a/b']", RENAME_ENTRY_SQL));
    assert_eq!(
        shown(&rename_children("m\u{fa}sica", "music")),
        format!("{} ['music', 7, 'm\u{fa}sica/%']", RENAME_CHILDREN_SQL)
    );
    assert_eq!(shown(&record_entry("a/b", 1)), format!("{} ['a/b', 1]", INSERT_ENTRY_SQL));
    assert!(TAG_FOLDER_SQL.contains("INSERT OR IGNORE INTO file_tags"));
}

#[test]
fn toggles_add_or_remove() {
    let (s, added) = toggle_file_tag(2, 5, 0);
    assert!(added);
    assert_eq!(shown(&s), format!("{} [2, 5]", TAG_FILE_SQL));
    let (s, added) = toggle_file_tag(2, 5, 1);
    assert!(!added);
    assert_eq!(shown(&s), format!("{} [2, 5]", UNTAG_FILE_SQL));
    let (s, added) = toggle_folder_tag("clips", 5, 3);
    assert!(added);
    assert_eq!(shown(&s), format!("{} ['clips/%', 5]", TAG_FOLDER_SQL));
    let (s, added) = toggle_folder_tag("clips", 5, 0);
    assert!(!added);
    assert_eq!(shown(&s), format!("{} ['clips/%', 5]", UNTAG_FOLDER_SQL));
}

#[test]
fn database_decisions() {
    assert_eq!(folder_pattern("music/rock"), "music/rock/%");
    assert_eq!(folder_pattern(""), "/%");
    assert_eq!(rename_offset("m\u{fa}sica"), 7);
    assert_eq!(rename_offset(""), 0);
    assert_eq!(tag_parent(false, Some(4)), Ok(None));
    assert_eq!(tag_parent(true, Some(4)), Ok(Some(4)));
    assert_eq!(tag_parent(true, None), Err(AddTagError::NoSuchParent));
}

#[test]
fn text_operations() {
    assert_eq!(trim("\u{3000} a b\t\n"), "a b");
    assert_eq!(trim_quotes("\"\"x\"y\""), "x\"y");
    assert_eq!(split_on_pair("a||b||", '|', '|'), vec!["a", "b", ""]);
    assert_eq!(split_on_char("a:b:", ':'), vec!["a", "b", ""]);
    assert_eq!(join_with(&vec!["x".to_string(), "y".to_string()], " AND "), "x AND y");
    assert_eq!(decimal_string(0), "0");
    assert_eq!(decimal_string(1207), "1207");
}

#[test]
fn file_names() {
    assert_eq!(file_name_of("music/song.mp3"), "song.mp3");
    assert_eq!(file_name_of("song"), "song");
    assert_eq!(file_name_of("a/b/"), "b");
    assert_eq!(file_name_of("a/."), "a");
    assert_eq!(file_name_of("a/.."), "");
    assert_eq!(file_name_of("/"), "");
    assert_eq!(file_name_of(""), "");
}

#[test]
fn screen_layout() {
    let area = Area { x: 0, y: 0, width: 100, height: 30 };
    let p = screen_panes(area, AppMode::Browser);
    assert_eq!(p.files, Area { x: 0, y: 0, width: 100, height: 24 });
    assert_eq!(p.input, Area { x: 0, y: 24, width: 100, height: 3 });
    assert_eq!(p.info, Area { x: 0, y: 27, width: 100, height: 3 });
    assert!(p.tags.is_none());
    let p = screen_panes(area, AppMode::TagAssign);
    assert_eq!(p.files, Area { x: 0, y: 0, width: 70, height: 24 });
    assert_eq!(p.tags, Some(Area { x: 70, y: 0, width: 30, height: 24 }));
}

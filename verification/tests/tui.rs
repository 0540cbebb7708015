use tui_tagger::search::SearchResult;
use tui_tagger::tui::{mode_title, App, AppMode, Effect, FilesRequest, Key, RenameOutcome};

fn entry(id: i64, rel_path: &str, is_dir: bool) -> SearchResult {
    SearchResult { id, rel_path: rel_path.to_string(), is_dir }
}

fn describe(e: &Effect) -> String {
    match e {
        Effect::Nothing => "nothing".to_string(),
        Effect::Quit => "quit".to_string(),
        Effect::Reload => "reload".to_string(),
        Effect::OpenFolder(d) => format!("open:{}", d),
        Effect::Reveal(p) => format!("reveal:{}", p),
        Effect::Play(ps) => format!("play:{}", ps.join(",")),
        Effect::LoadTags(Some(f)) => format!("tags:{}:{}", f.id, f.rel_path),
        Effect::LoadTags(None) => "tags:none".to_string(),
        Effect::CreateTag(n, Some(p)) => format!("create:{}:{}", n, p),
        Effect::CreateTag(n, None) => format!("create:{}", n),
        Effect::ToggleTag(f, t) => format!("toggle:{}:{}:{}", f.id, f.rel_path, t),
        Effect::Rename(p, n) => format!("rename:{}:{}", p, n),
    }
}

fn browsing(dir: &str, files: Vec<SearchResult>) -> App {
    let mut app = App::new();
    app.current_dir = dir.to_string();
    app.apply_loaded_files(files);
    app
}

fn press(app: &mut App, key: Key) -> String {
    assert!(!app.key_fails(key));
    describe(&app.handle_key(key))
}

fn type_text(app: &mut App, text: &str) {
    for c in text.chars() {
        assert_eq!(press(app, Key::Char(c)), "nothing");
    }
}

#[test]
fn new_app_browses_root() {
    let app = App::new();
    assert_eq!(app.mode, AppMode::Browser);
    assert!(app.files.is_empty());
    assert_eq!(app.file_state, None);
    assert_eq!(app.tag_state, None);
    assert_eq!(app.query, "");
    assert_eq!(app.current_dir, "");
    assert!(app.error_msg.is_none());
    assert!(!app.last_key_esc);
}

#[test]
fn double_esc_quits() {
    let mut app = browsing("", vec![entry(1, "a.mp3", false)]);
    assert_eq!(press(&mut app, Key::Esc), "nothing");
    assert_eq!(app.error_msg.as_deref(), Some("Press Esc again to quit"));
    assert!(app.last_key_esc);
    assert_eq!(press(&mut app, Key::Esc), "quit");
}

#[test]
fn other_key_between_escapes_does_not_quit() {
    let mut app = browsing("", vec![entry(1, "a.mp3", false)]);
    press(&mut app, Key::Esc);
    press(&mut app, Key::Down);
    assert!(app.error_msg.is_none());
    assert!(!app.last_key_esc);
    assert_eq!(press(&mut app, Key::Esc), "nothing");
}

#[test]
fn esc_clears_search_and_reloads() {
    let mut app = browsing("", vec![]);
    app.query = "clip".to_string();
    assert_eq!(press(&mut app, Key::Esc), "reload");
    assert_eq!(app.query, "");
}

#[test]
fn q_quits_in_browser() {
    let mut app = App::new();
    assert_eq!(press(&mut app, Key::Char('q')), "quit");
}

#[test]
fn navigation_stays_in_list() {
    let mut app = browsing("", vec![entry(1, "a", false), entry(2, "b", false)]);
    assert_eq!(app.file_state, Some(0));
    press(&mut app, Key::Down);
    assert_eq!(app.file_state, Some(1));
    press(&mut app, Key::Char('j'));
    assert_eq!(app.file_state, Some(1));
    press(&mut app, Key::Up);
    assert_eq!(app.file_state, Some(0));
    press(&mut app, Key::Char('k'));
    assert_eq!(app.file_state, Some(0));
}

#[test]
fn down_on_empty_list_selects_first_row() {
    let mut app = App::new();
    press(&mut app, Key::Down);
    assert_eq!(app.file_state, Some(0));
}

#[test]
fn search_input_edit_and_apply() {
    let mut app = browsing("", vec![]);
    app.query = "old".to_string();
    assert_eq!(press(&mut app, Key::Char('/')), "nothing");
    assert_eq!(app.mode, AppMode::SearchInput);
    assert_eq!(app.input_buffer, "old");
    type_text(&mut app, "er q");
    press(&mut app, Key::Backspace);
    assert_eq!(app.input_buffer, "older ");
    assert_eq!(press(&mut app, Key::Enter), "reload");
    assert_eq!(app.query, "older ");
    assert_eq!(app.mode, AppMode::Browser);
}

#[test]
fn search_input_cancel_keeps_query() {
    let mut app = browsing("", vec![]);
    app.query = "keep".to_string();
    press(&mut app, Key::Char('/'));
    type_text(&mut app, "x");
    assert_eq!(press(&mut app, Key::Esc), "nothing");
    assert_eq!(app.mode, AppMode::Browser);
    assert_eq!(app.query, "keep");
}

#[test]
fn backspace_on_empty_buffer() {
    let mut app = App::new();
    press(&mut app, Key::Char('c'));
    assert_eq!(app.input_buffer, "");
    press(&mut app, Key::Backspace);
    assert_eq!(app.input_buffer, "");
}

#[test]
fn create_tag_with_parent() {
    let mut app = App::new();
    press(&mut app, Key::Char('c'));
    assert_eq!(app.mode, AppMode::TagCreateInput);
    type_text(&mut app, " child : parent ");
    assert_eq!(press(&mut app, Key::Enter), "create:child:parent");
    assert_eq!(app.mode, AppMode::Browser);
}

#[test]
fn create_tag_without_parent() {
    let mut app = App::new();
    press(&mut app, Key::Char('c'));
    type_text(&mut app, "solo");
    assert_eq!(press(&mut app, Key::Enter), "create:solo");
    press(&mut app, Key::Char('c'));
    type_text(&mut app, "a:b:c");
    assert_eq!(press(&mut app, Key::Enter), "create:a");
    press(&mut app, Key::Char('c'));
    type_text(&mut app, "   ");
    assert_eq!(press(&mut app, Key::Enter), "nothing");
    assert_eq!(app.mode, AppMode::Browser);
}

#[test]
fn tag_creation_messages() {
    let mut app = App::new();
    app.finish_tag_create(true);
    assert_eq!(app.info_text(), "Tag created successfully.");
    app.finish_tag_create(false);
    assert_eq!(app.info_text(), "Failed to create tag. Parent may not exist.");
}

#[test]
fn rename_starts_with_file_name() {
    let mut app = browsing("music", vec![entry(7, "music/song.mp3", false)]);
    assert_eq!(app.files.len(), 2);
    press(&mut app, Key::Down);
    assert_eq!(press(&mut app, Key::Char('r')), "nothing");
    assert_eq!(app.mode, AppMode::RenameInput);
    assert_eq!(app.input_buffer, "song.mp3");
    press(&mut app, Key::Backspace);
    press(&mut app, Key::Backspace);
    press(&mut app, Key::Backspace);
    type_text(&mut app, "ogg");
    assert_eq!(press(&mut app, Key::Enter), "rename:music/song.mp3:song.ogg");
    assert_eq!(app.mode, AppMode::Browser);
}

#[test]
fn rename_ignores_up_entry_and_empty_name() {
    let mut app = browsing("music", vec![entry(7, "music/song.mp3", false)]);
    assert_eq!(app.file_state, Some(0));
    press(&mut app, Key::Char('r'));
    assert_eq!(app.mode, AppMode::Browser);
    press(&mut app, Key::Down);
    press(&mut app, Key::Char('r'));
    app.input_buffer = "  ".to_string();
    assert_eq!(press(&mut app, Key::Enter), "reload");
}

#[test]
fn rename_outcomes() {
    let mut app = App::new();
    app.finish_rename(RenameOutcome::Renamed);
    assert_eq!(app.info_text(), "Renamed successfully.");
    app.finish_rename(RenameOutcome::Unrecorded);
    assert_eq!(app.info_text(), "Renamed successfully.");
    app.finish_rename(RenameOutcome::Failed("No such file".to_string()));
    assert_eq!(app.info_text(), "Rename failed: No such file");
}

#[test]
fn enter_opens_directory_and_up_returns() {
    let mut app = browsing("", vec![entry(1, "music", true), entry(2, "a.mp3", false)]);
    app.query = String::new();
    assert_eq!(press(&mut app, Key::Enter), "reload");
    assert_eq!(app.current_dir, "music");
    assert_eq!(app.file_state, Some(0));
    match app.files_request() {
        FilesRequest::Browse(d) => assert_eq!(d, "music"),
        FilesRequest::Search(_) => panic!("expected a listing"),
    }
    app.apply_loaded_files(vec![entry(3, "music/rock", true)]);
    assert_eq!(app.files[0].rel_path, "..");
    assert_eq!(app.files[0].id, -1);
    assert!(app.files[0].is_dir);
    press(&mut app, Key::Down);
    assert_eq!(press(&mut app, Key::Enter), "reload");
    assert_eq!(app.current_dir, "music/rock");
    app.apply_loaded_files(vec![]);
    assert_eq!(app.file_state, Some(0));
    assert_eq!(press(&mut app, Key::Enter), "reload");
    assert_eq!(app.current_dir, "music");
    app.apply_loaded_files(vec![]);
    assert_eq!(press(&mut app, Key::Enter), "reload");
    assert_eq!(app.current_dir, "");
}

#[test]
fn entering_directory_clears_query() {
    let mut app = App::new();
    app.query = "x".to_string();
    app.apply_loaded_files(vec![entry(1, "videos", true)]);
    assert_eq!(press(&mut app, Key::Enter), "reload");
    assert_eq!(app.query, "");
    assert_eq!(app.current_dir, "videos");
}

#[test]
fn enter_on_file_plays_it() {
    let mut app = browsing("", vec![entry(2, "a.mp3", false)]);
    assert_eq!(press(&mut app, Key::Enter), "play:a.mp3");
}

#[test]
fn play_selected_and_all() {
    let mut app = browsing("m", vec![entry(1, "m/a", false), entry(2, "m/b", false)]);
    press(&mut app, Key::Down);
    assert_eq!(press(&mut app, Key::Char('p')), "play:m/a");
    assert_eq!(press(&mut app, Key::Char('a')), "play:..,m/a,m/b");
    let mut empty = App::new();
    assert_eq!(press(&mut empty, Key::Char('a')), "nothing");
    assert_eq!(press(&mut empty, Key::Char('p')), "nothing");
}

#[test]
fn show_in_file_manager() {
    let mut app = browsing("m", vec![entry(1, "m/a", false)]);
    assert_eq!(press(&mut app, Key::Char('s')), "open:m");
    press(&mut app, Key::Down);
    assert_eq!(press(&mut app, Key::Char('s')), "reveal:m/a");
}

#[test]
fn tag_assignment_flow() {
    let mut app = browsing("", vec![entry(5, "clip.mp4", false)]);
    assert_eq!(press(&mut app, Key::Char('t')), "tags:5:clip.mp4");
    assert_eq!(app.mode, AppMode::TagAssign);
    app.apply_tag_list(vec!["funny".to_string(), "meme".to_string()]);
    assert_eq!(app.tag_state, Some(0));
    app.set_active_tags(vec!["meme".to_string()]);
    assert_eq!(app.tag_label(&"funny".to_string()), "[ ] funny");
    assert_eq!(app.tag_label(&"meme".to_string()), "[x] meme");
    assert_eq!(press(&mut app, Key::Enter), "toggle:5:clip.mp4:funny");
    app.finish_toggle("funny".to_string(), Some(true));
    assert_eq!(app.tag_label(&"funny".to_string()), "[x] funny");
    press(&mut app, Key::Char('j'));
    assert_eq!(app.tag_state, Some(1));
    assert_eq!(press(&mut app, Key::Enter), "toggle:5:clip.mp4:meme");
    app.finish_toggle("meme".to_string(), Some(false));
    assert_eq!(app.tag_label(&"meme".to_string()), "[ ] meme");
    app.finish_toggle("funny".to_string(), None);
    assert_eq!(app.tag_label(&"funny".to_string()), "[ ] funny");
    assert_eq!(press(&mut app, Key::Char('q')), "nothing");
    assert_eq!(app.mode, AppMode::Browser);
}

#[test]
fn tag_key_without_selection_does_nothing() {
    let mut app = App::new();
    assert_eq!(press(&mut app, Key::Char('t')), "nothing");
    assert_eq!(app.mode, AppMode::Browser);
}

#[test]
fn tag_list_selection_rules() {
    let mut app = App::new();
    app.apply_tag_list(vec![]);
    assert_eq!(app.tag_state, None);
    app.tag_state = Some(3);
    app.apply_tag_list(vec!["a".to_string()]);
    assert_eq!(app.tag_state, Some(3));
}

#[test]
fn toggle_with_selection_past_tag_list_fails() {
    let mut app = browsing("", vec![entry(5, "clip.mp4", false)]);
    press(&mut app, Key::Char('t'));
    app.apply_tag_list(vec![]);
    press(&mut app, Key::Down);
    assert_eq!(app.tag_state, Some(0));
    assert!(app.key_fails(Key::Enter));
    assert!(!app.key_fails(Key::Esc));
}

#[test]
fn loaded_files_clamp_selection() {
    let mut app = App::new();
    app.file_state = Some(5);
    app.apply_loaded_files(vec![entry(1, "a", false), entry(2, "b", false)]);
    assert_eq!(app.file_state, Some(1));
    app.apply_loaded_files(vec![]);
    assert_eq!(app.file_state, None);
}

#[test]
fn search_results_get_no_up_entry() {
    let mut app = App::new();
    app.current_dir = "m".to_string();
    app.query = "x".to_string();
    app.apply_loaded_files(vec![entry(1, "m/x", false)]);
    assert_eq!(app.files.len(), 1);
    match app.files_request() {
        FilesRequest::Search(q) => assert_eq!(q, "x"),
        FilesRequest::Browse(_) => panic!("expected a search"),
    }
}

#[test]
fn display_names() {
    let app = browsing("m\u{fa}sica", vec![]);
    assert_eq!(app.display_name(&entry(-1, "..", true)), ".. (up)");
    assert_eq!(app.display_name(&entry(1, "m\u{fa}sica/rock", true)), "\u{1F4C1} rock");
    assert_eq!(app.display_name(&entry(2, "m\u{fa}sica/canci\u{f3}n.mp3", false)), "canci\u{f3}n.mp3");
    let mut searching = App::new();
    searching.query = "x".to_string();
    assert_eq!(searching.display_name(&entry(3, "a/b", true)), "\u{1F4C1} a/b");
    assert_eq!(searching.display_name(&entry(4, "a/c", false)), "a/c");
}

#[test]
fn titles_and_lines() {
    let mut app = App::new();
    assert_eq!(app.files_title(), " Files ");
    app.current_dir = "music".to_string();
    assert_eq!(app.files_title(), " Files: music ");
    app.query = "x".to_string();
    assert_eq!(app.files_title(), " Search Results ");
    assert_eq!(app.input_text(), "x");
    assert_eq!(app.info_text(), "Status: OK");
    app.mode = AppMode::SearchInput;
    app.input_buffer = "ab".to_string();
    assert_eq!(app.input_text(), "ab\u{2588}");
    assert_eq!(mode_title(AppMode::SearchInput), " Search Query (Enter to apply, Esc to cancel) ");
    assert_eq!(mode_title(AppMode::TagCreateInput), " Create Tag (Syntax: newTag OR newTag:oldTag) ");
    assert_eq!(mode_title(AppMode::TagAssign), " Tag Assignment (Enter to toggle, Esc to return) ");
    assert_eq!(mode_title(AppMode::RenameInput), " Rename Entry (Enter to confirm, Esc to cancel) ");
    assert_eq!(
        mode_title(AppMode::Browser),
        " Browser ( /: search | c: create tag | t: tag file | p: play | a: play all | s: show | r: rename | Esc: clear search) "
    );
}

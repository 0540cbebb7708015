//! The state of the terminal interface and how each key changes it.
//!
//! [`App::handle_key`] decides what a key does: it changes the state and
//! names the outside work (a database query, a player, a file manager) that
//! the key asks for. The program that runs the interface performs that work
//! and hands its outcome back through the `apply_*` and `finish_*` methods.
use vstd::prelude::*;
use crate::search::{copy_entry, dir_prefix, entry_views, EntryView, SearchResult};
use crate::text::{
    after_bytes, byte_len, file_name, file_name_of, is_dot_dot, lemma_split_char_nonempty,
    on_boundary, pop_char, push_char, rfind_char, rfind_char_index, skip_bytes, split_char,
    split_on_char, trim, trimmed, views,
};

verus! {

/// What the keyboard currently drives.
#[derive(Clone, Copy, PartialEq, Eq, Structural, Debug)]
pub enum AppMode {
    Browser,
    SearchInput,
    TagCreateInput,
    TagAssign,
    RenameInput,
}

/// A key press, as far as the interface tells keys apart.
#[derive(Clone, Copy, PartialEq, Eq, Structural, Debug)]
pub enum Key {
    Char(char),
    Up,
    Down,
    Enter,
    Esc,
    Backspace,
    Other,
}

/// The state of the interface. `file_state` and `tag_state` are the selected
/// rows of the file list and of the tag list.
pub struct App {
    pub mode: AppMode,
    pub files: Vec<SearchResult>,
    pub file_state: Option<usize>,
    pub tags: Vec<String>,
    pub tag_state: Option<usize>,
    pub input_buffer: String,
    pub error_msg: Option<String>,
    pub query: String,
    pub current_dir: String,
    pub active_file_tags: Vec<String>,
    pub last_key_esc: bool,
}

/// The state of the interface over mathematical values; the tags of the
/// selected item form a set.
#[verifier::ext_equal]
pub struct AppView {
    pub mode: AppMode,
    pub files: Seq<EntryView>,
    pub file_state: Option<usize>,
    pub tags: Seq<Seq<char>>,
    pub tag_state: Option<usize>,
    pub input_buffer: Seq<char>,
    pub error_msg: Option<Seq<char>>,
    pub query: Seq<char>,
    pub current_dir: Seq<char>,
    pub active_file_tags: Set<Seq<char>>,
    pub last_key_esc: bool,
}

pub open spec fn opt_view(o: Option<String>) -> Option<Seq<char>> {
    match o {
        Some(s) => Some(s@),
        None => None,
    }
}

impl View for App {
    type V = AppView;

    open spec fn view(&self) -> AppView {
        AppView {
            mode: self.mode,
            files: entry_views(self.files@),
            file_state: self.file_state,
            tags: views(self.tags@),
            tag_state: self.tag_state,
            input_buffer: self.input_buffer@,
            error_msg: opt_view(self.error_msg),
            query: self.query@,
            current_dir: self.current_dir@,
            active_file_tags: views(self.active_file_tags@).to_set(),
            last_key_esc: self.last_key_esc,
        }
    }
}

/// The outside work that a key asks for.
pub enum Effect {
    Nothing,
    /// Leave the interface.
    Quit,
    /// Load the file list again (see [`App::files_request`]).
    Reload,
    /// Show this directory, relative to the indexed root, in the file manager.
    OpenFolder(String),
    /// Show this entry in the file manager.
    Reveal(String),
    /// Play these entries, in order, in the media player.
    Play(Vec<String>),
    /// Load the list of all tags and, for the given entry, the tags it
    /// carries (for a directory, those that every file under it carries).
    LoadTags(Option<SearchResult>),
    /// Create a tag, under the named parent tag where there is one.
    CreateTag(String, Option<String>),
    /// Toggle the tag on the entry (on every file under a directory).
    ToggleTag(SearchResult, String),
    /// Rename the entry to the new name within its directory; then load the
    /// file list again.
    Rename(String, String),
}

pub enum EffectView {
    Nothing,
    Quit,
    Reload,
    OpenFolder(Seq<char>),
    Reveal(Seq<char>),
    Play(Seq<Seq<char>>),
    LoadTags(Option<EntryView>),
    CreateTag(Seq<char>, Option<Seq<char>>),
    ToggleTag(EntryView, Seq<char>),
    Rename(Seq<char>, Seq<char>),
}

impl View for Effect {
    type V = EffectView;

    open spec fn view(&self) -> EffectView {
        match self {
            Effect::Nothing => EffectView::Nothing,
            Effect::Quit => EffectView::Quit,
            Effect::Reload => EffectView::Reload,
            Effect::OpenFolder(d) => EffectView::OpenFolder(d@),
            Effect::Reveal(p) => EffectView::Reveal(p@),
            Effect::Play(ps) => EffectView::Play(views(ps@)),
            Effect::LoadTags(e) => EffectView::LoadTags(
                match e {
                    Some(r) => Some(r@),
                    None => None,
                },
            ),
            Effect::CreateTag(n, p) => EffectView::CreateTag(n@, opt_view(*p)),
            Effect::ToggleTag(e, t) => EffectView::ToggleTag(e@, t@),
            Effect::Rename(p, n) => EffectView::Rename(p@, n@),
        }
    }
}

/// The row below the selected one, staying on the last row (a list with no
/// selection selects its first row).
pub open spec fn down_from(sel: Option<usize>, len: nat) -> usize {
    match sel {
        Some(i) => if i >= (if len == 0 { 0 } else { len - 1 }) { i } else { (i + 1) as usize },
        None => 0,
    }
}

/// The row above the selected one, staying on the first row.
pub open spec fn up_from(sel: Option<usize>) -> usize {
    match sel {
        Some(i) => if i == 0 { 0 } else { (i - 1) as usize },
        None => 0,
    }
}

/// The selected entry of the file list, where the selection names one.
pub open spec fn selected_entry(s: AppView) -> Option<EntryView> {
    match s.file_state {
        Some(i) => if i < s.files.len() { Some(s.files[i as int]) } else { None },
        None => None,
    }
}

/// The directory that holds `dir`: what comes before its last `/`, or the
/// root where it has none.
pub open spec fn parent_dir(dir: Seq<char>) -> Seq<char> {
    match rfind_char(dir, '/') {
        Some(i) => dir.take(i),
        None => Seq::empty(),
    }
}

/// The tag, and its parent tag, that a tag-creation input asks for: the
/// input split at `:`, each part trimmed; a parent only where there are
/// exactly two parts.
pub open spec fn tag_request(input: Seq<char>) -> (Seq<char>, Option<Seq<char>>) {
    let parts = split_char(input, ':');
    if parts.len() == 2 {
        (trimmed(parts[0]), Some(trimmed(parts[1])))
    } else {
        (trimmed(parts[0]), None)
    }
}

/// What a key does to the text being typed: `Esc` leaves for the browser, a
/// character is appended, `Backspace` removes the last character.
pub open spec fn edit_step(s: AppView, key: Key) -> AppView {
    match key {
        Key::Esc => AppView { mode: AppMode::Browser, ..s },
        Key::Char(c) => AppView { input_buffer: s.input_buffer.push(c), ..s },
        Key::Backspace => if s.input_buffer.len() > 0 {
            AppView { input_buffer: s.input_buffer.drop_last(), ..s }
        } else {
            s
        },
        _ => s,
    }
}

/// What a key does in the browser.
pub open spec fn browser_step(s: AppView, key: Key) -> (AppView, EffectView) {
    if key == Key::Char('q') {
        (s, EffectView::Quit)
    } else if key == Key::Down || key == Key::Char('j') {
        (AppView { file_state: Some(down_from(s.file_state, s.files.len())), ..s }, EffectView::Nothing)
    } else if key == Key::Up || key == Key::Char('k') {
        (AppView { file_state: Some(up_from(s.file_state)), ..s }, EffectView::Nothing)
    } else if key == Key::Char('/') {
        (AppView { mode: AppMode::SearchInput, input_buffer: s.query, ..s }, EffectView::Nothing)
    } else if key == Key::Char('c') {
        (
            AppView { mode: AppMode::TagCreateInput, input_buffer: Seq::empty(), ..s },
            EffectView::Nothing,
        )
    } else if key == Key::Char('s') {
        (
            s,
            match selected_entry(s) {
                Some(f) => if f.rel_path == ".."@ {
                    EffectView::OpenFolder(s.current_dir)
                } else {
                    EffectView::Reveal(f.rel_path)
                },
                None => EffectView::Nothing,
            },
        )
    } else if key == Key::Char('r') {
        match selected_entry(s) {
            Some(f) => if f.rel_path != ".."@ {
                (
                    AppView {
                        mode: AppMode::RenameInput,
                        input_buffer: file_name(f.rel_path),
                        ..s
                    },
                    EffectView::Nothing,
                )
            } else {
                (s, EffectView::Nothing)
            },
            None => (s, EffectView::Nothing),
        }
    } else if key == Key::Char('t') {
        if s.file_state is Some {
            (AppView { mode: AppMode::TagAssign, ..s }, EffectView::LoadTags(selected_entry(s)))
        } else {
            (s, EffectView::Nothing)
        }
    } else if key == Key::Char('p') {
        (
            s,
            match selected_entry(s) {
                Some(f) => EffectView::Play(seq![f.rel_path]),
                None => EffectView::Nothing,
            },
        )
    } else if key == Key::Char('a') {
        (
            s,
            if s.files.len() > 0 {
                EffectView::Play(s.files.map_values(|f: EntryView| f.rel_path))
            } else {
                EffectView::Nothing
            },
        )
    } else if key == Key::Esc {
        if s.query.len() > 0 {
            (AppView { query: Seq::empty(), ..s }, EffectView::Reload)
        } else {
            (s, EffectView::Nothing)
        }
    } else if key == Key::Enter {
        match selected_entry(s) {
            Some(f) => if f.is_dir {
                if f.rel_path == ".."@ {
                    (
                        AppView { current_dir: parent_dir(s.current_dir), file_state: Some(0), ..s },
                        EffectView::Reload,
                    )
                } else {
                    (
                        AppView {
                            current_dir: f.rel_path,
                            query: Seq::empty(),
                            file_state: Some(0),
                            ..s
                        },
                        EffectView::Reload,
                    )
                }
            } else {
                (s, EffectView::Play(seq![f.rel_path]))
            },
            None => (s, EffectView::Nothing),
        }
    } else {
        (s, EffectView::Nothing)
    }
}

/// What a key does while a search query is typed.
pub open spec fn search_input_step(s: AppView, key: Key) -> (AppView, EffectView) {
    if key == Key::Enter {
        (AppView { query: s.input_buffer, mode: AppMode::Browser, ..s }, EffectView::Reload)
    } else {
        (edit_step(s, key), EffectView::Nothing)
    }
}

/// What a key does while a new tag is typed.
pub open spec fn tag_create_step(s: AppView, key: Key) -> (AppView, EffectView) {
    if key == Key::Enter {
        let input = trimmed(s.input_buffer);
        (
            AppView { mode: AppMode::Browser, ..s },
            if input.len() > 0 {
                EffectView::CreateTag(tag_request(input).0, tag_request(input).1)
            } else {
                EffectView::Nothing
            },
        )
    } else {
        (edit_step(s, key), EffectView::Nothing)
    }
}

/// What a key does while tags are assigned to the selected entry.
pub open spec fn tag_assign_step(s: AppView, key: Key) -> (AppView, EffectView) {
    if key == Key::Esc || key == Key::Char('q') {
        (AppView { mode: AppMode::Browser, ..s }, EffectView::Nothing)
    } else if key == Key::Down || key == Key::Char('j') {
        (AppView { tag_state: Some(down_from(s.tag_state, s.tags.len())), ..s }, EffectView::Nothing)
    } else if key == Key::Up || key == Key::Char('k') {
        (AppView { tag_state: Some(up_from(s.tag_state)), ..s }, EffectView::Nothing)
    } else if key == Key::Enter {
        match (selected_entry(s), s.tag_state) {
            (Some(f), Some(t)) => (s, EffectView::ToggleTag(f, s.tags[t as int])),
            _ => (s, EffectView::Nothing),
        }
    } else {
        (s, EffectView::Nothing)
    }
}

/// What a key does while a new name is typed for the selected entry.
pub open spec fn rename_step(s: AppView, key: Key) -> (AppView, EffectView) {
    if key == Key::Enter {
        let input = trimmed(s.input_buffer);
        (
            AppView { mode: AppMode::Browser, ..s },
            match selected_entry(s) {
                Some(f) => if input.len() > 0 {
                    EffectView::Rename(f.rel_path, input)
                } else {
                    EffectView::Reload
                },
                None => EffectView::Reload,
            },
        )
    } else {
        (edit_step(s, key), EffectView::Nothing)
    }
}

/// What a key does: every key clears the message; `Esc` in the browser warns
/// first and leaves on the second press in a row; then the current mode
/// decides.
pub open spec fn step(s: AppView, key: Key) -> (AppView, EffectView) {
    let cleared = AppView { error_msg: None, ..s };
    if key == Key::Esc && s.mode == AppMode::Browser {
        if s.last_key_esc {
            (cleared, EffectView::Quit)
        } else {
            browser_step(
                AppView {
                    last_key_esc: true,
                    error_msg: Some("Press Esc again to quit"@),
                    ..s
                },
                key,
            )
        }
    } else {
        let t = AppView { last_key_esc: false, ..cleared };
        match t.mode {
            AppMode::Browser => browser_step(t, key),
            AppMode::SearchInput => search_input_step(t, key),
            AppMode::TagCreateInput => tag_create_step(t, key),
            AppMode::TagAssign => tag_assign_step(t, key),
            AppMode::RenameInput => rename_step(t, key),
        }
    }
}

/// The keys on which the interface fails: `Enter` while assigning tags, with
/// an entry selected and a tag row selected past the end of the tag list.
pub open spec fn step_fails(s: AppView, key: Key) -> bool {
    &&& s.mode == AppMode::TagAssign
    &&& key == Key::Enter
    &&& selected_entry(s) is Some
    &&& s.tag_state matches Some(t) && t >= s.tags.len()
}

/// Where the file list comes from.
pub enum FilesRequest {
    /// The entries directly in this directory.
    Browse(String),
    /// The entries that this search query finds.
    Search(String),
}

/// The file list that a state asks for: a search where there is a query,
/// else the current directory.
pub open spec fn files_request_of(s: AppView) -> (bool, Seq<char>) {
    if s.query.len() == 0 {
        (false, s.current_dir)
    } else {
        (true, s.query)
    }
}

/// The entry that leads up to the parent directory.
pub open spec fn is_up_entry(e: EntryView) -> bool {
    e.id == -1 && e.rel_path == ".."@ && e.is_dir
}

/// The row to select in a list of `len > 0` rows: the selected one, or the
/// first, moved onto the last row where it lies past it.
pub open spec fn clamp_selection(sel: Option<usize>, len: nat) -> usize {
    let i = match sel {
        Some(i) => i,
        None => 0,
    };
    if i >= len { (len - 1) as usize } else { i }
}

/// Whether the listing of a state shows the entry leading up.
pub open spec fn shows_up_entry(s: AppView) -> bool {
    s.query.len() == 0 && s.current_dir.len() > 0
}

/// The state once `rows` are loaded as the file list: below a
/// sub-directory, and not searching, the entry leading up comes first; the
/// selection stays where it was, moves onto the last row, or is cleared for
/// an empty list.
pub open spec fn loaded_files(s: AppView, rows: Seq<EntryView>, files: Seq<EntryView>) -> bool {
    &&& shows_up_entry(s) ==> files.len() == rows.len() + 1 && is_up_entry(files[0])
        && files.skip(1) == rows
    &&& !shows_up_entry(s) ==> files == rows
}

/// The selection after a list of `len` rows is loaded.
pub open spec fn loaded_selection(sel: Option<usize>, len: nat) -> Option<usize> {
    if len == 0 {
        None
    } else {
        Some(clamp_selection(sel, len))
    }
}

/// The selection of the tag list once `len` tags are loaded: none for an
/// empty list, else the one before, or the first.
pub open spec fn loaded_tag_selection(sel: Option<usize>, len: nat) -> Option<usize> {
    if len == 0 {
        None
    } else if sel is None {
        Some(0)
    } else {
        sel
    }
}

/// How a rename went.
pub enum RenameOutcome {
    /// The entry was renamed and its new path recorded.
    Renamed,
    /// Nothing was renamed, or the new path lies outside the indexed root.
    Unrecorded,
    /// Renaming failed, for the reason given.
    Failed(String),
}

/// The text shown for an entry of the file list: `.. (up)` for the entry
/// leading up; else its path, without the current directory when browsing,
/// after a folder sign for a directory.
pub open spec fn display_name_of(s: AppView, f: EntryView) -> Seq<char> {
    if f.rel_path == ".."@ {
        ".. (up)"@
    } else {
        let shown = if s.query.len() == 0 {
            after_bytes(f.rel_path, byte_len(dir_prefix(s.current_dir)) as int)
        } else {
            f.rel_path
        };
        if f.is_dir {
            "\u{1F4C1} "@ + shown
        } else {
            shown
        }
    }
}

/// Whether an entry's path can be shown without the current directory: the
/// cut after `dir/` falls on a character boundary.
pub open spec fn displayable(s: AppView, f: EntryView) -> bool {
    f.rel_path != ".."@ && s.query.len() == 0 ==> on_boundary(
        f.rel_path,
        byte_len(dir_prefix(s.current_dir)) as int,
    )
}

/// The title of the file list.
pub open spec fn files_title_of(s: AppView) -> Seq<char> {
    if s.query.len() == 0 && s.current_dir.len() > 0 {
        " Files: "@ + s.current_dir + " "@
    } else if s.query.len() > 0 {
        " Search Results "@
    } else {
        " Files "@
    }
}

/// The row of the tag list for `tag`: checked where the selected entry
/// carries it.
pub open spec fn tag_label_of(s: AppView, tag: Seq<char>) -> Seq<char> {
    (if s.active_file_tags.contains(tag) { "[x]"@ } else { "[ ]"@ }) + " "@ + tag
}

/// The title of the input line in each mode.
pub open spec fn mode_title_of(mode: AppMode) -> Seq<char> {
    match mode {
        AppMode::Browser => " Browser ( /: search | c: create tag | t: tag file | p: play | a: play all | s: show | r: rename | Esc: clear search) "@,
        AppMode::SearchInput => " Search Query (Enter to apply, Esc to cancel) "@,
        AppMode::TagCreateInput => " Create Tag (Syntax: newTag OR newTag:oldTag) "@,
        AppMode::TagAssign => " Tag Assignment (Enter to toggle, Esc to return) "@,
        AppMode::RenameInput => " Rename Entry (Enter to confirm, Esc to cancel) "@,
    }
}

/// The text of the input line: the query while browsing or assigning tags,
/// else the text being typed, followed by a cursor block.
pub open spec fn input_text_of(s: AppView) -> Seq<char> {
    if s.mode == AppMode::Browser || s.mode == AppMode::TagAssign {
        s.query
    } else {
        s.input_buffer + "\u{2588}"@
    }
}

/// The text of the status line: the message, or `Status: OK`.
pub open spec fn info_text_of(s: AppView) -> Seq<char> {
    match s.error_msg {
        Some(m) => m,
        None => "Status: OK"@,
    }
}

/// Whether `list` holds a string equal to `s`.
fn holds(list: &Vec<String>, s: &String) -> (b: bool)
    ensures
        b == views(list@).contains(s@),
{
    let mut i: usize = 0;
    while i < list.len()
        invariant
            i <= list.len(),
            forall|j: int| 0 <= j < i ==> list@[j]@ != s@,
        decreases list.len() - i,
    {
        if list[i] == *s {
            assert(views(list@)[i as int] == s@);
            return true;
        }
        i = i + 1;
    }
    assert(!views(list@).contains(s@)) by {
        if views(list@).contains(s@) {
            let k = choose|k: int| 0 <= k < views(list@).len() && views(list@)[k] == s@;
            assert(list@[k]@ == s@);
        }
    }
    false
}

impl App {
    /// The interface as it starts: browsing the root, nothing loaded.
    pub fn new() -> (app: App)
        ensures
            app@ == (AppView {
                mode: AppMode::Browser,
                files: Seq::empty(),
                file_state: None,
                tags: Seq::empty(),
                tag_state: None,
                input_buffer: Seq::empty(),
                error_msg: None,
                query: Seq::empty(),
                current_dir: Seq::empty(),
                active_file_tags: Set::empty(),
                last_key_esc: false,
            }),
    {
        let app = App {
            mode: AppMode::Browser,
            files: Vec::new(),
            file_state: None,
            tags: Vec::new(),
            tag_state: None,
            input_buffer: String::new(),
            error_msg: None,
            query: String::new(),
            current_dir: String::new(),
            active_file_tags: Vec::new(),
            last_key_esc: false,
        };
        assert(entry_views(app.files@) =~= Seq::empty());
        assert(views(app.tags@) =~= Seq::empty());
        assert(views(app.active_file_tags@).to_set() =~= Set::empty());
        app
    }

    /// The selected entry, copied, where the selection names one.
    fn selected(&self) -> (r: Option<SearchResult>)
        ensures
            match r {
                Some(f) => selected_entry(self@) == Some(f@),
                None => selected_entry(self@) is None,
            },
    {
        match self.file_state {
            Some(i) => if i < self.files.len() {
                Some(copy_entry(&self.files[i]))
            } else {
                None
            },
            None => None,
        }
    }

    fn browser_key(&mut self, key: Key) -> (effect: Effect)
        ensures
            (final(self)@, effect@) == browser_step(old(self)@, key),
    {
        proof {
            reveal_strlit("..");
        }
        if key == Key::Char('q') {
            Effect::Quit
        } else if key == Key::Down || key == Key::Char('j') {
            let len = self.files.len();
            let i = match self.file_state {
                Some(i) => if i >= len.saturating_sub(1) {
                    i
                } else {
                    i + 1
                },
                None => 0,
            };
            self.file_state = Some(i);
            Effect::Nothing
        } else if key == Key::Up || key == Key::Char('k') {
            let i = match self.file_state {
                Some(i) => if i == 0 {
                    0
                } else {
                    i - 1
                },
                None => 0,
            };
            self.file_state = Some(i);
            Effect::Nothing
        } else if key == Key::Char('/') {
            self.mode = AppMode::SearchInput;
            self.input_buffer = self.query.clone();
            Effect::Nothing
        } else if key == Key::Char('c') {
            self.mode = AppMode::TagCreateInput;
            self.input_buffer = String::new();
            Effect::Nothing
        } else if key == Key::Char('s') {
            match self.selected() {
                Some(f) => if is_dot_dot(f.rel_path.as_str()) {
                    Effect::OpenFolder(self.current_dir.clone())
                } else {
                    Effect::Reveal(f.rel_path)
                },
                None => Effect::Nothing,
            }
        } else if key == Key::Char('r') {
            match self.selected() {
                Some(f) => {
                    if !is_dot_dot(f.rel_path.as_str()) {
                        self.mode = AppMode::RenameInput;
                        self.input_buffer = file_name_of(f.rel_path.as_str());
                    }
                    Effect::Nothing
                },
                None => Effect::Nothing,
            }
        } else if key == Key::Char('t') {
            if self.file_state.is_some() {
                let target = self.selected();
                self.mode = AppMode::TagAssign;
                Effect::LoadTags(target)
            } else {
                Effect::Nothing
            }
        } else if key == Key::Char('p') {
            match self.selected() {
                Some(f) => {
                    let mut paths: Vec<String> = Vec::new();
                    paths.push(f.rel_path);
                    assert(views(paths@) =~= seq![f@.rel_path]);
                    Effect::Play(paths)
                },
                None => Effect::Nothing,
            }
        } else if key == Key::Char('a') {
            if self.files.len() > 0 {
                let mut paths: Vec<String> = Vec::new();
                let mut i: usize = 0;
                while i < self.files.len()
                    invariant
                        i <= self.files.len(),
                        views(paths@) =~= entry_views(self.files@).map_values(
                            |f: EntryView| f.rel_path,
                        ).take(i as int),
                    decreases self.files.len() - i,
                {
                    let ghost pb = views(paths@);
                    paths.push(self.files[i].rel_path.clone());
                    assert(views(paths@) =~= pb.push(self.files@[i as int]@.rel_path));
                    i = i + 1;
                }
                assert(entry_views(self.files@).map_values(|f: EntryView| f.rel_path).take(
                    self.files.len() as int,
                ) =~= entry_views(self.files@).map_values(|f: EntryView| f.rel_path));
                Effect::Play(paths)
            } else {
                Effect::Nothing
            }
        } else if key == Key::Esc {
            if self.query.as_str().unicode_len() > 0 {
                self.query = String::new();
                Effect::Reload
            } else {
                Effect::Nothing
            }
        } else if key == Key::Enter {
            match self.selected() {
                Some(f) => if f.is_dir {
                    if is_dot_dot(f.rel_path.as_str()) {
                        let parent = match rfind_char_index(self.current_dir.as_str(), '/') {
                            Some(last_slash) => String::from_str(
                                self.current_dir.as_str().substring_char(0, last_slash),
                            ),
                            None => String::new(),
                        };
                        assert(parent@ =~= parent_dir(self.current_dir@));
                        self.current_dir = parent;
                    } else {
                        self.current_dir = f.rel_path;
                        self.query = String::new();
                    }
                    self.file_state = Some(0);
                    Effect::Reload
                } else {
                    let mut paths: Vec<String> = Vec::new();
                    paths.push(f.rel_path);
                    assert(views(paths@) =~= seq![f@.rel_path]);
                    Effect::Play(paths)
                },
                None => Effect::Nothing,
            }
        } else {
            Effect::Nothing
        }
    }

    fn edit_key(&mut self, key: Key)
        ensures
            final(self)@ == edit_step(old(self)@, key),
    {
        match key {
            Key::Esc => {
                self.mode = AppMode::Browser;
            },
            Key::Char(c) => {
                push_char(&mut self.input_buffer, c);
            },
            Key::Backspace => {
                pop_char(&mut self.input_buffer);
            },
            _ => {},
        }
    }

    fn tag_create_key(&mut self, key: Key) -> (effect: Effect)
        ensures
            (final(self)@, effect@) == tag_create_step(old(self)@, key),
    {
        if key == Key::Enter {
            let input = trim(self.input_buffer.as_str());
            let effect = if input.unicode_len() > 0 {
                let parts = split_on_char(input, ':');
                proof {
                    lemma_split_char_nonempty(input@, ':', 0, 0);
                }
                let name = String::from_str(trim(parts[0].as_str()));
                if parts.len() == 2 {
                    let parent = String::from_str(trim(parts[1].as_str()));
                    Effect::CreateTag(name, Some(parent))
                } else {
                    Effect::CreateTag(name, None)
                }
            } else {
                Effect::Nothing
            };
            self.mode = AppMode::Browser;
            effect
        } else {
            self.edit_key(key);
            Effect::Nothing
        }
    }

    fn tag_assign_key(&mut self, key: Key) -> (effect: Effect)
        requires
            !step_fails(AppView { last_key_esc: false, error_msg: None, ..old(self)@ }, key),
            old(self).mode == AppMode::TagAssign,
        ensures
            (final(self)@, effect@) == tag_assign_step(old(self)@, key),
    {
        if key == Key::Esc || key == Key::Char('q') {
            self.mode = AppMode::Browser;
            Effect::Nothing
        } else if key == Key::Down || key == Key::Char('j') {
            let len = self.tags.len();
            let i = match self.tag_state {
                Some(i) => if i >= len.saturating_sub(1) {
                    i
                } else {
                    i + 1
                },
                None => 0,
            };
            self.tag_state = Some(i);
            Effect::Nothing
        } else if key == Key::Up || key == Key::Char('k') {
            let i = match self.tag_state {
                Some(i) => if i == 0 {
                    0
                } else {
                    i - 1
                },
                None => 0,
            };
            self.tag_state = Some(i);
            Effect::Nothing
        } else if key == Key::Enter {
            match (self.selected(), self.tag_state) {
                (Some(f), Some(t)) => {
                    let tag_name = self.tags[t].clone();
                    Effect::ToggleTag(f, tag_name)
                },
                _ => Effect::Nothing,
            }
        } else {
            Effect::Nothing
        }
    }

    fn rename_key(&mut self, key: Key) -> (effect: Effect)
        ensures
            (final(self)@, effect@) == rename_step(old(self)@, key),
    {
        if key == Key::Enter {
            let input = trim(self.input_buffer.as_str());
            let effect = match self.selected() {
                Some(f) => if input.unicode_len() > 0 {
                    Effect::Rename(f.rel_path, String::from_str(input))
                } else {
                    Effect::Reload
                },
                None => Effect::Reload,
            };
            self.mode = AppMode::Browser;
            effect
        } else {
            self.edit_key(key);
            Effect::Nothing
        }
    }

    /// Whether the key is one on which the interface fails (see
    /// [`step_fails`]); [`App::handle_key`] takes every other key.
    pub fn key_fails(&self, key: Key) -> (b: bool)
        ensures
            b == step_fails(self@, key),
    {
        self.mode == AppMode::TagAssign && key == Key::Enter && self.selected().is_some()
            && match self.tag_state {
            Some(t) => t >= self.tags.len(),
            None => false,
        }
    }

    /// Changes the state as the key asks, and names the outside work to do.
    pub fn handle_key(&mut self, key: Key) -> (effect: Effect)
        requires
            !step_fails(old(self)@, key),
        ensures
            (final(self)@, effect@) == step(old(self)@, key),
    {
        self.error_msg = None;
        if key == Key::Esc && self.mode == AppMode::Browser {
            if self.last_key_esc {
                return Effect::Quit;
            } else {
                self.last_key_esc = true;
                self.error_msg = Some(String::from_str("Press Esc again to quit"));
                return self.browser_key(key);
            }
        }
        self.last_key_esc = false;
        match self.mode {
            AppMode::Browser => self.browser_key(key),
            AppMode::SearchInput => {
                if key == Key::Enter {
                    self.query = self.input_buffer.clone();
                    self.mode = AppMode::Browser;
                    Effect::Reload
                } else {
                    self.edit_key(key);
                    Effect::Nothing
                }
            },
            AppMode::TagCreateInput => self.tag_create_key(key),
            AppMode::TagAssign => self.tag_assign_key(key),
            AppMode::RenameInput => self.rename_key(key),
        }
    }

    /// Where the file list is to come from.
    pub fn files_request(&self) -> (r: FilesRequest)
        ensures
            match r {
                FilesRequest::Browse(d) => files_request_of(self@) == (false, d@),
                FilesRequest::Search(q) => files_request_of(self@) == (true, q@),
            },
    {
        if self.query.as_str().unicode_len() == 0 {
            FilesRequest::Browse(self.current_dir.clone())
        } else {
            FilesRequest::Search(self.query.clone())
        }
    }

    /// Takes `rows` as the file list.
    pub fn apply_loaded_files(&mut self, rows: Vec<SearchResult>)
        ensures
            loaded_files(old(self)@, entry_views(rows@), final(self)@.files),
            final(self)@.file_state == loaded_selection(old(self)@.file_state, final(self)@.files.len()),
            final(self)@ == (AppView {
                files: final(self)@.files,
                file_state: final(self)@.file_state,
                ..old(self)@
            }),
    {
        let ghost rv = entry_views(rows@);
        let mut files: Vec<SearchResult> = Vec::new();
        if self.query.as_str().unicode_len() == 0 && self.current_dir.as_str().unicode_len() > 0 {
            files.push(SearchResult { id: -1, rel_path: String::from_str(".."), is_dir: true });
        }
        let ghost head = entry_views(files@);
        let mut rows = rows;
        files.append(&mut rows);
        assert(entry_views(files@) =~= head + rv);
        proof {
            reveal_strlit("..");
            if shows_up_entry(old(self)@) {
                assert(entry_views(files@).skip(1) =~= rv);
            }
        }
        self.files = files;
        if self.files.len() == 0 {
            self.file_state = None;
        } else {
            let mut idx = match self.file_state {
                Some(i) => i,
                None => 0,
            };
            if idx >= self.files.len() {
                idx = self.files.len() - 1;
            }
            self.file_state = Some(idx);
        }
    }

    /// Takes `tags` as the list of all tags.
    pub fn apply_tag_list(&mut self, tags: Vec<String>)
        ensures
            final(self)@ == (AppView {
                tags: views(tags@),
                tag_state: loaded_tag_selection(old(self)@.tag_state, tags@.len()),
                ..old(self)@
            }),
    {
        self.tags = tags;
        if self.tags.len() == 0 {
            self.tag_state = None;
        } else if self.tag_state.is_none() {
            self.tag_state = Some(0);
        }
    }

    /// Takes `tags` as the tags that the selected entry carries.
    pub fn set_active_tags(&mut self, tags: Vec<String>)
        ensures
            final(self)@ == (AppView { active_file_tags: views(tags@).to_set(), ..old(self)@ }),
    {
        self.active_file_tags = tags;
    }

    /// Records how toggling `tag` went: the selected entry carries the tag
    /// where it was added, and not where it was removed or toggling failed.
    pub fn finish_toggle(&mut self, tag: String, added: Option<bool>)
        ensures
            final(self)@ == (AppView {
                active_file_tags: if added == Some(true) {
                    old(self)@.active_file_tags.insert(tag@)
                } else {
                    old(self)@.active_file_tags.remove(tag@)
                },
                ..old(self)@
            }),
    {
        let toggled = match added {
            Some(b) => b,
            None => false,
        };
        let ghost before = views(self.active_file_tags@);
        if toggled {
            if !holds(&self.active_file_tags, &tag) {
                let ghost t = tag@;
                self.active_file_tags.push(tag);
                assert(views(self.active_file_tags@) =~= before.push(t));
                assert forall|x: Seq<char>| #[trigger] before.push(t).contains(x) <==> (before.contains(x) || x == t) by {
                    if before.push(t).contains(x) {
                        let k = choose|k: int| 0 <= k < before.push(t).len() && before.push(t)[k] == x;
                        if k < before.len() {
                            assert(before[k] == x);
                        }
                    }
                    if before.contains(x) {
                        let k = choose|k: int| 0 <= k < before.len() && before[k] == x;
                        assert(before.push(t)[k] == x);
                    }
                    if x == t {
                        assert(before.push(t)[before.len() as int] == x);
                    }
                }
                assert(views(self.active_file_tags@).to_set() =~= before.to_set().insert(t));
            } else {
                assert(before.to_set().insert(tag@) =~= before.to_set());
            }
        } else {
            let mut kept: Vec<String> = Vec::new();
            let mut i: usize = 0;
            while i < self.active_file_tags.len()
                invariant
                    i <= self.active_file_tags.len(),
                    before == views(self.active_file_tags@),
                    forall|x: Seq<char>|
                        views(kept@).contains(x) <==> (views(self.active_file_tags@).take(
                            i as int,
                        ).contains(x) && x != tag@),
                decreases self.active_file_tags.len() - i,
            {
                let ghost kb = views(kept@);
                let ghost prefix = views(self.active_file_tags@).take(i as int);
                let ghost e = self.active_file_tags@[i as int]@;
                assert(views(self.active_file_tags@).take(i + 1) =~= prefix.push(e));
                assert forall|x: Seq<char>| #[trigger] prefix.push(e).contains(x) <==> (prefix.contains(x) || x == e) by {
                    if prefix.push(e).contains(x) {
                        let k = choose|k: int| 0 <= k < prefix.push(e).len() && prefix.push(e)[k] == x;
                        if k < prefix.len() {
                            assert(prefix[k] == x);
                        }
                    }
                    if prefix.contains(x) {
                        let k = choose|k: int| 0 <= k < prefix.len() && prefix[k] == x;
                        assert(prefix.push(e)[k] == x);
                    }
                    if x == e {
                        assert(prefix.push(e)[prefix.len() as int] == x);
                    }
                }
                if !(self.active_file_tags[i] == tag) {
                    kept.push(self.active_file_tags[i].clone());
                    assert(views(kept@) =~= kb.push(e));
                    assert forall|x: Seq<char>| #[trigger] kb.push(e).contains(x) <==> (kb.contains(x) || x == e) by {
                        if kb.push(e).contains(x) {
                            let k = choose|k: int| 0 <= k < kb.push(e).len() && kb.push(e)[k] == x;
                            if k < kb.len() {
                                assert(kb[k] == x);
                            }
                        }
                        if kb.contains(x) {
                            let k = choose|k: int| 0 <= k < kb.len() && kb[k] == x;
                            assert(kb.push(e)[k] == x);
                        }
                        if x == e {
                            assert(kb.push(e)[kb.len() as int] == x);
                        }
                    }
                }
                i = i + 1;
            }
            assert(views(self.active_file_tags@).take(self.active_file_tags.len() as int)
                =~= before);
            self.active_file_tags = kept;
            assert(views(self.active_file_tags@).to_set() =~= before.to_set().remove(tag@));
        }
    }

    /// Records whether the tag was created.
    pub fn finish_tag_create(&mut self, created: bool)
        ensures
            final(self)@ == (AppView {
                error_msg: Some(
                    if created {
                        "Tag created successfully."@
                    } else {
                        "Failed to create tag. Parent may not exist."@
                    },
                ),
                ..old(self)@
            }),
    {
        self.error_msg = Some(
            if created {
                String::from_str("Tag created successfully.")
            } else {
                String::from_str("Failed to create tag. Parent may not exist.")
            },
        );
    }

    /// Records how a rename went.
    pub fn finish_rename(&mut self, outcome: RenameOutcome)
        ensures
            final(self)@ == (AppView {
                error_msg: match outcome {
                    RenameOutcome::Renamed => Some("Renamed successfully."@),
                    RenameOutcome::Unrecorded => old(self)@.error_msg,
                    RenameOutcome::Failed(e) => Some("Rename failed: "@ + e@),
                },
                ..old(self)@
            }),
    {
        match outcome {
            RenameOutcome::Renamed => {
                self.error_msg = Some(String::from_str("Renamed successfully."));
            },
            RenameOutcome::Unrecorded => {},
            RenameOutcome::Failed(e) => {
                let mut m = String::from_str("Rename failed: ");
                m.append(e.as_str());
                self.error_msg = Some(m);
            },
        }
    }

    /// The text shown for `f` in the file list.
    pub fn display_name(&self, f: &SearchResult) -> (r: String)
        requires
            displayable(self@, f@),
        ensures
            r@ == display_name_of(self@, f@),
    {
        proof {
            reveal_strlit("..");
        }
        if is_dot_dot(f.rel_path.as_str()) {
            return String::from_str(".. (up)");
        }
        let shown: &str = if self.query.as_str().unicode_len() == 0 {
            let mut prefix = self.current_dir.clone();
            if self.current_dir.as_str().unicode_len() > 0 {
                prefix.append("/");
            }
            assert(prefix@ =~= dir_prefix(self.current_dir@));
            let n = prefix.as_str().as_bytes().len();
            skip_bytes(f.rel_path.as_str(), n)
        } else {
            f.rel_path.as_str()
        };
        if f.is_dir {
            let mut r = String::from_str("\u{1F4C1} ");
            r.append(shown);
            r
        } else {
            String::from_str(shown)
        }
    }

    /// The title of the file list.
    pub fn files_title(&self) -> (r: String)
        ensures
            r@ == files_title_of(self@),
    {
        if self.query.as_str().unicode_len() == 0 && self.current_dir.as_str().unicode_len() > 0 {
            let mut r = String::from_str(" Files: ");
            r.append(self.current_dir.as_str());
            r.append(" ");
            r
        } else if self.query.as_str().unicode_len() > 0 {
            String::from_str(" Search Results ")
        } else {
            String::from_str(" Files ")
        }
    }

    /// The row of the tag list for `tag`.
    pub fn tag_label(&self, tag: &String) -> (r: String)
        ensures
            r@ == tag_label_of(self@, tag@),
    {
        let held = holds(&self.active_file_tags, tag);
        let mut r = if held {
            String::from_str("[x]")
        } else {
            String::from_str("[ ]")
        };
        r.append(" ");
        r.append(tag.as_str());
        r
    }

    /// The text of the input line.
    pub fn input_text(&self) -> (r: String)
        ensures
            r@ == input_text_of(self@),
    {
        if self.mode == AppMode::Browser || self.mode == AppMode::TagAssign {
            self.query.clone()
        } else {
            let mut r = self.input_buffer.clone();
            r.append("\u{2588}");
            r
        }
    }

    /// The text of the status line.
    pub fn info_text(&self) -> (r: String)
        ensures
            r@ == info_text_of(self@),
    {
        match &self.error_msg {
            Some(m) => m.clone(),
            None => String::from_str("Status: OK"),
        }
    }
}

/// The title of the input line in `mode`.
pub fn mode_title(mode: AppMode) -> (r: String)
    ensures
        r@ == mode_title_of(mode),
{
    match mode {
        AppMode::Browser => String::from_str(
            " Browser ( /: search | c: create tag | t: tag file | p: play | a: play all | s: show | r: rename | Esc: clear search) ",
        ),
        AppMode::SearchInput => String::from_str(" Search Query (Enter to apply, Esc to cancel) "),
        AppMode::TagCreateInput => String::from_str(
            " Create Tag (Syntax: newTag OR newTag:oldTag) ",
        ),
        AppMode::TagAssign => String::from_str(" Tag Assignment (Enter to toggle, Esc to return) "),
        AppMode::RenameInput => String::from_str(" Rename Entry (Enter to confirm, Esc to cancel) "),
    }
}

/// In the browser, `Esc` quits where it follows an `Esc`; else it warns,
/// and the next `Esc` quits.
pub proof fn law_double_esc_quits(s: AppView)
    requires
        s.mode == AppMode::Browser,
    ensures
        s.last_key_esc ==> step(s, Key::Esc).1 == EffectView::Quit,
        !s.last_key_esc ==> step(s, Key::Esc).0.mode == AppMode::Browser
            && step(s, Key::Esc).0.last_key_esc
            && step(step(s, Key::Esc).0, Key::Esc).1 == EffectView::Quit,
{
}

/// In the browser, a first `Esc` clears an active search and lists the
/// current directory again.
pub proof fn law_esc_clears_search(s: AppView)
    requires
        s.mode == AppMode::Browser,
        !s.last_key_esc,
        s.query.len() > 0,
    ensures
        step(s, Key::Esc).0.query.len() == 0,
        step(s, Key::Esc).1 == EffectView::Reload,
        step(s, Key::Esc).0.error_msg == Some("Press Esc again to quit"@),
{
}

/// Moving up or down a file list keeps the selection on one of its rows.
pub proof fn law_navigation_stays_in_list(s: AppView, key: Key)
    requires
        s.mode == AppMode::Browser,
        key == Key::Up || key == Key::Down,
        s.files.len() > 0,
        s.file_state matches Some(i) ==> i < s.files.len(),
    ensures
        step(s, key).0.file_state matches Some(i) && i < s.files.len(),
{
}

/// While text is typed, `Backspace` takes back the character just typed.
pub proof fn law_backspace_undoes_typing(s: AppView, c: char)
    requires
        s.mode == AppMode::SearchInput || s.mode == AppMode::TagCreateInput || s.mode
            == AppMode::RenameInput,
    ensures
        step(step(s, Key::Char(c)).0, Key::Backspace).0.input_buffer == s.input_buffer,
        step(step(s, Key::Char(c)).0, Key::Backspace).0.mode == s.mode,
{
    assert(s.input_buffer.push(c).drop_last() =~= s.input_buffer);
}

/// Opening the search and cancelling it with `Esc` leaves the query as it
/// was and returns to the browser.
pub proof fn law_cancelled_search_keeps_query(s: AppView)
    requires
        s.mode == AppMode::Browser,
    ensures
        step(step(s, Key::Char('/')).0, Key::Esc).0.query == s.query,
        step(step(s, Key::Char('/')).0, Key::Esc).0.mode == AppMode::Browser,
{
}

/// A search typed and applied becomes the query, and the file list is
/// loaded again.
pub proof fn law_applied_search_is_query(s: AppView)
    requires
        s.mode == AppMode::SearchInput,
    ensures
        step(s, Key::Enter).0.query == s.input_buffer,
        step(s, Key::Enter).0.mode == AppMode::Browser,
        step(s, Key::Enter).1 == EffectView::Reload,
{
}

/// The directory that holds `dir/name`, for a name without `/`, is `dir`.
pub proof fn law_parent_of_child(dir: Seq<char>, name: Seq<char>)
    requires
        !name.contains('/'),
    ensures
        parent_dir(dir_prefix(dir) + name) == dir,
{
    let p = dir_prefix(dir) + name;
    let n = p.len() as int;
    let k = dir_prefix(dir).len() as int;
    assert forall|i: int| k <= i < n implies p[i] != '/' by {
        assert(p[i] == name[i - k]);
    }
    assert forall|i: int| k <= i <= n implies #[trigger] crate::text::index_before(p, '/', i)
        == crate::text::index_before(p, '/', k) by {
        lemma_index_before_skips(p, '/', k, i);
    }
    if dir.len() == 0 {
        assert(crate::text::index_before(p, '/', 0) == -1);
        assert(p =~= name);
    } else {
        reveal_strlit("/");
        assert(p[k - 1] == '/');
        assert(p.take(k - 1) =~= dir);
    }
}

proof fn lemma_index_before_skips(s: Seq<char>, c: char, k: int, i: int)
    requires
        0 <= k <= i <= s.len(),
        forall|j: int| k <= j < s.len() ==> s[j] != c,
    ensures
        crate::text::index_before(s, c, i) == crate::text::index_before(s, c, k),
    decreases i - k,
{
    if i > k {
        lemma_index_before_skips(s, c, k, i - 1);
    }
}

/// Entering a sub-directory and then the entry leading up, once the new
/// listing is loaded with the selection on its first row, returns to the
/// directory that was being browsed.
pub proof fn law_enter_then_up_returns(s: AppView, name: Seq<char>, loaded: AppView)
    requires
        s.mode == AppMode::Browser,
        s.query.len() == 0,
        !name.contains('/'),
        name != ".."@,
        selected_entry(s) matches Some(f) && f.is_dir && f.rel_path == dir_prefix(
            s.current_dir,
        ) + name,
        loaded == (AppView {
            files: loaded.files,
            file_state: loaded.file_state,
            ..step(s, Key::Enter).0
        }),
        loaded.file_state == Some(0usize),
        loaded.files.len() > 0,
        is_up_entry(loaded.files[0]),
    ensures
        step(s, Key::Enter).1 == EffectView::Reload,
        step(loaded, Key::Enter).0.current_dir == s.current_dir,
        step(loaded, Key::Enter).1 == EffectView::Reload,
{
    reveal_strlit("..");
    reveal_strlit("/");
    let f = selected_entry(s)->0;
    if s.current_dir.len() == 0 {
        assert(f.rel_path =~= name);
    } else {
        let k = s.current_dir.len() as int;
        assert(f.rel_path[k] == '/');
        if f.rel_path == ".."@ {
            assert(".."@[k] == '.');
        }
    }
    assert(f.rel_path != ".."@);
    law_parent_of_child(s.current_dir, name);
}

/// A loaded list with rows has a selected row within it; an empty one has
/// none.
pub proof fn law_loaded_selection_in_list(sel: Option<usize>, len: nat)
    ensures
        len == 0 ==> loaded_selection(sel, len) is None,
        len > 0 ==> (loaded_selection(sel, len) matches Some(i) && i < len),
        len > 0 && (sel matches Some(i) && i < len) ==> loaded_selection(sel, len) == sel,
{
}

/// After a tag is toggled, its row in the tag list is checked exactly where
/// it was added.
pub proof fn law_toggled_tag_label(s: AppView, tag: Seq<char>, added: Option<bool>, after: AppView)
    requires
        after == (AppView {
            active_file_tags: if added == Some(true) {
                s.active_file_tags.insert(tag)
            } else {
                s.active_file_tags.remove(tag)
            },
            ..s
        }),
    ensures
        tag_label_of(after, tag) == (if added == Some(true) {
            "[x]"@
        } else {
            "[ ]"@
        }) + " "@ + tag,
{
}

proof fn lemma_split_skips(s: Seq<char>, c: char, start: int, i: int, k: int)
    requires
        0 <= i <= k <= s.len(),
        forall|j: int| i <= j < k ==> s[j] != c,
    ensures
        crate::text::split_char_from(s, c, start, i) == crate::text::split_char_from(
            s,
            c,
            start,
            k,
        ),
    decreases k - i,
{
    if i < k {
        lemma_split_skips(s, c, start, i + 1, k);
    }
}

/// A new tag typed as `child:parent`, neither part holding `:`, is the tag
/// `child` under the parent `parent`, each trimmed; typed without `:`, it
/// has no parent.
pub proof fn law_child_colon_parent(child: Seq<char>, parent: Seq<char>)
    requires
        !child.contains(':'),
        !parent.contains(':'),
    ensures
        tag_request(child + seq![':'] + parent) == (trimmed(child), Some(trimmed(parent))),
        tag_request(child) == (trimmed(child), None::<Seq<char>>),
{
    let s = child + seq![':'] + parent;
    let n = child.len() as int;
    assert forall|j: int| 0 <= j < n implies s[j] != ':' by {
        assert(s[j] == child[j]);
    }
    assert forall|j: int| n + 1 <= j < s.len() implies s[j] != ':' by {
        assert(s[j] == parent[j - n - 1]);
    }
    lemma_split_skips(s, ':', 0, 0, n);
    lemma_split_skips(s, ':', n + 1, n + 1, s.len() as int);
    assert(s[n] == ':');
    assert(s.subrange(0, n) =~= child);
    assert(s.subrange(n + 1, s.len() as int) =~= parent);
    assert(split_char(s, ':') =~= seq![child, parent]);
    assert forall|j: int| 0 <= j < child.len() implies child[j] != ':' by {}
    lemma_split_skips(child, ':', 0, 0, child.len() as int);
    assert(child.subrange(0, child.len() as int) =~= child);
    assert(split_char(child, ':') =~= seq![child]);
}

/// While tags are assigned, `Up`/`k` moves the tag selection one row up
/// (staying on the first row; selecting it where nothing was) and `Down`/`j`
/// one row down (staying on the last); nothing else changes but the message
/// and the `Esc` warning, which every key clears.
pub proof fn law_tag_list_navigation(s: AppView, key: Key)
    requires
        s.mode == AppMode::TagAssign,
        key == Key::Up || key == Key::Char('k') || key == Key::Down || key == Key::Char('j'),
    ensures
        step(s, key).1 == EffectView::Nothing,
        step(s, key).0 == (AppView {
            tag_state: Some(
                if key == Key::Up || key == Key::Char('k') {
                    match s.tag_state {
                        Some(i) => if i > 0 { (i - 1) as usize } else { 0usize },
                        None => 0usize,
                    }
                } else {
                    match s.tag_state {
                        Some(i) => if i + 1 < s.tags.len() { (i + 1) as usize } else { i },
                        None => 0usize,
                    }
                },
            ),
            error_msg: None,
            last_key_esc: false,
            ..s
        }),
{
}

/// While tags are assigned, no key changes the file list or its selection,
/// and `Enter` toggles the selected tag on the selected entry.
pub proof fn law_tag_assignment_keeps_files(s: AppView, key: Key)
    requires
        s.mode == AppMode::TagAssign,
    ensures
        step(s, key).0.files == s.files,
        step(s, key).0.file_state == s.file_state,
        (key == Key::Enter && s.file_state is Some && s.file_state->0 < s.files.len()
            && s.tag_state is Some) ==> step(s, key).1 == EffectView::ToggleTag(
            s.files[s.file_state->0 as int],
            s.tags[s.tag_state->0 as int],
        ),
{
}

/// In every text-entry mode `Esc` cancels: it returns to the browser, asks
/// for no outside work, and leaves the typed text and everything else as
/// they were.
pub proof fn law_esc_cancels_input(s: AppView)
    requires
        s.mode == AppMode::SearchInput || s.mode == AppMode::TagCreateInput || s.mode
            == AppMode::RenameInput,
    ensures
        step(s, Key::Esc) == (AppView {
            mode: AppMode::Browser,
            error_msg: None,
            last_key_esc: false,
            ..s
        }, EffectView::Nothing),
{
}

/// In a text-entry mode, only `Enter` asks for outside work; every other key
/// edits the text at most and stays in the mode, `Esc` aside.
pub proof fn law_only_enter_acts_in_input(s: AppView, key: Key)
    requires
        s.mode == AppMode::SearchInput || s.mode == AppMode::TagCreateInput || s.mode
            == AppMode::RenameInput,
        key != Key::Enter,
    ensures
        step(s, key).1 == EffectView::Nothing,
        key != Key::Esc ==> step(s, key).0.mode == s.mode,
        step(s, key).0.query == s.query,
        step(s, key).0.current_dir == s.current_dir,
        step(s, key).0.files == s.files,
        step(s, key).0.file_state == s.file_state,
{
}

} // verus!

//! Search queries: splitting what the user typed into a file-name filter and
//! a tag expression, reading the tag expression, and writing the SQL query
//! (with its parameters) that finds the matching files; and the rows that a
//! directory listing keeps.
use vstd::prelude::*;
use crate::text::{
    after_bytes, byte_len, on_boundary, skip_bytes,
    decimal, decimal_string, find_char, find_char_index, join, join_with, split_on_pair, split_pair,
    trim, trim_quotes, trimmed, unquoted, views,
};

verus! {

/// A file or directory recorded in the index.
#[derive(Clone)]
pub struct SearchResult {
    pub id: i64,
    pub rel_path: String,
    pub is_dir: bool,
}

/// What a [`SearchResult`] records, over character sequences.
pub struct EntryView {
    pub id: i64,
    pub rel_path: Seq<char>,
    pub is_dir: bool,
}

impl View for SearchResult {
    type V = EntryView;

    open spec fn view(&self) -> EntryView {
        EntryView { id: self.id, rel_path: self.rel_path@, is_dir: self.is_dir }
    }
}

/// The views of a sequence of entries.
pub open spec fn entry_views(rows: Seq<SearchResult>) -> Seq<EntryView> {
    rows.map_values(|r: SearchResult| r@)
}

/// The index at which the tag part of a query starts: its first `"`, or the
/// `!` just before it.
pub open spec fn tags_start(query: Seq<char>) -> Option<int> {
    match find_char(query, '"') {
        Some(k) => Some(if k > 0 && query[k - 1] == '!' { k - 1 } else { k }),
        None => None,
    }
}

/// The file-name filter and the tag expression of a query: the text before
/// the tag part, trimmed, and the tag part from its start to the end. With no
/// `"` in the query, the whole of it, trimmed, filters file names.
pub open spec fn split_query(query: Seq<char>) -> (Seq<char>, Seq<char>) {
    match tags_start(query) {
        Some(i) => (trimmed(query.take(i)), query.skip(i)),
        None => (trimmed(query), Seq::empty()),
    }
}

/// Splits a search query into its file-name filter and its tag expression.
/// (The split is counted in characters; `"` and `!` being ASCII, it falls
/// where a byte-wise search for them puts it.)
pub fn parse_query(query: &str) -> (r: (String, String))
    ensures
        (r.0@, r.1@) == split_query(query@),
{
    match find_char_index(query, '"') {
        Some(first_quote) => {
            let split_idx = if first_quote > 0 && query.get_char(first_quote - 1) == '!' {
                first_quote - 1
            } else {
                first_quote
            };
            let n = query.unicode_len();
            let head = query.substring_char(0, split_idx);
            let tail = query.substring_char(split_idx, n);
            assert(head@ =~= query@.take(split_idx as int));
            assert(tail@ =~= query@.skip(split_idx as int));
            (String::from_str(trim(head)), String::from_str(tail))
        },
        None => (String::from_str(trim(query)), String::new()),
    }
}

/// One condition of a tag expression.
pub enum TagFilter {
    /// Files that carry the tag, or a tag whose parent it is.
    Has(String),
    /// Files that carry neither the tag nor a tag whose parent it is.
    Lacks(String),
    /// Files that carry no tag at all.
    Untagged,
}

/// What a [`TagFilter`] says, over character sequences.
pub enum TagFilterView {
    Has(Seq<char>),
    Lacks(Seq<char>),
    Untagged,
}

impl View for TagFilter {
    type V = TagFilterView;

    open spec fn view(&self) -> TagFilterView {
        match self {
            TagFilter::Has(t) => TagFilterView::Has(t@),
            TagFilter::Lacks(t) => TagFilterView::Lacks(t@),
            TagFilter::Untagged => TagFilterView::Untagged,
        }
    }
}

/// The condition that one `&&`-separated part of a tag expression states:
/// the part is trimmed; a leading `!` negates it; the rest, with the `"` at
/// its ends removed, names the tag. A negated part with no tag name asks for
/// untagged files; a part with neither states nothing.
pub open spec fn term_of(part: Seq<char>) -> Option<TagFilterView> {
    let t = trimmed(part);
    let negated = t.len() > 0 && t[0] == '!';
    let tag = unquoted(if negated { t.drop_first() } else { t });
    if tag.len() == 0 {
        if negated { Some(TagFilterView::Untagged) } else { None }
    } else if negated {
        Some(TagFilterView::Lacks(tag))
    } else {
        Some(TagFilterView::Has(tag))
    }
}

/// The conditions that a sequence of parts states, in order.
pub open spec fn terms_of(parts: Seq<Seq<char>>) -> Seq<TagFilterView>
    decreases parts.len(),
{
    if parts.len() == 0 {
        Seq::empty()
    } else {
        terms_of(parts.drop_last()) + match term_of(parts.last()) {
            Some(t) => seq![t],
            None => Seq::empty(),
        }
    }
}

/// The groups of a tag expression: one per `||`-separated alternative, each
/// holding the conditions of its `&&`-separated parts.
pub open spec fn tag_groups(expr: Seq<char>) -> Seq<Seq<TagFilterView>> {
    split_pair(expr, '|', '|').map_values(|alt: Seq<char>| terms_of(split_pair(alt, '&', '&')))
}

pub open spec fn filters_view(v: Seq<TagFilter>) -> Seq<TagFilterView> {
    v.map_values(|t: TagFilter| t@)
}

pub open spec fn groups_view(v: Seq<Vec<TagFilter>>) -> Seq<Seq<TagFilterView>> {
    v.map_values(|g: Vec<TagFilter>| filters_view(g@))
}

/// The condition that one part of a tag expression states.
pub fn parse_tag_term(part: &str) -> (r: Option<TagFilter>)
    ensures
        match r {
            Some(t) => term_of(part@) == Some(t@),
            None => term_of(part@) is None,
        },
{
    let t = trim(part);
    let n = t.unicode_len();
    let negated = n > 0 && t.get_char(0) == '!';
    let inner = if negated {
        t.substring_char(1, n)
    } else {
        t
    };
    assert(negated ==> inner@ =~= t@.drop_first());
    let tag = trim_quotes(inner);
    if tag.unicode_len() == 0 {
        if negated {
            Some(TagFilter::Untagged)
        } else {
            None
        }
    } else if negated {
        Some(TagFilter::Lacks(String::from_str(tag)))
    } else {
        Some(TagFilter::Has(String::from_str(tag)))
    }
}

/// Reads a tag expression into its groups of conditions.
pub fn parse_tag_expression(expr: &str) -> (groups: Vec<Vec<TagFilter>>)
    ensures
        groups_view(groups@) == tag_groups(expr@),
{
    let alternatives = split_on_pair(expr, '|', '|');
    let ghost alts = split_pair(expr@, '|', '|');
    let mut groups: Vec<Vec<TagFilter>> = Vec::new();
    let mut i: usize = 0;
    while i < alternatives.len()
        invariant
            views(alternatives@) == alts,
            alts == split_pair(expr@, '|', '|'),
            i <= alternatives.len(),
            groups_view(groups@) =~= tag_groups(expr@).take(i as int),
        decreases alternatives.len() - i,
    {
        let parts = split_on_pair(alternatives[i].as_str(), '&', '&');
        let ghost ps = views(parts@);
        let mut terms: Vec<TagFilter> = Vec::new();
        let mut j: usize = 0;
        while j < parts.len()
            invariant
                ps == views(parts@),
                j <= parts.len(),
                filters_view(terms@) == terms_of(ps.take(j as int)),
            decreases parts.len() - j,
        {
            let ghost before = terms@;
            assert(ps.take(j + 1).drop_last() =~= ps.take(j as int));
            match parse_tag_term(parts[j].as_str()) {
                Some(t) => {
                    terms.push(t);
                    assert(filters_view(terms@) =~= filters_view(before) + seq![t@]);
                },
                None => {},
            }
            j = j + 1;
        }
        assert(ps.take(parts.len() as int) =~= ps);
        let ghost gb = groups@;
        groups.push(terms);
        assert(groups_view(groups@) =~= groups_view(gb).push(filters_view(terms@)));
        assert(tag_groups(expr@).take(i + 1) =~= tag_groups(expr@).take(i as int).push(
            filters_view(terms@),
        ));
        i = i + 1;
    }
    groups
}

/// A SQL statement and its parameters, `?1` being the first of them.
pub struct SqlQuery {
    pub sql: String,
    pub params: Vec<String>,
}

/// The SQL condition for one tag condition whose tag is parameter `idx`.
pub open spec fn term_sql(t: TagFilterView, idx: nat) -> Seq<char> {
    match t {
        TagFilterView::Untagged => "f.id NOT IN (SELECT file_id FROM file_tags)"@,
        TagFilterView::Has(_) => "f.id IN"@ + tag_match_sql(idx),
        TagFilterView::Lacks(_) => "f.id NOT IN"@ + tag_match_sql(idx),
    }
}

/// The files that carry the tag named by parameter `idx`, or a tag whose
/// parent it names.
pub open spec fn tag_match_sql(idx: nat) -> Seq<char> {
    " (SELECT file_id FROM file_tags ft JOIN tags t ON ft.tag_id = t.id WHERE t.name = ?"@
        + decimal(idx) + " OR t.parent_id IN (SELECT id FROM tags WHERE name = ?"@ + decimal(
        idx,
    ) + "))"@
}

/// Whether a condition names a tag, and so takes a parameter.
pub open spec fn names_tag(t: TagFilterView) -> bool {
    !(t is Untagged)
}

/// The tag names of the conditions, in order: the parameters they take.
pub open spec fn tag_params(terms: Seq<TagFilterView>) -> Seq<Seq<char>>
    decreases terms.len(),
{
    if terms.len() == 0 {
        Seq::empty()
    } else {
        tag_params(terms.drop_last()) + match terms.last() {
            TagFilterView::Has(t) => seq![t],
            TagFilterView::Lacks(t) => seq![t],
            TagFilterView::Untagged => Seq::empty(),
        }
    }
}

/// The parameters that the groups take, in order.
pub open spec fn group_params(groups: Seq<Seq<TagFilterView>>) -> Seq<Seq<char>>
    decreases groups.len(),
{
    if groups.len() == 0 {
        Seq::empty()
    } else {
        group_params(groups.drop_last()) + tag_params(groups.last())
    }
}

/// The SQL conditions of one group, `base` parameters coming before it.
pub open spec fn group_clauses(terms: Seq<TagFilterView>, base: nat) -> Seq<Seq<char>>
    decreases terms.len(),
{
    if terms.len() == 0 {
        Seq::empty()
    } else {
        group_clauses(terms.drop_last(), base).push(
            term_sql(terms.last(), base + tag_params(terms.drop_last()).len() + 1),
        )
    }
}

/// The SQL alternatives of the groups, `base` parameters coming before them:
/// each group with a condition gives the conjunction of its conditions in
/// parentheses; a group without one gives nothing.
pub open spec fn group_alternatives(groups: Seq<Seq<TagFilterView>>, base: nat) -> Seq<Seq<char>>
    decreases groups.len(),
{
    if groups.len() == 0 {
        Seq::empty()
    } else {
        let prev = group_alternatives(groups.drop_last(), base);
        let clauses = group_clauses(
            groups.last(),
            base + group_params(groups.drop_last()).len(),
        );
        if clauses.len() == 0 {
            prev
        } else {
            prev.push("("@ + join(clauses, " AND "@) + ")"@)
        }
    }
}

/// The parameter for a file-name filter: none for an empty filter, else the
/// filter between `%` wildcards.
pub open spec fn filter_params(filter: Seq<char>) -> Seq<Seq<char>> {
    if filter.len() == 0 {
        Seq::empty()
    } else {
        seq!["%"@ + filter + "%"@]
    }
}

/// The SQL text that finds the files whose path matches `filter` and that
/// meet one of the groups, ordered by path.
pub open spec fn search_sql(filter: Seq<char>, groups: Seq<Seq<TagFilterView>>) -> Seq<char> {
    let alternatives = group_alternatives(groups, filter_params(filter).len());
    "SELECT id, rel_path, is_dir FROM files f WHERE 1=1 "@ + (if filter.len() == 0 {
        Seq::empty()
    } else {
        "AND f.rel_path LIKE ?1 "@
    }) + (if alternatives.len() == 0 {
        Seq::empty()
    } else {
        "AND ("@ + join(alternatives, " OR "@) + ") "@
    }) + "ORDER BY f.rel_path"@
}

/// The parameters of that query, in the order of their numbers.
pub open spec fn search_params(filter: Seq<char>, groups: Seq<Seq<TagFilterView>>) -> Seq<Seq<char>> {
    filter_params(filter) + group_params(groups)
}

/// The SQL query, and its parameters, for a search typed by the user.
pub open spec fn search_query_of(query: Seq<char>) -> (Seq<char>, Seq<Seq<char>>) {
    let (filter, expr) = split_query(query);
    (search_sql(filter, tag_groups(expr)), search_params(filter, tag_groups(expr)))
}

/// Writes the SQL condition for one tag condition whose tag is parameter `idx`.
fn term_clause(t: &TagFilter, idx: usize) -> (r: String)
    ensures
        r@ == term_sql(t@, idx as nat),
{
    match t {
        TagFilter::Untagged => String::from_str("f.id NOT IN (SELECT file_id FROM file_tags)"),
        _ => {
            let mut r = match t {
                TagFilter::Has(_) => String::from_str("f.id IN"),
                _ => String::from_str("f.id NOT IN"),
            };
            let num = decimal_string(idx);
            r.append(
                " (SELECT file_id FROM file_tags ft JOIN tags t ON ft.tag_id = t.id WHERE t.name = ?",
            );
            r.append(num.as_str());
            r.append(" OR t.parent_id IN (SELECT id FROM tags WHERE name = ?");
            r.append(num.as_str());
            r.append("))");
            r
        },
    }
}

proof fn lemma_group_params_push(groups: Seq<Seq<TagFilterView>>, g: Seq<TagFilterView>)
    ensures
        group_params(groups.push(g)) == group_params(groups) + tag_params(g),
{
    assert(groups.push(g).drop_last() =~= groups);
}

/// Writes the SQL query, and its parameters, that finds the files whose path
/// matches `filter` and that meet one of `groups`.
pub fn build_search_sql(filter: &str, groups: &Vec<Vec<TagFilter>>) -> (q: SqlQuery)
    ensures
        q.sql@ == search_sql(filter@, groups_view(groups@)),
        views(q.params@) == search_params(filter@, groups_view(groups@)),
{
    let ghost gv = groups_view(groups@);
    let mut sql = String::from_str("SELECT id, rel_path, is_dir FROM files f WHERE 1=1 ");
    let mut params: Vec<String> = Vec::new();
    if filter.unicode_len() > 0 {
        sql.append("AND f.rel_path LIKE ?1 ");
        let mut p = String::from_str("%");
        p.append(filter);
        p.append("%");
        params.push(p);
        assert(views(params@) =~= filter_params(filter@));
    } else {
        assert(views(params@) =~= filter_params(filter@));
    }
    let ghost base = filter_params(filter@).len();
    let mut alternatives: Vec<String> = Vec::new();
    let mut i: usize = 0;
    while i < groups.len()
        invariant
            gv == groups_view(groups@),
            i <= groups.len(),
            base == filter_params(filter@).len(),
            views(params@) == filter_params(filter@) + group_params(gv.take(i as int)),
            views(alternatives@) == group_alternatives(gv.take(i as int), base),
            sql@ == "SELECT id, rel_path, is_dir FROM files f WHERE 1=1 "@ + (if filter@.len() == 0 {
                Seq::empty()
            } else {
                "AND f.rel_path LIKE ?1 "@
            }),
        decreases groups.len() - i,
    {
        let group = &groups[i];
        let ghost g = filters_view(group@);
        assert(g == gv[i as int]);
        let ghost params_before = views(params@);
        let mut clauses: Vec<String> = Vec::new();
        let mut j: usize = 0;
        while j < group.len()
            invariant
                g == filters_view(group@),
                j <= group.len(),
                params_before == filter_params(filter@) + group_params(gv.take(i as int)),
                views(params@) == params_before + tag_params(g.take(j as int)),
                views(clauses@) == group_clauses(
                    g.take(j as int),
                    base + group_params(gv.take(i as int)).len(),
                ),
                base == filter_params(filter@).len(),
            decreases group.len() - j,
        {
            let ghost pb = views(params@);
            let ghost cb = views(clauses@);
            assert(g.take(j + 1).drop_last() =~= g.take(j as int));
            assert(g.take(j + 1).last() == g[j as int]);
            let t = &group[j];
            match t {
                TagFilter::Has(name) => {
                    params.push(name.clone());
                },
                TagFilter::Lacks(name) => {
                    params.push(name.clone());
                },
                TagFilter::Untagged => {},
            }
            assert(views(params@) =~= pb + match g[j as int] {
                TagFilterView::Has(t) => seq![t],
                TagFilterView::Lacks(t) => seq![t],
                TagFilterView::Untagged => Seq::<Seq<char>>::empty(),
            });
            assert(views(params@) =~= params_before + tag_params(g.take(j + 1)));
            let c = term_clause(t, params.len());
            clauses.push(c);
            assert(views(clauses@) =~= cb.push(c@));
            j = j + 1;
        }
        assert(g.take(group.len() as int) =~= g);
        let ghost ab = views(alternatives@);
        assert(gv.take(i + 1).drop_last() =~= gv.take(i as int));
        assert(gv.take(i + 1).last() == g);
        if clauses.len() > 0 {
            let mut alt = String::from_str("(");
            let joined = join_with(&clauses, " AND ");
            alt.append(joined.as_str());
            alt.append(")");
            alternatives.push(alt);
            assert(views(alternatives@) =~= ab.push(alt@));
        }
        proof {
            lemma_group_params_push(gv.take(i as int), g);
            assert(gv.take(i + 1) =~= gv.take(i as int).push(g));
        }
        i = i + 1;
    }
    assert(gv.take(groups.len() as int) =~= gv);
    if alternatives.len() > 0 {
        sql.append("AND (");
        let joined = join_with(&alternatives, " OR ");
        sql.append(joined.as_str());
        sql.append(") ");
    }
    sql.append("ORDER BY f.rel_path");
    SqlQuery { sql, params }
}

/// The SQL query, and its parameters, for a search typed by the user.
pub fn build_search_query(query: &str) -> (q: SqlQuery)
    ensures
        (q.sql@, views(q.params@)) == search_query_of(query@),
{
    let (filter, expr) = parse_query(query);
    let groups = parse_tag_expression(expr.as_str());
    build_search_sql(filter.as_str(), &groups)
}

/// A copy of a recorded entry.
pub fn copy_entry(r: &SearchResult) -> (c: SearchResult)
    ensures
        c == *r,
        c@ == r@,
{
    SearchResult { id: r.id, rel_path: r.rel_path.clone(), is_dir: r.is_dir }
}

/// The prefix that the paths inside directory `dir` start with: empty for
/// the root, else `dir/`.
pub open spec fn dir_prefix(dir: Seq<char>) -> Seq<char> {
    if dir.len() == 0 {
        Seq::empty()
    } else {
        dir + "/"@
    }
}

/// The SQL query, and its parameters, that lists the entries under `dir`
/// (all of them below the root, for a sub-directory every entry whose path
/// starts with `dir/`), directories first, then by path regardless of case.
pub open spec fn browse_query_of(dir: Seq<char>) -> (Seq<char>, Seq<Seq<char>>) {
    if dir.len() == 0 {
        (
            "SELECT id, rel_path, is_dir FROM files WHERE rel_path NOT LIKE '%/%' ORDER BY is_dir DESC, rel_path COLLATE NOCASE ASC"@,
            Seq::empty(),
        )
    } else {
        (
            "SELECT id, rel_path, is_dir FROM files WHERE rel_path LIKE ?1 ORDER BY is_dir DESC, rel_path COLLATE NOCASE ASC"@,
            seq![dir + "/%"@],
        )
    }
}

/// The SQL query, and its parameters, that lists the entries under `dir`.
pub fn browse_query(dir: &str) -> (q: SqlQuery)
    ensures
        (q.sql@, views(q.params@)) == browse_query_of(dir@),
{
    if dir.unicode_len() == 0 {
        let q = SqlQuery {
            sql: String::from_str(
                "SELECT id, rel_path, is_dir FROM files WHERE rel_path NOT LIKE '%/%' ORDER BY is_dir DESC, rel_path COLLATE NOCASE ASC",
            ),
            params: Vec::new(),
        };
        assert(views(q.params@) =~= Seq::<Seq<char>>::empty());
        q
    } else {
        let mut pattern = String::from_str(dir);
        pattern.append("/%");
        let mut params: Vec<String> = Vec::new();
        params.push(pattern);
        assert(views(params@) =~= seq![dir@ + "/%"@]);
        SqlQuery {
            sql: String::from_str(
                "SELECT id, rel_path, is_dir FROM files WHERE rel_path LIKE ?1 ORDER BY is_dir DESC, rel_path COLLATE NOCASE ASC",
            ),
            params,
        }
    }
}

/// Whether a row that the listing of `dir` returned lies directly in `dir`:
/// below the root, every row does; in a sub-directory, a row whose path holds
/// no `/` after the length, in bytes, of `dir/`.
pub open spec fn directly_in(dir: Seq<char>, r: SearchResult) -> bool {
    dir.len() == 0 || !after_bytes(r.rel_path@, byte_len(dir_prefix(dir)) as int).contains('/')
}

/// Whether every row can be cut after the length of `dir/` in bytes: the
/// cut falls on a character boundary.
pub open spec fn rows_cuttable(dir: Seq<char>, rows: Seq<SearchResult>) -> bool {
    dir.len() > 0 ==> forall|i: int|
        0 <= i < rows.len() ==> on_boundary(
            #[trigger] rows[i].rel_path@,
            byte_len(dir_prefix(dir)) as int,
        )
}

/// The rows, in order, that lie directly in `dir`.
pub open spec fn rows_directly_in(dir: Seq<char>, rows: Seq<SearchResult>) -> Seq<SearchResult>
    decreases rows.len(),
{
    if rows.len() == 0 {
        Seq::empty()
    } else {
        rows_directly_in(dir, rows.drop_last()) + if directly_in(dir, rows.last()) {
            seq![rows.last()]
        } else {
            Seq::empty()
        }
    }
}

/// Whether `s` holds the character `c`.
pub fn contains_char(s: &str, c: char) -> (b: bool)
    ensures
        b == s@.contains(c),
{
    let n = s.unicode_len();
    let mut i: usize = 0;
    while i < n
        invariant
            n == s@.len(),
            i <= n,
            forall|j: int| 0 <= j < i ==> s@[j] != c,
        decreases n - i,
    {
        if s.get_char(i) == c {
            assert(s@[i as int] == c);
            return true;
        }
        i = i + 1;
    }
    false
}

/// Keeps, in order, the rows of the listing of `dir` that lie directly in it.
pub fn keep_direct_children(dir: &str, rows: &Vec<SearchResult>) -> (kept: Vec<SearchResult>)
    requires
        rows_cuttable(dir@, rows@),
    ensures
        kept@ == rows_directly_in(dir@, rows@),
{
    let mut prefix = String::from_str(dir);
    if dir.unicode_len() > 0 {
        prefix.append("/");
    }
    assert(prefix@ =~= dir_prefix(dir@));
    let plen = prefix.as_str().as_bytes().len();
    let mut kept: Vec<SearchResult> = Vec::new();
    let mut i: usize = 0;
    while i < rows.len()
        invariant
            i <= rows.len(),
            plen == byte_len(dir_prefix(dir@)),
            rows_cuttable(dir@, rows@),
            kept@ == rows_directly_in(dir@, rows@.take(i as int)),
        decreases rows.len() - i,
    {
        let r = &rows[i];
        let keep = if dir.unicode_len() == 0 {
            true
        } else {
            let rest = skip_bytes(r.rel_path.as_str(), plen);
            !contains_char(rest, '/')
        };
        assert(rows@.take(i + 1).drop_last() =~= rows@.take(i as int));
        let ghost before = kept@;
        if keep {
            kept.push(copy_entry(r));
            assert(kept@ =~= before + seq![rows@[i as int]]);
        } else {
            assert(kept@ =~= before + Seq::<SearchResult>::empty());
        }
        i = i + 1;
    }
    assert(rows@.take(rows.len() as int) =~= rows@);
    kept
}

/// A query without `"` filters file names only: its trimmed text, between
/// `%` wildcards, is the one parameter where it is not empty.
pub proof fn law_plain_query_filters_names(query: Seq<char>)
    requires
        !query.contains('"'),
    ensures
        split_query(query) == (trimmed(query), Seq::<char>::empty()),
        search_query_of(query).1 == filter_params(trimmed(query)),
{
    lemma_index_from_absent(query, '"', 0);
    let groups = tag_groups(Seq::<char>::empty());
    assert(Seq::<char>::empty().subrange(0, 0) =~= Seq::<char>::empty());
    assert(crate::text::split_pair_from(Seq::<char>::empty(), '|', '|', 0, 0) =~= seq![
        Seq::<char>::empty(),
    ]);
    assert(crate::text::split_pair_from(Seq::<char>::empty(), '&', '&', 0, 0) =~= seq![
        Seq::<char>::empty(),
    ]);
    let parts = seq![Seq::<char>::empty()];
    assert(parts.drop_last() =~= Seq::<Seq<char>>::empty());
    assert(term_of(Seq::<char>::empty()) is None) by {
        assert(trimmed(Seq::<char>::empty()) =~= Seq::<char>::empty());
        assert(crate::text::unquoted(Seq::<char>::empty()) =~= Seq::<char>::empty());
    }
    assert(parts.last() == Seq::<char>::empty());
    assert(terms_of(parts.drop_last()) =~= Seq::<TagFilterView>::empty());
    assert(terms_of(parts) =~= Seq::<TagFilterView>::empty());
    assert(groups =~= seq![Seq::<TagFilterView>::empty()]);
    assert(groups.drop_last() =~= Seq::<Seq<TagFilterView>>::empty());
    assert(tag_params(Seq::<TagFilterView>::empty()) =~= Seq::<Seq<char>>::empty());
    assert(groups.last() =~= Seq::<TagFilterView>::empty());
    assert(group_params(groups.drop_last()) =~= Seq::<Seq<char>>::empty());
    assert(group_params(groups) =~= Seq::<Seq<char>>::empty());
    assert(search_params(trimmed(query), groups) =~= filter_params(trimmed(query)));
}

proof fn lemma_index_from_absent(s: Seq<char>, c: char, i: int)
    requires
        0 <= i,
        !s.contains(c),
    ensures
        crate::text::index_from(s, c, i) >= s.len(),
    decreases s.len() - i,
{
    if i < s.len() {
        assert(s[i] != c);
        lemma_index_from_absent(s, c, i + 1);
    }
}

/// Below the root, a listing keeps every row it was given.
pub proof fn law_root_listing_keeps_all(rows: Seq<SearchResult>)
    ensures
        rows_directly_in(Seq::empty(), rows) == rows,
    decreases rows.len(),
{
    if rows.len() > 0 {
        law_root_listing_keeps_all(rows.drop_last());
        assert(rows.drop_last().push(rows.last()) =~= rows);
    }
}

/// Every row that a listing keeps is one of the rows it was given, and lies
/// directly in the listed directory.
pub proof fn law_listing_shows_direct_children(dir: Seq<char>, rows: Seq<SearchResult>)
    ensures
        forall|i: int|
            0 <= i < rows_directly_in(dir, rows).len() ==> rows.contains(
                #[trigger] rows_directly_in(dir, rows)[i],
            ) && directly_in(dir, rows_directly_in(dir, rows)[i]),
        rows_directly_in(dir, rows).len() <= rows.len(),
    decreases rows.len(),
{
    if rows.len() > 0 {
        let prev = rows.drop_last();
        law_listing_shows_direct_children(dir, prev);
        let kept = rows_directly_in(dir, rows);
        assert forall|i: int| 0 <= i < kept.len() implies rows.contains(#[trigger] kept[i])
            && directly_in(dir, kept[i]) by {
            if i < rows_directly_in(dir, prev).len() {
                let x = rows_directly_in(dir, prev)[i];
                assert(kept[i] == x);
                let k = choose|k: int| 0 <= k < prev.len() && prev[k] == x;
                assert(rows[k] == x);
            } else {
                assert(kept[i] == rows.last());
                assert(rows[rows.len() - 1] == rows.last());
            }
        }
    }
}

/// The tag of a condition that names one.
pub open spec fn tag_name(t: TagFilterView) -> Seq<char> {
    match t {
        TagFilterView::Has(n) => n,
        TagFilterView::Lacks(n) => n,
        TagFilterView::Untagged => Seq::empty(),
    }
}

/// Within a group, each condition that names a tag refers to the parameter
/// that holds its tag: the `k`-th tag-naming condition (counted from 0)
/// refers to parameter `base + k + 1`, and the group's `k`-th parameter is
/// its tag.
pub proof fn law_condition_refers_to_its_tag(terms: Seq<TagFilterView>, base: nat, j: int)
    requires
        0 <= j < terms.len(),
        names_tag(terms[j]),
    ensures
        group_clauses(terms, base).len() == terms.len(),
        group_clauses(terms, base)[j] == term_sql(
            terms[j],
            base + tag_params(terms.take(j)).len() + 1,
        ),
        tag_params(terms.take(j)).len() < tag_params(terms).len(),
        tag_params(terms)[tag_params(terms.take(j)).len() as int] == tag_name(terms[j]),
    decreases terms.len(),
{
    lemma_group_clauses_len(terms, base);
    let last = terms.len() - 1;
    if j == last {
        assert(terms.take(j) =~= terms.drop_last());
    } else {
        law_condition_refers_to_its_tag(terms.drop_last(), base, j);
        assert(terms.drop_last().take(j) =~= terms.take(j));
        lemma_group_clauses_len(terms.drop_last(), base);
    }
}

proof fn lemma_group_clauses_len(terms: Seq<TagFilterView>, base: nat)
    ensures
        group_clauses(terms, base).len() == terms.len(),
    decreases terms.len(),
{
    if terms.len() > 0 {
        lemma_group_clauses_len(terms.drop_last(), base);
    }
}

proof fn lemma_group_params_prefix(groups: Seq<Seq<TagFilterView>>, m: int)
    requires
        0 <= m <= groups.len(),
    ensures
        group_params(groups.take(m)).len() <= group_params(groups).len(),
        forall|k: int|
            0 <= k < group_params(groups.take(m)).len() ==> #[trigger] group_params(groups)[k]
                == group_params(groups.take(m))[k],
    decreases groups.len(),
{
    if m == groups.len() {
        assert(groups.take(m) =~= groups);
    } else {
        let prev = groups.drop_last();
        lemma_group_params_prefix(prev, m);
        assert(prev.take(m) =~= groups.take(m));
    }
}

proof fn lemma_alternative_of(groups: Seq<Seq<TagFilterView>>, base: nat, g: int) -> (a: int)
    requires
        0 <= g < groups.len(),
        groups[g].len() > 0,
    ensures
        0 <= a < group_alternatives(groups, base).len(),
        group_alternatives(groups, base)[a] == "("@ + join(
            group_clauses(groups[g], base + group_params(groups.take(g)).len()),
            " AND "@,
        ) + ")"@,
    decreases groups.len(),
{
    let prev = groups.drop_last();
    let prev_alts = group_alternatives(prev, base);
    let clauses = group_clauses(groups.last(), base + group_params(prev).len());
    lemma_group_clauses_len(groups.last(), base + group_params(prev).len());
    if g == groups.len() - 1 {
        assert(groups.take(g) =~= prev);
        prev_alts.len() as int
    } else {
        let a = lemma_alternative_of(prev, base, g);
        assert(prev.take(g) =~= groups.take(g));
        assert(prev[g] == groups[g]);
        if clauses.len() > 0 {
            assert(prev_alts.push("("@ + join(clauses, " AND "@) + ")"@)[a] == prev_alts[a]);
        }
        a
    }
}

/// Every condition that names a tag, in any group of a search, refers to its
/// own parameter, numbered across the whole query: the `j`-th condition of
/// group `g` refers to parameter `N` = (filter parameters) + (tag parameters
/// of the groups before `g`) + (tag parameters of the conditions before it in
/// `g`) + 1, both times it names one in its SQL; the alternative of group
/// `g` in the query holds that SQL; and parameter `N` is that condition's tag.
pub proof fn law_search_parameters_match_tags(filter: Seq<char>, groups: Seq<Seq<TagFilterView>>, g: int, j: int)
    requires
        0 <= g < groups.len(),
        0 <= j < groups[g].len(),
        names_tag(groups[g][j]),
    ensures
        ({
            let fp = filter_params(filter).len();
            let start = fp + group_params(groups.take(g)).len();
            let n = start + tag_params(groups[g].take(j)).len() + 1;
            let clauses = group_clauses(groups[g], start);
            &&& clauses[j] == (if groups[g][j] is Lacks {
                "f.id NOT IN"@
            } else {
                "f.id IN"@
            })
                + " (SELECT file_id FROM file_tags ft JOIN tags t ON ft.tag_id = t.id WHERE t.name = ?"@
                + decimal(n) + " OR t.parent_id IN (SELECT id FROM tags WHERE name = ?"@ + decimal(n)
                + "))"@
            &&& exists|a: int|
                0 <= a < group_alternatives(groups, fp).len() && #[trigger] group_alternatives(
                    groups,
                    fp,
                )[a] == "("@ + join(clauses, " AND "@) + ")"@
            &&& 1 <= n <= search_params(filter, groups).len()
            &&& search_params(filter, groups)[n - 1] == tag_name(groups[g][j])
        }),
{
    let fp = filter_params(filter).len();
    let start = fp + group_params(groups.take(g)).len();
    let terms = groups[g];
    law_condition_refers_to_its_tag(terms, start, j);
    let k = tag_params(terms.take(j)).len() as int;
    let a = lemma_alternative_of(groups, fp, g);
    lemma_group_params_prefix(groups, g + 1);
    assert(groups.take(g + 1).drop_last() =~= groups.take(g));
    assert(groups.take(g + 1).last() == terms);
    let gp = group_params(groups.take(g));
    let gl = gp.len() as int;
    assert(group_params(groups.take(g + 1)) == gp + tag_params(terms));
    assert(group_params(groups.take(g + 1))[gl + k] == tag_params(terms)[k]);
    assert(group_params(groups)[gl + k] == tag_params(terms)[k]);
    let sp = search_params(filter, groups);
    assert(sp[fp + gl + k] == group_params(groups)[gl + k]);
}

/// A listing of a sub-directory keeps exactly, in order, the rows whose path,
/// after the bytes of `dir/`, holds no `/`, directories and files alike.
pub proof fn law_subdirectory_listing_filter(dir: Seq<char>, rows: Seq<SearchResult>)
    requires
        dir.len() > 0,
    ensures
        rows_directly_in(dir, rows) == rows.filter(
            |r: SearchResult| !after_bytes(r.rel_path@, byte_len(dir + "/"@) as int).contains('/'),
        ),
    decreases rows.len(),
{
    reveal_with_fuel(Seq::filter, 1);
    if rows.len() > 0 {
        law_subdirectory_listing_filter(dir, rows.drop_last());
    }
    assert(rows_directly_in(dir, rows) =~= rows.filter(
        |r: SearchResult| !after_bytes(r.rel_path@, byte_len(dir + "/"@) as int).contains('/'),
    ));
}

} // verus!

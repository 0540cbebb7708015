//! Character-level text operations on strings, each with the meaning that
//! the matching `str` method of Rust's standard library has.
use vstd::prelude::*;
use vstd::utf8::*;

verus! {

/// A class of characters that `trim`-like operations strip from both ends.
#[derive(Clone, Copy, PartialEq, Eq)]
pub enum CharClass {
    /// Unicode `White_Space`, as `char::is_whitespace` defines it.
    Whitespace,
    /// The double quote `"`.
    Quote,
}

/// `char::is_whitespace`: the characters with the Unicode `White_Space` property.
pub open spec fn is_whitespace(c: char) -> bool {
    ||| ('\t' <= c && c <= '\r')
    ||| c == ' '
    ||| c == '\u{85}'
    ||| c == '\u{a0}'
    ||| c == '\u{1680}'
    ||| ('\u{2000}' <= c && c <= '\u{200a}')
    ||| c == '\u{2028}'
    ||| c == '\u{2029}'
    ||| c == '\u{202f}'
    ||| c == '\u{205f}'
    ||| c == '\u{3000}'
}

pub open spec fn in_class(c: char, k: CharClass) -> bool {
    match k {
        CharClass::Whitespace => is_whitespace(c),
        CharClass::Quote => c == '"',
    }
}

/// `s` without its leading characters of class `k`.
pub open spec fn strip_start(s: Seq<char>, k: CharClass) -> Seq<char>
    decreases s.len(),
{
    if s.len() > 0 && in_class(s[0], k) {
        strip_start(s.drop_first(), k)
    } else {
        s
    }
}

/// `s` without its trailing characters of class `k`.
pub open spec fn strip_end(s: Seq<char>, k: CharClass) -> Seq<char>
    decreases s.len(),
{
    if s.len() > 0 && in_class(s.last(), k) {
        strip_end(s.drop_last(), k)
    } else {
        s
    }
}

/// `s` without the characters of class `k` at either end.
pub open spec fn strip(s: Seq<char>, k: CharClass) -> Seq<char> {
    strip_end(strip_start(s, k), k)
}

/// `str::trim`.
pub open spec fn trimmed(s: Seq<char>) -> Seq<char> {
    strip(s, CharClass::Whitespace)
}

/// `str::trim_matches('"')`.
pub open spec fn unquoted(s: Seq<char>) -> Seq<char> {
    strip(s, CharClass::Quote)
}

/// The pieces of `s[start..]` between non-overlapping occurrences of the
/// separator `a b`, found from left to right, the search being at `i`.
pub open spec fn split_pair_from(s: Seq<char>, a: char, b: char, start: int, i: int) -> Seq<Seq<char>>
    decreases s.len() - i,
{
    if i + 1 >= s.len() {
        seq![s.subrange(start, s.len() as int)]
    } else if s[i] == a && s[i + 1] == b {
        seq![s.subrange(start, i)] + split_pair_from(s, a, b, i + 2, i + 2)
    } else {
        split_pair_from(s, a, b, start, i + 1)
    }
}

/// `str::split` on the two-character separator `a b`.
pub open spec fn split_pair(s: Seq<char>, a: char, b: char) -> Seq<Seq<char>> {
    split_pair_from(s, a, b, 0, 0)
}

/// The pieces of `s[start..]` between occurrences of `c`, the search being at `i`.
pub open spec fn split_char_from(s: Seq<char>, c: char, start: int, i: int) -> Seq<Seq<char>>
    decreases s.len() - i,
{
    if i >= s.len() {
        seq![s.subrange(start, s.len() as int)]
    } else if s[i] == c {
        seq![s.subrange(start, i)] + split_char_from(s, c, i + 1, i + 1)
    } else {
        split_char_from(s, c, start, i + 1)
    }
}

/// `str::split` on the character `c`.
pub open spec fn split_char(s: Seq<char>, c: char) -> Seq<Seq<char>> {
    split_char_from(s, c, 0, 0)
}

/// `[T]::join`: the pieces of `list`, with `sep` between each two.
pub open spec fn join(list: Seq<Seq<char>>, sep: Seq<char>) -> Seq<char>
    decreases list.len(),
{
    if list.len() == 0 {
        Seq::empty()
    } else if list.len() == 1 {
        list[0]
    } else {
        join(list.drop_last(), sep) + sep + list.last()
    }
}

/// The decimal digit for `d < 10`.
pub open spec fn digit(d: nat) -> char {
    "0123456789"@[d as int]
}

/// The decimal numeral of `n`, as `usize::to_string` writes it.
pub open spec fn decimal(n: nat) -> Seq<char>
    decreases n,
{
    if n < 10 {
        seq![digit(n)]
    } else {
        decimal(n / 10) + seq![digit(n % 10)]
    }
}

/// The views of a vector of strings.
pub open spec fn views(v: Seq<String>) -> Seq<Seq<char>> {
    v.map_values(|s: String| s@)
}

/// The index of the first occurrence of `c` in `s` at or after `i`, or
/// `s.len()` where there is none.
pub open spec fn index_from(s: Seq<char>, c: char, i: int) -> int
    decreases s.len() - i,
{
    if i >= s.len() {
        s.len() as int
    } else if s[i] == c {
        i
    } else {
        index_from(s, c, i + 1)
    }
}

/// `str::find(c)`, counted in characters.
pub open spec fn find_char(s: Seq<char>, c: char) -> Option<int> {
    if index_from(s, c, 0) < s.len() {
        Some(index_from(s, c, 0))
    } else {
        None
    }
}

/// The index of the last occurrence of `c` in `s` before `i`, or `-1`
/// where there is none.
pub open spec fn index_before(s: Seq<char>, c: char, i: int) -> int
    decreases i,
{
    if i <= 0 {
        -1
    } else if s[i - 1] == c {
        i - 1
    } else {
        index_before(s, c, i - 1)
    }
}

/// `str::rfind(c)`, counted in characters.
pub open spec fn rfind_char(s: Seq<char>, c: char) -> Option<int> {
    if index_before(s, c, s.len() as int) >= 0 {
        Some(index_before(s, c, s.len() as int))
    } else {
        None
    }
}

/// The characters of `s` after its first `n` bytes of UTF-8: what the
/// slice `&s[n..]` holds.
pub open spec fn after_bytes(s: Seq<char>, n: int) -> Seq<char> {
    decode_utf8(encode_utf8(s).subrange(n, encode_utf8(s).len() as int))
}

/// Whether byte offset `n` falls on a character boundary of `s`'s UTF-8
/// (`str::is_char_boundary`); slicing `&s[n..]` panics where it does not.
pub open spec fn on_boundary(s: Seq<char>, n: int) -> bool {
    is_char_boundary(encode_utf8(s), n)
}

/// The number of bytes of `s`'s UTF-8 (`str::len`).
pub open spec fn byte_len(s: Seq<char>) -> nat {
    encode_utf8(s).len()
}

pub fn char_in_class(c: char, k: CharClass) -> (b: bool)
    ensures
        b == in_class(c, k),
{
    match k {
        CharClass::Whitespace => {
            ('\t' <= c && c <= '\r') || c == ' ' || c == '\u{85}' || c == '\u{a0}' || c
                == '\u{1680}' || ('\u{2000}' <= c && c <= '\u{200a}') || c == '\u{2028}' || c
                == '\u{2029}' || c == '\u{202f}' || c == '\u{205f}' || c == '\u{3000}'
        },
        CharClass::Quote => c == '"',
    }
}

/// `s` without the characters of class `k` at either end.
pub fn strip_class(s: &str, k: CharClass) -> (r: &str)
    ensures
        r@ == strip(s@, k),
{
    let n = s.unicode_len();
    let mut lo: usize = 0;
    assert(s@.subrange(0, n as int) =~= s@);
    while lo < n && char_in_class(s.get_char(lo), k)
        invariant
            n == s@.len(),
            lo <= n,
            strip_start(s@, k) == strip_start(s@.subrange(lo as int, n as int), k),
        decreases n - lo,
    {
        assert(s@.subrange(lo as int, n as int).drop_first() =~= s@.subrange(
            lo + 1,
            n as int,
        ));
        lo = lo + 1;
    }
    let mut hi: usize = n;
    while hi > lo && char_in_class(s.get_char(hi - 1), k)
        invariant
            n == s@.len(),
            lo <= hi <= n,
            strip_start(s@, k) == s@.subrange(lo as int, n as int),
            strip(s@, k) == strip_end(s@.subrange(lo as int, hi as int), k),
        decreases hi - lo,
    {
        assert(s@.subrange(lo as int, hi as int).drop_last() =~= s@.subrange(
            lo as int,
            hi - 1,
        ));
        hi = hi - 1;
    }
    s.substring_char(lo, hi)
}

/// `str::trim`.
pub fn trim(s: &str) -> (r: &str)
    ensures
        r@ == trimmed(s@),
{
    strip_class(s, CharClass::Whitespace)
}

/// `str::trim_matches('"')`.
pub fn trim_quotes(s: &str) -> (r: &str)
    ensures
        r@ == unquoted(s@),
{
    strip_class(s, CharClass::Quote)
}

/// `str::split` on the two-character separator `a b`, each piece owned.
pub fn split_on_pair(s: &str, a: char, b: char) -> (pieces: Vec<String>)
    ensures
        views(pieces@) == split_pair(s@, a, b),
{
    let n = s.unicode_len();
    let mut pieces: Vec<String> = Vec::new();
    let mut start: usize = 0;
    let mut i: usize = 0;
    while i < n && i + 1 < n
        invariant
            n == s@.len(),
            start <= i <= n,
            split_pair(s@, a, b) == views(pieces@) + split_pair_from(s@, a, b, start as int, i as int),
        decreases n - i,
    {
        if s.get_char(i) == a && s.get_char(i + 1) == b {
            let piece = String::from_str(s.substring_char(start, i));
            let ghost before = pieces@;
            pieces.push(piece);
            assert(views(pieces@) =~= views(before) + seq![piece@]);
            assert(split_pair_from(s@, a, b, start as int, i as int) == seq![s@.subrange(start as int, i as int)]
                + split_pair_from(s@, a, b, i + 2, i + 2));
            assert(views(before) + split_pair_from(s@, a, b, start as int, i as int) =~= views(pieces@)
                + split_pair_from(s@, a, b, i + 2, i + 2));
            i = i + 2;
            start = i;
        } else {
            i = i + 1;
        }
    }
    let piece = String::from_str(s.substring_char(start, n));
    let ghost before = pieces@;
    pieces.push(piece);
    assert(views(pieces@) =~= views(before) + seq![piece@]);
    pieces
}

/// `str::split` on the character `c`, each piece owned.
pub fn split_on_char(s: &str, c: char) -> (pieces: Vec<String>)
    ensures
        views(pieces@) == split_char(s@, c),
{
    let n = s.unicode_len();
    let mut pieces: Vec<String> = Vec::new();
    let mut start: usize = 0;
    let mut i: usize = 0;
    while i < n
        invariant
            n == s@.len(),
            start <= i <= n,
            split_char(s@, c) == views(pieces@) + split_char_from(s@, c, start as int, i as int),
        decreases n - i,
    {
        if s.get_char(i) == c {
            let piece = String::from_str(s.substring_char(start, i));
            let ghost before = pieces@;
            pieces.push(piece);
            assert(views(pieces@) =~= views(before) + seq![piece@]);
            assert(views(before) + split_char_from(s@, c, start as int, i as int) =~= views(pieces@)
                + split_char_from(s@, c, i + 1, i + 1));
            i = i + 1;
            start = i;
        } else {
            i = i + 1;
        }
    }
    let piece = String::from_str(s.substring_char(start, n));
    let ghost before = pieces@;
    pieces.push(piece);
    assert(views(pieces@) =~= views(before) + seq![piece@]);
    pieces
}

/// `[String]::join(sep)`.
pub fn join_with(list: &Vec<String>, sep: &str) -> (r: String)
    ensures
        r@ == join(views(list@), sep@),
{
    let mut r = String::new();
    let n = list.len();
    let mut i: usize = 0;
    while i < n
        invariant
            n == list@.len(),
            i <= n,
            r@ == join(views(list@).take(i as int), sep@),
        decreases n - i,
    {
        let ghost prev = views(list@).take(i as int);
        if i > 0 {
            r.append(sep);
        }
        r.append(list[i].as_str());
        assert(views(list@).take(i + 1).drop_last() =~= prev);
        assert(i == 0 ==> views(list@).take(i + 1) =~= seq![list@[i as int]@]);
        i = i + 1;
    }
    assert(views(list@).take(n as int) =~= views(list@));
    r
}

/// The decimal numeral of `n`.
pub fn decimal_string(n: usize) -> (r: String)
    ensures
        r@ == decimal(n as nat),
    decreases n,
{
    let digits = "0123456789";
    proof {
        reveal_strlit("0123456789");
    }
    if n < 10 {
        String::from_str(digits.substring_char(n, n + 1))
    } else {
        let mut r = decimal_string(n / 10);
        let d = n % 10;
        r.append(digits.substring_char(d, d + 1));
        r
    }
}

/// The first index of `c` in `s` (`str::find`, counted in characters).
pub fn find_char_index(s: &str, c: char) -> (r: Option<usize>)
    ensures
        r matches Some(i) ==> i < s@.len(),
        r matches Some(i) ==> find_char(s@, c) == Some(i as int),
        r is None ==> find_char(s@, c) is None,
{
    let n = s.unicode_len();
    let mut i: usize = 0;
    while i < n
        invariant
            n == s@.len(),
            i <= n,
            index_from(s@, c, 0) == index_from(s@, c, i as int),
        decreases n - i,
    {
        if s.get_char(i) == c {
            return Some(i);
        }
        i = i + 1;
    }
    None
}

/// The last index of `c` in `s` (`str::rfind`, counted in characters).
pub fn rfind_char_index(s: &str, c: char) -> (r: Option<usize>)
    ensures
        r matches Some(i) ==> i < s@.len(),
        r matches Some(i) ==> rfind_char(s@, c) == Some(i as int),
        r is None ==> rfind_char(s@, c) is None,
{
    let n = s.unicode_len();
    let mut i: usize = n;
    while i > 0
        invariant
            n == s@.len(),
            i <= n,
            index_before(s@, c, n as int) == index_before(s@, c, i as int),
        decreases i,
    {
        if s.get_char(i - 1) == c {
            return Some(i - 1);
        }
        i = i - 1;
    }
    None
}

/// `&s[n..]`, where `n` is a byte offset on a character boundary.
pub fn skip_bytes(s: &str, n: usize) -> (r: &str)
    requires
        on_boundary(s@, n as int),
    ensures
        r@ == after_bytes(s@, n as int),
{
    let (_, rest) = s.split_at(n);
    proof {
        broadcast use encode_utf8_decode_utf8;
        assert(rest@ == decode_utf8(encode_utf8(rest@)));
    }
    rest
}

/// The last component of a path, split at `/`, that is neither empty nor `.`.
pub open spec fn last_component(segments: Seq<Seq<char>>) -> Option<Seq<char>>
    decreases segments.len(),
{
    if segments.len() == 0 {
        None
    } else if segments.last() == Seq::<char>::empty() || segments.last() == "."@ {
        last_component(segments.drop_last())
    } else {
        Some(segments.last())
    }
}

/// The final name of a Unix path, as `Path::file_name` gives it, or empty
/// where there is none (the path is empty, `/`, or ends in `..`).
pub open spec fn file_name(path: Seq<char>) -> Seq<char> {
    match last_component(split_char(path, '/')) {
        Some(c) => if c == ".."@ { Seq::empty() } else { c },
        None => Seq::empty(),
    }
}

/// Splitting at a character always gives at least one piece.
pub proof fn lemma_split_char_nonempty(s: Seq<char>, c: char, start: int, i: int)
    ensures
        split_char_from(s, c, start, i).len() >= 1,
    decreases s.len() - i,
{
    if i >= s.len() {
    } else if s[i] == c {
        lemma_split_char_nonempty(s, c, i + 1, i + 1);
    } else {
        lemma_split_char_nonempty(s, c, start, i + 1);
    }
}

/// Whether two strings hold the same characters.
pub fn same_text(a: &str, b: &str) -> (r: bool)
    ensures
        r == (a@ == b@),
{
    let n = a.unicode_len();
    if n != b.unicode_len() {
        return false;
    }
    let mut i: usize = 0;
    while i < n
        invariant
            n == a@.len(),
            n == b@.len(),
            i <= n,
            forall|j: int| 0 <= j < i ==> a@[j] == b@[j],
        decreases n - i,
    {
        if a.get_char(i) != b.get_char(i) {
            return false;
        }
        i = i + 1;
    }
    assert(a@ =~= b@);
    true
}

/// Whether `s` is the two-character name `..`.
pub fn is_dot_dot(s: &str) -> (b: bool)
    ensures
        b == (s@ == ".."@),
{
    proof {
        reveal_strlit("..");
    }
    let b = s.unicode_len() == 2 && s.get_char(0) == '.' && s.get_char(1) == '.';
    assert(b ==> s@ =~= ".."@);
    b
}

/// Whether `s` is the one-character name `.`.
fn is_dot(s: &str) -> (b: bool)
    ensures
        b == (s@ == "."@),
{
    proof {
        reveal_strlit(".");
    }
    let b = s.unicode_len() == 1 && s.get_char(0) == '.';
    assert(b ==> s@ =~= "."@);
    b
}

/// The final name of a Unix path (`Path::file_name`), empty where it has none.
pub fn file_name_of(path: &str) -> (r: String)
    ensures
        r@ == file_name(path@),
{
    let segments = split_on_char(path, '/');
    let ghost segs = views(segments@);
    let mut i: usize = segments.len();
    assert(segs.take(i as int) =~= segs);
    while i > 0 && (segments[i - 1].as_str().unicode_len() == 0 || is_dot(segments[i - 1].as_str()))
        invariant
            segs == views(segments@),
            i <= segments.len(),
            last_component(segs) == last_component(segs.take(i as int)),
        decreases i,
    {
        assert(segs.take(i as int).drop_last() =~= segs.take(i - 1));
        assert(segs.take(i as int).last() == segments@[i - 1]@);
        assert(segments@[i - 1]@.len() == 0 ==> segments@[i - 1]@ =~= Seq::<char>::empty());
        i = i - 1;
    }
    if i == 0 {
        assert(segs.take(0) =~= Seq::<Seq<char>>::empty());
        String::new()
    } else {
        assert(segs.take(i as int).last() == segments@[i - 1]@);
        if is_dot_dot(segments[i - 1].as_str()) {
            String::new()
        } else {
            segments[i - 1].clone()
        }
    }
}

/// Appends the character `c` to `s` (`String::push`).
#[verifier::external_body]
pub(crate) fn push_char(s: &mut String, c: char)
    ensures
        final(s)@ == old(s)@.push(c),
{
    s.push(c);
}

/// Removes the last character of `s` and returns it, or `None` where `s` is
/// empty (`String::pop`).
#[verifier::external_body]
pub(crate) fn pop_char(s: &mut String) -> (r: Option<char>)
    ensures
        old(s)@.len() == 0 ==> r is None && final(s)@ == old(s)@,
        old(s)@.len() > 0 ==> r == Some(old(s)@.last()) && final(s)@ == old(s)@.drop_last(),
{
    s.pop()
}

} // verus!

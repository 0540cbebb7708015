//! Which entries of a directory tree the index records.
use vstd::prelude::*;

verus! {

/// Whether a file name is hidden: it starts with `.` (as macOS metadata
/// such as `._name`, `.DS_Store` and `.Trash` do). A hidden directory is not
/// entered.
pub open spec fn is_hidden(name: Seq<char>) -> bool {
    name.len() > 0 && name[0] == '.'
}

/// Whether a file name is hidden.
pub fn is_hidden_name(name: &str) -> (b: bool)
    ensures
        b == is_hidden(name@),
{
    name.unicode_len() > 0 && name.get_char(0) == '.'
}

/// `c` with ASCII upper-case letters made lower-case.
pub open spec fn ascii_lower(c: char) -> char {
    if 'A' <= c && c <= 'Z' {
        ((c as u32) + 32) as char
    } else {
        c
    }
}

/// The extensions of the image formats that the index leaves out.
pub open spec fn image_extensions() -> Seq<Seq<char>> {
    seq!["png"@, "jpg"@, "jpeg"@, "gif"@, "bmp"@, "webp"@, "tiff"@, "svg"@, "ico"@]
}

/// Whether an extension names an image format, in any case: once its
/// letters are made lower-case it is one of [`image_extensions`]. (Unicode
/// lower-casing, `str::to_lowercase`, gives the same answer: the only
/// characters outside ASCII whose lower case holds an ASCII letter are the
/// Kelvin sign, which becomes `k`, a letter none of these extensions holds,
/// and `İ`, which becomes `i` followed by a combining dot, a character none
/// of them holds.)
pub open spec fn is_image(ext: Seq<char>) -> bool {
    image_extensions().contains(ext.map_values(|c: char| ascii_lower(c)))
}

/// Whether `c`, made lower-case, is `t`.
fn lower_is(c: char, t: char) -> (b: bool)
    ensures
        b == (ascii_lower(c) == t),
{
    if 'A' <= c && c <= 'Z' {
        let code: u32 = c as u32 + 32;
        let b = code == t as u32;
        proof {
            vstd::utf8::char_u32_cast(t, t as u32);
            assert(((c as u32) + 32) as char == ((c as u32) + 32) as u32 as char);
        }
        b
    } else {
        c == t
    }
}

/// Whether `ext` matches `target`, a lower-case extension, letter for letter
/// in any case.
fn matches_lower(ext: &str, target: &str) -> (b: bool)
    ensures
        b == (ext@.map_values(|c: char| ascii_lower(c)) == target@),
{
    let n = ext.unicode_len();
    if n != target.unicode_len() {
        assert(ext@.map_values(|c: char| ascii_lower(c)).len() != target@.len());
        return false;
    }
    let mut i: usize = 0;
    while i < n
        invariant
            n == ext@.len(),
            n == target@.len(),
            i <= n,
            forall|j: int| 0 <= j < i ==> ascii_lower(ext@[j]) == target@[j],
        decreases n - i,
    {
        if !lower_is(ext.get_char(i), target.get_char(i)) {
            assert(ext@.map_values(|c: char| ascii_lower(c))[i as int] != target@[i as int]);
            return false;
        }
        i = i + 1;
    }
    assert(ext@.map_values(|c: char| ascii_lower(c)) =~= target@);
    true
}

/// Whether an extension names an image format, in any case.
pub fn is_image_extension(ext: &str) -> (b: bool)
    ensures
        b == is_image(ext@),
{
    let ghost lowered = ext@.map_values(|c: char| ascii_lower(c));
    let b = matches_lower(ext, "png") || matches_lower(ext, "jpg") || matches_lower(ext, "jpeg")
        || matches_lower(ext, "gif") || matches_lower(ext, "bmp") || matches_lower(ext, "webp")
        || matches_lower(ext, "tiff") || matches_lower(ext, "svg") || matches_lower(ext, "ico");
    proof {
        let list = image_extensions();
        if b {
            assert(lowered == "png"@ ==> list[0] == lowered);
            assert(lowered == "jpg"@ ==> list[1] == lowered);
            assert(lowered == "jpeg"@ ==> list[2] == lowered);
            assert(lowered == "gif"@ ==> list[3] == lowered);
            assert(lowered == "bmp"@ ==> list[4] == lowered);
            assert(lowered == "webp"@ ==> list[5] == lowered);
            assert(lowered == "tiff"@ ==> list[6] == lowered);
            assert(lowered == "svg"@ ==> list[7] == lowered);
            assert(lowered == "ico"@ ==> list[8] == lowered);
        } else {
            assert forall|k: int| 0 <= k < list.len() implies list[k] != lowered by {}
        }
    }
    b
}

/// The row that the index records for an entry of the tree, given the
/// extension of its name (where it has one in UTF-8), its path relative to
/// the indexed root, and whether it is a directory: none for an image, nor
/// for the root itself (an empty relative path); else the path, and `1` for
/// a directory or `0` for a file.
pub open spec fn record_of(ext: Option<Seq<char>>, rel_path: Seq<char>, is_dir: bool) -> Option<(Seq<char>, i32)> {
    if ext matches Some(e) && is_image(e) {
        None
    } else if rel_path.len() == 0 {
        None
    } else {
        Some((rel_path, if is_dir { 1i32 } else { 0i32 }))
    }
}

/// The row that the index records for an entry of the tree, if any.
pub fn entry_record(ext: Option<&str>, rel_path: &str, is_dir: bool) -> (r: Option<(String, i32)>)
    ensures
        match r {
            Some((p, d)) => record_of(
                match ext {
                    Some(e) => Some(e@),
                    None => None,
                },
                rel_path@,
                is_dir,
            ) == Some((p@, d)),
            None => record_of(
                match ext {
                    Some(e) => Some(e@),
                    None => None,
                },
                rel_path@,
                is_dir,
            ) is None,
        },
{
    let image = match ext {
        Some(e) => is_image_extension(e),
        None => false,
    };
    if image || rel_path.unicode_len() == 0 {
        None
    } else {
        Some((String::from_str(rel_path), if is_dir { 1 } else { 0 }))
    }
}

} // verus!

//! Static-asset resolution: the safety check on a requested name, the
//! content type derived from its extension, and the served outcome.

use vstd::prelude::*;

use crate::mime::{lookup, Mimetypes};
use crate::text::{chars_string, contains_char, lower, lower_exec, str_chars, subrange_exec};

verus! {

/// The index of the last occurrence of `c` in `s`, if any.
pub open spec fn find_last(s: Seq<char>, c: char) -> Option<int>
    decreases s.len(),
{
    if s.len() == 0 {
        None
    } else if s.last() == c {
        Some(s.len() - 1)
    } else {
        find_last(s.drop_last(), c)
    }
}

/// The extension of a file name: what follows the final dot, absent when
/// there is no dot or the name's only dot starts it.
pub open spec fn extension_of(name: Seq<char>) -> Option<Seq<char>> {
    match find_last(name, '.') {
        Some(j) => if j > 0 {
            Some(name.subrange(j + 1, name.len() as int))
        } else {
            None
        },
        None => None,
    }
}

/// The content type served for a file name: the table's entry for the
/// lowercased extension, or `text/plain` when the extension is unknown
/// or absent.
pub open spec fn spec_content_type(
    entries: Seq<(Seq<char>, Seq<char>)>,
    name: Seq<char>,
) -> Seq<char> {
    match extension_of(name) {
        Some(e) => match lookup(entries, lower(e)) {
            Some(m) => m,
            None => "text/plain"@,
        },
        None => "text/plain"@,
    }
}

/// A found occurrence is in range and nothing later matches.
pub proof fn lemma_find_last_in_range(s: Seq<char>, c: char, j: int)
    requires
        find_last(s, c) == Some(j),
    ensures
        0 <= j < s.len(),
        s[j] == c,
        forall|m: int| j < m < s.len() ==> s[m] != c,
    decreases s.len(),
{
    if s.len() > 0 && s.last() != c {
        lemma_find_last_in_range(s.drop_last(), c, j);
        assert forall|m: int| j < m < s.len() implies s[m] != c by {
            if m < s.len() - 1 {
                assert(s.drop_last()[m] == s[m]);
            }
        }
    }
}

fn find_last_exec(s: &Vec<char>) -> (r: Option<usize>)
    ensures
        match r {
            Some(j) => find_last(s@, '.') == Some(j as int) && j < s@.len(),
            None => find_last(s@, '.') is None,
        },
{
    let mut i: usize = s.len();
    assert(s@.take(s@.len() as int) =~= s@);
    while i > 0
        invariant
            0 <= i <= s@.len(),
            find_last(s@, '.') == find_last(s@.take(i as int), '.'),
        decreases i,
    {
        i = i - 1;
        proof {
            assert(s@.take(i + 1).drop_last() =~= s@.take(i as int));
            assert(s@.take(i + 1).last() == s@[i as int]);
        }
        if s[i] == '.' {
            return Some(i);
        }
    }
    assert(s@.take(0) =~= Seq::<char>::empty());
    None
}

/// The served content type for `name`: its lowercased extension looked up
/// in the table, with `text/plain` as the fallback.
pub fn content_type(table: &Mimetypes, name: &str) -> (r: String)
    ensures
        r@ == spec_content_type(table.entries_view(), name@),
{
    let chars = str_chars(name);
    match find_last_exec(&chars) {
        Some(j) => {
            if j == 0 {
                return "text/plain".to_owned();
            }
            let n: usize = chars.len();
            let ext = subrange_exec(&chars, j + 1, n);
            let low = lower_exec(&ext);
            let key = chars_string(&low);
            match table.get(key.as_str()) {
                Some(m) => m,
                None => "text/plain".to_owned(),
            }
        },
        None => "text/plain".to_owned(),
    }
}

/// What a static request comes back with: the file's bytes with their
/// content type, or a not-found signal.
pub enum AssetOutcome {
    Found(Vec<u8>, String),
    NotFound,
}

/// A requested name that stays inside the root: it holds no path separator
/// and is not a parent reference.
pub open spec fn spec_path_is_safe(name: Seq<char>) -> bool {
    !name.contains('/') && !name.contains('\\') && !(name =~= seq!['.', '.'])
}

/// Checks that a requested name cannot escape the content root.
pub fn path_is_safe(name: &str) -> (r: bool)
    ensures
        r == spec_path_is_safe(name@),
{
    let chars = str_chars(name);
    if contains_char(&chars, '/') || contains_char(&chars, '\\') {
        return false;
    }
    if chars.len() == 2 {
        let dotdot: Vec<char> = vec!['.', '.'];
        !crate::text::chars_eq(&chars, &dotdot)
    } else {
        assert(!(name@ =~= seq!['.', '.']));
        true
    }
}

/// Turns what was read for a file into the served outcome: its bytes with
/// the content type of its name, or not-found when nothing could be read.
pub fn asset_outcome(table: &Mimetypes, name: &str, bytes: Option<Vec<u8>>) -> (r: AssetOutcome)
    ensures
        (match bytes {
            Some(b) => r is Found && r->Found_0 == b && r->Found_1@ == spec_content_type(
                table.entries_view(),
                name@,
            ),
            None => r is NotFound,
        }),
{
    match bytes {
        Some(b) => {
            let mime = content_type(table, name);
            AssetOutcome::Found(b, mime)
        },
        None => AssetOutcome::NotFound,
    }
}

/// The maintenance page compiled into the binary, used when the configured
/// HTML file cannot be read.
pub open spec fn default_page_view() -> Seq<char> {
    "<!DOCTYPE html>\n<html>\n<head>\n<title>Maintenance</title>\n</head>\n<body>\n<h1>Service temporarily unavailable</h1>\n<p>The site at {{ host }} is under maintenance. Please try again later.</p>\n</body>\n</html>\n"@
}

/// The embedded maintenance page as text.
pub fn default_page() -> (r: String)
    ensures
        r@ == default_page_view(),
{
    "<!DOCTYPE html>\n<html>\n<head>\n<title>Maintenance</title>\n</head>\n<body>\n<h1>Service temporarily unavailable</h1>\n<p>The site at {{ host }} is under maintenance. Please try again later.</p>\n</body>\n</html>\n".to_owned()
}

/// The template text a build starts from: what was read at the configured
/// path, or the embedded page when nothing could be read there.
pub fn html_or_default(content: Option<String>) -> (r: String)
    ensures
        (match content {
            Some(c) => r@ == c@,
            None => r@ == default_page_view(),
        }),
{
    match content {
        Some(c) => c,
        None => default_page(),
    }
}

} // verus!

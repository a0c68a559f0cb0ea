//! The MIME-type table: a `mimetype ext1 ext2 ...` text parsed into an
//! extension-to-type mapping where later lines override earlier ones.

use vstd::prelude::*;

use crate::errors::GenericError;
use crate::text::{chars_eq, chars_string, is_space, is_space_exec, str_chars, subrange_exec};

verus! {

/// The first index at or after `i` holding `c`, if any.
pub open spec fn find_char(s: Seq<char>, c: char, i: int) -> Option<int>
    decreases s.len() - i,
{
    if i < 0 || i >= s.len() {
        None
    } else if s[i] == c {
        Some(i)
    } else {
        find_char(s, c, i + 1)
    }
}

fn find_char_exec(s: &Vec<char>, c: char) -> (r: Option<usize>)
    ensures
        match r {
            Some(j) => find_char(s@, c, 0) == Some(j as int) && j < s@.len(),
            None => find_char(s@, c, 0) is None,
        },
{
    let mut i: usize = 0;
    while i < s.len()
        invariant
            0 <= i <= s@.len(),
            find_char(s@, c, 0) == find_char(s@, c, i as int),
        decreases s@.len() - i,
    {
        if s[i] == c {
            return Some(i);
        }
        i = i + 1;
    }
    None
}

/// The text cut at every newline; the final segment keeps no newline.
pub open spec fn split_lines(s: Seq<char>) -> Seq<Seq<char>>
    decreases s.len(),
{
    match find_char(s, '\n', 0) {
        Some(j) => if 0 <= j < s.len() {
            seq![s.subrange(0, j)] + split_lines(s.subrange(j + 1, s.len() as int))
        } else {
            seq![s]
        },
        None => seq![s],
    }
}

fn split_lines_exec(s: &Vec<char>) -> (r: Vec<Vec<char>>)
    ensures
        r.deep_view() == split_lines(s@),
    decreases s@.len(),
{
    let n: usize = s.len();
    match find_char_exec(s, '\n') {
        Some(j) => {
            let first = subrange_exec(s, 0, j);
            let rest = subrange_exec(s, j + 1, n);
            let mut out = split_lines_exec(&rest);
            out.insert(0, first);
            assert(first.deep_view() =~= s@.subrange(0, j as int));
            assert(out.deep_view() =~= seq![s@.subrange(0, j as int)] + split_lines(
                s@.subrange(j + 1, s@.len() as int),
            ));
            out
        },
        None => {
            let whole = subrange_exec(s, 0, s.len());
            let mut out: Vec<Vec<char>> = Vec::new();
            assert(whole.deep_view() =~= s@.subrange(0, s@.len() as int));
            assert(s@.subrange(0, s@.len() as int) =~= s@);
            out.push(whole);
            assert(out.deep_view() =~= seq![s@]);
            out
        },
    }
}

/// The text without leading whitespace.
pub open spec fn trim_start(s: Seq<char>) -> Seq<char>
    decreases s.len(),
{
    if s.len() > 0 && is_space(s[0]) {
        trim_start(s.drop_first())
    } else {
        s
    }
}

/// The text without trailing whitespace.
pub open spec fn trim_end(s: Seq<char>) -> Seq<char>
    decreases s.len(),
{
    if s.len() > 0 && is_space(s.last()) {
        trim_end(s.drop_last())
    } else {
        s
    }
}

/// The text without leading or trailing whitespace.
pub open spec fn trim(s: Seq<char>) -> Seq<char> {
    trim_end(trim_start(s))
}

fn trim_start_exec(s: &Vec<char>) -> (r: Vec<char>)
    ensures
        r@ == trim_start(s@),
    decreases s@.len(),
{
    if s.len() > 0 && is_space_exec(s[0]) {
        let rest = subrange_exec(s, 1, s.len());
        assert(rest@ =~= s@.drop_first());
        trim_start_exec(&rest)
    } else {
        let copy = subrange_exec(s, 0, s.len());
        assert(copy@ =~= s@);
        copy
    }
}

fn trim_end_exec(s: &Vec<char>) -> (r: Vec<char>)
    ensures
        r@ == trim_end(s@),
    decreases s@.len(),
{
    if s.len() > 0 && is_space_exec(s[s.len() - 1]) {
        let rest = subrange_exec(s, 0, s.len() - 1);
        assert(rest@ =~= s@.drop_last());
        trim_end_exec(&rest)
    } else {
        let copy = subrange_exec(s, 0, s.len());
        assert(copy@ =~= s@);
        copy
    }
}

fn trim_exec(s: &Vec<char>) -> (r: Vec<char>)
    ensures
        r@ == trim(s@),
{
    let started = trim_start_exec(s);
    trim_end_exec(&started)
}

/// The first index at or after `i` holding whitespace, or the end of `s`.
pub open spec fn skip_nonspaces(s: Seq<char>, i: int) -> int
    decreases s.len() - i,
{
    if i < 0 || i >= s.len() {
        i
    } else if !is_space(s[i]) {
        skip_nonspaces(s, i + 1)
    } else {
        i
    }
}

fn skip_nonspaces_exec(s: &Vec<char>, i: usize) -> (r: usize)
    requires
        i <= s@.len(),
    ensures
        r == skip_nonspaces(s@, i as int),
        i <= r <= s@.len(),
{
    let mut k: usize = i;
    while k < s.len()
        invariant
            i <= k <= s@.len(),
            skip_nonspaces(s@, i as int) == skip_nonspaces(s@, k as int),
        decreases s@.len() - k,
    {
        if is_space_exec(s[k]) {
            return k;
        }
        k = k + 1;
    }
    k
}

/// Skipping non-whitespace never moves backwards nor past the end.
proof fn lemma_skip_nonspaces_in_range(s: Seq<char>, i: int)
    requires
        0 <= i <= s.len(),
    ensures
        i <= skip_nonspaces(s, i) <= s.len(),
    decreases s.len() - i,
{
    if i < s.len() && !is_space(s[i]) {
        lemma_skip_nonspaces_in_range(s, i + 1);
    }
}

/// The maximal whitespace-free runs of the text, in order.
pub open spec fn tokenize(s: Seq<char>) -> Seq<Seq<char>>
    decreases s.len(),
{
    if s.len() == 0 {
        Seq::empty()
    } else if is_space(s[0]) {
        tokenize(s.drop_first())
    } else {
        let j = skip_nonspaces(s, 0);
        if 1 <= j <= s.len() {
            seq![s.subrange(0, j)] + tokenize(s.subrange(j, s.len() as int))
        } else {
            seq![s]
        }
    }
}

fn tokenize_exec(s: &Vec<char>) -> (r: Vec<Vec<char>>)
    ensures
        r.deep_view() == tokenize(s@),
    decreases s@.len(),
{
    if s.len() == 0 {
        let out: Vec<Vec<char>> = Vec::new();
        assert(out.deep_view() =~= Seq::<Seq<char>>::empty());
        out
    } else if is_space_exec(s[0]) {
        let rest = subrange_exec(s, 1, s.len());
        assert(rest@ =~= s@.drop_first());
        tokenize_exec(&rest)
    } else {
        let j = skip_nonspaces_exec(s, 0);
        proof {
            lemma_skip_nonspaces_in_range(s@, 1);
            assert(skip_nonspaces(s@, 0) == skip_nonspaces(s@, 1));
        }
        assert(j >= 1);
        let first = subrange_exec(s, 0, j);
        let rest = subrange_exec(s, j, s.len());
        let mut out = tokenize_exec(&rest);
        out.insert(0, first);
        assert(first.deep_view() =~= s@.subrange(0, j as int));
        assert(out.deep_view() =~= seq![s@.subrange(0, j as int)] + tokenize(
            s@.subrange(j as int, s@.len() as int),
        ));
        out
    }
}

/// The `(extension, mime type)` pairs one line contributes: nothing for a
/// comment or a line without an extension, one pair per extension otherwise.
pub open spec fn line_entries(line: Seq<char>) -> Seq<(Seq<char>, Seq<char>)> {
    let t = trim(line);
    if t.len() > 0 && t[0] == '#' {
        Seq::empty()
    } else {
        let toks = tokenize(t);
        if toks.len() == 0 {
            Seq::empty()
        } else {
            Seq::new((toks.len() - 1) as nat, |k: int| (toks[k + 1], toks[0]))
        }
    }
}

/// The pairs of all lines in order, later lines after earlier ones.
pub open spec fn table_entries(lines: Seq<Seq<char>>) -> Seq<(Seq<char>, Seq<char>)>
    decreases lines.len(),
{
    if lines.len() == 0 {
        Seq::empty()
    } else {
        table_entries(lines.drop_last()) + line_entries(lines.last())
    }
}

/// Every `(extension, mime type)` pair of the table text, in text order.
pub open spec fn parsed_entries(content: Seq<char>) -> Seq<(Seq<char>, Seq<char>)> {
    table_entries(split_lines(content))
}

/// The value of the last pair whose key equals `key` exactly, if any.
pub open spec fn lookup(entries: Seq<(Seq<char>, Seq<char>)>, key: Seq<char>) -> Option<Seq<char>>
    decreases entries.len(),
{
    if entries.len() == 0 {
        None
    } else if entries.last().0 == key {
        Some(entries.last().1)
    } else {
        lookup(entries.drop_last(), key)
    }
}

/// The pairs a stored entry list stands for.
pub open spec fn entry_views(v: Seq<(String, String)>) -> Seq<(Seq<char>, Seq<char>)> {
    Seq::new(v.len(), |i: int| (v[i].0@, v[i].1@))
}

/// The extension-to-MIME-type table.
#[derive(Debug, Clone)]
pub struct Mimetypes {
    entries: Vec<(String, String)>,
}

impl Mimetypes {
    /// The `(extension, mime type)` pairs the table holds, in load order.
    pub closed spec fn entries_view(self) -> Seq<(Seq<char>, Seq<char>)> {
        entry_views(self.entries@)
    }

    /// Parses a table text: per non-comment line the first token is the
    /// MIME type and every later token an extension mapped to it.
    pub fn parse(content: String) -> (r: Result<Mimetypes, GenericError>)
        ensures
            r is Ok,
            r->Ok_0.entries_view() == parsed_entries(content@),
    {
        let chars = str_chars(content.as_str());
        let lines = split_lines_exec(&chars);
        let ghost lv = lines.deep_view();
        let mut entries: Vec<(String, String)> = Vec::new();
        let mut i: usize = 0;
        while i < lines.len()
            invariant
                0 <= i <= lines@.len(),
                lv == lines.deep_view(),
                lv.len() == lines@.len(),
                entry_views(entries@) =~= table_entries(lv.take(i as int)),
            decreases lines@.len() - i,
        {
            let ghost prev = entry_views(entries@);
            append_line_entries(&mut entries, &lines[i]);
            proof {
                assert(lines@[i as int].deep_view() =~= lines@[i as int]@);
                assert(lv[i as int] == lines@[i as int]@);
                assert(lv.take(i + 1).drop_last() =~= lv.take(i as int));
                assert(lv.take(i + 1).last() == lv[i as int]);
            }
            i = i + 1;
        }
        assert(lv.take(lv.len() as int) =~= lv);
        Ok(Mimetypes { entries })
    }

    /// Looks an extension up, exactly as stored: the MIME type of the last
    /// line that listed it, or nothing.
    pub fn get(&self, key: &str) -> (r: Option<String>)
        ensures
            match r {
                Some(v) => lookup(self.entries_view(), key@) == Some(v@),
                None => lookup(self.entries_view(), key@) is None,
            },
    {
        let key_chars = str_chars(key);
        let ghost ev = self.entries_view();
        let mut i: usize = self.entries.len();
        assert(ev.take(ev.len() as int) =~= ev);
        while i > 0
            invariant
                0 <= i <= self.entries@.len(),
                ev == self.entries_view(),
                ev.len() == self.entries@.len(),
                key_chars@ == key@,
                lookup(ev, key@) == lookup(ev.take(i as int), key@),
            decreases i,
        {
            i = i - 1;
            let stored = str_chars(self.entries[i].0.as_str());
            proof {
                assert(ev[i as int] == (self.entries@[i as int].0@, self.entries@[i as int].1@));
                assert(ev.take(i + 1).drop_last() =~= ev.take(i as int));
                assert(ev.take(i + 1).last() == ev[i as int]);
            }
            if chars_eq(&stored, &key_chars) {
                let v = self.entries[i].1.clone();
                return Some(v);
            }
        }
        assert(ev.take(0) =~= Seq::<(Seq<char>, Seq<char>)>::empty());
        None
    }

    /// Builds the table from the given text, or from the embedded default
    /// table when no text could be read.
    pub fn load(content: Option<String>) -> (r: Mimetypes)
        ensures
            (match content {
                Some(c) => r.entries_view() == parsed_entries(c@),
                None => r.entries_view() == parsed_entries(default_table_view()),
            }),
    {
        match content {
            Some(c) => match Mimetypes::parse(c) {
                Ok(t) => t,
                Err(_) => {
                    let out = Mimetypes { entries: Vec::new() };
                    out
                },
            },
            None => Mimetypes::default(),
        }
    }
}

fn append_line_entries(entries: &mut Vec<(String, String)>, line: &Vec<char>)
    ensures
        entry_views(final(entries)@) =~= entry_views(old(entries)@) + line_entries(line@),
{
    let trimmed = trim_exec(line);
    if trimmed.len() > 0 && trimmed[0] == '#' {
        assert(line_entries(line@) =~= Seq::<(Seq<char>, Seq<char>)>::empty());
        assert(entry_views(entries@) =~= entry_views(entries@) + line_entries(line@));
        return ;
    }
    let toks = tokenize_exec(&trimmed);
    let ghost tv = toks.deep_view();
    if toks.len() == 0 {
        assert(line_entries(line@) =~= Seq::<(Seq<char>, Seq<char>)>::empty());
        assert(entry_views(entries@) =~= entry_views(entries@) + line_entries(line@));
        return ;
    }
    let mime = chars_string(&toks[0]);
    let ghost start = entry_views(entries@);
    let mut k: usize = 1;
    while k < toks.len()
        invariant
            1 <= k <= toks@.len(),
            tv == toks.deep_view(),
            tv.len() == toks@.len(),
            tv.len() >= 1,
            tv == tokenize(trim(line@)),
            mime@ == tv[0],
            !(trim(line@).len() > 0 && trim(line@)[0] == '#'),
            start == entry_views(old(entries)@),
            entry_views(entries@) =~= start + line_entries(line@).take(k - 1),
        decreases toks@.len() - k,
    {
        let ext = chars_string(&toks[k]);
        let ghost prev = entry_views(entries@);
        entries.push((ext, mime.clone()));
        proof {
            assert(toks@[k as int].deep_view() =~= toks@[k as int]@);
            assert(tv[k as int] == toks@[k as int]@);
            assert(entry_views(entries@) =~= prev + seq![(tv[k as int], tv[0])]);
            assert(line_entries(line@)[k - 1] == (tv[k as int], tv[0]));
            assert(line_entries(line@).take(k as int) =~= line_entries(line@).take(k - 1) + seq![
                line_entries(line@)[k - 1],
            ]);
        }
        k = k + 1;
    }
    assert(line_entries(line@).take(line_entries(line@).len() as int) =~= line_entries(line@));
}

/// The table text compiled into the binary, used when none is configured
/// or the configured one cannot be read.
pub open spec fn default_table_view() -> Seq<char> {
    "text/html html htm\ntext/css css\ntext/javascript js mjs\ntext/plain txt text conf log\napplication/json json\napplication/xml xml\nimage/png png\nimage/jpeg jpeg jpg\nimage/gif gif\nimage/svg+xml svg svgz\nimage/x-icon ico\nimage/webp webp\nfont/woff woff\nfont/woff2 woff2\napplication/pdf pdf\napplication/zip zip\napplication/gzip gz\napplication/wasm wasm\naudio/mpeg mpga mp2 mp3\nvideo/mp4 mp4\n"@
}

/// The embedded default table as text.
pub fn default_table_text() -> (r: String)
    ensures
        r@ == default_table_view(),
{
    "text/html html htm\ntext/css css\ntext/javascript js mjs\ntext/plain txt text conf log\napplication/json json\napplication/xml xml\nimage/png png\nimage/jpeg jpeg jpg\nimage/gif gif\nimage/svg+xml svg svgz\nimage/x-icon ico\nimage/webp webp\nfont/woff woff\nfont/woff2 woff2\napplication/pdf pdf\napplication/zip zip\napplication/gzip gz\napplication/wasm wasm\naudio/mpeg mpga mp2 mp3\nvideo/mp4 mp4\n".to_owned()
}

impl Default for Mimetypes {
    /// The embedded default table.
    fn default() -> (r: Mimetypes)
        ensures
            r.entries_view() == parsed_entries(default_table_view()),
    {
        let text = default_table_text();
        match Mimetypes::parse(text) {
            Ok(t) => t,
            Err(_) => Mimetypes { entries: Vec::new() },
        }
    }
}

/// Law: a lookup returns the value of the last entry for its key — an entry
/// listed later always overrides an earlier one with the same key, and keys
/// are compared exactly, case included.
pub proof fn lemma_last_entry_wins(entries: Seq<(Seq<char>, Seq<char>)>, key: Seq<char>, i: int)
    requires
        0 <= i < entries.len(),
        entries[i].0 == key,
        forall|j: int| i < j < entries.len() ==> (#[trigger] entries[j]).0 != key,
    ensures
        lookup(entries, key) == Some(entries[i].1),
    decreases entries.len(),
{
    if i == entries.len() - 1 {
    } else {
        lemma_last_entry_wins(entries.drop_last(), key, i);
    }
}

} // verus!

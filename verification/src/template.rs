//! Template compilation: placeholder injection, inline-block minification,
//! and per-block digests for the Content-Security-Policy header.

use vstd::prelude::*;

use crate::digest::{base64_encode, base64_of, sha256, sha256_of};
use crate::errors::GenericError;
use crate::text::{
    chars_eq, chars_string, contains_char, find_from, find_from_exec, lower, lower_exec, match_at,
    match_at_exec, push_all, replace_all, replace_all_exec, skip_spaces, skip_spaces_exec,
    str_chars, subrange_exec,
};
use vstd::utf8::encode_utf8;

verus! {

/// The three characters that open a placeholder token.
pub open spec fn open_marker() -> Seq<char> {
    seq!['{', '{', ' ']
}

/// The three characters that close a placeholder token.
pub open spec fn close_marker() -> Seq<char> {
    seq![' ', '}', '}']
}

/// The name `css`, the placeholder the style blocks replace.
pub open spec fn css_name() -> Seq<char> {
    seq!['c', 's', 's']
}

/// The name `js`, the placeholder the script blocks replace.
pub open spec fn js_name() -> Seq<char> {
    seq!['j', 's']
}

/// The placeholder token that starts at `i`, if any: `Some((end, name))`
/// means `s[i..end]` is `{{ name }}` with the earliest possible close,
/// and the name stays on one line.
pub open spec fn placeholder_at(s: Seq<char>, i: int) -> Option<(int, Seq<char>)> {
    if match_at(s, open_marker(), i) {
        match find_from(s, close_marker(), i + 3) {
            Some(j) => {
                let name = s.subrange(i + 3, j);
                if i + 3 <= j && j + 3 <= s.len() && !name.contains('\n') && !name.contains('\r') {
                    Some((j + 3, name))
                } else {
                    None
                }
            },
            None => None,
        }
    } else {
        None
    }
}

/// What one placeholder token becomes: the style text for `css`, the script
/// text for `js` (both case-insensitively), and the token itself otherwise.
pub open spec fn substitute(name: Seq<char>, css: Seq<char>, js: Seq<char>) -> Seq<char> {
    if lower(name) =~= css_name() {
        css
    } else if lower(name) =~= js_name() {
        js
    } else {
        open_marker() + name + close_marker()
    }
}

/// The suffix of `s` from `i` with every placeholder token substituted.
pub open spec fn inject_from(s: Seq<char>, css: Seq<char>, js: Seq<char>, i: int) -> Seq<char>
    decreases s.len() - i,
{
    if i < 0 || i >= s.len() {
        Seq::empty()
    } else {
        match placeholder_at(s, i) {
            Some((end, name)) => substitute(name, css, js) + inject_from(s, css, js, end),
            None => seq![s[i]] + inject_from(s, css, js, i + 1),
        }
    }
}

/// `s` with every `{{ css }}` placeholder replaced by `css`, every
/// `{{ js }}` placeholder by `js`, and every other placeholder kept verbatim.
pub open spec fn inject(s: Seq<char>, css: Seq<char>, js: Seq<char>) -> Seq<char> {
    inject_from(s, css, js, 0)
}

fn open_marker_vec() -> (r: Vec<char>)
    ensures
        r@ == open_marker(),
{
    let v: Vec<char> = vec!['{', '{', ' '];
    assert(v@ =~= open_marker());
    v
}

fn close_marker_vec() -> (r: Vec<char>)
    ensures
        r@ == close_marker(),
{
    let v: Vec<char> = vec![' ', '}', '}'];
    assert(v@ =~= close_marker());
    v
}

/// Finds the placeholder token starting at `i`, returning the index of its
/// closing ` }}` when there is one.
fn placeholder_at_exec(s: &Vec<char>, i: usize) -> (r: Option<usize>)
    ensures
        match r {
            Some(j) => placeholder_at(s@, i as int) == Some(
                ((j + 3) as int, s@.subrange(i + 3, j as int)),
            ) && i + 3 <= j && j + 3 <= s@.len(),
            None => placeholder_at(s@, i as int) is None,
        },
{
    let open = open_marker_vec();
    let close = close_marker_vec();
    if !match_at_exec(s, &open, i) {
        return None;
    }
    let n: usize = s.len();
    assert(i + 3 <= n);
    match find_from_exec(s, &close, i + 3) {
        Some(j) => {
            let name = subrange_exec(s, i + 3, j);
            if contains_char(&name, '\n') || contains_char(&name, '\r') {
                None
            } else {
                Some(j)
            }
        },
        None => None,
    }
}

/// Substitutes every placeholder token of `s`: `{{ css }}` becomes `css`,
/// `{{ js }}` becomes `js` (names matched case-insensitively), and any other
/// token is emitted verbatim.
pub fn inject_exec(s: &Vec<char>, css: &Vec<char>, js: &Vec<char>) -> (r: Vec<char>)
    ensures
        r@ == inject(s@, css@, js@),
{
    let css_pat: Vec<char> = vec!['c', 's', 's'];
    let js_pat: Vec<char> = vec!['j', 's'];
    assert(css_pat@ =~= css_name());
    assert(js_pat@ =~= js_name());
    let mut out: Vec<char> = Vec::new();
    let mut i: usize = 0;
    while i < s.len()
        invariant
            0 <= i <= s@.len(),
            css_pat@ == css_name(),
            js_pat@ == js_name(),
            inject(s@, css@, js@) =~= out@ + inject_from(s@, css@, js@, i as int),
        decreases s@.len() - i,
    {
        match placeholder_at_exec(s, i) {
            Some(j) => {
                let name = subrange_exec(s, i + 3, j);
                let low = lower_exec(&name);
                if chars_eq(&low, &css_pat) {
                    push_all(&mut out, css);
                } else if chars_eq(&low, &js_pat) {
                    push_all(&mut out, js);
                } else {
                    let open = open_marker_vec();
                    let close = close_marker_vec();
                    push_all(&mut out, &open);
                    push_all(&mut out, &name);
                    push_all(&mut out, &close);
                }
                i = j + 3;
            },
            None => {
                out.push(s[i]);
                i = i + 1;
            },
        }
    }
    assert(inject_from(s@, css@, js@, i as int) =~= Seq::empty());
    assert(out@ + Seq::<char>::empty() =~= out@);
    out
}

/// The two inline-block kinds the engine rewrites and hashes.
#[derive(Clone, Copy)]
pub enum Tag {
    Script,
    Style,
}

impl Tag {
    /// The tag's name, lowercase.
    pub open spec fn spec_name(self) -> Seq<char> {
        match self {
            Tag::Script => seq!['s', 'c', 'r', 'i', 'p', 't'],
            Tag::Style => seq!['s', 't', 'y', 'l', 'e'],
        }
    }

    /// Whether the tag holds script, as opposed to style, content.
    pub open spec fn spec_is_script(self) -> bool {
        self is Script
    }

    /// The tag's name as a string.
    pub fn as_str(&self) -> (r: String)
        ensures
            r@ == self.spec_name(),
    {
        let v = self.name_vec();
        chars_string(&v)
    }

    /// The tag's name as a character vector.
    pub fn name_vec(&self) -> (r: Vec<char>)
        ensures
            r@ == self.spec_name(),
    {
        match self {
            Tag::Script => {
                let v: Vec<char> = vec!['s', 'c', 'r', 'i', 'p', 't'];
                assert(v@ =~= self.spec_name());
                v
            },
            Tag::Style => {
                let v: Vec<char> = vec!['s', 't', 'y', 'l', 'e'];
                assert(v@ =~= self.spec_name());
                v
            },
        }
    }
}

/// `word` occurs at `i` in `s` up to ASCII case.
pub open spec fn match_ci_at(s: Seq<char>, word: Seq<char>, i: int) -> bool {
    0 <= i && i + word.len() <= s.len() && lower(s.subrange(i, i + word.len())) =~= word
}

fn match_ci_at_exec(s: &Vec<char>, word: &Vec<char>, i: usize) -> (r: bool)
    ensures
        r == match_ci_at(s@, word@, i as int),
{
    if i > s.len() || word.len() > s.len() - i {
        assert(!match_ci_at(s@, word@, i as int));
        return false;
    }
    let sub = subrange_exec(s, i, i + word.len());
    let low = lower_exec(&sub);
    let r = chars_eq(&low, word);
    assert(low@ == lower(s@.subrange(i as int, i + word@.len())));
    r
}

/// The end of an opening tag `<` ws `name` ws `>` that starts at `i`:
/// the index just past the `>`, with the name matched up to ASCII case.
pub open spec fn open_tag_end(s: Seq<char>, tag: Seq<char>, i: int) -> Option<int> {
    if 0 <= i && i < s.len() && s[i] == '<' {
        let a = skip_spaces(s, i + 1);
        if match_ci_at(s, tag, a) {
            let b = skip_spaces(s, a + tag.len());
            if b < s.len() && s[b] == '>' {
                Some(b + 1)
            } else {
                None
            }
        } else {
            None
        }
    } else {
        None
    }
}

/// The end of a closing tag `<` ws `/` ws `name` ws `>` that starts at `i`.
pub open spec fn close_tag_end(s: Seq<char>, tag: Seq<char>, i: int) -> Option<int> {
    if 0 <= i && i < s.len() && s[i] == '<' {
        let a = skip_spaces(s, i + 1);
        if a < s.len() && s[a] == '/' {
            let b = skip_spaces(s, a + 1);
            if match_ci_at(s, tag, b) {
                let c = skip_spaces(s, b + tag.len());
                if c < s.len() && s[c] == '>' {
                    Some(c + 1)
                } else {
                    None
                }
            } else {
                None
            }
        } else {
            None
        }
    } else {
        None
    }
}

fn open_tag_end_exec(s: &Vec<char>, tag: &Vec<char>, i: usize) -> (r: Option<usize>)
    ensures
        match r {
            Some(e) => open_tag_end(s@, tag@, i as int) == Some(e as int) && i < e <= s@.len(),
            None => open_tag_end(s@, tag@, i as int) is None,
        },
{
    if i >= s.len() || s[i] != '<' {
        return None;
    }
    let a = skip_spaces_exec(s, i + 1);
    if !match_ci_at_exec(s, tag, a) {
        return None;
    }
    let b = skip_spaces_exec(s, a + tag.len());
    if b < s.len() && s[b] == '>' {
        Some(b + 1)
    } else {
        None
    }
}

fn close_tag_end_exec(s: &Vec<char>, tag: &Vec<char>, i: usize) -> (r: Option<usize>)
    ensures
        match r {
            Some(e) => close_tag_end(s@, tag@, i as int) == Some(e as int) && i < e <= s@.len(),
            None => close_tag_end(s@, tag@, i as int) is None,
        },
{
    if i >= s.len() || s[i] != '<' {
        return None;
    }
    let a = skip_spaces_exec(s, i + 1);
    if a >= s.len() || s[a] != '/' {
        return None;
    }
    let b = skip_spaces_exec(s, a + 1);
    if !match_ci_at_exec(s, tag, b) {
        return None;
    }
    let c = skip_spaces_exec(s, b + tag.len());
    if c < s.len() && s[c] == '>' {
        Some(c + 1)
    } else {
        None
    }
}

/// The first index at or after `k` where a closing tag for `tag` starts.
pub open spec fn find_close(s: Seq<char>, tag: Seq<char>, k: int) -> Option<int>
    decreases s.len() - k,
{
    if k < 0 || k >= s.len() {
        None
    } else if close_tag_end(s, tag, k) is Some {
        Some(k)
    } else {
        find_close(s, tag, k + 1)
    }
}

fn find_close_exec(s: &Vec<char>, tag: &Vec<char>, start: usize) -> (r: Option<(usize, usize)>)
    requires
        start <= s@.len(),
    ensures
        match r {
            Some(p) => find_close(s@, tag@, start as int) == Some(p.0 as int) && close_tag_end(
                s@,
                tag@,
                p.0 as int,
            ) == Some(p.1 as int) && start <= p.0 < p.1 <= s@.len(),
            None => find_close(s@, tag@, start as int) is None,
        },
{
    let mut k: usize = start;
    while k < s.len()
        invariant
            start <= k <= s@.len(),
            find_close(s@, tag@, start as int) == find_close(s@, tag@, k as int),
        decreases s@.len() - k,
    {
        match close_tag_end_exec(s, tag, k) {
            Some(e) => {
                return Some((k, e));
            },
            None => {
                k = k + 1;
            },
        }
    }
    None
}

/// The first inline block of kind `tag` that starts exactly at `i`:
/// `Some((cs, ce, be))` gives the content bounds and the block's end,
/// with the content running to the earliest closing tag.
pub open spec fn block_at(s: Seq<char>, tag: Seq<char>, i: int) -> Option<(int, int, int)> {
    match open_tag_end(s, tag, i) {
        Some(cs) => match find_close(s, tag, cs) {
            Some(ce) => match close_tag_end(s, tag, ce) {
                Some(be) => if i < cs && cs <= ce && ce < be && be <= s.len() {
                    Some((cs, ce, be))
                } else {
                    None
                },
                None => None,
            },
            None => None,
        },
        None => None,
    }
}

pub uninterp spec fn js_minified(s: Seq<char>) -> Option<Seq<char>>;

pub uninterp spec fn css_minified(s: Seq<char>) -> Option<Seq<char>>;

/// Relies on minifier::js::minify: the outcome is a function of the source
/// text alone.
#[verifier::external_body]
fn minify_js(s: &str) -> (r: Option<String>)
    ensures
        match r {
            Some(m) => js_minified(s@) == Some(m@),
            None => js_minified(s@) is None,
        },
{
    match minifier::js::minify(s) {
        Ok(m) => Some(m.to_string()),
        Err(_) => None,
    }
}

/// Relies on minifier::css::minify: the outcome is a function of the source
/// text alone.
#[verifier::external_body]
fn minify_css(s: &str) -> (r: Option<String>)
    ensures
        match r {
            Some(m) => css_minified(s@) == Some(m@),
            None => css_minified(s@) is None,
        },
{
    match minifier::css::minify(s) {
        Ok(m) => Some(m.to_string()),
        Err(_) => None,
    }
}

/// The marker that stands in for content whose minification failed.
pub open spec fn err_marker() -> Seq<char> {
    seq!['E', 'R', 'R']
}

/// What an inline block's content becomes: its minified form, or the error
/// marker when the minifier rejects it.
pub open spec fn minified_content(tag: Tag, c: Seq<char>) -> Seq<char> {
    let m = if tag.spec_is_script() {
        js_minified(c)
    } else {
        css_minified(c)
    };
    match m {
        Some(t) => t,
        None => err_marker(),
    }
}

/// A canonical opening tag, `<name>`.
pub open spec fn open_text(tag: Seq<char>) -> Seq<char> {
    seq!['<'] + tag + seq!['>']
}

/// A canonical closing tag, `</name>`.
pub open spec fn close_text(tag: Seq<char>) -> Seq<char> {
    seq!['<', '/'] + tag + seq!['>']
}

/// The suffix of `s` from `i` with every inline block of kind `tag`
/// rewritten as a canonical tag pair around its minified content.
pub open spec fn rewrite_blocks_from(s: Seq<char>, tag: Tag, i: int) -> Seq<char>
    decreases s.len() - i,
{
    if i < 0 || i >= s.len() {
        Seq::empty()
    } else {
        match block_at(s, tag.spec_name(), i) {
            Some((cs, ce, be)) => open_text(tag.spec_name()) + minified_content(
                tag,
                s.subrange(cs, ce),
            ) + close_text(tag.spec_name()) + rewrite_blocks_from(s, tag, be),
            None => seq![s[i]] + rewrite_blocks_from(s, tag, i + 1),
        }
    }
}

/// `s` with every inline block of kind `tag` minified in place.
pub open spec fn rewrite_blocks(s: Seq<char>, tag: Tag) -> Seq<char> {
    rewrite_blocks_from(s, tag, 0)
}

/// The contents of the inline blocks of kind `tag` in the suffix of `s`
/// from `i`, in document order.
pub open spec fn block_contents_from(s: Seq<char>, tag: Tag, i: int) -> Seq<Seq<char>>
    decreases s.len() - i,
{
    if i < 0 || i >= s.len() {
        Seq::empty()
    } else {
        match block_at(s, tag.spec_name(), i) {
            Some((cs, ce, be)) => seq![s.subrange(cs, ce)] + block_contents_from(s, tag, be),
            None => block_contents_from(s, tag, i + 1),
        }
    }
}

/// The contents of the inline blocks of kind `tag` in `s`, in document order.
pub open spec fn block_contents(s: Seq<char>, tag: Tag) -> Seq<Seq<char>> {
    block_contents_from(s, tag, 0)
}

fn block_at_exec(s: &Vec<char>, tag: &Vec<char>, i: usize) -> (r: Option<(usize, usize, usize)>)
    ensures
        match r {
            Some(p) => block_at(s@, tag@, i as int) == Some(
                (p.0 as int, p.1 as int, p.2 as int),
            ) && i < p.0 <= p.1 < p.2 <= s@.len(),
            None => block_at(s@, tag@, i as int) is None,
        },
{
    match open_tag_end_exec(s, tag, i) {
        Some(cs) => match find_close_exec(s, tag, cs) {
            Some(p) => {
                let ce = p.0;
                let be = p.1;
                if i < cs && cs <= ce && ce < be && be <= s.len() {
                    Some((cs, ce, be))
                } else {
                    None
                }
            },
            None => None,
        },
        None => None,
    }
}

fn minify_content(tag: Tag, content: &Vec<char>) -> (r: Vec<char>)
    ensures
        r@ == minified_content(tag, content@),
{
    let s = chars_string(content);
    let m = match tag {
        Tag::Script => minify_js(s.as_str()),
        Tag::Style => minify_css(s.as_str()),
    };
    match m {
        Some(t) => str_chars(t.as_str()),
        None => {
            let v: Vec<char> = vec!['E', 'R', 'R'];
            assert(v@ =~= err_marker());
            v
        },
    }
}

/// Rewrites every inline block of kind `tag` in `s` as a canonical tag pair
/// around its minified content.
fn rewrite_blocks_exec(s: &Vec<char>, tag: Tag) -> (r: Vec<char>)
    ensures
        r@ == rewrite_blocks(s@, tag),
{
    let name = tag.name_vec();
    let mut out: Vec<char> = Vec::new();
    let mut i: usize = 0;
    while i < s.len()
        invariant
            0 <= i <= s@.len(),
            name@ == tag.spec_name(),
            rewrite_blocks(s@, tag) =~= out@ + rewrite_blocks_from(s@, tag, i as int),
        decreases s@.len() - i,
    {
        match block_at_exec(s, &name, i) {
            Some(p) => {
                let (cs, ce, be) = p;
                let content = subrange_exec(s, cs, ce);
                let minified = minify_content(tag, &content);
                let ghost piece = open_text(tag.spec_name()) + minified_content(
                    tag,
                    s@.subrange(cs as int, ce as int),
                ) + close_text(tag.spec_name());
                let ghost prev = out@;
                assert(rewrite_blocks_from(s@, tag, i as int) =~= piece + rewrite_blocks_from(
                    s@,
                    tag,
                    be as int,
                ));
                out.push('<');
                push_all(&mut out, &name);
                out.push('>');
                push_all(&mut out, &minified);
                out.push('<');
                out.push('/');
                push_all(&mut out, &name);
                out.push('>');
                assert(out@ =~= prev + piece);
                i = be;
            },
            None => {
                out.push(s[i]);
                i = i + 1;
            },
        }
    }
    assert(rewrite_blocks_from(s@, tag, i as int) =~= Seq::empty());
    assert(out@ + Seq::<char>::empty() =~= out@);
    out
}

/// Collects the contents of every inline block of kind `tag` in `s`,
/// in document order.
fn block_contents_exec(s: &Vec<char>, tag: Tag) -> (r: Vec<Vec<char>>)
    ensures
        r.deep_view() == block_contents(s@, tag),
{
    let name = tag.name_vec();
    let mut out: Vec<Vec<char>> = Vec::new();
    let mut i: usize = 0;
    while i < s.len()
        invariant
            0 <= i <= s@.len(),
            name@ == tag.spec_name(),
            block_contents(s@, tag) =~= out.deep_view() + block_contents_from(s@, tag, i as int),
        decreases s@.len() - i,
    {
        match block_at_exec(s, &name, i) {
            Some(p) => {
                let (cs, ce, be) = p;
                let content = subrange_exec(s, cs, ce);
                let ghost prev = out.deep_view();
                out.push(content);
                assert(content.deep_view() =~= s@.subrange(cs as int, ce as int));
                assert(out.deep_view() =~= prev + seq![s@.subrange(cs as int, ce as int)]);
                i = be;
            },
            None => {
                i = i + 1;
            },
        }
    }
    assert(block_contents_from(s@, tag, i as int) =~= Seq::<Seq<char>>::empty());
    assert(out.deep_view() + Seq::<Seq<char>>::empty() =~= out.deep_view());
    out
}

/// The eight characters that open a CSP hash source, `'sha256-`.
pub open spec fn hash_prefix() -> Seq<char> {
    seq!['\'', 's', 'h', 'a', '2', '5', '6', '-']
}

/// The CSP hash source for one block content: `'sha256-<base64 digest>'`,
/// the digest taken over the content's UTF-8 bytes.
pub open spec fn hash_token(c: Seq<char>) -> Seq<char> {
    hash_prefix() + base64_of(sha256_of(encode_utf8(c))) + seq!['\'']
}

/// The CSP hash sources of a list of block contents, in order.
pub open spec fn hash_list(contents: Seq<Seq<char>>) -> Seq<Seq<char>> {
    contents.map_values(|c: Seq<char>| hash_token(c))
}

/// Does any of the contents still hold a raw newline?
pub open spec fn any_content_has_newline(cs: Seq<Seq<char>>) -> bool {
    exists|k: int| 0 <= k < cs.len() && cs[k].contains('\n')
}

/// Law: the hash list carries exactly one entry per inline block, in
/// document order, and each entry is the block content's own hash token.
pub proof fn lemma_one_hash_per_block(contents: Seq<Seq<char>>)
    ensures
        hash_list(contents).len() == contents.len(),
        forall|k: int|
            0 <= k < contents.len() ==> hash_list(contents)[k] == hash_token(#[trigger] contents[k]),
{
}

fn hash_token_exec(content: &Vec<char>) -> (r: Vec<char>)
    ensures
        r@ == hash_token(content@),
{
    let s = chars_string(content);
    let bytes = s.as_str().as_bytes();
    assert(bytes@ == encode_utf8(content@));
    let d = sha256(bytes);
    let b64 = base64_encode(&d);
    let bv = str_chars(b64.as_str());
    let mut out: Vec<char> = vec!['\'', 's', 'h', 'a', '2', '5', '6', '-'];
    assert(out@ =~= hash_prefix());
    push_all(&mut out, &bv);
    out.push('\'');
    assert(out@ =~= hash_token(content@));
    out
}

fn hashes_of_contents(contents: &Vec<Vec<char>>) -> (r: Vec<String>)
    ensures
        r.deep_view() == hash_list(contents.deep_view()),
{
    let ghost cs = contents.deep_view();
    let mut out: Vec<String> = Vec::new();
    let mut i: usize = 0;
    while i < contents.len()
        invariant
            0 <= i <= contents@.len(),
            cs == contents.deep_view(),
            cs.len() == contents@.len(),
            out.deep_view() =~= hash_list(cs).take(i as int),
        decreases contents@.len() - i,
    {
        let h = hash_token_exec(&contents[i]);
        let hs = chars_string(&h);
        let ghost prev = out.deep_view();
        out.push(hs);
        proof {
            assert(contents@[i as int].deep_view() =~= contents@[i as int]@);
            assert(cs[i as int] == contents@[i as int]@);
            assert(hs@ == hash_token(cs[i as int]));
            assert(hash_list(cs)[i as int] == hash_token(cs[i as int]));
            assert(out.deep_view() =~= prev + seq![hs@]);
            assert(hash_list(cs).take(i + 1) =~= hash_list(cs).take(i as int) + seq![
                hash_list(cs)[i as int],
            ]);
        }
        i = i + 1;
    }
    assert(hash_list(cs).take(cs.len() as int) =~= hash_list(cs));
    out
}

fn any_newline_exec(contents: &Vec<Vec<char>>) -> (r: bool)
    ensures
        r == any_content_has_newline(contents.deep_view()),
{
    let ghost cs = contents.deep_view();
    let mut i: usize = 0;
    while i < contents.len()
        invariant
            0 <= i <= contents@.len(),
            cs == contents.deep_view(),
            cs.len() == contents@.len(),
            forall|m: int| 0 <= m < i ==> !cs[m].contains('\n'),
        decreases contents@.len() - i,
    {
        assert(cs[i as int] =~= contents@[i as int]@);
        if contains_char(&contents[i], '\n') {
            assert(cs[i as int].contains('\n'));
            return true;
        }
        i = i + 1;
    }
    false
}

/// The blocks wrapped one after the other, each as `<name>` content `</name>`,
/// with no separator.
pub open spec fn wrapped(items: Seq<Seq<char>>, tag: Tag) -> Seq<char>
    decreases items.len(),
{
    if items.len() == 0 {
        Seq::empty()
    } else {
        wrapped(items.drop_last(), tag) + open_text(tag.spec_name()) + items.last() + close_text(
            tag.spec_name(),
        )
    }
}

/// Wraps each string of `list` in an opening and closing `tag` pair and
/// concatenates the results in order.
pub fn create_tags(list: &Vec<String>, tag: Tag) -> (r: String)
    ensures
        r@ == wrapped(list.deep_view(), tag),
{
    let name = tag.name_vec();
    let ghost dv = list.deep_view();
    let mut out: Vec<char> = Vec::new();
    let mut i: usize = 0;
    while i < list.len()
        invariant
            0 <= i <= list@.len(),
            name@ == tag.spec_name(),
            dv == list.deep_view(),
            dv.len() == list@.len(),
            out@ =~= wrapped(dv.take(i as int), tag),
        decreases list@.len() - i,
    {
        let item = str_chars(list[i].as_str());
        let ghost prev = out@;
        out.push('<');
        push_all(&mut out, &name);
        out.push('>');
        push_all(&mut out, &item);
        out.push('<');
        out.push('/');
        push_all(&mut out, &name);
        out.push('>');
        proof {
            assert(dv[i as int] == list@[i as int].deep_view());
            assert(item@ == dv[i as int]);
            assert(dv.take(i + 1).drop_last() =~= dv.take(i as int));
            assert(dv.take(i + 1).last() == dv[i as int]);
            assert(out@ =~= prev + open_text(tag.spec_name()) + dv[i as int] + close_text(
                tag.spec_name(),
            ));
        }
        i = i + 1;
    }
    assert(dv.take(dv.len() as int) =~= dv);
    chars_string(&out)
}

/// Rewrites every inline block of kind `tag` in `text`, replacing each
/// content with its minified form (or the error marker) between canonical
/// tags.
pub fn minimize(text: &String, tag: Tag) -> (r: String)
    ensures
        r@ == rewrite_blocks(text@, tag),
{
    let chars = str_chars(text.as_str());
    let out = rewrite_blocks_exec(&chars, tag);
    chars_string(&out)
}

/// The CSP hash source of every inline block of kind `tag` in `text`,
/// in document order, one per block, duplicates kept.
pub fn get_hashes(text: &String, tag: Tag) -> (r: Vec<String>)
    ensures
        r.deep_view() == hash_list(block_contents(text@, tag)),
{
    let chars = str_chars(text.as_str());
    let contents = block_contents_exec(&chars, tag);
    hashes_of_contents(&contents)
}

/// The compiled text before wrapping: placeholders injected, then script
/// and style blocks minified in place, in that order.
pub open spec fn compiled_pipeline(html: Seq<char>, css_text: Seq<char>, js_text: Seq<char>) -> Seq<
    char,
> {
    rewrite_blocks(rewrite_blocks(inject(html, css_text, js_text), Tag::Script), Tag::Style)
}

fn initialize_text(html: &Vec<char>, css_text: &Vec<char>, js_text: &Vec<char>) -> (r: (
    Vec<char>,
    Vec<String>,
    Vec<String>,
    bool,
))
    ensures
        ({
            let t = compiled_pipeline(html@, css_text@, js_text@);
            r.0@ == t && r.1.deep_view() == hash_list(block_contents(t, Tag::Script))
                && r.2.deep_view() == hash_list(block_contents(t, Tag::Style)) && r.3 == (
            any_content_has_newline(block_contents(t, Tag::Script)) || any_content_has_newline(
                block_contents(t, Tag::Style),
            ))
        }),
{
    let injected = inject_exec(html, css_text, js_text);
    let pass1 = rewrite_blocks_exec(&injected, Tag::Script);
    let pass2 = rewrite_blocks_exec(&pass1, Tag::Style);
    let js_list = block_contents_exec(&pass2, Tag::Script);
    let css_list = block_contents_exec(&pass2, Tag::Style);
    let js_hashes = hashes_of_contents(&js_list);
    let css_hashes = hashes_of_contents(&css_list);
    let has_newline = if any_newline_exec(&js_list) {
        true
    } else {
        any_newline_exec(&css_list)
    };
    (pass2, js_hashes, css_hashes, has_newline)
}

/// The style and script block lists a build was given, empty when absent.
pub open spec fn opt_blocks(o: Option<Vec<String>>) -> Seq<Seq<char>> {
    match o {
        Some(v) => v.deep_view(),
        None => Seq::empty(),
    }
}

/// The fully compiled text: blocks wrapped and injected at their
/// placeholders, then script and style blocks minified in place.
pub open spec fn compiled_text(html: Seq<char>, css: Seq<Seq<char>>, js: Seq<Seq<char>>) -> Seq<
    char,
> {
    compiled_pipeline(html, wrapped(css, Tag::Style), wrapped(js, Tag::Script))
}

/// A compiled template: the assembled HTML text, and whether a raw newline
/// survived inside an inline block (which breaks hash-based CSP matching).
#[derive(Clone)]
pub struct Template {
    pub text: String,
    pub has_unminified_newline: bool,
}

impl Template {
    /// Compiles `text` with the given style and script blocks and returns
    /// the template together with the script and style hash lists, in that
    /// order.
    pub fn new(text: String, css: Option<Vec<String>>, js: Option<Vec<String>>) -> (r: Result<
        (Template, Vec<String>, Vec<String>),
        GenericError,
    >)
        ensures
            r is Ok,
            ({
                let t = compiled_text(text@, opt_blocks(css), opt_blocks(js));
                r->Ok_0.0.text@ == t && r->Ok_0.1.deep_view() == hash_list(
                    block_contents(t, Tag::Script),
                ) && r->Ok_0.2.deep_view() == hash_list(block_contents(t, Tag::Style))
                    && r->Ok_0.0.has_unminified_newline == (any_content_has_newline(
                    block_contents(t, Tag::Script),
                ) || any_content_has_newline(block_contents(t, Tag::Style)))
            }),
    {
        let css_text = match &css {
            Some(c) => create_tags(c, Tag::Style),
            None => String::new(),
        };
        let js_text = match &js {
            Some(j) => create_tags(j, Tag::Script),
            None => String::new(),
        };
        proof {
            if css is None {
                assert(wrapped(opt_blocks(css), Tag::Style) =~= Seq::<char>::empty());
            }
            if js is None {
                assert(wrapped(opt_blocks(js), Tag::Script) =~= Seq::<char>::empty());
            }
            assert(css_text@ =~= wrapped(opt_blocks(css), Tag::Style));
            assert(js_text@ =~= wrapped(opt_blocks(js), Tag::Script));
        }
        let html_chars = str_chars(text.as_str());
        let css_chars = str_chars(css_text.as_str());
        let js_chars = str_chars(js_text.as_str());
        let (compiled, js_hashes, css_hashes, has_newline) = initialize_text(
            &html_chars,
            &css_chars,
            &js_chars,
        );
        let tpl = Template {
            text: chars_string(&compiled),
            has_unminified_newline: has_newline,
        };
        Ok((tpl, js_hashes, css_hashes))
    }

    /// Substitutes the request's host for every `{{ host }}` token, then the
    /// user agent for every `{{ user-agent }}` token; everything else stays.
    pub fn render(&self, host: String, ua: String) -> (r: String)
        ensures
            r@ == replace_all(replace_all(self.text@, host_token(), host@), ua_token(), ua@),
    {
        let text = str_chars(self.text.as_str());
        let hpat = host_token_vec();
        let hrep = str_chars(host.as_str());
        let t1 = replace_all_exec(&text, &hpat, &hrep);
        let upat = ua_token_vec();
        let urep = str_chars(ua.as_str());
        let t2 = replace_all_exec(&t1, &upat, &urep);
        chars_string(&t2)
    }
}

/// The literal token the render step replaces with the request's host.
pub open spec fn host_token() -> Seq<char> {
    seq!['{', '{', ' ', 'h', 'o', 's', 't', ' ', '}', '}']
}

/// The literal token the render step replaces with the request's user agent.
pub open spec fn ua_token() -> Seq<char> {
    seq!['{', '{', ' ', 'u', 's', 'e', 'r', '-', 'a', 'g', 'e', 'n', 't', ' ', '}', '}']
}

/// Does the suffix of `s` from `i` hold a placeholder whose name is `css`
/// or `js` up to ASCII case?
pub open spec fn has_recognized_from(s: Seq<char>, i: int) -> bool
    decreases s.len() - i,
{
    if i < 0 || i >= s.len() {
        false
    } else {
        match placeholder_at(s, i) {
            Some((end, name)) => lower(name) =~= css_name() || lower(name) =~= js_name()
                || has_recognized_from(s, end),
            None => has_recognized_from(s, i + 1),
        }
    }
}

/// Law: injection changes nothing in a text without a `{{ css }}` or
/// `{{ js }}` placeholder; in particular every unrelated placeholder token
/// comes through exactly as it stands.
pub proof fn lemma_inject_leaves_unrelated(s: Seq<char>, css: Seq<char>, js: Seq<char>)
    requires
        !has_recognized_from(s, 0),
    ensures
        inject(s, css, js) == s,
{
    lemma_inject_identity_from(s, css, js, 0);
    assert(s.subrange(0, s.len() as int) =~= s);
}

proof fn lemma_inject_identity_from(s: Seq<char>, css: Seq<char>, js: Seq<char>, i: int)
    requires
        0 <= i <= s.len(),
        !has_recognized_from(s, i),
    ensures
        inject_from(s, css, js, i) =~= s.subrange(i, s.len() as int),
    decreases s.len() - i,
{
    if i >= s.len() {
    } else {
        match placeholder_at(s, i) {
            Some((end, name)) => {
                let j = end - 3;
                assert(find_from(s, close_marker(), i + 3) == Some(j));
                crate::text::lemma_find_from_in_range(s, close_marker(), i + 3, j);
                assert(match_at(s, close_marker(), j));
                assert(i + 6 <= end <= s.len());
                lemma_inject_identity_from(s, css, js, end);
                assert(substitute(name, css, js) == open_marker() + name + close_marker());
                assert(s.subrange(i, i + 3) =~= open_marker());
                assert(s.subrange(j, j + 3) =~= close_marker());
                assert(substitute(name, css, js) =~= s.subrange(i, end)) by {
                    assert(name == s.subrange(i + 3, j));
                    assert forall|m: int| 0 <= m < end - i implies (open_marker() + name
                        + close_marker())[m] == s.subrange(i, end)[m] by {
                        if m < 3 {
                            assert(s.subrange(i, i + 3)[m] == s[i + m]);
                        } else if m < end - i - 3 {
                            assert(name[m - 3] == s[i + m]);
                        } else {
                            assert(s.subrange(j, j + 3)[m - (j - i)] == s[i + m]);
                        }
                    }
                }
                assert(inject_from(s, css, js, i) =~= s.subrange(i, end) + s.subrange(
                    end,
                    s.len() as int,
                ));
            },
            None => {
                lemma_inject_identity_from(s, css, js, i + 1);
                assert(seq![s[i]] + s.subrange(i + 1, s.len() as int) =~= s.subrange(
                    i,
                    s.len() as int,
                ));
            },
        }
    }
}

/// Does the suffix of `s` from `i` hold an inline block of kind `tag`?
pub open spec fn has_block_from(s: Seq<char>, tag: Tag, i: int) -> bool
    decreases s.len() - i,
{
    if i < 0 || i >= s.len() {
        false
    } else {
        block_at(s, tag.spec_name(), i) is Some || has_block_from(s, tag, i + 1)
    }
}

/// Law: rewriting changes nothing in a text without an inline block of the
/// given kind.
pub proof fn lemma_rewrite_leaves_blockless(s: Seq<char>, tag: Tag)
    requires
        !has_block_from(s, tag, 0),
    ensures
        rewrite_blocks(s, tag) == s,
{
    lemma_rewrite_identity_from(s, tag, 0);
    assert(s.subrange(0, s.len() as int) =~= s);
}

proof fn lemma_rewrite_identity_from(s: Seq<char>, tag: Tag, i: int)
    requires
        0 <= i <= s.len(),
        !has_block_from(s, tag, i),
    ensures
        rewrite_blocks_from(s, tag, i) =~= s.subrange(i, s.len() as int),
    decreases s.len() - i,
{
    if i < s.len() {
        lemma_rewrite_identity_from(s, tag, i + 1);
        assert(seq![s[i]] + s.subrange(i + 1, s.len() as int) =~= s.subrange(i, s.len() as int));
    }
}

/// Law: a build whose text holds no `{{ css }}` or `{{ js }}` placeholder
/// and no inline script or style block leaves that text exactly as it
/// stands, whatever blocks were supplied.
pub proof fn lemma_build_leaves_plain_text(
    html: Seq<char>,
    css: Seq<Seq<char>>,
    js: Seq<Seq<char>>,
)
    requires
        !has_recognized_from(html, 0),
        !has_block_from(html, Tag::Script, 0),
        !has_block_from(html, Tag::Style, 0),
    ensures
        compiled_text(html, css, js) == html,
{
    lemma_inject_leaves_unrelated(html, wrapped(css, Tag::Style), wrapped(js, Tag::Script));
    lemma_rewrite_leaves_blockless(html, Tag::Script);
    lemma_rewrite_leaves_blockless(html, Tag::Style);
}

fn host_token_vec() -> (r: Vec<char>)
    ensures
        r@ == host_token(),
{
    let v: Vec<char> = vec!['{', '{', ' ', 'h', 'o', 's', 't', ' ', '}', '}'];
    assert(v@ =~= host_token());
    v
}

fn ua_token_vec() -> (r: Vec<char>)
    ensures
        r@ == ua_token(),
{
    let v: Vec<char> = vec!['{', '{', ' ', 'u', 's', 'e', 'r', '-', 'a', 'g', 'e', 'n', 't', ' ',
        '}', '}'];
    assert(v@ =~= ua_token());
    v
}

} // verus!


//! The Content-Security-Policy header value built from the hash lists.

use vstd::prelude::*;

use crate::text::{push_all, str_chars};

verus! {

/// Hash sources joined with single spaces, or `'none'` when there are none.
pub open spec fn joined_sources(hs: Seq<Seq<char>>) -> Seq<char>
    decreases hs.len(),
{
    if hs.len() == 0 {
        "'none'"@
    } else if hs.len() == 1 {
        hs[0]
    } else {
        joined_sources(hs.drop_last()) + seq![' '] + hs.last()
    }
}

/// The policy served with every maintenance response: a blanket
/// inline-allow when `unsafe_inline` is set, and the per-block hash lists
/// otherwise, script hashes first.
pub open spec fn csp_value(
    unsafe_inline: bool,
    js_hashes: Seq<Seq<char>>,
    css_hashes: Seq<Seq<char>>,
) -> Seq<char> {
    if unsafe_inline {
        "default-src 'self'; script-src 'unsafe-inline'; style-src 'unsafe-inline';"@
    } else {
        "default-src 'self'; script-src "@ + joined_sources(js_hashes) + "; style-src "@
            + joined_sources(css_hashes) + ";"@
    }
}

fn join_sources_exec(hashes: &Vec<String>) -> (r: Vec<char>)
    ensures
        r@ == joined_sources(hashes.deep_view()),
{
    let ghost dv = hashes.deep_view();
    if hashes.len() == 0 {
        return str_chars("'none'");
    }
    let mut out: Vec<char> = str_chars(hashes[0].as_str());
    proof {
        assert(dv[0] == hashes@[0]@);
        assert(dv.take(1) =~= seq![dv[0]]);
        assert(joined_sources(dv.take(1)) == dv.take(1)[0]);
    }
    let mut i: usize = 1;
    while i < hashes.len()
        invariant
            1 <= i <= hashes@.len(),
            dv == hashes.deep_view(),
            dv.len() == hashes@.len(),
            out@ =~= joined_sources(dv.take(i as int)),
        decreases hashes@.len() - i,
    {
        let ghost prev = out@;
        out.push(' ');
        let h = str_chars(hashes[i].as_str());
        push_all(&mut out, &h);
        proof {
            assert(dv[i as int] == hashes@[i as int]@);
            assert(dv.take(i + 1).drop_last() =~= dv.take(i as int));
            assert(dv.take(i + 1).last() == dv[i as int]);
            assert(dv.take(i + 1).len() == i + 1 >= 2);
            assert(out@ =~= prev + seq![' '] + dv[i as int]);
        }
        i = i + 1;
    }
    assert(dv.take(dv.len() as int) =~= dv);
    out
}

/// Builds the Content-Security-Policy header value from the two hash
/// lists; with `unsafe_inline` the hashes are ignored and inline content
/// is allowed outright.
pub fn build_csp(unsafe_inline: bool, js_hashes: &Vec<String>, css_hashes: &Vec<String>) -> (r:
    String)
    ensures
        r@ == csp_value(unsafe_inline, js_hashes.deep_view(), css_hashes.deep_view()),
{
    if unsafe_inline {
        return "default-src 'self'; script-src 'unsafe-inline'; style-src 'unsafe-inline';".to_owned();
    }
    let mut out: Vec<char> = str_chars("default-src 'self'; script-src ");
    let js = join_sources_exec(js_hashes);
    push_all(&mut out, &js);
    let mid = str_chars("; style-src ");
    push_all(&mut out, &mid);
    let css = join_sources_exec(css_hashes);
    push_all(&mut out, &css);
    out.push(';');
    proof {
        assert(seq![';'] =~= ";"@) by {
            reveal_strlit(";");
        }
        assert(out@ =~= csp_value(false, js_hashes.deep_view(), css_hashes.deep_view()));
    }
    crate::text::chars_string(&out)
}

} // verus!

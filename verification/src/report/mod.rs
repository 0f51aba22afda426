//! What a report is made of, and the escaping of text for HTML.

use vstd::prelude::*;
use vstd::std_specs::iter::IteratorSpec;
use vstd::string::*;
use crate::verify::bundle::EvidenceBundle;

verus! {

/// The data of a report: the bundle and its reproducibility hash.
#[derive(Clone, Debug)]
pub struct ReportData {
    pub bundle: EvidenceBundle,
    pub reproducibility_hash_sha256: String,
}

/// How one character stands in HTML text: the five characters with a
/// meaning of their own as entities, any other as itself.
pub open spec fn html_escape(c: char) -> Seq<char> {
    if c == '&' {
        "&amp;"@
    } else if c == '<' {
        "&lt;"@
    } else if c == '>' {
        "&gt;"@
    } else if c == '"' {
        "&quot;"@
    } else if c == '\'' {
        "&#39;"@
    } else {
        seq![c]
    }
}

/// The characters of `s`, each as it stands in HTML text.
pub open spec fn html_escaped(s: Seq<char>) -> Seq<char>
    decreases s.len(),
{
    if s.len() == 0 {
        Seq::empty()
    } else {
        html_escaped(s.drop_last()) + html_escape(s.last())
    }
}

/// Escaping leaves none of `<`, `>`, `"` and `'` behind.
pub proof fn lemma_html_escaped_is_inert(s: Seq<char>)
    ensures
        forall|i: int|
            0 <= i < html_escaped(s).len() ==> {
                let c = #[trigger] html_escaped(s)[i];
                c != '<' && c != '>' && c != '"' && c != '\''
            },
    decreases s.len(),
{
    reveal_strlit("&amp;");
    reveal_strlit("&lt;");
    reveal_strlit("&gt;");
    reveal_strlit("&quot;");
    reveal_strlit("&#39;");
    if s.len() > 0 {
        lemma_html_escaped_is_inert(s.drop_last());
        let head = html_escaped(s.drop_last());
        let tail = html_escape(s.last());
        assert forall|i: int| 0 <= i < html_escaped(s).len() implies {
            let c = #[trigger] html_escaped(s)[i];
            c != '<' && c != '>' && c != '"' && c != '\''
        } by {
            if i < head.len() {
                assert(html_escaped(s)[i] == head[i]);
            } else {
                assert(html_escaped(s)[i] == tail[i - head.len()]);
            }
        }
    }
}

/// Escapes text for HTML.
pub fn escape_html(s: &str) -> (r: String)
    ensures
        r@ == html_escaped(s@),
{
    broadcast use {vstd::string::axiom_spec_iter, vstd::string::next_postcondition};

    let mut out = String::new();
    let mut rest = s.chars();
    let ghost mut done: int = 0;
    assert(s@.take(0) =~= Seq::<char>::empty());
    assert(s@.skip(0) =~= s@);
    loop
        invariant
            0 <= done <= s@.len(),
            rest.remaining() == s@.skip(done),
            out@ == html_escaped(s@.take(done)),
        ensures
            out@ == html_escaped(s@),
        decreases s@.len() - done,
    {
        let ghost before = rest;
        match rest.next() {
            Some(c) => {
                proof {
                    assert(before.remaining().len() > 0);
                    assert(c == s@[done]);
                    assert(s@.skip(done).drop_first() =~= s@.skip(done + 1));
                    assert(s@.take(done + 1).drop_last() =~= s@.take(done));
                    assert(s@.take(done + 1).last() == c);
                    done = done + 1;
                }
                if c == '&' {
                    out.append("&amp;");
                } else if c == '<' {
                    out.append("&lt;");
                } else if c == '>' {
                    out.append("&gt;");
                } else if c == '"' {
                    out.append("&quot;");
                } else if c == '\'' {
                    out.append("&#39;");
                } else {
                    push_char(&mut out, c);
                }
            },
            None => {
                proof {
                    assert(before.remaining().len() == 0);
                    assert(s@.take(done) =~= s@);
                }
                break;
            },
        }
    }
    out
}

/// Escapes JSON text that is embedded in HTML.
pub fn escape_json_in_html(s: &str) -> (r: String)
    ensures
        r@ == html_escaped(s@),
{
    escape_html(s)
}

/// Calls `String::push`: `c` is appended.
#[verifier::external_body]
fn push_char(out: &mut String, c: char)
    ensures
        final(out)@ == old(out)@.push(c),
{
    out.push(c);
}

} // verus!

//! The decisions of a tool served by an MCP server: whether a call carries
//! arguments, and what its reply becomes.

use vstd::prelude::*;

use crate::text::{
    chars_eq_str, concat_str, push_all, str_chars, string_from_chars, trim_chars, trim_seq,
};

verus! {

/// The text parts of a reply, joined by line feeds.
pub open spec fn joined_texts(parts: Seq<Option<String>>) -> Seq<char>
    decreases parts.len(),
{
    if parts.len() == 0 {
        Seq::empty()
    } else {
        let before = joined_texts(parts.drop_last());
        match parts.last() {
            Some(t) => if has_text(parts.drop_last()) {
                before + seq!['\n'] + t@
            } else {
                t@
            },
            None => before,
        }
    }
}

/// Some part carries text.
pub open spec fn has_text(parts: Seq<Option<String>>) -> bool {
    exists|i: int| 0 <= i < parts.len() && (#[trigger] parts[i]) is Some
}

proof fn lemma_no_text(parts: Seq<Option<String>>)
    requires
        !has_text(parts),
    ensures
        joined_texts(parts) == Seq::<char>::empty(),
    decreases parts.len(),
{
    if parts.len() > 0 {
        let d = parts.drop_last();
        assert(!has_text(d)) by {
            if has_text(d) {
                let k = choose|k: int| 0 <= k < d.len() && (#[trigger] d[k]) is Some;
                assert(parts[k] == d[k]);
            }
        }
        assert(parts[parts.len() - 1] is None);
        lemma_no_text(d);
    }
}

/// The text of a tool reply: the text parts (`None` stands for a part that
/// is not text), joined by line feeds.
pub fn extract_text(parts: &[Option<String>]) -> (r: String)
    ensures
        r@ == joined_texts(parts@),
{
    let mut out: Vec<char> = Vec::new();
    let mut any = false;
    let mut i: usize = 0;
    while i < parts.len()
        invariant
            i <= parts@.len(),
            out@ == joined_texts(parts@.take(i as int)),
            any == has_text(parts@.take(i as int)),
        decreases parts@.len() - i,
    {
        let ghost pre = parts@.take(i as int);
        let ghost next = parts@.take(i + 1);
        assert(next.drop_last() =~= pre);
        assert(next.last() == parts@[i as int]);
        let ghost old_out = out@;
        proof {
            if !has_text(pre) {
                lemma_no_text(pre);
            }
        }
        assert(has_text(pre) ==> has_text(next)) by {
            if has_text(pre) {
                let k = choose|k: int| 0 <= k < pre.len() && (#[trigger] pre[k]) is Some;
                assert(next[k] == pre[k]);
            }
        }
        match &parts[i] {
            Some(t) => {
                if any {
                    out.push('\n');
                }
                let cs = str_chars(t.as_str());
                push_all(&mut out, cs.as_slice());
                any = true;
                proof {
                    assert(next[i as int] is Some);
                }
            },
            None => {
                proof {
                    assert forall|k: int| 0 <= k < next.len() && (#[trigger] next[k]) is Some implies k
                        < pre.len() && pre[k] is Some by {
                        if k < pre.len() {
                            assert(pre[k] == next[k]);
                        }
                    }
                    if has_text(pre) {
                        let k = choose|k: int| 0 <= k < pre.len() && (#[trigger] pre[k]) is Some;
                        assert(next[k] == pre[k]);
                    }
                }
            },
        }
        i = i + 1;
        proof {
            match parts@[i - 1] {
                Some(t) => {
                    assert(joined_texts(next) == if has_text(pre) {
                        joined_texts(pre) + seq!['\n'] + t@
                    } else {
                        t@
                    });
                },
                None => {
                    assert(joined_texts(next) == joined_texts(pre));
                },
            }
            assert(out@ =~= joined_texts(next));
        }
    }
    assert(parts@.take(parts@.len() as int) =~= parts@);
    string_from_chars(out.as_slice())
}

/// Whether a call sends the model's arguments: not when they are blank or
/// the empty object `{}`.
pub fn sends_arguments(json_input: &str) -> (r: bool)
    ensures
        r == !(trim_seq(json_input@).len() == 0 || trim_seq(json_input@) == "{}"@),
{
    let cs = str_chars(json_input);
    let t = trim_chars(cs.as_slice());
    !(t.len() == 0 || chars_eq_str(t.as_slice(), "{}"))
}

/// What a tool call returns: the reply's text, or an error carrying that
/// text when the server flagged the reply as an error.
pub fn tool_call_outcome(is_error: Option<bool>, text: String) -> (r: Result<String, String>)
    ensures
        is_error == Some(true) ==> (r matches Err(e) && e@ == "MCP tool error: "@ + text@),
        is_error != Some(true) ==> r == Ok::<String, String>(text),
{
    if is_error == Some(true) {
        Err(concat_str("MCP tool error: ", text.as_str()))
    } else {
        Ok(text)
    }
}

/// The error of a call that did not reach the server.
pub fn tool_call_failure(error: &str) -> (r: String)
    ensures
        r@ == "MCP tool call failed: "@ + error@,
{
    concat_str("MCP tool call failed: ", error)
}

} // verus!

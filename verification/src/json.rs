//! JSON encoding and decoding at the protocol's edges. The JSON
//! encoder/decoder itself is an external collaborator; its results are
//! named here, and the array framing that the protocol defines on top of
//! it is built and verified in this module.

use vstd::prelude::*;

verus! {

/// The JSON string literal (surrounding quotes and all escaping included)
/// that encodes the characters `s`; a function of the characters alone.
pub uninterp spec fn json_quote(s: Seq<char>) -> Seq<char>;

/// The list of strings encoded by `b` when `b` is a JSON array of strings,
/// `None` when it is not; a function of the bytes alone.
pub uninterp spec fn json_msgs(b: Seq<u8>) -> Option<Seq<Seq<char>>>;

/// The string encoded by `b` when `b` is a single JSON string literal,
/// `None` when it is not; a function of the bytes alone.
pub uninterp spec fn json_msg(b: Seq<u8>) -> Option<Seq<char>>;

/// Relies on `serde_json::to_string` applied to a `&str`: it returns the
/// JSON string literal encoding the characters, and cannot fail for a
/// string value.
#[verifier::external_body]
pub(crate) fn json_quote_str(s: &str) -> (r: String)
    ensures
        r@ == json_quote(s@),
{
    serde_json::to_string(s).unwrap()
}

/// Relies on `serde_json::from_slice::<Vec<String>>`: it succeeds exactly
/// on the byte sequences that encode a JSON array of strings, and then
/// returns those strings in array order.
#[verifier::external_body]
pub(crate) fn parse_msg_array(buf: &[u8]) -> (r: Option<Vec<String>>)
    ensures
        r is Some <==> json_msgs(buf@) is Some,
        r matches Some(v) ==> json_msgs(buf@) matches Some(m) && v.deep_view() == m,
{
    match serde_json::from_slice::<Vec<String>>(buf) {
        Ok(v) => Some(v),
        Err(_) => None,
    }
}

/// Relies on `serde_json::from_slice::<String>`: it succeeds exactly on the
/// byte sequences that encode a single JSON string, and then returns that
/// string.
#[verifier::external_body]
pub(crate) fn parse_msg_string(buf: &[u8]) -> (r: Option<String>)
    ensures
        r is Some <==> json_msg(buf@) is Some,
        r matches Some(s) ==> json_msg(buf@) matches Some(m) && s@ == m,
{
    match serde_json::from_slice::<String>(buf) {
        Ok(s) => Some(s),
        Err(_) => None,
    }
}

/// The comma-separated JSON-quoted elements of `msgs`, in order.
pub open spec fn json_array_items(msgs: Seq<Seq<char>>) -> Seq<char>
    decreases msgs.len(),
{
    if msgs.len() == 0 {
        Seq::<char>::empty()
    } else if msgs.len() == 1 {
        json_quote(msgs[0])
    } else {
        json_array_items(msgs.drop_last()) + ","@ + json_quote(msgs.last())
    }
}

/// The JSON array literal whose elements encode `msgs`, in order.
pub open spec fn json_array_of(msgs: Seq<Seq<char>>) -> Seq<char> {
    "["@ + json_array_items(msgs) + "]"@
}

proof fn lemma_items_step(msgs: Seq<Seq<char>>, i: int)
    requires
        0 < i < msgs.len(),
    ensures
        json_array_items(msgs.take(i + 1)) == json_array_items(msgs.take(i)) + ","@
            + json_quote(msgs[i]),
{
    let pre = msgs.take(i + 1);
    assert(pre.drop_last() =~= msgs.take(i));
    assert(pre.last() == msgs[i]);
}

/// Builds the JSON array literal for `msgs` by quoting each element and
/// joining with commas: exactly `json_array_of` of the messages.
pub fn encode_msg_array(msgs: &Vec<String>) -> (r: String)
    ensures
        r@ == json_array_of(msgs.deep_view()),
{
    let ghost model: Seq<Seq<char>> = msgs.deep_view();
    let mut out: String = String::from_str("[");
    let mut i: usize = 0;
    while i < msgs.len()
        invariant
            i <= msgs.len(),
            model == msgs.deep_view(),
            model.len() == msgs.len(),
            forall|j: int| 0 <= j < msgs.len() ==> model[j] == #[trigger] msgs[j]@,
            out@ == "["@ + json_array_items(model.take(i as int)),
        decreases msgs.len() - i,
    {
        if i > 0 {
            out.append(",");
        }
        let q = json_quote_str(msgs[i].as_str());
        out.append(q.as_str());
        proof {
            if i == 0 {
                assert(model.take(1).drop_last() =~= Seq::<Seq<char>>::empty());
                assert(model.take(1).len() == 1);
                assert(model.take(1)[0] == model[0]);
                assert(out@ =~= "["@ + json_array_items(model.take(1)));
            } else {
                lemma_items_step(model, i as int);
                assert(out@ =~= "["@ + json_array_items(model.take(i + 1)));
            }
        }
        i = i + 1;
    }
    out.append("]");
    proof {
        assert(model.take(msgs.len() as int) =~= model);
        assert(out@ =~= "["@ + json_array_items(model) + "]"@);
    }
    out
}

} // verus!

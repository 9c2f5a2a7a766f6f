//! The magic comment evaluator: which leading comments select a dynamic
//! import.
//!
//! A block comment is read as the body of an object: its text is put
//! between braces and parsed leniently. It is retained where the object
//! holds a truthy value under one of the configured keys. Without
//! configured keys no comment is retained, whatever it holds, so no dynamic
//! import is recorded.
use crate::ast::{Comment, CommentKind};
use crate::comments::Comments;
use crate::config::name_set;
use crate::json::{
    json_of, json_seq, jsonc_parse, nonzero, parse_jsonc, value_as_bool, value_as_str,
    value_float_bits, value_get, value_is_array, value_is_object, Json,
};
use crate::seqs::{lemma_somes_push, somes};
use vstd::prelude::*;
use vstd::string::*;

verus! {

/// Whether a value counts as set: `true`, a number other than zero, a
/// string that is not empty, any array and any object.
pub open spec fn truthy(j: Json) -> bool {
    match j {
        Json::Null => false,
        Json::Bool(b) => b,
        Json::Number(n) => nonzero(n),
        Json::String(s) => s.len() > 0,
        Json::Array(_) => true,
        Json::Object(_) => true,
    }
}

/// Whether a value is an object with a truthy value under the key.
pub open spec fn key_truthy(j: Json, key: Seq<char>) -> bool {
    j is Object && j->Object_0.contains_key(key) && truthy(j->Object_0[key])
}

/// Whether a value is an object with a truthy value under one of the keys.
pub open spec fn selects(keys: Set<Seq<char>>, j: Json) -> bool {
    exists|key: Seq<char>| keys.contains(key) && #[trigger] key_truthy(j, key)
}

/// The text of a comment between braces.
pub open spec fn braced(text: Seq<char>) -> Seq<char> {
    seq!['{'] + text + seq!['}']
}

/// The value that a comment is retained with, if it is retained: it is a
/// block comment, its text between braces parses, and the keys select what
/// it parses to.
pub open spec fn comment_value(keys: Set<Seq<char>>, comment: Comment) -> Option<Json> {
    if comment.kind == CommentKind::Block {
        match jsonc_parse(braced(comment.text@)) {
            Some(j) => if selects(keys, j) {
                Some(j)
            } else {
                None
            },
            None => None,
        }
    } else {
        None
    }
}

/// The value that an attachment is retained with at a position.
pub open spec fn attachment_value(keys: Set<Seq<char>>, entry: (u32, Comment), pos: u32) -> Option<
    Json,
> {
    if entry.0 == pos {
        comment_value(keys, entry.1)
    } else {
        None
    }
}

/// The values of the comments before a position that are retained, in the
/// order of the comments.
pub open spec fn magic_values(keys: Set<Seq<char>>, entries: Seq<(u32, Comment)>, pos: u32) -> Seq<
    Json,
> {
    somes(Seq::new(entries.len(), |i: int| attachment_value(keys, entries[i], pos)))
}

/// Whether a value counts as set.
pub fn is_truthy(value: &serde_json::Value) -> (r: bool)
    ensures
        r == truthy(json_of(*value)),
{
    match value_as_bool(value) {
        Some(b) => b,
        None => match value_float_bits(value) {
            Some(bits) => !(bits == 0 || bits == 0x8000_0000_0000_0000),
            None => match value_as_str(value) {
                Some(s) => !s.is_empty(),
                None => value_is_array(value) || value_is_object(value),
            },
        },
    }
}

/// Whether a value is an object with a truthy value under one of the keys.
pub fn has_truthy_key(keys: &Vec<String>, value: &serde_json::Value) -> (r: bool)
    ensures
        r == selects(name_set(keys@), json_of(*value)),
{
    let mut i: usize = 0;
    while i < keys.len()
        invariant
            i <= keys.len(),
            forall|j: int| 0 <= j < i ==> !key_truthy(json_of(*value), (#[trigger] keys@[j])@),
        decreases keys.len() - i,
    {
        match value_get(value, keys[i].as_str()) {
            Some(found) => {
                if is_truthy(found) {
                    assert(key_truthy(json_of(*value), keys@[i as int]@));
                    assert(name_set(keys@).contains(keys@[i as int]@));
                    return true;
                }
            },
            None => {},
        }
        i = i + 1;
    }
    proof {
        if selects(name_set(keys@), json_of(*value)) {
            let key = choose|key: Seq<char>|
                name_set(keys@).contains(key) && #[trigger] key_truthy(json_of(*value), key);
            let j = choose|j: int| 0 <= j < keys@.len() && (#[trigger] keys@[j])@ == key;
            assert(!key_truthy(json_of(*value), keys@[j]@));
        }
    }
    false
}

/// The value that a comment is retained with, if it is retained.
pub fn magic_comment_value(keys: &Vec<String>, comment: &Comment) -> (r: Option<serde_json::Value>)
    ensures
        r is Some <==> comment_value(name_set(keys@), *comment) is Some,
        r is Some ==> json_of(r->0) == comment_value(name_set(keys@), *comment)->0,
{
    match comment.kind {
        CommentKind::Block => {
            proof {
                reveal_strlit("{");
                reveal_strlit("}");
            }
            let mut text = String::from_str("{");
            text.append(comment.text.as_str());
            text.append("}");
            assert(text@ =~= braced(comment.text@));
            match parse_jsonc(text.as_str()) {
                Some(value) => {
                    if has_truthy_key(keys, &value) {
                        Some(value)
                    } else {
                        None
                    }
                },
                None => None,
            }
        },
        CommentKind::Line => None,
    }
}

/// The values of the comments before a position that are retained, in the
/// order of the comments; `None` where none is retained.
pub fn magic_comments_at(keys: &Vec<String>, comments: &Comments, pos: u32) -> (r: Option<
    Vec<serde_json::Value>,
>)
    ensures
        r is Some <==> magic_values(name_set(keys@), comments@, pos).len() > 0,
        r is Some ==> json_seq(r->0@) == magic_values(name_set(keys@), comments@, pos),
{
    let ghost slots = Seq::new(comments@.len(), |i: int| attachment_value(name_set(keys@), comments@[i], pos));
    let mut result: Vec<serde_json::Value> = Vec::new();
    let n = comments.len();
    let mut i: usize = 0;
    while i < n
        invariant
            n == comments@.len(),
            i <= n,
            slots == Seq::new(comments@.len(), |i: int| attachment_value(name_set(keys@), comments@[i], pos)),
            json_seq(result@) == somes(slots.take(i as int)),
        decreases n - i,
    {
        proof {
            assert(slots.take(i + 1) =~= slots.take(i as int).push(slots[i as int]));
            lemma_somes_push(slots.take(i as int), slots[i as int]);
        }
        if comments.pos_at(i) == pos {
            match magic_comment_value(keys, comments.comment_at(i)) {
                Some(value) => {
                    let ghost before = result@;
                    result.push(value);
                    assert(json_seq(result@) =~= json_seq(before).push(json_of(value)));
                },
                None => {},
            }
        }
        i = i + 1;
    }
    assert(slots.take(i as int) =~= slots);
    if result.len() > 0 {
        Some(result)
    } else {
        None
    }
}

} // verus!

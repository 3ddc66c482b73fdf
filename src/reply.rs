//! The shape of what the stream transport hands back from a group read, as
//! plain values, and the extraction of the delivered entry from it.
use vstd::prelude::*;
use vstd::utf8::{decode_utf8, valid_utf8};

use crate::codec::{texts, FromParams};
use crate::error::UtilError;

verus! {

/// A transport reply value. Sequences (arrays and sets) are `List`; byte
/// strings are `Bulk`; every other kind of value is `Other`.
#[derive(Debug)]
pub enum Reply {
    Nil,
    Bulk(Vec<u8>),
    List(Vec<Reply>),
    Other,
}

/// The items of a reply read as a sequence: a list's items, none for `Nil`.
pub open spec fn as_items(r: Reply) -> Option<Seq<Reply>> {
    match r {
        Reply::List(v) => Some(v@),
        Reply::Nil => Some(Seq::empty()),
        _ => None,
    }
}

/// Item `i` of a reply read as a sequence.
pub open spec fn item(r: Option<Reply>, i: int) -> Option<Reply> {
    match r {
        Some(x) => match as_items(x) {
            Some(s) => if 0 <= i < s.len() {
                Some(s[i])
            } else {
                None
            },
            None => None,
        },
        None => None,
    }
}

/// A group read answers `[[topic, [[id, [field, value, ...]], ...]], ...]`:
/// the first entry of the first topic.
pub open spec fn first_entry(r: Reply) -> Option<Reply> {
    item(item(item(Some(r), 0), 1), 0)
}

/// The texts of the byte strings among `items` that are valid UTF-8, in order.
pub open spec fn utf8_texts(items: Seq<Reply>) -> Seq<Seq<char>>
    decreases items.len(),
{
    if items.len() == 0 {
        Seq::empty()
    } else {
        let rest = utf8_texts(items.drop_last());
        match items.last() {
            Reply::Bulk(b) => if valid_utf8(b@) {
                rest.push(decode_utf8(b@))
            } else {
                rest
            },
            _ => rest,
        }
    }
}

/// The field/value list of the delivered entry, if the reply has one.
pub open spec fn entry_fields_spec(r: Reply) -> Option<Seq<Seq<char>>> {
    match item(first_entry(r), 1) {
        Some(f) => match as_items(f) {
            Some(items) => Some(utf8_texts(items)),
            None => None,
        },
        None => None,
    }
}

/// The identifier of the delivered entry: its text where it is a byte
/// string (empty where those bytes are not UTF-8), none otherwise.
pub open spec fn entry_id_spec(r: Reply) -> Option<Seq<char>> {
    match item(first_entry(r), 0) {
        Some(Reply::Bulk(b)) => Some(
            if valid_utf8(b@) {
                decode_utf8(b@)
            } else {
                Seq::empty()
            },
        ),
        _ => None,
    }
}

/// Relies on String::from_utf8: the text of the bytes when they are valid
/// UTF-8, an error otherwise.
#[verifier::external_body]
fn utf8_text(b: &Vec<u8>) -> (r: Option<String>)
    ensures
        r is Some <==> valid_utf8(b@),
        r is Some ==> r->0@ == decode_utf8(b@),
{
    String::from_utf8(b.clone()).ok()
}

fn items_of(r: &Reply) -> (out: Option<&Vec<Reply>>)
    ensures
        match out {
            Some(v) => as_items(*r) == Some(v@),
            None => !(*r is List),
        },
{
    match r {
        Reply::List(v) => Some(v),
        _ => None,
    }
}

/// Item `i` of `r` read as a sequence.
fn item_of(r: &Reply, i: usize) -> (out: Option<&Reply>)
    ensures
        match out {
            Some(x) => item(Some(*r), i as int) == Some(*x),
            None => item(Some(*r), i as int) is None,
        },
{
    match r {
        Reply::List(v) => if i < v.len() {
            Some(&v[i])
        } else {
            None
        },
        _ => None,
    }
}

fn first_entry_of(r: &Reply) -> (out: Option<&Reply>)
    ensures
        match out {
            Some(x) => first_entry(*r) == Some(*x),
            None => first_entry(*r) is None,
        },
{
    match item_of(r, 0) {
        Some(a) => match item_of(a, 1) {
            Some(b) => item_of(b, 0),
            None => None,
        },
        None => None,
    }
}

/// The field/value list of the entry that a group read delivered: the
/// UTF-8 byte strings of its field list, in order.
pub fn entry_fields(reply: &Reply) -> (r: Option<Vec<String>>)
    ensures
        match r {
            Some(p) => entry_fields_spec(*reply) == Some(texts(p@)),
            None => entry_fields_spec(*reply) is None,
        },
{
    let entry = match first_entry_of(reply) {
        Some(e) => e,
        None => return None,
    };
    let fields = match item_of(entry, 1) {
        Some(f) => f,
        None => return None,
    };
    if let Reply::Nil = fields {
        let empty: Vec<String> = Vec::new();
        assert(texts(empty@) =~= utf8_texts(Seq::empty()));
        return Some(empty);
    }
    let items = match items_of(fields) {
        Some(v) => v,
        None => return None,
    };
    let mut out: Vec<String> = Vec::new();
    let mut i: usize = 0;
    while i < items.len()
        invariant
            i <= items.len(),
            texts(out@) == utf8_texts(items@.subrange(0, i as int)),
        decreases items.len() - i,
    {
        assert(items@.subrange(0, i + 1).drop_last() =~= items@.subrange(0, i as int));
        if let Reply::Bulk(b) = &items[i] {
            match utf8_text(b) {
                Some(s) => {
                    out.push(s);
                },
                None => {},
            }
        }
        assert(texts(out@) =~= utf8_texts(items@.subrange(0, i + 1)));
        i = i + 1;
    }
    assert(items@.subrange(0, items.len() as int) =~= items@);
    Some(out)
}

/// The identifier of the entry that a group read delivered.
pub fn entry_id(reply: &Reply) -> (r: Option<String>)
    ensures
        match r {
            Some(id) => entry_id_spec(*reply) == Some(id@),
            None => entry_id_spec(*reply) is None,
        },
{
    let entry = match first_entry_of(reply) {
        Some(e) => e,
        None => return None,
    };
    match item_of(entry, 0) {
        Some(Reply::Bulk(b)) => match utf8_text(b) {
            Some(s) => Some(s),
            None => Some(String::new()),
        },
        _ => None,
    }
}

/// The typed message of the entry that a group read delivered: a reply
/// without an entry is refused as `RedisStreamParams`, an entry that does not
/// describe a message as `MalformedParams`.
pub fn parse_message<M: FromParams>(reply: &Reply) -> (r: Result<M, UtilError>)
    ensures
        match entry_fields_spec(*reply) {
            None => r is Err && r->Err_0 is RedisStreamParams,
            Some(p) => match M::from_params_spec(p) {
                Some(m) => r is Ok && r->Ok_0@ == m,
                None => r is Err && r->Err_0 is MalformedParams,
            },
        },
{
    match entry_fields(reply) {
        Some(params) => M::from_params(params),
        None => Err(UtilError::RedisStreamParams),
    }
}

} // verus!

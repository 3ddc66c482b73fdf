//! Subscribers: what a subscription worker is bound to, and the message
//! types they receive.
use vstd::prelude::*;

use crate::codec::{
    decode_str, find_field, is_json_quote, json_quote, json_string, lemma_unquote_quote,
    lookup, lookup_from, names_known, names_within, texts, unquote, FromParams, ToParams,
};
use crate::error::UtilError;
use crate::reply::{entry_fields_spec, parse_message, Reply};

verus! {

/// A handler bound to one topic through one consumer group.
pub trait Subscriber {
    type MessageType: FromParams + ToParams;

    spec fn topic_spec(&self) -> Seq<char>;

    spec fn group_name_spec(&self) -> Seq<char>;

    fn topic(&self) -> (r: String)
        ensures
            r@ == self.topic_spec(),
    ;

    fn group_name(&self) -> (r: String)
        ensures
            r@ == self.group_name_spec(),
    ;

    /// The message of the entry that a group read delivered (see
    /// `reply::parse_message`).
    fn parse_message(&self, message: &Reply) -> (r: Result<Self::MessageType, UtilError>)
        ensures
            match entry_fields_spec(*message) {
                None => r is Err && r->Err_0 is RedisStreamParams,
                Some(p) => match Self::MessageType::from_params_spec(p) {
                    Some(m) => r is Ok && r->Ok_0@ == m,
                    None => r is Err && r->Err_0 is MalformedParams,
                },
            },
    {
        parse_message(message)
    }
}

pub open spec fn attr1_name() -> Seq<char> {
    seq!['a', 't', 't', 'r', '1']
}

/// A message with one string field.
#[derive(Debug, Clone, Default)]
pub struct TestMessage {
    pub attr1: String,
}

impl View for TestMessage {
    type V = Seq<char>;

    open spec fn view(&self) -> Seq<char> {
        self.attr1@
    }
}

fn attr1_field() -> (r: String)
    ensures
        r@ == attr1_name(),
{
    proof {
        reveal_strlit("attr1");
    }
    String::from_str("attr1")
}

impl ToParams for TestMessage {
    open spec fn params_spec(m: Seq<char>) -> Seq<Seq<char>> {
        seq![attr1_name(), json_quote(m)]
    }

    fn to_params(&self) -> (r: Vec<String>) {
        let mut params: Vec<String> = Vec::new();
        params.push(attr1_field());
        params.push(json_string(self.attr1.as_str()));
        assert(texts(params@) =~= seq![attr1_name(), json_quote(self@)]);
        params
    }
}

impl FromParams for TestMessage {
    open spec fn from_params_spec(p: Seq<Seq<char>>) -> Option<Seq<char>> {
        match lookup(p, attr1_name()) {
            Some(t) => if names_known(p, seq![attr1_name()]) && is_json_quote(t) {
                Some(unquote(t))
            } else {
                None
            },
            None => None,
        }
    }

    fn from_params(params: Vec<String>) -> (r: Result<Self, UtilError>) {
        let name = attr1_field();
        let known: Vec<String> = vec![name.clone()];
        assert(texts(known@) =~= seq![attr1_name()]);
        if !names_within(&params, &known) {
            return Err(UtilError::MalformedParams);
        }
        match find_field(&params, &name) {
            Some(i) => match decode_str(&params[i]) {
                Some(v) => Ok(TestMessage { attr1: v }),
                None => Err(UtilError::MalformedParams),
            },
            None => Err(UtilError::MalformedParams),
        }
    }
}

/// Decoding the list that a test message is written as gives the message back.
pub proof fn lemma_test_message_round_trip(m: Seq<char>)
    ensures
        TestMessage::from_params_spec(TestMessage::params_spec(m)) == Some(m),
{
    let p = TestMessage::params_spec(m);
    assert(lookup_from(p, attr1_name(), 0) == Some(json_quote(m)));
    assert(seq![attr1_name()][0] == p[0]);
    assert(names_known(p, seq![attr1_name()]));
    lemma_unquote_quote(m);
}

/// A subscriber that only receives test messages, on the test topic.
#[derive(Debug, Clone, Copy, Default)]
pub struct TestSubscriber {}

pub open spec fn test_topic() -> Seq<char> {
    seq!['T', 'e', 's', 't', 'S', 't', 'r', 'e', 'a', 'm']
}

pub open spec fn test_group() -> Seq<char> {
    seq!['T', 'e', 's', 't', 'G', 'r', 'o', 'u', 'p']
}

impl Subscriber for TestSubscriber {
    type MessageType = TestMessage;

    open spec fn topic_spec(&self) -> Seq<char> {
        test_topic()
    }

    open spec fn group_name_spec(&self) -> Seq<char> {
        test_group()
    }

    fn topic(&self) -> (r: String) {
        proof {
            reveal_strlit("TestStream");
        }
        String::from_str("TestStream")
    }

    fn group_name(&self) -> (r: String) {
        proof {
            reveal_strlit("TestGroup");
        }
        String::from_str("TestGroup")
    }
}

/// The registered test subscribers.
pub fn subscribers() -> (r: Vec<TestSubscriber>)
    ensures
        r@.len() == 1,
{
    vec![TestSubscriber {}]
}

} // verus!

//! The broker: publishing encoded messages onto topic streams, and choosing
//! which registered subscribers a process runs.
use vstd::prelude::*;

use crate::codec::{decimal_i64, i64_text, parse_i64, parse_i64_spec, texts, ToParams};
use crate::error::UtilError;
use crate::subscriber::Subscriber;
use crate::text::{split_commas, split_commas_text};
use crate::transport::{append_spec, EntryId, MemoryStream};

verus! {

/// Retained entries per topic when no bound is configured.
pub const DEFAULT_STREAM_LEN: i64 = 1000;

/// The topics of a watch list: an absent list is an empty one.
pub open spec fn watch_list(w: Option<Seq<char>>) -> Seq<Seq<char>> {
    match w {
        Some(t) => split_commas(t),
        None => split_commas(Seq::empty()),
    }
}

/// The topic names of a watch list.
pub fn watched_topics(watch_topics: &Option<String>) -> (r: Vec<String>)
    ensures
        texts(r@) == watch_list(crate::codec::opt_view(*watch_topics)),
{
    match watch_topics {
        Some(t) => split_commas_text(t.as_str()),
        None => {
            proof {
                reveal_strlit("");
            }
            split_commas_text("")
        },
    }
}

/// Whether `topic` is on the watch list.
pub fn is_watched(watch_topics: &Option<String>, topic: &String) -> (r: bool)
    ensures
        r == watch_list(crate::codec::opt_view(*watch_topics)).contains(topic@),
{
    let pieces = watched_topics(watch_topics);
    let ghost pv = texts(pieces@);
    let mut i: usize = 0;
    while i < pieces.len()
        invariant
            i <= pieces.len(),
            pv == texts(pieces@),
            pv == watch_list(crate::codec::opt_view(*watch_topics)),
            forall|k: int| 0 <= k < i ==> pv[k] != topic@,
        decreases pieces.len() - i,
    {
        if pieces[i] == *topic {
            assert(pv[i as int] == topic@);
            assert(pv.contains(topic@));
            return true;
        }
        i = i + 1;
    }
    false
}

/// Whether subscriber `s` is on the watch list `w`.
pub open spec fn watched_spec<S: Subscriber>(w: Option<Seq<char>>, s: S) -> bool {
    watch_list(w).contains(s.topic_spec())
}

/// The subscribers of `all` whose topic is on the watch list, in order.
/// Those not on it are never started.
pub fn select_subscribers<S: Subscriber>(watch_topics: &Option<String>, all: Vec<S>) -> (r: Vec<S>)
    ensures
        r@ == all@.filter(|s: S| watched_spec(crate::codec::opt_view(*watch_topics), s)),
{
    let ghost w = crate::codec::opt_view(*watch_topics);
    let ghost pred: spec_fn(S) -> bool = |s: S| watched_spec(w, s);
    let ghost orig = all@;
    let n = all.len();
    let mut rest = all;
    let mut out: Vec<S> = Vec::new();
    let mut k: usize = 0;
    while rest.len() > 0
        invariant
            k + rest@.len() == orig.len(),
            orig.len() == n,
            w == crate::codec::opt_view(*watch_topics),
            rest@ == orig.subrange(k as int, orig.len() as int),
            pred == (|s: S| watched_spec(w, s)),
            out@ == orig.subrange(0, k as int).filter(pred),
        decreases rest.len(),
    {
        let s = rest.remove(0);
        let topic = s.topic();
        assert(orig.subrange(0, k + 1).drop_last() =~= orig.subrange(0, k as int));
        assert(orig.subrange(0, k + 1).last() == s);
        let ghost sv = s;
        let keep = is_watched(watch_topics, &topic);
        assert(keep == pred(sv));
        let ghost pre = orig.subrange(0, k + 1);
        proof {
            reveal(Seq::filter);
        }
        assert(pre.filter(pred) == if pred(pre.last()) {
            pre.drop_last().filter(pred).push(pre.last())
        } else {
            pre.drop_last().filter(pred)
        });
        if keep {
            out.push(s);
        }
        assert(out@ =~= orig.subrange(0, k + 1).filter(pred));
        k = k + 1;
        assert(rest@ =~= orig.subrange(k as int, orig.len() as int));
    }
    assert(orig.subrange(0, k as int) =~= orig);
    out
}

/// The stream settings of the broker: how many entries a topic keeps.
#[derive(Debug, Clone, Copy)]
pub struct RedisStream {
    pub max_len: i64,
}

impl RedisStream {
    /// Settings from the transport configuration: `configured` says whether
    /// the transport is configured at all, `stream_len` is the configured
    /// bound, which falls back to the default where absent or not a number.
    pub fn new(configured: bool, stream_len: &Option<String>) -> (r: Result<RedisStream, UtilError>)
        ensures
            !configured ==> r is Err && r->Err_0 is RedisNotConfigured,
            configured ==> r is Ok && r->Ok_0.max_len == match crate::codec::opt_view(*stream_len) {
                Some(t) => match parse_i64_spec(t) {
                    Some(v) => v,
                    None => DEFAULT_STREAM_LEN,
                },
                None => DEFAULT_STREAM_LEN,
            },
    {
        if !configured {
            return Err(UtilError::RedisNotConfigured);
        }
        let max_len = match stream_len {
            Some(t) => match parse_i64(t.as_str()) {
                Some(v) => v,
                None => DEFAULT_STREAM_LEN,
            },
            None => DEFAULT_STREAM_LEN,
        };
        Ok(RedisStream { max_len })
    }

    /// The arguments of the append command that publishes `message` on
    /// `topic`: approximate trimming to the bound, a transport-assigned
    /// identifier, then the message's field/value list.
    pub fn publish_command<M: ToParams>(&self, topic: &String, message: &M) -> (r: Vec<String>)
        ensures
            texts(r@) == seq![topic@, seq!['M', 'A', 'X', 'L', 'E', 'N'], seq!['~'], decimal_i64(self.max_len), seq!['*']]
                + M::params_spec(message@),
    {
        proof {
            reveal_strlit("MAXLEN");
            reveal_strlit("~");
            reveal_strlit("*");
        }
        let mut args: Vec<String> = Vec::new();
        args.push(topic.clone());
        args.push(String::from_str("MAXLEN"));
        args.push(String::from_str("~"));
        args.push(i64_text(self.max_len));
        args.push(String::from_str("*"));
        let ghost head = texts(args@);
        assert(head =~~= seq![topic@, seq!['M', 'A', 'X', 'L', 'E', 'N'], seq!['~'], decimal_i64(self.max_len), seq!['*']]);
        let params = message.to_params();
        let mut i: usize = 0;
        while i < params.len()
            invariant
                i <= params.len(),
                args@.len() == 5 + i,
                head.len() == 5,
                forall|k: int| 0 <= k < 5 ==> (#[trigger] args@[k])@ == head[k],
                forall|k: int| 5 <= k < 5 + i ==> (#[trigger] args@[k])@ == params@[k - 5]@,
            decreases params.len() - i,
        {
            args.push(params[i].clone());
            i = i + 1;
        }
        assert(texts(args@) =~= head + texts(params@));
        args
    }
}

/// Publishes `message` on an in-memory topic at time `now`: its field/value
/// list becomes a new entry.
pub fn publish<M: ToParams>(stream: &mut MemoryStream, now: u64, message: &M) -> (r: Option<EntryId>)
    requires
        old(stream).wf(),
    ensures
        final(stream).wf(),
        match append_spec(old(stream)@, now, M::params_spec(message@)) {
            Some((s, id)) => r == Some(id) && final(stream)@ == s,
            None => r is None && final(stream)@ == old(stream)@,
        },
{
    stream.append(now, message.to_params())
}

} // verus!

//! What the cache asks of its key-value store, and a model of how a store
//! answers.
//!
//! The cache never talks to a store itself. It hands out a [`Request`]; the
//! caller performs it and hands the answer back.

use vstd::prelude::*;

verus! {

/// One primitive operation of a key-value store.
#[derive(Debug, Clone)]
pub enum Request {
    /// Read the record under `key`; the answer is the record, or nothing.
    Get { key: String },
    /// Write `value` under `key`, whatever was there, to expire after
    /// `expiry` seconds where one is given.
    Put { key: String, value: String, expiry: Option<u64> },
    /// Remove the record under `key`, if there is one.
    Delete { key: String },
    /// List up to `page_size` keys that match `pattern`, going on from
    /// `cursor`; the answer is the next cursor and the keys.
    EnumeratePage { cursor: String, pattern: String, page_size: u32 },
    /// Read the records under `keys`; the answer has one slot for each key,
    /// in their order.
    MultiGet { keys: Vec<String> },
    /// Read the store's setting `parameter`.
    ConfigGet { parameter: String },
    /// Set the store's setting `parameter` to `value`.
    ConfigSet { parameter: String, value: String },
}

/// A request as plain text and numbers.
pub enum RequestView {
    Get { key: Seq<char> },
    Put { key: Seq<char>, value: Seq<char>, expiry: Option<u64> },
    Delete { key: Seq<char> },
    EnumeratePage { cursor: Seq<char>, pattern: Seq<char>, page_size: u32 },
    MultiGet { keys: Seq<Seq<char>> },
    ConfigGet { parameter: Seq<char> },
    ConfigSet { parameter: Seq<char>, value: Seq<char> },
}

/// The texts of a list of strings, in their order.
pub open spec fn texts(strings: Seq<String>) -> Seq<Seq<char>> {
    Seq::new(strings.len(), |i: int| strings[i]@)
}

impl View for Request {
    type V = RequestView;

    open spec fn view(&self) -> RequestView {
        match *self {
            Request::Get { key } => RequestView::Get { key: key@ },
            Request::Put { key, value, expiry } => RequestView::Put {
                key: key@,
                value: value@,
                expiry,
            },
            Request::Delete { key } => RequestView::Delete { key: key@ },
            Request::EnumeratePage { cursor, pattern, page_size } => RequestView::EnumeratePage {
                cursor: cursor@,
                pattern: pattern@,
                page_size,
            },
            Request::MultiGet { keys } => RequestView::MultiGet { keys: texts(keys@) },
            Request::ConfigGet { parameter } => RequestView::ConfigGet { parameter: parameter@ },
            Request::ConfigSet { parameter, value } => RequestView::ConfigSet {
                parameter: parameter@,
                value: value@,
            },
        }
    }
}

/// The view of a request that may be absent.
pub open spec fn view_of(request: Option<Request>) -> Option<RequestView> {
    match request {
        Some(request) => Some(request@),
        None => None,
    }
}

/// The texts of a list of answers, in their order: for each nothing, or
/// the text that was found.
pub open spec fn answer_texts(answers: Seq<Option<String>>) -> Seq<Option<Seq<char>>> {
    Seq::new(
        answers.len(),
        |i: int|
            match answers[i] {
                Some(text) => Some(text@),
                None => None,
            },
    )
}

/// The texts of a list of pairs, in their order.
pub open spec fn pair_texts(pairs: Seq<(String, String)>) -> Seq<(Seq<char>, Seq<char>)> {
    Seq::new(pairs.len(), |i: int| (pairs[i].0@, pairs[i].1@))
}

/// Each of the first `count` keys that was answered with a record, beside
/// that record, in the order of the keys.
pub open spec fn present_among(
    keys: Seq<Seq<char>>,
    answers: Seq<Option<Seq<char>>>,
    count: nat,
) -> Seq<(Seq<char>, Seq<char>)>
    decreases count,
{
    if count == 0 {
        Seq::empty()
    } else {
        let earlier = present_among(keys, answers, (count - 1) as nat);
        match answers[count - 1] {
            Some(record) => earlier.push((keys[count - 1], record)),
            None => earlier,
        }
    }
}

/// Each key that was answered with a record, beside that record. A key
/// without an answer, and an answer without a key, count for nothing.
pub open spec fn present_pairs_of(keys: Seq<Seq<char>>, answers: Seq<Option<Seq<char>>>) -> Seq<
    (Seq<char>, Seq<char>),
> {
    present_among(
        keys,
        answers,
        if keys.len() <= answers.len() {
            keys.len()
        } else {
            answers.len()
        },
    )
}

/// What a store holds under `keys`, given its answer to a `Get` of each in
/// turn: the keys that have a record, each beside its record.
pub fn present_pairs(keys: &Vec<String>, answers: &Vec<Option<String>>) -> (pairs: Vec<
    (String, String),
>)
    ensures
        pair_texts(pairs@) == present_pairs_of(texts(keys@), answer_texts(answers@)),
{
    let count = if keys.len() <= answers.len() {
        keys.len()
    } else {
        answers.len()
    };
    let mut pairs: Vec<(String, String)> = Vec::new();
    assert(pair_texts(pairs@) =~= Seq::empty());
    for i in 0..count
        invariant
            count <= keys.len(),
            count <= answers.len(),
            pair_texts(pairs@) == present_among(texts(keys@), answer_texts(answers@), i as nat),
    {
        let ghost before = pairs@;
        match &answers[i] {
            Some(record) => {
                pairs.push((keys[i].clone(), record.clone()));
                assert(pair_texts(pairs@) =~= pair_texts(before).push((keys[i as int]@, record@)));
            },
            None => {},
        }
    }
    pairs
}

/// The records of a store: the text held under each key that has one.
pub type Records = Map<Seq<char>, Seq<char>>;

/// The records of a store once it has performed `request`. Reading changes
/// nothing; expiry is the store's own affair and is not modelled.
pub open spec fn records_after(records: Records, request: RequestView) -> Records {
    match request {
        RequestView::Put { key, value, expiry } => records.insert(key, value),
        RequestView::Delete { key } => records.remove(key),
        _ => records,
    }
}

/// The store's answer to a `Get` of `key`.
pub open spec fn record_at(records: Records, key: Seq<char>) -> Option<Seq<char>> {
    if records.dom().contains(key) {
        Some(records[key])
    } else {
        None
    }
}

} // verus!

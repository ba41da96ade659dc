//! The store's eviction policy: the requests that read and set it, and the
//! reading of the store's answer.

use crate::store::{texts, Request, RequestView};
use crate::types::EvictionPolicy;
use vstd::prelude::*;
use vstd::string::StringExecFns;

verus! {

/// The name of the store's setting that holds its eviction policy.
pub open spec fn policy_parameter() -> Seq<char> {
    "maxmemory-policy"@
}

/// The request that sets the store's eviction policy. The store's answer
/// says nothing; the policy in force is read with [`get_eviction_policy`].
pub fn set_eviction_policy(eviction_policy: EvictionPolicy) -> (request: Request)
    ensures
        request@ == (RequestView::ConfigSet {
            parameter: policy_parameter(),
            value: eviction_policy.name(),
        }),
{
    Request::ConfigSet {
        parameter: String::from_str("maxmemory-policy"),
        value: eviction_policy.to_string(),
    }
}

/// The request that reads the store's eviction policy. Its answer goes to
/// [`eviction_policy_of`].
pub fn get_eviction_policy() -> (request: Request)
    ensures
        request@ == (RequestView::ConfigGet { parameter: policy_parameter() }),
{
    Request::ConfigGet { parameter: String::from_str("maxmemory-policy") }
}

/// The policy in force, as the store's answer spells it: the words of the
/// answer, one after the other with nothing between them.
pub fn eviction_policy_of(answer: &Vec<String>) -> (policy: String)
    ensures
        policy@ == texts(answer@).flatten(),
{
    let mut policy = String::new();
    let ghost words = texts(answer@);
    assert(words.take(0) =~= Seq::<Seq<char>>::empty());
    for i in 0..answer.len()
        invariant
            words == texts(answer@),
            policy@ == words.take(i as int).flatten(),
    {
        proof {
            words.take(i as int).lemma_flatten_push(words[i as int]);
            assert(words.take(i + 1) =~= words.take(i as int).push(words[i as int]));
        }
        policy.append(answer[i].as_str());
    }
    assert(words.take(answer.len() as int) =~= words);
    policy
}

} // verus!

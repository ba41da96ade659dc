//! The names a key is made of, and the eviction policies a store knows.

use vstd::prelude::*;
use vstd::string::StringExecFns;

verus! {

/// The category of an entity: the second segment of a key.
#[derive(Debug, Clone)]
pub struct Prefix(pub String);

/// The identifier of one entity within its category: the third segment of a key.
#[derive(Debug, Clone)]
pub struct Key(pub String);

/// The tenant or application that owns a key: its first segment.
#[derive(Debug, Clone)]
pub struct Namespace(pub String);

impl View for Prefix {
    type V = Seq<char>;

    open spec fn view(&self) -> Seq<char> {
        self.0@
    }
}

impl View for Key {
    type V = Seq<char>;

    open spec fn view(&self) -> Seq<char> {
        self.0@
    }
}

impl View for Namespace {
    type V = Seq<char>;

    open spec fn view(&self) -> Seq<char> {
        self.0@
    }
}

/// What a store does with its keys once its memory is full.
#[derive(Debug, Clone, Copy, PartialEq, Eq, Structural)]
pub enum EvictionPolicy {
    NoEviction,
    AllKeysLRU,
    AllKeysLFU,
    AllKeysRandom,
    VolatileLRU,
    VolatileLFU,
    VolatileRandom,
    VolatileTTL,
}

impl EvictionPolicy {
    /// The word by which the store knows this policy.
    pub open spec fn name(self) -> Seq<char> {
        match self {
            EvictionPolicy::NoEviction => "noeviction"@,
            EvictionPolicy::AllKeysLRU => "allkeys-lru"@,
            EvictionPolicy::AllKeysLFU => "allkeys-lfu"@,
            EvictionPolicy::AllKeysRandom => "allkeys-random"@,
            EvictionPolicy::VolatileLRU => "volatile-lru"@,
            EvictionPolicy::VolatileLFU => "volatile-lfu"@,
            EvictionPolicy::VolatileRandom => "volatile-random"@,
            EvictionPolicy::VolatileTTL => "volatile-ttl"@,
        }
    }

    /// The policy's name as the store spells it.
    pub fn to_string(&self) -> (text: String)
        ensures
            text@ == self.name(),
    {
        match self {
            EvictionPolicy::NoEviction => String::from_str("noeviction"),
            EvictionPolicy::AllKeysLRU => String::from_str("allkeys-lru"),
            EvictionPolicy::AllKeysLFU => String::from_str("allkeys-lfu"),
            EvictionPolicy::AllKeysRandom => String::from_str("allkeys-random"),
            EvictionPolicy::VolatileLRU => String::from_str("volatile-lru"),
            EvictionPolicy::VolatileLFU => String::from_str("volatile-lfu"),
            EvictionPolicy::VolatileRandom => String::from_str("volatile-random"),
            EvictionPolicy::VolatileTTL => String::from_str("volatile-ttl"),
        }
    }
}

impl Default for EvictionPolicy {
    fn default() -> (policy: EvictionPolicy)
        ensures
            policy == EvictionPolicy::NoEviction,
    {
        EvictionPolicy::NoEviction
    }
}

} // verus!

//! The key scheme: one store key for each namespace, prefix and identifier.

use crate::types::{Key, Namespace, Prefix};
use vstd::prelude::*;
use vstd::string::StringExecFns;

verus! {

/// The character that parts the segments of a key.
pub open spec fn delimiter() -> char {
    ':'
}

/// The key under which the store holds the entity `identifier` of the
/// category `prefix` in `namespace`: the three segments, a delimiter between
/// each two.
pub open spec fn qualified_key(
    namespace: Seq<char>,
    prefix: Seq<char>,
    identifier: Seq<char>,
) -> Seq<char> {
    namespace + seq![delimiter()] + prefix + seq![delimiter()] + identifier
}

/// No character of `segment` is the delimiter.
pub open spec fn colon_free(segment: Seq<char>) -> bool {
    forall|i: int| 0 <= i < segment.len() ==> segment[i] != delimiter()
}

/// Builds the store key of an entity. Nothing is checked: a segment that
/// holds the delimiter goes into the key as it is.
pub fn compose_key(namespace: &Namespace, prefix: &Prefix, identifier: &Key) -> (key: String)
    ensures
        key@ == qualified_key(namespace@, prefix@, identifier@),
{
    proof {
        reveal_strlit(":");
    }
    let mut key = namespace.0.clone();
    key.append(":");
    key.append(prefix.0.as_str());
    key.append(":");
    key.append(identifier.0.as_str());
    assert(":"@ =~= seq![delimiter()]);
    key
}

/// The first delimiter of a key closes its first segment, whenever that
/// segment holds none: two keys that agree have first segments of one length.
proof fn lemma_first_segment(a: Seq<char>, rest_a: Seq<char>, b: Seq<char>, rest_b: Seq<char>)
    requires
        colon_free(a),
        colon_free(b),
        a + seq![delimiter()] + rest_a == b + seq![delimiter()] + rest_b,
    ensures
        a == b,
        rest_a == rest_b,
{
    let left = a + seq![delimiter()] + rest_a;
    let right = b + seq![delimiter()] + rest_b;
    if a.len() < b.len() {
        assert(left[a.len() as int] == delimiter());
        assert(right[a.len() as int] == b[a.len() as int]);
    } else if b.len() < a.len() {
        assert(right[b.len() as int] == delimiter());
        assert(left[b.len() as int] == a[b.len() as int]);
    }
    assert(a.len() == b.len());
    assert forall|i: int| 0 <= i < a.len() implies a[i] == b[i] by {
        assert(left[i] == a[i]);
        assert(right[i] == b[i]);
    }
    assert(a =~= b);
    assert(left.len() == right.len());
    assert forall|i: int| 0 <= i < rest_a.len() implies rest_a[i] == rest_b[i] by {
        assert(left[a.len() + 1 + i] == rest_a[i]);
        assert(right[b.len() + 1 + i] == rest_b[i]);
    }
    assert(rest_a =~= rest_b);
}

/// Keys do not collide: where no segment holds the delimiter, two triples
/// that give the same key are the same triple.
pub proof fn lemma_qualified_key_injective(
    namespace_a: Seq<char>,
    prefix_a: Seq<char>,
    identifier_a: Seq<char>,
    namespace_b: Seq<char>,
    prefix_b: Seq<char>,
    identifier_b: Seq<char>,
)
    requires
        colon_free(namespace_a),
        colon_free(prefix_a),
        colon_free(namespace_b),
        colon_free(prefix_b),
        qualified_key(namespace_a, prefix_a, identifier_a) == qualified_key(
            namespace_b,
            prefix_b,
            identifier_b,
        ),
    ensures
        namespace_a == namespace_b,
        prefix_a == prefix_b,
        identifier_a == identifier_b,
{
    let tail_a = prefix_a + seq![delimiter()] + identifier_a;
    let tail_b = prefix_b + seq![delimiter()] + identifier_b;
    assert(qualified_key(namespace_a, prefix_a, identifier_a) =~= namespace_a + seq![delimiter()]
        + tail_a);
    assert(qualified_key(namespace_b, prefix_b, identifier_b) =~= namespace_b + seq![delimiter()]
        + tail_b);
    lemma_first_segment(namespace_a, tail_a, namespace_b, tail_b);
    lemma_first_segment(prefix_a, identifier_a, prefix_b, identifier_b);
}

} // verus!

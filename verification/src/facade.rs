//! The entity store facade: single entities saved, read and removed under
//! the keys of one namespace.
//!
//! Each operation is a request for the caller to perform; reading has a
//! second half, which judges the store's answer.

use crate::codec::{decode, encode, CodecError, Json};
use crate::key::{colon_free, compose_key, lemma_qualified_key_injective, qualified_key};
use crate::store::{record_at, records_after, Records, Request, RequestView};
use crate::types::{Key, Namespace, Prefix};
use vstd::prelude::*;

verus! {

/// The request that reads the entity `identifier` of `prefix` in `namespace`.
pub open spec fn get_request(
    namespace: Seq<char>,
    prefix: Seq<char>,
    identifier: Seq<char>,
) -> RequestView {
    RequestView::Get { key: qualified_key(namespace, prefix, identifier) }
}

/// The request that saves `record` as that entity.
pub open spec fn put_request(
    namespace: Seq<char>,
    prefix: Seq<char>,
    identifier: Seq<char>,
    record: Seq<char>,
    expiry: Option<u64>,
) -> RequestView {
    RequestView::Put { key: qualified_key(namespace, prefix, identifier), value: record, expiry }
}

/// The request that removes that entity.
pub open spec fn delete_request(
    namespace: Seq<char>,
    prefix: Seq<char>,
    identifier: Seq<char>,
) -> RequestView {
    RequestView::Delete { key: qualified_key(namespace, prefix, identifier) }
}

/// The entities of one namespace.
#[derive(Debug, Clone)]
pub struct EntityStore {
    pub namespace: Namespace,
}

impl EntityStore {
    /// The facade over the keys of `namespace`.
    pub fn new(namespace: Namespace) -> (store: EntityStore)
        ensures
            store.namespace == namespace,
    {
        EntityStore { namespace }
    }

    /// The store key of the entity `key` of the category `prefix`.
    pub fn key(&self, prefix: &Prefix, key: &Key) -> (qualified: String)
        ensures
            qualified@ == qualified_key(self.namespace@, prefix@, key@),
    {
        compose_key(&self.namespace, prefix, key)
    }

    /// The request that reads an entity. Its answer goes to [`entity_of`].
    pub fn get_entity(&self, prefix: &Prefix, key: &Key) -> (request: Request)
        ensures
            request@ == get_request(self.namespace@, prefix@, key@),
    {
        Request::Get { key: self.key(prefix, key) }
    }

    /// The request that saves an entity, given what the codec wrote for it.
    /// Whatever is under the key is overwritten. Where the codec failed,
    /// nothing is asked of the store.
    pub fn save_entity(
        &self,
        prefix: &Prefix,
        key: &Key,
        written: Json<String>,
        expiry: Option<u64>,
    ) -> (outcome: Result<Request, CodecError>)
        ensures
            written matches Ok(record) ==> (outcome matches Ok(request) && request@ == put_request(
                self.namespace@,
                prefix@,
                key@,
                record@,
                expiry,
            )),
            written is Err ==> (outcome matches Err(error) && error is EncodeFailed),
    {
        match encode(written) {
            Ok(record) => Ok(Request::Put { key: self.key(prefix, key), value: record, expiry }),
            Err(error) => Err(error),
        }
    }

    /// The request that removes an entity. A store removes what is there
    /// and minds nothing that is not.
    pub fn remove_entity(&self, prefix: &Prefix, key: &Key) -> (request: Request)
        ensures
            request@ == delete_request(self.namespace@, prefix@, key@),
    {
        Request::Delete { key: self.key(prefix, key) }
    }
}

/// What a `Get` found: nothing where the store held no record, the entity
/// where the record parsed, and `DecodeFailed` where it did not. A record
/// that does not parse is an error, not an absence.
pub fn entity_of<T>(found: Option<Json<T>>) -> (outcome: Result<Option<T>, CodecError>)
    ensures
        found is None ==> outcome == Ok::<Option<T>, CodecError>(None),
        found matches Some(Ok(entity)) ==> outcome == Ok::<Option<T>, CodecError>(Some(entity)),
        found matches Some(Err(_)) ==> (outcome matches Err(error) && error is DecodeFailed),
{
    match found {
        None => Ok(None),
        Some(parsed) => match decode(parsed) {
            Ok(entity) => Ok(Some(entity)),
            Err(error) => Err(error),
        },
    }
}

/// What is saved is read back: after the request that saves `record` as an
/// entity, the request that reads that entity is answered with `record`,
/// whatever the store held before.
pub proof fn lemma_saved_record_is_read_back(
    records: Records,
    namespace: Seq<char>,
    prefix: Seq<char>,
    identifier: Seq<char>,
    record: Seq<char>,
    expiry: Option<u64>,
)
    ensures
        record_at(
            records_after(records, put_request(namespace, prefix, identifier, record, expiry)),
            get_request(namespace, prefix, identifier)->Get_key,
        ) == Some(record),
{
}

/// What is removed is not found: after the request that removes an entity,
/// the request that reads it is answered with nothing, and removing it once
/// more changes nothing.
pub proof fn lemma_removed_record_is_absent(
    records: Records,
    namespace: Seq<char>,
    prefix: Seq<char>,
    identifier: Seq<char>,
)
    ensures
        ({
            let removed = records_after(records, delete_request(namespace, prefix, identifier));
            &&& record_at(removed, get_request(namespace, prefix, identifier)->Get_key) is None
            &&& records_after(removed, delete_request(namespace, prefix, identifier)) == removed
        }),
{
    let removed = records_after(records, delete_request(namespace, prefix, identifier));
    assert(records_after(removed, delete_request(namespace, prefix, identifier)) =~= removed);
}

/// Entities do not disturb each other: where no namespace and no prefix
/// holds the delimiter, saving or removing one entity leaves what is read
/// of every other entity as it was.
pub proof fn lemma_other_entities_untouched(
    records: Records,
    namespace: Seq<char>,
    prefix: Seq<char>,
    identifier: Seq<char>,
    record: Seq<char>,
    expiry: Option<u64>,
    other_namespace: Seq<char>,
    other_prefix: Seq<char>,
    other_identifier: Seq<char>,
)
    requires
        colon_free(namespace),
        colon_free(prefix),
        colon_free(other_namespace),
        colon_free(other_prefix),
        (namespace, prefix, identifier) != (other_namespace, other_prefix, other_identifier),
    ensures
        ({
            let other = get_request(other_namespace, other_prefix, other_identifier)->Get_key;
            &&& record_at(
                records_after(records, put_request(namespace, prefix, identifier, record, expiry)),
                other,
            ) == record_at(records, other)
            &&& record_at(
                records_after(records, delete_request(namespace, prefix, identifier)),
                other,
            ) == record_at(records, other)
        }),
{
    if qualified_key(namespace, prefix, identifier) == qualified_key(
        other_namespace,
        other_prefix,
        other_identifier,
    ) {
        lemma_qualified_key_injective(
            namespace,
            prefix,
            identifier,
            other_namespace,
            other_prefix,
            other_identifier,
        );
    }
}

} // verus!

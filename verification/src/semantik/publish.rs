//! Publishing.

use crate::semantik::error::Error;
use crate::semantik::float::Float32;
use crate::semantik::limits::MAX_IDEMPOTENCY_KEY_LEN;
use crate::semantik::metadata::Metadata;
use crate::semantik::transport::SetRequestId;
use crate::semantik::validate;
use crate::semantik::validate::{
    reject_number, validate_metadata, validate_publish_item, validate_target,
    validate_vector_matches_dimensions,
};
use crate::text;
use crate::text::len_in_bytes;
use vstd::prelude::*;

verus! {

/// Acknowledgement durability requested on a publish.
///
/// The server treats a missing `ack` field as [`AckMode::Stored`].
#[derive(Debug, Clone, Copy, PartialEq, Eq, Structural)]
pub enum AckMode {
    /// Return once the write survives a single server restart. Default.
    Stored,
    /// Return once the write survives power loss.
    Durable,
}

impl Default for AckMode {
    fn default() -> (res: Self)
        ensures
            res is Stored,
    {
        AckMode::Stored
    }
}

/// Single message to publish. At least one of `text` or `vector` must be
/// non-empty.
#[derive(Debug, Clone)]
pub struct PublishItem {
    pub vector: Vec<Float32>,
    pub text: String,
}

impl PublishItem {
    /// Item with embedded text. The server computes the embedding.
    pub fn text(s: &str) -> (res: Self)
        ensures
            res.text@ == s@,
            res.vector@.len() == 0,
    {
        PublishItem { text: s.to_owned(), vector: Vec::new() }
    }

    /// Item with a pre-computed embedding vector.
    pub fn vector(v: Vec<Float32>) -> (res: Self)
        ensures
            res.text@.len() == 0,
            res.vector == v,
    {
        PublishItem { text: String::new(), vector: v }
    }
}

impl Default for PublishItem {
    fn default() -> (res: Self)
        ensures
            res.text@.len() == 0,
            res.vector@.len() == 0,
    {
        PublishItem { text: String::new(), vector: Vec::new() }
    }
}

/// Body of `POST /v1/publish`.
///
/// `namespace`, `model`, and `dimensions` are required. A request that
/// leaves any of them unset is rejected at preflight rather than silently
/// routed. `dimensions` must match, when publishing a vector, the length
/// of the vector itself. `items` must contain exactly one element.
#[derive(Debug, Clone)]
pub struct PublishRequest {
    pub items: Vec<PublishItem>,
    pub namespace: String,
    pub model: String,
    pub dimensions: u16,
    pub metadata: Metadata,
    /// Set this to make retries safe: the same key yields the same
    /// `message_id` and `seq`.
    pub idempotency_key: Option<String>,
    /// Durability requested.
    pub ack: AckMode,
}

/// Is the durability left out of the request body?
pub fn is_default_ack(a: &AckMode) -> (res: bool)
    ensures
        res == (*a is Stored),
{
    match a {
        AckMode::Stored => true,
        AckMode::Durable => false,
    }
}

impl Default for PublishRequest {
    fn default() -> (res: Self)
        ensures
            res.items@.len() == 0,
            res.namespace@.len() == 0,
            res.model@.len() == 0,
            res.dimensions == 0,
            res.metadata@.len() == 0,
            res.idempotency_key is None,
            res.ack is Stored,
    {
        PublishRequest {
            items: Vec::new(),
            namespace: String::new(),
            model: String::new(),
            dimensions: 0,
            metadata: Metadata::new(),
            idempotency_key: None,
            ack: AckMode::Stored,
        }
    }
}

/// Server-assigned identifiers for a newly-published message.
/// `request_id` is the server-assigned correlation token.
#[derive(Debug, Clone)]
pub struct PublishResponse {
    pub message_id: String,
    pub epoch: u64,
    pub seq: u64,
    pub request_id: Option<String>,
}

impl Default for PublishResponse {
    fn default() -> (res: Self)
        ensures
            res.message_id@.len() == 0,
            res.epoch == 0,
            res.seq == 0,
            res.request_id is None,
    {
        PublishResponse {
            message_id: String::new(),
            epoch: 0,
            seq: 0,
            request_id: None,
        }
    }
}

impl SetRequestId for PublishResponse {
    open spec fn with_request_id(self, id: Option<String>) -> Self {
        PublishResponse { request_id: id, ..self }
    }

    fn set_request_id(&mut self, id: Option<String>) {
        self.request_id = id;
    }
}

/// What is wrong with an idempotency key.
pub open spec fn idempotency_problem(key: Option<String>) -> Option<Seq<char>> {
    match key {
        Some(k) => if text::byte_len(k@) > MAX_IDEMPOTENCY_KEY_LEN {
            Some(
                "idempotency_key exceeds "@ + text::decimal(MAX_IDEMPOTENCY_KEY_LEN as nat)
                    + " bytes"@,
            )
        } else {
            None
        },
        None => None,
    }
}

/// What is wrong with the items of a publish request.
pub open spec fn items_problem(items: Seq<PublishItem>, dimensions: nat) -> Option<Seq<char>> {
    if items.len() != 1 {
        Some("publish requires exactly 1 item, got "@ + text::decimal(items.len()))
    } else {
        validate::first_problem(
            validate::item_problem(items[0].text@, items[0].vector@),
            validate::vector_length_problem(items[0].vector@.len(), dimensions),
        )
    }
}

/// What is wrong with a publish request: its target, else its items, else
/// its metadata, else its idempotency key.
pub open spec fn publish_problem(r: PublishRequest) -> Option<Seq<char>> {
    validate::first_problem(
        validate::target_problem(r.namespace@, r.model@, r.dimensions as nat),
        validate::first_problem(
            items_problem(r.items@, r.dimensions as nat),
            validate::first_problem(
                validate::metadata_problem(r.metadata@),
                idempotency_problem(r.idempotency_key),
            ),
        ),
    )
}

impl PublishRequest {
    /// Reject what the server would not accept.
    pub fn validate(&self) -> (res: Result<(), Error>)
        ensures
            validate::verdict(res, publish_problem(*self)),
    {
        let target = validate_target(self.namespace.as_str(), self.model.as_str(), self.dimensions);
        if target.is_err() {
            return target;
        }
        if self.items.len() != 1 {
            proof {
                reveal_strlit("");
                let got = "publish requires exactly 1 item, got "@ + text::decimal(
                    self.items@.len(),
                );
                assert(got + ""@ =~= got);
            }
            return reject_number(
                "publish requires exactly 1 item, got ",
                self.items.len() as u64,
                "",
            );
        }
        let item = &self.items[0];
        let checked = validate_publish_item(item.text.as_str(), item.vector.as_slice());
        if checked.is_err() {
            return checked;
        }
        let matching = validate_vector_matches_dimensions(item.vector.as_slice(), self.dimensions);
        if matching.is_err() {
            return matching;
        }
        let metadata = validate_metadata(&self.metadata);
        if metadata.is_err() {
            return metadata;
        }
        if let Some(k) = &self.idempotency_key {
            if len_in_bytes(k.as_str()) > MAX_IDEMPOTENCY_KEY_LEN {
                return reject_number(
                    "idempotency_key exceeds ",
                    MAX_IDEMPOTENCY_KEY_LEN as u64,
                    " bytes",
                );
            }
        }
        Ok(())
    }
}

/// A publish request passes where it has a complete target, exactly one
/// item which passes, a vector, if any, of the stated dimensions, metadata
/// within its limits, and an idempotency key, if any, of at most 256 bytes.
pub proof fn law_publish_passes_within_limits(r: PublishRequest)
    ensures
        publish_problem(r) is None <==> {
            &&& validate::target_problem(r.namespace@, r.model@, r.dimensions as nat) is None
            &&& r.items@.len() == 1
            &&& validate::item_problem(r.items@[0].text@, r.items@[0].vector@) is None
            &&& r.items@[0].vector@.len() > 0 ==> r.items@[0].vector@.len() == r.dimensions
            &&& validate::metadata_problem(r.metadata@) is None
            &&& r.idempotency_key matches Some(k) ==> vstd::utf8::encode_utf8(k@).len() <= 256
        },
{
}

/// A request that leaves a targeting field unset is rejected, whatever
/// else it says: nothing is defaulted.
pub proof fn law_publish_requires_a_target(r: PublishRequest)
    requires
        r.namespace@.len() == 0 || r.model@.len() == 0 || r.dimensions == 0,
    ensures
        publish_problem(r) is Some,
{
}

/// Stamping a publish response with a correlation token changes nothing
/// else.
pub proof fn law_stamping_keeps_the_identifiers(r: PublishResponse, id: Option<String>)
    ensures
        ({
            let stamped = r.with_request_id(id);
            &&& stamped.request_id == id
            &&& stamped.message_id == r.message_id
            &&& stamped.epoch == r.epoch
            &&& stamped.seq == r.seq
        }),
{
}

/// The first problem is the one that is reported: of the target, else of
/// the items, else of the metadata, else of the idempotency key.
pub proof fn law_publish_problems_come_in_order(r: PublishRequest)
    ensures
        ({
            let target = validate::target_problem(r.namespace@, r.model@, r.dimensions as nat);
            let metadata = validate::metadata_problem(r.metadata@);
            let item = validate::item_problem(r.items@[0].text@, r.items@[0].vector@);
            &&& target is Some ==> publish_problem(r) == target
            &&& target is None && r.items@.len() != 1 ==> publish_problem(r) == Some(
                "publish requires exactly 1 item, got "@ + text::decimal(r.items@.len()),
            )
            &&& target is None && r.items@.len() == 1 && item is Some ==> publish_problem(r) == item
            &&& target is None && r.items@.len() == 1 && item is None && (
            r.items@[0].vector@.len() == 0 || r.items@[0].vector@.len() == r.dimensions)
                && metadata is Some ==> publish_problem(r) == metadata
            &&& target is None && r.items@.len() == 1 && item is None
                && r.items@[0].vector@.len() > 0 && r.items@[0].vector@.len() != r.dimensions
                ==> publish_problem(r) == Some(
                "publish vector dim "@ + text::decimal(r.items@[0].vector@.len())
                    + " does not match request dimensions "@ + text::decimal(r.dimensions as nat),
            )
            &&& target is None && r.items@.len() == 1 && item is None && (
            r.items@[0].vector@.len() == 0 || r.items@[0].vector@.len() == r.dimensions)
                && metadata is None ==> publish_problem(r) == idempotency_problem(
                r.idempotency_key,
            )
        }),
{
}

/// Of an idempotency key only its length in UTF-8 bytes counts.
pub proof fn law_idempotency_keys_are_bounded(key: Option<String>)
    ensures
        key is None ==> idempotency_problem(key) is None,
        key matches Some(k) ==> (vstd::utf8::encode_utf8(k@).len() <= 256 ==> idempotency_problem(
            key,
        ) is None),
        key matches Some(k) ==> (vstd::utf8::encode_utf8(k@).len() > 256 ==> idempotency_problem(
            key,
        ) == Some("idempotency_key exceeds "@ + text::decimal(256) + " bytes"@)),
{
}

} // verus!

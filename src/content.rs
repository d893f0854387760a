//! Documents addressed by a digest of their canonical bytes.
use vstd::prelude::*;
use crate::json::{render, JsonModel, JsonValue};

verus! {

/// The SHA-256 digest of a byte sequence.
pub uninterp spec fn sha256_of(bytes: Seq<u8>) -> Seq<u8>;

/// The URL-safe base64 text of a byte sequence, without padding.
pub uninterp spec fn base64_url_of(bytes: Seq<u8>) -> Seq<char>;

/// Relies on sha2's `Sha256::digest`: the SHA-256 digest of the bytes.
#[verifier::external_body]
fn sha256(bytes: &Vec<u8>) -> (r: Vec<u8>)
    ensures
        r@ == sha256_of(bytes@),
{
    <sha2::Sha256 as sha2::Digest>::digest(bytes.as_slice()).to_vec()
}

/// Relies on base64's `encode_config` with `URL_SAFE_NO_PAD`.
#[verifier::external_body]
fn base64_url(bytes: &Vec<u8>) -> (r: String)
    ensures
        r@ == base64_url_of(bytes@),
{
    base64::encode_config(bytes, base64::URL_SAFE_NO_PAD)
}

/// The identifier of a document whose canonical bytes are `body`.
pub open spec fn content_id_of(body: Seq<u8>) -> Seq<char> {
    base64_url_of(sha256_of(body))
}

/// The model of an addressed document.
pub struct ContentModel {
    pub id: Seq<char>,
    pub body: Seq<u8>,
}

/// The addressed form of a document.
pub open spec fn addressed(doc: JsonModel) -> ContentModel {
    ContentModel { id: content_id_of(render(doc)), body: render(doc) }
}

/// Addressing is a function of the document: equal documents get equal
/// identifiers, and the identifier is the one that the canonical bytes,
/// rendered again, give.
pub proof fn lemma_identifier_stable(d1: JsonModel, d2: JsonModel)
    requires
        d1 == d2,
    ensures
        addressed(d1).id == addressed(d2).id,
        addressed(d1).id == content_id_of(render(d2)),
        addressed(d1).id == content_id_of(addressed(d1).body),
{
}

/// A document's canonical bytes and the identifier derived from them.
#[derive(Debug)]
pub struct ContentDocument {
    id: String,
    body: Vec<u8>,
}

impl View for ContentDocument {
    type V = ContentModel;

    closed spec fn view(&self) -> ContentModel {
        ContentModel { id: self.id@, body: self.body@ }
    }
}

/// The identifier for canonical bytes `body`: the digest, in base64.
pub fn content_id(body: &Vec<u8>) -> (r: String)
    ensures
        r@ == content_id_of(body@),
{
    let digest = sha256(body);
    base64_url(&digest)
}

impl ContentDocument {
    /// Addresses a document by its content.
    pub fn new(document: &JsonValue) -> (r: ContentDocument)
        ensures
            r@ == addressed(document@),
    {
        let body = document.to_bytes();
        let id = content_id(&body);
        ContentDocument { id, body }
    }

    pub fn id(&self) -> (r: &str)
        ensures
            r@ == self@.id,
    {
        self.id.as_str()
    }

    /// The canonical JSON bytes.
    pub fn body(&self) -> (r: &Vec<u8>)
        ensures
            r@ == self@.body,
    {
        &self.body
    }
}

} // verus!

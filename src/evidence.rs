//! Evidence records of every kind behind one "produce documents" capability.
use vstd::prelude::*;
use crate::json::{items_model, members_model, push_item, push_member, JsonModel, JsonValue};
use crate::timestamp::Timestamp;
use crate::posix_file::{documents_of, PosixFile};
use crate::windows_event::{event_document, WindowsEvent};

verus! {

/// One evidence record, of one of the kinds the library reads.
#[derive(Debug)]
pub enum EvidenceObjectV1 {
    PosixFile(PosixFile),
    WindowsEvent(WindowsEvent),
}

/// The documents a record yields.
pub open spec fn object_documents(o: EvidenceObjectV1) -> Seq<JsonModel> {
    match o {
        EvidenceObjectV1::PosixFile(p) => documents_of(p).map_values(
            |d: (Timestamp, JsonModel)| d.1,
        ),
        EvidenceObjectV1::WindowsEvent(e) => seq![event_document(e)],
    }
}

/// Something that yields timeline documents: the same ones on every call.
pub trait TimelineObject {
    spec fn timeline_model(&self) -> Seq<JsonModel>;

    fn timeline_documents(&self) -> (r: Vec<JsonValue>)
        ensures
            items_model(r@) == self.timeline_model(),
    ;
}

/// The documents of (instant, document) pairs.
fn documents_only(pairs: &Vec<(Timestamp, JsonValue)>) -> (r: Vec<JsonValue>)
    ensures
        items_model(r@) == pairs@.map_values(|p: (Timestamp, JsonValue)| p.1@),
{
    let ghost expected = pairs@.map_values(|p: (Timestamp, JsonValue)| p.1@);
    let mut out: Vec<JsonValue> = Vec::new();
    assert(items_model(out@) =~= expected.subrange(0, 0));
    let mut i: usize = 0;
    while i < pairs.len()
        invariant
            i <= pairs@.len(),
            expected == pairs@.map_values(|p: (Timestamp, JsonValue)| p.1@),
            items_model(out@) == expected.subrange(0, i as int),
        decreases pairs@.len() - i,
    {
        let d = pairs[i].1.copy();
        push_item(&mut out, d);
        assert(expected.subrange(0, i as int + 1) =~= expected.subrange(0, i as int).push(
            expected[i as int],
        ));
        i = i + 1;
    }
    assert(expected.subrange(0, i as int) =~= expected);
    out
}

impl TimelineObject for PosixFile {
    open spec fn timeline_model(&self) -> Seq<JsonModel> {
        documents_of(*self).map_values(|d: (Timestamp, JsonModel)| d.1)
    }

    fn timeline_documents(&self) -> (r: Vec<JsonValue>) {
        let pairs = self.documents();
        let r = documents_only(&pairs);
        assert(pairs@.map_values(|p: (Timestamp, JsonValue)| p.1@) =~= documents_of(*self).map_values(
            |d: (Timestamp, JsonModel)| d.1,
        ));
        r
    }
}

impl TimelineObject for WindowsEvent {
    open spec fn timeline_model(&self) -> Seq<JsonModel> {
        seq![event_document(*self)]
    }

    fn timeline_documents(&self) -> (r: Vec<JsonValue>) {
        let pairs = self.documents();
        let r = documents_only(&pairs);
        assert(pairs@.map_values(|p: (Timestamp, JsonValue)| p.1@) =~= seq![event_document(*self)]);
        r
    }
}

impl TimelineObject for EvidenceObjectV1 {
    open spec fn timeline_model(&self) -> Seq<JsonModel> {
        object_documents(*self)
    }

    fn timeline_documents(&self) -> (r: Vec<JsonValue>) {
        self.documents()
    }
}

impl EvidenceObjectV1 {
    /// The record's documents; calling again gives the same ones.
    pub fn documents(&self) -> (r: Vec<JsonValue>)
        ensures
            items_model(r@) == object_documents(*self),
    {
        match self {
            EvidenceObjectV1::PosixFile(p) => p.timeline_documents(),
            EvidenceObjectV1::WindowsEvent(e) => e.timeline_documents(),
        }
    }
}

/// The members of an object with every `key` member left out.
pub open spec fn without_key(members: Seq<(Seq<char>, JsonModel)>, key: Seq<char>, n: int) -> Seq<
    (Seq<char>, JsonModel),
>
    decreases n,
{
    if n <= 0 || n > members.len() {
        Seq::empty()
    } else if members[n - 1].0 == key {
        without_key(members, key, n - 1)
    } else {
        without_key(members, key, n - 1).push(members[n - 1])
    }
}

/// A document with its `host` member set to `host`: any earlier `host`
/// member is dropped and the new one comes last. Non-objects stay as they
/// are.
pub open spec fn with_host_member(d: JsonModel, host: Seq<char>) -> JsonModel {
    match d {
        JsonModel::Object(ms) => JsonModel::Object(
            without_key(ms, "host"@, ms.len() as int).push(("host"@, JsonModel::Str(host))),
        ),
        _ => d,
    }
}

/// An evidence record with the version of its envelope and, optionally, the
/// host it was taken from.
#[derive(Debug)]
pub struct EvidenceItemV1 {
    pub version: u16,
    pub host: Option<String>,
    pub object: EvidenceObjectV1,
}

fn set_host(d: JsonValue, host: &String) -> (r: JsonValue)
    ensures
        r@ == with_host_member(d@, host@),
{
    match d {
        JsonValue::Object(ms) => {
            let key = "host".to_string();
            let mut out: Vec<(String, JsonValue)> = Vec::new();
            let ghost model = members_model(ms@);
            proof {
                crate::json::lemma_member_models_len(ms@, ms@.len() as int);
            }
            assert(members_model(out@) =~= without_key(model, "host"@, 0));
            let mut i: usize = 0;
            while i < ms.len()
                invariant
                    i <= ms@.len(),
                    key@ == "host"@,
                    model == members_model(ms@),
                    model.len() == ms@.len(),
                    forall|k: int| 0 <= k < ms@.len() ==> #[trigger] model[k] == (ms@[k].0@, ms@[k].1@),
                    members_model(out@) == without_key(model, "host"@, i as int),
                decreases ms@.len() - i,
            {
                if ms[i].0 != key {
                    let c = ms[i].1.copy();
                    push_member(&mut out, ms[i].0.as_str(), c);
                }
                assert(model[i as int] == (ms@[i as int].0@, ms@[i as int].1@));
                i = i + 1;
            }
            push_member(&mut out, "host", JsonValue::Str(host.clone()));
            JsonValue::Object(out)
        },
        other => other,
    }
}

impl EvidenceItemV1 {
    /// An envelope of version 1 without a host.
    pub fn from(object: EvidenceObjectV1) -> (r: EvidenceItemV1)
        ensures
            r == (EvidenceItemV1 { version: 1, host: None, object }),
    {
        EvidenceItemV1 { version: 1, host: None, object }
    }

    pub fn with_host(self, host: String) -> (r: EvidenceItemV1)
        ensures
            r == (EvidenceItemV1 { host: Some(host), ..self }),
    {
        EvidenceItemV1 { host: Some(host), ..self }
    }

    /// The record's documents, each with the host set where one is given.
    pub fn documents(&self) -> (r: Vec<JsonValue>)
        ensures
            r@.len() == object_documents(self.object).len(),
            forall|k: int|
                0 <= k < r@.len() ==> (#[trigger] r@[k])@ == match self.host {
                    Some(h) => with_host_member(object_documents(self.object)[k], h@),
                    None => object_documents(self.object)[k],
                },
    {
        let docs = self.object.documents();
        let ghost expected = object_documents(self.object);
        proof {
            crate::json::lemma_items_model_len(docs@, docs@.len() as int);
        }
        let mut out: Vec<JsonValue> = Vec::new();
        let mut i: usize = 0;
        while i < docs.len()
            invariant
                i <= docs@.len(),
                items_model(docs@) == expected,
                expected.len() == docs@.len(),
                forall|k: int| 0 <= k < docs@.len() ==> #[trigger] expected[k] == docs@[k]@,
                out@.len() == i,
                forall|k: int|
                    0 <= k < i ==> (#[trigger] out@[k])@ == match self.host {
                        Some(h) => with_host_member(expected[k], h@),
                        None => expected[k],
                    },
            decreases docs@.len() - i,
        {
            let d = docs[i].copy();
            let d = match &self.host {
                Some(h) => set_host(d, h),
                None => d,
            };
            out.push(d);
            i = i + 1;
        }
        out
    }
}

} // verus!

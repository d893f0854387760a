//! The canonical event document: `@timestamp`, `ecs.version`, an optional
//! message, a tag set, and at most one sub-object per field namespace.
use vstd::prelude::*;
use crate::json::{push_item, push_member, JsonModel, JsonValue, items_model, members_model};
use crate::file::{file_members, File};
use crate::content::addressed;
use crate::order::{lemma_sorted_unique, lemma_lt_total, lemma_lt_trans, strictly_sorted, text_less, text_lt};
use crate::timestamp::Timestamp;

verus! {

/// The schema version every document carries.
pub const ECS_VERSION: &'static str = "8.4";

/// The field namespaces a document can hold a sub-object under.
#[derive(Clone, Copy, PartialEq, Eq, Structural, Debug)]
pub enum Namespace {
    Event,
    File,
    Host,
    Log,
}

pub open spec fn namespace_key(ns: Namespace) -> Seq<char> {
    match ns {
        Namespace::Event => "event"@,
        Namespace::File => "file"@,
        Namespace::Host => "host"@,
        Namespace::Log => "log"@,
    }
}

impl Namespace {
    /// The document key the namespace's sub-object stands under.
    pub fn key(&self) -> (r: &'static str)
        ensures
            r@ == namespace_key(*self),
    {
        match self {
            Namespace::Event => "event",
            Namespace::File => "file",
            Namespace::Host => "host",
            Namespace::Log => "log",
        }
    }
}

/// A second sub-object was offered under a namespace that already has one.
#[derive(Clone, Copy, PartialEq, Eq, Structural, Debug)]
pub struct DuplicateNamespace {
    pub namespace: Namespace,
}

/// Assembles one document. Consumed by `build`.
#[derive(Debug)]
pub struct EcsBuilder {
    ts: Timestamp,
    message: Option<String>,
    tags: Vec<String>,
    event: Option<JsonValue>,
    file: Option<JsonValue>,
    host: Option<JsonValue>,
    log: Option<JsonValue>,
}

/// The model of a builder: what the document will hold.
pub struct EcsModel {
    pub ts: int,
    pub message: Option<Seq<char>>,
    pub tags: Seq<Seq<char>>,
    pub event: Option<JsonModel>,
    pub file: Option<JsonModel>,
    pub host: Option<JsonModel>,
    pub log: Option<JsonModel>,
}

/// Once a sub-object stands under a namespace, the namespace is taken: a
/// second `insert_namespace` under it fails with the duplicate-namespace
/// error and leaves the builder as it is. The other namespaces, the
/// timestamp, message and tags are untouched by the first.
pub proof fn lemma_namespace_taken(m: EcsModel, ns: Namespace, first: JsonModel)
    ensures
        slot(with_slot(m, ns, first), ns) == Some(first),
        forall|other: Namespace| other != ns ==> slot(with_slot(m, ns, first), other) == slot(m, other),
        with_slot(m, ns, first).ts == m.ts,
        with_slot(m, ns, first).message == m.message,
        with_slot(m, ns, first).tags == m.tags,
{
}

/// A document depends on its tags only as a set: two builders whose tags
/// are held in ascending order, which agree on all else and hold the same
/// tags, however they were added, give the same document and so the same
/// identifier.
pub proof fn lemma_document_depends_on_tag_set(m1: EcsModel, m2: EcsModel)
    requires
        strictly_sorted(m1.tags),
        strictly_sorted(m2.tags),
        m1.tags.to_set() == m2.tags.to_set(),
        m1.ts == m2.ts,
        m1.message == m2.message,
        m1.event == m2.event && m1.file == m2.file && m1.host == m2.host && m1.log == m2.log,
    ensures
        document(m1) == document(m2),
        addressed(document(m1)).id == addressed(document(m2)).id,
{
    lemma_sorted_unique(m1.tags, m2.tags);
    assert(m1 == m2);
}

pub open spec fn opt_model(o: Option<JsonValue>) -> Option<JsonModel> {
    match o {
        Some(v) => Some(v@),
        None => None,
    }
}

pub open spec fn opt_str(o: Option<String>) -> Option<Seq<char>> {
    match o {
        Some(s) => Some(s@),
        None => None,
    }
}

pub open spec fn strings_model(v: Seq<String>) -> Seq<Seq<char>> {
    v.map_values(|s: String| s@)
}

/// The sub-object a model holds under a namespace.
pub open spec fn slot(m: EcsModel, ns: Namespace) -> Option<JsonModel> {
    match ns {
        Namespace::Event => m.event,
        Namespace::File => m.file,
        Namespace::Host => m.host,
        Namespace::Log => m.log,
    }
}

/// The model with `value` under `ns`, all else kept.
pub open spec fn with_slot(m: EcsModel, ns: Namespace, value: JsonModel) -> EcsModel {
    match ns {
        Namespace::Event => EcsModel { event: Some(value), ..m },
        Namespace::File => EcsModel { file: Some(value), ..m },
        Namespace::Host => EcsModel { host: Some(value), ..m },
        Namespace::Log => EcsModel { log: Some(value), ..m },
    }
}

pub open spec fn push_opt(
    members: Seq<(Seq<char>, JsonModel)>,
    key: Seq<char>,
    value: Option<JsonModel>,
) -> Seq<(Seq<char>, JsonModel)> {
    match value {
        Some(v) => members.push((key, v)),
        None => members,
    }
}

/// The `ecs` member's value.
pub open spec fn ecs_object() -> JsonModel {
    JsonModel::Object(seq![("version"@, JsonModel::Str(ECS_VERSION@))])
}

/// The tags as a JSON array of strings.
pub open spec fn tags_array(tags: Seq<Seq<char>>) -> JsonModel {
    JsonModel::Array(tags.map_values(|t: Seq<char>| JsonModel::Str(t)))
}

/// The members of the document, in this order: `@timestamp`, `ecs`, the
/// namespaces `event`, `file`, `host`, `log` that are present, `message` if
/// set, and `tags` if any.
pub open spec fn document_members(m: EcsModel) -> Seq<(Seq<char>, JsonModel)> {
    let base = seq![("@timestamp"@, JsonModel::Num(m.ts)), ("ecs"@, ecs_object())];
    let with_ns = push_opt(
        push_opt(push_opt(push_opt(base, "event"@, m.event), "file"@, m.file), "host"@, m.host),
        "log"@,
        m.log,
    );
    let with_message = match m.message {
        Some(s) => with_ns.push(("message"@, JsonModel::Str(s))),
        None => with_ns,
    };
    if m.tags.len() > 0 {
        with_message.push(("tags"@, tags_array(m.tags)))
    } else {
        with_message
    }
}

pub open spec fn document(m: EcsModel) -> JsonModel {
    JsonModel::Object(document_members(m))
}

impl View for EcsBuilder {
    type V = EcsModel;

    closed spec fn view(&self) -> EcsModel {
        EcsModel {
            ts: self.ts.ts as int,
            message: opt_str(self.message),
            tags: strings_model(self.tags@),
            event: opt_model(self.event),
            file: opt_model(self.file),
            host: opt_model(self.host),
            log: opt_model(self.log),
        }
    }
}

fn push_opt_member(members: &mut Vec<(String, JsonValue)>, key: &str, value: Option<JsonValue>)
    ensures
        members_model(final(members)@) == push_opt(members_model(old(members)@), key@, opt_model(value)),
{
    match value {
        Some(v) => push_member(members, key, v),
        None => {},
    }
}

/// Where `tag` goes among `tags`: `Ok(())` where it is there already,
/// otherwise the index before which every tag comes before it and, if there
/// is one, the tag at that index comes after it.
fn find_slot(tags: &Vec<String>, tag: &str) -> (r: Result<(), usize>)
    ensures
        r is Ok ==> strings_model(tags@).contains(tag@),
        r matches Err(pos) ==> pos <= tags@.len() && (forall|k: int|
            0 <= k < pos ==> text_lt(#[trigger] tags@[k]@, tag@)) && (pos < tags@.len() ==> text_lt(
            tag@,
            tags@[pos as int]@,
        )),
{
    let target = tag.to_string();
    let mut i: usize = 0;
    while i < tags.len()
        invariant
            i <= tags@.len(),
            target@ == tag@,
            forall|k: int| 0 <= k < i ==> text_lt(#[trigger] tags@[k]@, tag@),
        decreases tags@.len() - i,
    {
        if tags[i] == target {
            assert(strings_model(tags@)[i as int] == tag@);
            return Ok(());
        }
        if text_less(tag, tags[i].as_str()) {
            return Err(i);
        }
        proof {
            lemma_lt_total(tags@[i as int]@, tag@);
        }
        i = i + 1;
    }
    Err(i)
}

impl EcsBuilder {
    /// The tags are a set, held in ascending order.
    pub open spec fn well_formed(&self) -> bool {
        strictly_sorted(self@.tags)
    }

    /// A builder for a document at `ts`, with nothing else yet.
    pub fn with(ts: Timestamp) -> (r: EcsBuilder)
        ensures
            r.well_formed(),
            r@ == (EcsModel {
                ts: ts.ts as int,
                message: None,
                tags: Seq::empty(),
                event: None,
                file: None,
                host: None,
                log: None,
            }),
    {
        let r = EcsBuilder {
            ts,
            message: None,
            tags: Vec::new(),
            event: None,
            file: None,
            host: None,
            log: None,
        };
        assert(r@.tags =~= Seq::<Seq<char>>::empty());
        r
    }

    /// Adds a tag to the tag set; a tag that is there already stays once.
    /// The tags stay in ascending order, so the document depends on the set
    /// of tags alone, not on the order they were added in.
    pub fn with_additional_tag(self, tag: &str) -> (r: EcsBuilder)
        ensures
            r@ == (EcsModel { tags: r@.tags, ..self@ }),
            r@.tags.to_set() == self@.tags.to_set().insert(tag@),
            self.well_formed() ==> r.well_formed(),
    {
        let ghost old_tags = self@.tags;
        let mut b = self;
        match find_slot(&b.tags, tag) {
            Ok(()) => {
                assert(old_tags.to_set() =~= old_tags.to_set().insert(tag@));
            },
            Err(pos) => {
                b.tags.insert(pos, tag.to_string());
                let ghost new_tags = b@.tags;
                assert(new_tags =~= old_tags.insert(pos as int, tag@));
                assert forall|x: Seq<char>| new_tags.to_set().contains(x) <==> old_tags.to_set().insert(
                    tag@,
                ).contains(x) by {
                    if new_tags.to_set().contains(x) {
                        let k = choose|k: int| 0 <= k < new_tags.len() && new_tags[k] == x;
                        if k < pos {
                            assert(old_tags[k] == x);
                        } else if k > pos {
                            assert(old_tags[k - 1] == x);
                        }
                    }
                    if old_tags.to_set().contains(x) {
                        let k = choose|k: int| 0 <= k < old_tags.len() && old_tags[k] == x;
                        if k < pos {
                            assert(new_tags[k] == x);
                        } else {
                            assert(new_tags[k + 1] == x);
                        }
                    }
                    if x == tag@ {
                        assert(new_tags[pos as int] == x);
                    }
                }
                assert(new_tags.to_set() =~= old_tags.to_set().insert(tag@));
                proof {
                if strictly_sorted(old_tags) {
                    assert forall|i: int, j: int| 0 <= i < j < new_tags.len() implies text_lt(
                        #[trigger] new_tags[i],
                        #[trigger] new_tags[j],
                    ) by {
                        if j < pos {
                        } else if j == pos {
                            assert(text_lt(old_tags[i], tag@));
                        } else if i < pos {
                            assert(text_lt(old_tags[i], tag@));
                            assert(text_lt(tag@, old_tags[pos as int]));
                            if j - 1 > pos {
                                assert(text_lt(old_tags[pos as int], old_tags[j - 1]));
                                lemma_lt_trans(tag@, old_tags[pos as int], old_tags[j - 1]);
                            }
                            lemma_lt_trans(old_tags[i], tag@, old_tags[j - 1]);
                        } else if i == pos {
                            assert(text_lt(tag@, old_tags[pos as int]));
                            if j - 1 > pos {
                                assert(text_lt(old_tags[pos as int], old_tags[j - 1]));
                                lemma_lt_trans(tag@, old_tags[pos as int], old_tags[j - 1]);
                            }
                        } else {
                            assert(text_lt(old_tags[i - 1], old_tags[j - 1]));
                        }
                    }
                }
                }
            },
        }
        b
    }

    /// Sets the message, replacing any earlier one.
    pub fn with_message(self, message: &str) -> (r: EcsBuilder)
        ensures
            r@ == (EcsModel { message: Some(message@), ..self@ }),
    {
        let mut b = self;
        b.message = Some(message.to_string());
        b
    }

    /// Whether `ns` holds a sub-object.
    pub fn has_namespace(&self, ns: Namespace) -> (r: bool)
        ensures
            r == (slot(self@, ns) is Some),
    {
        match ns {
            Namespace::Event => self.event.is_some(),
            Namespace::File => self.file.is_some(),
            Namespace::Host => self.host.is_some(),
            Namespace::Log => self.log.is_some(),
        }
    }

    /// Puts `value` under `ns`. Fails, and changes nothing, where `ns` holds a
    /// sub-object already.
    pub fn insert_namespace(&mut self, ns: Namespace, value: JsonValue) -> (r: Result<(), DuplicateNamespace>)
        ensures
            slot(old(self)@, ns) is Some <==> r is Err,
            r is Err ==> r == Err::<(), DuplicateNamespace>(DuplicateNamespace { namespace: ns })
                && final(self)@ == old(self)@,
            r is Ok ==> final(self)@ == with_slot(old(self)@, ns, value@),
    {
        if self.has_namespace(ns) {
            return Err(DuplicateNamespace { namespace: ns });
        }
        match ns {
            Namespace::Event => self.event = Some(value),
            Namespace::File => self.file = Some(value),
            Namespace::Host => self.host = Some(value),
            Namespace::Log => self.log = Some(value),
        }
        Ok(())
    }

    /// The builder with `value` under `ns`, or the duplicate-namespace error.
    pub fn with_namespace(self, ns: Namespace, value: JsonValue) -> (r: Result<EcsBuilder, DuplicateNamespace>)
        ensures
            slot(self@, ns) is Some <==> r is Err,
            r is Err ==> r->Err_0 == (DuplicateNamespace { namespace: ns }),
            r is Ok ==> r->Ok_0@ == with_slot(self@, ns, value@),
    {
        let mut b = self;
        match b.insert_namespace(ns, value) {
            Ok(()) => Ok(b),
            Err(e) => Err(e),
        }
    }

    pub fn with_event(self, event: JsonValue) -> (r: Result<EcsBuilder, DuplicateNamespace>)
        ensures
            self@.event is Some <==> r is Err,
            r is Err ==> r->Err_0 == (DuplicateNamespace { namespace: Namespace::Event }),
            r is Ok ==> r->Ok_0@ == with_slot(self@, Namespace::Event, event@),
    {
        self.with_namespace(Namespace::Event, event)
    }

    pub fn with_host(self, host: JsonValue) -> (r: Result<EcsBuilder, DuplicateNamespace>)
        ensures
            self@.host is Some <==> r is Err,
            r is Err ==> r->Err_0 == (DuplicateNamespace { namespace: Namespace::Host }),
            r is Ok ==> r->Ok_0@ == with_slot(self@, Namespace::Host, host@),
    {
        self.with_namespace(Namespace::Host, host)
    }

    pub fn with_log(self, log: JsonValue) -> (r: Result<EcsBuilder, DuplicateNamespace>)
        ensures
            self@.log is Some <==> r is Err,
            r is Err ==> r->Err_0 == (DuplicateNamespace { namespace: Namespace::Log }),
            r is Ok ==> r->Ok_0@ == with_slot(self@, Namespace::Log, log@),
    {
        self.with_namespace(Namespace::Log, log)
    }

    pub fn with_file(self, file: File) -> (r: Result<EcsBuilder, DuplicateNamespace>)
        ensures
            self@.file is Some <==> r is Err,
            r is Err ==> r->Err_0 == (DuplicateNamespace { namespace: Namespace::File }),
            r is Ok ==> r->Ok_0@ == with_slot(
                self@,
                Namespace::File,
                JsonModel::Object(file_members(file@)),
            ),
    {
        let value = file.to_json();
        self.with_namespace(Namespace::File, value)
    }

    /// Finalizes the document.
    pub fn build(self) -> (r: JsonValue)
        ensures
            r@ == document(self@),
    {
        let ghost m = self@;
        let mut members: Vec<(String, JsonValue)> = Vec::new();
        assert(members_model(members@) =~= Seq::<(Seq<char>, JsonModel)>::empty());
        push_member(&mut members, "@timestamp", JsonValue::Int(self.ts.ts));
        let mut ecs: Vec<(String, JsonValue)> = Vec::new();
        assert(members_model(ecs@) =~= Seq::<(Seq<char>, JsonModel)>::empty());
        push_member(&mut ecs, "version", JsonValue::Str(ECS_VERSION.to_string()));
        let ecs_value = JsonValue::Object(ecs);
        assert(ecs_value@ == ecs_object()) by {
            assert(members_model(ecs@) =~= seq![("version"@, JsonModel::Str(ECS_VERSION@))]);
        }
        push_member(&mut members, "ecs", ecs_value);
        push_opt_member(&mut members, "event", self.event);
        push_opt_member(&mut members, "file", self.file);
        push_opt_member(&mut members, "host", self.host);
        push_opt_member(&mut members, "log", self.log);
        match self.message {
            Some(msg) => push_member(&mut members, "message", JsonValue::Str(msg)),
            None => {},
        }
        if self.tags.len() > 0 {
            let mut items: Vec<JsonValue> = Vec::new();
            assert(items_model(items@) =~= Seq::<JsonModel>::empty());
            let tags = self.tags;
            let mut i: usize = 0;
            while i < tags.len()
                invariant
                    i <= tags@.len(),
                    strings_model(tags@) == m.tags,
                    items_model(items@) =~= m.tags.subrange(0, i as int).map_values(
                        |t: Seq<char>| JsonModel::Str(t),
                    ),
                decreases tags@.len() - i,
            {
                push_item(&mut items, JsonValue::Str(tags[i].clone()));
                assert(m.tags.subrange(0, i as int + 1).map_values(|t: Seq<char>| JsonModel::Str(t))
                    =~= m.tags.subrange(0, i as int).map_values(|t: Seq<char>| JsonModel::Str(t)).push(
                    JsonModel::Str(m.tags[i as int]),
                ));
                i = i + 1;
            }
            assert(m.tags.subrange(0, i as int) =~= m.tags);
            push_member(&mut members, "tags", JsonValue::Array(items));
        }
        let r = JsonValue::Object(members);
        assert(members_model(members@) =~= document_members(m));
        r
    }
}

} // verus!

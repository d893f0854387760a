//! The bulk-indexing buffer: addressed documents collect until a threshold,
//! then leave together as one batch for the index client to write.
use vstd::prelude::*;
use crate::content::{addressed, ContentDocument, ContentModel};
use crate::evidence::{object_documents, EvidenceObjectV1};
use crate::json::{lemma_items_model_len, JsonModel, JsonValue};

verus! {

/// The threshold a new buffer starts with.
pub const DEFAULT_CACHE_SIZE: usize = 10000;

/// Documents to be written to one index in a single bulk request, each as a
/// create keyed by its identifier.
#[derive(Debug)]
pub struct Batch {
    pub index: String,
    pub items: Vec<ContentDocument>,
}

pub open spec fn contents_model(v: Seq<ContentDocument>) -> Seq<ContentModel> {
    v.map_values(|d: ContentDocument| d@)
}

/// A buffer bound to one index.
#[derive(Debug)]
pub struct Index {
    name: String,
    cache_size: usize,
    document_cache: Vec<ContentDocument>,
}

pub struct IndexModel {
    pub name: Seq<char>,
    pub cache_size: nat,
    pub pending: Seq<ContentModel>,
}

impl View for Index {
    type V = IndexModel;

    closed spec fn view(&self) -> IndexModel {
        IndexModel {
            name: self.name@,
            cache_size: self.cache_size as nat,
            pending: contents_model(self.document_cache@),
        }
    }
}

/// One enqueue: the document joins the pending ones, and where that makes
/// `threshold` or more, all of them leave as a batch.
pub open spec fn enqueue_step(pending: Seq<ContentModel>, threshold: nat, doc: ContentModel) -> (
    Seq<ContentModel>,
    Option<Seq<ContentModel>>,
) {
    let p = pending.push(doc);
    if p.len() >= threshold {
        (Seq::empty(), Some(p))
    } else {
        (p, None)
    }
}

/// Enqueueing `docs` in order: what stays pending, and the batches that
/// leave, in order.
pub open spec fn enqueue_all(pending: Seq<ContentModel>, threshold: nat, docs: Seq<ContentModel>) -> (
    Seq<ContentModel>,
    Seq<Seq<ContentModel>>,
)
    decreases docs.len(),
{
    if docs.len() == 0 {
        (pending, Seq::empty())
    } else {
        let before = enqueue_all(pending, threshold, docs.drop_last());
        let step = enqueue_step(before.0, threshold, docs.last());
        (
            step.0,
            match step.1 {
                Some(b) => before.1.push(b),
                None => before.1,
            },
        )
    }
}

pub open spec fn batch_model(b: Batch) -> (Seq<char>, Seq<ContentModel>) {
    (b.index@, contents_model(b.items@))
}

pub open spec fn batches_model(v: Seq<Batch>) -> Seq<Seq<ContentModel>> {
    v.map_values(|b: Batch| contents_model(b.items@))
}

impl Index {
    /// The buffer holds no more than its threshold at rest.
    pub open spec fn well_formed(&self) -> bool {
        self@.pending.len() <= self@.cache_size
    }

    /// An empty buffer for the index `name`, with the default threshold.
    pub fn new(name: String) -> (r: Index)
        ensures
            r@.name == name@,
            r@.cache_size == DEFAULT_CACHE_SIZE,
            r@.pending == Seq::<ContentModel>::empty(),
            r.well_formed(),
    {
        let r = Index { name, cache_size: DEFAULT_CACHE_SIZE, document_cache: Vec::new() };
        assert(r@.pending =~= Seq::<ContentModel>::empty());
        r
    }

    pub fn name(&self) -> (r: &str)
        ensures
            r@ == self@.name,
    {
        self.name.as_str()
    }

    pub fn cache_size(&self) -> (r: usize)
        ensures
            r == self@.cache_size,
    {
        self.cache_size
    }

    pub fn pending_count(&self) -> (r: usize)
        ensures
            r == self@.pending.len(),
    {
        self.document_cache.len()
    }

    /// Takes every pending document out as one batch; `None` where there
    /// are none. The buffer is empty afterwards.
    pub fn flush(&mut self) -> (r: Option<Batch>)
        ensures
            final(self)@.name == old(self)@.name,
            final(self)@.cache_size == old(self)@.cache_size,
            final(self)@.pending == Seq::<ContentModel>::empty(),
            final(self).well_formed(),
            old(self)@.pending.len() == 0 <==> r is None,
            r is Some ==> batch_model(r->Some_0) == (old(self)@.name, old(self)@.pending),
    {
        if self.document_cache.len() == 0 {
            return None;
        }
        let mut items: Vec<ContentDocument> = Vec::new();
        std::mem::swap(&mut items, &mut self.document_cache);
        assert(self@.pending =~= Seq::<ContentModel>::empty());
        Some(Batch { index: self.name.clone(), items })
    }

    /// Addresses `document` and enqueues it. Where the pending documents
    /// then reach the threshold, all of them, this one last, leave as the
    /// returned batch and the buffer is empty; otherwise nothing leaves.
    pub fn add_bulk_document(&mut self, document: &JsonValue) -> (r: Option<Batch>)
        ensures
            final(self).well_formed(),
            final(self)@.name == old(self)@.name,
            final(self)@.cache_size == old(self)@.cache_size,
            old(self)@.pending.len() + 1 >= old(self)@.cache_size ==> r is Some && batch_model(
                r->Some_0,
            ) == (old(self)@.name, old(self)@.pending.push(addressed(document@)))
                && final(self)@.pending == Seq::<ContentModel>::empty(),
            old(self)@.pending.len() + 1 < old(self)@.cache_size ==> r is None && final(self)@.pending
                == old(self)@.pending.push(addressed(document@)),
            ({
                let step = enqueue_step(old(self)@.pending, old(self)@.cache_size, addressed(document@));
                final(self)@.pending == step.0 && match r {
                    Some(b) => step.1 == Some(batch_model(b).1) && b.index@ == old(self)@.name,
                    None => step.1 is None,
                }
            }),
    {
        let doc = ContentDocument::new(document);
        self.document_cache.push(doc);
        assert(self@.pending =~= old(self)@.pending.push(addressed(document@)));
        if self.document_cache.len() >= self.cache_size {
            self.flush()
        } else {
            None
        }
    }

    /// Enqueues `documents` in order, returning the batches that left.
    pub fn add_documents(&mut self, documents: &Vec<JsonValue>) -> (r: Vec<Batch>)
        ensures
            final(self)@.name == old(self)@.name,
            final(self)@.cache_size == old(self)@.cache_size,
            ({
                let all = enqueue_all(
                    old(self)@.pending,
                    old(self)@.cache_size,
                    documents@.map_values(|d: JsonValue| addressed(d@)),
                );
                final(self)@.pending == all.0 && batches_model(r@) == all.1
            }),
            forall|i: int| 0 <= i < r@.len() ==> (#[trigger] r@[i]).index@ == old(self)@.name,
    {
        let ghost docs = documents@.map_values(|d: JsonValue| addressed(d@));
        let mut batches: Vec<Batch> = Vec::new();
        let mut i: usize = 0;
        assert(docs.subrange(0, 0) =~= Seq::<ContentModel>::empty());
        assert(batches_model(batches@) =~= Seq::<Seq<ContentModel>>::empty());
        while i < documents.len()
            invariant
                i <= documents@.len(),
                docs == documents@.map_values(|d: JsonValue| addressed(d@)),
                self@.name == old(self)@.name,
                self@.cache_size == old(self)@.cache_size,
                ({
                    let all = enqueue_all(old(self)@.pending, old(self)@.cache_size, docs.subrange(0, i as int));
                    self@.pending == all.0 && batches_model(batches@) == all.1
                }),
                forall|k: int| 0 <= k < batches@.len() ==> (#[trigger] batches@[k]).index@ == old(self)@.name,
            decreases documents@.len() - i,
        {
            let ghost prev = batches@;
            match self.add_bulk_document(&documents[i]) {
                Some(b) => {
                    batches.push(b);
                    assert(batches_model(batches@) =~= batches_model(prev).push(contents_model(b.items@)));
                },
                None => {},
            }
            assert(docs.subrange(0, i as int + 1).drop_last() =~= docs.subrange(0, i as int));
            i = i + 1;
        }
        assert(docs.subrange(0, i as int) =~= docs);
        batches
    }

    /// Enqueues the documents of one evidence record, returning the batches
    /// that left.
    pub fn add_timeline_object(&mut self, object: &EvidenceObjectV1) -> (r: Vec<Batch>)
        ensures
            final(self)@.name == old(self)@.name,
            final(self)@.cache_size == old(self)@.cache_size,
            ({
                let all = enqueue_all(
                    old(self)@.pending,
                    old(self)@.cache_size,
                    object_documents(*object).map_values(|d: JsonModel| addressed(d)),
                );
                final(self)@.pending == all.0 && batches_model(r@) == all.1
            }),
    {
        let docs = object.documents();
        proof {
            lemma_items_model_len(docs@, docs@.len() as int);
            assert(docs@.map_values(|d: JsonValue| addressed(d@)) =~= object_documents(*object).map_values(
                |d: JsonModel| addressed(d),
            ));
        }
        self.add_documents(&docs)
    }

    /// Sets the threshold. Where fewer than the pending documents would be
    /// allowed, nothing is set yet: all pending documents leave as the
    /// returned batch and the old threshold stays. The caller writes the
    /// batch and, once that succeeded, sets the threshold again (the buffer
    /// is empty then, so the second call sets it). A failed write thus
    /// leaves the threshold as it was.
    pub fn set_cache_size(&mut self, cache_size: usize) -> (r: Option<Batch>)
        ensures
            final(self)@.name == old(self)@.name,
            cache_size < old(self)@.pending.len() ==> final(self)@.pending == Seq::<ContentModel>::empty()
                && final(self)@.cache_size == old(self)@.cache_size
                && r is Some && batch_model(r->Some_0) == (old(self)@.name, old(self)@.pending),
            cache_size >= old(self)@.pending.len() ==> final(self)@.pending == old(self)@.pending
                && final(self)@.cache_size == cache_size && r is None,
            final(self).well_formed(),
    {
        if cache_size < self.document_cache.len() {
            self.flush()
        } else {
            self.cache_size = cache_size;
            None
        }
    }

    /// Teardown: everything still pending leaves as one last batch; `None`
    /// where nothing is pending. No buffer remains to insert into.
    pub fn close(self) -> (r: Option<Batch>)
        ensures
            self@.pending.len() == 0 <==> r is None,
            r is Some ==> batch_model(r->Some_0) == (self@.name, self@.pending),
    {
        let mut me = self;
        me.flush()
    }
}

proof fn lemma_below_threshold(threshold: nat, docs: Seq<ContentModel>, k: int)
    requires
        0 <= k < threshold,
        k <= docs.len(),
    ensures
        enqueue_all(Seq::empty(), threshold, docs.subrange(0, k)) == (
            docs.subrange(0, k),
            Seq::<Seq<ContentModel>>::empty(),
        ),
    decreases k,
{
    if k > 0 {
        lemma_below_threshold(threshold, docs, k - 1);
        assert(docs.subrange(0, k).drop_last() =~= docs.subrange(0, k - 1));
        assert(docs.subrange(0, k - 1).push(docs.subrange(0, k).last()) =~= docs.subrange(0, k));
    } else {
        assert(docs.subrange(0, 0) =~= Seq::<ContentModel>::empty());
    }
}

/// Enqueueing exactly `threshold` documents into an empty buffer flushes
/// once, with all of them in one batch, and leaves nothing pending.
pub proof fn lemma_threshold_flushes_once(threshold: nat, docs: Seq<ContentModel>)
    requires
        threshold >= 1,
        docs.len() == threshold,
    ensures
        enqueue_all(Seq::empty(), threshold, docs) == (Seq::<ContentModel>::empty(), seq![docs]),
{
    lemma_below_threshold(threshold, docs, threshold - 1);
    assert(docs.drop_last() =~= docs.subrange(0, threshold - 1));
    assert(docs.subrange(0, threshold - 1).push(docs.last()) =~= docs);
    assert(Seq::<Seq<ContentModel>>::empty().push(docs) =~= seq![docs]);
}

/// Enqueueing `threshold + 1` documents into an empty buffer flushes once,
/// with the first `threshold` of them, and leaves the last one pending. (With
/// a threshold of 1 the last one reaches the threshold alone and leaves too.)
pub proof fn lemma_threshold_plus_one_leaves_one(threshold: nat, docs: Seq<ContentModel>)
    requires
        threshold >= 2,
        docs.len() == threshold + 1,
    ensures
        enqueue_all(Seq::empty(), threshold, docs) == (
            seq![docs.last()],
            seq![docs.subrange(0, threshold as int)],
        ),
{
    lemma_threshold_flushes_once(threshold, docs.drop_last());
    assert(docs.drop_last() =~= docs.subrange(0, threshold as int));
    assert(Seq::<ContentModel>::empty().push(docs.last()) =~= seq![docs.last()]);
}

/// What came of one bulk request.
#[derive(Clone, Copy, PartialEq, Eq, Structural, Debug)]
pub struct FlushReport {
    /// How many documents the batch held.
    pub items: usize,
    /// Whether the store reported failures for some of them.
    pub partial_failure: bool,
}

/// Why a flush or an index operation failed.
#[derive(Clone, Copy, PartialEq, Eq, Structural, Debug)]
pub enum IndexError {
    /// The store answered with a status outside 200..299.
    Status(u16),
    /// The store's answer lacked the per-item `errors` flag.
    MalformedResponse,
    /// Some items failed, and the caller asked for strictness.
    PartialFailure,
}

/// Whether an HTTP status reports success.
pub fn status_is_success(status: u16) -> (r: bool)
    ensures
        r == (200 <= status && status < 300),
{
    200 <= status && status < 300
}

/// Judges the store's answer to a bulk request of `items` documents: its
/// status, and the `errors` flag of its body where it could be read.
/// Partial failures fail the flush only in `strict` mode.
pub fn evaluate_bulk_response(status: u16, errors: Option<bool>, items: usize, strict: bool) -> (r: Result<
    FlushReport,
    IndexError,
>)
    ensures
        !(200 <= status && status < 300) ==> r == Err::<FlushReport, IndexError>(IndexError::Status(status)),
        (200 <= status && status < 300) ==> match errors {
            None => r == Err::<FlushReport, IndexError>(IndexError::MalformedResponse),
            Some(e) => if e && strict {
                r == Err::<FlushReport, IndexError>(IndexError::PartialFailure)
            } else {
                r == Ok::<FlushReport, IndexError>(FlushReport { items, partial_failure: e })
            },
        },
{
    if !status_is_success(status) {
        return Err(IndexError::Status(status));
    }
    match errors {
        None => Err(IndexError::MalformedResponse),
        Some(e) => {
            if e && strict {
                Err(IndexError::PartialFailure)
            } else {
                Ok(FlushReport { items, partial_failure: e })
            }
        },
    }
}

} // verus!

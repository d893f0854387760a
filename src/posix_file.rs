//! A filesystem-metadata record (one bodyfile line) and the documents it
//! yields: one per distinct instant among its four times.
use vstd::prelude::*;
use crate::ecs::{document, EcsBuilder, EcsModel};
use crate::content::addressed;
use crate::file::{file_members, path_extension, path_file_name, path_parent, File, FileModel};
use crate::json::{JsonModel, JsonValue};
use crate::macb::Macb;
use crate::order::lemma_sorted_unique;
use crate::timestamp::{read_epoch, InvalidTimestamp, TimeZone, Timestamp};

verus! {

/// The tag that marks documents read from bodyfile records.
pub const BODYFILE_TAG: &'static str = "bodyfile";

/// One filesystem-metadata record, with its times read into instants.
#[derive(Debug)]
pub struct PosixFile {
    pub name: String,
    pub inode: String,
    pub uid: u64,
    pub gid: u64,
    pub size: u64,
    pub atime: Option<Timestamp>,
    pub mtime: Option<Timestamp>,
    pub ctime: Option<Timestamp>,
    pub crtime: Option<Timestamp>,
}

/// `s` with `t` appended where `t` is present and new.
pub open spec fn add_distinct(s: Seq<Timestamp>, t: Option<Timestamp>) -> Seq<Timestamp> {
    match t {
        Some(t) => if s.contains(t) {
            s
        } else {
            s.push(t)
        },
        None => s,
    }
}

/// The distinct instants among a record's times, in M, A, C, B order of
/// first appearance.
pub open spec fn distinct_times(
    mtime: Option<Timestamp>,
    atime: Option<Timestamp>,
    ctime: Option<Timestamp>,
    crtime: Option<Timestamp>,
) -> Seq<Timestamp> {
    add_distinct(add_distinct(add_distinct(add_distinct(Seq::empty(), mtime), atime), ctime), crtime)
}

/// The flags of every role whose time is `t`.
pub open spec fn macb_at(p: PosixFile, t: Timestamp) -> Macb {
    Macb {
        modified: p.mtime == Some(t),
        accessed: p.atime == Some(t),
        changed: p.ctime == Some(t),
        created: p.crtime == Some(t),
    }
}

/// The `file` namespace of the document for instant `t`.
pub open spec fn file_at(p: PosixFile, t: Timestamp) -> FileModel {
    FileModel {
        mtime: p.mtime,
        accessed: p.atime,
        ctime: p.ctime,
        created: p.crtime,
        directory: path_parent(p.name@),
        extension: path_extension(p.name@),
        gid: p.gid,
        uid: p.uid,
        inode: p.inode@,
        mode: Seq::empty(),
        name: path_file_name(p.name@),
        path: Some(p.name@),
        size: p.size,
        target_path: None,
        file_type: None,
        macb: Some(macb_at(p, t)),
    }
}

/// The document for instant `t`: the file metadata with the flags at `t`,
/// the bodyfile tag, and the record's path as message.
pub open spec fn document_at(p: PosixFile, t: Timestamp) -> JsonModel {
    document(
        EcsModel {
            ts: t.ts as int,
            message: Some(p.name@),
            tags: seq![BODYFILE_TAG@],
            event: None,
            file: Some(JsonModel::Object(file_members(file_at(p, t)))),
            host: None,
            log: None,
        },
    )
}

/// The documents of a record, as (instant, document model) pairs.
pub open spec fn documents_of(p: PosixFile) -> Seq<(Timestamp, JsonModel)> {
    distinct_times(p.mtime, p.atime, p.ctime, p.crtime).map_values(
        |t: Timestamp| (t, document_at(p, t)),
    )
}

/// A record's four times in M, A, C, B order.
pub open spec fn times_of(p: PosixFile) -> Seq<Option<Timestamp>> {
    seq![p.mtime, p.atime, p.ctime, p.crtime]
}

proof fn lemma_add_distinct(s: Seq<Timestamp>, t: Timestamp)
    ensures
        add_distinct(s, Some(t)).len() == if s.contains(t) {
            s.len()
        } else {
            s.len() + 1
        },
        forall|x: Timestamp| add_distinct(s, Some(t)).contains(x) <==> (s.contains(x) || x == t),
{
    if !s.contains(t) {
        let n = s.push(t);
        assert(n[s.len() as int] == t);
        assert forall|x: Timestamp| n.contains(x) <==> (s.contains(x) || x == t) by {
            if s.contains(x) {
                let k = choose|k: int| 0 <= k < s.len() && s[k] == x;
                assert(n[k] == x);
            }
            if n.contains(x) && x != t {
                let k = choose|k: int| 0 <= k < n.len() && n[k] == x;
                assert(s[k] == x);
            }
        }
    }
}

/// Where all four times are present, two of them (roles `i` and `j`) share
/// an instant and the other two differ from it and from each other, the
/// record yields three documents, not four; the one for the shared instant
/// has exactly roles `i` and `j` set.
pub proof fn lemma_shared_instant_collapses(p: PosixFile, i: int, j: int)
    requires
        0 <= i < j < 4,
        forall|k: int| 0 <= k < 4 ==> (#[trigger] times_of(p)[k]) is Some,
        forall|a: int, b: int|
            0 <= a < b < 4 ==> ((#[trigger] times_of(p)[a] == #[trigger] times_of(p)[b]) <==> (a == i
                && b == j)),
    ensures
        documents_of(p).len() == 3,
        exists|k: int|
            0 <= k < 3 && #[trigger] documents_of(p)[k] == (
                times_of(p)[i]->0,
                document_at(p, times_of(p)[i]->0),
            ),
        forall|k: int|
            0 <= k < 4 ==> (#[trigger] macb_at(p, times_of(p)[i]->0).flags()[k] <==> (k == i || k
                == j)),
{
    let m = p.mtime->0;
    let a = p.atime->0;
    let c = p.ctime->0;
    let b = p.crtime->0;
    assert(times_of(p)[0] == p.mtime && times_of(p)[1] == p.atime);
    assert(times_of(p)[2] == p.ctime && times_of(p)[3] == p.crtime);
    let s0 = Seq::<Timestamp>::empty();
    let s1 = add_distinct(s0, p.mtime);
    let s2 = add_distinct(s1, p.atime);
    let s3 = add_distinct(s2, p.ctime);
    lemma_add_distinct(s0, m);
    lemma_add_distinct(s1, a);
    lemma_add_distinct(s2, c);
    lemma_add_distinct(s3, b);
    assert(times_of(p)[0] != times_of(p)[1] <==> !(i == 0 && j == 1));
    assert(times_of(p)[0] != times_of(p)[2] <==> !(i == 0 && j == 2));
    assert(times_of(p)[0] != times_of(p)[3] <==> !(i == 0 && j == 3));
    assert(times_of(p)[1] != times_of(p)[2] <==> !(i == 1 && j == 2));
    assert(times_of(p)[1] != times_of(p)[3] <==> !(i == 1 && j == 3));
    assert(times_of(p)[2] != times_of(p)[3] <==> !(i == 2 && j == 3));
    let d = distinct_times(p.mtime, p.atime, p.ctime, p.crtime);
    let t = times_of(p)[i]->0;
    assert(d.contains(t));
    let k = choose|k: int| 0 <= k < d.len() && d[k] == t;
    assert(documents_of(p)[k] == (t, document_at(p, t)));
}

/// The documents of a record are a function of its fields: two records with
/// the same fields yield the same documents, with the same identifiers.
pub proof fn lemma_documents_deterministic(p: PosixFile, q: PosixFile)
    requires
        p.name@ == q.name@,
        p.inode@ == q.inode@,
        p.uid == q.uid && p.gid == q.gid && p.size == q.size,
        p.atime == q.atime && p.mtime == q.mtime && p.ctime == q.ctime && p.crtime == q.crtime,
    ensures
        documents_of(p) == documents_of(q),
        forall|k: int|
            0 <= k < documents_of(p).len() ==> addressed(#[trigger] documents_of(p)[k].1).id
                == addressed(documents_of(q)[k].1).id,
{
    assert forall|t: Timestamp| document_at(p, t) == document_at(q, t) by {
        assert(file_at(p, t) == file_at(q, t));
        assert(macb_at(p, t) == macb_at(q, t));
    }
    assert(documents_of(p) =~= documents_of(q));
}

fn push_distinct(v: &mut Vec<Timestamp>, t: Option<Timestamp>)
    ensures
        final(v)@ == add_distinct(old(v)@, t),
{
    if let Some(t) = t {
        if !contains_time(v, t) {
            v.push(t);
        }
    }
}

fn contains_time(v: &Vec<Timestamp>, t: Timestamp) -> (r: bool)
    ensures
        r == v@.contains(t),
{
    let mut i: usize = 0;
    while i < v.len()
        invariant
            i <= v@.len(),
            forall|k: int| 0 <= k < i ==> v@[k] != t,
        decreases v@.len() - i,
    {
        if v[i].ts == t.ts {
            assert(v@[i as int] == t);
            return true;
        }
        i = i + 1;
    }
    false
}

impl PosixFile {
    /// A record from its fields, each raw time read in `tz`. The first time
    /// that cannot be read, in A, M, C, B order, is the error.
    #[allow(clippy::too_many_arguments)]
    pub fn try_from_values(
        name: String,
        inode: String,
        uid: u64,
        gid: u64,
        size: u64,
        atime: i64,
        mtime: i64,
        ctime: i64,
        crtime: i64,
        tz: &TimeZone,
    ) -> (r: Result<PosixFile, InvalidTimestamp>)
        ensures
            match r {
                Ok(p) => read_epoch(atime, tz@) == Ok::<_, InvalidTimestamp>(p.atime)
                    && read_epoch(mtime, tz@) == Ok::<_, InvalidTimestamp>(p.mtime)
                    && read_epoch(ctime, tz@) == Ok::<_, InvalidTimestamp>(p.ctime)
                    && read_epoch(crtime, tz@) == Ok::<_, InvalidTimestamp>(p.crtime)
                    && p.name == name && p.inode == inode && p.uid == uid && p.gid == gid
                    && p.size == size,
                Err(e) => if read_epoch(atime, tz@) is Err {
                    read_epoch(atime, tz@) == Err::<Option<Timestamp>, _>(e)
                } else if read_epoch(mtime, tz@) is Err {
                    read_epoch(mtime, tz@) == Err::<Option<Timestamp>, _>(e)
                } else if read_epoch(ctime, tz@) is Err {
                    read_epoch(ctime, tz@) == Err::<Option<Timestamp>, _>(e)
                } else {
                    read_epoch(crtime, tz@) == Err::<Option<Timestamp>, _>(e)
                },
            },
    {
        let atime = match Self::load_timestamp(atime, tz) {
            Ok(t) => t,
            Err(e) => return Err(e),
        };
        let mtime = match Self::load_timestamp(mtime, tz) {
            Ok(t) => t,
            Err(e) => return Err(e),
        };
        let ctime = match Self::load_timestamp(ctime, tz) {
            Ok(t) => t,
            Err(e) => return Err(e),
        };
        let crtime = match Self::load_timestamp(crtime, tz) {
            Ok(t) => t,
            Err(e) => return Err(e),
        };
        Ok(PosixFile { name, inode, uid, gid, size, atime, mtime, ctime, crtime })
    }

    pub fn get_inode(&self) -> (r: &str)
        ensures
            r@ == self.inode@,
    {
        self.inode.as_str()
    }

    /// Reads one raw time field: `-1` is absent.
    pub fn load_timestamp(ts: i64, tz: &TimeZone) -> (r: Result<Option<Timestamp>, InvalidTimestamp>)
        ensures
            r == read_epoch(ts, tz@),
            ts != -1 && tz@ == "UTC"@ && r is Ok ==> (r matches Ok(Some(t)) && t.millis() == ts * 1000),
    {
        Timestamp::from_epoch(ts, tz)
    }

    /// The roles whose time is `reference_ts`.
    pub fn generate_macb(&self, reference_ts: &Timestamp) -> (r: Macb)
        ensures
            r == macb_at(*self, *reference_ts),
    {
        Macb::compute(self.mtime, self.atime, self.ctime, self.crtime, *reference_ts)
    }

    /// The distinct instants among the record's times.
    pub fn distinct_times(&self) -> (r: Vec<Timestamp>)
        ensures
            r@ == distinct_times(self.mtime, self.atime, self.ctime, self.crtime),
    {
        let mut v: Vec<Timestamp> = Vec::new();
        push_distinct(&mut v, self.mtime);
        push_distinct(&mut v, self.atime);
        push_distinct(&mut v, self.ctime);
        push_distinct(&mut v, self.crtime);
        v
    }

    fn file_for(&self, t: &Timestamp) -> (r: File)
        ensures
            r@ == file_at(*self, *t),
    {
        let mut f = File::from(self.name.clone());
        f.inode = self.inode.clone();
        f.uid = self.uid;
        f.gid = self.gid;
        f.size = self.size;
        f.accessed = self.atime;
        f.mtime = self.mtime;
        f.ctime = self.ctime;
        f.created = self.crtime;
        f.macb = Some(self.generate_macb(t));
        assert(f@.mode =~= Seq::<char>::empty());
        f
    }

    /// The document for instant `t`.
    pub fn document_at(&self, t: &Timestamp) -> (r: JsonValue)
        ensures
            r@ == document_at(*self, *t),
    {
        let b = EcsBuilder::with(*t);
        let b = match b.with_file(self.file_for(t)) {
            Ok(b) => b,
            Err(_) => {
                assert(false);
                return JsonValue::Null;
            },
        };
        assert(b@.tags.to_set() =~= Set::<Seq<char>>::empty());
        let b = b.with_additional_tag(BODYFILE_TAG);
        proof {
            let one = seq![BODYFILE_TAG@];
            assert(one.to_set() =~= b@.tags.to_set()) by {
                assert(one[0] == BODYFILE_TAG@);
            }
            lemma_sorted_unique(b@.tags, one);
        }
        let b = b.with_message(self.name.as_str());
        b.build()
    }

    /// One document per distinct instant among the record's times, each with
    /// its instant, in M, A, C, B order of first appearance. The result is a
    /// function of the record alone.
    pub fn documents(&self) -> (r: Vec<(Timestamp, JsonValue)>)
        ensures
            r@.len() == documents_of(*self).len(),
            forall|i: int|
                0 <= i < r@.len() ==> r@[i].0 == documents_of(*self)[i].0 && (#[trigger] r@[i]).1@
                    == documents_of(*self)[i].1,
    {
        let times = self.distinct_times();
        let mut docs: Vec<(Timestamp, JsonValue)> = Vec::new();
        let mut i: usize = 0;
        while i < times.len()
            invariant
                i <= times@.len(),
                times@ == distinct_times(self.mtime, self.atime, self.ctime, self.crtime),
                docs@.len() == i,
                forall|k: int|
                    0 <= k < i ==> docs@[k].0 == times@[k] && (#[trigger] docs@[k]).1@ == document_at(
                        *self,
                        times@[k],
                    ),
            decreases times@.len() - i,
        {
            let t = times[i];
            let d = self.document_at(&t);
            docs.push((t, d));
            i = i + 1;
        }
        docs
    }
}

} // verus!

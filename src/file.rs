//! The `file` namespace of a document.
use vstd::prelude::*;
use crate::ecs::{opt_str, push_opt};
use crate::json::{push_item, push_member, JsonModel, JsonValue, items_model, members_model};
use crate::macb::{macb_long, macb_short, Macb};
use crate::timestamp::Timestamp;

verus! {

#[derive(Clone, Copy, PartialEq, Eq, Structural, Debug)]
pub enum FileType {
    File,
    Dir,
    Symlink,
}

pub open spec fn file_type_name(t: FileType) -> Seq<char> {
    match t {
        FileType::File => "File"@,
        FileType::Dir => "Dir"@,
        FileType::Symlink => "Symlink"@,
    }
}

/// File metadata as the `file` namespace holds it. Absent values are left
/// out of the document.
#[derive(Debug)]
pub struct File {
    pub mtime: Option<Timestamp>,
    pub accessed: Option<Timestamp>,
    pub ctime: Option<Timestamp>,
    pub created: Option<Timestamp>,
    pub directory: Option<String>,
    pub extension: Option<String>,
    pub gid: u64,
    pub uid: u64,
    pub inode: String,
    pub mode: String,
    pub name: Option<String>,
    pub path: Option<String>,
    pub size: u64,
    pub target_path: Option<String>,
    pub file_type: Option<FileType>,
    pub macb: Option<Macb>,
}

/// The model of `File`: the same fields, text as character sequences.
pub struct FileModel {
    pub mtime: Option<Timestamp>,
    pub accessed: Option<Timestamp>,
    pub ctime: Option<Timestamp>,
    pub created: Option<Timestamp>,
    pub directory: Option<Seq<char>>,
    pub extension: Option<Seq<char>>,
    pub gid: u64,
    pub uid: u64,
    pub inode: Seq<char>,
    pub mode: Seq<char>,
    pub name: Option<Seq<char>>,
    pub path: Option<Seq<char>>,
    pub size: u64,
    pub target_path: Option<Seq<char>>,
    pub file_type: Option<FileType>,
    pub macb: Option<Macb>,
}

impl View for File {
    type V = FileModel;

    open spec fn view(&self) -> FileModel {
        FileModel {
            mtime: self.mtime,
            accessed: self.accessed,
            ctime: self.ctime,
            created: self.created,
            directory: opt_str(self.directory),
            extension: opt_str(self.extension),
            gid: self.gid,
            uid: self.uid,
            inode: self.inode@,
            mode: self.mode@,
            name: opt_str(self.name),
            path: opt_str(self.path),
            size: self.size,
            target_path: opt_str(self.target_path),
            file_type: self.file_type,
            macb: self.macb,
        }
    }
}

/// The last component of a path, as `std::path::Path::file_name` gives it.
/// Path syntax is that of the target the library is built for (on Windows
/// `\` separates components too); it is fixed for a given build.
pub uninterp spec fn path_file_name(path: Seq<char>) -> Option<Seq<char>>;

/// The extension of a path's last component, as `Path::extension` gives it,
/// in the build target's path syntax.
pub uninterp spec fn path_extension(path: Seq<char>) -> Option<Seq<char>>;

/// A path without its last component, as `Path::parent` gives it, in the
/// build target's path syntax.
pub uninterp spec fn path_parent(path: Seq<char>) -> Option<Seq<char>>;

/// Relies on `std::path::Path::file_name`; a component of a `str` path is
/// valid UTF-8, so `to_str` keeps it whole.
#[verifier::external_body]
fn file_name_of(path: &str) -> (r: Option<String>)
    ensures
        opt_str(r) == path_file_name(path@),
{
    match std::path::Path::new(path).file_name() {
        Some(c) => match c.to_str() {
            Some(s) => Some(s.to_string()),
            None => None,
        },
        None => None,
    }
}

/// Relies on `std::path::Path::extension`; see `file_name_of`.
#[verifier::external_body]
fn extension_of(path: &str) -> (r: Option<String>)
    ensures
        opt_str(r) == path_extension(path@),
{
    match std::path::Path::new(path).extension() {
        Some(c) => match c.to_str() {
            Some(s) => Some(s.to_string()),
            None => None,
        },
        None => None,
    }
}

/// Relies on `std::path::Path::parent`; see `file_name_of`.
#[verifier::external_body]
fn parent_of(path: &str) -> (r: Option<String>)
    ensures
        opt_str(r) == path_parent(path@),
{
    match std::path::Path::new(path).parent() {
        Some(p) => match p.to_str() {
            Some(s) => Some(s.to_string()),
            None => None,
        },
        None => None,
    }
}

pub open spec fn opt_time(t: Option<Timestamp>) -> Option<JsonModel> {
    match t {
        Some(t) => Some(JsonModel::Num(t.ts as int)),
        None => None,
    }
}

pub open spec fn opt_text(s: Option<Seq<char>>) -> Option<JsonModel> {
    match s {
        Some(s) => Some(JsonModel::Str(s)),
        None => None,
    }
}

/// The members of the `file` object, keys in byte order, absent values left
/// out; `macb_long` and `macb_short` show where flags are attached.
pub open spec fn file_members(f: FileModel) -> Seq<(Seq<char>, JsonModel)> {
    let a = push_opt(
        push_opt(
            push_opt(
                push_opt(push_opt(Seq::empty(), "accessed"@, opt_time(f.accessed)), "created"@, opt_time(f.created)),
                "ctime"@,
                opt_time(f.ctime),
            ),
            "directory"@,
            opt_text(f.directory),
        ),
        "extension"@,
        opt_text(f.extension),
    );
    let b = a.push(("gid"@, JsonModel::Num(f.gid as int))).push(("inode"@, JsonModel::Str(f.inode)));
    let c = match f.macb {
        Some(m) => b.push(
            ("macb_long"@, JsonModel::Array(macb_long(m).map_values(|s: Seq<char>| JsonModel::Str(s)))),
        ).push(("macb_short"@, JsonModel::Str(macb_short(m)))),
        None => b,
    };
    let d = push_opt(
        push_opt(
            push_opt(c.push(("mode"@, JsonModel::Str(f.mode))), "mtime"@, opt_time(f.mtime)),
            "name"@,
            opt_text(f.name),
        ),
        "path"@,
        opt_text(f.path),
    );
    let e = push_opt(d.push(("size"@, JsonModel::Num(f.size as int))), "target_path"@, opt_text(f.target_path));
    let g = match f.file_type {
        Some(t) => e.push(("type"@, JsonModel::Str(file_type_name(t)))),
        None => e,
    };
    g.push(("uid"@, JsonModel::Num(f.uid as int)))
}

fn push_time(members: &mut Vec<(String, JsonValue)>, key: &str, t: Option<Timestamp>)
    ensures
        members_model(final(members)@) == push_opt(members_model(old(members)@), key@, opt_time(t)),
{
    match t {
        Some(t) => push_member(members, key, JsonValue::Int(t.ts)),
        None => {},
    }
}

fn push_text(members: &mut Vec<(String, JsonValue)>, key: &str, s: &Option<String>)
    ensures
        members_model(final(members)@) == push_opt(members_model(old(members)@), key@, opt_text(opt_str(*s))),
{
    match s {
        Some(s) => push_member(members, key, JsonValue::Str(s.clone())),
        None => {},
    }
}

impl FileType {
    pub fn name(&self) -> (r: &'static str)
        ensures
            r@ == file_type_name(*self),
    {
        match self {
            FileType::File => "File",
            FileType::Dir => "Dir",
            FileType::Symlink => "Symlink",
        }
    }
}

impl File {
    /// Metadata for the file at `filename`: its path, and the name,
    /// extension and directory read from it; all else empty.
    pub fn from(filename: String) -> (r: File)
        ensures
            r.path == Some(filename),
            opt_str(r.name) == path_file_name(filename@),
            opt_str(r.extension) == path_extension(filename@),
            opt_str(r.directory) == path_parent(filename@),
            r.mtime is None && r.accessed is None && r.ctime is None && r.created is None,
            r.gid == 0 && r.uid == 0 && r.size == 0,
            r.inode@ == Seq::<char>::empty() && r.mode@ == Seq::<char>::empty(),
            r.target_path is None && r.file_type is None && r.macb is None,
    {
        let name = file_name_of(filename.as_str());
        let extension = extension_of(filename.as_str());
        let directory = parent_of(filename.as_str());
        File {
            mtime: None,
            accessed: None,
            ctime: None,
            created: None,
            directory,
            extension,
            gid: 0,
            uid: 0,
            inode: String::new(),
            mode: String::new(),
            name,
            path: Some(filename),
            size: 0,
            target_path: None,
            file_type: None,
            macb: None,
        }
    }

    pub fn with_mtime(self, value: Option<Timestamp>) -> (r: File)
        ensures
            r == (File { mtime: value, ..self }),
    {
        File { mtime: value, ..self }
    }

    pub fn with_accessed(self, value: Option<Timestamp>) -> (r: File)
        ensures
            r == (File { accessed: value, ..self }),
    {
        File { accessed: value, ..self }
    }

    pub fn with_ctime(self, value: Option<Timestamp>) -> (r: File)
        ensures
            r == (File { ctime: value, ..self }),
    {
        File { ctime: value, ..self }
    }

    pub fn with_created(self, value: Option<Timestamp>) -> (r: File)
        ensures
            r == (File { created: value, ..self }),
    {
        File { created: value, ..self }
    }

    pub fn with_target_path(self, value: Option<String>) -> (r: File)
        ensures
            r == (File { target_path: value, ..self }),
    {
        File { target_path: value, ..self }
    }

    pub fn with_type(self, value: Option<FileType>) -> (r: File)
        ensures
            r == (File { file_type: value, ..self }),
    {
        File { file_type: value, ..self }
    }

    pub fn with_gid(self, value: u64) -> (r: File)
        ensures
            r == (File { gid: value, ..self }),
    {
        File { gid: value, ..self }
    }

    pub fn with_uid(self, value: u64) -> (r: File)
        ensures
            r == (File { uid: value, ..self }),
    {
        File { uid: value, ..self }
    }

    pub fn with_inode(self, value: String) -> (r: File)
        ensures
            r == (File { inode: value, ..self }),
    {
        File { inode: value, ..self }
    }

    pub fn with_mode(self, value: String) -> (r: File)
        ensures
            r == (File { mode: value, ..self }),
    {
        File { mode: value, ..self }
    }

    pub fn with_size(self, value: u64) -> (r: File)
        ensures
            r == (File { size: value, ..self }),
    {
        File { size: value, ..self }
    }

    /// The `file` object.
    pub fn to_json(&self) -> (r: JsonValue)
        ensures
            r@ == JsonModel::Object(file_members(self@)),
    {
        let mut m: Vec<(String, JsonValue)> = Vec::new();
        assert(members_model(m@) =~= Seq::<(Seq<char>, JsonModel)>::empty());
        push_time(&mut m, "accessed", self.accessed);
        push_time(&mut m, "created", self.created);
        push_time(&mut m, "ctime", self.ctime);
        push_text(&mut m, "directory", &self.directory);
        push_text(&mut m, "extension", &self.extension);
        push_member(&mut m, "gid", JsonValue::UInt(self.gid));
        push_member(&mut m, "inode", JsonValue::Str(self.inode.clone()));
        match self.macb {
            Some(flags) => {
                let names = flags.long();
                let mut items: Vec<JsonValue> = Vec::new();
                assert(items_model(items@) =~= Seq::<JsonModel>::empty());
                let ghost long = macb_long(flags);
                let mut i: usize = 0;
                while i < names.len()
                    invariant
                        i <= names@.len(),
                        names@.map_values(|s: String| s@) == long,
                        items_model(items@) =~= long.subrange(0, i as int).map_values(
                            |s: Seq<char>| JsonModel::Str(s),
                        ),
                    decreases names@.len() - i,
                {
                    push_item(&mut items, JsonValue::Str(names[i].clone()));
                    assert(long.subrange(0, i as int + 1).map_values(|s: Seq<char>| JsonModel::Str(s))
                        =~= long.subrange(0, i as int).map_values(|s: Seq<char>| JsonModel::Str(s)).push(
                        JsonModel::Str(long[i as int]),
                    ));
                    i = i + 1;
                }
                assert(long.subrange(0, i as int) =~= long);
                push_member(&mut m, "macb_long", JsonValue::Array(items));
                push_member(&mut m, "macb_short", JsonValue::Str(flags.short()));
            },
            None => {},
        }
        push_member(&mut m, "mode", JsonValue::Str(self.mode.clone()));
        push_time(&mut m, "mtime", self.mtime);
        push_text(&mut m, "name", &self.name);
        push_text(&mut m, "path", &self.path);
        push_member(&mut m, "size", JsonValue::UInt(self.size));
        push_text(&mut m, "target_path", &self.target_path);
        match self.file_type {
            Some(t) => push_member(&mut m, "type", JsonValue::Str(t.name().to_string())),
            None => {},
        }
        push_member(&mut m, "uid", JsonValue::UInt(self.uid));
        let r = JsonValue::Object(m);
        assert(members_model(m@) =~= file_members(self@));
        r
    }
}

} // verus!

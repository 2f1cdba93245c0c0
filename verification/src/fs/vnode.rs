//! Virtual nodes: directories, files, control files and symlinks.
use vstd::prelude::*;
use vstd::string::*;
use vstd::utf8::{decode_utf8, encode_utf8, valid_utf8};
use crate::text::{join_text, joined};

verus! {

/// A virtual node in the Plan 9-inspired filesystem.
#[derive(Debug, Clone)]
pub enum Vnode {
    Dir(Vdir),
    File(Vfile),
    Ctl(Vctl),
    Symlink(String),
}

/// Virtual directory.
#[derive(Debug, Clone)]
pub struct Vdir {
    pub name: String,
    pub children: Vec<String>,
}

/// Virtual file (read/write data).
#[derive(Debug, Clone)]
pub struct Vfile {
    pub name: String,
    pub content: Vec<u8>,
}

/// Control file (write sets the status, read returns it).
#[derive(Debug, Clone)]
pub struct Vctl {
    pub name: String,
    pub status: String,
}

/// Request to read a virtual file.
#[derive(Debug, Clone)]
pub struct ReadRequest {
    pub path: String,
    pub offset: Option<u64>,
    pub count: Option<u64>,
}

/// Request to write a virtual file.
#[derive(Debug, Clone)]
pub struct WriteRequest {
    pub path: String,
    pub data: Vec<u8>,
    pub offset: Option<u64>,
}

/// Response from a virtual filesystem operation.
#[derive(Debug, Clone)]
pub struct FsResponse {
    pub path: String,
    pub data: Option<Vec<u8>>,
    pub error: Option<String>,
}

/// Helper to identify vnode kinds without a full clone.
#[derive(Debug, Clone, Copy, PartialEq, Eq, Structural)]
pub enum VnodeKind {
    Dir,
    File,
    Ctl,
    Symlink,
}

/// Why a filesystem operation was refused.
#[derive(Debug, Clone, Copy, PartialEq, Eq, Structural)]
pub enum VfsError {
    NotFound,
    IsDirectory,
    IsSymlink,
}

/// The mathematical content of a node.
pub enum VnodeView {
    Dir { name: Seq<char>, children: Seq<Seq<char>> },
    File { name: Seq<char>, content: Seq<u8> },
    Ctl { name: Seq<char>, status: Seq<char> },
    Symlink { target: Seq<char> },
}

/// The character views of a list of strings.
pub open spec fn texts(v: Seq<String>) -> Seq<Seq<char>> {
    v.map_values(|s: String| s@)
}

impl View for Vnode {
    type V = VnodeView;

    open spec fn view(&self) -> VnodeView {
        match self {
            Vnode::Dir(d) => VnodeView::Dir { name: d.name@, children: texts(d.children@) },
            Vnode::File(f) => VnodeView::File { name: f.name@, content: f.content@ },
            Vnode::Ctl(c) => VnodeView::Ctl { name: c.name@, status: c.status@ },
            Vnode::Symlink(t) => VnodeView::Symlink { target: t@ },
        }
    }
}

/// The bytes a read of the node returns: a file's content, a control
/// file's status and a symlink's target as UTF-8, a directory's children
/// one per line.
pub open spec fn read_bytes(v: VnodeView) -> Seq<u8> {
    match v {
        VnodeView::Dir { children, .. } => encode_utf8(joined(children, seq!['\n'])),
        VnodeView::File { content, .. } => content,
        VnodeView::Ctl { status, .. } => encode_utf8(status),
        VnodeView::Symlink { target } => encode_utf8(target),
    }
}

/// The text `String::from_utf8_lossy` makes of `bytes`.
pub uninterp spec fn utf8_lossy(bytes: Seq<u8>) -> Seq<char>;

/// `String::from_utf8_lossy`, made owned: the bytes decoded as UTF-8 with
/// invalid sequences replaced. For valid UTF-8 this is the plain decoding,
/// as the documentation of `from_utf8_lossy` states.
#[verifier::external_body]
fn lossy_text(bytes: &[u8]) -> (r: String)
    ensures
        r@ == utf8_lossy(bytes@),
        valid_utf8(bytes@) ==> r@ == decode_utf8(bytes@),
{
    String::from_utf8_lossy(bytes).into_owned()
}

/// The node after a successful write of `data`: a file holds the bytes, a
/// control file the text `from_utf8_lossy` makes of them.
pub open spec fn written(v: VnodeView, data: Seq<u8>) -> VnodeView {
    match v {
        VnodeView::File { name, .. } => VnodeView::File { name, content: data },
        VnodeView::Ctl { name, .. } => VnodeView::Ctl { name, status: utf8_lossy(data) },
        _ => v,
    }
}

/// The refusal a write meets, if any.
pub open spec fn write_refusal(v: VnodeView) -> Option<VfsError> {
    match v {
        VnodeView::Dir { .. } => Some(VfsError::IsDirectory),
        VnodeView::Symlink { .. } => Some(VfsError::IsSymlink),
        _ => None,
    }
}

impl VfsError {
    /// The message the hub reports for this refusal.
    pub fn message(&self) -> (r: String)
        ensures
            *self == VfsError::NotFound ==> r@ == "not found"@,
            *self == VfsError::IsDirectory ==> r@ == "cannot write to directory"@,
            *self == VfsError::IsSymlink ==> r@ == "cannot write to symlink"@,
    {
        match self {
            VfsError::NotFound => String::from_str("not found"),
            VfsError::IsDirectory => String::from_str("cannot write to directory"),
            VfsError::IsSymlink => String::from_str("cannot write to symlink"),
        }
    }
}

impl Vnode {
    pub fn kind(&self) -> (k: VnodeKind)
        ensures
            k == (match self@ {
                VnodeView::Dir { .. } => VnodeKind::Dir,
                VnodeView::File { .. } => VnodeKind::File,
                VnodeView::Ctl { .. } => VnodeKind::Ctl,
                VnodeView::Symlink { .. } => VnodeKind::Symlink,
            }),
    {
        match self {
            Vnode::Dir(_) => VnodeKind::Dir,
            Vnode::File(_) => VnodeKind::File,
            Vnode::Ctl(_) => VnodeKind::Ctl,
            Vnode::Symlink(_) => VnodeKind::Symlink,
        }
    }

    pub fn name(&self) -> (n: &str)
        ensures
            n@ == (match self@ {
                VnodeView::Dir { name, .. } => name,
                VnodeView::File { name, .. } => name,
                VnodeView::Ctl { name, .. } => name,
                VnodeView::Symlink { target } => target,
            }),
    {
        match self {
            Vnode::Dir(d) => d.name.as_str(),
            Vnode::File(f) => f.name.as_str(),
            Vnode::Ctl(c) => c.name.as_str(),
            Vnode::Symlink(s) => s.as_str(),
        }
    }

    pub fn is_dir(&self) -> (b: bool)
        ensures
            b == (self@ is Dir),
    {
        match self {
            Vnode::Dir(_) => true,
            _ => false,
        }
    }

    pub fn new_dir(name: String) -> (v: Self)
        ensures
            v@ == (VnodeView::Dir { name: name@, children: Seq::empty() }),
    {
        let v = Vnode::Dir(Vdir { name, children: Vec::new() });
        proof {
            assert(texts(Seq::<String>::empty()) =~= Seq::<Seq<char>>::empty());
        }
        v
    }

    pub fn new_file(name: String, content: Vec<u8>) -> (v: Self)
        ensures
            v@ == (VnodeView::File { name: name@, content: content@ }),
    {
        Vnode::File(Vfile { name, content })
    }

    pub fn new_ctl(name: String, status: String) -> (v: Self)
        ensures
            v@ == (VnodeView::Ctl { name: name@, status: status@ }),
    {
        Vnode::Ctl(Vctl { name, status })
    }

    /// The node's bytes: a file's content, a control file's status, a
    /// symlink's target, a directory's children one per line.
    pub fn read(&self) -> (r: Vec<u8>)
        ensures
            r@ == read_bytes(self@),
    {
        match self {
            Vnode::File(f) => f.content.clone(),
            Vnode::Ctl(c) => c.status.as_str().as_bytes_vec(),
            Vnode::Dir(d) => {
                let listing = join_text(&d.children, "\n");
                proof {
                    reveal_strlit("\n");
                    assert("\n"@ =~= seq!['\n']);
                }
                listing.as_str().as_bytes_vec()
            }
            Vnode::Symlink(target) => target.as_str().as_bytes_vec(),
        }
    }

    /// Writes `data` into this node: a file takes the bytes, a control file
    /// the text decoded from them; directories and symlinks refuse. A node
    /// placed in a registry is written through the registry
    /// (`VfsRegistry::write` or a `NodeHandle`).
    pub fn write(&mut self, data: Vec<u8>) -> (r: Result<(), VfsError>)
        ensures
            r matches Err(e) ==> write_refusal(old(self)@) == Some(e) && final(self)@ == old(self)@,
            r is Ok ==> write_refusal(old(self)@) is None && final(self)@ == written(old(self)@, data@),
            r is Ok && valid_utf8(data@) ==> read_bytes(final(self)@) == data@,
    {
        match self {
            Vnode::File(f) => {
                f.content = data;
                Ok(())
            }
            Vnode::Ctl(c) => {
                c.status = lossy_text(data.as_slice());
                proof {
                    if valid_utf8(data@) {
                        vstd::utf8::decode_utf8_encode_utf8(data@);
                    }
                }
                Ok(())
            }
            Vnode::Dir(_) => Err(VfsError::IsDirectory),
            Vnode::Symlink(_) => Err(VfsError::IsSymlink),
        }
    }
}

/// Reading a file gives back exactly the bytes last written to it.
pub proof fn file_read_after_write(v: VnodeView, data: Seq<u8>)
    requires
        v is File,
    ensures
        read_bytes(written(v, data)) == data,
{
}

} // verus!

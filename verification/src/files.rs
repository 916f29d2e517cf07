use vstd::prelude::*;

verus! {

/// How changes are carried out: `Passive` only reports what would be done,
/// `Interactive` asks first, `Active` makes the change.
#[derive(Clone, Copy, Debug, PartialEq, Eq)]
pub enum Mode {
    Active,
    Passive,
    Interactive,
}

/// What `std::path::Path::parent` gives for a path, as characters.
pub uninterp spec fn path_parent_of(p: Seq<char>) -> Option<Seq<char>>;

/// The parent directory of `p`: `std::path::Path::parent`.
///
/// Trusted: the parent is named by `path_parent_of`; the contract also
/// states that it is a proper prefix of `p`, as the documentation says
/// ("the Path without its final component") and the source shows (a
/// subslice that ends before the final, non-empty component). Which prefix
/// it is, is left unsaid.
#[verifier::external_body]
pub(crate) fn path_parent(p: &str) -> (res: Option<String>)
    ensures
        res matches Some(q) ==> path_parent_of(p@) == Some(q@),
        res is None ==> path_parent_of(p@) is None,
        res matches Some(q) ==> q@.len() < p@.len() && q@ == p@.subrange(0, q@.len() as int),
{
    std::path::Path::new(p).parent().map(|q| q.to_string_lossy().into_owned())
}

/// A template file that is read.
#[derive(Debug)]
pub struct SrcFile {
    path: String,
}

/// A file is seen as its path.
impl View for SrcFile {
    type V = Seq<char>;

    closed spec fn view(&self) -> Seq<char> {
        self.path@
    }
}

impl SrcFile {
    pub fn new(path: String) -> (f: SrcFile)
        ensures
            f@ == path@,
    {
        SrcFile { path: path }
    }

    /// The file's path.
    pub fn path(&self) -> (p: &str)
        ensures
            p@ == self@,
    {
        self.path.as_str()
    }
}

/// A destination file that is created or updated.
#[derive(Debug)]
pub struct DestFile {
    path: String,
}

/// A file is seen as its path.
impl View for DestFile {
    type V = Seq<char>;

    closed spec fn view(&self) -> Seq<char> {
        self.path@
    }
}

impl DestFile {
    pub fn new(path: String) -> (f: DestFile)
        ensures
            f@ == path@,
    {
        DestFile { path: path }
    }

    /// The file's path.
    pub fn path(&self) -> (p: &str)
        ensures
            p@ == self@,
    {
        self.path.as_str()
    }

    /// The directory that holds the file, if its path names one.
    pub fn parent(&self) -> (d: Option<String>)
        ensures
            d matches Some(q) ==> path_parent_of(self@) == Some(q@),
            d is None ==> path_parent_of(self@) is None,
    {
        path_parent(self.path.as_str())
    }
}

/// The generated file that a destination is compared with.
#[derive(Debug)]
pub struct GenFile {
    path: String,
}

/// A file is seen as its path.
impl View for GenFile {
    type V = Seq<char>;

    closed spec fn view(&self) -> Seq<char> {
        self.path@
    }
}

impl GenFile {
    /// The generated file at `path`, a fresh temporary file.
    pub fn new(path: String) -> (f: GenFile)
        ensures
            f@ == path@,
    {
        GenFile { path: path }
    }

    /// The file's path.
    pub fn path(&self) -> (p: &str)
        ensures
            p@ == self@,
    {
        self.path.as_str()
    }
}

} // verus!

//! The embedded asset store and the resolver that answers custom-scheme
//! requests from it.
use vstd::prelude::*;
use vstd::string::*;
use crate::text::{decimal, decimal_string, str_eq};

verus! {

/// One bundled file: its path relative to the bundle root and its bytes.
pub struct Asset {
    pub path: String,
    pub contents: Vec<u8>,
}

/// Why a file could not be added to the store.
#[derive(Clone, Copy, Debug, PartialEq, Eq, Structural)]
pub enum StoreError {
    /// The path is empty, absolute, or has a `..` segment.
    InvalidPath,
    /// A file with the same path is already stored.
    DuplicatePath,
}

/// A `..` segment starts at index `i` of `p`.
pub open spec fn dot_dot_at(p: Seq<char>, i: int) -> bool {
    &&& 0 <= i
    &&& i + 1 < p.len()
    &&& p[i] == '.'
    &&& p[i + 1] == '.'
    &&& (i == 0 || p[i - 1] == '/')
    &&& (i + 2 == p.len() || p[i + 2] == '/')
}

/// A relative, forward-slash separated path with no `..` segment.
pub open spec fn valid_path(p: Seq<char>) -> bool {
    &&& p.len() > 0
    &&& p[0] != '/'
    &&& forall|i: int| !dot_dot_at(p, i)
}

/// Whether `p` is a path the store accepts.
pub fn is_valid_path(p: &str) -> (r: bool)
    ensures
        r == valid_path(p@),
{
    let n = p.unicode_len();
    if n == 0 || p.get_char(0) == '/' {
        return false;
    }
    let mut i: usize = 0;
    while i < n
        invariant
            n == p@.len(),
            i <= n,
            forall|j: int| j < i ==> !dot_dot_at(p@, j),
        decreases n - i,
    {
        if i + 1 < n && p.get_char(i) == '.' && p.get_char(i + 1) == '.' && (i == 0 || p.get_char(
            i - 1,
        ) == '/') && (i + 2 == n || p.get_char(i + 2) == '/') {
            assert(dot_dot_at(p@, i as int));
            return false;
        }
        i = i + 1;
    }
    assert forall|j: int| !dot_dot_at(p@, j) by {
        if j >= n {
            assert(!dot_dot_at(p@, j));
        }
    }
    true
}

/// A read-only map from relative path to file contents.
pub struct AssetStore {
    assets: Vec<Asset>,
}

impl AssetStore {
    /// The stored files, in the order they were added.
    pub closed spec fn entries(&self) -> Seq<Asset> {
        self.assets@
    }

    /// Whether a file with path `p` is stored.
    pub open spec fn contains(&self, p: Seq<char>) -> bool {
        exists|i: int| 0 <= i < self.entries().len() && #[trigger] self.entries()[i].path@ == p
    }

    /// The contents stored under `p`.
    pub open spec fn contents_of(&self, p: Seq<char>) -> Seq<u8> {
        let i = choose|i: int| 0 <= i < self.entries().len() && #[trigger] self.entries()[i].path@ == p;
        self.entries()[i].contents@
    }

    /// The store as a map from path to contents.
    pub open spec fn view(&self) -> Map<Seq<char>, Seq<u8>> {
        Map::new(|p: Seq<char>| self.contains(p), |p: Seq<char>| self.contents_of(p))
    }

    /// Paths are valid and no two files share one.
    pub open spec fn wf(&self) -> bool {
        &&& forall|i: int|
            0 <= i < self.entries().len() ==> valid_path(#[trigger] self.entries()[i].path@)
        &&& forall|i: int, j: int|
            0 <= i < j < self.entries().len() ==> self.entries()[i].path@
                != self.entries()[j].path@
    }

    /// An empty store.
    pub fn new() -> (r: AssetStore)
        ensures
            r.wf(),
            r@ == Map::<Seq<char>, Seq<u8>>::empty(),
    {
        let r = AssetStore { assets: Vec::new() };
        assert(r@ =~= Map::<Seq<char>, Seq<u8>>::empty());
        r
    }

    fn find(&self, p: &str) -> (r: Option<usize>)
        requires
            self.wf(),
        ensures
            r is None <==> !self.contains(p@),
            r matches Some(i) ==> i < self.entries().len() && self.entries()[i as int].path@ == p@,
    {
        let n = self.assets.len();
        let mut i: usize = 0;
        while i < n
            invariant
                n == self.entries().len(),
                i <= n,
                forall|j: int| 0 <= j < i ==> self.entries()[j].path@ != p@,
            decreases n - i,
        {
            if str_eq(self.assets[i].path.as_str(), p) {
                return Some(i);
            }
            i = i + 1;
        }
        None
    }

    proof fn lemma_contents_at(&self, i: int)
        requires
            self.wf(),
            0 <= i < self.entries().len(),
        ensures
            self.contains(self.entries()[i].path@),
            self.contents_of(self.entries()[i].path@) == self.entries()[i].contents@,
    {
        let p = self.entries()[i].path@;
        assert(self.entries()[i].path@ == p);
        let k = choose|k: int| 0 <= k < self.entries().len() && #[trigger] self.entries()[k].path@ == p;
        if k < i {
            assert(self.entries()[k].path@ != self.entries()[i].path@);
        } else if k > i {
            assert(self.entries()[i].path@ != self.entries()[k].path@);
        }
    }

    /// Adds a file; the path must be valid and not yet stored.
    pub fn add(&mut self, path: String, contents: Vec<u8>) -> (r: Result<(), StoreError>)
        requires
            old(self).wf(),
        ensures
            final(self).wf(),
            !valid_path(path@) ==> r == Err::<(), StoreError>(StoreError::InvalidPath),
            valid_path(path@) && old(self)@.contains_key(path@) ==> r == Err::<(), StoreError>(
                StoreError::DuplicatePath,
            ),
            r is Err ==> final(self)@ == old(self)@,
            r is Ok <==> valid_path(path@) && !old(self)@.contains_key(path@),
            r is Ok ==> final(self)@ == old(self)@.insert(path@, contents@),
    {
        if !is_valid_path(path.as_str()) {
            return Err(StoreError::InvalidPath);
        }
        if self.find(path.as_str()).is_some() {
            return Err(StoreError::DuplicatePath);
        }
        let ghost before = *self;
        let ghost p = path@;
        let ghost c = contents@;
        self.assets.push(Asset { path, contents });
        proof {
            let n = before.entries().len() as int;
            assert(forall|j: int| 0 <= j < n ==> self.entries()[j] == before.entries()[j]);
            assert(self.entries()[n].path@ == p);
            assert(self.wf());
            assert forall|q: Seq<char>| #[trigger] self@.contains_key(q) == before@.insert(p, c).contains_key(q) by {
                if q != p && self.contains(q) {
                    let k = choose|k: int| 0 <= k < self.entries().len() && #[trigger] self.entries()[k].path@ == q;
                    assert(before.entries()[k].path@ == q);
                }
                if before.contains(q) {
                    let k = choose|k: int| 0 <= k < before.entries().len() && #[trigger] before.entries()[k].path@ == q;
                    assert(self.entries()[k].path@ == q);
                }
            }
            assert forall|q: Seq<char>| #[trigger] self@.contains_key(q) implies self@[q] == before@.insert(p, c)[q] by {
                let k = choose|k: int| 0 <= k < self.entries().len() && #[trigger] self.entries()[k].path@ == q;
                self.lemma_contents_at(k);
                if q != p {
                    assert(k < n);
                    before.lemma_contents_at(k);
                } else {
                    self.lemma_contents_at(n);
                }
            }
            assert(self@ =~= before@.insert(p, c));
        }
        Ok(())
    }

    /// The contents stored under `path`, if any.
    pub fn get(&self, path: &str) -> (r: Option<&Vec<u8>>)
        requires
            self.wf(),
        ensures
            r is Some <==> self@.contains_key(path@),
            r matches Some(c) ==> c@ == self@[path@],
    {
        match self.find(path) {
            None => None,
            Some(i) => {
                proof {
                    self.lemma_contents_at(i as int);
                }
                Some(&self.assets[i].contents)
            }
        }
    }
}

/// Index of the last `.` in `p`, or -1 when there is none.
pub open spec fn last_dot(p: Seq<char>) -> int
    decreases p.len(),
{
    if p.len() == 0 {
        -1
    } else if p.last() == '.' {
        p.len() - 1
    } else {
        last_dot(p.drop_last())
    }
}

/// What follows the last `.` of `p`; empty when `p` has no `.`.
pub open spec fn extension(p: Seq<char>) -> Seq<char> {
    if last_dot(p) < 0 {
        Seq::empty()
    } else {
        p.subrange(last_dot(p) + 1, p.len() as int)
    }
}

/// The media type served for a file extension.
pub open spec fn mime_of(ext: Seq<char>) -> Seq<char> {
    if ext == "htm"@ {
        "text/html"@
    } else if ext == "css"@ {
        "text/css"@
    } else if ext == "js"@ {
        "text/javascript"@
    } else if ext == "json"@ {
        "application/json"@
    } else if ext == "png"@ {
        "image/png"@
    } else if ext == "jpg"@ {
        "image/jpeg"@
    } else if ext == "ico"@ {
        "image/x-icon"@
    } else if ext == "mp3"@ {
        "audio/mpeg"@
    } else {
        "application/octet-stream"@
    }
}

proof fn lemma_last_dot(p: Seq<char>)
    ensures
        -1 <= last_dot(p) < p.len(),
        last_dot(p) >= 0 ==> p[last_dot(p)] == '.',
        forall|j: int| last_dot(p) < j < p.len() ==> p[j] != '.',
    decreases p.len(),
{
    if p.len() > 0 && p.last() != '.' {
        lemma_last_dot(p.drop_last());
        assert(forall|j: int| 0 <= j < p.len() - 1 ==> p.drop_last()[j] == p[j]);
    }
}

/// The extension of `p`, as `extension` defines it.
pub fn extension_of(p: &str) -> (r: &str)
    ensures
        r@ == extension(p@),
{
    let n = p.unicode_len();
    let mut i: usize = n;
    while i > 0
        invariant
            n == p@.len(),
            i <= n,
            forall|j: int| i <= j < n ==> p@[j] != '.',
        ensures
            i <= n,
            i == 0 || p@[i - 1] == '.',
            forall|j: int| i <= j < n ==> p@[j] != '.',
        decreases i,
    {
        if p.get_char(i - 1) == '.' {
            break;
        }
        i = i - 1;
    }
    proof {
        lemma_last_dot(p@);
        let d = last_dot(p@);
        if i > 0 {
            assert(p@[i - 1] == '.');
            assert(d == i - 1) by {
                if d < i - 1 {
                    assert(p@[i - 1] != '.');
                }
            }
        } else {
            assert(d == -1) by {
                if d >= 0 {
                    assert(p@[d] != '.');
                }
            }
        }
    }
    if i == 0 {
        p.substring_char(n, n)
    } else {
        p.substring_char(i, n)
    }
}

/// The media type served for extension `ext`.
pub fn mime_type(ext: &str) -> (r: &'static str)
    ensures
        r@ == mime_of(ext@),
{
    if str_eq(ext, "htm") {
        "text/html"
    } else if str_eq(ext, "css") {
        "text/css"
    } else if str_eq(ext, "js") {
        "text/javascript"
    } else if str_eq(ext, "json") {
        "application/json"
    } else if str_eq(ext, "png") {
        "image/png"
    } else if str_eq(ext, "jpg") {
        "image/jpeg"
    } else if str_eq(ext, "ico") {
        "image/x-icon"
    } else if str_eq(ext, "mp3") {
        "audio/mpeg"
    } else {
        "application/octet-stream"
    }
}

/// A complete answer to a custom-scheme request.
pub struct ProtocolResponse {
    pub status: u16,
    pub headers: Vec<(String, String)>,
    pub body: Vec<u8>,
}

/// Header names and values as character sequences.
pub open spec fn headers_view(h: Seq<(String, String)>) -> Seq<(Seq<char>, Seq<char>)> {
    h.map_values(|x: (String, String)| (x.0@, x.1@))
}

/// The headers of a served file: its type and length, caching for an hour,
/// and open cross-origin access.
pub open spec fn asset_headers(mime: Seq<char>, len: nat) -> Seq<(Seq<char>, Seq<char>)> {
    seq![
        ("Content-Type"@, mime),
        ("Content-Length"@, decimal(len)),
        ("Cache-Control"@, "private, max-age=3600"@),
        ("Access-Control-Allow-Origin"@, "*"@),
        ("Access-Control-Allow-Methods"@, "*"@),
        ("Access-Control-Allow-Headers"@, "*"@),
    ]
}

/// The store-relative path of a request path: without its leading `/`.
pub open spec fn relative_path(request_path: Seq<char>) -> Seq<char> {
    request_path.subrange(1, request_path.len() as int)
}

fn header(name: &str, value: &str) -> (r: (String, String))
    ensures
        r.0@ == name@,
        r.1@ == value@,
{
    (String::from_str(name), String::from_str(value))
}

impl AssetStore {
    /// Answers a request for `path`: the stored file with its headers and
    /// status 200, or status 404 with no headers and no body when no file is
    /// stored there.
    pub fn resolve(&self, path: &str) -> (r: ProtocolResponse)
        requires
            self.wf(),
            path@.len() > 0,
            path@[0] == '/',
        ensures
            self@.contains_key(relative_path(path@)) ==> {
                let rel = relative_path(path@);
                &&& r.status == 200
                &&& headers_view(r.headers@) == asset_headers(
                    mime_of(extension(rel)),
                    self@[rel].len(),
                )
                &&& r.body@ == self@[rel]
            },
            !self@.contains_key(relative_path(path@)) ==> {
                &&& r.status == 404
                &&& r.headers@.len() == 0
                &&& r.body@.len() == 0
            },
    {
        let rel = path.substring_char(1, path.unicode_len());
        match self.get(rel) {
            None => ProtocolResponse { status: 404, headers: Vec::new(), body: Vec::new() },
            Some(contents) => {
                let body = contents.clone();
                assert(body@ =~= contents@);
                let mime = mime_type(extension_of(rel));
                let mut headers: Vec<(String, String)> = Vec::new();
                headers.push(header("Content-Type", mime));
                let len = decimal_string(body.len() as u64);
                headers.push((String::from_str("Content-Length"), len));
                headers.push(header("Cache-Control", "private, max-age=3600"));
                headers.push(header("Access-Control-Allow-Origin", "*"));
                headers.push(header("Access-Control-Allow-Methods", "*"));
                headers.push(header("Access-Control-Allow-Headers", "*"));
                assert(headers_view(headers@) =~= asset_headers(
                    mime_of(extension(rel@)),
                    self@[rel@].len(),
                ));
                ProtocolResponse { status: 200, headers, body }
            },
        }
    }
}

} // verus!

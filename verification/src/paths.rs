//! Paths as text, and how the path of a declaration is resolved.

use vstd::prelude::*;
use crate::dirs::{CacheDir, Dir, DirPrefix, Include, RemapDir};

verus! {

/// Whether the path starts at the root of the file system.
pub open spec fn is_absolute(path: Seq<char>) -> bool {
    path.len() > 0 && path[0] == '/'
}

/// The path `path` seen from the directory `base`: an absolute path stays
/// as it is, and so does any path seen from nowhere.
pub open spec fn joined(base: Seq<char>, path: Seq<char>) -> Seq<char> {
    if is_absolute(path) || base.len() == 0 {
        path
    } else if base.last() == '/' {
        base + path
    } else {
        base + seq!['/'] + path
    }
}

/// Where the last `/` among the first `upto` characters of `path` stands,
/// or -1 if there is none.
pub open spec fn last_slash(path: Seq<char>, upto: int) -> int
    decreases upto,
{
    if upto <= 0 || upto > path.len() {
        -1
    } else if path[upto - 1] == '/' {
        upto - 1
    } else {
        last_slash(path, upto - 1)
    }
}

/// The directory that holds the file `path`: the text before its last `/`,
/// the root for a file at the root, and nothing for a bare name.
pub open spec fn parent_of(path: Seq<char>) -> Seq<char> {
    let at = last_slash(path, path.len() as int);
    if at < 0 {
        Seq::empty()
    } else if at == 0 {
        seq!['/']
    } else {
        path.take(at)
    }
}

/// The path of a declaration, resolved.
///
/// An absolute path stays as it is whatever the prefix. Otherwise the
/// default is to see the path from the directory of the file that declares
/// it, `cwd` sees it from the working directory, written `.`, and `xdg`
/// from the base directory `xdg` of the user's data. A path marked
/// `relative` is handed on as it is: whoever asked knows what it is relative
/// to.
pub open spec fn resolved(prefix: DirPrefix, path: Seq<char>, file: Seq<char>, xdg: Seq<char>) -> Seq<
    char,
> {
    match prefix {
        DirPrefix::Default => joined(parent_of(file), path),
        DirPrefix::Cwd => joined(seq!['.'], path),
        DirPrefix::Xdg => joined(xdg, path),
        DirPrefix::Relative => path,
    }
}

/// Sees the path `path` from the directory `base`.
pub fn join(base: &str, path: &str) -> (r: String)
    ensures
        r@ == joined(base@, path@),
{
    if base.is_empty() || (!path.is_empty() && path.get_char(0) == '/') {
        return String::from_str(path);
    }
    let n = base.unicode_len();
    let mut r = String::from_str(base);
    if base.get_char(n - 1) != '/' {
        proof {
            reveal_strlit("/");
        }
        r.append("/");
    }
    r.append(path);
    r
}

/// The directory that holds the file `path`.
pub fn parent(path: &str) -> (r: String)
    ensures
        r@ == parent_of(path@),
{
    let n = path.unicode_len();
    let mut i: usize = n;
    while i > 0 && path.get_char(i - 1) != '/'
        invariant
            i <= n,
            n == path@.len(),
            last_slash(path@, i as int) == last_slash(path@, n as int),
        decreases i,
    {
        i -= 1;
    }
    if i == 0 {
        String::new()
    } else if i == 1 {
        proof {
            reveal_strlit("/");
        }
        String::from_str("/")
    } else {
        String::from_str(path.substring_char(0, i - 1))
    }
}

/// Resolves the path of a declaration that the file `file` makes.
pub fn resolve(prefix: DirPrefix, path: &str, file: &str, xdg: &str) -> (r: String)
    ensures
        r@ == resolved(prefix, path@, file@, xdg@),
{
    match prefix {
        DirPrefix::Default => {
            let base = parent(file);
            join(base.as_str(), path)
        },
        DirPrefix::Cwd => {
            proof {
                reveal_strlit(".");
            }
            join(".", path)
        },
        DirPrefix::Xdg => join(xdg, path),
        DirPrefix::Relative => String::from_str(path),
    }
}

impl Dir {
    /// The path of the directory, resolved for the file `file` that declares
    /// it.
    pub fn calculate_path(&self, file: &str, xdg: &str) -> (r: String)
        ensures
            r@ == resolved(self.prefix, self.path@, file@, xdg@),
    {
        resolve(self.prefix, self.path.as_str(), file, xdg)
    }
}

impl CacheDir {
    /// The path of the directory, resolved for the file `file` that declares
    /// it.
    pub fn calculate_path(&self, file: &str, xdg: &str) -> (r: String)
        ensures
            r@ == resolved(self.prefix, self.path@, file@, xdg@),
    {
        resolve(self.prefix, self.path.as_str(), file, xdg)
    }
}

impl Include {
    /// The path to load, resolved for the file `file` that declares it.
    pub fn calculate_path(&self, file: &str, xdg: &str) -> (r: String)
        ensures
            r@ == resolved(self.prefix, self.path@, file@, xdg@),
    {
        resolve(self.prefix, self.path.as_str(), file, xdg)
    }
}

impl RemapDir {
    /// The path of the directory, resolved for the file `file` that declares
    /// it.
    pub fn calculate_path(&self, file: &str, xdg: &str) -> (r: String)
        ensures
            r@ == resolved(self.prefix, self.path@, file@, xdg@),
    {
        resolve(self.prefix, self.path.as_str(), file, xdg)
    }
}

} // verus!

//! Where the config file lives unless the Settings page is pointed
//! elsewhere. Paths are the platform's, so taking one apart and putting one
//! together is left to `std::path`; the choice made around them is here.

use vstd::prelude::*;

verus! {

/// The config file's name.
pub const DEFAULT_CONFIG_NAME: &'static str = "gps-config.toml";

/// What `Path::parent` gives for `path`, as text: `None` for a root or an
/// empty path, otherwise the path less its last component. A function of
/// the path's text on a given target.
pub uninterp spec fn parent_of(path: Seq<char>) -> Option<Seq<char>>;

/// What `Path::join` gives for `dir` and `name`, as text. A function of the
/// two texts on a given target.
pub uninterp spec fn joined(dir: Seq<char>, name: Seq<char>) -> Seq<char>;

/// A name that `Path::join` appends rather than letting it replace `dir`:
/// no separator and no drive colon, so it is neither absolute nor prefixed
/// on any platform.
pub open spec fn plain_name(name: Seq<char>) -> bool {
    forall|i: int| 0 <= i < name.len() ==> name[i] != '/' && name[i] != '\\' && name[i] != ':'
}

/// An optional text's characters.
pub open spec fn text_of(o: Option<String>) -> Option<Seq<char>> {
    match o {
        Some(s) => Some(s@),
        None => None,
    }
}

/// `Path::parent` of `path`, as text. Claimed: the result is what
/// [`parent_of`] names, and when there is one it is the leading part of
/// `path`, shorter than it (the parent is a slice from the path's start
/// that drops at least the last component). Which text it is, the
/// platform's separator rules decide; that is left to the name.
#[verifier::external_body]
fn path_parent(path: &str) -> (r: Option<String>)
    ensures
        text_of(r) == parent_of(path@),
        r matches Some(p) ==> p@.len() < path@.len() && p@ == path@.subrange(0, p@.len() as int),
{
    std::path::Path::new(path).parent().map(|p| p.display().to_string())
}

/// Whether `c` separates path components on some platform.
pub open spec fn is_separator(c: char) -> bool {
    c == '/' || c == '\\'
}

/// A directory that opens with two separators: a network share, a device
/// path, or a verbatim (`\\?\`) path, under whose rules a join may rebuild
/// the text rather than append to it.
pub open spec fn special_prefixed(dir: Seq<char>) -> bool {
    dir.len() >= 2 && is_separator(dir[0]) && is_separator(dir[1])
}

/// `dir`, then at most one separator, then `name`.
pub open spec fn appended(dir: Seq<char>, name: Seq<char>, r: Seq<char>) -> bool {
    &&& dir.len() + name.len() <= r.len() <= dir.len() + name.len() + 1
    &&& r.subrange(0, dir.len() as int) == dir
    &&& r.subrange(r.len() - name.len(), r.len() as int) == name
}

/// `Path::join` of `dir` and a plain `name`, displayed as text. Claimed:
/// the result is what [`joined`] names; and, for a `dir` that does not open
/// with two separators, it is `dir`, then at most one separator, then
/// `name` (a plain name is neither absolute nor prefixed, so it is appended,
/// never substituted). Under a verbatim prefix a join normalizes the whole
/// path, so of such a `dir` only the name is claimed. Which separator, and
/// whether one is added, the platform decides; that is left to the name.
#[verifier::external_body]
fn path_join(dir: &str, name: &str) -> (r: String)
    requires
        plain_name(name@),
    ensures
        r@ == joined(dir@, name@),
        !special_prefixed(dir@) ==> appended(dir@, name@, r@),
{
    std::path::Path::new(dir).join(name).display().to_string()
}

/// The config file's path given the cache directory's parent: the bare
/// name when there is none or it is empty, otherwise the name joined to it.
pub open spec fn beside_spec(parent: Option<Seq<char>>) -> Seq<char> {
    match parent {
        Some(dir) => if dir.len() > 0 {
            joined(dir, DEFAULT_CONFIG_NAME@)
        } else {
            DEFAULT_CONFIG_NAME@
        },
        None => DEFAULT_CONFIG_NAME@,
    }
}

/// Where the config file lives: beside the tile cache (`cache_dir`), which
/// on Android is the app's private data directory; with no cache directory,
/// or one with no parent to speak of, the bare file name, which on desktop
/// is the working directory.
pub fn default_config_path(cache_dir: Option<&str>) -> (r: String)
    ensures
        r@ == (match cache_dir {
            Some(d) => beside_spec(parent_of(d@)),
            None => DEFAULT_CONFIG_NAME@,
        }),
        cache_dir matches Some(d) ==> parent_of(d@) matches Some(p) ==> p.len() > 0 ==> (
        p.len() < d@.len() && p == d@.subrange(0, p.len() as int) && (!special_prefixed(p)
            ==> appended(p, DEFAULT_CONFIG_NAME@, r@))),
{
    let parent = match cache_dir {
        Some(dir) => path_parent(dir),
        None => None,
    };
    beside(parent)
}

/// The config file's path given the cache directory's parent: the bare
/// name when there is none or it is empty, otherwise the name joined to it,
/// which - for a parent that is no share, device or verbatim path - is the
/// parent, at most one separator, and the name.
pub fn beside(parent: Option<String>) -> (r: String)
    ensures
        r@ == beside_spec(text_of(parent)),
        parent matches Some(dir) ==> dir@.len() > 0 && !special_prefixed(dir@) ==> appended(
            dir@,
            DEFAULT_CONFIG_NAME@,
            r@,
        ),
{
    proof {
        reveal_strlit("gps-config.toml");
    }
    match parent {
        Some(dir) => {
            if dir.unicode_len() > 0 {
                path_join(dir.as_str(), DEFAULT_CONFIG_NAME)
            } else {
                String::from_str(DEFAULT_CONFIG_NAME)
            }
        },
        None => String::from_str(DEFAULT_CONFIG_NAME),
    }
}

} // verus!

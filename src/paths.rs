//! Path containment: joining a requested path under a base directory,
//! checking that a canonical path stays inside it, and naming files by
//! their extension.
use vstd::prelude::*;
use crate::error::ErrorKind;
use crate::text::{has_prefix, ends_with_slash, strip_leading_slashes, trim_leading_slashes};

verus! {

/// `base` with exactly the separator it needs to take a child: a `/` is
/// appended unless it already ends with one.
pub open spec fn dir_form(base: Seq<char>) -> Seq<char> {
    if base.len() > 0 && base.last() == '/' {
        base
    } else {
        base.push('/')
    }
}

/// The requested path, taken as relative, under `base`.
pub open spec fn join_under(base: Seq<char>, requested: Seq<char>) -> Seq<char> {
    dir_form(base) + trim_leading_slashes(requested)
}

/// Whether `path` is `base` itself or lies below it.
pub open spec fn is_within(base: Seq<char>, path: Seq<char>) -> bool {
    path == base || dir_form(base).is_prefix_of(path)
}

/// The part of `path` below `base`; empty for `base` itself.
pub open spec fn relative_to(base: Seq<char>, path: Seq<char>) -> Seq<char> {
    if path == base {
        Seq::empty()
    } else {
        path.skip(dir_form(base).len() as int)
    }
}

/// The directory form of `base`.
pub fn directory_form(base: &str) -> (r: String)
    ensures
        r@ == dir_form(base@),
{
    let mut r = String::from_str(base);
    if !ends_with_slash(base) {
        r.append("/");
        proof {
            reveal_strlit("/");
        }
    }
    r
}

/// Joins `requested` under `base` after dropping its leading slashes, so
/// that it never replaces the base.
pub fn join_path(base: &str, requested: &str) -> (r: String)
    ensures
        r@ == join_under(base@, requested@),
{
    let mut r = directory_form(base);
    r.append(strip_leading_slashes(requested));
    r
}

/// Whether two strings are equal.
pub fn same_text(a: &str, b: &str) -> (r: bool)
    ensures
        r == (a@ == b@),
{
    let p = has_prefix(a, b);
    let n = a.unicode_len();
    let m = b.unicode_len();
    if p && n == m {
        assert(a@ =~= b@.subrange(0, m as int));
        assert(b@ =~= b@.subrange(0, m as int));
        true
    } else {
        false
    }
}

/// Whether `path` is `base` or lies below it.
pub fn path_is_within(base: &str, path: &str) -> (r: bool)
    ensures
        r == is_within(base@, path@),
{
    if same_text(path, base) {
        true
    } else {
        let d = directory_form(base);
        has_prefix(path, d.as_str())
    }
}

/// The part of `path` below `base`, or `None` where `path` is not within
/// `base`.
pub fn path_relative_to(base: &str, path: &str) -> (r: Option<String>)
    ensures
        r is None <==> !is_within(base@, path@),
        r matches Some(rel) ==> rel@ == relative_to(base@, path@),
{
    if same_text(path, base) {
        Some(String::new())
    } else {
        let d = directory_form(base);
        if has_prefix(path, d.as_str()) {
            let n = path.unicode_len();
            let k = d.as_str().unicode_len();
            assert(path@.subrange(k as int, n as int) =~= path@.skip(k as int));
            Some(String::from_str(path.substring_char(k, n)))
        } else {
            None
        }
    }
}

/// A canonical path together with the canonical base it was resolved
/// against; it always lies within that base.
pub struct ResolvedPath {
    pub(crate) base: String,
    pub(crate) path: String,
}

impl ResolvedPath {
    #[verifier::type_invariant]
    spec fn inv(self) -> bool {
        is_within(self.base@, self.path@)
    }

    /// The base directory, as a character sequence.
    pub closed spec fn base_view(self) -> Seq<char> {
        self.base@
    }

    /// The resolved path, as a character sequence.
    pub closed spec fn path_view(self) -> Seq<char> {
        self.path@
    }

    /// The resolved path; it lies within the base.
    pub fn path(&self) -> (r: &str)
        ensures
            r@ == self.path_view(),
            is_within(self.base_view(), self.path_view()),
    {
        proof {
            use_type_invariant(self);
        }
        self.path.as_str()
    }

    /// The base directory it was resolved against.
    pub fn base(&self) -> (r: &str)
        ensures
            r@ == self.base_view(),
    {
        self.base.as_str()
    }
}

/// What resolution yields for a canonical base and the canonical form of
/// the joined path; `None` stands for a path that could not be
/// canonicalized.
pub open spec fn resolution(base: Option<Seq<char>>, target: Option<Seq<char>>) -> Result<(Seq<char>, Seq<char>), ErrorKind> {
    match (base, target) {
        (Some(b), Some(t)) => if is_within(b, t) {
            Ok((b, t))
        } else {
            Err(ErrorKind::TraversalAttempt)
        },
        _ => Err(ErrorKind::DoesNotExist),
    }
}

/// Checks a canonicalized path against its canonicalized base: a path that
/// could not be canonicalized does not exist, one outside the base is a
/// traversal attempt.
pub fn resolve(base: Option<String>, target: Option<String>) -> (r: Result<ResolvedPath, ErrorKind>)
    ensures
        match (r, resolution(opt_view(base), opt_view(target))) {
            (Ok(p), Ok((b, t))) => p.base_view() == b && p.path_view() == t,
            (Err(e), Err(f)) => e == f,
            _ => false,
        },
{
    match (base, target) {
        (Some(b), Some(t)) => {
            if path_is_within(b.as_str(), t.as_str()) {
                Ok(ResolvedPath { base: b, path: t })
            } else {
                Err(ErrorKind::TraversalAttempt)
            }
        },
        _ => Err(ErrorKind::DoesNotExist),
    }
}

/// The view of an optional string.
pub open spec fn opt_view(s: Option<String>) -> Option<Seq<char>> {
    match s {
        Some(x) => Some(x@),
        None => None,
    }
}

/// Index of the last occurrence of `c` in `s`, or -1.
pub open spec fn last_index_of(s: Seq<char>, c: char) -> int
    decreases s.len(),
{
    if s.len() == 0 {
        -1
    } else if s.last() == c {
        s.len() - 1
    } else {
        last_index_of(s.drop_last(), c)
    }
}

/// The last component of `path`: what follows its last `/`.
pub open spec fn file_name_of(path: Seq<char>) -> Seq<char> {
    path.skip(last_index_of(path, '/') + 1)
}

/// The extension of the file that `path` names: what follows the last `.`
/// of its file name, where that dot is not the name's first character;
/// `..` has none.
pub open spec fn extension_of(path: Seq<char>) -> Option<Seq<char>> {
    let name = file_name_of(path);
    let d = last_index_of(name, '.');
    if name == seq!['.', '.'] || d <= 0 {
        None
    } else {
        Some(name.skip(d + 1))
    }
}

/// Media type that rouille's asset table gives a file extension; the empty
/// extension stands for a file without one.
pub uninterp spec fn mime_type_of(extension: Seq<char>) -> Seq<char>;

/// Relies on rouille::extension_to_mime: the media type of its built-in
/// table for an extension, `application/octet-stream` for any other.
#[verifier::external_body]
fn extension_to_mime(extension: &str) -> (r: &'static str)
    ensures
        r@ == mime_type_of(extension@),
{
    rouille::extension_to_mime(extension)
}

pub proof fn lemma_last_index_bounds(s: Seq<char>, c: char)
    ensures
        -1 <= last_index_of(s, c) < s.len(),
        last_index_of(s, c) >= 0 ==> s[last_index_of(s, c)] == c,
    decreases s.len(),
{
    if s.len() > 0 && s.last() != c {
        lemma_last_index_bounds(s.drop_last(), c);
    }
}

/// Position of the last `c` in `s`.
pub fn find_last(s: &str, c: char) -> (r: Option<usize>)
    ensures
        match r {
            Some(i) => i as int == last_index_of(s@, c),
            None => last_index_of(s@, c) == -1,
        },
{
    let n = s.unicode_len();
    let mut i: usize = n;
    assert(s@.take(n as int) =~= s@);
    while i > 0
        invariant
            n == s@.len(),
            i <= n,
            last_index_of(s@, c) == last_index_of(s@.take(i as int), c),
        decreases i,
    {
        assert(s@.take(i as int).drop_last() =~= s@.take(i - 1));
        if s.get_char(i - 1) == c {
            return Some(i - 1);
        }
        i -= 1;
    }
    None
}

/// The extension of the file that `path` names, if it has one.
pub fn file_extension(path: &str) -> (r: Option<String>)
    ensures
        opt_view(r) == extension_of(path@),
{
    let n = path.unicode_len();
    proof {
        lemma_last_index_bounds(path@, '/');
    }
    let start: usize = match find_last(path, '/') {
        Some(i) => i + 1,
        None => 0,
    };
    let name = path.substring_char(start, n);
    assert(name@ =~= file_name_of(path@));
    let m = name.unicode_len();
    let is_dot_dot = m == 2 && name.get_char(0) == '.' && name.get_char(1) == '.';
    assert(is_dot_dot <==> name@ == seq!['.', '.']) by {
        if name@ == seq!['.', '.'] {
            assert(name@[0] == '.' && name@[1] == '.');
        }
        if is_dot_dot {
            assert(name@ =~= seq!['.', '.']);
        }
    }
    if is_dot_dot {
        return None;
    }
    match find_last(name, '.') {
        Some(d) => {
            if d == 0 {
                None
            } else {
                proof {
                    lemma_last_index_bounds(name@, '.');
                }
                assert(name@.subrange(d + 1, m as int) =~= name@.skip(d + 1));
                Some(String::from_str(name.substring_char(d + 1, m)))
            }
        },
        None => None,
    }
}

/// The extension that selects the media type of `path`: empty where the
/// file has none.
pub open spec fn type_key(path: Seq<char>) -> Seq<char> {
    match extension_of(path) {
        Some(e) => e,
        None => Seq::empty(),
    }
}

/// The media type to serve a file with, chosen by its extension through
/// rouille's table.
pub fn content_type_for(path: &str) -> (r: String)
    ensures
        r@ == mime_type_of(type_key(path@)),
{
    let ext = file_extension(path);
    match ext {
        Some(e) => {
            assert(extension_of(path@) == Some(e@));
            String::from_str(extension_to_mime(e.as_str()))
        },
        None => {
            proof {
                reveal_strlit("");
                assert(""@ =~= Seq::<char>::empty());
            }
            String::from_str(extension_to_mime(""))
        },
    }
}

} // verus!

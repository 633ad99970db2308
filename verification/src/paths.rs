use vstd::prelude::*;

verus! {

/// A path is absolute when it starts with the root `/`.
pub open spec fn is_absolute_text(p: Seq<char>) -> bool {
    p.len() > 0 && p[0] == '/'
}

/// What `Path::strip_prefix("/")` leaves of an absolute path, as text.
pub uninterp spec fn root_stripped(p: Seq<char>) -> Seq<char>;

/// Whether a path is absolute, as `Path::is_absolute` decides on Unix: it starts
/// with the root.
fn path_is_absolute(p: &str) -> (res: bool)
    ensures
        res == is_absolute_text(p@),
{
    p.unicode_len() > 0 && p.get_char(0) == '/'
}

/// An absolute path whose components are all plain names: one `/` at the start,
/// then names separated by single `/`s, none of them `.`, and no `/` at the end.
pub open spec fn plain_absolute(p: Seq<char>) -> bool {
    &&& p.len() > 1
    &&& p[0] == '/'
    &&& forall|i: int| 1 <= i < p.len() - 1 ==> !(#[trigger] p[i] == '/' && p[i + 1] == '/')
    &&& p[1] != '/'
    &&& p.last() != '/'
    &&& forall|i: int|
        1 <= i < p.len() && #[trigger] p[i] == '.' ==> !(p[i - 1] == '/' && (i + 1 == p.len()
            || p[i + 1] == '/'))
}

/// `std::path::Path::strip_prefix` with the root `/` as the prefix. For an absolute
/// path the call succeeds; its result is named `root_stripped`. As documented, it
/// is the path of the components after the prefix, and joined onto the prefix it
/// gives the same path again; as the root component comes only first, no root
/// is left, so the result is relative. Where every component after the root is a
/// plain name, those components are the text after the leading `/` (as in the
/// documentation's `/test/haha/foo.txt`, which strips to `test/haha/foo.txt`).
#[verifier::external_body]
fn strip_root(p: &str) -> (res: String)
    requires
        is_absolute_text(p@),
    ensures
        res@ == root_stripped(p@),
        same_path(joined(seq!['/'], res@), p@),
        !is_absolute_text(res@),
        plain_absolute(p@) ==> res@ == p@.drop_first(),
{
    match std::path::Path::new(p).strip_prefix("/") {
        Ok(rest) => rest.to_string_lossy().into_owned(),
        Err(_) => String::new(),
    }
}

/// A path relative to the root: an absolute path without its root, a relative
/// path as it is.
pub open spec fn relative_form(p: Seq<char>) -> Seq<char> {
    if is_absolute_text(p) {
        root_stripped(p)
    } else {
        p
    }
}

/// Turns an absolute path into the same path relative to the root; a relative
/// path is returned as it is. The result is always relative, so turning it again
/// changes nothing, and joined onto the root it is the path it came from.
pub fn absolute_to_relative(absolute_path: &str) -> (res: String)
    ensures
        res@ == relative_form(absolute_path@),
        !is_absolute_text(absolute_path@) ==> res@ == absolute_path@,
        is_absolute_text(absolute_path@) ==> res@ == root_stripped(absolute_path@),
        is_absolute_text(absolute_path@) ==> same_path(joined(seq!['/'], res@), absolute_path@),
        !is_absolute_text(res@),
        relative_form(res@) == res@,
{
    if !path_is_absolute(absolute_path) {
        return String::from_str(absolute_path);
    }
    strip_root(absolute_path)
}

} // verus!

verus! {

/// Whether two paths name the same thing by `Path`'s equality (it compares
/// components, so `a/b` and `a//b/` are equal).
pub uninterp spec fn same_path(a: Seq<char>, b: Seq<char>) -> bool;

/// `PartialEq::eq` on `std::path::Path`, which compares components. The result
/// is named `same_path`; as `Path` is `Eq`, equal text gives equal paths, and as
/// only an absolute path has the root component, an absolute and a relative path
/// are never equal.
#[verifier::external_body]
pub(crate) fn paths_equal(a: &str, b: &str) -> (res: bool)
    ensures
        res == same_path(a@, b@),
        a@ == b@ ==> res,
        is_absolute_text(a@) != is_absolute_text(b@) ==> !res,
{
    std::path::Path::new(a) == std::path::Path::new(b)
}

} // verus!

verus! {

/// The text of `Path::join(base, rel)` on Unix: an absolute `rel` replaces
/// `base`; otherwise `rel` extends `base`, after a `/` unless `base` is empty or
/// already ends in one.
pub open spec fn joined(base: Seq<char>, rel: Seq<char>) -> Seq<char> {
    if is_absolute_text(rel) {
        rel
    } else if base.len() > 0 && base.last() != '/' {
        base + seq!['/'] + rel
    } else {
        base + rel
    }
}

/// `std::path::Path::join`, which adjoins as `PathBuf::push` does: an absolute
/// argument replaces the path, a relative one extends it as a further component.
#[verifier::external_body]
pub(crate) fn path_join(base: &str, rel: &str) -> (res: String)
    ensures
        res@ == joined(base@, rel@),
{
    std::path::Path::new(base).join(rel).to_string_lossy().into_owned()
}

/// `p` is `root` itself or lies below it: it starts with `root`, and what follows
/// begins a new component.
pub open spec fn under(root: Seq<char>, p: Seq<char>) -> bool {
    &&& root.len() <= p.len()
    &&& p.take(root.len() as int) == root
    &&& (root.len() == p.len() || root.len() == 0 || root.last() == '/' || p[root.len() as int]
        == '/')
}

/// Every path is under itself.
pub proof fn lemma_under_refl(p: Seq<char>)
    ensures
        under(p, p),
{
    assert(p.take(p.len() as int) =~= p);
}

/// Joining a relative path never leaves the base: the result lies under it.
pub proof fn lemma_join_stays_under(base: Seq<char>, rel: Seq<char>)
    requires
        !is_absolute_text(rel),
    ensures
        under(base, joined(base, rel)),
{
    let j = joined(base, rel);
    if base.len() > 0 && base.last() != '/' {
        assert(j.take(base.len() as int) =~= base);
        assert(j[base.len() as int] == '/');
    } else {
        assert(j.take(base.len() as int) =~= base);
    }
}

/// Lying under a path is transitive.
pub proof fn lemma_under_trans(r: Seq<char>, a: Seq<char>, b: Seq<char>)
    requires
        under(r, a),
        under(a, b),
    ensures
        under(r, b),
{
    assert(b.take(r.len() as int) =~= b.take(a.len() as int).take(r.len() as int));
    assert(a.take(r.len() as int) =~= r);
    if r.len() < a.len() {
        assert(b[r.len() as int] == b.take(a.len() as int)[r.len() as int]);
    } else {
        assert(a =~= r);
        if r.len() > 0 {
            assert(a.last() == r.last());
        }
    }
}

/// The text of `Path::parent`, `None` where the path has no parent.
pub uninterp spec fn parent_of(p: Seq<char>) -> Option<Seq<char>>;

/// `std::path::Path::parent`. Its result is named `parent_of`; as documented, the
/// empty path and the root have none.
#[verifier::external_body]
pub(crate) fn path_parent(p: &str) -> (res: Option<String>)
    ensures
        res is None <==> parent_of(p@) is None,
        res matches Some(q) ==> parent_of(p@) == Some(q@),
        p@.len() == 0 ==> res is None,
        p@ == seq!['/'] ==> res is None,
{
    match std::path::Path::new(p).parent() {
        Some(q) => Some(q.to_string_lossy().into_owned()),
        None => None,
    }
}

/// The parent directory of `path`, which `make_dir_all_file` creates; a path
/// without a parent is refused with `NoParent`.
pub fn parent_dir_to_create(path: &str) -> (res: Result<String, crate::error::Error>)
    ensures
        match res {
            Ok(q) => parent_of(path@) == Some(q@),
            Err(e) => parent_of(path@) is None && e == crate::error::Error::NoParent,
        },
{
    match path_parent(path) {
        Some(q) => Ok(q),
        None => Err(crate::error::Error::NoParent),
    }
}

} // verus!

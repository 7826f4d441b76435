//! File paths, held as text, taken apart and put together by `std::path::Path`.
//!
//! Each operation below is one call of `std::path::Path`; its result is named by a spec
//! function of the path's text. Path syntax is fixed by the target platform the crate is
//! built for, so on a given build each of these is a function of its arguments alone.

use vstd::prelude::*;


verus! {

/// `Path::file_name` of `path`.
pub uninterp spec fn spec_file_name(path: Seq<char>) -> Option<Seq<char>>;

/// `Path::file_stem` of `path`.
pub uninterp spec fn spec_file_stem(path: Seq<char>) -> Option<Seq<char>>;

/// `Path::extension` of `path`.
pub uninterp spec fn spec_extension(path: Seq<char>) -> Option<Seq<char>>;

/// `Path::with_file_name(path, name)`.
pub uninterp spec fn spec_with_file_name(path: Seq<char>, name: Seq<char>) -> Seq<char>;

/// `Path::with_extension(path, ext)`.
pub uninterp spec fn spec_with_extension(path: Seq<char>, ext: Seq<char>) -> Seq<char>;

/// `Path::join(base, name)`.
pub uninterp spec fn spec_join(base: Seq<char>, name: Seq<char>) -> Seq<char>;

/// `str::to_lowercase` of `s`.
pub uninterp spec fn spec_to_lowercase(s: Seq<char>) -> Seq<char>;

/// Where one path stands against another in the standard order of paths (component by
/// component).
#[derive(PartialEq, Eq, Structural, Clone, Copy)]
pub enum PathOrder {
    Less,
    Equal,
    Greater,
}

/// The same comparison seen from the other side.
pub open spec fn reversed(o: PathOrder) -> PathOrder {
    match o {
        PathOrder::Less => PathOrder::Greater,
        PathOrder::Equal => PathOrder::Equal,
        PathOrder::Greater => PathOrder::Less,
    }
}

/// How `Path::new(a)` compares with `Path::new(b)`.
pub uninterp spec fn spec_path_order(a: Seq<char>, b: Seq<char>) -> PathOrder;

/// The path at `i` is not greater than the one after it.
pub open spec fn in_order_at(v: Seq<Seq<char>>, i: int) -> bool {
    spec_path_order(v[i], v[i + 1]) != PathOrder::Greater
}

/// The paths of `v` come in ascending order: none is greater than the one after it.
pub open spec fn ascending(v: Seq<Seq<char>>) -> bool {
    forall|i: int| 0 <= i < v.len() - 1 ==> #[trigger] in_order_at(v, i)
}

/// An optional `String` read as an optional sequence of characters.
pub open spec fn opt_text(o: Option<String>) -> Option<Seq<char>> {
    match o {
        Some(s) => Some(s@),
        None => None,
    }
}

/// The text, or the empty text for none (`unwrap_or_default`).
pub open spec fn text_or_empty(o: Option<Seq<char>>) -> Seq<char> {
    match o {
        Some(s) => s,
        None => Seq::empty(),
    }
}

/// `Path::new(path).file_name()`: the final component, if there is one.
#[verifier::external_body]
pub(crate) fn path_file_name(path: &str) -> (r: Option<String>)
    ensures
        opt_text(r) == spec_file_name(path@),
{
    std::path::Path::new(path).file_name().map(|s| s.to_string_lossy().into_owned())
}

/// `Path::new(path).file_stem()`: the file name without its extension, if there is one.
#[verifier::external_body]
pub(crate) fn path_file_stem(path: &str) -> (r: Option<String>)
    ensures
        opt_text(r) == spec_file_stem(path@),
{
    std::path::Path::new(path).file_stem().map(|s| s.to_string_lossy().into_owned())
}

/// `Path::new(path).extension()`: the extension of the file name, if there is one.
#[verifier::external_body]
pub(crate) fn path_extension(path: &str) -> (r: Option<String>)
    ensures
        opt_text(r) == spec_extension(path@),
{
    std::path::Path::new(path).extension().map(|s| s.to_string_lossy().into_owned())
}

/// `Path::new(path).with_file_name(name)`: the path with its file name replaced.
#[verifier::external_body]
pub(crate) fn path_with_file_name(path: &str, name: &str) -> (r: String)
    ensures
        r@ == spec_with_file_name(path@, name@),
{
    std::path::Path::new(path).with_file_name(name).to_string_lossy().into_owned()
}

/// `s` holds a path separator (`/`, or `\\` on Windows).
pub open spec fn has_separator(s: Seq<char>) -> bool {
    s.contains('/') || s.contains('\\')
}

/// Whether `s` holds a path separator (`/`, or `\\` on Windows).
pub fn has_path_separator(s: &str) -> (b: bool)
    ensures
        b == has_separator(s@),
{
    let cs = crate::text::chars_of(s);
    let mut i: usize = 0;
    while i < cs.len()
        invariant
            i <= cs@.len(),
            cs@ == s@,
            forall|j: int| 0 <= j < i ==> cs@[j] != '/' && cs@[j] != '\\',
        decreases cs@.len() - i,
    {
        if cs[i] == '/' || cs[i] == '\\' {
            assert(s@[i as int] == cs@[i as int]);
            return true;
        }
        i += 1;
    }
    false
}

/// `Path::new(path).with_extension(ext)`: the path with its extension replaced. The
/// extension holds no path separator (`PathBuf::set_extension` panics on one).
#[verifier::external_body]
pub(crate) fn path_with_extension(path: &str, ext: &str) -> (r: String)
    requires
        !has_separator(ext@),
    ensures
        r@ == spec_with_extension(path@, ext@),
{
    std::path::Path::new(path).with_extension(ext).to_string_lossy().into_owned()
}

/// `Path::new(base).join(name)`: `name` appended to `base` as a path component.
#[verifier::external_body]
pub(crate) fn path_join(base: &str, name: &str) -> (r: String)
    ensures
        r@ == spec_join(base@, name@),
{
    std::path::Path::new(base).join(name).to_string_lossy().into_owned()
}

/// `str::to_lowercase`.
#[verifier::external_body]
pub(crate) fn to_lowercase(s: &str) -> (r: String)
    ensures
        r@ == spec_to_lowercase(s@),
{
    s.to_lowercase()
}

/// `Path::new(a).cmp(Path::new(b))`: where `a` stands against `b` in the order of paths.
/// Besides naming the answer, claims what the `Ord` contract asks of every order:
/// comparing the other way round gives the reversed answer.
#[verifier::external_body]
pub(crate) fn path_order(a: &str, b: &str) -> (r: PathOrder)
    ensures
        r == spec_path_order(a@, b@),
        spec_path_order(b@, a@) == reversed(r),
{
    match std::path::Path::new(a).cmp(std::path::Path::new(b)) {
        std::cmp::Ordering::Less => PathOrder::Less,
        std::cmp::Ordering::Equal => PathOrder::Equal,
        std::cmp::Ordering::Greater => PathOrder::Greater,
    }
}

/// Putting `x` in at `k`, after no greater path and before a greater one, keeps a list of
/// paths ascending.
pub proof fn lemma_insert_keeps_ascending(v: Seq<Seq<char>>, k: int, x: Seq<char>)
    requires
        ascending(v),
        0 <= k <= v.len(),
        k < v.len() ==> spec_path_order(x, v[k]) == PathOrder::Less,
        k > 0 ==> spec_path_order(v[k - 1], x) != PathOrder::Greater,
    ensures
        ascending(v.insert(k, x)),
{
    let w = v.insert(k, x);
    assert forall|i: int| 0 <= i < w.len() - 1 implies #[trigger] in_order_at(w, i) by {
        if i + 1 < k {
            assert(in_order_at(v, i));
            assert(w[i] == v[i] && w[i + 1] == v[i + 1]);
        } else if i + 1 == k {
            assert(w[i] == v[i] && w[i + 1] == x);
        } else if i == k {
            assert(w[i] == x && w[i + 1] == v[k]);
        } else {
            assert(in_order_at(v, i - 1));
            assert(w[i] == v[i - 1] && w[i + 1] == v[i]);
        }
    }
}

/// The paths in ascending order (equal ones kept in the order given), as sorting
/// `PathBuf`s does.
pub fn sort_paths(paths: Vec<String>) -> (r: Vec<String>)
    ensures
        crate::text::strings_view(r@).to_multiset() == crate::text::strings_view(paths@).to_multiset(),
        ascending(crate::text::strings_view(r@)),
{
    let ghost pv = crate::text::strings_view(paths@);
    let mut out: Vec<String> = Vec::new();
    let mut n: usize = 0;
    assert(pv.take(0) =~= Seq::<Seq<char>>::empty());
    assert(crate::text::strings_view(out@) =~= Seq::<Seq<char>>::empty());
    while n < paths.len()
        invariant
            n <= paths@.len(),
            pv == crate::text::strings_view(paths@),
            crate::text::strings_view(out@).to_multiset() == pv.take(n as int).to_multiset(),
            ascending(crate::text::strings_view(out@)),
        decreases paths@.len() - n,
    {
        let x = paths[n].clone();
        let mut k: usize = out.len();
        loop
            invariant
                k <= out@.len(),
                x@ == pv[n as int],
                k < out@.len() ==> spec_path_order(x@, out@[k as int]@) == PathOrder::Less,
            ensures
                k <= out@.len(),
                k < out@.len() ==> spec_path_order(x@, out@[k as int]@) == PathOrder::Less,
                k > 0 ==> spec_path_order(out@[k - 1]@, x@) != PathOrder::Greater,
            decreases k,
        {
            if k == 0 {
                break;
            }
            let o = path_order(x.as_str(), out[k - 1].as_str());
            if o != PathOrder::Less {
                break;
            }
            k -= 1;
        }
        let ghost before = out@;
        out.insert(k, x);
        proof {
            let bv = crate::text::strings_view(before);
            let ov = crate::text::strings_view(out@);
            assert(ov =~= bv.insert(k as int, pv[n as int]));
            vstd::seq_lib::to_multiset_insert(bv, k as int, pv[n as int]);
            assert(pv.take(n + 1) =~= pv.take(n as int).push(pv[n as int]));
            vstd::seq_lib::to_multiset_build(pv.take(n as int), pv[n as int]);
            lemma_insert_keeps_ascending(bv, k as int, pv[n as int]);
        }
        n += 1;
    }
    assert(pv.take(paths@.len() as int) =~= pv);
    out
}

} // verus!

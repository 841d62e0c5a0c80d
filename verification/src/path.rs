//! Unix path arithmetic on strings, as std's `PathBuf::join` and `Path`
//! equality behave.

use vstd::prelude::*;

use crate::json::str_eq;
use crate::text::{chars_of, cat, split, split_on, string_from, views};

verus! {

/// `base.join(rel)` for Unix paths: an absolute `rel` replaces `base`;
/// otherwise `rel` is appended, with a `/` between them unless `base` is
/// empty or already ends in one.
pub open spec fn joined(base: Seq<char>, rel: Seq<char>) -> Seq<char> {
    if rel.len() > 0 && rel[0] == '/' {
        rel
    } else if base.len() == 0 || base.last() == '/' {
        base + rel
    } else {
        base + seq!['/'] + rel
    }
}

/// `base.join(rel)`.
pub fn join_path(base: &str, rel: &str) -> (r: String)
    ensures
        r@ == joined(base@, rel@),
{
    let b = chars_of(base);
    let r = chars_of(rel);
    if r.len() > 0 && r[0] == '/' {
        return string_from(r.as_slice());
    }
    if b.len() == 0 || b[b.len() - 1] == '/' {
        return cat(base, rel);
    }
    let with_sep = cat(base, "/");
    proof {
        reveal_strlit("/");
    }
    let out = cat(with_sep.as_str(), rel);
    assert(out@ =~= base@ + seq!['/'] + rel@);
    out
}

/// The path starts at the root directory.
pub open spec fn rooted(p: Seq<char>) -> bool {
    p.len() > 0 && p[0] == '/'
}

/// The path's first component is a leading `.` (kept by `Path::components`).
pub open spec fn leading_cur_dir(p: Seq<char>) -> bool {
    !rooted(p) && p.len() > 0 && p[0] == '.' && (p.len() == 1 || p[1] == '/')
}

/// The pieces that are real components: empty pieces (repeated or trailing
/// separators) and `.` pieces are dropped.
pub open spec fn keep_named(pieces: Seq<Seq<char>>) -> Seq<Seq<char>>
    decreases pieces.len(),
{
    if pieces.len() == 0 {
        Seq::<Seq<char>>::empty()
    } else {
        let r = keep_named(pieces.drop_last());
        let last = pieces.last();
        if last.len() == 0 || last == seq!['.'] {
            r
        } else {
            r.push(last)
        }
    }
}

/// Two paths have the same components (std's `Path` equality).
pub open spec fn same_path(a: Seq<char>, b: Seq<char>) -> bool {
    &&& rooted(a) == rooted(b)
    &&& leading_cur_dir(a) == leading_cur_dir(b)
    &&& keep_named(split_on(a, '/')) == keep_named(split_on(b, '/'))
}

fn named_components(p: &str) -> (r: Vec<String>)
    ensures
        views(r@) == keep_named(split_on(p@, '/')),
{
    let pieces = split(p, '/');
    let mut r: Vec<String> = Vec::new();
    let mut i: usize = 0;
    while i < pieces.len()
        invariant
            i <= pieces@.len(),
            views(pieces@) == split_on(p@, '/'),
            views(r@) == keep_named(views(pieces@).take(i as int)),
        decreases pieces@.len() - i,
    {
        let ghost prev = r@;
        let piece = &pieces[i];
        let cs = chars_of(piece.as_str());
        assert(views(pieces@).take(i + 1).drop_last() =~= views(pieces@).take(i as int));
        assert(views(pieces@).take(i + 1).last() == piece@);
        if cs.len() == 0 || (cs.len() == 1 && cs[0] == '.') {
            proof {
                if cs@.len() == 1 {
                    assert(piece@ =~= seq!['.']);
                }
            }
        } else {
            let copy = string_from(cs.as_slice());
            r.push(copy);
            assert(piece@ != seq!['.']);
            assert(views(r@) =~= views(prev).push(copy@));
        }
        i = i + 1;
    }
    assert(views(pieces@).take(pieces@.len() as int) =~= views(pieces@));
    r
}

/// Whether `a` and `b` name the same path component by component.
pub fn path_eq(a: &str, b: &str) -> (r: bool)
    ensures
        r == same_path(a@, b@),
{
    let x = chars_of(a);
    let y = chars_of(b);
    let x_rooted = x.len() > 0 && x[0] == '/';
    let y_rooted = y.len() > 0 && y[0] == '/';
    let x_cur = !x_rooted && x.len() > 0 && x[0] == '.' && (x.len() == 1 || x[1] == '/');
    let y_cur = !y_rooted && y.len() > 0 && y[0] == '.' && (y.len() == 1 || y[1] == '/');
    if x_rooted != y_rooted || x_cur != y_cur {
        return false;
    }
    let xs = named_components(a);
    let ys = named_components(b);
    if xs.len() != ys.len() {
        assert(views(xs@).len() != views(ys@).len());
        return false;
    }
    let mut i: usize = 0;
    while i < xs.len()
        invariant
            xs@.len() == ys@.len(),
            views(xs@) == keep_named(split_on(a@, '/')),
            views(ys@) == keep_named(split_on(b@, '/')),
            rooted(a@) == rooted(b@),
            leading_cur_dir(a@) == leading_cur_dir(b@),
            i <= xs@.len(),
            forall|k: int| 0 <= k < i ==> xs@[k]@ == ys@[k]@,
        decreases xs@.len() - i,
    {
        if !str_eq(xs[i].as_str(), ys[i].as_str()) {
            assert(views(xs@)[i as int] != views(ys@)[i as int]);
            return false;
        }
        i = i + 1;
    }
    assert(views(xs@) =~= views(ys@));
    true
}

} // verus!

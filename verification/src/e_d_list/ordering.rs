//! The order of the manifest: by path, component by component.
//!
//! A path is cut at every `/`; two paths are compared by their components
//! in turn, each as a string of bytes, and a path that runs out first comes
//! first. So a directory's own entry and its files stand together, and
//! `a/b` comes before `a-b`, although `-` is less than `/`.

use std::cmp::Ordering;
use vstd::prelude::*;
use vstd::utf8::encode_utf8;
use rayon::slice::ParallelSliceMut;
use super::e_d_element::{EDElement, ElementView};
use super::fold::lemma_xor_fold_permutation;
use super::{element_views, EDList};

verus! {

/// How one path stands to another.
#[derive(Debug, Clone, Copy, PartialEq, Eq, Structural)]
pub enum PathOrder {
    Less,
    Equal,
    Greater,
}

/// The order of two strings of bytes: by the first byte in which they
/// differ; a string that is the beginning of another comes first.
pub open spec fn bytes_order(a: Seq<u8>, b: Seq<u8>) -> PathOrder
    decreases a.len(),
{
    if a.len() == 0 {
        if b.len() == 0 {
            PathOrder::Equal
        } else {
            PathOrder::Less
        }
    } else if b.len() == 0 {
        PathOrder::Greater
    } else if a[0] < b[0] {
        PathOrder::Less
    } else if a[0] > b[0] {
        PathOrder::Greater
    } else {
        bytes_order(a.skip(1), b.skip(1))
    }
}

/// The components of a path: what stands between its `/`. There is always
/// at least one, which may be empty.
pub open spec fn components(path: Seq<u8>) -> Seq<Seq<u8>>
    decreases path.len(),
{
    if path.len() == 0 {
        seq![Seq::empty()]
    } else {
        let rest = components(path.skip(1));
        if path[0] == 0x2f {
            seq![Seq::empty()] + rest
        } else {
            rest.update(0, seq![path[0]] + rest[0])
        }
    }
}

/// The order of two lists of components: by the first component in which
/// they differ; a list that is the beginning of another comes first.
pub open spec fn list_order(a: Seq<Seq<u8>>, b: Seq<Seq<u8>>) -> PathOrder
    decreases a.len(),
{
    if a.len() == 0 {
        if b.len() == 0 {
            PathOrder::Equal
        } else {
            PathOrder::Less
        }
    } else if b.len() == 0 {
        PathOrder::Greater
    } else {
        match bytes_order(a[0], b[0]) {
            PathOrder::Equal => list_order(a.skip(1), b.skip(1)),
            other => other,
        }
    }
}

/// The order of two paths, given by their bytes.
pub open spec fn path_order(a: Seq<u8>, b: Seq<u8>) -> PathOrder {
    list_order(components(a), components(b))
}

/// The rank of a byte within a path: the separator comes before all others.
pub open spec fn rank(byte: u8) -> int {
    if byte == 0x2f {
        0
    } else {
        byte + 1
    }
}

/// The order of two paths by the ranks of their bytes, read in one pass.
pub open spec fn ranked_order(a: Seq<u8>, b: Seq<u8>) -> PathOrder
    decreases a.len(),
{
    if a.len() == 0 {
        if b.len() == 0 {
            PathOrder::Equal
        } else {
            PathOrder::Less
        }
    } else if b.len() == 0 {
        PathOrder::Greater
    } else if rank(a[0]) < rank(b[0]) {
        PathOrder::Less
    } else if rank(a[0]) > rank(b[0]) {
        PathOrder::Greater
    } else {
        ranked_order(a.skip(1), b.skip(1))
    }
}

/// A path has at least one component; the first of a path that starts with
/// a separator is empty, that of any other starts with its first byte.
pub proof fn lemma_components_first(path: Seq<u8>)
    ensures
        components(path).len() >= 1,
        path.len() > 0 && path[0] != 0x2f ==> components(path)[0].len() > 0 && components(
            path,
        )[0][0] == path[0],
        path.len() > 0 && path[0] == 0x2f ==> components(path)[0].len() == 0,
        path.len() == 0 ==> components(path) == seq![Seq::<u8>::empty()],
    decreases path.len(),
{
    if path.len() > 0 {
        lemma_components_first(path.skip(1));
    }
}

/// Reading the ranks of the bytes in one pass gives the order of the
/// components.
pub proof fn lemma_ranked_order(a: Seq<u8>, b: Seq<u8>)
    ensures
        path_order(a, b) == ranked_order(a, b),
    decreases a.len() + b.len(),
{
    let ca = components(a);
    let cb = components(b);
    let none = Seq::<Seq<u8>>::empty();
    lemma_components_first(a);
    lemma_components_first(b);
    if a.len() == 0 && b.len() == 0 {
        assert(ca.skip(1) =~= none);
        assert(cb.skip(1) =~= none);
        assert(list_order(none, none) is Equal);
    } else if a.len() == 0 {
        assert(ca.skip(1) =~= none);
        if b[0] == 0x2f {
            lemma_components_first(b.skip(1));
            assert(cb.skip(1) =~= components(b.skip(1)));
            assert(bytes_order(ca[0], cb[0]) is Equal);
            assert(list_order(none, cb.skip(1)) is Less);
        } else {
            assert(bytes_order(ca[0], cb[0]) is Less);
        }
    } else if b.len() == 0 {
        assert(cb.skip(1) =~= none);
        if a[0] == 0x2f {
            lemma_components_first(a.skip(1));
            assert(ca.skip(1) =~= components(a.skip(1)));
            assert(bytes_order(ca[0], cb[0]) is Equal);
            assert(list_order(ca.skip(1), none) is Greater);
        } else {
            assert(bytes_order(ca[0], cb[0]) is Greater);
        }
    } else {
        let ra = components(a.skip(1));
        let rb = components(b.skip(1));
        lemma_components_first(a.skip(1));
        lemma_components_first(b.skip(1));
        lemma_ranked_order(a.skip(1), b.skip(1));
        if a[0] == 0x2f && b[0] == 0x2f {
            assert(ca.skip(1) =~= ra);
            assert(cb.skip(1) =~= rb);
            assert(bytes_order(ca[0], cb[0]) is Equal);
        } else if a[0] == 0x2f {
            assert(bytes_order(ca[0], cb[0]) is Less);
        } else if b[0] == 0x2f {
            assert(bytes_order(ca[0], cb[0]) is Greater);
        } else {
            assert(ca[0] =~= seq![a[0]] + ra[0]);
            assert(cb[0] =~= seq![b[0]] + rb[0]);
            if a[0] == b[0] {
                assert(ca[0].skip(1) =~= ra[0]);
                assert(cb[0].skip(1) =~= rb[0]);
                assert(bytes_order(ca[0], cb[0]) == bytes_order(ra[0], rb[0]));
                assert(ca.skip(1) =~= ra.skip(1));
                assert(cb.skip(1) =~= rb.skip(1));
                assert(list_order(ra, rb) == match bytes_order(ra[0], rb[0]) {
                    PathOrder::Equal => list_order(ra.skip(1), rb.skip(1)),
                    other => other,
                });
            } else if a[0] < b[0] {
                assert(bytes_order(ca[0], cb[0]) is Less);
            } else {
                assert(bytes_order(ca[0], cb[0]) is Greater);
            }
        }
    }
}

/// Equal in the order are the equal paths and no others.
pub proof fn lemma_order_equal(a: Seq<u8>, b: Seq<u8>)
    ensures
        path_order(a, b) is Equal <==> a == b,
{
    lemma_ranked_order(a, b);
    lemma_ranked_equal(a, b);
}

proof fn lemma_ranked_equal(a: Seq<u8>, b: Seq<u8>)
    ensures
        ranked_order(a, b) is Equal <==> a == b,
    decreases a.len(),
{
    if a.len() > 0 && b.len() > 0 {
        lemma_ranked_equal(a.skip(1), b.skip(1));
        if ranked_order(a, b) is Equal {
            assert(a =~= seq![a[0]] + a.skip(1));
            assert(b =~= seq![b[0]] + b.skip(1));
        }
    }
    if a.len() == 0 && b.len() == 0 {
        assert(a =~= b);
    }
}

/// One path comes before another exactly when that other comes after it.
pub proof fn lemma_order_mirrors(a: Seq<u8>, b: Seq<u8>)
    ensures
        path_order(a, b) is Less <==> path_order(b, a) is Greater,
        path_order(a, b) is Equal <==> path_order(b, a) is Equal,
{
    lemma_ranked_order(a, b);
    lemma_ranked_order(b, a);
    lemma_ranked_mirrors(a, b);
}

proof fn lemma_ranked_mirrors(a: Seq<u8>, b: Seq<u8>)
    ensures
        ranked_order(a, b) is Less <==> ranked_order(b, a) is Greater,
        ranked_order(a, b) is Equal <==> ranked_order(b, a) is Equal,
    decreases a.len(),
{
    if a.len() > 0 && b.len() > 0 {
        lemma_ranked_mirrors(a.skip(1), b.skip(1));
    }
}

/// What does not come after a path that does not come after a third does
/// not come after the third.
pub proof fn lemma_order_transitive(a: Seq<u8>, b: Seq<u8>, c: Seq<u8>)
    requires
        !(path_order(a, b) is Greater),
        !(path_order(b, c) is Greater),
    ensures
        !(path_order(a, c) is Greater),
{
    lemma_ranked_order(a, b);
    lemma_ranked_order(b, c);
    lemma_ranked_order(a, c);
    lemma_ranked_transitive(a, b, c);
}

proof fn lemma_ranked_transitive(a: Seq<u8>, b: Seq<u8>, c: Seq<u8>)
    requires
        !(ranked_order(a, b) is Greater),
        !(ranked_order(b, c) is Greater),
    ensures
        !(ranked_order(a, c) is Greater),
    decreases a.len(),
{
    if a.len() > 0 && b.len() > 0 && c.len() > 0 {
        if rank(a[0]) == rank(b[0]) && rank(b[0]) == rank(c[0]) {
            lemma_ranked_transitive(a.skip(1), b.skip(1), c.skip(1));
        }
    }
}

/// Whether no entry stands before one whose path comes before its own.
pub open spec fn sorted_by_path(entries: Seq<ElementView>) -> bool {
    forall|i: int, j: int|
        0 <= i < j < entries.len() ==> !(#[trigger] path_order(
            encode_utf8(entries[i].path),
            encode_utf8(entries[j].path),
        ) is Greater)
}

/// How the path `a` stands to the path `b`.
pub fn order_paths(a: &str, b: &str) -> (r: PathOrder)
    ensures
        r == path_order(encode_utf8(a@), encode_utf8(b@)),
{
    let x = a.as_bytes();
    let y = b.as_bytes();
    proof {
        lemma_ranked_order(x@, y@);
        assert(x@.skip(0) =~= x@);
        assert(y@.skip(0) =~= y@);
    }
    let mut i: usize = 0;
    while i < x.len() && i < y.len()
        invariant
            i <= x.len(),
            i <= y.len(),
            x@ == encode_utf8(a@),
            y@ == encode_utf8(b@),
            path_order(x@, y@) == ranked_order(x@, y@),
            ranked_order(x@, y@) == ranked_order(x@.skip(i as int), y@.skip(i as int)),
        decreases x.len() - i,
    {
        let p = x[i];
        let q = y[i];
        proof {
            assert(x@.skip(i as int)[0] == p);
            assert(y@.skip(i as int)[0] == q);
            assert(x@.skip(i as int).skip(1) =~= x@.skip(i + 1));
            assert(y@.skip(i as int).skip(1) =~= y@.skip(i + 1));
        }
        if p != q {
            if p == 0x2f {
                return PathOrder::Less;
            } else if q == 0x2f {
                return PathOrder::Greater;
            } else if p < q {
                return PathOrder::Less;
            } else {
                return PathOrder::Greater;
            }
        }
        i = i + 1;
    }
    if i < y.len() {
        PathOrder::Less
    } else if i < x.len() {
        PathOrder::Greater
    } else {
        PathOrder::Equal
    }
}

/// The order of the standard library that stands for a `PathOrder`.
pub open spec fn order_of(ordering: Ordering) -> PathOrder {
    match ordering {
        Ordering::Less => PathOrder::Less,
        Ordering::Equal => PathOrder::Equal,
        Ordering::Greater => PathOrder::Greater,
    }
}

/// How one entry stands to another in the order of the manifest.
pub fn compare_elements(a: &EDElement, b: &EDElement) -> (r: Ordering)
    ensures
        order_of(r) == path_order(encode_utf8(a@.path), encode_utf8(b@.path)),
{
    match order_paths(a.get_path(), b.get_path()) {
        PathOrder::Less => Ordering::Less,
        PathOrder::Equal => Ordering::Equal,
        PathOrder::Greater => Ordering::Greater,
    }
}

/// Calls rayon's `par_sort_unstable_by` with `compare_elements`, a total
/// order: the elements are rearranged, none is lost or made, and afterwards
/// none stands before one that comes before it.
#[verifier::external_body]
fn par_sort_by_path(elements: &mut Vec<EDElement>)
    ensures
        element_views(final(elements)@).to_multiset() == element_views(
            old(elements)@,
        ).to_multiset(),
        sorted_by_path(element_views(final(elements)@)),
{
    elements.par_sort_unstable_by(|a, b| compare_elements(a, b));
}

impl EDList {
    /// Sorts the list by the paths of its entries. The fold does not
    /// change: it does not depend on the order.
    pub fn sort(&mut self)
        requires
            old(self).wf(),
        ensures
            final(self).wf(),
            sorted_by_path(final(self)@.entries),
            final(self)@.entries.to_multiset() == old(self)@.entries.to_multiset(),
            final(self)@.xor_checksum == old(self)@.xor_checksum,
            final(self)@.root_path == old(self)@.root_path,
            final(self).banlist_view() == old(self).banlist_view(),
    {
        par_sort_by_path(&mut self.element_list);
        proof {
            lemma_xor_fold_permutation(old(self)@.entries, self@.entries);
        }
    }
}

} // verus!

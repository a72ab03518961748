//! Optional values and lists by the views of what they hold.

use vstd::prelude::*;

verus! {

/// An optional value by its view.
pub open spec fn opt<T: View>(o: Option<T>) -> Option<T::V> {
    match o {
        Some(x) => Some(x@),
        None => None,
    }
}

/// An optional pair by its views.
pub open spec fn opt_pair<T: View>(o: Option<(T, T)>) -> Option<(T::V, T::V)> {
    match o {
        Some((a, b)) => Some((a@, b@)),
        None => None,
    }
}

/// A list by the views of its elements.
pub open spec fn views<T: View>(s: Seq<T>) -> Seq<T::V> {
    Seq::new(s.len(), |i: int| s[i]@)
}

/// Optional elements by their views.
pub open spec fn opts<T: View>(s: Seq<Option<T>>) -> Seq<Option<T::V>> {
    Seq::new(s.len(), |i: int| opt(s[i]))
}

/// An optional list of texts by its characters.
pub open spec fn opt_texts(o: Option<Vec<String>>) -> Option<Seq<Seq<char>>> {
    match o {
        Some(v) => Some(views(v@)),
        None => None,
    }
}

/// Appends an element.
pub(crate) fn append<T: View>(v: &mut Vec<T>, x: T)
    ensures
        views(final(v)@) == views(old(v)@).push(x@),
        final(v)@ == old(v)@.push(x),
{
    let ghost before = v@;
    v.push(x);
    proof {
        assert(views(v@) =~= views(before).push(x@));
    }
}

/// A list without elements.
pub(crate) fn none_yet<T: View>() -> (r: Vec<T>)
    ensures
        views(r@) == Seq::<T::V>::empty(),
        r@ == Seq::<T>::empty(),
{
    let r: Vec<T> = Vec::new();
    proof {
        assert(views(r@) =~= Seq::<T::V>::empty());
    }
    r
}

/// A copy of an optional text.
pub(crate) fn copy_text(o: &Option<String>) -> (r: Option<String>)
    ensures
        opt(r) == opt(*o),
{
    match o {
        Some(s) => Some(s.clone()),
        None => None,
    }
}

/// An empty text.
pub(crate) fn no_text() -> (r: String)
    ensures
        r@ == Seq::<char>::empty(),
{
    let r = "".to_string();
    proof {
        reveal_strlit("");
        assert(r@ =~= Seq::<char>::empty());
    }
    r
}

} // verus!

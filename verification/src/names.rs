//! Names of vault entries: their order, and which of them are shown.

use vstd::prelude::*;
use vstd::utf8::encode_utf8;
use vstd::utf8::encode_utf8_decode_utf8;

verus! {

/// Lexicographic order on byte strings: the first differing byte decides,
/// and a proper prefix comes before the longer string.
pub open spec fn bytes_lt(a: Seq<u8>, b: Seq<u8>) -> bool
    decreases a.len(),
{
    if b.len() == 0 {
        false
    } else if a.len() == 0 {
        true
    } else if a[0] != b[0] {
        a[0] < b[0]
    } else {
        bytes_lt(a.drop_first(), b.drop_first())
    }
}

/// The order in which names are listed: byte-wise lexicographic order of
/// their UTF-8 encodings.
pub open spec fn name_lt(a: Seq<char>, b: Seq<char>) -> bool {
    bytes_lt(encode_utf8(a), encode_utf8(b))
}

/// A sequence of names in strictly ascending order.
pub open spec fn strictly_ascending(names: Seq<Seq<char>>) -> bool {
    forall|i: int, j: int| 0 <= i < j < names.len() ==> name_lt(#[trigger] names[i], #[trigger] names[j])
}

/// A name that starts with a dot is hidden from every listing.
pub open spec fn is_hidden(name: Seq<char>) -> bool {
    name.len() > 0 && name[0] == '.'
}

/// No byte string comes before itself.
pub proof fn lemma_bytes_lt_irreflexive(a: Seq<u8>)
    ensures
        !bytes_lt(a, a),
    decreases a.len(),
{
    if a.len() > 0 {
        lemma_bytes_lt_irreflexive(a.drop_first());
    }
}

/// The order of byte strings is transitive.
pub proof fn lemma_bytes_lt_transitive(a: Seq<u8>, b: Seq<u8>, c: Seq<u8>)
    requires
        bytes_lt(a, b),
        bytes_lt(b, c),
    ensures
        bytes_lt(a, c),
    decreases a.len(),
{
    if a.len() > 0 && a[0] == b[0] && b[0] == c[0] {
        lemma_bytes_lt_transitive(a.drop_first(), b.drop_first(), c.drop_first());
    }
}

/// Two different byte strings are ordered one way or the other.
pub proof fn lemma_bytes_lt_total(a: Seq<u8>, b: Seq<u8>)
    ensures
        bytes_lt(a, b) || bytes_lt(b, a) || a == b,
    decreases a.len(),
{
    if a.len() > 0 && b.len() > 0 && a[0] == b[0] {
        lemma_bytes_lt_total(a.drop_first(), b.drop_first());
        if a.drop_first() == b.drop_first() {
            assert(a =~= seq![a[0]] + a.drop_first());
            assert(b =~= seq![b[0]] + b.drop_first());
        }
    } else if a.len() == 0 && b.len() == 0 {
        assert(a =~= b);
    }
}

/// No name comes before itself.
pub proof fn lemma_name_lt_irreflexive(a: Seq<char>)
    ensures
        !name_lt(a, a),
{
    lemma_bytes_lt_irreflexive(encode_utf8(a));
}

/// The order of names is transitive.
pub proof fn lemma_name_lt_transitive(a: Seq<char>, b: Seq<char>, c: Seq<char>)
    requires
        name_lt(a, b),
        name_lt(b, c),
    ensures
        name_lt(a, c),
{
    lemma_bytes_lt_transitive(encode_utf8(a), encode_utf8(b), encode_utf8(c));
}

/// Two different names are always ordered one way or the other.
pub proof fn lemma_name_lt_total(a: Seq<char>, b: Seq<char>)
    ensures
        name_lt(a, b) || name_lt(b, a) || a == b,
{
    lemma_bytes_lt_total(encode_utf8(a), encode_utf8(b));
    if encode_utf8(a) == encode_utf8(b) {
        encode_utf8_decode_utf8(a);
        encode_utf8_decode_utf8(b);
    }
}

/// Names in strictly ascending order are pairwise different.
pub proof fn lemma_ascending_distinct(names: Seq<Seq<char>>)
    requires
        strictly_ascending(names),
    ensures
        names.no_duplicates(),
{
    assert forall|i: int, j: int| 0 <= i < names.len() && 0 <= j < names.len() && i != j implies names[i]
        != names[j] by {
        lemma_name_lt_irreflexive(names[i]);
    }
}

/// Whether `a` is listed before `b`.
pub fn name_less(a: &str, b: &str) -> (r: bool)
    ensures
        r == name_lt(a@, b@),
{
    let x = a.as_bytes();
    let y = b.as_bytes();
    let mut i: usize = 0;
    assert(x@.skip(0) =~= x@ && y@.skip(0) =~= y@);
    while i < x.len() && i < y.len()
        invariant
            x@ == encode_utf8(a@),
            y@ == encode_utf8(b@),
            i <= x.len(),
            i <= y.len(),
            bytes_lt(x@, y@) == bytes_lt(x@.skip(i as int), y@.skip(i as int)),
        decreases x.len() - i,
    {
        assert(x@.skip(i as int)[0] == x@[i as int] && y@.skip(i as int)[0] == y@[i as int]);
        if x[i] != y[i] {
            return x[i] < y[i];
        }
        proof {
            assert(x@.skip(i as int).drop_first() =~= x@.skip(i + 1));
            assert(y@.skip(i as int).drop_first() =~= y@.skip(i + 1));
        }
        i += 1;
    }
    i < y.len()
}

/// `names` with `name` put in front of the names at its end that come after
/// it, unless it meets itself there: in an ascending list, at its place in
/// the order, unless it is there already.
pub open spec fn with_name(names: Seq<Seq<char>>, name: Seq<char>) -> Seq<Seq<char>>
    decreases names.len(),
{
    if names.len() == 0 {
        seq![name]
    } else if names.last() == name {
        names
    } else if name_lt(names.last(), name) {
        names.push(name)
    } else {
        with_name(names.drop_last(), name).push(names.last())
    }
}

/// The names of `names` in ascending order, each of them once.
pub open spec fn sorted_names(names: Seq<Seq<char>>) -> Seq<Seq<char>>
    decreases names.len(),
{
    if names.len() == 0 {
        Seq::empty()
    } else {
        with_name(sorted_names(names.drop_last()), names.last())
    }
}

/// Putting a name into an ascending sequence keeps it ascending and adds
/// exactly that name.
pub proof fn lemma_with_name(names: Seq<Seq<char>>, name: Seq<char>)
    requires
        strictly_ascending(names),
    ensures
        strictly_ascending(with_name(names, name)),
        forall|n: Seq<char>| #[trigger]
            with_name(names, name).contains(n) <==> (names.contains(n) || n == name),
        names.len() <= with_name(names, name).len() <= names.len() + 1,
    decreases names.len(),
{
    let out = with_name(names, name);
    if names.len() == 0 {
        assert(out[0] == name);
    } else if names.last() == name {
        assert(names[names.len() - 1] == name);
    } else if name_lt(names.last(), name) {
        assert forall|i: int, j: int| 0 <= i < j < out.len() implies name_lt(out[i], out[j]) by {
            if j == names.len() && i < names.len() - 1 {
                lemma_name_lt_transitive(names[i], names.last(), name);
            }
        }
        assert forall|n: Seq<char>| #[trigger]
            out.contains(n) <==> (names.contains(n) || n == name) by {
            if names.contains(n) {
                let k = choose|k: int| 0 <= k < names.len() && names[k] == n;
                assert(out[k] == n);
            }
            if n == name {
                assert(out[names.len() as int] == n);
            }
        }
    } else {
        let front = names.drop_last();
        let inner = with_name(front, name);
        lemma_with_name(front, name);
        lemma_name_lt_total(names.last(), name);
        assert forall|i: int, j: int| 0 <= i < j < out.len() implies name_lt(out[i], out[j]) by {
            if j == inner.len() {
                assert(inner.contains(inner[i]));
                if inner[i] != name {
                    let k = choose|k: int| 0 <= k < front.len() && front[k] == inner[i];
                    assert(names[k] == inner[i]);
                }
            }
        }
        assert forall|n: Seq<char>| #[trigger]
            out.contains(n) <==> (names.contains(n) || n == name) by {
            if out.contains(n) {
                let k = choose|k: int| 0 <= k < out.len() && out[k] == n;
                if k < inner.len() {
                    assert(inner.contains(inner[k]));
                    if n != name {
                        let m = choose|m: int| 0 <= m < front.len() && front[m] == n;
                        assert(names[m] == n);
                    }
                } else {
                    assert(names[names.len() - 1] == n);
                }
            }
            if names.contains(n) {
                let k = choose|k: int| 0 <= k < names.len() && names[k] == n;
                if k < front.len() {
                    assert(front[k] == n);
                    assert(inner.contains(n));
                    let m = choose|m: int| 0 <= m < inner.len() && inner[m] == n;
                    assert(out[m] == n);
                } else {
                    assert(out[inner.len() as int] == n);
                }
            }
            if n == name {
                assert(inner.contains(n));
                let m = choose|m: int| 0 <= m < inner.len() && inner[m] == n;
                assert(out[m] == n);
            }
        }
    }
}

/// `sorted_names` is strictly ascending and holds exactly the names it was
/// given.
pub proof fn lemma_sorted_names(names: Seq<Seq<char>>)
    ensures
        strictly_ascending(sorted_names(names)),
        forall|n: Seq<char>| #[trigger] sorted_names(names).contains(n) <==> names.contains(n),
        sorted_names(names).len() <= names.len(),
    decreases names.len(),
{
    if names.len() > 0 {
        let front = names.drop_last();
        lemma_sorted_names(front);
        lemma_with_name(sorted_names(front), names.last());
        assert forall|n: Seq<char>| #[trigger]
            sorted_names(names).contains(n) <==> names.contains(n) by {
            if names.contains(n) {
                let k = choose|k: int| 0 <= k < names.len() && names[k] == n;
                if k < front.len() {
                    assert(front[k] == n);
                }
            }
            if front.contains(n) {
                let k = choose|k: int| 0 <= k < front.len() && front[k] == n;
                assert(names[k] == n);
            }
            assert(names[names.len() - 1] == names.last());
        }
    }
}

/// An ascending list is determined by the names it holds.
pub proof fn lemma_ascending_unique(a: Seq<Seq<char>>, b: Seq<Seq<char>>)
    requires
        strictly_ascending(a),
        strictly_ascending(b),
        forall|n: Seq<char>| a.contains(n) <==> b.contains(n),
    ensures
        a == b,
    decreases a.len(),
{
    if a.len() == 0 {
        if b.len() > 0 {
            assert(b.contains(b[0]));
        }
        assert(a =~= b);
    } else {
        let x = a.last();
        assert(a.contains(a[a.len() - 1]));
        let k = choose|k: int| 0 <= k < b.len() && b[k] == x;
        let y = b.last();
        assert(b.contains(b[b.len() - 1]));
        let m = choose|m: int| 0 <= m < a.len() && a[m] == y;
        lemma_name_lt_irreflexive(x);
        if k < b.len() - 1 {
            assert(name_lt(b[k], b[b.len() - 1]));
            if m < a.len() - 1 {
                assert(name_lt(a[m], a[a.len() - 1]));
                lemma_name_lt_transitive(x, y, x);
            }
        }
        assert(x == y);
        let front = a.drop_last();
        let other = b.drop_last();
        assert forall|n: Seq<char>| front.contains(n) <==> other.contains(n) by {
            if front.contains(n) {
                let i = choose|i: int| 0 <= i < front.len() && front[i] == n;
                assert(a[i] == n && name_lt(a[i], a[a.len() - 1]));
                assert(a.contains(n));
                let j = choose|j: int| 0 <= j < b.len() && b[j] == n;
                assert(other[j] == n);
            }
            if other.contains(n) {
                let j = choose|j: int| 0 <= j < other.len() && other[j] == n;
                assert(b[j] == n && name_lt(b[j], b[b.len() - 1]));
                assert(b.contains(n));
                let i = choose|i: int| 0 <= i < a.len() && a[i] == n;
                assert(front[i] == n);
            }
        }
        lemma_ascending_unique(front, other);
        assert(a =~= front.push(x));
        assert(b =~= other.push(y));
    }
}

/// Leaving names out of an ascending list and putting a name in can be done
/// in either order.
pub proof fn lemma_with_name_filter(
    names: Seq<Seq<char>>,
    name: Seq<char>,
    keep: spec_fn(Seq<char>) -> bool,
)
    requires
        strictly_ascending(names),
    ensures
        with_name(names, name).filter(keep) == if keep(name) {
            with_name(names.filter(keep), name)
        } else {
            names.filter(keep)
        },
    decreases names.len(),
{
    if names.len() == 0 {
        assert(names =~= Seq::empty());
        assert(with_name(names, name) =~= names.push(name));
        names.lemma_filter_push(name, keep);
        reveal(Seq::filter);
    } else {
        let front = names.drop_last();
        let last = names.last();
        assert(names =~= front.push(last));
        front.lemma_filter_push(last, keep);
        let kept = names.filter(keep);
        if last == name {
        } else if name_lt(last, name) {
            names.lemma_filter_push(name, keep);
            if keep(name) && kept.len() > 0 {
                assert(kept.contains(kept.last()));
                names.lemma_filter_contains_rev(keep, kept.last());
                let k = choose|k: int| 0 <= k < names.len() && names[k] == kept.last();
                if k < names.len() - 1 {
                    assert(name_lt(names[k], names[names.len() - 1]));
                    lemma_name_lt_transitive(kept.last(), last, name);
                }
                lemma_name_lt_irreflexive(name);
            }
        } else {
            lemma_with_name_filter(front, name, keep);
            with_name(front, name).lemma_filter_push(last, keep);
            if keep(name) && keep(last) {
                assert(kept.drop_last() =~= front.filter(keep));
            }
        }
    }
}

/// Leaving names out and sorting can be done in either order.
pub proof fn lemma_sorted_names_filter(names: Seq<Seq<char>>, keep: spec_fn(Seq<char>) -> bool)
    ensures
        sorted_names(names).filter(keep) == sorted_names(names.filter(keep)),
    decreases names.len(),
{
    if names.len() == 0 {
        reveal(Seq::filter);
    } else {
        let front = names.drop_last();
        let last = names.last();
        assert(names =~= front.push(last));
        lemma_sorted_names_filter(front, keep);
        lemma_sorted_names(front);
        lemma_with_name_filter(sorted_names(front), last, keep);
        front.lemma_filter_push(last, keep);
        if keep(last) {
            assert(front.filter(keep).push(last).drop_last() =~= front.filter(keep));
        }
    }
}

/// Where a new name goes: behind everything that comes before it.
proof fn lemma_with_name_at(names: Seq<Seq<char>>, name: Seq<char>, p: int)
    requires
        0 <= p <= names.len(),
        forall|j: int| p <= j < names.len() ==> name_lt(name, #[trigger] names[j]),
        p == 0 || name_lt(names[p - 1], name),
    ensures
        with_name(names, name) == names.insert(p, name),
    decreases names.len() - p,
{
    if p == names.len() {
        if p > 0 {
            lemma_name_lt_irreflexive(name);
        }
        assert(names.insert(p, name) =~= names.push(name));
    } else {
        let last = names.last();
        assert(name_lt(name, last));
        lemma_name_lt_irreflexive(name);
        if name_lt(last, name) {
            lemma_name_lt_transitive(name, last, name);
        }
        lemma_with_name_at(names.drop_last(), name, p);
        assert(names.insert(p, name) =~= names.drop_last().insert(p, name).push(last));
    }
}

/// A name that is there already changes nothing.
proof fn lemma_with_name_present(names: Seq<Seq<char>>, name: Seq<char>, p: int)
    requires
        0 < p <= names.len(),
        forall|j: int| p <= j < names.len() ==> name_lt(name, #[trigger] names[j]),
        names[p - 1] == name,
    ensures
        with_name(names, name) == names,
    decreases names.len() - p,
{
    if p < names.len() {
        let last = names.last();
        assert(name_lt(name, last));
        lemma_name_lt_irreflexive(name);
        if name_lt(last, name) {
            lemma_name_lt_transitive(name, last, name);
        }
        lemma_with_name_present(names.drop_last(), name, p);
        assert(names =~= names.drop_last().push(last));
    }
}

/// Puts `name` into the list in front of the names at its end that come
/// after it, unless it meets itself there: in an ascending list, at its
/// place in the order, unless it is there already.
pub fn insert_name(names: &mut Vec<String>, name: String)
    ensures
        final(names).deep_view() == with_name(old(names).deep_view(), name@),
        strictly_ascending(old(names).deep_view()) ==> strictly_ascending(final(names).deep_view()),
{
    let ghost before = names.deep_view();
    let mut p: usize = names.len();
    while p > 0 && name_less(name.as_str(), names[p - 1].as_str())
        invariant
            p <= names.len(),
            names.deep_view() == before,
            forall|j: int| p <= j < names.len() ==> name_lt(name@, #[trigger] before[j]),
        decreases p,
    {
        p -= 1;
    }
    proof {
        if strictly_ascending(before) {
            lemma_with_name(before, name@);
        }
    }
    if p > 0 && names[p - 1] == name {
        proof {
            lemma_with_name_present(before, name@, p as int);
        }
        return ;
    }
    proof {
        if p > 0 {
            lemma_name_lt_total(before[p - 1], name@);
        }
        lemma_with_name_at(before, name@, p as int);
    }
    names.insert(p, name);
    assert(names.deep_view() =~= before.insert(p as int, name@));
}

/// Whether a name is hidden from listings.
pub fn hidden(name: &str) -> (r: bool)
    ensures
        r == is_hidden(name@),
{
    !name.is_empty() && name.get_char(0) == '.'
}

} // verus!

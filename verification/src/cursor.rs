//! Cursors: where a name stands in a list, and how a cursor steps.

use vstd::prelude::*;

verus! {

/// The way a cursor moves.
#[derive(Clone, Copy, Debug, PartialEq, Eq, Structural)]
pub enum Direction {
    /// Towards the start of the list.
    Backward,
    /// Towards the end of the list.
    Forward,
}

/// The cursor position one step from `cur` in a list of `len` items: the
/// step past the last item leads to the first, the step before the first
/// to the last.
pub open spec fn stepped(cur: int, len: int, dir: Direction) -> int {
    match dir {
        Direction::Forward => if cur + 1 >= len {
            0
        } else {
            cur + 1
        },
        Direction::Backward => if cur <= 0 {
            len - 1
        } else {
            cur - 1
        },
    }
}

/// A step keeps a cursor within its list and wraps exactly at the ends:
/// forward from the last item to the first, backward from the first to the
/// last. A step forward is the successor modulo the length, a step backward
/// the predecessor, and one undoes the other.
pub proof fn lemma_step_wraps(cur: int, len: int)
    requires
        0 <= cur < len,
    ensures
        0 <= stepped(cur, len, Direction::Forward) < len,
        0 <= stepped(cur, len, Direction::Backward) < len,
        stepped(len - 1, len, Direction::Forward) == 0,
        stepped(0, len, Direction::Backward) == len - 1,
        stepped(cur, len, Direction::Forward) == (cur + 1) % len,
        stepped(cur, len, Direction::Backward) == (cur + len - 1) % len,
        stepped(stepped(cur, len, Direction::Forward), len, Direction::Backward) == cur,
        stepped(stepped(cur, len, Direction::Backward), len, Direction::Forward) == cur,
{
    if cur + 1 < len {
        vstd::arithmetic::div_mod::lemma_small_mod((cur + 1) as nat, len as nat);
    } else {
        vstd::arithmetic::div_mod::lemma_mod_self_0(len);
    }
    if cur > 0 {
        vstd::arithmetic::div_mod::lemma_mod_add_multiples_vanish(cur - 1, len);
        vstd::arithmetic::div_mod::lemma_small_mod((cur - 1) as nat, len as nat);
    } else {
        vstd::arithmetic::div_mod::lemma_small_mod((len - 1) as nat, len as nat);
    }
}

/// The cursor position one step from `cur` in a list of `len` items.
pub(crate) fn step(cur: usize, len: usize, dir: Direction) -> (r: usize)
    requires
        cur < len,
    ensures
        r == stepped(cur as int, len as int, dir),
        r < len,
{
    match dir {
        Direction::Forward => if cur + 1 >= len {
            0
        } else {
            cur + 1
        },
        Direction::Backward => if cur == 0 {
            len - 1
        } else {
            cur - 1
        },
    }
}

/// `name` stands in `names` at `i`, and nowhere before.
pub open spec fn first_at(names: Seq<Seq<char>>, name: Seq<char>, i: int) -> bool {
    &&& 0 <= i < names.len()
    &&& names[i] == name
    &&& forall|j: int| 0 <= j < i ==> names[j] != name
}

/// Where `name` first stands in `names`, if it does.
pub open spec fn position(names: Seq<Seq<char>>, name: Seq<char>) -> Option<int> {
    if exists|i: int| first_at(names, name, i) {
        Some(choose|i: int| first_at(names, name, i))
    } else {
        None
    }
}

/// A name has at most one first place.
pub proof fn lemma_position(names: Seq<Seq<char>>, name: Seq<char>, i: int)
    requires
        first_at(names, name, i),
    ensures
        position(names, name) == Some(i),
{
    let c = choose|c: int| first_at(names, name, c);
    assert(first_at(names, name, c));
    if c < i {
        assert(names[c] != name);
    } else if i < c {
        assert(names[i] != name);
    }
}

/// A name has a place exactly if it is listed, and its place is the first
/// at which it stands.
pub proof fn lemma_position_listed(names: Seq<Seq<char>>, name: Seq<char>)
    ensures
        position(names, name) is None <==> !names.contains(name),
        position(names, name) matches Some(i) ==> first_at(names, name, i),
{
    if names.contains(name) {
        lemma_first_exists(names, name, names.len() as int);
    }
    if exists|i: int| first_at(names, name, i) {
        let c = choose|c: int| first_at(names, name, c);
        assert(names[c] == name);
    }
}

/// A name that stands among the first `n` has a first place.
proof fn lemma_first_exists(names: Seq<Seq<char>>, name: Seq<char>, n: int)
    requires
        0 <= n <= names.len(),
        exists|k: int| 0 <= k < n && names[k] == name,
    ensures
        exists|i: int| first_at(names, name, i),
    decreases n,
{
    if exists|k: int| 0 <= k < n - 1 && names[k] == name {
        lemma_first_exists(names, name, n - 1);
    } else {
        assert(names[n - 1] == name);
        assert(first_at(names, name, n - 1));
    }
}

/// In a list without repetitions every item stands at its own place.
pub proof fn lemma_position_of_item(names: Seq<Seq<char>>, i: int)
    requires
        names.no_duplicates(),
        0 <= i < names.len(),
    ensures
        position(names, names[i]) == Some(i),
{
    assert(first_at(names, names[i], i));
    lemma_position(names, names[i], i);
}

/// Where `name` first stands in `names`.
pub fn find_name(names: &Vec<String>, name: &String) -> (r: Option<usize>)
    ensures
        match r {
            Some(i) => position(names.deep_view(), name@) == Some(i as int) && i < names.len(),
            None => position(names.deep_view(), name@) is None,
        },
{
    let mut i: usize = 0;
    while i < names.len()
        invariant
            i <= names.len(),
            forall|j: int| 0 <= j < i ==> names.deep_view()[j] != name@,
        decreases names.len() - i,
    {
        if names[i] == *name {
            proof {
                assert(first_at(names.deep_view(), name@, i as int));
                lemma_position(names.deep_view(), name@, i as int);
            }
            return Some(i);
        }
        i += 1;
    }
    proof {
        lemma_position_listed(names.deep_view(), name@);
    }
    None
}

} // verus!

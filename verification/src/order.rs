//! The order of a list of names that is meant to be sorted: where it first
//! breaks, and where the name that breaks it belongs.

use vstd::prelude::*;

verus! {

/// `a` comes before `b` in byte-wise order: at the first byte in which they
/// differ `a` has the smaller one, or `a` ends there and `b` goes on.
pub open spec fn name_before(a: Seq<u8>, b: Seq<u8>) -> bool
    decreases a.len(),
{
    if b.len() == 0 {
        false
    } else if a.len() == 0 {
        true
    } else if a[0] != b[0] {
        a[0] < b[0]
    } else {
        name_before(a.skip(1), b.skip(1))
    }
}

/// Of two names, one comes before the other or they are the same name.
pub proof fn name_order_is_total(a: Seq<u8>, b: Seq<u8>)
    ensures
        name_before(a, b) || name_before(b, a) || a == b,
    decreases a.len(),
{
    if a.len() == 0 || b.len() == 0 {
        if a.len() == 0 && b.len() == 0 {
            assert(a =~= b);
        }
    } else if a[0] == b[0] {
        name_order_is_total(a.skip(1), b.skip(1));
        if a.skip(1) == b.skip(1) {
            assert(a =~= seq![a[0]] + a.skip(1));
            assert(b =~= seq![b[0]] + b.skip(1));
        }
    }
}

/// Whether `a` comes before `b` in byte-wise order.
pub fn before(a: &Vec<u8>, b: &Vec<u8>) -> (yes: bool)
    ensures
        yes == name_before(a@, b@),
{
    let mut i: usize = 0;
    assert(a@.skip(0) =~= a@ && b@.skip(0) =~= b@);
    while i < a.len() && i < b.len()
        invariant
            i <= a.len(),
            i <= b.len(),
            name_before(a@, b@) == name_before(a@.skip(i as int), b@.skip(i as int)),
        decreases a.len() - i,
    {
        let ghost x = a@.skip(i as int);
        let ghost y = b@.skip(i as int);
        assert(x[0] == a[i as int] && y[0] == b[i as int]);
        if a[i] != b[i] {
            return a[i] < b[i];
        }
        assert(x.skip(1) =~= a@.skip(i + 1) && y.skip(1) =~= b@.skip(i + 1));
        i += 1;
    }
    i < b.len()
}

/// The first name of `names` that comes before the name in front of it, and
/// the place where it belongs: `found` is `(at, target)`, where `at` is the
/// index of that name and `target` the index of the first name that it comes
/// before. All names in front of `target` come before it or are the same name.
/// There is nothing to find exactly where no name comes before the name in
/// front of it.
pub fn first_misplaced(names: &Vec<Vec<u8>>) -> (found: Option<(usize, usize)>)
    ensures
        found is None <==> forall|i: int|
            0 < i < names@.len() ==> !name_before(#[trigger] names@[i]@, names@[i - 1]@),
        found matches Some((at, target)) ==> {
            &&& 0 < at < names@.len()
            &&& name_before(names@[at as int]@, names@[at - 1]@)
            &&& forall|i: int| 0 < i < at ==> !name_before(#[trigger] names@[i]@, names@[i - 1]@)
            &&& target < at
            &&& name_before(names@[at as int]@, names@[target as int]@)
            &&& forall|j: int|
                0 <= j < target ==> name_before(#[trigger] names@[j]@, names@[at as int]@)
                    || names@[j]@ == names@[at as int]@
        },
{
    let mut at: usize = 1;
    while at < names.len()
        invariant
            1 <= at,
            forall|i: int|
                0 < i < at && i < names@.len() ==> !name_before(
                    #[trigger] names@[i]@,
                    names@[i - 1]@,
                ),
        decreases names.len() - at,
    {
        if before(&names[at], &names[at - 1]) {
            let mut target: usize = 0;
            while !before(&names[at], &names[target])
                invariant
                    0 < at < names.len(),
                    target < at,
                    name_before(names@[at as int]@, names@[at - 1]@),
                    forall|j: int|
                        0 <= j < target ==> !name_before(names@[at as int]@, #[trigger] names@[j]@),
                decreases at - target,
            {
                target += 1;
            }
            proof {
                assert forall|j: int| 0 <= j < target implies name_before(
                    #[trigger] names@[j]@,
                    names@[at as int]@,
                ) || names@[j]@ == names@[at as int]@ by {
                    name_order_is_total(names@[j]@, names@[at as int]@);
                }
            }
            return Some((at, target));
        }
        at += 1;
    }
    None
}

} // verus!

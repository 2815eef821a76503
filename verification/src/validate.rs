//! Validation of a table whose elements may reference each other by index,
//! with a three-state per-slot memo (undone / validating / done) so that a
//! hostile reference cycle is reported as an error instead of causing
//! unbounded recursion.

use vstd::prelude::*;
use vstd::string::StringExecFns;

use crate::text::concat_usize;

verus! {

/// A table of elements validated together: the whole table is valid when
/// every element of the list is.
pub struct Elems {
    pub list: Vec<Elem>,
}

/// One element: an atomic value that is valid exactly when it holds `Ok`,
/// or a reference to one or two other slots, valid exactly when the
/// referenced slots are valid — which a reference cycle can never be.
pub enum Elem {
    Atomic { value: Result<(), String> },
    Ref { index: usize },
    Ref2 { index1: usize, index2: usize },
}

/// The memo entry for one slot during a validation run.
#[derive(Clone, Copy, Debug, PartialEq, Eq, Structural)]
pub enum Status {
    Done,
    Undone,
    Validating,
}

/// Validity witnessed by a derivation of height at most `k`: an atomic
/// element by its own value, a reference by the validity of its targets.
pub open spec fn elem_valid_k(list: Seq<Elem>, i: int, k: nat) -> bool
    decreases k,
{
    if k == 0 || !(0 <= i < list.len())  {
        false
    } else {
        match list[i] {
            Elem::Atomic { value } => value is Ok,
            Elem::Ref { index } => elem_valid_k(list, index as int, (k - 1) as nat),
            Elem::Ref2 { index1, index2 } => elem_valid_k(list, index1 as int, (k - 1) as nat)
                && elem_valid_k(list, index2 as int, (k - 1) as nat),
        }
    }
}

/// Validity proper: some finite derivation witnesses the element.
pub open spec fn elem_valid(list: Seq<Elem>, i: int) -> bool {
    exists|k: nat| elem_valid_k(list, i, k)
}

/// A taller derivation bound witnesses everything a shorter one does.
proof fn lemma_elem_valid_mono(list: Seq<Elem>, i: int, k1: nat, k2: nat)
    requires
        k1 <= k2,
        elem_valid_k(list, i, k1),
    ensures
        elem_valid_k(list, i, k2),
    decreases k1,
{
    if k1 > 0 && 0 <= i < list.len() {
        match list[i] {
            Elem::Atomic { .. } => {},
            Elem::Ref { index } => {
                lemma_elem_valid_mono(list, index as int, (k1 - 1) as nat, (k2 - 1) as nat);
            },
            Elem::Ref2 { index1, index2 } => {
                lemma_elem_valid_mono(list, index1 as int, (k1 - 1) as nat, (k2 - 1) as nat);
                lemma_elem_valid_mono(list, index2 as int, (k1 - 1) as nat, (k2 - 1) as nat);
            },
        }
    }
}

/// How many slots are not currently being validated; the measure that
/// bounds the depth of the memoized walk.
pub open spec fn free_slots(s: Seq<Status>) -> nat
    decreases s.len(),
{
    if s.len() == 0 {
        0
    } else {
        (if s[0] is Validating {
            0nat
        } else {
            1nat
        }) + free_slots(s.drop_first())
    }
}

proof fn lemma_free_slots_update(s: Seq<Status>, j: int)
    requires
        0 <= j < s.len(),
        !(s[j] is Validating),
    ensures
        free_slots(s.update(j, Status::Validating)) + 1 == free_slots(s),
    decreases s.len(),
{
    let t = s.update(j, Status::Validating);
    assert(t.drop_first() =~= if j == 0 {
        s.drop_first()
    } else {
        s.drop_first().update(j - 1, Status::Validating)
    });
    if j > 0 {
        lemma_free_slots_update(s.drop_first(), j - 1);
    }
}

/// The measure depends only on which slots are being validated.
proof fn lemma_free_slots_same(s1: Seq<Status>, s2: Seq<Status>)
    requires
        s1.len() == s2.len(),
        forall|j: int| 0 <= j < s1.len() ==> ((#[trigger] s1[j]) is Validating <==> s2[j] is Validating),
    ensures
        free_slots(s1) == free_slots(s2),
    decreases s1.len(),
{
    if s1.len() > 0 {
        assert(forall|j: int|
            0 <= j < s1.drop_first().len() ==> ((#[trigger] s1.drop_first()[j]) is Validating
                <==> s2.drop_first()[j] is Validating));
        lemma_free_slots_same(s1.drop_first(), s2.drop_first());
    }
}

/// Element `a` holds a reference to slot `b`.
pub open spec fn refers(list: Seq<Elem>, a: int, b: int) -> bool {
    0 <= a < list.len() && match list[a] {
        Elem::Atomic { .. } => false,
        Elem::Ref { index } => index == b,
        Elem::Ref2 { index1, index2 } => index1 == b || index2 == b,
    }
}

/// No derivation of any height witnesses a slot that sits on a reference
/// cycle: each step around the cycle costs one unit of height.
proof fn lemma_cycle_invalid_k(list: Seq<Elem>, c: Seq<int>, k: nat)
    requires
        c.len() > 0,
        forall|i: int| 0 <= i < c.len() - 1 ==> refers(list, #[trigger] c[i], c[i + 1]),
        refers(list, c[c.len() - 1], c[0]),
    ensures
        forall|pos: int| 0 <= pos < c.len() ==> !elem_valid_k(list, #[trigger] c[pos], k),
    decreases k,
{
    if k > 0 {
        lemma_cycle_invalid_k(list, c, (k - 1) as nat);
        assert forall|pos: int| 0 <= pos < c.len() implies !elem_valid_k(
            list,
            #[trigger] c[pos],
            k,
        ) by {
            let nxt = if pos == c.len() - 1 {
                c[0]
            } else {
                c[pos + 1]
            };
            assert(refers(list, c[pos], nxt));
            if elem_valid_k(list, c[pos], k) {
                match list[c[pos]] {
                    Elem::Atomic { .. } => {
                        assert(false);
                    },
                    Elem::Ref { index } => {
                        assert(index == nxt);
                        assert(!elem_valid_k(list, nxt, (k - 1) as nat));
                    },
                    Elem::Ref2 { index1, index2 } => {
                        assert(index1 == nxt || index2 == nxt);
                        assert(!elem_valid_k(list, nxt, (k - 1) as nat));
                    },
                }
            }
        }
    }
}

/// A slot on a reference cycle is invalid.
proof fn lemma_cycle_invalid(list: Seq<Elem>, c: Seq<int>)
    requires
        c.len() > 0,
        forall|i: int| 0 <= i < c.len() - 1 ==> refers(list, #[trigger] c[i], c[i + 1]),
        refers(list, c[c.len() - 1], c[0]),
    ensures
        !elem_valid(list, c[0]),
{
    assert forall|k: nat| !elem_valid_k(list, c[0], k) by {
        lemma_cycle_invalid_k(list, c, k);
    }
}

/// Every slot already marked done has been found valid.
pub open spec fn done_sound(list: Seq<Elem>, s: Seq<Status>) -> bool {
    forall|j: int| 0 <= j < s.len() && (#[trigger] s[j]) is Done ==> elem_valid(list, j)
}

/// Validates every element of the table in ascending index order, and
/// accepts exactly when every element is valid: an atomic failure, a
/// reference past the table, or a reference cycle each make some element
/// invalid, and the run rejects.
pub fn validate(elems: &Elems) -> (r: Result<(), String>)
    ensures
        r is Ok <==> forall|i: int| 0 <= i < elems.list@.len() ==> elem_valid(elems.list@, i),
{
    let n = elems.list.len();
    let mut statuses: Vec<Status> = Vec::new();
    let mut j: usize = 0;
    while j < n
        invariant
            statuses@.len() == j,
            j <= n,
            forall|t: int| 0 <= t < j ==> (#[trigger] statuses@[t]) == Status::Undone,
        decreases n - j,
    {
        statuses.push(Status::Undone);
        j = j + 1;
    }
    let mut index: usize = 0;
    while index < n
        invariant
            n == elems.list@.len(),
            statuses@.len() == n,
            index <= n,
            forall|t: int| 0 <= t < n ==> !((#[trigger] statuses@[t]) is Validating),
            done_sound(elems.list@, statuses@),
            forall|i: int| 0 <= i < index ==> elem_valid(elems.list@, i),
        decreases n - index,
    {
        match validate_each(index, elems, &mut statuses, Ghost(Seq::empty())) {
            Ok(_) => {},
            Err(e) => {
                proof {
                    let w = choose|w: int|
                        0 <= w < elems.list@.len() && !elem_valid(elems.list@, w);
                    assert(!(forall|i: int|
                        0 <= i < elems.list@.len() ==> elem_valid(elems.list@, i)));
                }
                return Err(e);
            },
        }
        index = index + 1;
    }
    Ok(())
}

/// Validates the element at `index`, marking it as in progress while its
/// references are followed. The ghost `path` is the chain of in-progress
/// slots above this call, each referring to the next and the last to
/// `index`; meeting an in-progress slot again therefore closes a cycle,
/// which makes the slot invalid and fails the run.
fn validate_each(
    index: usize,
    elems: &Elems,
    statuses: &mut Vec<Status>,
    Ghost(path): Ghost<Seq<int>>,
) -> (r: Result<(), String>)
    requires
        old(statuses)@.len() == elems.list@.len(),
        index < elems.list@.len(),
        !(old(statuses)@[index as int] is Validating),
        done_sound(elems.list@, old(statuses)@),
        forall|j: int|
            0 <= j < old(statuses)@.len() ==> (((#[trigger] old(statuses)@[j]) is Validating)
                <==> path.contains(j)),
        forall|i: int| 0 <= i < path.len() ==> 0 <= #[trigger] path[i] < elems.list@.len(),
        forall|i: int| 0 <= i < path.len() - 1 ==> refers(elems.list@, #[trigger] path[i], path[i + 1]),
        path.len() > 0 ==> refers(elems.list@, path[path.len() - 1], index as int),
    ensures
        final(statuses)@.len() == old(statuses)@.len(),
        done_sound(elems.list@, final(statuses)@),
        r is Ok ==> elem_valid(elems.list@, index as int),
        r is Ok ==> forall|t: int|
            0 <= t < old(statuses)@.len() ==> ((#[trigger] final(statuses)@[t]) is Validating
                <==> old(statuses)@[t] is Validating),
        r is Err ==> exists|w: int| 0 <= w < elems.list@.len() && !elem_valid(elems.list@, w),
    decreases free_slots(old(statuses)@),
{
    let ghost list = elems.list@;
    let ghost s0 = statuses@;
    if matches!(statuses[index], Status::Done) {
        return Ok(());
    }
    statuses[index] = Status::Validating;
    proof {
        lemma_free_slots_update(s0, index as int);
    }
    let ghost s1 = statuses@;
    let ghost path1 = path.push(index as int);
    proof {
        assert forall|j: int| 0 <= j < s1.len() implies (((#[trigger] s1[j]) is Validating)
            <==> path1.contains(j)) by {
            if j == index {
                assert(path1[path1.len() - 1] == index as int);
            } else {
                if path.contains(j) {
                    let t = choose|t: int| 0 <= t < path.len() && path[t] == j;
                    assert(path1[t] == j);
                }
                if path1.contains(j) {
                    let t = choose|t: int| 0 <= t < path1.len() && path1[t] == j;
                    assert(t < path.len() && path[t] == j);
                }
            }
        }
    }
    let result: Result<(), String> = match &elems.list[index] {
        Elem::Atomic { value } => match value {
            Ok(_) => {
                proof {
                    assert(elem_valid_k(list, index as int, 1));
                }
                Ok(())
            },
            Err(e) => {
                proof {
                    assert forall|k: nat| !elem_valid_k(list, index as int, k) by {}
                    assert(!elem_valid(list, index as int));
                }
                Err(e.clone())
            },
        },
        Elem::Ref { index: ref_index } => {
            let ref_index = *ref_index;
            if ref_index >= elems.list.len() {
                proof {
                    assert forall|k: nat| !elem_valid_k(list, index as int, k) by {
                        if k > 0 {
                            assert(!elem_valid_k(list, ref_index as int, (k - 1) as nat));
                        }
                    }
                    assert(!elem_valid(list, index as int));
                }
                return Err(concat_usize("invalid reference found! ref: ", ref_index));
            }
            if matches!(statuses[ref_index], Status::Validating) {
                proof {
                    let t = choose|t: int| 0 <= t < path1.len() && path1[t] == ref_index as int;
                    let c = path1.subrange(t, path1.len() as int);
                    assert(c[c.len() - 1] == index as int);
                    assert(refers(list, index as int, ref_index as int));
                    assert forall|i: int| 0 <= i < c.len() - 1 implies refers(
                        list,
                        #[trigger] c[i],
                        c[i + 1],
                    ) by {
                        assert(c[i] == path1[t + i] && c[i + 1] == path1[t + i + 1]);
                    }
                    lemma_cycle_invalid(list, c);
                }
                return Err(concat_usize("circular reference found! ref: ", index));
            }
            match validate_each(ref_index, elems, statuses, Ghost(path1)) {
                Ok(_) => {
                    proof {
                        let k = choose|k: nat| elem_valid_k(list, ref_index as int, k);
                        assert(elem_valid_k(list, index as int, k + 1));
                    }
                    Ok(())
                },
                Err(e) => Err(e),
            }
        },
        Elem::Ref2 { index1, index2 } => {
            let ref_index1 = *index1;
            let ref_index2 = *index2;
            if ref_index1 >= elems.list.len() {
                proof {
                    assert forall|k: nat| !elem_valid_k(list, index as int, k) by {
                        if k > 0 {
                            assert(!elem_valid_k(list, ref_index1 as int, (k - 1) as nat));
                        }
                    }
                    assert(!elem_valid(list, index as int));
                }
                return Err(concat_usize("invalid reference found! ref: ", ref_index1));
            }
            if matches!(statuses[ref_index1], Status::Validating) {
                proof {
                    let t = choose|t: int| 0 <= t < path1.len() && path1[t] == ref_index1 as int;
                    let c = path1.subrange(t, path1.len() as int);
                    assert(c[c.len() - 1] == index as int);
                    assert(refers(list, index as int, ref_index1 as int));
                    assert forall|i: int| 0 <= i < c.len() - 1 implies refers(
                        list,
                        #[trigger] c[i],
                        c[i + 1],
                    ) by {
                        assert(c[i] == path1[t + i] && c[i + 1] == path1[t + i + 1]);
                    }
                    lemma_cycle_invalid(list, c);
                }
                return Err(concat_usize("circular reference found! ref: ", index));
            }
            match validate_each(ref_index1, elems, statuses, Ghost(path1)) {
                Ok(_) => {},
                Err(e) => {
                    return Err(e);
                },
            }
            proof {
                lemma_free_slots_same(s1, statuses@);
            }
            if ref_index2 >= elems.list.len() {
                proof {
                    assert forall|k: nat| !elem_valid_k(list, index as int, k) by {
                        if k > 0 {
                            assert(!elem_valid_k(list, ref_index2 as int, (k - 1) as nat));
                        }
                    }
                    assert(!elem_valid(list, index as int));
                }
                return Err(concat_usize("invalid reference found! ref: ", ref_index2));
            }
            if matches!(statuses[ref_index2], Status::Validating) {
                proof {
                    let t = choose|t: int| 0 <= t < path1.len() && path1[t] == ref_index2 as int;
                    let c = path1.subrange(t, path1.len() as int);
                    assert(c[c.len() - 1] == index as int);
                    assert(refers(list, index as int, ref_index2 as int));
                    assert forall|i: int| 0 <= i < c.len() - 1 implies refers(
                        list,
                        #[trigger] c[i],
                        c[i + 1],
                    ) by {
                        assert(c[i] == path1[t + i] && c[i + 1] == path1[t + i + 1]);
                    }
                    lemma_cycle_invalid(list, c);
                }
                return Err(concat_usize("circular reference found! ref: ", index));
            }
            match validate_each(ref_index2, elems, statuses, Ghost(path1)) {
                Ok(_) => {
                    proof {
                        let k1 = choose|k: nat| elem_valid_k(list, ref_index1 as int, k);
                        let k2 = choose|k: nat| elem_valid_k(list, ref_index2 as int, k);
                        let k = if k1 >= k2 {
                            k1
                        } else {
                            k2
                        };
                        lemma_elem_valid_mono(list, ref_index1 as int, k1, k);
                        lemma_elem_valid_mono(list, ref_index2 as int, k2, k);
                        assert(elem_valid_k(list, index as int, k + 1));
                    }
                    Ok(())
                },
                Err(e) => Err(e),
            }
        },
    };
    if result.is_ok() {
        statuses[index] = Status::Done;
    }
    result
}

} // verus!

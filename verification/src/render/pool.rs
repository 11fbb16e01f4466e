//! Sizing descriptor pools from the descriptor types in use.

use crate::render::descriptor::DescriptorType;
use crate::render::shaders::BindingTypes;
use vstd::prelude::*;

verus! {

/// One entry of a descriptor pool's size request.
#[derive(Clone, Copy, Debug, PartialEq, Eq, Structural)]
pub struct DescriptorPoolSize {
    pub ty: DescriptorType,
    pub descriptor_count: u32,
}

/// The pool to create and the number of sets to allocate from it.
pub struct DescriptorSetRequest {
    /// One entry per descriptor type in use, with the number of its bindings.
    pub pool_sizes: Vec<DescriptorPoolSize>,
    /// How many set allocations the pool allows; always one.
    pub max_sets: u32,
    /// How many sets to allocate: one per layout.
    pub set_count: usize,
}

/// How often descriptor type `ty` occurs in one set's entries.
pub open spec fn spec_count_in_set(entries: Seq<(u32, DescriptorType)>, ty: DescriptorType) -> nat
    decreases entries.len(),
{
    if entries.len() == 0 {
        0
    } else {
        spec_count_in_set(entries.drop_last(), ty) + if entries.last().1 == ty {
            1nat
        } else {
            0nat
        }
    }
}

/// How often descriptor type `ty` occurs in the entries of all sets.
pub open spec fn spec_count(sets: Seq<BindingTypes>, ty: DescriptorType) -> nat
    decreases sets.len(),
{
    if sets.len() == 0 {
        0
    } else {
        spec_count(sets.drop_last(), ty) + spec_count_in_set(sets.last()@, ty)
    }
}

/// How often `ty` occurs in the sets before `set` and in the first `entry`
/// entries of set `set`.
pub open spec fn spec_count_before(
    sets: Seq<BindingTypes>,
    set: int,
    entry: int,
    ty: DescriptorType,
) -> nat {
    spec_count(sets.take(set), ty) + spec_count_in_set(sets[set]@.take(entry), ty)
}

/// Whether `sizes` holds exactly what `counted` says of each type: an entry
/// with the count for each type counted at least once, and no other entry.
pub open spec fn tallies(
    sizes: Seq<DescriptorPoolSize>,
    counted: spec_fn(DescriptorType) -> nat,
) -> bool {
    &&& forall|i: int|
        0 <= i < sizes.len() ==> (#[trigger] sizes[i]).descriptor_count >= 1
            && sizes[i].descriptor_count == counted(sizes[i].ty)
    &&& forall|i: int, j: int|
        0 <= i < j < sizes.len() ==> (#[trigger] sizes[i]).ty != (#[trigger] sizes[j]).ty
    &&& forall|ty: DescriptorType| #[trigger]
        counted(ty) > 0 ==> exists|i: int| 0 <= i < sizes.len() && (#[trigger] sizes[i]).ty == ty
}

/// Whether `sizes` is the pool request for `sets`: one entry for each
/// descriptor type that occurs, none for any other, and each entry's count the
/// number of that type's occurrences.
pub open spec fn is_pool_request(sizes: Seq<DescriptorPoolSize>, sets: Seq<BindingTypes>) -> bool {
    tallies(sizes, |ty: DescriptorType| spec_count(sets, ty))
}

/// Counts the bindings of each descriptor type over all sets.
pub fn pool_sizes(set_layout_info: &Vec<BindingTypes>) -> (sizes: Vec<DescriptorPoolSize>)
    requires
        forall|ty: DescriptorType| #[trigger] spec_count(set_layout_info@, ty) <= u32::MAX,
    ensures
        is_pool_request(sizes@, set_layout_info@),
{
    let ghost sets = set_layout_info@;
    let mut sizes: Vec<DescriptorPoolSize> = Vec::new();
    let mut s: usize = 0;
    while s < set_layout_info.len()
        invariant
            sets == set_layout_info@,
            s <= sets.len(),
            forall|ty: DescriptorType| #[trigger] spec_count(sets, ty) <= u32::MAX,
            tallies(sizes@, |ty: DescriptorType| spec_count(sets.take(s as int), ty)),
        decreases sets.len() - s,
    {
        let entries = &set_layout_info[s];
        let mut b: usize = 0;
        proof {
            assert(sets[s as int]@.take(0) =~= Seq::<(u32, DescriptorType)>::empty());
            lemma_tallies_agree(
                sizes@,
                |ty: DescriptorType| spec_count(sets.take(s as int), ty),
                |ty: DescriptorType| spec_count_before(sets, s as int, 0, ty),
            );
        }
        while b < entries.len()
            invariant
                sets == set_layout_info@,
                s < sets.len(),
                entries@ == sets[s as int]@,
                b <= entries@.len(),
                forall|ty: DescriptorType| #[trigger] spec_count(sets, ty) <= u32::MAX,
                tallies(
                    sizes@,
                    |ty: DescriptorType| spec_count_before(sets, s as int, b as int, ty),
                ),
            decreases entries@.len() - b,
        {
            let ty = entries[b].1;
            let ghost before = sizes@;
            proof {
                lemma_count_before_bounded(sets, s as int, b + 1, ty);
                assert(entries@.take(b + 1).drop_last() =~= entries@.take(b as int));
                assert forall|t: DescriptorType|
                    spec_count_before(sets, s as int, b + 1, t) == spec_count_before(
                        sets,
                        s as int,
                        b as int,
                        t,
                    ) + if t == ty {
                        1nat
                    } else {
                        0nat
                    } by {}
            }
            count_binding(&mut sizes, ty);
            proof {
                lemma_tally_step(
                    before,
                    sizes@,
                    ty,
                    |t: DescriptorType| spec_count_before(sets, s as int, b as int, t),
                    |t: DescriptorType| spec_count_before(sets, s as int, b + 1, t),
                );
            }
            b += 1;
        }
        proof {
            assert(sets.take(s + 1).drop_last() =~= sets.take(s as int));
            assert(entries@.take(b as int) =~= entries@);
            lemma_tallies_agree(
                sizes@,
                |ty: DescriptorType| spec_count_before(sets, s as int, b as int, ty),
                |ty: DescriptorType| spec_count(sets.take(s + 1), ty),
            );
        }
        s += 1;
    }
    proof {
        assert(sets.take(s as int) =~= sets);
    }
    sizes
}

/// Where `ty` stands in `sizes`, if it has an entry.
fn find_type(sizes: &Vec<DescriptorPoolSize>, ty: DescriptorType) -> (r: Option<usize>)
    ensures
        match r {
            Some(j) => j < sizes@.len() && sizes@[j as int].ty == ty,
            None => forall|i: int| 0 <= i < sizes@.len() ==> (#[trigger] sizes@[i]).ty != ty,
        },
{
    let mut i: usize = 0;
    while i < sizes.len()
        invariant
            i <= sizes@.len(),
            forall|k: int| 0 <= k < i ==> (#[trigger] sizes@[k]).ty != ty,
        decreases sizes@.len() - i,
    {
        if sizes[i].ty == ty {
            return Some(i);
        }
        i += 1;
    }
    None
}

/// Counts one more binding of type `ty`: raises its entry, or appends one.
fn count_binding(sizes: &mut Vec<DescriptorPoolSize>, ty: DescriptorType)
    requires
        forall|i: int|
            0 <= i < old(sizes)@.len() && (#[trigger] old(sizes)@[i]).ty == ty ==> old(
                sizes,
            )@[i].descriptor_count < u32::MAX,
    ensures
        (exists|j: int| 0 <= j < old(sizes)@.len() && (#[trigger] old(sizes)@[j]).ty == ty)
            ==> final(sizes)@.len() == old(sizes)@.len() && exists|j: int|
            0 <= j < old(sizes)@.len() && (#[trigger] old(sizes)@[j]).ty == ty && final(sizes)@
                == old(sizes)@.update(
                j,
                DescriptorPoolSize {
                    ty,
                    descriptor_count: (old(sizes)@[j].descriptor_count + 1) as u32,
                },
            ),
        (forall|j: int| 0 <= j < old(sizes)@.len() ==> (#[trigger] old(sizes)@[j]).ty != ty)
            ==> final(sizes)@ == old(sizes)@.push(DescriptorPoolSize { ty, descriptor_count: 1 }),
{
    match find_type(sizes, ty) {
        Some(j) => {
            let seen: u32 = sizes[j].descriptor_count;
            sizes.set(j, DescriptorPoolSize { ty, descriptor_count: seen + 1 });
        },
        None => {
            sizes.push(DescriptorPoolSize { ty, descriptor_count: 1 });
        },
    }
}

/// Number of entries in all sets together.
pub open spec fn spec_entry_count(sets: Seq<BindingTypes>) -> nat
    decreases sets.len(),
{
    if sets.len() == 0 {
        0
    } else {
        spec_entry_count(sets.drop_last()) + sets.last()@.len()
    }
}

/// A set holds a type no more often than it has entries.
pub proof fn lemma_count_in_set_bounded(entries: Seq<(u32, DescriptorType)>, ty: DescriptorType)
    ensures
        spec_count_in_set(entries, ty) <= entries.len(),
    decreases entries.len(),
{
    if entries.len() > 0 {
        lemma_count_in_set_bounded(entries.drop_last(), ty);
    }
}

/// No type occurs more often than there are entries: where the entries of
/// all sets together fit a pool size's count, so does every type's count.
pub proof fn lemma_count_bounded(sets: Seq<BindingTypes>, ty: DescriptorType)
    ensures
        spec_count(sets, ty) <= spec_entry_count(sets),
    decreases sets.len(),
{
    if sets.len() > 0 {
        lemma_count_bounded(sets.drop_last(), ty);
        lemma_count_in_set_bounded(sets.last()@, ty);
    }
}

/// A prefix of a set's entries holds a type no more often than the whole set.
pub proof fn lemma_count_in_set_prefix(
    entries: Seq<(u32, DescriptorType)>,
    k: int,
    ty: DescriptorType,
)
    requires
        0 <= k <= entries.len(),
    ensures
        spec_count_in_set(entries.take(k), ty) <= spec_count_in_set(entries, ty),
    decreases entries.len() - k,
{
    if k == entries.len() {
        assert(entries.take(k) =~= entries);
    } else {
        lemma_count_in_set_prefix(entries, k + 1, ty);
        assert(entries.take(k + 1).drop_last() =~= entries.take(k));
    }
}

/// A prefix of the sets holds a type no more often than all of them.
pub proof fn lemma_count_prefix(sets: Seq<BindingTypes>, k: int, ty: DescriptorType)
    requires
        0 <= k <= sets.len(),
    ensures
        spec_count(sets.take(k), ty) <= spec_count(sets, ty),
    decreases sets.len() - k,
{
    if k == sets.len() {
        assert(sets.take(k) =~= sets);
    } else {
        lemma_count_prefix(sets, k + 1, ty);
        assert(sets.take(k + 1).drop_last() =~= sets.take(k));
    }
}

/// What was counted part of the way through is no more than the full count.
pub proof fn lemma_count_before_bounded(
    sets: Seq<BindingTypes>,
    set: int,
    entry: int,
    ty: DescriptorType,
)
    requires
        0 <= set < sets.len(),
        0 <= entry <= sets[set]@.len(),
    ensures
        spec_count_before(sets, set, entry, ty) <= spec_count(sets, ty),
{
    lemma_count_in_set_prefix(sets[set]@, entry, ty);
    lemma_count_prefix(sets, set + 1, ty);
    assert(sets.take(set + 1).drop_last() =~= sets.take(set));
}

/// Entries that tally one count also tally any count that agrees with it on
/// every type.
proof fn lemma_tallies_agree(
    sizes: Seq<DescriptorPoolSize>,
    counted: spec_fn(DescriptorType) -> nat,
    same: spec_fn(DescriptorType) -> nat,
)
    requires
        tallies(sizes, counted),
        forall|t: DescriptorType| counted(t) == #[trigger] same(t),
    ensures
        tallies(sizes, same),
{
    assert forall|i: int| 0 <= i < sizes.len() implies (#[trigger] sizes[i]).descriptor_count >= 1
        && sizes[i].descriptor_count == same(sizes[i].ty) by {
        assert(sizes[i].descriptor_count == counted(sizes[i].ty));
    }
    assert forall|t: DescriptorType| #[trigger] same(t) > 0 implies exists|i: int|
        0 <= i < sizes.len() && (#[trigger] sizes[i]).ty == t by {
        assert(counted(t) > 0);
    }
}

/// Counting one more binding of type `ty` keeps the entries in step with the
/// counts.
proof fn lemma_tally_step(
    before: Seq<DescriptorPoolSize>,
    after: Seq<DescriptorPoolSize>,
    ty: DescriptorType,
    counted: spec_fn(DescriptorType) -> nat,
    next: spec_fn(DescriptorType) -> nat,
)
    requires
        tallies(before, counted),
        forall|t: DescriptorType|
            #[trigger] next(t) == counted(t) + if t == ty {
                1nat
            } else {
                0nat
            },
        next(ty) <= u32::MAX,
        (exists|j: int| 0 <= j < before.len() && (#[trigger] before[j]).ty == ty) ==> after.len()
            == before.len() && exists|j: int|
            0 <= j < before.len() && (#[trigger] before[j]).ty == ty && after == before.update(
                j,
                DescriptorPoolSize { ty, descriptor_count: (before[j].descriptor_count + 1) as u32 },
            ),
        (forall|j: int| 0 <= j < before.len() ==> (#[trigger] before[j]).ty != ty) ==> after
            == before.push(DescriptorPoolSize { ty, descriptor_count: 1 }),
    ensures
        tallies(after, next),
{
    if exists|j: int| 0 <= j < before.len() && (#[trigger] before[j]).ty == ty {
        let j = choose|j: int|
            0 <= j < before.len() && (#[trigger] before[j]).ty == ty && after == before.update(
                j,
                DescriptorPoolSize { ty, descriptor_count: (before[j].descriptor_count + 1) as u32 },
            );
        assert forall|i: int| 0 <= i < after.len() implies (#[trigger] after[i]).descriptor_count
            >= 1 && after[i].descriptor_count == next(after[i].ty) by {
            assert(before[i].descriptor_count == counted(before[i].ty));
            if i != j {
                assert(before[i].ty != before[j].ty);
            }
        }
        assert forall|i: int, k: int| 0 <= i < k < after.len() implies (#[trigger] after[i]).ty != (
        #[trigger] after[k]).ty by {
            assert(before[i].ty != before[k].ty);
        }
        assert forall|t: DescriptorType| #[trigger] next(t) > 0 implies exists|i: int|
            0 <= i < after.len() && (#[trigger] after[i]).ty == t by {
            if t == ty {
                assert(after[j].ty == t);
            } else {
                assert(counted(t) > 0);
                let i = choose|i: int| 0 <= i < before.len() && (#[trigger] before[i]).ty == t;
                assert(after[i].ty == t);
            }
        }
    } else {
        assert(counted(ty) == 0) by {
            if counted(ty) > 0 {
                let i = choose|i: int| 0 <= i < before.len() && (#[trigger] before[i]).ty == ty;
                assert(before[i].ty != ty);
            }
        }
        let last = before.len() as int;
        assert forall|i: int| 0 <= i < after.len() implies (#[trigger] after[i]).descriptor_count
            >= 1 && after[i].descriptor_count == next(after[i].ty) by {
            if i < last {
                assert(before[i].descriptor_count == counted(before[i].ty));
                assert(before[i].ty != ty);
            }
        }
        assert forall|i: int, k: int| 0 <= i < k < after.len() implies (#[trigger] after[i]).ty != (
        #[trigger] after[k]).ty by {
            if k < last {
                assert(before[i].ty != before[k].ty);
            } else {
                assert(before[i].ty != ty);
            }
        }
        assert forall|t: DescriptorType| #[trigger] next(t) > 0 implies exists|i: int|
            0 <= i < after.len() && (#[trigger] after[i]).ty == t by {
            if t == ty {
                assert(after[last].ty == t);
            } else {
                assert(counted(t) > 0);
                let i = choose|i: int| 0 <= i < before.len() && (#[trigger] before[i]).ty == t;
                assert(after[i].ty == t);
            }
        }
    }
}

} // verus!

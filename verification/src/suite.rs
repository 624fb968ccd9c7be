//! The suite tree and its depth-first flattening.

use vstd::prelude::*;

verus! {

/// A leaf of the suite: a named test with the condition under which it runs.
#[derive(Debug)]
pub struct TestCase {
    /// Identifier of the test case; the key under which it is reported.
    pub name: String,
    /// Boolean expression over configuration flags. Empty when the source
    /// document gave none.
    pub mapping: String,
    /// Free text, not used by evaluation.
    pub description: String,
}

/// A named node of the suite: test cases of its own and nested groups.
#[derive(Debug)]
pub struct Group {
    /// Name of the group, informational.
    pub name: String,
    /// Nested groups, in document order.
    pub groups: Vec<Group>,
    /// Test cases owned directly by this group, in document order.
    pub testcases: Vec<TestCase>,
}

/// The top-level groups of a suite.
#[derive(Debug)]
pub struct Profile {
    /// Name of the profile, informational.
    pub name: String,
    /// Top-level groups, in document order.
    pub groups: Vec<Group>,
}

/// Root of a suite.
#[derive(Debug)]
pub struct Ets {
    /// Version tag of the suite, informational.
    pub version: Option<String>,
    /// The one profile of the suite.
    pub profile: Profile,
}

/// The test cases below a sequence of groups: the flattening of the first
/// group, then of the second, and so on.
pub open spec fn flatten_groups(groups: Seq<Group>) -> Seq<TestCase>
    decreases groups, 0nat,
{
    if groups.len() == 0 {
        Seq::empty()
    } else {
        flatten_groups(groups.drop_last()) + groups.last().flattened()
    }
}

impl Group {
    /// The test cases below this group in depth-first order: its own test
    /// cases first, then those of each nested group in turn.
    pub open spec fn flattened(&self) -> Seq<TestCase>
        decreases self, 1nat,
    {
        self.testcases@ + flatten_groups(self.groups@)
    }
}

/// The test cases that a sequence of references points at.
pub open spec fn targets(refs: Seq<&TestCase>) -> Seq<TestCase> {
    refs.map_values(|t: &TestCase| *t)
}

impl Group {
    /// Appends the test cases below this group to `out`, in depth-first order.
    fn collect_into<'a>(&'a self, out: &mut Vec<&'a TestCase>)
        ensures
            targets(final(out)@) == targets(old(out)@) + self.flattened(),
        decreases self,
    {
        let mut i: usize = 0;
        while i < self.testcases.len()
            invariant
                i <= self.testcases.len(),
                targets(out@) == targets(old(out)@) + self.testcases@.take(i as int),
            decreases self.testcases.len() - i,
        {
            let ghost before = out@;
            out.push(&self.testcases[i]);
            proof {
                assert(targets(out@) =~= targets(before).push(self.testcases@[i as int]));
                assert(self.testcases@.take(i + 1) =~= self.testcases@.take(i as int).push(
                    self.testcases@[i as int],
                ));
            }
            i += 1;
        }
        proof {
            assert(self.testcases@.take(i as int) =~= self.testcases@);
            assert(self.groups@.take(0) =~= Seq::<Group>::empty());
        }
        let mut j: usize = 0;
        while j < self.groups.len()
            invariant
                j <= self.groups.len(),
                targets(out@) == targets(old(out)@) + self.testcases@ + flatten_groups(
                    self.groups@.take(j as int),
                ),
            decreases self.groups.len() - j,
        {
            self.groups[j].collect_into(out);
            proof {
                let next = self.groups@.take(j + 1);
                assert(next.drop_last() =~= self.groups@.take(j as int));
                assert(next.last() == self.groups@[j as int]);
            }
            j += 1;
        }
        proof {
            assert(self.groups@.take(j as int) =~= self.groups@);
        }
    }

    /// The test cases below this group, flattened depth-first: the group's
    /// own test cases in document order, then the test cases of each nested
    /// group in document order.
    pub fn testcases(&self) -> (out: Vec<&TestCase>)
        ensures
            targets(out@) == self.flattened(),
    {
        let mut out: Vec<&TestCase> = Vec::new();
        self.collect_into(&mut out);
        out
    }
}

impl Ets {
    /// The test cases of the suite in depth-first order: those below the
    /// first top-level group, then those below the second, and so on.
    pub open spec fn flattened(&self) -> Seq<TestCase> {
        flatten_groups(self.profile.groups@)
    }

    /// The test cases of the suite, flattened depth-first over the
    /// profile's top-level groups in document order.
    pub fn testcases(&self) -> (out: Vec<&TestCase>)
        ensures
            targets(out@) == self.flattened(),
    {
        let mut out: Vec<&TestCase> = Vec::new();
        let mut j: usize = 0;
        proof {
            assert(self.profile.groups@.take(0) =~= Seq::<Group>::empty());
            assert(targets(out@) =~= Seq::<TestCase>::empty());
        }
        while j < self.profile.groups.len()
            invariant
                j <= self.profile.groups.len(),
                targets(out@) == flatten_groups(self.profile.groups@.take(j as int)),
            decreases self.profile.groups.len() - j,
        {
            self.profile.groups[j].collect_into(&mut out);
            proof {
                let next = self.profile.groups@.take(j + 1);
                assert(next.drop_last() =~= self.profile.groups@.take(j as int));
                assert(next.last() == self.profile.groups@[j as int]);
            }
            j += 1;
        }
        proof {
            assert(self.profile.groups@.take(j as int) =~= self.profile.groups@);
        }
        out
    }
}

/// Flattening goes group by group: the test cases below two runs of groups,
/// one after the other, are those below the first run followed by those
/// below the second.
pub proof fn lemma_flatten_groups_concat(front: Seq<Group>, back: Seq<Group>)
    ensures
        flatten_groups(front + back) == flatten_groups(front) + flatten_groups(back),
    decreases back.len(),
{
    if back.len() == 0 {
        assert(front + back =~= front);
        assert(flatten_groups(front) + flatten_groups(back) =~= flatten_groups(front));
    } else {
        lemma_flatten_groups_concat(front, back.drop_last());
        assert((front + back).drop_last() =~= front + back.drop_last());
        assert((front + back).last() == back.last());
        assert(flatten_groups(front) + (flatten_groups(back.drop_last())
            + back.last().flattened()) =~= (flatten_groups(front) + flatten_groups(
            back.drop_last(),
        )) + back.last().flattened());
    }
}

/// In the flattening of a group, the group's own test cases come first and
/// in their own order; every test case of a nested group comes after all of
/// them.
pub proof fn lemma_own_testcases_come_first(group: Group)
    ensures
        group.flattened().len() == group.testcases@.len() + flatten_groups(group.groups@).len(),
        forall|i: int|
            0 <= i < group.testcases@.len() ==> group.flattened()[i] == group.testcases@[i],
        forall|i: int|
            0 <= i < flatten_groups(group.groups@).len() ==> group.flattened()[group.testcases@.len()
                + i] == flatten_groups(group.groups@)[i],
{
}

/// Two sequences of references that point at the same test cases, one by
/// one, have the same length and the same test case at every place.
proof fn lemma_same_targets(first: Seq<&TestCase>, second: Seq<&TestCase>)
    requires
        targets(first) == targets(second),
    ensures
        first.len() == second.len(),
        forall|i: int| 0 <= i < first.len() ==> *first[i] == *second[i],
{
    assert(targets(first).len() == first.len());
    assert(targets(second).len() == second.len());
    assert forall|i: int| 0 <= i < first.len() implies *first[i] == *second[i] by {
        assert(targets(first)[i] == *first[i]);
        assert(targets(second)[i] == *second[i]);
    }
}

/// Traversal depends on the tree alone: two traversals of one group visit
/// the same test cases in the same order.
pub proof fn lemma_group_traversal_is_deterministic(
    group: Group,
    first: Seq<&TestCase>,
    second: Seq<&TestCase>,
)
    requires
        targets(first) == group.flattened(),
        targets(second) == group.flattened(),
    ensures
        first.len() == second.len(),
        forall|i: int| 0 <= i < first.len() ==> *first[i] == *second[i],
{
    lemma_same_targets(first, second);
}

/// Two traversals of one suite visit the same test cases in the same order.
pub proof fn lemma_suite_traversal_is_deterministic(
    suite: Ets,
    first: Seq<&TestCase>,
    second: Seq<&TestCase>,
)
    requires
        targets(first) == suite.flattened(),
        targets(second) == suite.flattened(),
    ensures
        first.len() == second.len(),
        forall|i: int| 0 <= i < first.len() ==> *first[i] == *second[i],
{
    lemma_same_targets(first, second);
}

} // verus!

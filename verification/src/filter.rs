//! The enablement filter: which test cases of a suite run.
//!
//! Every test case of the suite is evaluated, in traversal order. A test
//! case runs only where its mapping evaluates to `true`. A mapping that is
//! `false` and a mapping that fails, for whatever reason, both leave the
//! test case out: a condition that cannot be decided never lets a test run,
//! and never stops the filter from going on with the rest.

use crate::evaluate::lemma_empty_mapping_is_syntax_error;
use crate::evaluate::lemma_evaluation_is_deterministic;
use crate::evaluate::may_evaluate_to;
use crate::evaluate::outcome;
use crate::evaluate::stateless;
use crate::evaluate::EvalError;
use crate::suite::targets;
use crate::suite::Ets;
use crate::suite::TestCase;
use vstd::prelude::*;

verus! {

/// Whether the result of an evaluation lets the test case run: only a
/// mapping that evaluates, and to `true`, does.
pub open spec fn includes(result: Result<bool, EvalError>) -> bool {
    result matches Ok(value) && value
}

/// The names of the test cases whose result lets them run, in the order of
/// the test cases. A name is listed once for each such test case.
pub open spec fn enabled_names(testcases: Seq<TestCase>, results: Seq<Result<bool, EvalError>>) -> Seq<
    Seq<char>,
>
    decreases testcases.len(),
{
    if testcases.len() == 0 || results.len() != testcases.len() {
        Seq::empty()
    } else {
        let earlier = enabled_names(testcases.drop_last(), results.drop_last());
        if includes(results.last()) {
            earlier.push(testcases.last().name@)
        } else {
            earlier
        }
    }
}

/// Whether `results` may be what evaluating each of the test cases against
/// the resolver returns.
pub open spec fn evaluated<F: Fn(&str) -> Option<bool>>(
    get_value: &F,
    testcases: Seq<TestCase>,
    results: Seq<Result<bool, EvalError>>,
) -> bool {
    &&& results.len() == testcases.len()
    &&& forall|i: int|
        0 <= i < testcases.len() ==> may_evaluate_to(
            get_value,
            testcases[i].mapping@,
            #[trigger] results[i],
        )
}

/// Whether `names` may be what the filter returns for the test cases
/// against the resolver: the enabled names under some results that the
/// evaluations may give.
pub open spec fn may_enable<F: Fn(&str) -> Option<bool>>(
    get_value: &F,
    testcases: Seq<TestCase>,
    names: Seq<Seq<char>>,
) -> bool {
    exists|results: Seq<Result<bool, EvalError>>|
        #[trigger] evaluated(get_value, testcases, results) && names == enabled_names(
            testcases,
            results,
        )
}

/// Whether `name` is the name of one of the test cases.
pub open spec fn names_testcase(testcases: Seq<TestCase>, name: Seq<char>) -> bool {
    exists|j: int| 0 <= j < testcases.len() && (#[trigger] testcases[j]).name@ == name
}

/// The fail-safe decision on one test case: it runs where its evaluation
/// succeeded with `true`, and nowhere else.
pub fn is_included(result: &Result<bool, EvalError>) -> (included: bool)
    ensures
        included == includes(*result),
{
    match result {
        Ok(value) => *value,
        Err(_) => false,
    }
}

/// The names of the test cases that run, given the result of each one's
/// evaluation: in the order of the test cases, without removing duplicates.
pub fn select_enabled(testcases: &Vec<&TestCase>, results: &Vec<Result<bool, EvalError>>) -> (names:
    Vec<String>)
    requires
        results.len() == testcases.len(),
    ensures
        names.deep_view() == enabled_names(targets(testcases@), results@),
{
    let mut names: Vec<String> = Vec::new();
    let mut i: usize = 0;
    proof {
        assert(names.deep_view() =~= Seq::<Seq<char>>::empty());
    }
    while i < testcases.len()
        invariant
            i <= testcases.len(),
            results.len() == testcases.len(),
            names.deep_view() == enabled_names(
                targets(testcases@).take(i as int),
                results@.take(i as int),
            ),
        decreases testcases.len() - i,
    {
        proof {
            let upto = targets(testcases@).take(i + 1);
            assert(upto.drop_last() =~= targets(testcases@).take(i as int));
            assert(results@.take(i + 1).drop_last() =~= results@.take(i as int));
            assert(upto.last() == *testcases@[i as int]);
        }
        if is_included(&results[i]) {
            let ghost before = names.deep_view();
            let name = testcases[i].name.clone();
            names.push(name);
            proof {
                assert(names.deep_view() =~= before.push(testcases@[i as int].name@));
            }
        }
        i += 1;
    }
    proof {
        assert(targets(testcases@).take(i as int) =~= targets(testcases@));
        assert(results@.take(i as int) =~= results@);
    }
    names
}

/// Evaluates each test case against the resolver, in order.
fn evaluate_each<F: Fn(&str) -> Option<bool>>(testcases: &Vec<&TestCase>, get_value: &F) -> (results:
    Vec<Result<bool, EvalError>>)
    requires
        forall|name: &str| call_requires(get_value, (name,)),
    ensures
        evaluated(get_value, targets(testcases@), results@),
{
    let mut results: Vec<Result<bool, EvalError>> = Vec::new();
    let mut i: usize = 0;
    while i < testcases.len()
        invariant
            i <= testcases.len(),
            forall|name: &str| call_requires(get_value, (name,)),
            results.len() == i,
            forall|j: int|
                0 <= j < i ==> may_evaluate_to(
                    get_value,
                    testcases@[j].mapping@,
                    #[trigger] results@[j],
                ),
        decreases testcases.len() - i,
    {
        let result = testcases[i].is_enabled(get_value);
        results.push(result);
        i += 1;
    }
    proof {
        assert forall|j: int| 0 <= j < testcases.len() implies may_evaluate_to(
            get_value,
            targets(testcases@)[j].mapping@,
            #[trigger] results@[j],
        ) by {
            assert(targets(testcases@)[j] == *testcases@[j]);
        }
    }
    results
}

/// A test case with an empty mapping never runs: whatever the resolver,
/// every result that its evaluation may give leaves it out.
pub proof fn lemma_empty_mapping_is_disabled<F: Fn(&str) -> Option<bool>>(
    get_value: &F,
    result: Result<bool, EvalError>,
)
    requires
        may_evaluate_to(get_value, Seq::empty(), result),
    ensures
        !includes(result),
{
    assert forall|answers: Seq<Option<bool>>| !includes(#[trigger] outcome(Seq::empty(), answers)) by {
        lemma_empty_mapping_is_syntax_error(answers);
    }
}

/// Every enabled name is the name of one of the test cases.
pub proof fn lemma_enabled_names_are_testcase_names(
    testcases: Seq<TestCase>,
    results: Seq<Result<bool, EvalError>>,
)
    ensures
        forall|i: int|
            0 <= i < enabled_names(testcases, results).len() ==> names_testcase(
                testcases,
                #[trigger] enabled_names(testcases, results)[i],
            ),
        enabled_names(testcases, results).len() <= testcases.len(),
    decreases testcases.len(),
{
    if testcases.len() == 0 || results.len() != testcases.len() {
    } else {
        let shorter = testcases.drop_last();
        let earlier = enabled_names(shorter, results.drop_last());
        lemma_enabled_names_are_testcase_names(shorter, results.drop_last());
        let names = enabled_names(testcases, results);
        assert forall|i: int| 0 <= i < names.len() implies names_testcase(
            testcases,
            #[trigger] names[i],
        ) by {
            if i < earlier.len() {
                assert(names[i] == earlier[i]);
                assert(names_testcase(shorter, earlier[i]));
                let j = choose|j: int|
                    0 <= j < shorter.len() && (#[trigger] shorter[j]).name@ == earlier[i];
                assert(testcases[j] == shorter[j]);
            } else {
                assert(names[i] == testcases[testcases.len() - 1].name@);
            }
        }
    }
}

/// Against a stateless resolver the filter has one result: run twice on one
/// suite, it returns the same names in the same order.
pub proof fn lemma_filter_is_idempotent<F: Fn(&str) -> Option<bool>>(
    get_value: &F,
    testcases: Seq<TestCase>,
    first: Seq<Seq<char>>,
    second: Seq<Seq<char>>,
)
    requires
        stateless(get_value),
        may_enable(get_value, testcases, first),
        may_enable(get_value, testcases, second),
    ensures
        first == second,
{
    let a = choose|results: Seq<Result<bool, EvalError>>|
        #[trigger] evaluated(get_value, testcases, results) && first == enabled_names(
            testcases,
            results,
        );
    let b = choose|results: Seq<Result<bool, EvalError>>|
        #[trigger] evaluated(get_value, testcases, results) && second == enabled_names(
            testcases,
            results,
        );
    assert forall|i: int| 0 <= i < testcases.len() implies a[i] == b[i] by {
        lemma_evaluation_is_deterministic(get_value, testcases[i].mapping@, a[i], b[i]);
    }
    assert(a =~= b);
}

impl Ets {
    /// The names of the test cases of the suite that run under the
    /// resolver: every test case is evaluated, in traversal order, and the
    /// names of those whose mapping evaluates to `true` are returned in that
    /// order. A test case whose mapping fails is left out, and the filter
    /// goes on; the filter itself does not fail.
    pub fn enabled_testcases<F: Fn(&str) -> Option<bool>>(&self, get_value: F) -> (names: Vec<
        String,
    >)
        requires
            forall|name: &str| call_requires(get_value, (name,)),
        ensures
            may_enable(&get_value, self.flattened(), names.deep_view()),
            names.len() <= self.flattened().len(),
            forall|i: int|
                0 <= i < names.len() ==> names_testcase(
                    self.flattened(),
                    #[trigger] names.deep_view()[i],
                ),
    {
        let testcases = self.testcases();
        let results = evaluate_each(&testcases, &get_value);
        let names = select_enabled(&testcases, &results);
        proof {
            lemma_enabled_names_are_testcase_names(self.flattened(), results@);
            assert(names.deep_view().len() == names.len());
        }
        names
    }
}

} // verus!

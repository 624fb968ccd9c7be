//! Evaluation of a mapping against a resolver.
//!
//! A resolver answers, for the name of a flag, `Some(true)`, `Some(false)` or
//! `None` when it does not know the flag. To evaluate a mapping, the mapping
//! is rewritten into the engine's syntax, the engine says which variables the
//! expression reads, the resolver is asked for each of them, and the engine
//! evaluates the expression under the answers.
//!
//! The engine's power operator `^` is computed in floating point with a
//! result that may differ from run to run. A mapping that holds `^` is not
//! handed to the engine: it has no boolean value.
//!
//! The resolver is a function object and may answer as it likes. The
//! contracts therefore speak of the answers that it gave: a result is stated
//! as a function of the mapping and of the sequence of answers, one for each
//! variable read.

use crate::engine::boolean_value;
use crate::engine::builtin_functions_disabled;
use crate::engine::context_flags;
use crate::engine::context_is_plain;
use crate::engine::eval_boolean;
use crate::engine::holds_power;
use crate::engine::no_flags;
use crate::engine::parse_read_variables;
use crate::engine::read_variables;
use crate::engine::set_builtin_functions_disabled;
use crate::engine::set_flag;
use crate::normalize::normalize;
use crate::normalize::normalized;
use crate::suite::TestCase;
use evalexpr::HashMapContext;
use vstd::prelude::*;

verus! {

/// Why a mapping has no boolean value.
#[derive(Debug, Clone, Copy, PartialEq, Eq, Structural)]
pub enum EvalError {
    /// The mapping is empty, or the engine cannot parse it.
    Syntax,
    /// The resolver does not know a flag that the mapping reads.
    UnresolvedVariable,
    /// The mapping parses and its flags are known, yet it has no boolean
    /// value: an operator without its operand, an operand of the wrong type,
    /// a function call, an assignment, a value that is no boolean, or the
    /// character `^` anywhere in the mapping.
    Unsupported,
}

/// The failure of a mapping that is empty or does not parse.
pub open spec fn syntax_error() -> Result<bool, EvalError> {
    Err(EvalError::Syntax)
}

/// Whether one of the answers is "unknown".
pub open spec fn unresolved(answers: Seq<Option<bool>>) -> bool {
    exists|i: int| 0 <= i < answers.len() && (#[trigger] answers[i]) is None
}

/// The flags that the answers give to the names: each name with a known
/// answer holds that answer; where a name occurs again, the later answer
/// stands.
pub open spec fn bindings(names: Seq<Seq<char>>, answers: Seq<Option<bool>>) -> Map<
    Seq<char>,
    bool,
>
    decreases names.len(),
{
    if names.len() == 0 || answers.len() != names.len() {
        no_flags()
    } else {
        let earlier = bindings(names.drop_last(), answers.drop_last());
        match answers.last() {
            Some(value) => earlier.insert(names.last(), value),
            None => earlier,
        }
    }
}

/// The variables that an expression in the engine's syntax reads, as far as
/// this crate asks for them: none for the empty text and for a text that
/// does not parse.
pub open spec fn variables_read(text: Seq<char>) -> Seq<Seq<char>> {
    if text.len() == 0 {
        Seq::empty()
    } else {
        match read_variables(text) {
            Some(names) => names,
            None => Seq::empty(),
        }
    }
}

/// What the engine is taken to compute for `text` under `flags`: nothing
/// for a text that holds `^`, on which the engine is not called, and the
/// engine's boolean, if it has one, for any other text.
pub open spec fn engine_value(text: Seq<char>, flags: Map<Seq<char>, bool>) -> Option<bool> {
    if holds_power(text) {
        None
    } else {
        boolean_value(text, flags)
    }
}

/// The result of an evaluation, from the resolver's answers and from what
/// the engine computed: one unknown answer is an unresolved variable,
/// whatever the engine says; with all answers known the engine's boolean is
/// the result, and its having none is reported as unsupported.
pub open spec fn decision(answers: Seq<Option<bool>>, engine: Option<bool>) -> Result<
    bool,
    EvalError,
> {
    if unresolved(answers) {
        Err(EvalError::UnresolvedVariable)
    } else {
        match engine {
            Some(value) => Ok(value),
            None => Err(EvalError::Unsupported),
        }
    }
}

/// What the evaluation of an expression in the engine's syntax comes to,
/// when `answers` holds the resolver's answer for each variable read.
pub open spec fn text_outcome(text: Seq<char>, answers: Seq<Option<bool>>) -> Result<
    bool,
    EvalError,
> {
    if text.len() == 0 || read_variables(text) is None {
        syntax_error()
    } else {
        decision(answers, engine_value(text, bindings(variables_read(text), answers)))
    }
}

/// What the evaluation of a mapping comes to, when `answers` holds the
/// resolver's answer for each variable that the rewritten mapping reads.
pub open spec fn outcome(mapping: Seq<char>, answers: Seq<Option<bool>>) -> Result<
    bool,
    EvalError,
> {
    text_outcome(normalized(mapping), answers)
}

/// Whether the resolver, asked for `name`, may give `answer`.
pub open spec fn may_answer<F: Fn(&str) -> Option<bool>>(
    get_value: &F,
    name: Seq<char>,
    answer: Option<bool>,
) -> bool {
    exists|asked: &str| asked@ == name && #[trigger] call_ensures(get_value, (asked,), answer)
}

/// Whether `answers` may be what the resolver gives when it is asked for
/// each of `names` in turn.
pub open spec fn answered<F: Fn(&str) -> Option<bool>>(
    get_value: &F,
    names: Seq<Seq<char>>,
    answers: Seq<Option<bool>>,
) -> bool {
    &&& answers.len() == names.len()
    &&& forall|i: int|
        0 <= i < names.len() ==> may_answer(get_value, names[i], #[trigger] answers[i])
}

/// Whether `result` is what evaluating `mapping` against the resolver may
/// return: the outcome under some answers that the resolver may give for the
/// variables read.
pub open spec fn may_evaluate_to<F: Fn(&str) -> Option<bool>>(
    get_value: &F,
    mapping: Seq<char>,
    result: Result<bool, EvalError>,
) -> bool {
    exists|answers: Seq<Option<bool>>|
        #[trigger] answered(get_value, variables_read(normalized(mapping)), answers) && result
            == outcome(mapping, answers)
}

/// The variables that an expression in the engine's syntax reads: the name of
/// each occurrence, from left to right. The empty text and a text that the
/// engine cannot parse are syntax errors.
pub fn variables(text: &str) -> (r: Result<Vec<String>, EvalError>)
    ensures
        r is Ok <==> text@.len() > 0 && read_variables(text@) is Some,
        r matches Ok(names) ==> names.deep_view() == variables_read(text@),
        r matches Err(error) ==> error == EvalError::Syntax,
{
    if text.is_empty() {
        return Err(EvalError::Syntax);
    }
    match parse_read_variables(text) {
        Ok(names) => Ok(names),
        Err(_) => Err(EvalError::Syntax),
    }
}

/// Asks the resolver for each name in turn.
fn resolve<F: Fn(&str) -> Option<bool>>(names: &Vec<String>, get_value: &F) -> (answers: Vec<
    Option<bool>,
>)
    requires
        forall|name: &str| call_requires(get_value, (name,)),
    ensures
        answered(get_value, names.deep_view(), answers@),
{
    let mut answers: Vec<Option<bool>> = Vec::new();
    let mut i: usize = 0;
    while i < names.len()
        invariant
            i <= names.len(),
            forall|name: &str| call_requires(get_value, (name,)),
            answers.len() == i,
            forall|j: int|
                0 <= j < i ==> may_answer(get_value, names.deep_view()[j], #[trigger] answers@[j]),
        decreases names.len() - i,
    {
        let asked = names[i].as_str();
        let answer = get_value(asked);
        proof {
            assert(asked@ == names.deep_view()[i as int]);
            assert(may_answer(get_value, names.deep_view()[i as int], answer));
        }
        answers.push(answer);
        i += 1;
    }
    answers
}

/// Whether every answer is known.
fn all_known(answers: &Vec<Option<bool>>) -> (known: bool)
    ensures
        known == !unresolved(answers@),
{
    let mut i: usize = 0;
    while i < answers.len()
        invariant
            i <= answers.len(),
            forall|j: int| 0 <= j < i ==> (#[trigger] answers@[j]) is Some,
        decreases answers.len() - i,
    {
        if answers[i].is_none() {
            return false;
        }
        i += 1;
    }
    true
}

/// A context without functions that holds the flags which the answers give
/// to the names.
fn bind(names: &Vec<String>, answers: &Vec<Option<bool>>) -> (context: HashMapContext)
    requires
        names.len() == answers.len(),
    ensures
        context_is_plain(context),
        builtin_functions_disabled(context),
        context_flags(context) == bindings(names.deep_view(), answers@),
{
    let mut context = HashMapContext::new();
    let _ = set_builtin_functions_disabled(&mut context, true);
    let mut i: usize = 0;
    while i < names.len()
        invariant
            i <= names.len(),
            names.len() == answers.len(),
            context_is_plain(context),
            builtin_functions_disabled(context),
            context_flags(context) == bindings(
                names.deep_view().take(i as int),
                answers@.take(i as int),
            ),
        decreases names.len() - i,
    {
        proof {
            let upto = names.deep_view().take(i + 1);
            assert(upto.drop_last() =~= names.deep_view().take(i as int));
            assert(answers@.take(i + 1).drop_last() =~= answers@.take(i as int));
            assert(upto.last() == names@[i as int]@);
        }
        match answers[i] {
            Some(value) => {
                let _ = set_flag(&mut context, names[i].clone(), value);
            },
            None => {},
        }
        i += 1;
    }
    proof {
        assert(names.deep_view().take(i as int) =~= names.deep_view());
        assert(answers@.take(i as int) =~= answers@);
    }
    context
}

/// Whether `text` holds the character `^`.
fn has_power(text: &str) -> (found: bool)
    ensures
        found == holds_power(text@),
{
    let mut found = false;
    for c in it: text.chars()
        invariant
            it.seq() == text@,
            found == exists|j: int| 0 <= j < it.index() && #[trigger] text@[j] == '^',
    {
        if c == '^' {
            found = true;
        }
    }
    found
}

/// Decides an evaluation from the resolver's answers and from what the
/// engine computed, `None` standing for "no boolean".
///
/// One unknown answer makes the evaluation fail as unresolved, wherever in
/// the expression the variable stands and whatever the engine computed.
/// With all answers known the engine's boolean is returned, and its having
/// none is reported as unsupported.
pub fn decide(answers: &Vec<Option<bool>>, engine: Option<bool>) -> (r: Result<bool, EvalError>)
    ensures
        r == decision(answers@, engine),
{
    if !all_known(answers) {
        return Err(EvalError::UnresolvedVariable);
    }
    match engine {
        Some(value) => Ok(value),
        None => Err(EvalError::Unsupported),
    }
}

/// Evaluates an expression in the engine's syntax under the answers that a
/// resolver gave: `names` are the variables that `text` reads, as
/// [`variables`] returns them, and `answers` holds the answer for each.
///
/// The engine is asked for the value of `text` under the flags that the
/// answers give, unless `text` holds `^`: the engine's power is not
/// reproducible, so such a text has no value here. [`decide`] then gives
/// the result.
pub fn evaluate_resolved(text: &str, names: &Vec<String>, answers: &Vec<Option<bool>>) -> (r:
    Result<bool, EvalError>)
    requires
        text@.len() > 0,
        read_variables(text@) == Some(names.deep_view()),
        answers.len() == names.len(),
    ensures
        r == text_outcome(text@, answers@),
{
    let engine = if has_power(text) {
        None
    } else {
        let context = bind(names, answers);
        match eval_boolean(text, &context) {
            Ok(value) => Some(value),
            Err(_) => None,
        }
    };
    decide(answers, engine)
}

/// Evaluates a mapping against a resolver.
///
/// The mapping is rewritten into the engine's syntax and parsed; an empty
/// mapping and one that does not parse are syntax errors, for which the
/// resolver is not asked. Otherwise the resolver is asked once for each
/// variable that the expression reads, from left to right, and the result is
/// the [`outcome`] of the mapping under its answers.
pub fn evaluate<F: Fn(&str) -> Option<bool>>(mapping: &str, get_value: &F) -> (r: Result<
    bool,
    EvalError,
>)
    requires
        forall|name: &str| call_requires(get_value, (name,)),
    ensures
        may_evaluate_to(get_value, mapping@, r),
        mapping@.len() == 0 ==> r == syntax_error(),
{
    let text = normalize(mapping);
    match variables(text.as_str()) {
        Err(error) => {
            proof {
                let none = Seq::<Option<bool>>::empty();
                assert(answered(get_value, variables_read(normalized(mapping@)), none));
            }
            Err(error)
        },
        Ok(names) => {
            let answers = resolve(&names, get_value);
            evaluate_resolved(text.as_str(), &names, &answers)
        },
    }
}

impl TestCase {
    /// Evaluates the mapping of this test case against a resolver: `Ok(true)`
    /// where the test case is to run, `Ok(false)` where it is not, and the
    /// reason where the mapping has no boolean value. See [`evaluate`].
    pub fn is_enabled<F: Fn(&str) -> Option<bool>>(&self, get_value: &F) -> (r: Result<
        bool,
        EvalError,
    >)
        requires
            forall|name: &str| call_requires(get_value, (name,)),
        ensures
            may_evaluate_to(get_value, self.mapping@, r),
            self.mapping@.len() == 0 ==> r == syntax_error(),
    {
        evaluate(self.mapping.as_str(), get_value)
    }
}

/// Whether the resolver's answer depends on the name alone: asked twice for
/// one name, it cannot give two answers.
pub open spec fn stateless<F: Fn(&str) -> Option<bool>>(get_value: &F) -> bool {
    forall|first: &str, second: &str, a: Option<bool>, b: Option<bool>|
        first@ == second@ && #[trigger] call_ensures(get_value, (first,), a)
            && #[trigger] call_ensures(get_value, (second,), b) ==> a == b
}

/// An empty mapping never evaluates: whatever the resolver answers, the
/// outcome is a syntax error.
pub proof fn lemma_empty_mapping_is_syntax_error(answers: Seq<Option<bool>>)
    ensures
        outcome(Seq::empty(), answers) == syntax_error(),
{
    assert(normalized(Seq::empty()).len() == 0);
}

/// Against a stateless resolver a mapping has one result: two evaluations
/// cannot differ.
pub proof fn lemma_evaluation_is_deterministic<F: Fn(&str) -> Option<bool>>(
    get_value: &F,
    mapping: Seq<char>,
    first: Result<bool, EvalError>,
    second: Result<bool, EvalError>,
)
    requires
        stateless(get_value),
        may_evaluate_to(get_value, mapping, first),
        may_evaluate_to(get_value, mapping, second),
    ensures
        first == second,
{
    let names = variables_read(normalized(mapping));
    let a = choose|answers: Seq<Option<bool>>|
        #[trigger] answered(get_value, names, answers) && first == outcome(mapping, answers);
    let b = choose|answers: Seq<Option<bool>>|
        #[trigger] answered(get_value, names, answers) && second == outcome(mapping, answers);
    assert forall|i: int| 0 <= i < names.len() implies a[i] == b[i] by {
        assert(may_answer(get_value, names[i], a[i]));
        assert(may_answer(get_value, names[i], b[i]));
    }
    assert(a =~= b);
}

} // verus!

//! The expression engine: what this crate takes on trust from `evalexpr`.
//!
//! Parsing and evaluating an expression is `evalexpr`'s work. Nothing here is
//! proved: each item states what the engine's source shows of one of its
//! functions, and the rest of the crate is verified against these statements.
//! What the engine computes is too long to write down, so its results carry
//! names: spec functions without a body, which stand for "what the engine
//! returns on these arguments".
//!
//! The engine is written not to panic, and says so in its documentation,
//! with one exception that its source shows: some of its built-in functions
//! can panic on their arguments. The contexts built here therefore keep the
//! built-in functions switched off, and an expression that calls a function
//! fails with the engine's error.

use evalexpr::Context;
use evalexpr::ContextWithMutableVariables;
use evalexpr::EvalexprError;
use evalexpr::HashMapContext;
use evalexpr::Value;
use vstd::prelude::*;

verus! {

/// `evalexpr::EvalexprError`, the engine's error. Nothing is read from it.
#[verifier::external_type_specification]
#[verifier::external_body]
pub struct ExEvalexprError(evalexpr::EvalexprError);

/// `evalexpr::HashMapContext`, the engine's table of variables and functions.
#[verifier::external_type_specification]
#[verifier::external_body]
pub struct ExHashMapContext(evalexpr::HashMapContext);

/// The variables that the engine finds read in `text`: the name of each
/// occurrence, from left to right. `None` where the engine cannot parse
/// `text`.
pub uninterp spec fn read_variables(text: Seq<char>) -> Option<Seq<Seq<char>>>;

/// The boolean that the engine computes for `text` when the variables hold
/// `flags` and no function is on offer. `None` where the engine reports an
/// error instead: `text` does not parse, reads a variable outside `flags`,
/// calls a function, applies an operator to the wrong type, or has a value
/// that is no boolean.
///
/// The name is applied only to a text without the character `^`: see
/// [`holds_power`].
pub uninterp spec fn boolean_value(text: Seq<char>, flags: Map<Seq<char>, bool>) -> Option<bool>;

/// Whether `text` holds the character `^`, the engine's power operator. The
/// engine computes a power with the floating-point `powf` of the standard
/// library, whose last digits are not fixed from one platform or run to the
/// next. What the engine returns for such a text is therefore no function
/// of the text and the flags, and the engine is not called on it.
pub open spec fn holds_power(text: Seq<char>) -> bool {
    text.contains('^')
}

/// The boolean variables that a context holds, by name.
pub uninterp spec fn context_flags(context: HashMapContext) -> Map<Seq<char>, bool>;

/// Whether a context holds nothing but boolean variables: no variable of
/// another type and no function set by a caller.
pub uninterp spec fn context_is_plain(context: HashMapContext) -> bool;

/// Whether a context keeps the engine's built-in functions switched off.
pub uninterp spec fn builtin_functions_disabled(context: HashMapContext) -> bool;

/// The table that holds no flag.
pub open spec fn no_flags() -> Map<Seq<char>, bool> {
    Map::empty()
}

/// `HashMapContext::new`: a context with no variable and no function, in
/// which the built-in functions are on offer.
pub assume_specification[ HashMapContext::new ]() -> (context: HashMapContext)
    ensures
        context_flags(context) == no_flags(),
        context_is_plain(context),
        !builtin_functions_disabled(context),
;

/// `Context::set_builtin_functions_disabled` on a `HashMapContext`: stores the
/// switch, touches nothing else and cannot fail.
#[verifier::external_body]
pub(crate) fn set_builtin_functions_disabled(context: &mut HashMapContext, disabled: bool) -> (r:
    Result<(), EvalexprError>)
    ensures
        r is Ok,
        builtin_functions_disabled(*final(context)) == disabled,
        context_flags(*final(context)) == context_flags(*old(context)),
        context_is_plain(*final(context)) == context_is_plain(*old(context)),
{
    context.set_builtin_functions_disabled(disabled)
}

/// `ContextWithMutableVariables::set_value` on a `HashMapContext`, with a
/// boolean value. The engine refuses to change the type of a variable; in a
/// plain context every variable is a boolean already, so the call succeeds:
/// it sets `name` to `value`, replacing an earlier value of `name`, and
/// leaves the other variables and the switch as they were.
#[verifier::external_body]
pub(crate) fn set_flag(context: &mut HashMapContext, name: String, value: bool) -> (r: Result<
    (),
    EvalexprError,
>)
    requires
        context_is_plain(*old(context)),
    ensures
        r is Ok,
        context_flags(*final(context)) == context_flags(*old(context)).insert(name@, value),
        context_is_plain(*final(context)),
        builtin_functions_disabled(*final(context)) == builtin_functions_disabled(*old(context)),
{
    context.set_value(name, Value::Boolean(value))
}

/// `build_operator_tree`, then `Node::iter_read_variable_identifiers` on the
/// tree: the variables read in `text`, each occurrence in the order in which
/// the iterator yields it, or the parser's error.
#[verifier::external_body]
pub(crate) fn parse_read_variables(text: &str) -> (r: Result<Vec<String>, EvalexprError>)
    ensures
        r is Ok <==> read_variables(text@) is Some,
        r matches Ok(names) ==> read_variables(text@) == Some(names.deep_view()),
{
    let tree = evalexpr::build_operator_tree(text)?;
    Ok(tree.iter_read_variable_identifiers().map(String::from).collect())
}

/// `eval_boolean_with_context`: parses `text` and evaluates it against the
/// context. With a plain context whose built-in functions are switched off,
/// and a text without `^`, the result depends on `text` and on the
/// context's boolean variables alone, and no function that could panic is
/// reached: what is left to the engine is exact arithmetic on integers,
/// the basic operations on floats, comparison, and the logical operators.
#[verifier::external_body]
pub(crate) fn eval_boolean(text: &str, context: &HashMapContext) -> (r: Result<bool, EvalexprError>)
    requires
        !holds_power(text@),
        context_is_plain(*context),
        builtin_functions_disabled(*context),
    ensures
        r is Ok <==> boolean_value(text@, context_flags(*context)) is Some,
        r matches Ok(value) ==> boolean_value(text@, context_flags(*context)) == Some(value),
{
    evalexpr::eval_boolean_with_context(text, context)
}

} // verus!

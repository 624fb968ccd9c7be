//! Rewriting of the suite's keywords into the evaluator's operators.
//!
//! Mappings spell conjunction and disjunction as `AND` and `OR`. Before a
//! mapping is parsed, every occurrence of `AND` becomes `&&` and then every
//! occurrence of `OR` becomes `||`. The substitution is textual: it does not
//! look at word boundaries, so a flag named `BRAND` is rewritten to `BR&&`.

use vstd::prelude::*;

verus! {

/// `String::push` of the standard library: appends one character to the end
/// of the string and changes nothing else.
pub assume_specification[ String::push ](text: &mut String, c: char)
    ensures
        final(text)@ == old(text)@.push(c),
;

/// `text` with the occurrences of `pattern` replaced by `with`. Occurrences
/// are found from left to right and do not overlap: after a match the search
/// goes on behind it. An empty pattern matches nowhere.
pub open spec fn replaced(text: Seq<char>, pattern: Seq<char>, with: Seq<char>) -> Seq<char>
    decreases text.len(),
{
    if text.len() == 0 {
        text
    } else if pattern.len() > 0 && pattern.is_prefix_of(text) {
        with + replaced(text.skip(pattern.len() as int), pattern, with)
    } else {
        seq![text[0]] + replaced(text.skip(1), pattern, with)
    }
}

/// The keyword for conjunction, `AND`.
pub open spec fn and_keyword() -> Seq<char> {
    seq!['A', 'N', 'D']
}

/// The operator for conjunction, `&&`.
pub open spec fn and_operator() -> Seq<char> {
    seq!['&', '&']
}

/// The keyword for disjunction, `OR`.
pub open spec fn or_keyword() -> Seq<char> {
    seq!['O', 'R']
}

/// The operator for disjunction, `||`.
pub open spec fn or_operator() -> Seq<char> {
    seq!['|', '|']
}

/// A mapping in the evaluator's syntax: `AND` replaced by `&&` throughout,
/// then `OR` replaced by `||` throughout.
pub open spec fn normalized(mapping: Seq<char>) -> Seq<char> {
    replaced(replaced(mapping, and_keyword(), and_operator()), or_keyword(), or_operator())
}

/// The characters of `text`.
fn chars_of(text: &str) -> (chars: Vec<char>)
    ensures
        chars@ == text@,
{
    let mut chars: Vec<char> = Vec::new();
    for c in it: text.chars()
        invariant
            it.seq() == text@,
            chars@ == it.seq().take(it.index() as int),
    {
        chars.push(c);
    }
    chars
}

/// The string made of `chars`.
fn string_of(chars: &Vec<char>) -> (text: String)
    ensures
        text@ == chars@,
{
    let mut text = String::new();
    let mut i: usize = 0;
    while i < chars.len()
        invariant
            i <= chars.len(),
            text@ == chars@.take(i as int),
        decreases chars.len() - i,
    {
        text.push(chars[i]);
        proof {
            assert(chars@.take(i + 1) =~= chars@.take(i as int).push(chars@[i as int]));
        }
        i += 1;
    }
    proof {
        assert(chars@.take(i as int) =~= chars@);
    }
    text
}

/// Whether `pattern` stands in `text` at position `at`.
fn occurs_at(text: &Vec<char>, at: usize, pattern: &Vec<char>) -> (found: bool)
    requires
        at <= text.len(),
    ensures
        found == pattern@.is_prefix_of(text@.skip(at as int)),
{
    if pattern.len() > text.len() - at {
        return false;
    }
    let mut k: usize = 0;
    while k < pattern.len()
        invariant
            k <= pattern.len(),
            at + pattern.len() <= text.len(),
            forall|j: int| 0 <= j < k ==> pattern@[j] == text@[at + j],
        decreases pattern.len() - k,
    {
        if pattern[k] != text[at + k] {
            proof {
                let window = text@.skip(at as int).subrange(0, pattern.len() as int);
                assert(window[k as int] == text@[at + k]);
            }
            return false;
        }
        k += 1;
    }
    proof {
        let window = text@.skip(at as int).subrange(0, pattern.len() as int);
        assert forall|j: int| 0 <= j < pattern.len() implies pattern@[j] == window[j] by {
            assert(window[j] == text@[at + j]);
        }
        assert(pattern@ =~= window);
    }
    true
}

/// Replaces the occurrences of `pattern` in `text` by `with`, scanning from
/// left to right.
fn replace(text: &Vec<char>, pattern: &Vec<char>, with: &Vec<char>) -> (out: Vec<char>)
    requires
        pattern.len() > 0,
    ensures
        out@ == replaced(text@, pattern@, with@),
{
    let mut out: Vec<char> = Vec::new();
    let mut i: usize = 0;
    proof {
        assert(text@.skip(0) =~= text@);
        assert(out@ + replaced(text@, pattern@, with@) =~= replaced(text@, pattern@, with@));
    }
    while i < text.len()
        invariant
            i <= text.len(),
            pattern.len() > 0,
            out@ + replaced(text@.skip(i as int), pattern@, with@) == replaced(
                text@,
                pattern@,
                with@,
            ),
        decreases text.len() - i,
    {
        let ghost rest = text@.skip(i as int);
        if occurs_at(text, i, pattern) {
            let ghost before = out@;
            let mut k: usize = 0;
            while k < with.len()
                invariant
                    k <= with.len(),
                    out@ == before + with@.take(k as int),
                decreases with.len() - k,
            {
                out.push(with[k]);
                proof {
                    assert(with@.take(k + 1) =~= with@.take(k as int).push(with@[k as int]));
                }
                k += 1;
            }
            proof {
                assert(with@.take(k as int) =~= with@);
                assert(rest.skip(pattern.len() as int) =~= text@.skip(i + pattern.len()));
                assert(out@ + replaced(text@.skip(i + pattern.len()), pattern@, with@) =~= before
                    + replaced(rest, pattern@, with@));
            }
            i += pattern.len();
        } else {
            let ghost before = out@;
            out.push(text[i]);
            proof {
                assert(rest.skip(1) =~= text@.skip(i + 1));
                assert(out@ + replaced(text@.skip(i + 1), pattern@, with@) =~= before + replaced(
                    rest,
                    pattern@,
                    with@,
                ));
            }
            i += 1;
        }
    }
    proof {
        assert(text@.skip(i as int).len() == 0);
        assert(out@ + Seq::<char>::empty() =~= out@);
    }
    out
}

/// Rewrites a mapping into the evaluator's syntax: every `AND` becomes `&&`,
/// then every `OR` becomes `||`. Nothing else changes, and the keywords are
/// recognised wherever they stand, inside longer words too.
pub fn normalize(mapping: &str) -> (text: String)
    ensures
        text@ == normalized(mapping@),
{
    let and_keyword: Vec<char> = vec!['A', 'N', 'D'];
    let and_operator: Vec<char> = vec!['&', '&'];
    let or_keyword: Vec<char> = vec!['O', 'R'];
    let or_operator: Vec<char> = vec!['|', '|'];
    proof {
        assert(and_keyword@ =~= self::and_keyword());
        assert(and_operator@ =~= self::and_operator());
        assert(or_keyword@ =~= self::or_keyword());
        assert(or_operator@ =~= self::or_operator());
    }
    let chars = chars_of(mapping);
    let conjoined = replace(&chars, &and_keyword, &and_operator);
    let rewritten = replace(&conjoined, &or_keyword, &or_operator);
    string_of(&rewritten)
}

} // verus!

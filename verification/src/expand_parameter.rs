//! Parameter expansion over a whole string: every `$NAME` and `${NAME}` gives
//! way to the value of the variable.

use vstd::prelude::*;
use crate::table::Table;
use crate::text::{
    append_chars,
    chars_of,
    index_of,
    is_name_char,
    lemma_index_of,
    lemma_index_of_is,
    lemma_name_prefix_len,
    lemma_name_prefix_len_is,
    name_char,
    name_prefix_len,
    string_of,
};

verus! {

/// The value of `name`, or the empty string where it has none.
pub open spec fn value_of(vars: Map<Seq<char>, Seq<char>>, name: Seq<char>) -> Seq<char> {
    if vars.contains_key(name) {
        vars[name]
    } else {
        Seq::empty()
    }
}

/// `text` with its parameters expanded, read from left to right.
///
/// A `$` followed by `{` and, somewhere behind it, a `}` stands for the value
/// of the name between the braces. A `$` followed by name characters stands
/// for the value of the longest name that they form. Any other `$`, and any
/// other character, stands for itself. A value is never read again: what it
/// holds is not expanded.
pub open spec fn expansion(text: Seq<char>, vars: Map<Seq<char>, Seq<char>>) -> Seq<char>
    decreases text.len(),
{
    if text.len() == 0 {
        text
    } else if text[0] != '$' {
        seq![text[0]] + expansion(text.skip(1), vars)
    } else if text.len() > 1 && text[1] == '{' {
        let close = 2 + index_of(text.skip(2), '}');
        if close < text.len() {
            proof {
                lemma_index_of(text.skip(2), '}');
            }
            value_of(vars, text.subrange(2, close)) + expansion(text.skip(close + 1), vars)
        } else {
            seq!['$'] + expansion(text.skip(1), vars)
        }
    } else {
        let end = 1 + name_prefix_len(text.skip(1));
        if end > 1 {
            proof {
                lemma_name_prefix_len(text.skip(1));
            }
            value_of(vars, text.subrange(1, end)) + expansion(text.skip(end), vars)
        } else {
            seq!['$'] + expansion(text.skip(1), vars)
        }
    }
}

/// Adds the value of `text[from..to]` to `out`.
fn push_value(out: &mut Vec<char>, text: &[char], from: usize, to: usize, vars: &Table)
    requires
        from <= to <= text.len(),
    ensures
        final(out)@ == old(out)@ + value_of(vars@, text@.subrange(from as int, to as int)),
{
    let name = vstd::slice::slice_subrange(text, from, to);
    match vars.lookup(name) {
        Some(value) => {
            append_chars(out, value.as_slice());
        },
        None => {
            assert(out@ + Seq::<char>::empty() == out@);
        },
    }
}

/// `text` with its parameters expanded.
pub fn expand_chars(text: &[char], vars: &Table) -> (expanded: Vec<char>)
    ensures
        expanded@ == expansion(text@, vars@),
{
    let mut out: Vec<char> = Vec::new();
    let mut i: usize = 0;
    let len = text.len();
    proof {
        assert(text@.skip(0) == text@);
        assert(out@ + expansion(text@, vars@) == expansion(text@, vars@));
    }
    while i < len
        invariant
            i <= len,
            len == text@.len(),
            out@ + expansion(text@.skip(i as int), vars@) == expansion(text@, vars@),
        decreases len - i,
    {
        let ghost rest = text@.skip(i as int);
        let ghost before = out@;
        proof {
            assert(rest[0] == text@[i as int]);
            assert(rest.skip(1) == text@.skip(i + 1));
        }
        if text[i] != '$' {
            out.push(text[i]);
            proof {
                assert(before.push(text@[i as int]) + expansion(rest.skip(1), vars@) == before + (
                    seq![rest[0]] + expansion(rest.skip(1), vars@)));
            }
            i += 1;
        } else if i + 1 < len && text[i + 1] == '{' {
            proof {
                assert(rest[1] == text@[i + 1]);
            }
            let mut close: usize = i + 2;
            while close < len && text[close] != '}'
                invariant
                    i + 2 <= close <= len,
                    len == text@.len(),
                    forall|j: int| i + 2 <= j < close ==> text@[j] != '}',
                decreases len - close,
            {
                close += 1;
            }
            proof {
                let tail = rest.skip(2);
                assert forall|j: int| 0 <= j < close - i - 2 implies tail[j] != '}' by {
                    assert(tail[j] == text@[i + 2 + j]);
                }
                if close < len {
                    assert(tail[close - i - 2] == text@[close as int]);
                }
                lemma_index_of_is(tail, '}', close - i - 2);
            }
            if close < len {
                push_value(&mut out, text, i + 2, close, vars);
                proof {
                    assert(rest.subrange(2, close - i) == text@.subrange(i + 2, close as int));
                    assert(rest.skip(close - i + 1) == text@.skip(close + 1));
                    let value = value_of(vars@, rest.subrange(2, close - i));
                    let later = expansion(text@.skip(close + 1), vars@);
                    assert((before + value) + later == before + (value + later));
                }
                i = close + 1;
            } else {
                out.push('$');
                proof {
                    assert(before.push('$') + expansion(rest.skip(1), vars@) == before + (
                        seq!['$'] + expansion(rest.skip(1), vars@)));
                }
                i += 1;
            }
        } else {
            let mut end: usize = i + 1;
            while end < len && name_char(text[end])
                invariant
                    i + 1 <= end <= len,
                    len == text@.len(),
                    forall|j: int| i + 1 <= j < end ==> is_name_char(#[trigger] text@[j]),
                decreases len - end,
            {
                end += 1;
            }
            proof {
                let tail = rest.skip(1);
                assert forall|j: int| 0 <= j < end - i - 1 implies is_name_char(
                    #[trigger] tail[j],
                ) by {
                    assert(tail[j] == text@[i + 1 + j]);
                }
                if end < len {
                    assert(tail[end - i - 1] == text@[end as int]);
                }
                lemma_name_prefix_len_is(tail, end - i - 1);
                if rest.len() > 1 {
                    assert(rest[1] == text@[i + 1]);
                }
            }
            if end > i + 1 {
                push_value(&mut out, text, i + 1, end, vars);
                proof {
                    assert(rest.subrange(1, end - i) == text@.subrange(i + 1, end as int));
                    assert(rest.skip(end - i) == text@.skip(end as int));
                    let value = value_of(vars@, rest.subrange(1, end - i));
                    let later = expansion(text@.skip(end as int), vars@);
                    assert((before + value) + later == before + (value + later));
                }
                i = end;
            } else {
                out.push('$');
                proof {
                    assert(before.push('$') + expansion(rest.skip(1), vars@) == before + (
                        seq!['$'] + expansion(rest.skip(1), vars@)));
                }
                i += 1;
            }
        }
    }
    proof {
        assert(text@.skip(len as int) == Seq::<char>::empty());
        assert(out@ + Seq::<char>::empty() == out@);
    }
    out
}

/// `input` with every `$NAME` and `${NAME}` replaced by the value that `vars`
/// gives the name, or by nothing where it gives none.
pub fn expand_parameter(input: String, vars: &Table) -> (expanded: String)
    ensures
        expanded@ == expansion(input@, vars@),
{
    let text = chars_of(input.as_str());
    let expanded = expand_chars(text.as_slice(), vars);
    string_of(expanded.as_slice())
}

/// A text without `$` is its own expansion.
pub proof fn lemma_expansion_without_dollar(text: Seq<char>, vars: Map<Seq<char>, Seq<char>>)
    requires
        !text.contains('$'),
    ensures
        expansion(text, vars) == text,
    decreases text.len(),
{
    if text.len() > 0 {
        assert(text[0] != '$');
        let rest = text.skip(1);
        assert forall|c: char| rest.contains(c) implies text.contains(c) by {
            let j = choose|j: int| 0 <= j < rest.len() && rest[j] == c;
            assert(text[j + 1] == c);
        }
        lemma_expansion_without_dollar(rest, vars);
        assert(seq![text[0]] + rest == text);
    }
}

/// Expansion can be repeated: where the expansion of a text holds no `$`,
/// expanding it once more changes nothing.
pub proof fn lemma_expansion_repeatable(text: Seq<char>, vars: Map<Seq<char>, Seq<char>>)
    requires
        !expansion(text, vars).contains('$'),
    ensures
        expansion(expansion(text, vars), vars) == expansion(text, vars),
{
    lemma_expansion_without_dollar(expansion(text, vars), vars);
}

/// `${NAME}` stands for the value of `NAME`, whatever follows it: a name in
/// braces ends at the first `}`.
pub proof fn lemma_braced_parameter(
    name: Seq<char>,
    rest: Seq<char>,
    vars: Map<Seq<char>, Seq<char>>,
)
    requires
        !name.contains('}'),
    ensures
        expansion(seq!['$', '{'] + name + seq!['}'] + rest, vars) == value_of(vars, name)
            + expansion(rest, vars),
{
    let text = seq!['$', '{'] + name + seq!['}'] + rest;
    let tail = text.skip(2);
    let n = name.len() as int;
    assert(text[0] == '$' && text[1] == '{');
    assert forall|j: int| 0 <= j < n implies tail[j] != '}' by {
        assert(tail[j] == name[j]);
        assert(name.contains(name[j]));
    }
    assert(tail[n] == '}');
    lemma_index_of_is(tail, '}', n);
    assert(text.subrange(2, 2 + n) == name);
    assert(text.skip(2 + n + 1) == rest);
}

/// `$NAME` stands for the value of `NAME` where the name is not empty and
/// what follows it cannot be read as more of the name.
pub proof fn lemma_bare_parameter(
    name: Seq<char>,
    rest: Seq<char>,
    vars: Map<Seq<char>, Seq<char>>,
)
    requires
        name.len() > 0,
        forall|i: int| 0 <= i < name.len() ==> is_name_char(#[trigger] name[i]),
        rest.len() == 0 || !is_name_char(rest[0]),
    ensures
        expansion(seq!['$'] + name + rest, vars) == value_of(vars, name) + expansion(rest, vars),
{
    let text = seq!['$'] + name + rest;
    let tail = text.skip(1);
    let n = name.len() as int;
    assert(text[0] == '$');
    assert(text[1] == name[0]);
    assert(is_name_char(name[0]));
    assert forall|j: int| 0 <= j < n implies is_name_char(#[trigger] tail[j]) by {
        assert(tail[j] == name[j]);
    }
    if n < tail.len() {
        assert(tail[n] == rest[0]);
    }
    lemma_name_prefix_len_is(tail, n);
    assert(text.subrange(1, 1 + n) == name);
    assert(text.skip(1 + n) == rest);
}

/// With and without braces a name expands to the same: `${NAME}` and `$NAME`
/// agree wherever `$NAME` can be read in one way only, that is where the name
/// is not empty and no name character follows it.
pub proof fn lemma_braces_make_no_difference(
    name: Seq<char>,
    rest: Seq<char>,
    vars: Map<Seq<char>, Seq<char>>,
)
    requires
        name.len() > 0,
        forall|i: int| 0 <= i < name.len() ==> is_name_char(#[trigger] name[i]),
        rest.len() == 0 || !is_name_char(rest[0]),
    ensures
        expansion(seq!['$', '{'] + name + seq!['}'] + rest, vars) == expansion(
            seq!['$'] + name + rest,
            vars,
        ),
{
    assert(!name.contains('}')) by {
        if name.contains('}') {
            let j = choose|j: int| 0 <= j < name.len() && name[j] == '}';
            assert(is_name_char(name[j]));
        }
    }
    lemma_braced_parameter(name, rest, vars);
    lemma_bare_parameter(name, rest, vars);
}

/// A name that has no value expands to nothing, with braces and without.
pub proof fn lemma_unknown_name_expands_to_nothing(
    name: Seq<char>,
    rest: Seq<char>,
    vars: Map<Seq<char>, Seq<char>>,
)
    requires
        !vars.contains_key(name),
        name.len() > 0,
        forall|i: int| 0 <= i < name.len() ==> is_name_char(#[trigger] name[i]),
        rest.len() == 0 || !is_name_char(rest[0]),
    ensures
        expansion(seq!['$', '{'] + name + seq!['}'] + rest, vars) == expansion(rest, vars),
        expansion(seq!['$'] + name + rest, vars) == expansion(rest, vars),
{
    lemma_braces_make_no_difference(name, rest, vars);
    lemma_bare_parameter(name, rest, vars);
    assert(Seq::<char>::empty() + expansion(rest, vars) == expansion(rest, vars));
}

} // verus!

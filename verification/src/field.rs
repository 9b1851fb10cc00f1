//! Fields: tokens classified by the expansion that their text asks for, and
//! the text that each kind of field stands for.

use vstd::prelude::*;
use crate::expand_parameter::value_of;
use crate::table::Table;
use crate::text::{
    chars_of,
    is_digit_char,
    is_name_char,
    lemma_name_prefix_len_is,
    name_char,
    name_prefix_len,
    string_of,
};

verus! {

/// A token and the rule that applies to it. The payload is the text that the
/// rule works on: the token itself where it is plain, else what its
/// delimiters enclose.
#[derive(Debug, PartialEq)]
pub enum Field<T> {
    Plain(T),
    Parameter(T),
    Command(T),
    Arithmetic(T),
    Quoted(T),
    Position(T),
    Special(T),
}

impl View for Field<String> {
    type V = Field<Seq<char>>;

    open spec fn view(&self) -> Field<Seq<char>> {
        match *self {
            Field::Plain(text) => Field::Plain(text@),
            Field::Parameter(text) => Field::Parameter(text@),
            Field::Command(text) => Field::Command(text@),
            Field::Arithmetic(text) => Field::Arithmetic(text@),
            Field::Quoted(text) => Field::Quoted(text@),
            Field::Position(text) => Field::Position(text@),
            Field::Special(text) => Field::Special(text@),
        }
    }
}

/// Whether `par` is made of name characters only.
pub open spec fn valid_parameter(par: Seq<char>) -> bool {
    forall|i: int| 0 <= i < par.len() ==> is_name_char(#[trigger] par[i])
}

/// Whether `num` is made of digits only.
pub open spec fn number(num: Seq<char>) -> bool {
    forall|i: int| 0 <= i < num.len() ==> is_digit_char(#[trigger] num[i])
}

/// `${` ... `}`.
pub open spec fn braced(text: Seq<char>) -> bool {
    text.len() >= 2 && text[0] == '$' && text[1] == '{' && text.last() == '}'
}

/// `$(` ... `)`.
pub open spec fn parenthesized(text: Seq<char>) -> bool {
    text.len() >= 2 && text[0] == '$' && text[1] == '(' && text.last() == ')'
}

/// `$((` ... `))`.
pub open spec fn double_parenthesized(text: Seq<char>) -> bool {
    &&& text.len() >= 3
    &&& text[0] == '$'
    &&& text[1] == '('
    &&& text[2] == '('
    &&& text[text.len() - 1] == ')'
    &&& text[text.len() - 2] == ')'
}

/// `$(` ... `)`, but not `$((` ... `))`.
pub open spec fn single_parenthesized(text: Seq<char>) -> bool {
    parenthesized(text) && !double_parenthesized(text)
}

/// `$'` ... `'`, the opening and the closing quote being two.
pub open spec fn single_quoted(text: Seq<char>) -> bool {
    text.len() > 2 && text[0] == '$' && text[1] == '\'' && text.last() == '\''
}

/// A backtick at each end, the two being two.
pub open spec fn backticked(text: Seq<char>) -> bool {
    text.len() > 1 && text[0] == '`' && text.last() == '`'
}

/// One of the characters that name a special parameter.
pub open spec fn is_special_char(c: char) -> bool {
    c == '@' || c == '*' || c == '#' || c == '?' || c == '-' || c == '$' || c == '!' || c == '0'
}

/// `$` with one of the special characters right behind it.
pub open spec fn special_parameter(text: Seq<char>) -> bool {
    text.len() > 1 && text[0] == '$' && is_special_char(text[1])
}

/// `$` with name characters behind it and nothing else.
pub open spec fn unenclosed_parameter(text: Seq<char>) -> bool {
    &&& text.len() >= 1
    &&& text[0] == '$'
    &&& !braced(text)
    &&& !parenthesized(text)
    &&& !single_quoted(text)
    &&& valid_parameter(text.skip(1))
}

/// The length of the longest beginning of `text`, of `limit` characters at
/// most and one at least, that is the name of a variable; 0 where none is.
pub open spec fn known_prefix_len(
    text: Seq<char>,
    vars: Map<Seq<char>, Seq<char>>,
    limit: nat,
) -> nat
    decreases limit,
{
    if limit == 0 {
        0
    } else if vars.contains_key(text.take(limit as int)) {
        limit
    } else {
        known_prefix_len(text, vars, (limit - 1) as nat)
    }
}

/// The length of the name that `text` begins with: of the name characters at
/// its beginning, the longest run from the start that is the name of a
/// variable.
pub open spec fn parameter_name_len(text: Seq<char>, vars: Map<Seq<char>, Seq<char>>) -> nat {
    known_prefix_len(text, vars, name_prefix_len(text) as nat)
}

/// `num` without the zeros at its beginning.
pub open spec fn without_leading_zeros(num: Seq<char>) -> Seq<char>
    decreases num.len(),
{
    if num.len() > 0 && num[0] == '0' {
        without_leading_zeros(num.skip(1))
    } else {
        num
    }
}

/// The field that `text` is. The first rule that applies decides.
pub open spec fn classify(text: Seq<char>, vars: Map<Seq<char>, Seq<char>>) -> Field<Seq<char>> {
    let size = text.len() as int;
    if text.len() == 0 || text[0] != '$' {
        Field::Plain(text)
    } else if special_parameter(text) {
        Field::Special(seq![text[1]])
    } else if unenclosed_parameter(text) {
        Field::Parameter(text.subrange(1, 1 + parameter_name_len(text.skip(1), vars) as int))
    } else if braced(text) && !number(text.subrange(2, size - 1)) {
        Field::Parameter(text.subrange(2, size - 1))
    } else if braced(text) {
        Field::Position(without_leading_zeros(text.subrange(2, size - 1)))
    } else if single_parenthesized(text) {
        Field::Command(text.subrange(2, size - 1))
    } else if backticked(text) {
        Field::Command(text.subrange(1, size - 1))
    } else if double_parenthesized(text) {
        Field::Arithmetic(text.subrange(3, size - 2))
    } else if single_quoted(text) {
        Field::Quoted(text.subrange(2, size - 1))
    } else {
        Field::Plain(text)
    }
}

/// The text that `field` stands for: a plain field for itself, a parameter
/// for the value of the variable or for nothing where it has none. The other
/// kinds are not evaluated; each stands for its payload behind a label that
/// names the kind.
pub open spec fn substitution(
    field: Field<Seq<char>>,
    vars: Map<Seq<char>, Seq<char>>,
) -> Seq<char> {
    match field {
        Field::Plain(text) => text,
        Field::Parameter(name) => value_of(vars, name),
        Field::Command(text) => "command: "@ + text,
        Field::Arithmetic(text) => "arithmetic: "@ + text,
        Field::Quoted(text) => "quoted: "@ + text,
        Field::Position(text) => "positional parameter: "@ + text,
        Field::Special(text) => "special parameter: "@ + text,
    }
}

/// Whether `par` is made of name characters only.
pub fn is_valid_parameter(par: &[char]) -> (valid: bool)
    ensures
        valid == valid_parameter(par@),
{
    let mut i: usize = 0;
    while i < par.len()
        invariant
            i <= par.len(),
            forall|j: int| 0 <= j < i ==> is_name_char(#[trigger] par@[j]),
        decreases par.len() - i,
    {
        if !name_char(par[i]) {
            return false;
        }
        i += 1;
    }
    true
}

/// Whether `num` is made of digits only.
pub fn is_number(num: &[char]) -> (digits: bool)
    ensures
        digits == number(num@),
{
    let mut i: usize = 0;
    while i < num.len()
        invariant
            i <= num.len(),
            forall|j: int| 0 <= j < i ==> is_digit_char(#[trigger] num@[j]),
        decreases num.len() - i,
    {
        if !('0' <= num[i] && num[i] <= '9') {
            return false;
        }
        i += 1;
    }
    true
}

/// Whether `text` is `${` ... `}`.
pub fn in_braces(text: &[char]) -> (inside: bool)
    ensures
        inside == braced(text@),
{
    text.len() >= 2 && text[0] == '$' && text[1] == '{' && text[text.len() - 1] == '}'
}

/// Whether `text` is `$(` ... `)`.
pub fn in_parenthesis(text: &[char]) -> (inside: bool)
    ensures
        inside == parenthesized(text@),
{
    text.len() >= 2 && text[0] == '$' && text[1] == '(' && text[text.len() - 1] == ')'
}

/// Whether `text` is `$((` ... `))`.
pub fn in_double_parenthesis(text: &[char]) -> (inside: bool)
    ensures
        inside == double_parenthesized(text@),
{
    text.len() >= 3 && text[0] == '$' && text[1] == '(' && text[2] == '(' && text[text.len() - 1]
        == ')' && text[text.len() - 2] == ')'
}

/// Whether `text` is `$(` ... `)` and not `$((` ... `))`.
pub fn in_single_parenthesis(text: &[char]) -> (inside: bool)
    ensures
        inside == single_parenthesized(text@),
{
    if in_double_parenthesis(text) {
        return false;
    }
    in_parenthesis(text)
}

/// Whether `text` is `$'` ... `'`.
pub fn in_single_quotes(text: &[char]) -> (inside: bool)
    ensures
        inside == single_quoted(text@),
{
    text.len() > 2 && text[0] == '$' && text[1] == '\'' && text[text.len() - 1] == '\''
}

/// Whether `text` has a backtick at each end.
pub fn in_backticks(text: &[char]) -> (inside: bool)
    ensures
        inside == backticked(text@),
{
    text.len() > 1 && text[0] == '`' && text[text.len() - 1] == '`'
}

/// Whether `text` is `$` and a name.
pub fn is_unenclosed_parameter(text: &[char]) -> (unenclosed: bool)
    ensures
        unenclosed == unenclosed_parameter(text@),
{
    if text.len() >= 1 && text[0] == '$' && !in_braces(text) && !in_parenthesis(text)
        && !in_single_quotes(text) {
        let rest = vstd::slice::slice_subrange(text, 1, text.len());
        assert(rest@ == text@.skip(1));
        is_valid_parameter(rest)
    } else {
        false
    }
}

/// Whether `text` is `$` and a special character, with or without more behind
/// them.
pub fn is_special_parameter(text: &[char]) -> (special: bool)
    ensures
        special == special_parameter(text@),
{
    if text.len() > 1 && text[0] == '$' {
        let c = text[1];
        c == '@' || c == '*' || c == '#' || c == '?' || c == '-' || c == '$' || c == '!' || c
            == '0'
    } else {
        false
    }
}

/// The length of the name that `text` begins with: see `parameter_name_len`.
pub fn parameter_name_end(text: &[char], vars: &Table) -> (end: usize)
    ensures
        end == parameter_name_len(text@, vars@),
        end <= text@.len(),
{
    let mut longest: usize = 0;
    let mut i: usize = 0;
    while i < text.len() && name_char(text[i])
        invariant
            i <= text.len(),
            longest <= i,
            forall|j: int| 0 <= j < i ==> is_name_char(#[trigger] text@[j]),
            longest == known_prefix_len(text@, vars@, i as nat),
        decreases text.len() - i,
    {
        i += 1;
        let prefix = vstd::slice::slice_subrange(text, 0, i);
        assert(prefix@ == text@.take(i as int));
        if vars.contains(prefix) {
            longest = i;
        }
    }
    proof {
        lemma_name_prefix_len_is(text@, i as int);
    }
    longest
}

/// Splits `text` into the name that it begins with and the rest: see
/// `parameter_name_len`. Where no beginning of `text` is the name of a
/// variable, the name is empty and the rest is all of `text`.
pub fn get_parameter_name(text: String, vars: &Table) -> (parts: (String, String))
    ensures
        parts.0@ == text@.take(parameter_name_len(text@, vars@) as int),
        parts.1@ == text@.skip(parameter_name_len(text@, vars@) as int),
{
    let chars = chars_of(text.as_str());
    let end = parameter_name_end(chars.as_slice(), vars);
    let name = text_of(chars.as_slice(), 0, end);
    let rest = text_of(chars.as_slice(), end, chars.len());
    assert(chars@.subrange(0, end as int) == chars@.take(end as int));
    assert(chars@.subrange(end as int, chars@.len() as int) == chars@.skip(end as int));
    (name, rest)
}

/// The string made of `chars[from..to]`.
fn text_of(chars: &[char], from: usize, to: usize) -> (text: String)
    requires
        from <= to <= chars.len(),
    ensures
        text@ == chars@.subrange(from as int, to as int),
{
    string_of(vstd::slice::slice_subrange(chars, from, to))
}

/// The label and the payload, joined.
fn labelled(label: &str, text: &String) -> (line: String)
    ensures
        line@ == label@ + text@,
{
    let mut line = chars_of(label);
    let payload = chars_of(text.as_str());
    crate::text::append_chars(&mut line, payload.as_slice());
    string_of(line.as_slice())
}

impl Field<String> {
    /// Classifies `text`: see `classify`.
    pub fn new(text: String, vars: &Table) -> (field: Field<String>)
        ensures
            field@ == classify(text@, vars@),
    {
        let chars = chars_of(text.as_str());
        let all = chars.as_slice();
        let size = all.len();
        if size == 0 || all[0] != '$' {
            Field::Plain(text)
        } else if is_special_parameter(all) {
            let par = text_of(all, 1, 2);
            assert(all@.subrange(1, 2) == seq![all@[1]]);
            Field::Special(par)
        } else if is_unenclosed_parameter(all) {
            let rest = vstd::slice::slice_subrange(all, 1, size);
            assert(rest@ == all@.skip(1));
            let end = parameter_name_end(rest, vars);
            Field::Parameter(text_of(all, 1, 1 + end))
        } else if in_braces(all) {
            let inner = vstd::slice::slice_subrange(all, 2, size - 1);
            if !is_number(inner) {
                Field::Parameter(string_of(inner))
            } else {
                let mut start: usize = 0;
                assert(inner@.skip(0) == inner@);
                while start < inner.len() && inner[start] == '0'
                    invariant
                        start <= inner.len(),
                        without_leading_zeros(inner@.skip(start as int)) == without_leading_zeros(
                            inner@,
                        ),
                    decreases inner.len() - start,
                {
                    assert(inner@.skip(start as int)[0] == inner@[start as int]);
                    assert(inner@.skip(start as int).skip(1) == inner@.skip(start + 1));
                    start += 1;
                }
                proof {
                    let rest = inner@.skip(start as int);
                    if start < inner.len() {
                        assert(rest[0] == inner@[start as int]);
                    }
                    assert(without_leading_zeros(rest) == rest);
                    assert(inner@.subrange(start as int, inner@.len() as int) == rest);
                }
                Field::Position(text_of(inner, start, inner.len()))
            }
        } else if in_single_parenthesis(all) {
            Field::Command(text_of(all, 2, size - 1))
        } else if in_backticks(all) {
            Field::Command(text_of(all, 1, size - 1))
        } else if in_double_parenthesis(all) {
            Field::Arithmetic(text_of(all, 3, size - 2))
        } else if in_single_quotes(all) {
            Field::Quoted(text_of(all, 2, size - 1))
        } else {
            Field::Plain(text)
        }
    }

    /// The text that the field stands for: see `substitution`.
    pub fn substitute(self, vars: &Table) -> (text: String)
        ensures
            text@ == substitution(self@, vars@),
    {
        match self {
            Field::Plain(text) => text,
            Field::Parameter(name) => Field::Parameter(name).substitute_parameter(vars),
            Field::Command(text) => labelled("command: ", &text),
            Field::Arithmetic(text) => labelled("arithmetic: ", &text),
            Field::Quoted(text) => labelled("quoted: ", &text),
            Field::Position(text) => labelled("positional parameter: ", &text),
            Field::Special(text) => labelled("special parameter: ", &text),
        }
    }

    /// The value of the variable that a parameter names, or nothing where it
    /// has none; nothing for any other field.
    fn substitute_parameter(self, vars: &Table) -> (text: String)
        ensures
            text@ == match self@ {
                Field::Parameter(name) => value_of(vars@, name),
                _ => Seq::<char>::empty(),
            },
    {
        if let Field::Parameter(name) = self {
            match vars.get(name.as_str()) {
                Some(value) => value,
                None => String::new(),
            }
        } else {
            String::new()
        }
    }
}

/// A text that does not start with `$` is a plain field, and stands for
/// itself.
pub proof fn lemma_plain_field(text: Seq<char>, vars: Map<Seq<char>, Seq<char>>)
    requires
        text.len() == 0 || text[0] != '$',
    ensures
        classify(text, vars) == Field::Plain(text),
        substitution(classify(text, vars), vars) == text,
{
}

/// A text between backticks is a plain field: it does not start with `$`,
/// and the first rule that applies decides.
pub proof fn lemma_backticks_are_plain(text: Seq<char>, vars: Map<Seq<char>, Seq<char>>)
    requires
        backticked(text),
    ensures
        classify(text, vars) == Field::Plain(text),
{
}

/// Between `$` and a name, the delimiters do not matter: a text made of `$`
/// and name characters is not enclosed in braces, parentheses or quotes.
pub proof fn lemma_name_is_unenclosed(text: Seq<char>)
    requires
        text.len() >= 1,
        text[0] == '$',
        valid_parameter(text.skip(1)),
    ensures
        unenclosed_parameter(text),
{
    if text.len() >= 2 {
        assert(text.skip(1)[0] == text[1]);
        assert(is_name_char(text[1]));
    }
}

} // verus!

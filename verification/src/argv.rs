//! The tokenizer: a line of text split into arguments, with quotes honoured,
//! and each argument expanded.

use vstd::prelude::*;
use crate::expand_parameter::{expansion, lemma_expansion_without_dollar};
use crate::field::{classify, substitution, Field};
use crate::table::Table;
use crate::text::{chars_of, string_of};
use crate::tilde::{
    agree_on,
    lemma_homes_read_for_named_user,
    named_user,
    replace_chars,
    tilde_expansion,
    tilde_user,
};

verus! {

pub type ArgV = Vec<String>;

/// The state of the scan: the tokens completed, the token being read, and
/// the quote that is open.
pub struct Scan {
    pub tokens: Seq<Seq<char>>,
    pub current: Seq<char>,
    pub quote: Option<char>,
}

/// A single or a double quote.
pub open spec fn is_quote(c: char) -> bool {
    c == '\'' || c == '"'
}

/// A space or a tab.
pub open spec fn is_separator(c: char) -> bool {
    c == ' ' || c == '\t'
}

/// The scan before the first character.
pub open spec fn scan_start() -> Scan {
    Scan { tokens: Seq::empty(), current: Seq::empty(), quote: None }
}

/// The scan after one more character.
///
/// Outside quotes a quote opens quoting and is not kept, a separator
/// completes the token being read if it has any character, and any other
/// character joins the token. Inside quotes the quote that opened them closes
/// them and completes the token, empty or not, and any other character, the
/// other quote and the separators too, joins the token.
pub open spec fn scan_step(scan: Scan, c: char) -> Scan {
    match scan.quote {
        None => {
            if is_quote(c) {
                Scan { tokens: scan.tokens, current: scan.current, quote: Some(c) }
            } else if is_separator(c) {
                if scan.current.len() > 0 {
                    Scan {
                        tokens: scan.tokens.push(scan.current),
                        current: Seq::empty(),
                        quote: None,
                    }
                } else {
                    scan
                }
            } else {
                Scan { tokens: scan.tokens, current: scan.current.push(c), quote: None }
            }
        },
        Some(open) => {
            if c == open {
                Scan { tokens: scan.tokens.push(scan.current), current: Seq::empty(), quote: None }
            } else {
                Scan { tokens: scan.tokens, current: scan.current.push(c), quote: scan.quote }
            }
        },
    }
}

/// The scan after all of `text`.
pub open spec fn scan_of(text: Seq<char>) -> Scan
    decreases text.len(),
{
    if text.len() == 0 {
        scan_start()
    } else {
        scan_step(scan_of(text.drop_last()), text.last())
    }
}

/// The tokens of `text`, before any expansion. A token that the end of the
/// text cuts off counts if no quote is open; inside an open quote it is left
/// for the continuation of the line.
pub open spec fn raw_tokens(text: Seq<char>) -> Seq<Seq<char>> {
    let scan = scan_of(text);
    if scan.quote is None && scan.current.len() > 0 {
        scan.tokens.push(scan.current)
    } else {
        scan.tokens
    }
}

/// The quote that is open at the end of `text`.
pub open spec fn pending_quote(text: Seq<char>) -> Option<char> {
    scan_of(text).quote
}

/// The arguments of `text`: its tokens, each with its tilde expanded.
pub open spec fn parsed_argv(
    text: Seq<char>,
    vars: Map<Seq<char>, Seq<char>>,
    homes: Map<Seq<char>, Seq<char>>,
) -> Seq<Seq<char>> {
    let raw = raw_tokens(text);
    Seq::new(raw.len(), |i: int| tilde_expansion(raw[i], vars, homes))
}

/// The arguments of `text`: its tokens, each classified as a field and
/// replaced by what the field stands for.
pub open spec fn split_fields(text: Seq<char>, vars: Map<Seq<char>, Seq<char>>) -> Seq<Seq<char>> {
    let raw = raw_tokens(text);
    Seq::new(raw.len(), |i: int| substitution(classify(raw[i], vars), vars))
}

/// The character sequences that a vector of character vectors holds.
pub open spec fn words_of(words: Seq<Vec<char>>) -> Seq<Seq<char>> {
    Seq::new(words.len(), |i: int| words[i]@)
}

/// The character sequences that a vector of strings holds.
pub open spec fn strings_of(strings: Seq<String>) -> Seq<Seq<char>> {
    Seq::new(strings.len(), |i: int| strings[i]@)
}

/// Splits `text` into its tokens, and tells which quote its end leaves open.
pub fn tokenize(text: &str) -> (scanned: (Vec<Vec<char>>, Option<char>))
    ensures
        words_of(scanned.0@) == raw_tokens(text@),
        scanned.1 == pending_quote(text@),
{
    let chars = chars_of(text);
    let mut tokens: Vec<Vec<char>> = Vec::new();
    let mut current: Vec<char> = Vec::new();
    let mut quote: Option<char> = None;
    let mut i: usize = 0;
    proof {
        assert(words_of(tokens@) == Seq::<Seq<char>>::empty());
    }
    while i < chars.len()
        invariant
            i <= chars.len(),
            scan_of(chars@.take(i as int)) == (Scan {
                tokens: words_of(tokens@),
                current: current@,
                quote,
            }),
        decreases chars.len() - i,
    {
        let c = chars[i];
        proof {
            let next = chars@.take(i + 1);
            assert(next.drop_last() == chars@.take(i as int));
            assert(next.last() == c);
        }
        let ghost before = words_of(tokens@);
        match quote {
            None => {
                if c == '\'' || c == '"' {
                    quote = Some(c);
                } else if c == ' ' || c == '\t' {
                    if current.len() > 0 {
                        let mut token: Vec<char> = Vec::new();
                        core::mem::swap(&mut current, &mut token);
                        tokens.push(token);
                        assert(words_of(tokens@) == before.push(token@));
                    }
                } else {
                    current.push(c);
                }
            },
            Some(open) => {
                if c == open {
                    let mut token: Vec<char> = Vec::new();
                    core::mem::swap(&mut current, &mut token);
                    tokens.push(token);
                    assert(words_of(tokens@) == before.push(token@));
                    quote = None;
                } else {
                    current.push(c);
                }
            },
        }
        i += 1;
    }
    proof {
        assert(chars@.take(chars.len() as int) == chars@);
    }
    if quote.is_none() && current.len() > 0 {
        let ghost before = words_of(tokens@);
        tokens.push(current);
        assert(words_of(tokens@) == before.push(current@));
    }
    (tokens, quote)
}

/// Splits `text` into arguments and expands the tilde at the start of each.
/// The second part of the answer is the quote that the end of `text` leaves
/// open: the line goes on.
pub fn parse_argv(text: &str, vars: &Table, homes: &Table) -> (parsed: (ArgV, Option<char>))
    ensures
        strings_of(parsed.0@) == parsed_argv(text@, vars@, homes@),
        parsed.1 == pending_quote(text@),
{
    let (tokens, quote) = tokenize(text);
    let mut argv: ArgV = Vec::new();
    let mut i: usize = 0;
    while i < tokens.len()
        invariant
            i <= tokens.len(),
            words_of(tokens@) == raw_tokens(text@),
            strings_of(argv@) == parsed_argv(text@, vars@, homes@).take(i as int),
        decreases tokens.len() - i,
    {
        let ghost before = strings_of(argv@);
        let expanded = replace_chars(tokens[i].as_slice(), vars, homes);
        let arg = string_of(expanded.as_slice());
        argv.push(arg);
        proof {
            assert(words_of(tokens@)[i as int] == tokens@[i as int]@);
            assert(strings_of(argv@) == before.push(arg@));
            assert(parsed_argv(text@, vars@, homes@).take(i + 1) == before.push(arg@));
        }
        i += 1;
    }
    proof {
        let all = parsed_argv(text@, vars@, homes@);
        assert(all.take(tokens.len() as int) == all);
    }
    (argv, quote)
}

/// Splits `text` into arguments, classifies each as a field and replaces it
/// by what the field stands for. The second part of the answer is the quote
/// that the end of `text` leaves open.
pub fn split_argv(text: &str, vars: &Table) -> (split: (Vec<String>, Option<char>))
    ensures
        strings_of(split.0@) == split_fields(text@, vars@),
        split.1 == pending_quote(text@),
{
    let (tokens, quote) = tokenize(text);
    let mut argv: Vec<String> = Vec::new();
    let mut i: usize = 0;
    while i < tokens.len()
        invariant
            i <= tokens.len(),
            words_of(tokens@) == raw_tokens(text@),
            strings_of(argv@) == split_fields(text@, vars@).take(i as int),
        decreases tokens.len() - i,
    {
        let ghost before = strings_of(argv@);
        let token = string_of(tokens[i].as_slice());
        let arg = Field::new(token, vars).substitute(vars);
        argv.push(arg);
        proof {
            assert(words_of(tokens@)[i as int] == tokens@[i as int]@);
            assert(strings_of(argv@) == before.push(arg@));
            assert(split_fields(text@, vars@).take(i + 1) == before.push(arg@));
        }
        i += 1;
    }
    proof {
        let all = split_fields(text@, vars@);
        assert(all.take(tokens.len() as int) == all);
    }
    (argv, quote)
}

/// A token that holds neither `~` nor `$` is left as it is by every
/// expansion: of the tilde, of parameters, and of fields.
pub proof fn lemma_plain_token_unchanged(
    token: Seq<char>,
    vars: Map<Seq<char>, Seq<char>>,
    homes: Map<Seq<char>, Seq<char>>,
)
    requires
        !token.contains('~'),
        !token.contains('$'),
    ensures
        tilde_expansion(token, vars, homes) == token,
        expansion(token, vars) == token,
        substitution(classify(token, vars), vars) == token,
{
    if token.len() > 0 {
        assert(token.contains(token[0]));
    }
    lemma_expansion_without_dollar(token, vars);
}

/// A line of separators only, and the empty line, have no argument and leave
/// no quote open.
pub proof fn lemma_blank_line(text: Seq<char>)
    requires
        forall|i: int| 0 <= i < text.len() ==> is_separator(#[trigger] text[i]),
    ensures
        scan_of(text) == scan_start(),
        raw_tokens(text) == Seq::<Seq<char>>::empty(),
        pending_quote(text) == None::<char>,
    decreases text.len(),
{
    if text.len() > 0 {
        lemma_blank_line(text.drop_last());
        assert(is_separator(text[text.len() - 1]));
    }
}

/// The users that the tokens of `tokens` name, in the order of the tokens.
pub open spec fn users_named(tokens: Seq<Seq<char>>) -> Seq<Seq<char>>
    decreases tokens.len(),
{
    if tokens.len() == 0 {
        Seq::empty()
    } else {
        match named_user(tokens.last()) {
            Some(user) => users_named(tokens.drop_last()).push(user),
            None => users_named(tokens.drop_last()),
        }
    }
}

/// Every user that a token names is among the users named.
pub proof fn lemma_users_named(tokens: Seq<Seq<char>>, i: int)
    requires
        0 <= i < tokens.len(),
        named_user(tokens[i]) is Some,
    ensures
        users_named(tokens).contains(named_user(tokens[i])->0),
    decreases tokens.len(),
{
    let user = named_user(tokens[i])->0;
    let rest = users_named(tokens.drop_last());
    if i == tokens.len() - 1 {
        assert(rest.push(user).last() == user);
    } else {
        lemma_users_named(tokens.drop_last(), i);
        let at = choose|j: int| 0 <= j < rest.len() && rest[j] == user;
        match named_user(tokens.last()) {
            Some(other) => {
                assert(rest.push(other)[at] == user);
            },
            None => {},
        }
    }
}

/// The arguments of a line depend on the home directories of the users that
/// its tokens name and on no others: two tables that agree on those users
/// give the same arguments.
pub proof fn lemma_homes_read_for_named_users(
    text: Seq<char>,
    vars: Map<Seq<char>, Seq<char>>,
    homes: Map<Seq<char>, Seq<char>>,
    others: Map<Seq<char>, Seq<char>>,
)
    requires
        forall|user: Seq<char>| #[trigger]
            users_named(raw_tokens(text)).contains(user) ==> agree_on(homes, others, user),
    ensures
        parsed_argv(text, vars, homes) == parsed_argv(text, vars, others),
{
    let raw = raw_tokens(text);
    assert forall|i: int| 0 <= i < raw.len() implies tilde_expansion(raw[i], vars, homes)
        == tilde_expansion(raw[i], vars, others) by {
        if named_user(raw[i]) is Some {
            lemma_users_named(raw, i);
        }
        lemma_homes_read_for_named_user(raw[i], vars, homes, others);
    }
    assert(parsed_argv(text, vars, homes) =~= parsed_argv(text, vars, others));
}

/// The users whose home directories the arguments of `text` depend on: those
/// that its tokens name, in the order of the tokens.
pub fn named_users(text: &str) -> (users: Vec<String>)
    ensures
        strings_of(users@) == users_named(raw_tokens(text@)),
{
    let (tokens, _) = tokenize(text);
    let mut users: Vec<String> = Vec::new();
    let mut i: usize = 0;
    assert(words_of(tokens@).take(0) == Seq::<Seq<char>>::empty());
    assert(strings_of(users@) == Seq::<Seq<char>>::empty());
    while i < tokens.len()
        invariant
            i <= tokens.len(),
            words_of(tokens@) == raw_tokens(text@),
            strings_of(users@) == users_named(words_of(tokens@).take(i as int)),
        decreases tokens.len() - i,
    {
        let ghost before = strings_of(users@);
        proof {
            let now = words_of(tokens@).take(i + 1);
            assert(now.drop_last() == words_of(tokens@).take(i as int));
            assert(now.last() == tokens@[i as int]@);
        }
        match tilde_user(tokens[i].as_slice()) {
            Some(name) => {
                let user = string_of(name.as_slice());
                users.push(user);
                assert(strings_of(users@) == before.push(user@));
            },
            None => {},
        }
        i += 1;
    }
    proof {
        assert(words_of(tokens@).take(tokens.len() as int) == words_of(tokens@));
    }
    users
}

} // verus!

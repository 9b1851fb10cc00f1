//! Tilde expansion of one token: `~` and `~/path` name the home directory of
//! the user of the shell, `~user` and `~user/path` that of another user.

use vstd::prelude::*;
use vstd::slice::{slice_subrange, slice_to_vec};
use crate::table::Table;
use crate::text::{
    append_chars,
    chars_of,
    find_char,
    index_of,
    lemma_index_of,
    lemma_index_of_is,
    string_of,
};

verus! {

/// The name of the variable that holds the home directory.
pub open spec fn home_variable() -> Seq<char> {
    "HOME"@
}

/// `token` with the tilde at its start expanded.
///
/// A token that does not start with a tilde stays. Else the text between the
/// tilde and the first slash, or the end, names a user; with no name it is
/// the user of the shell, whose home directory is the value of `HOME` in
/// `vars`, and with a name it is the user whose home directory `homes` gives.
/// The directory takes the place of the tilde and the name. Where it is not
/// known, the token stays.
pub open spec fn tilde_expansion(
    token: Seq<char>,
    vars: Map<Seq<char>, Seq<char>>,
    homes: Map<Seq<char>, Seq<char>>,
) -> Seq<char> {
    if token.len() == 0 || token[0] != '~' {
        token
    } else {
        let slash = index_of(token, '/');
        if slash == 1 {
            if vars.contains_key(home_variable()) {
                vars[home_variable()] + token.skip(1)
            } else {
                token
            }
        } else {
            let user = token.subrange(1, slash);
            if homes.contains_key(user) {
                homes[user] + token.skip(slash)
            } else {
                token
            }
        }
    }
}

/// `token` with the tilde at its start expanded.
pub fn replace_chars(token: &[char], vars: &Table, homes: &Table) -> (expanded: Vec<char>)
    ensures
        expanded@ == tilde_expansion(token@, vars@, homes@),
{
    if token.len() == 0 || token[0] != '~' {
        return slice_to_vec(token);
    }
    let slash = find_char(token, '/');
    proof {
        lemma_index_of(token@, '/');
    }
    let found = if slash == 1 {
        let home = chars_of("HOME");
        match vars.lookup(home.as_slice()) {
            Some(directory) => Some(slice_to_vec(directory.as_slice())),
            None => None,
        }
    } else {
        match homes.lookup(slice_subrange(token, 1, slash)) {
            Some(directory) => Some(slice_to_vec(directory.as_slice())),
            None => None,
        }
    };
    match found {
        Some(directory) => {
            let mut expanded: Vec<char> = directory;
            append_chars(&mut expanded, slice_subrange(token, slash, token.len()));
            assert(token@.subrange(slash as int, token@.len() as int) == token@.skip(
                slash as int,
            ));
            expanded
        },
        None => slice_to_vec(token),
    }
}

/// `user_input` with the tilde at its start expanded: see `tilde_expansion`.
pub fn replace_tilde(user_input: String, vars: &Table, homes: &Table) -> (expanded: String)
    ensures
        expanded@ == tilde_expansion(user_input@, vars@, homes@),
{
    let token = chars_of(user_input.as_str());
    let expanded = replace_chars(token.as_slice(), vars, homes);
    string_of(expanded.as_slice())
}

/// A token that does not start with a tilde stays as it is, wherever else it
/// may hold one.
pub proof fn lemma_tilde_elsewhere(
    token: Seq<char>,
    vars: Map<Seq<char>, Seq<char>>,
    homes: Map<Seq<char>, Seq<char>>,
)
    requires
        token.len() == 0 || token[0] != '~',
    ensures
        tilde_expansion(token, vars, homes) == token,
{
}

/// `~` and `~/path` stand for the home directory, with the path behind it.
pub proof fn lemma_tilde_home(
    path: Seq<char>,
    vars: Map<Seq<char>, Seq<char>>,
    homes: Map<Seq<char>, Seq<char>>,
)
    requires
        path.len() == 0 || path[0] == '/',
    ensures
        tilde_expansion(seq!['~'] + path, vars, homes) == if vars.contains_key(home_variable()) {
            vars[home_variable()] + path
        } else {
            seq!['~'] + path
        },
{
    let token = seq!['~'] + path;
    if path.len() > 0 {
        assert(token[1] == '/');
    }
    lemma_index_of_is(token, '/', 1);
    assert(token.skip(1) == path);
}

/// `~user` and `~user/path` stand for the home directory of `user`, with the
/// path behind it, and for themselves where the user is not known.
pub proof fn lemma_tilde_user(
    user: Seq<char>,
    path: Seq<char>,
    vars: Map<Seq<char>, Seq<char>>,
    homes: Map<Seq<char>, Seq<char>>,
)
    requires
        user.len() > 0,
        !user.contains('/'),
        path.len() == 0 || path[0] == '/',
    ensures
        tilde_expansion(seq!['~'] + user + path, vars, homes) == if homes.contains_key(user) {
            homes[user] + path
        } else {
            seq!['~'] + user + path
        },
{
    let token = seq!['~'] + user + path;
    let slash = 1 + user.len() as int;
    assert forall|j: int| 0 <= j < slash implies token[j] != '/' by {
        if j > 0 {
            assert(token[j] == user[j - 1]);
            assert(user.contains(user[j - 1]));
        }
    }
    if path.len() > 0 {
        assert(token[slash] == path[0]);
    }
    lemma_index_of_is(token, '/', slash);
    assert(token.subrange(1, slash) == user);
    assert(token.skip(slash) == path);
}

/// The user whose home directory the expansion of `token` reads in `homes`,
/// if it reads any: the name between the tilde at the start and the first
/// slash, or the end.
pub open spec fn named_user(token: Seq<char>) -> Option<Seq<char>> {
    if token.len() > 0 && token[0] == '~' && index_of(token, '/') > 1 {
        Some(token.subrange(1, index_of(token, '/')))
    } else {
        None
    }
}

/// Whether two tables say the same of `name`.
pub open spec fn agree_on(
    homes: Map<Seq<char>, Seq<char>>,
    others: Map<Seq<char>, Seq<char>>,
    name: Seq<char>,
) -> bool {
    homes.contains_key(name) == others.contains_key(name) && (homes.contains_key(name)
        ==> homes[name] == others[name])
}

/// The expansion of a token reads `homes` for the user that the token names
/// and for nobody else.
pub proof fn lemma_homes_read_for_named_user(
    token: Seq<char>,
    vars: Map<Seq<char>, Seq<char>>,
    homes: Map<Seq<char>, Seq<char>>,
    others: Map<Seq<char>, Seq<char>>,
)
    requires
        named_user(token) matches Some(user) ==> agree_on(homes, others, user),
    ensures
        tilde_expansion(token, vars, homes) == tilde_expansion(token, vars, others),
{
    if token.len() > 0 && token[0] == '~' {
        lemma_index_of(token, '/');
    }
}

/// The user whose home directory the expansion of `token` reads: see
/// `named_user`.
pub fn tilde_user(token: &[char]) -> (user: Option<Vec<char>>)
    ensures
        match user {
            Some(name) => named_user(token@) == Some(name@),
            None => named_user(token@) is None,
        },
{
    if token.len() == 0 || token[0] != '~' {
        return None;
    }
    let slash = find_char(token, '/');
    proof {
        lemma_index_of(token@, '/');
    }
    if slash > 1 {
        Some(slice_to_vec(slice_subrange(token, 1, slash)))
    } else {
        None
    }
}

} // verus!

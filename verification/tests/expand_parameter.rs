use vish::expand_parameter::expand_parameter;
use vish::table::Table;

fn variables() -> Table {
    let path = "/bin:/sbin:/usr/bin:/usr/sbin:/usr/local/bin:/usr/local/sbin";
    let mut table = Table::new();
    table.insert("HOME", "/home/bob");
    table.insert("PATH", path);
    table.insert("PAT", "Patricia");
    table.insert("PATH1", "/bin");
    table
}

#[test]
fn expand_home_variable() {
    assert_eq!(
        expand_parameter(String::from("${HOME}/.config"), &variables()),
        "/home/bob/.config"
    );
}

#[test]
fn expand_home_variable_without_braces() {
    assert_eq!(
        expand_parameter(String::from("$HOME/.config"), &variables()),
        "/home/bob/.config"
    );
}

#[test]
fn expand_home_variable_twice() {
    assert_eq!(
        expand_parameter(String::from("${HOME} ${HOME}"), &variables()),
        "/home/bob /home/bob"
    );
}

#[test]
fn expand_wrong_variable() {
    assert_eq!(
        expand_parameter(String::from("$PATH1"), &variables()),
        "/bin"
    );
}

#[test]
fn expand_parameter_do_nothing() {
    assert_eq!(
        expand_parameter(String::from("/bin"), &variables()),
        "/bin"
    );
}

#[test]
fn expand_unknown_variable_to_nothing() {
    assert_eq!(expand_parameter(String::from("a$NONE-b"), &variables()), "a-b");
    assert_eq!(expand_parameter(String::from("a${NONE}b"), &variables()), "ab");
    assert_eq!(expand_parameter(String::from("${}"), &variables()), "");
}

#[test]
fn expand_with_and_without_braces_alike() {
    let vars = variables();
    assert_eq!(
        expand_parameter(String::from("${PAT}:x"), &vars),
        expand_parameter(String::from("$PAT:x"), &vars)
    );
    assert_eq!(expand_parameter(String::from("$PAT:x"), &vars), "Patricia:x");
}

#[test]
fn expand_takes_the_longest_run_of_name_characters() {
    assert_eq!(expand_parameter(String::from("$PATH2"), &variables()), "");
    assert_eq!(expand_parameter(String::from("${PAT}H"), &variables()), "PatriciaH");
    assert_eq!(expand_parameter(String::from("$HOME_x"), &variables()), "");
}

#[test]
fn expand_lone_dollar_stays() {
    assert_eq!(expand_parameter(String::from("$"), &variables()), "$");
    assert_eq!(expand_parameter(String::from("a $ b"), &variables()), "a $ b");
    assert_eq!(expand_parameter(String::from("$$HOME"), &variables()), "$/home/bob");
}

#[test]
fn expand_open_brace_without_end_stays() {
    assert_eq!(expand_parameter(String::from("${HOME"), &variables()), "${HOME");
    assert_eq!(expand_parameter(String::from("${A $PAT"), &variables()), "${A Patricia");
}

#[test]
fn expand_does_not_read_a_value_again() {
    let mut vars = Table::new();
    vars.insert("A", "$B");
    vars.insert("B", "never");
    assert_eq!(expand_parameter(String::from("$A ${A}"), &vars), "$B $B");
}

#[test]
fn expand_twice_is_expand_once() {
    let vars = variables();
    let once = expand_parameter(String::from("cd ${HOME}/$PAT"), &vars);
    assert_eq!(once, "cd /home/bob/Patricia");
    assert_eq!(expand_parameter(once.clone(), &vars), once);
}

#[test]
fn expand_with_characters_beyond_ascii() {
    let mut vars = Table::new();
    vars.insert("FRUTA", "maçã");
    assert_eq!(expand_parameter(String::from("é $FRUTAé ${FRUTA}"), &vars), "é maçãé maçã");
}

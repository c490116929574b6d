//! Validation and normalisation of the `username.workername` login that a
//! worker presents.
use vstd::prelude::*;
use crate::proto::LoginParams;
use crate::text::{chars_of, lemma_split_join, lemma_split_no_sep, lemma_views, split, split_chars, string_of};

verus! {

/// Every character of `check` other than a space occurs in `legal`.
pub open spec fn all_legal(check: Seq<char>, legal: Seq<char>) -> bool {
    forall|i: int| 0 <= i < check.len() ==> check[i] == ' ' || legal.contains(#[trigger] check[i])
}

pub open spec fn username_charset() -> Seq<char> {
    "abcdefghijklmnopqrstuvwxyzABCDEFGHIJKLMNOPQRSTUVWXYZ01234567890_"@
}

pub open spec fn workername_charset() -> Seq<char> {
    "abcdefghijklmnopqrstuvwxyzABCDEFGHIJKLMNOPQRSTUVWXYZ01234567890_.-"@
}

/// The workername given to a login that names none.
pub open spec fn default_workername() -> Seq<char> {
    "__default__"@
}

/// 1 to 20 characters, each a letter, a digit, an underscore or a space.
pub open spec fn username_ok(s: Seq<char>) -> bool {
    1 <= s.len() <= 20 && all_legal(s, username_charset())
}

/// 1 to 18 characters, each a letter, a digit, `_`, `.`, `-` or a space.
pub open spec fn workername_ok(s: Seq<char>) -> bool {
    1 <= s.len() <= 18 && all_legal(s, workername_charset())
}

/// The username of a login: the text before the first dot.
pub open spec fn login_username(login: Seq<char>) -> Seq<char> {
    split(login, '.')[0]
}

/// The workername of a login: the text between the first dot and the next,
/// or the default one where the login has no dot.
pub open spec fn login_workername(login: Seq<char>) -> Seq<char> {
    if split(login, '.').len() >= 2 {
        split(login, '.')[1]
    } else {
        default_workername()
    }
}

pub open spec fn login_ok(login: Seq<char>) -> bool {
    username_ok(login_username(login)) && workername_ok(login_workername(login))
}

/// The login as stored once accepted: unchanged where it has a dot, else with
/// `.` and the default workername appended.
pub open spec fn normalized_login(login: Seq<char>) -> Seq<char> {
    if split(login, '.').len() >= 2 {
        login
    } else {
        login + seq!['.'] + default_workername()
    }
}

/// Whether every character of `check`, spaces aside, occurs in `legal`.
pub fn validate_legal_string(check: &str, legal: &str) -> (r: bool)
    ensures
        r == all_legal(check@, legal@),
{
    let cs = chars_of(check);
    let ls = chars_of(legal);
    let mut i: usize = 0;
    while i < cs.len()
        invariant
            cs@ == check@,
            ls@ == legal@,
            i <= cs@.len(),
            forall|k: int| 0 <= k < i ==> cs@[k] == ' ' || ls@.contains(#[trigger] cs@[k]),
        decreases cs@.len() - i,
    {
        let c = cs[i];
        if c != ' ' {
            let mut found = false;
            let mut j: usize = 0;
            while j < ls.len() && !found
                invariant
                    ls@ == legal@,
                    j <= ls@.len(),
                    found ==> ls@.contains(c),
                    !found ==> forall|k: int| 0 <= k < j ==> ls@[k] != c,
                decreases ls@.len() - j,
            {
                if ls[j] == c {
                    found = true;
                }
                j = j + 1;
            }
            if !found {
                assert(!ls@.contains(c));
                assert(cs@[i as int] == c);
                assert(!all_legal(check@, legal@));
                return false;
            }
        }
        i = i + 1;
    }
    true
}

pub fn validate_username(username: &str) -> (r: bool)
    ensures
        r == username_ok(username@),
{
    let n = chars_of(username).len();
    if n == 0 || n > 20 {
        false
    } else {
        validate_legal_string(
            username,
            "abcdefghijklmnopqrstuvwxyzABCDEFGHIJKLMNOPQRSTUVWXYZ01234567890_",
        )
    }
}

pub fn validate_workername(workername: &str) -> (r: bool)
    ensures
        r == workername_ok(workername@),
{
    let n = chars_of(workername).len();
    if n == 0 || n > 18 {
        false
    } else {
        validate_legal_string(
            workername,
            "abcdefghijklmnopqrstuvwxyzABCDEFGHIJKLMNOPQRSTUVWXYZ01234567890_.-",
        )
    }
}

/// Checks the login of `login_params`; where it is accepted and names no
/// workername, the default one is appended. A rejected login is left as it
/// was, and nothing but the login ever changes.
pub fn validate_fullname(login_params: &mut LoginParams) -> (r: bool)
    ensures
        r == login_ok(old(login_params).login@),
        final(login_params).pass == old(login_params).pass,
        final(login_params).agent == old(login_params).agent,
        r ==> final(login_params).login@ == normalized_login(old(login_params).login@),
        !r ==> final(login_params).login@ == old(login_params).login@,
{
    let login = chars_of(login_params.login.as_str());
    let splits = split_chars(&login, '.');
    proof {
        lemma_views(splits@);
        crate::text::lemma_split_nonempty(login@, '.');
    }
    let username = string_of(&splits[0]);
    let need_reconcat = splits.len() < 2;
    let workername = if need_reconcat {
        string_of(&chars_of("__default__"))
    } else {
        string_of(&splits[1])
    };
    if validate_username(username.as_str()) && validate_workername(workername.as_str()) {
        if need_reconcat {
            let mut full = login;
            full.push('.');
            let dflt = chars_of("__default__");
            let mut i: usize = 0;
            while i < dflt.len()
                invariant
                    i <= dflt@.len(),
                    dflt@ == default_workername(),
                    full@ == login@ + seq!['.'] + dflt@.take(i as int),
                decreases dflt@.len() - i,
            {
                full.push(dflt[i]);
                i = i + 1;
                assert(full@ =~= login@ + seq!['.'] + dflt@.take(i as int));
            }
            assert(dflt@.take(dflt@.len() as int) =~= dflt@);
            login_params.login = string_of(&full);
        }
        true
    } else {
        false
    }
}

/// A login made of a username, a dot and a workername, neither holding a
/// dot, is accepted exactly when both names are valid, and is stored as
/// given. A login with no dot is accepted exactly when it is a valid username
/// (the default workername being valid), and is stored with the default
/// workername appended.
pub proof fn lemma_login_pairs(username: Seq<char>, workername: Seq<char>)
    requires
        !username.contains('.'),
        !workername.contains('.'),
    ensures
        login_ok(username + seq!['.'] + workername) == (username_ok(username) && workername_ok(
            workername,
        )),
        normalized_login(username + seq!['.'] + workername) == username + seq!['.'] + workername,
        login_ok(username) == username_ok(username),
        normalized_login(username) == username + seq!['.'] + default_workername(),
{
    lemma_split_join(username, workername, '.');
    lemma_split_no_sep(username, '.');
    lemma_split_no_sep(workername, '.');
    let login = username + seq!['.'] + workername;
    assert(split(login, '.') =~= seq![username, workername]);
    assert(workername_ok(default_workername())) by {
        reveal_strlit("__default__");
        reveal_strlit("abcdefghijklmnopqrstuvwxyzABCDEFGHIJKLMNOPQRSTUVWXYZ01234567890_.-");
        let d = default_workername();
        let cs = workername_charset();
        assert forall|i: int| 0 <= i < d.len() implies d[i] == ' ' || cs.contains(#[trigger] d[i]) by {
            assert(d[i] == '_' || d[i] == 'd' || d[i] == 'e' || d[i] == 'f' || d[i] == 'a'
                || d[i] == 'u' || d[i] == 'l' || d[i] == 't');
            if d[i] == '_' {
                assert(cs[63] == '_');
            } else if d[i] == 'd' {
                assert(cs[3] == 'd');
            } else if d[i] == 'e' {
                assert(cs[4] == 'e');
            } else if d[i] == 'f' {
                assert(cs[5] == 'f');
            } else if d[i] == 'a' {
                assert(cs[0] == 'a');
            } else if d[i] == 'u' {
                assert(cs[20] == 'u');
            } else if d[i] == 'l' {
                assert(cs[11] == 'l');
            } else {
                assert(cs[19] == 't');
            }
        }
    }
}

} // verus!

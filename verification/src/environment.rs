//! Environment variables in settings files and file paths: a snapshot of
//! the environment is a list of names and values, and references to
//! variables are replaced by their values.
use crate::error::{AppError, AppResult};
use crate::text::{chars_of, push_str, string_of};
use vstd::prelude::*;

verus! {

/// The value of `name` in the environment `env` (its first entry of that
/// name).
pub open spec fn env_value(env: Seq<(String, String)>, name: Seq<char>) -> Option<Seq<char>>
    decreases env.len(),
{
    if env.len() == 0 {
        None
    } else if env[0].0@ == name {
        Some(env[0].1@)
    } else {
        env_value(env.subrange(1, env.len() as int), name)
    }
}

/// The value of `name` in `env`, empty when it is not set.
pub open spec fn env_or_empty(env: Seq<(String, String)>, name: Seq<char>) -> Seq<char> {
    match env_value(env, name) {
        Some(v) => v,
        None => seq![],
    }
}

/// `s` with every occurrence of `pat`, from left to right and without
/// overlap, replaced by `rep` (as `str::replace` does; an empty pattern
/// matches before every character and at the end).
pub open spec fn replace_all(s: Seq<char>, pat: Seq<char>, rep: Seq<char>) -> Seq<char>
    decreases s.len(),
{
    if pat.len() == 0 {
        if s.len() == 0 {
            rep
        } else {
            rep + seq![s[0]] + replace_all(s.subrange(1, s.len() as int), pat, rep)
        }
    } else if s.len() < pat.len() {
        s
    } else if s.subrange(0, pat.len() as int) == pat {
        rep + replace_all(s.subrange(pat.len() as int, s.len() as int), pat, rep)
    } else {
        seq![s[0]] + replace_all(s.subrange(1, s.len() as int), pat, rep)
    }
}

/// The first position at or after `k` where `pat` occurs in `s`.
pub open spec fn first_match(s: Seq<char>, pat: Seq<char>, k: int) -> Option<int>
    decreases s.len() - k,
{
    if k < 0 || k + pat.len() > s.len() {
        None
    } else if pat.len() == 0 || s.subrange(k, k + pat.len()) == pat {
        Some(k)
    } else {
        first_match(s, pat, k + 1)
    }
}

/// Where `first_match` finds `pat`, it is there.
proof fn lemma_first_match(s: Seq<char>, pat: Seq<char>, k: int)
    ensures
        first_match(s, pat, k) matches Some(p) ==> k <= p && p + pat.len() <= s.len() && s.subrange(p, p + pat.len())
            == pat,
    decreases s.len() - k,
{
    if k < 0 || k + pat.len() > s.len() {
    } else if pat.len() == 0 || s.subrange(k, k + pat.len()) == pat {
        if pat.len() == 0 {
            assert(s.subrange(k, k) =~= pat);
        }
    } else {
        lemma_first_match(s, pat, k + 1);
    }
}

/// Appends the characters of `v` to `out`.
fn append_chars(out: &mut Vec<char>, v: &Vec<char>)
    ensures
        final(out)@ == old(out)@ + v@,
{
    let ghost start = out@;
    let mut i: usize = 0;
    while i < v.len()
        invariant
            i <= v@.len(),
            out@ == start + v@.subrange(0, i as int),
        decreases v@.len() - i,
    {
        out.push(v[i]);
        i = i + 1;
        assert(out@ =~= start + v@.subrange(0, i as int));
    }
    assert(v@.subrange(0, v@.len() as int) =~= v@);
}

/// The characters `s[a..b]`.
fn slice_chars(s: &Vec<char>, a: usize, b: usize) -> (r: Vec<char>)
    requires
        a <= b <= s@.len(),
    ensures
        r@ == s@.subrange(a as int, b as int),
{
    let mut r: Vec<char> = Vec::new();
    let mut i = a;
    while i < b
        invariant
            a <= i <= b <= s@.len(),
            r@ == s@.subrange(a as int, i as int),
        decreases b - i,
    {
        r.push(s[i]);
        i = i + 1;
        assert(r@ =~= s@.subrange(a as int, i as int));
    }
    r
}

/// Whether `pat` occurs in `s` at position `i`.
fn matches_at(s: &Vec<char>, i: usize, pat: &Vec<char>) -> (b: bool)
    requires
        i <= s@.len(),
    ensures
        b == (i + pat@.len() <= s@.len() && s@.subrange(i as int, i + pat@.len()) == pat@),
{
    let n = s.len();
    if pat.len() > n - i {
        return false;
    }
    let mut k: usize = 0;
    while k < pat.len()
        invariant
            n == s@.len(),
            k <= pat@.len(),
            i <= s@.len(),
            i + pat@.len() <= s@.len(),
            forall|j: int| 0 <= j < k ==> s@[i + j] == pat@[j],
        decreases pat@.len() - k,
    {
        assert(i + k < s@.len());
        if s[i + k] != pat[k] {
            assert(s@.subrange(i as int, i + pat@.len())[k as int] != pat@[k as int]);
            return false;
        }
        k = k + 1;
    }
    assert(s@.subrange(i as int, i + pat@.len()) =~= pat@);
    true
}

/// Whether the texts `a` and `b` are the same.
fn same_chars(a: &Vec<char>, b: &Vec<char>) -> (r: bool)
    ensures
        r == (a@ == b@),
{
    if a.len() != b.len() {
        return false;
    }
    let r = matches_at(a, 0, b);
    assert(a@.subrange(0, b@.len() as int) =~= a@);
    r
}

/// The first position at or after `k` where `pat` occurs in `s`.
fn find_from(s: &Vec<char>, pat: &Vec<char>, k: usize) -> (r: Option<usize>)
    requires
        k <= s@.len(),
    ensures
        r matches Some(p) ==> first_match(s@, pat@, k as int) == Some(p as int),
        r is None ==> first_match(s@, pat@, k as int) is None,
{
    let mut p = k;
    while p <= s.len()
        invariant
            k <= p,
            first_match(s@, pat@, k as int) == first_match(s@, pat@, p as int),
        decreases s@.len() + 1 - p,
    {
        if pat.len() > s.len() - p {
            return None;
        }
        if pat.len() == 0 || matches_at(s, p, pat) {
            return Some(p);
        }
        p = p + 1;
    }
    None
}

/// The value of `name` in `env`.
pub fn lookup_env(env: &Vec<(String, String)>, name: &Vec<char>) -> (r: Option<Vec<char>>)
    ensures
        match env_value(env@, name@) {
            Some(v) => r matches Some(x) && x@ == v,
            None => r is None,
        },
{
    let mut i: usize = 0;
    assert(env@.subrange(0, env@.len() as int) =~= env@);
    while i < env.len()
        invariant
            i <= env@.len(),
            env_value(env@, name@) == env_value(env@.subrange(i as int, env@.len() as int), name@),
        decreases env@.len() - i,
    {
        let key = chars_of(env[i].0.as_str());
        let ghost rest = env@.subrange(i as int, env@.len() as int);
        assert(rest.subrange(1, rest.len() as int) =~= env@.subrange(i + 1, env@.len() as int));
        if same_chars(&key, name) {
            return Some(chars_of(env[i].1.as_str()));
        }
        i = i + 1;
    }
    None
}

/// `s` with every occurrence of `pat` replaced by `rep` (see
/// `replace_all`).
pub fn replace_chars(s: &Vec<char>, pat: &Vec<char>, rep: &Vec<char>) -> (r: Vec<char>)
    ensures
        r@ == replace_all(s@, pat@, rep@),
{
    let mut out: Vec<char> = Vec::new();
    let mut i: usize = 0;
    assert(s@.subrange(0, s@.len() as int) =~= s@);
    assert(out@ + replace_all(s@, pat@, rep@) =~= replace_all(s@, pat@, rep@));
    while i < s.len()
        invariant
            i <= s@.len(),
            out@ + replace_all(s@.subrange(i as int, s@.len() as int), pat@, rep@) == replace_all(s@, pat@, rep@),
        decreases s@.len() - i,
    {
        let ghost t = s@.subrange(i as int, s@.len() as int);
        let ghost before = out@;
        if pat.len() == 0 {
            append_chars(&mut out, rep);
            out.push(s[i]);
            proof {
                assert(t.subrange(1, t.len() as int) =~= s@.subrange(i + 1, s@.len() as int));
                assert(out@ + replace_all(s@.subrange(i + 1, s@.len() as int), pat@, rep@) =~= before
                    + replace_all(t, pat@, rep@));
            }
            i = i + 1;
        } else if matches_at(s, i, pat) {
            append_chars(&mut out, rep);
            proof {
                assert(t.subrange(0, pat@.len() as int) =~= s@.subrange(i as int, i + pat@.len()));
                assert(t.subrange(pat@.len() as int, t.len() as int) =~= s@.subrange(
                    i + pat@.len(),
                    s@.len() as int,
                ));
                assert(out@ + replace_all(s@.subrange(i + pat@.len(), s@.len() as int), pat@, rep@) =~= before
                    + replace_all(t, pat@, rep@));
            }
            i = i + pat.len();
        } else {
            out.push(s[i]);
            proof {
                let u = s@.subrange(i + 1, s@.len() as int);
                assert(t.subrange(1, t.len() as int) =~= u);
                if t.len() < pat@.len() {
                    assert(u.len() < pat@.len());
                    assert(replace_all(u, pat@, rep@) == u);
                    assert(seq![t[0]] + u =~= t);
                } else {
                    assert(t.subrange(0, pat@.len() as int) =~= s@.subrange(i as int, i + pat@.len()));
                }
                assert(out@ + replace_all(u, pat@, rep@) =~= before + replace_all(t, pat@, rep@));
            }
            i = i + 1;
        }
    }
    proof {
        assert(s@.subrange(i as int, s@.len() as int) =~= Seq::<char>::empty());
    }
    if pat.len() == 0 {
        append_chars(&mut out, rep);
    }
    proof {
        assert(out@ =~= replace_all(s@, pat@, rep@));
    }
    out
}

/// What `regex::Regex::new(pattern)` and then `captures_iter(haystack)`
/// find: for each match, left to right, the text of the whole match and
/// that of the first group; none when the pattern does not compile.
pub uninterp spec fn regex_captures(pattern: Seq<char>, haystack: Seq<char>) -> Option<Seq<(Seq<char>, Seq<char>)>>;

/// The placeholders that the pattern `\$\{([^}]+)\}` finds in `s` from
/// position `i` on, left to right and without overlap: each is a `${`,
/// one or more characters other than `}`, and the `}` that closes them;
/// its group is the text between the braces. The search goes on after the
/// closing brace.
pub open spec fn placeholders_from(s: Seq<char>, i: int) -> Seq<(Seq<char>, Seq<char>)>
    decreases s.len() - i,
{
    if i < 0 || i + 1 >= s.len() {
        seq![]
    } else if s[i] == '$' && s[i + 1] == '{' {
        match first_match(s, seq!['}'], i + 2) {
            Some(e) => if i + 2 < e < s.len() {
                seq![(s.subrange(i, e + 1), s.subrange(i + 2, e))] + placeholders_from(s, e + 1)
            } else {
                placeholders_from(s, i + 1)
            },
            None => placeholders_from(s, i + 1),
        }
    } else {
        placeholders_from(s, i + 1)
    }
}

/// The pattern of a `${NAME}` placeholder, with the name as its group.
pub open spec fn placeholder_pattern() -> Seq<char> {
    "\\$\\{([^}]+)\\}"@
}

/// The texts of a list of matches.
pub open spec fn match_texts(v: Seq<(String, String)>) -> Seq<(Seq<char>, Seq<char>)> {
    v.map_values(|m: (String, String)| (m.0@, m.1@))
}

/// Compiles `pattern` with `regex::Regex::new` and lists what
/// `captures_iter` finds in `haystack`: the whole match and the first
/// group of each (an empty text where the group took no part). For any
/// pattern the result is what the regex crate finds (`regex_captures`);
/// for the placeholder pattern, which is valid and small, it compiles and
/// its matches are the leftmost, non-overlapping ones that
/// `placeholders_from` describes.
#[verifier::external_body]
fn regex_first_groups(pattern: &str, haystack: &str) -> (r: Option<Vec<(String, String)>>)
    ensures
        match r {
            Some(v) => regex_captures(pattern@, haystack@) == Some(match_texts(v@)) && (pattern@ == placeholder_pattern()
                ==> match_texts(v@) == placeholders_from(haystack@, 0)),
            None => regex_captures(pattern@, haystack@) is None && pattern@ != placeholder_pattern(),
        },
{
    let re = ::regex::Regex::new(pattern).ok()?;
    Some(
        re.captures_iter(haystack).map(
            |c| (
                c.get(0).map_or(String::new(), |m| m.as_str().to_string()),
                c.get(1).map_or(String::new(), |m| m.as_str().to_string()),
            ),
        ).collect(),
    )
}

/// `content` with the placeholders of `matches`, in order, replaced by the
/// values of their variables: each whole match is replaced everywhere in
/// the text obtained so far; none when a variable is not set.
pub open spec fn substituted(
    content: Seq<char>,
    matches: Seq<(Seq<char>, Seq<char>)>,
    env: Seq<(String, String)>,
) -> Option<Seq<char>>
    decreases matches.len(),
{
    if matches.len() == 0 {
        Some(content)
    } else {
        match substituted(content, matches.drop_last(), env) {
            None => None,
            Some(s) => match env_value(env, matches.last().1) {
                None => None,
                Some(v) => Some(replace_all(s, matches.last().0, v)),
            },
        }
    }
}

/// `content` with each placeholder of `matches` (its whole text and the
/// variable's name) replaced by the variable's value in `env`; an error
/// naming the first variable that is not set.
pub fn substitute_placeholders(
    content: &str,
    matches: &Vec<(String, String)>,
    env: &Vec<(String, String)>,
) -> (r: AppResult<String>)
    ensures
        match substituted(content@, match_texts(matches@), env@) {
            Some(t) => r matches Ok(s) && s@ == t,
            None => r is Err,
        },
{
    let ghost m = match_texts(matches@);
    let mut s = chars_of(content);
    let mut k: usize = 0;
    while k < matches.len()
        invariant
            k <= matches@.len(),
            m == match_texts(matches@),
            substituted(content@, m.subrange(0, k as int), env@) == Some(s@),
        decreases matches@.len() - k,
    {
        assert(m.subrange(0, k + 1).drop_last() =~= m.subrange(0, k as int));
        let name = chars_of(matches[k].1.as_str());
        match lookup_env(env, &name) {
            None => {
                proof {
                    lemma_substituted_none(content@, m, env@, k as int + 1);
                }
                let mut e = String::new();
                push_str(&mut e, "Environment variable '");
                push_str(&mut e, matches[k].1.as_str());
                push_str(&mut e, "' not found");
                return Err(AppError::new(e));
            },
            Some(value) => {
                let pat = chars_of(matches[k].0.as_str());
                s = replace_chars(&s, &pat, &value);
            },
        }
        k = k + 1;
    }
    assert(m.subrange(0, m.len() as int) =~= m);
    Ok(string_of(&s))
}

/// Once a placeholder's variable is missing, the substitution fails
/// whatever follows.
proof fn lemma_substituted_none(
    content: Seq<char>,
    m: Seq<(Seq<char>, Seq<char>)>,
    env: Seq<(String, String)>,
    k: int,
)
    requires
        0 <= k <= m.len(),
        substituted(content, m.subrange(0, k), env) is None,
    ensures
        substituted(content, m, env) is None,
    decreases m.len() - k,
{
    if k < m.len() {
        assert(m.subrange(0, k + 1).drop_last() =~= m.subrange(0, k));
        lemma_substituted_none(content, m, env, k + 1);
    } else {
        assert(m.subrange(0, k) =~= m);
    }
}

/// `content` with each `${NAME}` placeholder (see `placeholders_from`)
/// replaced by the value of the variable `NAME` in `env`; an error when
/// one is not set.
pub fn replace_env_vars(content: &str, env: &Vec<(String, String)>) -> (r: AppResult<String>)
    ensures
        match substituted(content@, placeholders_from(content@, 0), env@) {
            Some(t) => r matches Ok(s) && s@ == t,
            None => r is Err,
        },
{
    let matches = match regex_first_groups("\\$\\{([^}]+)\\}", content) {
        Some(m) => m,
        None => {
            let mut e = String::new();
            push_str(&mut e, "Failed to compile regex pattern");
            return Err(AppError::new(e));
        },
    };
    substitute_placeholders(content, &matches, env)
}

/// Whether `c` may be part of a `$NAME` reference: an ASCII letter, digit
/// or `_`.
pub open spec fn is_var_char(c: char) -> bool {
    ('a' <= c <= 'z') || ('A' <= c <= 'Z') || ('0' <= c <= '9') || c == '_'
}

/// End of the run of name characters of `s` from `k`.
pub open spec fn var_end(s: Seq<char>, k: int) -> int
    decreases s.len() - k,
{
    if 0 <= k < s.len() && is_var_char(s[k]) {
        var_end(s, k + 1)
    } else {
        k
    }
}

/// One expansion of the first `${NAME}`, if there is one with a closing
/// brace.
pub open spec fn brace_step(s: Seq<char>, env: Seq<(String, String)>) -> Option<Seq<char>> {
    match first_match(s, seq!['$', '{'], 0) {
        None => None,
        Some(st) => match first_match(s, seq!['}'], st + 2) {
            None => None,
            Some(en) => Some(
                s.subrange(0, st) + env_or_empty(env, s.subrange(st + 2, en)) + s.subrange(en + 1, s.len() as int),
            ),
        },
    }
}

/// One expansion of the first `$NAME`, if the first `$` starts one.
pub open spec fn dollar_step(s: Seq<char>, env: Seq<(String, String)>) -> Option<Seq<char>> {
    match first_match(s, seq!['$'], 0) {
        None => None,
        Some(st) => if st + 1 >= s.len() || var_end(s, st + 1) == st + 1 {
            None
        } else {
            Some(
                s.subrange(0, st) + env_or_empty(env, s.subrange(st + 1, var_end(s, st + 1))) + s.subrange(
                    var_end(s, st + 1),
                    s.len() as int,
                ),
            )
        },
    }
}

/// `s` after expansion steps (of `${NAME}` when `braces`, else of `$NAME`)
/// until none applies, at most `fuel` of them.
pub open spec fn expand_steps(braces: bool, s: Seq<char>, env: Seq<(String, String)>, fuel: nat) -> Seq<char>
    decreases fuel,
{
    if fuel == 0 {
        s
    } else {
        match (if braces {
            brace_step(s, env)
        } else {
            dollar_step(s, env)
        }) {
            None => s,
            Some(t) => expand_steps(braces, t, env, (fuel - 1) as nat),
        }
    }
}

/// The path `path` with its variables expanded: first every `${NAME}`,
/// then every `$NAME`, each time the first one left, until none is left
/// (a variable that is not set stands for nothing); a value that brings
/// back a reference is expanded again, at most `u64::MAX` times.
pub open spec fn expanded_path(path: Seq<char>, env: Seq<(String, String)>) -> Seq<char> {
    expand_steps(false, expand_steps(true, path, env, u64::MAX as nat), env, u64::MAX as nat)
}

/// The value of `name`, empty when it is not set.
fn value_or_empty(env: &Vec<(String, String)>, name: &Vec<char>) -> (r: Vec<char>)
    ensures
        r@ == env_or_empty(env@, name@),
{
    match lookup_env(env, name) {
        Some(v) => v,
        None => Vec::new(),
    }
}

/// `s[..a] + v + s[b..]`.
fn splice_chars(s: &Vec<char>, a: usize, b: usize, v: &Vec<char>) -> (r: Vec<char>)
    requires
        a <= b <= s@.len(),
    ensures
        r@ == s@.subrange(0, a as int) + v@ + s@.subrange(b as int, s@.len() as int),
{
    let mut r = slice_chars(s, 0, a);
    append_chars(&mut r, v);
    let tail = slice_chars(s, b, s.len());
    append_chars(&mut r, &tail);
    r
}

/// One expansion step: of the first `${NAME}` when `braces`, else of the
/// first `$NAME`.
fn expand_step(braces: bool, s: &Vec<char>, env: &Vec<(String, String)>) -> (r: Option<Vec<char>>)
    ensures
        match (if braces {
            brace_step(s@, env@)
        } else {
            dollar_step(s@, env@)
        }) {
            Some(t) => r matches Some(x) && x@ == t,
            None => r is None,
        },
{
    let n = s.len();
    if braces {
        let open = vec!['$', '{'];
        let close = vec!['}'];
        assert(open@ =~= seq!['$', '{']);
        assert(close@ =~= seq!['}']);
        let st = match find_from(s, &open, 0) {
            Some(st) => st,
            None => return None,
        };
        proof {
            lemma_first_match(s@, open@, 0);
        }
        let en = match find_from(s, &close, st + 2) {
            Some(en) => en,
            None => return None,
        };
        proof {
            lemma_first_match(s@, close@, st + 2);
        }
        let name = slice_chars(s, st + 2, en);
        let value = value_or_empty(env, &name);
        Some(splice_chars(s, st, en + 1, &value))
    } else {
        let dollar = vec!['$'];
        assert(dollar@ =~= seq!['$']);
        let st = match find_from(s, &dollar, 0) {
            Some(st) => st,
            None => return None,
        };
        proof {
            lemma_first_match(s@, dollar@, 0);
        }
        if st + 1 >= s.len() {
            return None;
        }
        let mut en = st + 1;
        while en < s.len() && (('a' <= s[en] && s[en] <= 'z') || ('A' <= s[en] && s[en] <= 'Z') || ('0' <= s[en]
            && s[en] <= '9') || s[en] == '_')
            invariant
                st + 1 <= en <= s@.len(),
                var_end(s@, st + 1) == var_end(s@, en as int),
            decreases s@.len() - en,
        {
            en = en + 1;
        }
        if en == st + 1 {
            return None;
        }
        let name = slice_chars(s, st + 1, en);
        let value = value_or_empty(env, &name);
        Some(splice_chars(s, st, en, &value))
    }
}

/// Repeats expansion steps until none applies, at most `u64::MAX` times.
fn expand_all(braces: bool, s: Vec<char>, env: &Vec<(String, String)>) -> (r: Vec<char>)
    ensures
        r@ == expand_steps(braces, s@, env@, u64::MAX as nat),
{
    let mut cur = s;
    let mut fuel: u64 = u64::MAX;
    while fuel > 0
        invariant
            expand_steps(braces, s@, env@, u64::MAX as nat) == expand_steps(braces, cur@, env@, fuel as nat),
        decreases fuel,
    {
        match expand_step(braces, &cur, env) {
            None => {
                return cur;
            },
            Some(t) => {
                cur = t;
            },
        }
        fuel = fuel - 1;
    }
    cur
}

/// `path` with its environment variables expanded (see `expanded_path`).
pub fn expand_env_vars(path: &str, env: &Vec<(String, String)>) -> (r: String)
    ensures
        r@ == expanded_path(path@, env@),
{
    let first = expand_all(true, chars_of(path), env);
    let second = expand_all(false, first, env);
    string_of(&second)
}

/// Where `s` holds no `ch` from `k` on, nothing is found.
proof fn lemma_no_match(s: Seq<char>, pat: Seq<char>, k: int, ch: char)
    requires
        pat.len() > 0,
        pat[0] == ch,
        forall|i: int| 0 <= i < s.len() ==> s[i] != ch,
    ensures
        first_match(s, pat, k) is None,
    decreases s.len() - k,
{
    if !(k < 0 || k + pat.len() > s.len()) {
        assert(s.subrange(k, k + pat.len())[0] == s[k]);
        lemma_no_match(s, pat, k + 1, ch);
    }
}

/// A path without `$` is left as it is.
pub proof fn law_plain_path_unchanged(path: Seq<char>, env: Seq<(String, String)>)
    requires
        forall|i: int| 0 <= i < path.len() ==> path[i] != '$',
    ensures
        expanded_path(path, env) == path,
{
    lemma_no_match(path, seq!['$', '{'], 0, '$');
    lemma_no_match(path, seq!['$'], 0, '$');
    assert(brace_step(path, env) is None);
    assert(expand_steps(true, path, env, u64::MAX as nat) == path);
    assert(dollar_step(path, env) is None);
}

/// Where `pat` occurs nowhere from `k` on, nothing is found.
proof fn lemma_first_match_none(s: Seq<char>, pat: Seq<char>, k: int)
    requires
        pat.len() > 0,
        forall|i: int| k <= i && i + pat.len() <= s.len() ==> #[trigger] s.subrange(i, i + pat.len()) != pat,
    ensures
        first_match(s, pat, k) is None,
    decreases s.len() - k,
{
    if !(k < 0 || k + pat.len() > s.len()) {
        lemma_first_match_none(s, pat, k + 1);
    }
}

/// Where `pat` first occurs at `i`, from `k` on, it is found there.
proof fn lemma_first_match_at(s: Seq<char>, pat: Seq<char>, k: int, i: int)
    requires
        pat.len() > 0,
        0 <= k <= i,
        i + pat.len() <= s.len(),
        s.subrange(i, i + pat.len()) == pat,
        forall|j: int| k <= j < i ==> #[trigger] s.subrange(j, j + pat.len()) != pat,
    ensures
        first_match(s, pat, k) == Some(i),
    decreases i - k,
{
    if k < i {
        lemma_first_match_at(s, pat, k + 1, i);
    }
}

/// A run of name characters from `k` to `e`, not followed by one, ends at
/// `e`.
proof fn lemma_var_end_at(s: Seq<char>, k: int, e: int)
    requires
        0 <= k <= e <= s.len(),
        forall|i: int| k <= i < e ==> ('a' <= #[trigger] s[i] <= 'z') || ('A' <= s[i] <= 'Z') || ('0' <= s[i] <= '9') || s[i]
            == '_',
        e < s.len() ==> !(('a' <= s[e] <= 'z') || ('A' <= s[e] <= 'Z') || ('0' <= s[e] <= '9') || s[e] == '_'),
    ensures
        var_end(s, k) == e,
    decreases e - k,
{
    if k < e {
        lemma_var_end_at(s, k + 1, e);
    }
}

/// A `$NAME` reference takes as its name the longest run of ASCII letters,
/// digits and underscores after the `$`: in a path with one `$`, followed
/// by such a name and then by anything but a name character, the
/// reference is replaced by the variable's value (nothing when it is not
/// set) and the rest is kept.
pub proof fn law_dollar_reference_takes_longest_name(
    prefix: Seq<char>,
    name: Seq<char>,
    rest: Seq<char>,
    env: Seq<(String, String)>,
)
    requires
        forall|i: int| 0 <= i < prefix.len() ==> prefix[i] != '$',
        name.len() > 0,
        forall|i: int|
            0 <= i < name.len() ==> ('a' <= #[trigger] name[i] <= 'z') || ('A' <= name[i] <= 'Z') || ('0' <= name[i] <= '9')
                || name[i] == '_',
        forall|i: int| 0 <= i < rest.len() ==> rest[i] != '$',
        rest.len() > 0 ==> !(('a' <= rest[0] <= 'z') || ('A' <= rest[0] <= 'Z') || ('0' <= rest[0] <= '9') || rest[0]
            == '_'),
        forall|i: int| 0 <= i < env_or_empty(env, name).len() ==> env_or_empty(env, name)[i] != '$',
    ensures
        expanded_path(prefix + seq!['$'] + name + rest, env) == prefix + env_or_empty(env, name) + rest,
{
    let s = prefix + seq!['$'] + name + rest;
    let d = prefix.len() as int;
    let e = d + 1 + name.len();
    let v = env_or_empty(env, name);
    let t = prefix + v + rest;
    assert forall|i: int| 0 <= i < s.len() && #[trigger] s[i] == '$' implies i == d by {
        if i < d {
            assert(s[i] == prefix[i]);
        } else if i > d && i < e {
            assert(s[i] == name[i - d - 1]);
        } else if i >= e {
            assert(s[i] == rest[i - e]);
        }
    }
    assert(s[d] == '$');
    assert(s[d + 1] == name[0]);
    assert forall|i: int| 0 <= i && i + 2 <= s.len() implies #[trigger] s.subrange(i, i + 2) != seq!['$', '{'] by {
        if s.subrange(i, i + 2) == seq!['$', '{'] {
            assert(s.subrange(i, i + 2)[0] == s[i]);
            assert(s.subrange(i, i + 2)[1] == s[i + 1]);
        }
    }
    lemma_first_match_none(s, seq!['$', '{'], 0);
    assert(brace_step(s, env) is None);
    assert(expand_steps(true, s, env, u64::MAX as nat) == s);
    assert forall|j: int| 0 <= j < d implies #[trigger] s.subrange(j, j + 1) != seq!['$'] by {
        assert(s.subrange(j, j + 1)[0] == s[j]);
    }
    assert(s.subrange(d, d + 1) =~= seq!['$']);
    lemma_first_match_at(s, seq!['$'], 0, d);
    assert forall|i: int| d + 1 <= i < e implies ('a' <= #[trigger] s[i] <= 'z') || ('A' <= s[i] <= 'Z') || ('0' <= s[i]
        <= '9') || s[i] == '_' by {
        assert(s[i] == name[i - d - 1]);
    }
    if e < s.len() {
        assert(s[e] == rest[0]);
    }
    lemma_var_end_at(s, d + 1, e);
    assert(s.subrange(0, d) =~= prefix);
    assert(s.subrange(d + 1, e) =~= name);
    assert(s.subrange(e, s.len() as int) =~= rest);
    assert(dollar_step(s, env) == Some(t));
    assert forall|i: int| 0 <= i < t.len() implies #[trigger] t[i] != '$' by {
        if i < d {
            assert(t[i] == prefix[i]);
        } else if i < d + v.len() {
            assert(t[i] == v[i - d]);
        } else {
            assert(t[i] == rest[i - d - v.len()]);
        }
    }
    lemma_no_match(t, seq!['$'], 0, '$');
    assert(dollar_step(t, env) is None);
    assert(expand_steps(false, t, env, (u64::MAX - 1) as nat) == t);
    assert(expand_steps(false, s, env, u64::MAX as nat) == expand_steps(false, t, env, (u64::MAX - 1) as nat));
}

/// A `${NAME}` reference takes everything up to the first `}` after it as
/// the name: in a path with one `$`, starting such a reference, the
/// reference is replaced by the variable's value (nothing when it is not
/// set) and the rest is kept.
pub proof fn law_braced_reference_ends_at_first_brace(
    prefix: Seq<char>,
    name: Seq<char>,
    rest: Seq<char>,
    env: Seq<(String, String)>,
)
    requires
        forall|i: int| 0 <= i < prefix.len() ==> prefix[i] != '$',
        forall|i: int| 0 <= i < name.len() ==> name[i] != '}' && name[i] != '$',
        forall|i: int| 0 <= i < rest.len() ==> rest[i] != '$',
        forall|i: int| 0 <= i < env_or_empty(env, name).len() ==> env_or_empty(env, name)[i] != '$',
    ensures
        expanded_path(prefix + seq!['$', '{'] + name + seq!['}'] + rest, env) == prefix + env_or_empty(env, name) + rest,
{
    let s = prefix + seq!['$', '{'] + name + seq!['}'] + rest;
    let d = prefix.len() as int;
    let c = d + 2 + name.len();
    let v = env_or_empty(env, name);
    let t = prefix + v + rest;
    assert(s[d] == '$' && s[d + 1] == '{' && s[c] == '}');
    assert forall|j: int| 0 <= j < d implies #[trigger] s.subrange(j, j + 2) != seq!['$', '{'] by {
        assert(s.subrange(j, j + 2)[0] == s[j]);
        assert(s[j] == prefix[j]);
    }
    assert(s.subrange(d, d + 2) =~= seq!['$', '{']);
    lemma_first_match_at(s, seq!['$', '{'], 0, d);
    assert forall|j: int| d + 2 <= j < c implies #[trigger] s.subrange(j, j + 1) != seq!['}'] by {
        assert(s.subrange(j, j + 1)[0] == s[j]);
        assert(s[j] == name[j - d - 2]);
    }
    assert(s.subrange(c, c + 1) =~= seq!['}']);
    lemma_first_match_at(s, seq!['}'], d + 2, c);
    assert(s.subrange(0, d) =~= prefix);
    assert(s.subrange(d + 2, c) =~= name);
    assert(s.subrange(c + 1, s.len() as int) =~= rest);
    assert(brace_step(s, env) == Some(t));
    assert forall|i: int| 0 <= i < t.len() implies #[trigger] t[i] != '$' by {
        if i < d {
            assert(t[i] == prefix[i]);
        } else if i < d + v.len() {
            assert(t[i] == v[i - d]);
        } else {
            assert(t[i] == rest[i - d - v.len()]);
        }
    }
    lemma_no_match(t, seq!['$', '{'], 0, '$');
    lemma_no_match(t, seq!['$'], 0, '$');
    assert(brace_step(t, env) is None);
    assert(dollar_step(t, env) is None);
    assert(expand_steps(true, t, env, (u64::MAX - 1) as nat) == t);
    assert(expand_steps(true, s, env, u64::MAX as nat) == t);
    assert(expand_steps(false, t, env, u64::MAX as nat) == t);
}

} // verus!

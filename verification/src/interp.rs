//! Interpolation engine: scans a value for `${NAME}` placeholders and
//! substitutes values from an injected environment. A placeholder name
//! starts with a letter followed by at least one more letter, digit,
//! underscore or dot. A name that is unset in the environment, or set
//! to the empty string, is left unreplaced; a set, non-empty value
//! replaces every occurrence of the exact placeholder text.

use vstd::prelude::*;

use crate::text::str_eq;

verus! {

/// A read-only snapshot of environment variables, handed to the parser
/// by the caller; names are unique.
pub struct EnvVars {
    pub entries: Vec<(String, String)>,
}

/// Map described by a sequence of name/value pairs.
pub open spec fn env_map(s: Seq<(String, String)>) -> Map<Seq<char>, Seq<char>>
    decreases s.len(),
{
    if s.len() == 0 {
        Map::empty()
    } else {
        env_map(s.drop_last()).insert(s.last().0@, s.last().1@)
    }
}

/// The variable names are pairwise distinct.
pub open spec fn distinct_env_names(s: Seq<(String, String)>) -> bool {
    forall|i: int, j: int| 0 <= i < j < s.len() ==> s[i].0@ != s[j].0@
}

impl View for EnvVars {
    type V = Map<Seq<char>, Seq<char>>;

    closed spec fn view(&self) -> Map<Seq<char>, Seq<char>> {
        env_map(self.entries@)
    }
}

pub proof fn lemma_env_map_contains(s: Seq<(String, String)>, k: Seq<char>)
    ensures
        env_map(s).contains_key(k) <==> exists|i: int| 0 <= i < s.len() && s[i].0@ == k,
    decreases s.len(),
{
    if s.len() > 0 {
        lemma_env_map_contains(s.drop_last(), k);
        if s.last().0@ == k {
            assert(s[s.len() - 1].0@ == k);
        } else if env_map(s).contains_key(k) {
            let i = choose|i: int| 0 <= i < s.drop_last().len() && s.drop_last()[i].0@ == k;
            assert(s[i].0@ == k);
        } else {
            if exists|i: int| 0 <= i < s.len() && s[i].0@ == k {
                let i = choose|i: int| 0 <= i < s.len() && s[i].0@ == k;
                assert(s.drop_last()[i].0@ == k);
            }
        }
    }
}

pub proof fn lemma_env_map_value(s: Seq<(String, String)>, i: int)
    requires
        distinct_env_names(s),
        0 <= i < s.len(),
    ensures
        env_map(s).contains_key(s[i].0@),
        env_map(s)[s[i].0@] == s[i].1@,
    decreases s.len(),
{
    if i < s.len() - 1 {
        lemma_env_map_value(s.drop_last(), i);
        assert(s.drop_last()[i] == s[i]);
        assert(s[i].0@ != s.last().0@);
    }
}

pub proof fn lemma_env_map_update(s: Seq<(String, String)>, i: int, e: (String, String))
    requires
        distinct_env_names(s),
        0 <= i < s.len(),
        s[i].0@ == e.0@,
    ensures
        env_map(s.update(i, e)) == env_map(s).insert(e.0@, e.1@),
        distinct_env_names(s.update(i, e)),
    decreases s.len(),
{
    let t = s.update(i, e);
    assert(forall|a: int, b: int| 0 <= a < b < t.len() ==> t[a].0@ != t[b].0@);
    if i == s.len() - 1 {
        assert(t.drop_last() =~= s.drop_last());
        assert(t.last() == e);
        assert(env_map(t) =~= env_map(s).insert(e.0@, e.1@));
    } else {
        assert(t.drop_last() =~= s.drop_last().update(i, e));
        assert(s.drop_last()[i] == s[i]);
        lemma_env_map_update(s.drop_last(), i, e);
        assert(t.last() == s.last());
        assert(e.0@ != s.last().0@);
        assert(env_map(t) =~= env_map(s).insert(e.0@, e.1@));
    }
}

impl EnvVars {
    /// Well-formed: the names are pairwise distinct.
    pub closed spec fn wf(&self) -> bool {
        distinct_env_names(self.entries@)
    }

    /// Creates an empty environment.
    pub fn new() -> (r: Self)
        ensures
            r@ == Map::<Seq<char>, Seq<char>>::empty(),
            r.wf(),
    {
        EnvVars { entries: Vec::new() }
    }

    /// Defines `name`, replacing any earlier definition.
    pub fn put(&mut self, name: &str, value: &str)
        requires
            old(self).wf(),
        ensures
            final (self).wf(),
            final (self)@ == old(self)@.insert(name@, value@),
    {
        let n = self.entries.len();
        let mut i: usize = 0;
        while i < n
            invariant
                0 <= i <= n,
                old(self) == self,
                self.wf(),
                n == self.entries@.len(),
                forall|k: int| 0 <= k < i ==> self.entries@[k].0@ != name@,
            decreases n - i,
        {
            if str_eq(self.entries[i].0.as_str(), name) {
                let ghost before = self.entries@;
                self.entries.set(i, (String::from_str(name), String::from_str(value)));
                proof {
                    lemma_env_map_update(before, i as int, self.entries@[i as int]);
                }
                return ;
            }
            i = i + 1;
        }
        proof {
            lemma_env_map_contains(self.entries@, name@);
        }
        let ghost before = self.entries@;
        self.entries.push((String::from_str(name), String::from_str(value)));
        proof {
            assert(self.entries@.drop_last() =~= before);
            assert(distinct_env_names(self.entries@));
        }
    }

    /// The value of `name`, if defined.
    pub fn get(&self, name: &str) -> (r: Option<&String>)
        requires
            self.wf(),
        ensures
            match r {
                Some(v) => self@.contains_key(name@) && self@[name@] == v@,
                None => !self@.contains_key(name@),
            },
    {
        let n = self.entries.len();
        let mut i: usize = 0;
        while i < n
            invariant
                0 <= i <= n,
                self.wf(),
                n == self.entries@.len(),
                forall|k: int| 0 <= k < i ==> self.entries@[k].0@ != name@,
            decreases n - i,
        {
            if str_eq(self.entries[i].0.as_str(), name) {
                proof {
                    lemma_env_map_value(self.entries@, i as int);
                }
                return Some(&self.entries[i].1);
            }
            i = i + 1;
        }
        proof {
            lemma_env_map_contains(self.entries@, name@);
        }
        None
    }
}

/// First character a placeholder name may start with: a letter.
pub open spec fn is_alpha(c: char) -> bool {
    ('a' <= c && c <= 'z') || ('A' <= c && c <= 'Z')
}

/// Later characters of a placeholder name: letters, digits, underscore
/// and dot.
pub open spec fn is_name_char(c: char) -> bool {
    is_alpha(c) || ('0' <= c && c <= '9') || c == '_' || c == '.'
}

fn alpha_char(c: char) -> (r: bool)
    ensures
        r == is_alpha(c),
{
    (c >= 'a' && c <= 'z') || (c >= 'A' && c <= 'Z')
}

fn name_char(c: char) -> (r: bool)
    ensures
        r == is_name_char(c),
{
    alpha_char(c) || (c >= '0' && c <= '9') || c == '_' || c == '.'
}

/// Index of the first character at or after `j` that cannot be part of
/// a placeholder name, or `s.len()` if there is none.
pub open spec fn name_end(s: Seq<char>, j: int) -> int
    decreases s.len() - j,
{
    if j < 0 || j >= s.len() {
        s.len() as int
    } else if !is_name_char(s[j]) {
        j
    } else {
        name_end(s, j + 1)
    }
}

/// A placeholder `${NAME}` starts at position `i` of `s`: the `${`
/// marker, a letter, at least one more name character, then `}`.
pub open spec fn match_at(s: Seq<char>, i: int) -> bool {
    &&& 0 <= i
    &&& i + 2 < s.len()
    &&& s[i] == '$'
    &&& s[i + 1] == '{'
    &&& is_alpha(s[i + 2])
    &&& name_end(s, i + 3) > i + 3
    &&& name_end(s, i + 3) < s.len()
    &&& s[name_end(s, i + 3)] == '}'
}

/// Name of the placeholder starting at `i`.
pub open spec fn match_name(s: Seq<char>, i: int) -> Seq<char> {
    s.subrange(i + 2, name_end(s, i + 3))
}

/// Position just after the placeholder starting at `i`.
pub open spec fn match_end(s: Seq<char>, i: int) -> int {
    name_end(s, i + 3) + 1
}

/// Names of all placeholders found scanning left to right from `i`,
/// non-overlapping, leftmost first.
pub open spec fn scan_names(s: Seq<char>, i: int) -> Seq<Seq<char>>
    decreases s.len() - i,
{
    if i < 0 || i >= s.len() {
        Seq::empty()
    } else if match_at(s, i) {
        seq![match_name(s, i)].add(scan_names(s, match_end(s, i)))
    } else {
        scan_names(s, i + 1)
    }
}

/// The pattern `pat` occurs in `s` at position `i`.
pub open spec fn occurs_at(s: Seq<char>, pat: Seq<char>, i: int) -> bool {
    0 <= i && i + pat.len() <= s.len() && s.subrange(i, i + pat.len() as int) == pat
}

/// Position of the first occurrence of `pat` in `s` at or after `i`.
pub open spec fn first_occur(s: Seq<char>, pat: Seq<char>, i: int) -> Option<int>
    decreases s.len() - i,
{
    if pat.len() == 0 || i < 0 || i + pat.len() > s.len() {
        None
    } else if occurs_at(s, pat, i) {
        Some(i)
    } else {
        first_occur(s, pat, i + 1)
    }
}

pub proof fn lemma_first_occur(s: Seq<char>, pat: Seq<char>, i: int)
    requires
        0 <= i,
    ensures
        match first_occur(s, pat, i) {
            Some(f) => i <= f && pat.len() > 0 && f + pat.len() <= s.len() && occurs_at(s, pat, f),
            None => true,
        },
    decreases s.len() - i,
{
    if !(pat.len() == 0 || i < 0 || i + pat.len() > s.len()) && !occurs_at(s, pat, i) {
        lemma_first_occur(s, pat, i + 1);
    }
}

/// `s` with every non-overlapping occurrence of `pat`, leftmost first,
/// replaced by `rep`.
pub open spec fn replace_all_spec(s: Seq<char>, pat: Seq<char>, rep: Seq<char>) -> Seq<char>
    decreases s.len(),
    when pat.len() > 0
    via replace_all_spec_dec
{
    match first_occur(s, pat, 0) {
        None => s,
        Some(f) => s.subrange(0, f).add(rep).add(
            replace_all_spec(s.subrange(f + pat.len() as int, s.len() as int), pat, rep),
        ),
    }
}

#[via_fn]
proof fn replace_all_spec_dec(s: Seq<char>, pat: Seq<char>, rep: Seq<char>) {
    lemma_first_occur(s, pat, 0);
}

/// The exact text of the placeholder for `name`.
pub open spec fn pat_of(name: Seq<char>) -> Seq<char> {
    seq!['$', '{'].add(name).push('}')
}

/// One substitution step: replaces every occurrence of `${name}` when
/// the environment defines `name` as a non-empty value, else leaves
/// `s` unchanged.
pub open spec fn sub_one(s: Seq<char>, name: Seq<char>, env: Map<Seq<char>, Seq<char>>) -> Seq<
    char,
> {
    if env.contains_key(name) && env[name].len() > 0 {
        replace_all_spec(s, pat_of(name), env[name])
    } else {
        s
    }
}

/// Substitutions for all the given names, applied in order to the
/// evolving string.
pub open spec fn apply_subs(
    s: Seq<char>,
    names: Seq<Seq<char>>,
    env: Map<Seq<char>, Seq<char>>,
) -> Seq<char>
    decreases names.len(),
{
    if names.len() == 0 {
        s
    } else {
        apply_subs(sub_one(s, names[0], env), names.drop_first(), env)
    }
}

/// What interpolation of `s` yields: with resolution off the string is
/// unchanged; with it on, each placeholder found by one scan of `s` as
/// given is substituted in turn.
pub open spec fn resolve_spec(s: Seq<char>, env: Map<Seq<char>, Seq<char>>, resolve: bool) -> Seq<
    char,
> {
    if resolve {
        apply_subs(s, scan_names(s, 0), env)
    } else {
        s
    }
}

/// Whether `pat` occurs in `s` at position `i`.
fn occurs_at_exec(s: &str, pat: &str, i: usize) -> (r: bool)
    requires
        i + pat@.len() <= s@.len(),
        s@.len() <= usize::MAX,
    ensures
        r == occurs_at(s@, pat@, i as int),
{
    let pn = pat.unicode_len();
    let mut k: usize = 0;
    while k < pn
        invariant
            0 <= k <= pn,
            pn == pat@.len(),
            i + pn <= s@.len() <= usize::MAX,
            forall|t: int| 0 <= t < k ==> s@[i + t] == pat@[t],
        decreases pn - k,
    {
        if s.get_char(i + k) != pat.get_char(k) {
            proof {
                assert(s@.subrange(i as int, i + pat@.len() as int)[k as int] != pat@[k as int]);
            }
            return false;
        }
        k = k + 1;
    }
    proof {
        assert(s@.subrange(i as int, i + pat@.len() as int) =~= pat@);
    }
    true
}

/// Position of the first occurrence of `pat` in `s`, if any.
pub fn find_occurrence(s: &str, pat: &str) -> (r: Option<usize>)
    requires
        pat@.len() > 0,
    ensures
        match r {
            Some(f) => first_occur(s@, pat@, 0) == Some(f as int),
            None => first_occur(s@, pat@, 0) is None,
        },
{
    let n = s.unicode_len();
    let pn = pat.unicode_len();
    if pn > n {
        return None;
    }
    let mut i: usize = 0;
    while i <= n - pn
        invariant
            0 <= i,
            i <= n - pn + 1,
            pn <= n == s@.len(),
            pn == pat@.len() > 0,
            first_occur(s@, pat@, 0) == first_occur(s@, pat@, i as int),
        decreases n - i,
    {
        if occurs_at_exec(s, pat, i) {
            return Some(i);
        }
        i = i + 1;
    }
    None
}

/// Replaces every non-overlapping occurrence of `pat` in `s`, leftmost
/// first, by `rep`.
pub fn replace_all(s: &str, pat: &str, rep: &str) -> (r: String)
    requires
        pat@.len() > 0,
    ensures
        r@ == replace_all_spec(s@, pat@, rep@),
{
    let mut out = String::new();
    let mut rest = String::from_str(s);
    loop
        invariant
            pat@.len() > 0,
            out@.add(replace_all_spec(rest@, pat@, rep@)) == replace_all_spec(s@, pat@, rep@),
        decreases rest@.len(),
    {
        match find_occurrence(rest.as_str(), pat) {
            None => {
                let done = out.concat(rest.as_str());
                proof {
                    assert(done@ =~= replace_all_spec(s@, pat@, rep@));
                }
                return done;
            },
            Some(f) => {
                proof {
                    lemma_first_occur(rest@, pat@, 0);
                }
                let ghost rest_old = rest@;
                let rn = rest.unicode_len();
                let pn = pat.unicode_len();
                out.append(rest.as_str().substring_char(0, f));
                out.append(rep);
                let tail = String::from_str(rest.as_str().substring_char(f + pn, rn));
                rest = tail;
                proof {
                    assert(replace_all_spec(rest_old, pat@, rep@) == rest_old.subrange(0, f as int)
                        .add(rep@).add(replace_all_spec(rest@, pat@, rep@)));
                    assert(out@.add(replace_all_spec(rest@, pat@, rep@)) =~= replace_all_spec(
                        s@,
                        pat@,
                        rep@,
                    ));
                }
            },
        }
    }
}

/// Names of all placeholders in `s`, non-overlapping, leftmost first.
fn find_names(s: &str) -> (r: Vec<String>)
    ensures
        r.deep_view() == scan_names(s@, 0),
{
    let n = s.unicode_len();
    let mut r: Vec<String> = Vec::new();
    let mut i: usize = 0;
    while i < n
        invariant
            0 <= i,
            n == s@.len(),
            scan_names(s@, 0) == r.deep_view().add(scan_names(s@, i as int)),
        decreases n - i,
    {
        let ghost dv0 = r.deep_view();
        let mut matched = false;
        if s.get_char(i) == '$' && n >= 3 && i < n - 2 {
            if s.get_char(i + 1) == '{' && alpha_char(s.get_char(i + 2)) {
                // scan to the end of the name
                let mut j = i + 3;
                while j < n && name_char(s.get_char(j))
                    invariant
                        i + 3 <= j <= n,
                        n == s@.len(),
                        name_end(s@, i + 3) == name_end(s@, j as int),
                    decreases n - j,
                {
                    j = j + 1;
                }
                proof {
                    assert(name_end(s@, i + 3) == j as int);
                }
                if j > i + 3 && j < n && s.get_char(j) == '}' {
                    proof {
                        assert(match_at(s@, i as int));
                    }
                    let name = String::from_str(s.substring_char(i + 2, j));
                    r.push(name);
                    proof {
                        assert(r.deep_view() =~= dv0.push(match_name(s@, i as int)));
                        assert(scan_names(s@, i as int) == seq![match_name(s@, i as int)].add(
                            scan_names(s@, match_end(s@, i as int)),
                        ));
                        assert(scan_names(s@, 0) =~= r.deep_view().add(
                            scan_names(s@, (j + 1) as int),
                        ));
                    }
                    i = j + 1;
                    matched = true;
                }
            }
        }
        if !matched {
            proof {
                assert(!match_at(s@, i as int));
                assert(scan_names(s@, i as int) == scan_names(s@, i + 1));
            }
            i = i + 1;
        }
    }
    proof {
        assert(scan_names(s@, i as int) =~= Seq::<Seq<char>>::empty());
        assert(r.deep_view() =~= scan_names(s@, 0));
    }
    r
}

/// Interpolates `value` against `env`: when `enabled`, every placeholder
/// found in `value` whose name is defined and non-empty in `env` is
/// replaced, everywhere it occurs, by the environment value; anything
/// else is left as written.
pub fn resolve(value: &str, env: &EnvVars, enabled: bool) -> (r: String)
    requires
        env.wf(),
    ensures
        r@ == resolve_spec(value@, env@, enabled),
{
    if !enabled {
        return String::from_str(value);
    }
    let names = find_names(value);
    let ghost dv = names.deep_view();
    let mut result = String::from_str(value);
    proof {
        assert(dv.skip(0) =~= dv);
    }
    let n = names.len();
    let mut k: usize = 0;
    while k < n
        invariant
            0 <= k <= n,
            env.wf(),
            n == dv.len(),
            dv == names.deep_view(),
            apply_subs(result@, dv.skip(k as int), env@) == apply_subs(value@, dv, env@),
        decreases n - k,
    {
        let ghost rem = dv.skip(k as int);
        proof {
            assert(rem[0] == dv[k as int]);
            assert(rem.drop_first() =~= dv.skip(k as int + 1));
            assert(names.deep_view()[k as int] == names@[k as int]@);
        }
        let name = &names[k];
        let mut replaced = false;
        match env.get(name.as_str()) {
            Some(v) => {
                if v.unicode_len() > 0 {
                    let mut pat = String::from_str("${");
                    pat.append(name.as_str());
                    pat.append("}");
                    proof {
                        reveal_strlit("${");
                        reveal_strlit("}");
                        assert(pat@ =~= pat_of(name@));
                    }
                    let next = replace_all(result.as_str(), pat.as_str(), v.as_str());
                    proof {
                        assert(next@ == sub_one(result@, dv[k as int], env@));
                    }
                    result = next;
                    replaced = true;
                }
            },
            None => {},
        }
        if !replaced {
            proof {
                assert(result@ == sub_one(result@, dv[k as int], env@));
            }
        }
        k = k + 1;
    }
    proof {
        assert(dv.skip(n as int) =~= Seq::<Seq<char>>::empty());
    }
    result
}

} // verus!

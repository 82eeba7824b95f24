//! The parser state machine: consumes a sequence of raw lines, drives
//! transitions through the line classifiers, builds an [`Ini`] document,
//! performs environment interpolation and handles backslash
//! continuation. The whole parse is pinned to the spec-level transition
//! function [`step`] folded over the lines by [`run_lines`].

use vstd::prelude::*;

use crate::ini::{opt_seq, stored_value, Ini, IniSection};
use crate::interp::{resolve, resolve_spec, EnvVars};
use crate::lines::{
    is_blank, is_comment, is_section, spec_is_blank, spec_is_comment, spec_is_section,
    spec_start_with_blank, start_with_blank,
};
use crate::text::{find_char, find_first, lemma_find_char, trim, trim_spec};

verus! {

/// Spec-level state of the parser between two lines: the committed
/// sections, the draft section being filled, and the key awaiting a
/// continuation line, if any.
pub struct LoadState {
    /// Sections committed so far, keyed by name (the draft section's
    /// name is already present, holding its last committed contents).
    pub doc: Map<Seq<char>, Map<Seq<char>, Option<Seq<char>>>>,
    /// Name of the draft section.
    pub cur_name: Seq<char>,
    /// Entries of the draft section.
    pub cur: Map<Seq<char>, Option<Seq<char>>>,
    /// Key whose value awaits continuation lines, when the last value
    /// line ended with a backslash.
    pub pending: Option<Seq<char>>,
}

/// State before any line: an empty document and an empty draft named
/// `default`.
pub open spec fn initial_state() -> LoadState {
    LoadState {
        doc: Map::empty(),
        cur_name: "default"@,
        cur: Map::empty(),
        pending: None,
    }
}

/// A section name as extracted from a header line `t`: the text between
/// the brackets, whitespace-trimmed, with a leading and a trailing
/// double quote (each independently, if present) stripped.
pub open spec fn strip_quotes(s: Seq<char>) -> Seq<char> {
    let t = if s.len() > 0 && s[0] == '"' {
        s.drop_first()
    } else {
        s
    };
    if t.len() > 0 && t.last() == '"' {
        t.drop_last()
    } else {
        t
    }
}

/// Name of the section opened by the trimmed header line `t`.
pub open spec fn header_name(t: Seq<char>) -> Seq<char> {
    strip_quotes(trim_spec(t.subrange(1, t.len() - 1)))
}

/// One transition from the ready state (no pending continuation) on the
/// raw line `line`: blank and comment lines are skipped; a header
/// commits the draft and reopens or creates the named section; any
/// other line is a key line, split at its first `=` (a line without `=`
/// is a bare key with no value). A value ending in a backslash is
/// stored without it and leaves its key pending.
pub open spec fn step_ready(
    st: LoadState,
    line: Seq<char>,
    env: Map<Seq<char>, Seq<char>>,
    resolve_env: bool,
) -> LoadState {
    let t = trim_spec(line);
    if spec_is_blank(t) {
        st
    } else if spec_is_comment(t) {
        st
    } else if spec_is_section(t) {
        let doc2 = st.doc.insert(st.cur_name, st.cur);
        let name = header_name(t);
        let cur2 = if doc2.contains_key(name) {
            doc2[name]
        } else {
            Map::empty()
        };
        LoadState { doc: doc2.insert(name, cur2), cur_name: name, cur: cur2, pending: None }
    } else {
        match find_char(t, '=', 0) {
            None => LoadState { cur: st.cur.insert(t, None), ..st },
            Some(idx) => {
                let key = trim_spec(t.subrange(0, idx));
                let rawv = trim_spec(t.subrange(idx + 1, t.len() as int));
                let pend = rawv.len() > 0 && rawv.last() == '\\';
                let v0 = if pend {
                    rawv.drop_last()
                } else {
                    rawv
                };
                let v = resolve_spec(v0, env, resolve_env);
                LoadState {
                    cur: st.cur.insert(key, stored_value(Some(v))),
                    pending: if pend {
                        Some(key)
                    } else {
                        None
                    },
                    ..st
                }
            },
        }
    }
}

/// The value currently stored for the pending key, read as an empty
/// string when the key holds no value.
pub open spec fn pending_prev(st: LoadState, key: Seq<char>) -> Seq<char> {
    if st.cur.contains_key(key) && st.cur[key] is Some {
        st.cur[key]->0
    } else {
        Seq::empty()
    }
}

/// One transition of the parser on the raw line `line`. With a pending
/// continuation: a comment line is skipped without ending the
/// continuation; a line that does not start with whitespace, or is
/// blank, ends the continuation and is reprocessed as a ready line; any
/// other line is appended, trimmed, directly to the stored value (no
/// separator), and the whole concatenation is interpolated again.
pub open spec fn step(
    st: LoadState,
    line: Seq<char>,
    env: Map<Seq<char>, Seq<char>>,
    resolve_env: bool,
) -> LoadState {
    let t = trim_spec(line);
    match st.pending {
        Option::None => step_ready(st, line, env, resolve_env),
        Option::Some(key) => {
            if spec_is_comment(t) {
                st
            } else if !spec_start_with_blank(line) || spec_is_blank(t) {
                step_ready(LoadState { pending: None, ..st }, line, env, resolve_env)
            } else {
                let cat = pending_prev(st, key).add(t);
                let pend = t.last() == '\\';
                let v0 = if pend {
                    cat.drop_last()
                } else {
                    cat
                };
                let v = resolve_spec(v0, env, resolve_env);
                LoadState {
                    cur: st.cur.insert(key, stored_value(Some(v))),
                    pending: if pend {
                        Some(key)
                    } else {
                        None
                    },
                    ..st
                }
            }
        },
    }
}

/// The parser state after consuming all of `lines` in order.
pub open spec fn run_lines(
    lines: Seq<Seq<char>>,
    env: Map<Seq<char>, Seq<char>>,
    resolve_env: bool,
) -> LoadState
    decreases lines.len(),
{
    if lines.len() == 0 {
        initial_state()
    } else {
        step(run_lines(lines.drop_last(), env, resolve_env), lines.last(), env, resolve_env)
    }
}

/// The document a state yields once the draft section is committed.
pub open spec fn committed(st: LoadState) -> Map<Seq<char>, Map<Seq<char>, Option<Seq<char>>>> {
    st.doc.insert(st.cur_name, st.cur)
}

/// The document that parsing `lines` against `env` yields: the final
/// state with its draft committed (unterminated continuations are
/// flushed as stored, not an error).
pub open spec fn parse_doc(
    lines: Seq<Seq<char>>,
    env: Map<Seq<char>, Seq<char>>,
    resolve_env: bool,
) -> Map<Seq<char>, Map<Seq<char>, Option<Seq<char>>>> {
    committed(run_lines(lines, env, resolve_env))
}

/// An input whose lines are all blank parses to a document holding
/// only the implicit default section, empty: blank lines are skipped.
pub proof fn lemma_blank_lines_skipped(
    lines: Seq<Seq<char>>,
    env: Map<Seq<char>, Seq<char>>,
    resolve_env: bool,
)
    requires
        forall|i: int| 0 <= i < lines.len() ==> spec_is_blank(#[trigger] lines[i]),
    ensures
        run_lines(lines, env, resolve_env) == initial_state(),
        parse_doc(lines, env, resolve_env) == Map::<
            Seq<char>,
            Map<Seq<char>, Option<Seq<char>>>,
        >::empty().insert("default"@, Map::empty()),
    decreases lines.len(),
{
    if lines.len() > 0 {
        lemma_blank_lines_skipped(lines.drop_last(), env, resolve_env);
        let last = lines.last();
        crate::text::lemma_trim_spec(last);
        assert(spec_is_blank(trim_spec(last)));
    }
}

/// Re-encountering a section header reopens the existing section: the
/// new draft holds exactly the entries the document has under that
/// name (or starts empty for a fresh name), so earlier blocks of the
/// same section are preserved, never discarded.
pub proof fn lemma_repeated_section_reopens(
    st: LoadState,
    line: Seq<char>,
    env: Map<Seq<char>, Seq<char>>,
    resolve_env: bool,
)
    requires
        st.pending is None,
        !spec_is_blank(trim_spec(line)),
        !spec_is_comment(trim_spec(line)),
        spec_is_section(trim_spec(line)),
    ensures
        ({
            let name = header_name(trim_spec(line));
            let doc2 = st.doc.insert(st.cur_name, st.cur);
            let st2 = step(st, line, env, resolve_env);
            &&& st2.cur_name == name
            &&& doc2.contains_key(name) ==> st2.cur == doc2[name]
            &&& !doc2.contains_key(name) ==> st2.cur == Map::<Seq<char>, Option<Seq<char>>>::empty()
        }),
{
}

/// Within one section block the later assignment to a key wins: a key
/// line stores its own (interpolated) value under the key, whatever the
/// draft held for that key before.
pub proof fn lemma_later_assignment_wins(
    st: LoadState,
    line: Seq<char>,
    env: Map<Seq<char>, Seq<char>>,
    resolve_env: bool,
    idx: int,
)
    requires
        st.pending is None,
        !spec_is_blank(trim_spec(line)),
        !spec_is_comment(trim_spec(line)),
        !spec_is_section(trim_spec(line)),
        find_char(trim_spec(line), '=', 0) == Some(idx),
    ensures
        ({
            let t = trim_spec(line);
            let key = trim_spec(t.subrange(0, idx));
            let rawv = trim_spec(t.subrange(idx + 1, t.len() as int));
            let pend = rawv.len() > 0 && rawv.last() == '\\';
            let v0 = if pend {
                rawv.drop_last()
            } else {
                rawv
            };
            let st2 = step(st, line, env, resolve_env);
            &&& st2.cur.contains_key(key)
            &&& st2.cur[key] == stored_value(Some(resolve_spec(v0, env, resolve_env)))
        }),
{
}

/// Strips the optional surrounding double quotes of a section name.
pub fn strip_quotes_exec(s: &str) -> (r: &str)
    ensures
        r@ == strip_quotes(s@),
{
    let n = s.unicode_len();
    let s2: &str = if n > 0 && s.get_char(0) == '"' {
        let r = s.substring_char(1, n);
        proof {
            assert(r@ =~= s@.drop_first());
        }
        r
    } else {
        s
    };
    let m = s2.unicode_len();
    if m > 0 && s2.get_char(m - 1) == '"' {
        let r = s2.substring_char(0, m - 1);
        proof {
            assert(r@ =~= s2@.drop_last());
        }
        r
    } else {
        s2
    }
}

/// Loads INI documents from sequences of raw lines, optionally
/// interpolating `${NAME}` placeholders from an environment snapshot
/// fixed for the lifetime of one parse.
pub struct IniLoader {
    pub resolve_env: bool,
}

impl IniLoader {
    /// Creates a loader; `resolve_env` turns interpolation on.
    pub fn new(resolve_env: bool) -> (r: Self)
        ensures
            r.resolve_env == resolve_env,
    {
        IniLoader { resolve_env }
    }

    /// Interpolates one candidate value against `env`, honouring this
    /// loader's `resolve_env` flag.
    pub fn resolve_value(&self, value: &str, env: &EnvVars) -> (r: String)
        requires
            env.wf(),
        ensures
            r@ == resolve_spec(value@, env@, self.resolve_env),
    {
        resolve(value, env, self.resolve_env)
    }

    /// Parses the raw lines into a document: exactly the fold of the
    /// transition function [`step`] over the lines, starting from the
    /// default draft, with the draft committed at end of input.
    pub fn load_lines(&self, raw_lines: &Vec<String>, env: &EnvVars) -> (r: Ini)
        requires
            env.wf(),
        ensures
            r.wf(),
            r@ == parse_doc(raw_lines.deep_view(), env@, self.resolve_env),
    {
        let ghost ls = raw_lines.deep_view();
        let mut ini = Ini::new();
        let mut section = IniSection::default();
        let mut pending: Option<String> = None;
        let n = raw_lines.len();
        let mut idx: usize = 0;
        proof {
            assert(ls.take(0) =~= Seq::<Seq<char>>::empty());
        }
        while idx < n
            invariant
                0 <= idx <= n,
                env.wf(),
                n == raw_lines@.len(),
                ls == raw_lines.deep_view(),
                ini.wf(),
                section.wf(),
                ({
                    let st = run_lines(ls.take(idx as int), env@, self.resolve_env);
                    &&& ini@ == st.doc
                    &&& section.name@ == st.cur_name
                    &&& section@ == st.cur
                    &&& opt_seq(pending) == st.pending
                }),
            decreases n - idx,
        {
            let ghost st = run_lines(ls.take(idx as int), env@, self.resolve_env);
            let ghost stn = step(st, ls[idx as int], env@, self.resolve_env);
            proof {
                assert(ls.take(idx + 1).drop_last() =~= ls.take(idx as int));
                assert(ls.take(idx + 1).last() == ls[idx as int]);
                assert(run_lines(ls.take(idx + 1), env@, self.resolve_env) == stn);
                assert(ls[idx as int] == raw_lines@[idx as int]@);
            }
            let line: &String = &raw_lines[idx];
            let lstr: &str = line.as_str();
            let t: &str = trim(lstr);
            let mut ready = true;
            match &pending {
                Some(pkey) => {
                    if is_comment(t) {
                        // a comment inside a continuation is skipped
                        ready = false;
                        proof {
                            assert(stn == st);
                        }
                    } else if !start_with_blank(lstr) || is_blank(t) {
                        // the continuation ends; reprocess this line
                        pending = None;
                    } else {
                        ready = false;
                        let key = pkey.clone();
                        proof {
                            assert(!spec_is_blank(t@));
                            if t@.len() == 0 {
                                assert(spec_is_blank(t@));
                            }
                        }
                        let prev: String = match section.get(key.as_str()) {
                            Some(v) => v.clone(),
                            None => String::new(),
                        };
                        proof {
                            assert(prev@ == pending_prev(st, key@));
                        }
                        let mut cat = prev;
                        cat.append(t);
                        let cn = cat.unicode_len();
                        let tn = t.unicode_len();
                        let pend = t.get_char(tn - 1) == '\\';
                        let v0: &str = if pend {
                            let r = cat.as_str().substring_char(0, cn - 1);
                            proof {
                                assert(r@ =~= cat@.drop_last());
                            }
                            r
                        } else {
                            cat.as_str()
                        };
                        let v = self.resolve_value(v0, env);
                        section.set(key.as_str(), Some(v.as_str()));
                        pending = if pend {
                            Some(key)
                        } else {
                            None
                        };
                        proof {
                            assert(ini@ == stn.doc);
                            assert(section.name@ == stn.cur_name);
                            assert(section@ == stn.cur);
                            assert(opt_seq(pending) == stn.pending);
                        }
                    }
                },
                None => {},
            }
            if ready {
                let ghost str = LoadState {
                    pending: None,
                    doc: st.doc,
                    cur_name: st.cur_name,
                    cur: st.cur,
                };
                proof {
                    assert(opt_seq(pending) == str.pending);
                    assert(stn == step_ready(str, ls[idx as int], env@, self.resolve_env));
                }
                if is_blank(t) {
                    proof {
                        assert(stn == str);
                    }
                } else if is_comment(t) {
                    proof {
                        assert(stn == str);
                    }
                } else {
                    proof {
                        if t@.len() == 0 {
                            assert(spec_is_blank(t@));
                        }
                    }
                    if is_section(t) {
                        ini.put(section);
                        let tn = t.unicode_len();
                        let inner = t.substring_char(1, tn - 1);
                        let name_t = trim(inner);
                        let name = strip_quotes_exec(name_t);
                        proof {
                            assert(inner@ =~= t@.subrange(1, t@.len() - 1));
                            assert(name@ == header_name(t@));
                        }
                        let fresh = ini.get_or_create(name).clone();
                        section = fresh;
                        pending = None;
                        proof {
                            assert(ini@ =~= stn.doc);
                            assert(section.name@ == stn.cur_name);
                            assert(section@ == stn.cur);
                            assert(opt_seq(pending) == stn.pending);
                        }
                    } else {
                        match find_first(t, '=') {
                            None => {
                                section.set(t, None);
                                proof {
                                    assert(ini@ == stn.doc);
                                    assert(section@ == stn.cur);
                                    assert(opt_seq(pending) == stn.pending);
                                }
                            },
                            Some(ix) => {
                                proof {
                                    lemma_find_char(t@, '=', 0);
                                }
                                let tn = t.unicode_len();
                                let key = trim(t.substring_char(0, ix));
                                let rawv = trim(t.substring_char(ix + 1, tn));
                                let rn = rawv.unicode_len();
                                let pend = rn > 0 && rawv.get_char(rn - 1) == '\\';
                                let v0: &str = if pend {
                                    let r = rawv.substring_char(0, rn - 1);
                                    proof {
                                        assert(r@ =~= rawv@.drop_last());
                                    }
                                    r
                                } else {
                                    rawv
                                };
                                let v = self.resolve_value(v0, env);
                                section.set(key, Some(v.as_str()));
                                pending = if pend {
                                    Some(String::from_str(key))
                                } else {
                                    None
                                };
                                proof {
                                    assert(ini@ == stn.doc);
                                    assert(section@ == stn.cur);
                                    assert(opt_seq(pending) == stn.pending);
                                }
                            },
                        }
                    }
                }
            }
            idx = idx + 1;
        }
        proof {
            assert(ls.take(n as int) =~= ls);
        }
        ini.put(section);
        ini
    }
}

} // verus!

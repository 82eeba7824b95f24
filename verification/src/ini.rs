//! Document model of the INI format: a [`IniSection`] maps keys to
//! optional string values, and an [`Ini`] maps section names to
//! sections. Both are viewed as mathematical maps; keys and section
//! names are unique.

use vstd::prelude::*;

use crate::text::str_eq;

verus! {

/// A capability to fetch a value of type `R`.
pub trait ValueGetter<R> {
    fn get() -> R;
}

/// View of an optional owned string.
pub open spec fn opt_seq(v: Option<String>) -> Option<Seq<char>> {
    match v {
        Some(s) => Some(s@),
        None => None,
    }
}

/// View of an optional borrowed string.
pub open spec fn opt_str_view(v: Option<&str>) -> Option<Seq<char>> {
    match v {
        Some(s) => Some(s@),
        None => None,
    }
}

/// Map described by a sequence of key/value entries; a later entry with
/// the same key would win (the sections keep keys unique, so the case
/// does not arise).
pub open spec fn entry_map(s: Seq<(String, Option<String>)>) -> Map<
    Seq<char>,
    Option<Seq<char>>,
>
    decreases s.len(),
{
    if s.len() == 0 {
        Map::empty()
    } else {
        entry_map(s.drop_last()).insert(s.last().0@, opt_seq(s.last().1))
    }
}

/// The entry keys are pairwise distinct.
pub open spec fn distinct_entry_keys(s: Seq<(String, Option<String>)>) -> bool {
    forall|i: int, j: int| 0 <= i < j < s.len() ==> s[i].0@ != s[j].0@
}

pub proof fn lemma_entry_map_contains(s: Seq<(String, Option<String>)>, k: Seq<char>)
    ensures
        entry_map(s).contains_key(k) <==> exists|i: int| 0 <= i < s.len() && s[i].0@ == k,
    decreases s.len(),
{
    if s.len() > 0 {
        lemma_entry_map_contains(s.drop_last(), k);
        if s.last().0@ == k {
            assert(s[s.len() - 1].0@ == k);
        } else if entry_map(s).contains_key(k) {
            let i = choose|i: int| 0 <= i < s.drop_last().len() && s.drop_last()[i].0@ == k;
            assert(s[i].0@ == k);
        } else {
            if exists|i: int| 0 <= i < s.len() && s[i].0@ == k {
                let i = choose|i: int| 0 <= i < s.len() && s[i].0@ == k;
                assert(s.drop_last()[i].0@ == k);
            }
        }
    }
}

pub proof fn lemma_entry_map_value(s: Seq<(String, Option<String>)>, i: int)
    requires
        distinct_entry_keys(s),
        0 <= i < s.len(),
    ensures
        entry_map(s).contains_key(s[i].0@),
        entry_map(s)[s[i].0@] == opt_seq(s[i].1),
    decreases s.len(),
{
    if i < s.len() - 1 {
        lemma_entry_map_value(s.drop_last(), i);
        assert(s.drop_last()[i] == s[i]);
        assert(s[i].0@ != s.last().0@);
    }
}

pub proof fn lemma_entry_map_update(
    s: Seq<(String, Option<String>)>,
    i: int,
    e: (String, Option<String>),
)
    requires
        distinct_entry_keys(s),
        0 <= i < s.len(),
        s[i].0@ == e.0@,
    ensures
        entry_map(s.update(i, e)) == entry_map(s).insert(e.0@, opt_seq(e.1)),
        distinct_entry_keys(s.update(i, e)),
    decreases s.len(),
{
    let t = s.update(i, e);
    assert(forall|a: int, b: int| 0 <= a < b < t.len() ==> t[a].0@ != t[b].0@);
    if i == s.len() - 1 {
        assert(t.drop_last() =~= s.drop_last());
        assert(t.last() == e);
        assert(entry_map(t) =~= entry_map(s).insert(e.0@, opt_seq(e.1)));
    } else {
        assert(t.drop_last() =~= s.drop_last().update(i, e));
        assert(s.drop_last()[i] == s[i]);
        lemma_entry_map_update(s.drop_last(), i, e);
        assert(t.last() == s.last());
        assert(e.0@ != s.last().0@);
        assert(entry_map(t) =~= entry_map(s).insert(e.0@, opt_seq(e.1)));
    }
}

/// A named group of key/value entries of the configuration format.
/// A key may be present with no value: a bare flag line, or a value
/// that was explicitly empty (the two are stored alike, see `set`).
pub struct IniSection {
    pub name: String,
    pub entries: Vec<(String, Option<String>)>,
}

impl View for IniSection {
    type V = Map<Seq<char>, Option<Seq<char>>>;

    closed spec fn view(&self) -> Map<Seq<char>, Option<Seq<char>>> {
        entry_map(self.entries@)
    }
}

impl IniSection {
    /// The entries in storage order.
    pub closed spec fn entries_seq(&self) -> Seq<(String, Option<String>)> {
        self.entries@
    }

    /// Well-formed: the keys are pairwise distinct.
    pub closed spec fn wf(&self) -> bool {
        distinct_entry_keys(self.entries@)
    }

    /// The stored entries and the map view agree: each entry is in the
    /// map, and every key of the map comes from an entry.
    pub proof fn lemma_entries_agree(&self)
        requires
            self.wf(),
        ensures
            forall|i: int|
                0 <= i < self.entries_seq().len() ==> #[trigger] self@.contains_key(
                    self.entries_seq()[i].0@,
                ) && self@[self.entries_seq()[i].0@] == opt_seq(self.entries_seq()[i].1),
            forall|k: Seq<char>| #[trigger]
                self@.contains_key(k) ==> exists|i: int|
                    0 <= i < self.entries_seq().len() && self.entries_seq()[i].0@ == k,
    {
        assert forall|i: int| 0 <= i < self.entries_seq().len() implies #[trigger] self@.contains_key(
            self.entries_seq()[i].0@,
        ) && self@[self.entries_seq()[i].0@] == opt_seq(self.entries_seq()[i].1) by {
            lemma_entry_map_value(self.entries@, i);
        }
        assert forall|k: Seq<char>| #[trigger] self@.contains_key(k) implies exists|i: int|
            0 <= i < self.entries_seq().len() && self.entries_seq()[i].0@ == k by {
            lemma_entry_map_contains(self.entries@, k);
            let i = choose|i: int| 0 <= i < self.entries@.len() && self.entries@[i].0@ == k;
            assert(0 <= i < self.entries_seq().len() && self.entries_seq()[i].0@ == k);
        }
    }

    /// Creates an empty section with the given name.
    pub fn new(name: &str) -> (r: Self)
        ensures
            r.name@ == name@,
            r@ == Map::<Seq<char>, Option<Seq<char>>>::empty(),
            r.entries_seq() == Seq::<(String, Option<String>)>::empty(),
            r.wf(),
    {
        IniSection { name: String::from_str(name), entries: Vec::new() }
    }

    /// Value stored under `key`: absent both when the key is missing
    /// and when the key is present with no value.
    pub fn get(&self, key: &str) -> (r: Option<&String>)
        requires
            self.wf(),
        ensures
            match r {
                Some(v) => self@.contains_key(key@) && self@[key@] == Some(v@),
                None => !self@.contains_key(key@) || self@[key@] is None,
            },
    {
        proof {
            self.lemma_entries_agree();
        }
        let n = self.entries.len();
        let mut i: usize = 0;
        while i < n
            invariant
                0 <= i <= n,
                self.wf(),
                n == self.entries_seq().len(),
                forall|k: int| 0 <= k < i ==> self.entries_seq()[k].0@ != key@,
            decreases n - i,
        {
            if str_eq(self.entries[i].0.as_str(), key) {
                proof {
                    lemma_entry_map_value(self.entries_seq(), i as int);
                }
                return match &self.entries[i].1 {
                    Some(v) => Some(v),
                    None => None,
                };
            }
            i = i + 1;
        }
        proof {
            lemma_entry_map_contains(self.entries_seq(), key@);
        }
        None
    }

    /// Stores `value` under `key`, replacing any earlier entry of the
    /// same key (within one section the later assignment wins). An
    /// empty value is recorded the same way as an absent one: the key
    /// stays present, with no value to read.
    pub fn set(&mut self, key: &str, value: Option<&str>)
        requires
            old(self).wf(),
        ensures
            final(self).wf(),
            final(self).name@ == old(self).name@,
            final(self)@ == old(self)@.insert(key@, stored_value(opt_str_view(value))),
    {
        let normalized: Option<String> = match value {
            Some(v) => {
                if v.unicode_len() == 0 {
                    None
                } else {
                    Some(String::from_str(v))
                }
            },
            None => None,
        };
        proof {
            assert(opt_seq(normalized) == stored_value(opt_str_view(value)));
        }
        let n = self.entries.len();
        let mut i: usize = 0;
        while i < n
            invariant
                0 <= i <= n,
                old(self) == self,
                self.wf(),
                n == self.entries_seq().len(),
                opt_seq(normalized) == stored_value(opt_str_view(value)),
                forall|k: int| 0 <= k < i ==> self.entries_seq()[k].0@ != key@,
            decreases n - i,
        {
            if str_eq(self.entries[i].0.as_str(), key) {
                let ghost before = self.entries@;
                let owned_key = String::from_str(key);
                self.entries.set(i, (owned_key, normalized));
                proof {
                    lemma_entry_map_update(before, i as int, self.entries@[i as int]);
                    assert(self.entries@[i as int].0@ == key@);
                }
                return ;
            }
            i = i + 1;
        }
        proof {
            lemma_entry_map_contains(self.entries_seq(), key@);
        }
        let ghost before = self.entries@;
        let owned_key = String::from_str(key);
        self.entries.push((owned_key, normalized));
        proof {
            assert(self.entries@.drop_last() =~= before);
            assert(forall|a: int, b: int|
                0 <= a < b < self.entries@.len() ==> self.entries@[a].0@ != self.entries@[b].0@);
        }
    }

    /// The entries, for iteration in storage order.
    pub fn iter(&self) -> (r: &Vec<(String, Option<String>)>)
        ensures
            r@ == self.entries_seq(),
    {
        &self.entries
    }
}

/// The readable value a section holds under `key`: absent both when
/// the key is missing and when it is present with no value.
pub open spec fn sec_value(sec: Map<Seq<char>, Option<Seq<char>>>, key: Seq<char>) -> Option<
    Seq<char>,
> {
    if sec.contains_key(key) && sec[key] is Some {
        Some(sec[key]->0)
    } else {
        None
    }
}

/// How a freshly assigned value is stored: an absent or empty value is
/// recorded as "no value".
pub open spec fn stored_value(value: Option<Seq<char>>) -> Option<Seq<char>> {
    match value {
        Some(v) => if v.len() == 0 {
            None
        } else {
            Some(v)
        },
        None => None,
    }
}

impl Default for IniSection {
    /// The unnamed section that entries before any header fall into.
    fn default() -> (r: Self)
        ensures
            r.name@ == "default"@,
            r@ == Map::<Seq<char>, Option<Seq<char>>>::empty(),
            r.wf(),
    {
        Self::new("default")
    }
}

impl Clone for IniSection {
    /// An independent copy with the same name and entries.
    fn clone(&self) -> (r: Self)
        ensures
            r.name@ == self.name@,
            r@ == self@,
            r.entries_seq() == self.entries_seq(),
            r.wf() == self.wf(),
    {
        let mut entries: Vec<(String, Option<String>)> = Vec::new();
        let n = self.entries.len();
        let mut i: usize = 0;
        while i < n
            invariant
                0 <= i <= n,
                n == self.entries@.len(),
                entries@ =~= self.entries@.take(i as int),
            decreases n - i,
        {
            let v: Option<String> = match &self.entries[i].1 {
                Some(s) => Some(s.clone()),
                None => None,
            };
            entries.push((self.entries[i].0.clone(), v));
            i = i + 1;
        }
        proof {
            assert(entries@ =~= self.entries@);
        }
        IniSection { name: self.name.clone(), entries }
    }
}

/// Map described by a sequence of sections, keyed by section name.
pub open spec fn section_map(s: Seq<IniSection>) -> Map<
    Seq<char>,
    Map<Seq<char>, Option<Seq<char>>>,
>
    decreases s.len(),
{
    if s.len() == 0 {
        Map::empty()
    } else {
        section_map(s.drop_last()).insert(s.last().name@, s.last()@)
    }
}

/// The section names are pairwise distinct.
pub open spec fn distinct_section_names(s: Seq<IniSection>) -> bool {
    forall|i: int, j: int| 0 <= i < j < s.len() ==> s[i].name@ != s[j].name@
}

pub proof fn lemma_section_map_contains(s: Seq<IniSection>, k: Seq<char>)
    ensures
        section_map(s).contains_key(k) <==> exists|i: int| 0 <= i < s.len() && s[i].name@ == k,
    decreases s.len(),
{
    if s.len() > 0 {
        lemma_section_map_contains(s.drop_last(), k);
        if s.last().name@ == k {
            assert(s[s.len() - 1].name@ == k);
        } else if section_map(s).contains_key(k) {
            let i = choose|i: int| 0 <= i < s.drop_last().len() && s.drop_last()[i].name@ == k;
            assert(s[i].name@ == k);
        } else {
            if exists|i: int| 0 <= i < s.len() && s[i].name@ == k {
                let i = choose|i: int| 0 <= i < s.len() && s[i].name@ == k;
                assert(s.drop_last()[i].name@ == k);
            }
        }
    }
}

pub proof fn lemma_section_map_value(s: Seq<IniSection>, i: int)
    requires
        distinct_section_names(s),
        0 <= i < s.len(),
    ensures
        section_map(s).contains_key(s[i].name@),
        section_map(s)[s[i].name@] == s[i]@,
    decreases s.len(),
{
    if i < s.len() - 1 {
        lemma_section_map_value(s.drop_last(), i);
        assert(s.drop_last()[i] == s[i]);
        assert(s[i].name@ != s.last().name@);
    }
}

pub proof fn lemma_section_map_update(s: Seq<IniSection>, i: int, e: IniSection)
    requires
        distinct_section_names(s),
        0 <= i < s.len(),
        s[i].name@ == e.name@,
    ensures
        section_map(s.update(i, e)) == section_map(s).insert(e.name@, e@),
        distinct_section_names(s.update(i, e)),
    decreases s.len(),
{
    let t = s.update(i, e);
    assert(forall|a: int, b: int| 0 <= a < b < t.len() ==> t[a].name@ != t[b].name@);
    if i == s.len() - 1 {
        assert(t.drop_last() =~= s.drop_last());
        assert(t.last() == e);
        assert(section_map(t) =~= section_map(s).insert(e.name@, e@));
    } else {
        assert(t.drop_last() =~= s.drop_last().update(i, e));
        assert(s.drop_last()[i] == s[i]);
        lemma_section_map_update(s.drop_last(), i, e);
        assert(t.last() == s.last());
        assert(e.name@ != s.last().name@);
        assert(section_map(t) =~= section_map(s).insert(e.name@, e@));
    }
}

/// A parsed configuration document: sections keyed by their name.
pub struct Ini {
    pub sections: Vec<IniSection>,
}

impl View for Ini {
    type V = Map<Seq<char>, Map<Seq<char>, Option<Seq<char>>>>;

    closed spec fn view(&self) -> Map<Seq<char>, Map<Seq<char>, Option<Seq<char>>>> {
        section_map(self.sections@)
    }
}

impl Ini {
    /// The sections in storage order.
    pub closed spec fn sections_seq(&self) -> Seq<IniSection> {
        self.sections@
    }

    /// Well-formed: section names pairwise distinct, each section
    /// well-formed.
    pub closed spec fn wf(&self) -> bool {
        distinct_section_names(self.sections@) && forall|i: int|
            0 <= i < self.sections@.len() ==> (#[trigger] self.sections@[i]).wf()
    }

    /// Each stored section of a well-formed document is well-formed.
    pub proof fn lemma_wf_sections(&self)
        requires
            self.wf(),
        ensures
            forall|i: int|
                0 <= i < self.sections_seq().len() ==> (#[trigger] self.sections_seq()[i]).wf(),
    {
    }

    /// The stored sections and the map view agree.
    pub proof fn lemma_sections_agree(&self)
        requires
            self.wf(),
        ensures
            forall|i: int|
                0 <= i < self.sections_seq().len() ==> #[trigger] self@.contains_key(
                    self.sections_seq()[i].name@,
                ) && self@[self.sections_seq()[i].name@] == self.sections_seq()[i]@,
            forall|k: Seq<char>| #[trigger]
                self@.contains_key(k) ==> exists|i: int|
                    0 <= i < self.sections_seq().len() && self.sections_seq()[i].name@ == k,
    {
        assert forall|i: int| 0 <= i < self.sections_seq().len() implies #[trigger] self@.contains_key(
            self.sections_seq()[i].name@,
        ) && self@[self.sections_seq()[i].name@] == self.sections_seq()[i]@ by {
            lemma_section_map_value(self.sections@, i);
        }
        assert forall|k: Seq<char>| #[trigger] self@.contains_key(k) implies exists|i: int|
            0 <= i < self.sections_seq().len() && self.sections_seq()[i].name@ == k by {
            lemma_section_map_contains(self.sections@, k);
            let i = choose|i: int| 0 <= i < self.sections@.len() && self.sections@[i].name@ == k;
            assert(0 <= i < self.sections_seq().len() && self.sections_seq()[i].name@ == k);
        }
    }

    /// Creates an empty document.
    pub fn new() -> (r: Self)
        ensures
            r@ == Map::<Seq<char>, Map<Seq<char>, Option<Seq<char>>>>::empty(),
            r.wf(),
    {
        Ini { sections: Vec::new() }
    }

    /// Whether a section of this name exists.
    pub fn contains(&self, section_name: &str) -> (r: bool)
        requires
            self.wf(),
        ensures
            r == self@.contains_key(section_name@),
    {
        proof {
            lemma_section_map_contains(self.sections@, section_name@);
        }
        let n = self.sections.len();
        let mut i: usize = 0;
        while i < n
            invariant
                0 <= i <= n,
                self.wf(),
                n == self.sections_seq().len(),
                forall|k: int| 0 <= k < i ==> self.sections_seq()[k].name@ != section_name@,
            decreases n - i,
        {
            if str_eq(self.sections[i].name.as_str(), section_name) {
                proof {
                    lemma_section_map_contains(self.sections@, section_name@);
                }
                return true;
            }
            i = i + 1;
        }
        proof {
            lemma_section_map_contains(self.sections@, section_name@);
        }
        false
    }

    /// The section of this name, if any.
    pub fn get(&self, section_name: &str) -> (r: Option<&IniSection>)
        requires
            self.wf(),
        ensures
            match r {
                Some(sec) => self@.contains_key(section_name@) && sec.name@ == section_name@
                    && sec@ == self@[section_name@] && sec.wf(),
                None => !self@.contains_key(section_name@),
            },
    {
        let n = self.sections.len();
        let mut i: usize = 0;
        while i < n
            invariant
                0 <= i <= n,
                self.wf(),
                n == self.sections_seq().len(),
                forall|k: int| 0 <= k < i ==> self.sections_seq()[k].name@ != section_name@,
            decreases n - i,
        {
            if str_eq(self.sections[i].name.as_str(), section_name) {
                proof {
                    lemma_section_map_value(self.sections@, i as int);
                }
                return Some(&self.sections[i]);
            }
            i = i + 1;
        }
        proof {
            lemma_section_map_contains(self.sections@, section_name@);
        }
        None
    }

    /// Creates an empty section of this name unless one exists.
    pub fn create(&mut self, section_name: &str)
        requires
            old(self).wf(),
        ensures
            final(self).wf(),
            final(self)@ == if old(self)@.contains_key(section_name@) {
                old(self)@
            } else {
                old(self)@.insert(section_name@, Map::<Seq<char>, Option<Seq<char>>>::empty())
            },
    {
        if !self.contains(section_name) {
            let section = IniSection::new(section_name);
            let ghost before = self.sections@;
            proof {
                lemma_section_map_contains(before, section_name@);
            }
            self.sections.push(section);
            proof {
                assert(self.sections@.drop_last() =~= before);
                assert(distinct_section_names(self.sections@));
            }
        }
    }

    /// Stores `section` under its name, replacing any section of the
    /// same name.
    pub fn put(&mut self, section: IniSection)
        requires
            old(self).wf(),
            section.wf(),
        ensures
            final(self).wf(),
            final(self)@ == old(self)@.insert(section.name@, section@),
    {
        let n = self.sections.len();
        let mut i: usize = 0;
        while i < n
            invariant
                0 <= i <= n,
                old(self) == self,
                self.wf(),
                section.wf(),
                n == self.sections_seq().len(),
                forall|k: int| 0 <= k < i ==> self.sections_seq()[k].name@ != section.name@,
            decreases n - i,
        {
            if str_eq(self.sections[i].name.as_str(), section.name.as_str()) {
                let ghost before = self.sections@;
                self.sections.set(i, section);
                proof {
                    lemma_section_map_update(before, i as int, self.sections@[i as int]);
                    assert forall|k: int|
                        0 <= k < self.sections@.len() implies (
                    #[trigger] self.sections@[k]).wf() by {
                        if k != i as int {
                            assert(self.sections@[k] == before[k]);
                        }
                    }
                }
                return ;
            }
            i = i + 1;
        }
        let ghost before = self.sections@;
        self.sections.push(section);
        proof {
            assert(self.sections@.drop_last() =~= before);
            assert(distinct_section_names(self.sections@));
        }
    }

    /// The section of this name, created empty first if it was absent.
    pub fn get_or_create(&mut self, section_name: &str) -> (r: &IniSection)
        requires
            old(self).wf(),
        ensures
            final(self).wf(),
            final(self)@ == if old(self)@.contains_key(section_name@) {
                old(self)@
            } else {
                old(self)@.insert(section_name@, Map::<Seq<char>, Option<Seq<char>>>::empty())
            },
            r.name@ == section_name@,
            r@ == final(self)@[section_name@],
            r.wf(),
    {
        self.create(section_name);
        match self.get(section_name) {
            Some(sec) => sec,
            None => vstd::pervasive::unreached(),
        }
    }

    /// The sections, for iteration in storage order.
    pub fn iter(&self) -> (r: &Vec<IniSection>)
        ensures
            r@ == self.sections_seq(),
    {
        &self.sections
    }
}

} // verus!

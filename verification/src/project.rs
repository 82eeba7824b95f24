//! Projects read from the INI document: sections named `project NAME`
//! become projects, and their `item.NAME.FIELD` keys become deployable
//! items. Every load is pinned to a spec-level fold over the document's
//! sections and entries. Path existence (a `source_path` on disk, a
//! valid `java_home`) is the unverified shell's check.

use vstd::prelude::*;

use crate::config_error::ConfigurationError;
use crate::ini::{opt_seq, sec_value, Ini, IniSection};
use crate::loader::strip_quotes;
use crate::text::{
    eq_nocase, spec_parse_i32, split_by, split_str, starts_with, str_eq, str_eq_nocase,
    str_starts_with, trim, trim_spec,
};

verus! {

/// Spec-level picture of a deployable item.
#[verifier::ext_equal]
pub struct ItemModel {
    pub name: Seq<char>,
    pub alias: Seq<Seq<char>>,
    pub context_path: Seq<char>,
    pub source_path: Seq<char>,
}

/// Spec-level picture of a project.
#[verifier::ext_equal]
pub struct ProjectModel {
    pub name: Seq<char>,
    pub alias: Seq<Seq<char>>,
    pub description: Option<Seq<char>>,
    pub java_home: Option<Seq<char>>,
    pub java_opts: Option<Seq<char>>,
    pub catalina_home: Option<Seq<char>>,
    pub catalina_base: Option<Seq<char>>,
    pub enable_logfile: Option<bool>,
    pub http_port: Option<i32>,
    pub server_port: Option<i32>,
    pub jpda_port: Option<i32>,
    pub items: Seq<ItemModel>,
}

/// One deployable item of a project: its context path and where its
/// sources live.
#[derive(Debug)]
pub struct ProjectItem {
    pub name: String,
    pub alias: Vec<String>,
    pub context_path: String,
    pub source_path: String,
}

/// Runtime overrides of one project; unset fields fall back to the
/// tool-wide runtime.
#[derive(Debug)]
pub struct ProjectRuntime {
    pub java_home: Option<String>,
    pub java_opts: Option<String>,
    pub catalina_home: Option<String>,
    pub catalina_base: Option<String>,
    pub enable_logfile: Option<bool>,
    pub http_port: Option<i32>,
    pub server_port: Option<i32>,
    pub jpda_port: Option<i32>,
}

/// One project: name, aliases, runtime overrides and items.
#[derive(Debug)]
pub struct Project {
    pub name: String,
    pub alias: Vec<String>,
    pub description: Option<String>,
    pub runtime: ProjectRuntime,
    pub items: Vec<ProjectItem>,
}

impl ProjectItem {
    /// The spec-level picture of this item.
    pub open spec fn model(&self) -> ItemModel {
        ItemModel {
            name: self.name@,
            alias: self.alias.deep_view(),
            context_path: self.context_path@,
            source_path: self.source_path@,
        }
    }

    /// An item with every field empty.
    pub fn new() -> (r: ProjectItem)
        ensures
            r.model() == blank_item(Seq::<char>::empty()),
    {
        let r = ProjectItem {
            name: String::new(),
            alias: Vec::new(),
            context_path: String::new(),
            source_path: String::new(),
        };
        proof {
            assert(r.alias.deep_view() =~= Seq::<Seq<char>>::empty());
        }
        r
    }
}

impl ProjectRuntime {
    /// Overrides with nothing set.
    pub fn new() -> (r: Self)
        ensures
            r.java_home is None,
            r.java_opts is None,
            r.catalina_home is None,
            r.catalina_base is None,
            r.enable_logfile is None,
            r.http_port is None,
            r.server_port is None,
            r.jpda_port is None,
    {
        ProjectRuntime {
            java_home: None,
            java_opts: None,
            catalina_home: None,
            catalina_base: None,
            enable_logfile: None,
            http_port: None,
            server_port: None,
            jpda_port: None,
        }
    }
}

impl Project {
    /// The spec-level picture of this project.
    pub open spec fn model(&self) -> ProjectModel {
        ProjectModel {
            name: self.name@,
            alias: self.alias.deep_view(),
            description: opt_seq(self.description),
            java_home: opt_seq(self.runtime.java_home),
            java_opts: opt_seq(self.runtime.java_opts),
            catalina_home: opt_seq(self.runtime.catalina_home),
            catalina_base: opt_seq(self.runtime.catalina_base),
            enable_logfile: self.runtime.enable_logfile,
            http_port: self.runtime.http_port,
            server_port: self.runtime.server_port,
            jpda_port: self.runtime.jpda_port,
            items: models_of(self.items@),
        }
    }

    /// A project with every field empty.
    pub fn new() -> (r: Project)
        ensures
            r.model() == blank_project(Seq::<char>::empty()),
    {
        let r = Project {
            name: String::new(),
            alias: Vec::new(),
            description: None,
            runtime: ProjectRuntime::new(),
            items: Vec::new(),
        };
        proof {
            assert(r.alias.deep_view() =~= Seq::<Seq<char>>::empty());
            assert(models_of(r.items@) =~= Seq::<ItemModel>::empty());
        }
        r
    }

    /// The item `s` picks: by exact name first, else by alias; an
    /// exact-name match anywhere takes precedence over any alias match.
    pub fn get_item(&self, s: &str) -> (r: Option<&ProjectItem>)
        ensures
            match r {
                Some(it) => {
                    &&& exists|i: int| 0 <= i < self.items@.len() && self.items@[i] == *it
                    &&& (it.name@ == s@ || seq_has(it.model().alias, s@))
                    &&& (exists|i: int|
                        0 <= i < self.items@.len() && (#[trigger] self.items@[i]).name@ == s@)
                        ==> it.name@ == s@
                },
                None => forall|i: int|
                    0 <= i < self.items@.len() ==> (#[trigger] self.items@[i]).name@ != s@
                        && !seq_has(self.items@[i].model().alias, s@),
            },
    {
        let n = self.items.len();
        let mut i: usize = 0;
        while i < n
            invariant
                0 <= i <= n,
                n == self.items@.len(),
                forall|k: int| 0 <= k < i ==> (#[trigger] self.items@[k]).name@ != s@,
            decreases n - i,
        {
            if str_eq(self.items[i].name.as_str(), s) {
                return Some(&self.items[i]);
            }
            i = i + 1;
        }
        let mut i: usize = 0;
        while i < n
            invariant
                0 <= i <= n,
                n == self.items@.len(),
                forall|k: int| 0 <= k < n ==> (#[trigger] self.items@[k]).name@ != s@,
                forall|k: int| 0 <= k < i ==> !seq_has(self.items@[k].model().alias, s@),
            decreases n - i,
        {
            let item = &self.items[i];
            let m = item.alias.len();
            let mut j: usize = 0;
            while j < m
                invariant
                    0 <= j <= m,
                    0 <= i < n == self.items@.len(),
                    *item == self.items@[i as int],
                    m == item.alias@.len(),
                    forall|k: int| 0 <= k < n ==> (#[trigger] self.items@[k]).name@ != s@,
                    forall|k: int| 0 <= k < j ==> item.alias.deep_view()[k] != s@,
                decreases m - j,
            {
                if str_eq(item.alias[j].as_str(), s) {
                    proof {
                        assert(item.model().alias[j as int] == s@);
                        assert(seq_has(item.model().alias, s@));
                        assert(0 <= i < self.items@.len() && self.items@[i as int] == *item);
                    }
                    return Some(item);
                }
                j = j + 1;
            }
            proof {
                assert(!seq_has(item.model().alias, s@));
            }
            i = i + 1;
        }
        None
    }
}

/// The list `ss` holds `x`.
pub open spec fn seq_has(ss: Seq<Seq<char>>, x: Seq<char>) -> bool {
    exists|k: int| 0 <= k < ss.len() && ss[k] == x
}

/// Whether the list holds a string equal to `x`.
fn vec_has(ss: &Vec<String>, x: &str) -> (r: bool)
    ensures
        r == seq_has(ss.deep_view(), x@),
{
    let n = ss.len();
    let mut i: usize = 0;
    while i < n
        invariant
            0 <= i <= n,
            n == ss@.len(),
            forall|k: int| 0 <= k < i ==> ss.deep_view()[k] != x@,
        decreases n - i,
    {
        if str_eq(ss[i].as_str(), x) {
            proof {
                assert(ss.deep_view()[i as int] == x@);
            }
            return true;
        }
        i = i + 1;
    }
    false
}

/// The spec pictures of a list of items.
pub open spec fn models_of(items: Seq<ProjectItem>) -> Seq<ItemModel> {
    items.map_values(|it: ProjectItem| it.model())
}

/// An item with only its name set.
pub open spec fn blank_item(name: Seq<char>) -> ItemModel {
    ItemModel {
        name,
        alias: Seq::empty(),
        context_path: Seq::empty(),
        source_path: Seq::empty(),
    }
}

/// A project with only its name set.
pub open spec fn blank_project(name: Seq<char>) -> ProjectModel {
    ProjectModel {
        name,
        alias: Seq::empty(),
        description: None,
        java_home: None,
        java_opts: None,
        catalina_home: None,
        catalina_base: None,
        enable_logfile: None,
        http_port: None,
        server_port: None,
        jpda_port: None,
        items: Seq::empty(),
    }
}

/// Index of the first item of this name.
pub open spec fn find_model(items: Seq<ItemModel>, name: Seq<char>) -> Option<int>
    decreases items.len(),
{
    if items.len() == 0 {
        None
    } else if items[0].name == name {
        Some(0)
    } else {
        match find_model(items.drop_first(), name) {
            Some(i) => Some(i + 1),
            None => None,
        }
    }
}

/// Stores `it` under its name: in place of the item of the same name,
/// or at the end.
pub open spec fn store_model(items: Seq<ItemModel>, it: ItemModel) -> Seq<ItemModel> {
    match find_model(items, it.name) {
        Some(i) => items.update(i, it),
        None => items.push(it),
    }
}

/// Adds `x` unless present.
pub open spec fn add_alias(al: Seq<Seq<char>>, x: Seq<char>) -> Seq<Seq<char>> {
    if seq_has(al, x) {
        al
    } else {
        al.push(x)
    }
}

/// Adds each piece, trimmed, unless present.
pub open spec fn add_aliases(al: Seq<Seq<char>>, pieces: Seq<Seq<char>>) -> Seq<Seq<char>>
    decreases pieces.len(),
{
    if pieces.len() == 0 {
        al
    } else {
        add_aliases(add_alias(al, trim_spec(pieces[0])), pieces.drop_first())
    }
}

/// State of the item scan: the items built so far and the context
/// paths already taken.
#[verifier::ext_equal]
pub struct ItemsState {
    pub items: Seq<ItemModel>,
    pub ctx: Seq<Seq<char>>,
}

pub open spec fn msg_ctx_empty(iname: Seq<char>) -> Seq<char> {
    "'item."@.add(iname).add(".context_path' must not be empty."@)
}

pub open spec fn msg_ctx_slash(iname: Seq<char>, cp: Seq<char>) -> Seq<char> {
    "'item."@.add(iname).add(".context_path' must start with '/': "@).add(cp)
}

pub open spec fn msg_ctx_dup(pname: Seq<char>, iname: Seq<char>, cp: Seq<char>) -> Seq<char> {
    "Project '"@.add(pname).add("', item '"@).add(iname).add("': Duplicate context_path: "@).add(
        cp,
    )
}

pub open spec fn msg_src_empty(iname: Seq<char>) -> Seq<char> {
    "'item."@.add(iname).add(".source_path' must not be empty."@)
}

/// One entry of a project section, applied to the item scan. Keys not
/// of the shape `item.NAME.FIELD` are skipped; `alias` accumulates
/// comma-separated aliases; `context_path` must be present, start with
/// `/` and be unique across the project's items; `source_path` must be
/// present (whether it exists on disk is the shell's check); other
/// fields only bring the item into being.
pub open spec fn item_step(
    pname: Seq<char>,
    st: ItemsState,
    key: Seq<char>,
    value: Option<Seq<char>>,
) -> Result<ItemsState, Seq<char>> {
    if !starts_with(key, "item."@) {
        Ok(st)
    } else {
        let parts = split_by(key, "."@);
        if parts.len() != 3 {
            Ok(st)
        } else {
            let iname = parts[1];
            let base = match find_model(st.items, iname) {
                Some(i) => st.items[i],
                None => blank_item(iname),
            };
            let field = parts[2];
            if field == "alias"@ {
                let it = match value {
                    Some(v) => ItemModel { alias: add_aliases(base.alias, split_by(v, ","@)), ..base },
                    None => base,
                };
                Ok(ItemsState { items: store_model(st.items, it), ctx: st.ctx })
            } else if field == "context_path"@ {
                match value {
                    None => Err(msg_ctx_empty(iname)),
                    Some(cp) => if starts_with(cp, "/"@) {
                        if seq_has(st.ctx, cp) {
                            Err(msg_ctx_dup(pname, iname, cp))
                        } else {
                            Ok(
                                ItemsState {
                                    items: store_model(st.items, ItemModel { context_path: cp, ..base }),
                                    ctx: st.ctx.push(cp),
                                },
                            )
                        }
                    } else {
                        Err(msg_ctx_slash(iname, cp))
                    },
                }
            } else if field == "source_path"@ {
                match value {
                    None => Err(msg_src_empty(iname)),
                    Some(sp) => Ok(
                        ItemsState {
                            items: store_model(st.items, ItemModel { source_path: sp, ..base }),
                            ctx: st.ctx,
                        },
                    ),
                }
            } else {
                Ok(ItemsState { items: store_model(st.items, base), ctx: st.ctx })
            }
        }
    }
}

/// View of a section's entries.
pub open spec fn entry_views(s: Seq<(String, Option<String>)>) -> Seq<
    (Seq<char>, Option<Seq<char>>),
> {
    s.map_values(|e: (String, Option<String>)| (e.0@, opt_seq(e.1)))
}

/// The item scan folded over a section's entries in storage order.
pub open spec fn items_fold(
    pname: Seq<char>,
    entries: Seq<(Seq<char>, Option<Seq<char>>)>,
    st: ItemsState,
) -> Result<ItemsState, Seq<char>>
    decreases entries.len(),
{
    if entries.len() == 0 {
        Ok(st)
    } else {
        match item_step(pname, st, entries[0].0, entries[0].1) {
            Ok(st2) => items_fold(pname, entries.drop_first(), st2),
            Err(m) => Err(m),
        }
    }
}

/// Index of the first item missing its context path or source path.
pub open spec fn first_incomplete(items: Seq<ItemModel>) -> Option<int>
    decreases items.len(),
{
    if items.len() == 0 {
        None
    } else if items[0].context_path.len() == 0 || items[0].source_path.len() == 0 {
        Some(0)
    } else {
        match first_incomplete(items.drop_first()) {
            Some(i) => Some(i + 1),
            None => None,
        }
    }
}

/// What scanning a project section's entries for items yields: the
/// items, in first-mention order, or the first failure's message; an
/// item left without a context path or source path is a failure too.
pub open spec fn items_result(
    pname: Seq<char>,
    entries: Seq<(Seq<char>, Option<Seq<char>>)>,
) -> Result<Seq<ItemModel>, Seq<char>> {
    match items_fold(pname, entries, ItemsState { items: Seq::empty(), ctx: Seq::empty() }) {
        Err(m) => Err(m),
        Ok(st) => match first_incomplete(st.items) {
            Some(i) => Err(
                if st.items[i].context_path.len() == 0 {
                    msg_ctx_empty(st.items[i].name)
                } else {
                    msg_src_empty(st.items[i].name)
                },
            ),
            None => Ok(st.items),
        },
    }
}

/// Scans `section` for `item.NAME.FIELD` keys and appends the items to
/// `project.items`, exactly as [`items_result`] has it over the
/// section's entries; on a failure the project is left unchanged.
pub fn ini_load_item(project: &mut Project, section: &IniSection) -> (r: Result<
    (),
    ConfigurationError,
>)
    ensures
        final (project).name == old(project).name,
        final (project).alias == old(project).alias,
        final (project).description == old(project).description,
        final (project).runtime == old(project).runtime,
        match r {
            Ok(()) => {
                &&& items_result(old(project).name@, entry_views(section.entries_seq())) is Ok
                &&& models_of(final (project).items@) == models_of(old(project).items@).add(
                    items_result(old(project).name@, entry_views(section.entries_seq()))->Ok_0,
                )
            },
            Err(e) => {
                &&& items_result(old(project).name@, entry_views(section.entries_seq())) is Err
                &&& e.msg@ == items_result(
                    old(project).name@,
                    entry_views(section.entries_seq()),
                )->Err_0
                &&& final (project).items == old(project).items
            },
        },
{
    proof {
        reveal_strlit(".");
        reveal_strlit(",");
    }
    let ghost pname = project.name@;
    let ghost evs = entry_views(section.entries_seq());
    let entries = section.iter();
    let n = entries.len();
    let mut work: Vec<ProjectItem> = Vec::new();
    let mut ctx: Vec<String> = Vec::new();
    let mut i: usize = 0;
    proof {
        assert(models_of(work@) =~= Seq::<ItemModel>::empty());
        assert(ctx.deep_view() =~= Seq::<Seq<char>>::empty());
        assert(evs.skip(0) =~= evs);
    }
    while i < n
        invariant
            0 <= i <= n,
            n == entries@.len(),
            entries@ == section.entries_seq(),
            evs == entry_views(section.entries_seq()),
            pname == old(project).name@,
            project == old(project),
            items_fold(pname, evs, ItemsState { items: Seq::empty(), ctx: Seq::empty() })
                == items_fold(
                pname,
                evs.skip(i as int),
                ItemsState { items: models_of(work@), ctx: ctx.deep_view() },
            ),
        decreases n - i,
    {
        let ghost st = ItemsState { items: models_of(work@), ctx: ctx.deep_view() };
        let key: &String = &entries[i].0;
        let value: &Option<String> = &entries[i].1;
        proof {
            assert(evs.skip(i as int)[0] == evs[i as int]);
            assert(evs.skip(i as int).drop_first() =~= evs.skip(i as int + 1));
            assert(evs[i as int] == (key@, opt_seq(*value)));
        }
        proof {
            reveal_strlit(".");
            reveal_strlit(",");
        }
        let ghost stepped = item_step(pname, st, key@, opt_seq(*value));
        if !str_starts_with(key.as_str(), "item.") {
            proof {
                assert(stepped == Ok::<ItemsState, Seq<char>>(st));
                assert(items_fold(pname, evs.skip(i as int), st) == items_fold(
                    pname,
                    evs.skip(i as int + 1),
                    st,
                ));
            }
            i = i + 1;
            continue ;
        }
        let parts = split_str(key.as_str(), ".");
        if parts.len() != 3 {
            proof {
                assert(parts.deep_view().len() == split_by(key@, "."@).len());
                assert(stepped == Ok::<ItemsState, Seq<char>>(st));
                assert(items_fold(pname, evs.skip(i as int), st) == items_fold(
                    pname,
                    evs.skip(i as int + 1),
                    st,
                ));
            }
            i = i + 1;
            continue ;
        }
        let iname: &String = &parts[1];
        let field: &String = &parts[2];
        proof {
            assert(iname@ == split_by(key@, "."@)[1]);
            assert(field@ == split_by(key@, "."@)[2]);
        }
        // find or create the item this key speaks of
        let mut idx: usize = 0;
        let wn = work.len();
        while idx < wn && !str_eq(work[idx].name.as_str(), iname.as_str())
            invariant
                0 <= idx <= wn,
                wn == work@.len(),
                forall|k: int| 0 <= k < idx ==> (#[trigger] work@[k]).model().name != iname@,
            decreases wn - idx,
        {
            idx = idx + 1;
        }
        proof {
            assert forall|k: int| 0 <= k < idx implies #[trigger] models_of(work@)[k].name
                != iname@ by {
                assert(models_of(work@)[k] == work@[k].model());
            }
            if idx < wn {
                assert(models_of(work@)[idx as int] == work@[idx as int].model());
            }
            lemma_find_model_scan(models_of(work@), iname@, idx as int);
        }
        let mut item: ProjectItem = if idx < wn {
            clone_project_item(&work[idx])
        } else {
            let mut fresh = ProjectItem::new();
            fresh.name = String::from_str(iname.as_str());
            proof {
                assert(fresh.model() =~= blank_item(iname@));
            }
            fresh
        };
        let ghost base = item.model();
        proof {
            assert(base == match find_model(st.items, iname@) {
                Some(k) => st.items[k],
                None => blank_item(iname@),
            });
        }
        let mut failed: Option<ConfigurationError> = None;
        if str_eq(field.as_str(), "alias") {
            match value {
                Some(v) => {
                    let pieces = split_str(v.as_str(), ",");
                    let ghost pvs = pieces.deep_view();
                    let m = pieces.len();
                    let mut j: usize = 0;
                    proof {
                        assert(pvs.skip(0) =~= pvs);
                    }
                    while j < m
                        invariant
                            0 <= j <= m,
                            m == pvs.len(),
                            pvs == pieces.deep_view(),
                            item.name@ == base.name,
                            item.context_path@ == base.context_path,
                            item.source_path@ == base.source_path,
                            add_aliases(base.alias, pvs) == add_aliases(
                                item.alias.deep_view(),
                                pvs.skip(j as int),
                            ),
                        decreases m - j,
                    {
                        proof {
                            assert(pvs.skip(j as int)[0] == pvs[j as int]);
                            assert(pvs.skip(j as int).drop_first() =~= pvs.skip(j as int + 1));
                            assert(pieces@[j as int]@ == pvs[j as int]);
                        }
                        let piece = trim(pieces[j].as_str());
                        let ghost al0 = item.alias.deep_view();
                        if !vec_has(&item.alias, piece) {
                            item.alias.push(String::from_str(piece));
                            proof {
                                assert(item.alias.deep_view() =~= al0.push(piece@));
                            }
                        }
                        proof {
                            assert(item.alias.deep_view() == add_alias(al0, trim_spec(pvs[j as int])));
                        }
                        j = j + 1;
                    }
                    proof {
                        assert(pvs.skip(m as int) =~= Seq::<Seq<char>>::empty());
                        assert(item.alias.deep_view() == add_aliases(base.alias, pvs));
                        assert(item.model() =~= (ItemModel {
                            alias: add_aliases(base.alias, split_by(v@, ","@)),
                            ..base
                        }));
                    }
                },
                None => {},
            }
        } else if str_eq(field.as_str(), "context_path") {
            match value {
                None => {
                    failed = Some(
                        ConfigurationError {
                            msg: String::from_str("'item.").concat(iname.as_str()).concat(
                                ".context_path' must not be empty.",
                            ),
                        },
                    );
                },
                Some(cp) => {
                    if str_starts_with(cp.as_str(), "/") {
                        if vec_has(&ctx, cp.as_str()) {
                            failed = Some(
                                ConfigurationError {
                                    msg: String::from_str("Project '").concat(
                                        project.name.as_str(),
                                    ).concat("', item '").concat(iname.as_str()).concat(
                                        "': Duplicate context_path: ",
                                    ).concat(cp.as_str()),
                                },
                            );
                        } else {
                            let ghost ctx0 = ctx.deep_view();
                            item.context_path = cp.clone();
                            ctx.push(cp.clone());
                            proof {
                                assert(item.model() =~= (ItemModel { context_path: cp@, ..base }));
                                assert(ctx.deep_view() =~= ctx0.push(cp@));
                            }
                        }
                    } else {
                        failed = Some(
                            ConfigurationError {
                                msg: String::from_str("'item.").concat(iname.as_str()).concat(
                                    ".context_path' must start with '/': ",
                                ).concat(cp.as_str()),
                            },
                        );
                    }
                },
            }
        } else if str_eq(field.as_str(), "source_path") {
            match value {
                None => {
                    failed = Some(
                        ConfigurationError {
                            msg: String::from_str("'item.").concat(iname.as_str()).concat(
                                ".source_path' must not be empty.",
                            ),
                        },
                    );
                },
                Some(sp) => {
                    item.source_path = sp.clone();
                    proof {
                        assert(item.model() =~= (ItemModel { source_path: sp@, ..base }));
                    }
                },
            }
        }
        match failed {
            Some(e) => {
                proof {
                    assert(stepped is Err);
                    assert(e.msg@ =~= stepped->Err_0);
                    lemma_items_fold_err(pname, evs, i as int, st, stepped->Err_0);
                }
                return Err(e);
            },
            None => {},
        }
        // store the item back under its name
        let ghost work0 = models_of(work@);
        if idx < wn {
            work.set(idx, item);
            proof {
                lemma_models_update(work0, work@, idx as int);
            }
        } else {
            work.push(item);
            proof {
                assert(models_of(work@) =~= work0.push(work@[wn as int].model()));
            }
        }
        proof {
            assert(stepped is Ok);
            assert(models_of(work@) =~= stepped->Ok_0.items);
            assert(ctx.deep_view() =~= stepped->Ok_0.ctx);
            assert((ItemsState { items: models_of(work@), ctx: ctx.deep_view() }) =~= stepped->Ok_0);
            assert(items_fold(pname, evs.skip(i as int), st) == items_fold(
                pname,
                evs.skip(i as int + 1),
                stepped->Ok_0,
            ));
        }
        i = i + 1;
    }
    proof {
        assert(evs.skip(n as int) =~= Seq::<(Seq<char>, Option<Seq<char>>)>::empty());
    }
    // every item must have its context path and source path
    let wn = work.len();
    let mut k: usize = 0;
    while k < wn
        invariant
            0 <= k <= wn,
            wn == work@.len(),
            project == old(project),
            pname == old(project).name@,
            evs == entry_views(section.entries_seq()),
            items_fold(pname, evs, ItemsState { items: Seq::empty(), ctx: Seq::empty() }) is Ok,
            models_of(work@) == items_fold(
                pname,
                evs,
                ItemsState { items: Seq::empty(), ctx: Seq::empty() },
            )->Ok_0.items,
            forall|t: int|
                0 <= t < k ==> (#[trigger] models_of(work@)[t]).context_path.len() > 0
                    && models_of(work@)[t].source_path.len() > 0,
        decreases wn - k,
    {
        proof {
            assert(models_of(work@)[k as int] == work@[k as int].model());
            lemma_first_incomplete(models_of(work@), k as int);
        }
        if work[k].context_path.as_str().is_empty() {
            let e = ConfigurationError {
                msg: String::from_str("'item.").concat(work[k].name.as_str()).concat(
                    ".context_path' must not be empty.",
                ),
            };
            proof {
                assert(items_result(pname, evs) is Err);
                assert(e.msg@ =~= items_result(pname, evs)->Err_0);
            }
            return Err(e);
        }
        if work[k].source_path.as_str().is_empty() {
            let e = ConfigurationError {
                msg: String::from_str("'item.").concat(work[k].name.as_str()).concat(
                    ".source_path' must not be empty.",
                ),
            };
            proof {
                assert(items_result(pname, evs) is Err);
                assert(e.msg@ =~= items_result(pname, evs)->Err_0);
            }
            return Err(e);
        }
        k = k + 1;
    }
    proof {
        lemma_first_incomplete(models_of(work@), wn as int);
        assert(first_incomplete(models_of(work@)) is None);
    }
    let ghost mine = models_of(project.items@);
    let ghost added = models_of(work@);
    let mut w = work;
    project.items.append(&mut w);
    proof {
        assert(models_of(project.items@) =~= mine.add(added));
    }
    Ok(())
}

/// A scan that stopped at index `idx` without a match found the first
/// item of that name, or none.
proof fn lemma_find_model_scan(items: Seq<ItemModel>, name: Seq<char>, idx: int)
    requires
        0 <= idx <= items.len(),
        forall|k: int| 0 <= k < idx ==> items[k].name != name,
        idx < items.len() ==> items[idx].name == name,
    ensures
        idx < items.len() ==> find_model(items, name) == Some(idx),
        idx == items.len() ==> find_model(items, name) is None,
    decreases items.len(),
{
    if items.len() > 0 {
        if items[0].name == name {
        } else {
            lemma_find_model_scan(items.drop_first(), name, idx - 1);
        }
    }
}

/// Updating one element updates its model and no other.
proof fn lemma_models_update(before: Seq<ItemModel>, after: Seq<ProjectItem>, idx: int)
    requires
        0 <= idx < after.len(),
        before.len() == after.len(),
        forall|k: int| 0 <= k < after.len() && k != idx ==> before[k] == after[k].model(),
    ensures
        models_of(after) == before.update(idx, after[idx].model()),
{
    assert(models_of(after) =~= before.update(idx, after[idx].model()));
}

/// Once the fold has failed at a prefix, the whole fold fails with the
/// same message.
proof fn lemma_items_fold_err(
    pname: Seq<char>,
    evs: Seq<(Seq<char>, Option<Seq<char>>)>,
    i: int,
    st: ItemsState,
    msg: Seq<char>,
)
    requires
        0 <= i < evs.len(),
        items_fold(pname, evs, ItemsState { items: Seq::empty(), ctx: Seq::empty() })
            == items_fold(pname, evs.skip(i), st),
        item_step(pname, st, evs[i].0, evs[i].1) == Err::<ItemsState, Seq<char>>(msg),
    ensures
        items_fold(pname, evs, ItemsState { items: Seq::empty(), ctx: Seq::empty() }) == Err::<
            ItemsState,
            Seq<char>,
        >(msg),
{
    assert(evs.skip(i)[0] == evs[i]);
}

/// A scan over complete items up to `k` pins the first incomplete one.
proof fn lemma_first_incomplete(items: Seq<ItemModel>, k: int)
    requires
        0 <= k <= items.len(),
        forall|t: int|
            0 <= t < k ==> (#[trigger] items[t]).context_path.len() > 0
                && items[t].source_path.len() > 0,
    ensures
        k < items.len() && (items[k].context_path.len() == 0 || items[k].source_path.len() == 0)
            ==> first_incomplete(items) == Some(k),
        k == items.len() ==> first_incomplete(items) is None,
    decreases items.len(),
{
    if items.len() > 0 {
        if items[0].context_path.len() == 0 || items[0].source_path.len() == 0 {
        } else {
            if k > 0 {
                lemma_first_incomplete(items.drop_first(), k - 1);
            }
        }
    }
}

/// An independent copy of one item.
pub fn clone_project_item(it: &ProjectItem) -> (r: ProjectItem)
    ensures
        r.model() == it.model(),
        r.name@ == it.name@,
{
    let mut alias: Vec<String> = Vec::new();
    let n = it.alias.len();
    let mut i: usize = 0;
    while i < n
        invariant
            0 <= i <= n,
            n == it.alias@.len(),
            alias.deep_view() =~= it.alias.deep_view().take(i as int),
        decreases n - i,
    {
        let ghost before = alias.deep_view();
        alias.push(it.alias[i].clone());
        proof {
            assert(alias.deep_view() =~= before.push(it.alias@[i as int]@));
            assert(it.alias.deep_view()[i as int] == it.alias@[i as int]@);
            assert(alias.deep_view() =~= it.alias.deep_view().take(i as int + 1));
        }
        i = i + 1;
    }
    proof {
        assert(alias.deep_view() =~= it.alias.deep_view());
    }
    let r = ProjectItem {
        name: it.name.clone(),
        alias,
        context_path: it.context_path.clone(),
        source_path: it.source_path.clone(),
    };
    proof {
        assert(r.model() =~= it.model());
    }
    r
}

} // verus!

verus! {

/// The message a duplicate project alias is rejected with.
pub open spec fn msg_dup_alias(pname: Seq<char>, alias: Seq<char>) -> Seq<char> {
    "Project '"@.add(pname).add("': Duplicate alias: "@).add(alias)
}

/// The message a repeated project section is rejected with.
pub open spec fn msg_dup_project(name: Seq<char>) -> Seq<char> {
    "Duplicate project '"@.add(name).add("'"@)
}

/// The message a project repeated across documents is rejected with.
pub open spec fn msg_dup_project_merge(name: Seq<char>) -> Seq<char> {
    "Duplicate project: "@.add(name)
}

/// A port override read from text: a number in `0..=65535`, or nothing
/// when the text is absent, not a number, or out of range.
pub open spec fn spec_opt_port(port: Option<Seq<char>>) -> Option<i32> {
    match port {
        None => None,
        Some(s) => match spec_parse_i32(s) {
            Some(v) => if 0 <= v <= 65535 {
                Some(v)
            } else {
                None
            },
            None => None,
        },
    }
}

/// Reads a port override from its text; an absent, malformed or
/// out-of-range value is no override.
pub fn get_port(port: Option<&String>) -> (r: Option<i32>)
    ensures
        r == spec_opt_port(
            match port {
                Some(p) => Some(p@),
                None => None,
            },
        ),
{
    match port {
        None => None,
        Some(port) => match crate::text::parse_i32(port.as_str()) {
            Some(val) => {
                if 0 > val || val > 65535 {
                    None
                } else {
                    Some(val)
                }
            },
            None => None,
        },
    }
}

/// The project aliases folded in, each trimmed: a piece already taken
/// anywhere in the configuration is a failure; otherwise it is recorded
/// both globally and on the project.
pub open spec fn alias_fold(
    pname: Seq<char>,
    global: Seq<Seq<char>>,
    local: Seq<Seq<char>>,
    pieces: Seq<Seq<char>>,
) -> Result<(Seq<Seq<char>>, Seq<Seq<char>>), Seq<char>>
    decreases pieces.len(),
{
    if pieces.len() == 0 {
        Ok((global, local))
    } else {
        let t = trim_spec(pieces[0]);
        if seq_has(global, t) {
            Err(msg_dup_alias(pname, t))
        } else {
            alias_fold(pname, global.push(t), local.push(t), pieces.drop_first())
        }
    }
}

/// Index of the first project of this name.
pub open spec fn find_pmodel(ps: Seq<ProjectModel>, name: Seq<char>) -> Option<int>
    decreases ps.len(),
{
    if ps.len() == 0 {
        None
    } else if ps[0].name == name {
        Some(0)
    } else {
        match find_pmodel(ps.drop_first(), name) {
            Some(i) => Some(i + 1),
            None => None,
        }
    }
}

/// State of the project scan: the projects built so far and every
/// alias taken.
#[verifier::ext_equal]
pub struct ProjectsState {
    pub projects: Seq<ProjectModel>,
    pub aliases: Seq<Seq<char>>,
}

/// One section applied to the project scan. A section whose name does
/// not start with `project ` is skipped. The project's name is the rest
/// of the section name with one pair of optional surrounding quotes
/// stripped; its aliases must be new; its items come from
/// [`items_result`]; a repeated project name is a failure. Runtime
/// overrides are stored as written (path validation is the shell's).
pub open spec fn project_step(st: ProjectsState, sec: IniSection) -> Result<
    ProjectsState,
    Seq<char>,
> {
    if !starts_with(sec.name@, "project "@) {
        Ok(st)
    } else {
        let pname = strip_quotes(
            sec.name@.subrange("project "@.len() as int, sec.name@.len() as int),
        );
        let v = sec@;
        let alias_r = match sec_value(v, "alias"@) {
            Some(a) => alias_fold(pname, st.aliases, Seq::empty(), split_by(a, ","@)),
            None => Ok((st.aliases, Seq::<Seq<char>>::empty())),
        };
        match alias_r {
            Err(m) => Err(m),
            Ok((globals, locals)) => match items_result(pname, entry_views(sec.entries_seq())) {
                Err(m) => Err(m),
                Ok(items) => if find_pmodel(st.projects, pname) is Some {
                    Err(msg_dup_project(pname))
                } else {
                    Ok(
                        ProjectsState {
                            projects: st.projects.push(
                                ProjectModel {
                                    name: pname,
                                    alias: locals,
                                    description: sec_value(v, "description"@),
                                    java_home: sec_value(v, "java_home"@),
                                    java_opts: sec_value(v, "java_opts"@),
                                    catalina_home: sec_value(v, "catalina_home"@),
                                    catalina_base: None,
                                    enable_logfile: match sec_value(v, "enable_logfile"@) {
                                        Some(x) => Some(eq_nocase("true"@, x)),
                                        None => None,
                                    },
                                    http_port: spec_opt_port(sec_value(v, "http_port"@)),
                                    server_port: spec_opt_port(sec_value(v, "server_port"@)),
                                    jpda_port: spec_opt_port(sec_value(v, "jpda_port"@)),
                                    items,
                                },
                            ),
                            aliases: globals,
                        },
                    )
                },
            },
        }
    }
}

/// The project scan folded over a document's sections in storage order.
pub open spec fn projects_fold(secs: Seq<IniSection>, st: ProjectsState) -> Result<
    ProjectsState,
    Seq<char>,
>
    decreases secs.len(),
{
    if secs.len() == 0 {
        Ok(st)
    } else {
        match project_step(st, secs[0]) {
            Ok(st2) => projects_fold(secs.drop_first(), st2),
            Err(m) => Err(m),
        }
    }
}

/// What loading a whole document's projects yields.
pub open spec fn load_result(secs: Seq<IniSection>) -> Result<Seq<ProjectModel>, Seq<char>> {
    match projects_fold(secs, ProjectsState { projects: Seq::empty(), aliases: Seq::empty() }) {
        Ok(st) => Ok(st.projects),
        Err(m) => Err(m),
    }
}

/// The spec pictures of a list of projects.
pub open spec fn pmodels_of(ps: Seq<Project>) -> Seq<ProjectModel> {
    ps.map_values(|p: Project| p.model())
}

} // verus!

verus! {

/// A scan that stopped at `idx` without a match pins `find_pmodel`.
proof fn lemma_find_pmodel_scan(ps: Seq<ProjectModel>, name: Seq<char>, idx: int)
    requires
        0 <= idx <= ps.len(),
        forall|k: int| 0 <= k < idx ==> ps[k].name != name,
        idx < ps.len() ==> ps[idx].name == name,
    ensures
        idx < ps.len() ==> find_pmodel(ps, name) == Some(idx),
        idx == ps.len() ==> find_pmodel(ps, name) is None,
    decreases ps.len(),
{
    if ps.len() > 0 {
        if ps[0].name == name {
        } else {
            lemma_find_pmodel_scan(ps.drop_first(), name, idx - 1);
        }
    }
}

/// Whether a project of this name is already in the list.
fn has_project(ps: &Vec<Project>, name: &str) -> (r: bool)
    ensures
        r == (find_pmodel(pmodels_of(ps@), name@) is Some),
{
    let n = ps.len();
    let mut i: usize = 0;
    while i < n
        invariant
            0 <= i <= n,
            n == ps@.len(),
            forall|k: int| 0 <= k < i ==> (#[trigger] ps@[k]).model().name != name@,
        decreases n - i,
    {
        if str_eq(ps[i].name.as_str(), name) {
            proof {
                assert(pmodels_of(ps@)[i as int] == ps@[i as int].model());
                lemma_find_pmodel_scan(pmodels_of(ps@), name@, i as int);
            }
            return true;
        }
        i = i + 1;
    }
    proof {
        assert forall|k: int| 0 <= k < n implies #[trigger] pmodels_of(ps@)[k].name != name@ by {
            assert(pmodels_of(ps@)[k] == ps@[k].model());
        }
        lemma_find_pmodel_scan(pmodels_of(ps@), name@, n as int);
    }
    false
}

/// Once the project scan has failed at a prefix, the whole scan fails
/// with the same message.
proof fn lemma_projects_fold_err(secs: Seq<IniSection>, i: int, st: ProjectsState, msg: Seq<char>)
    requires
        0 <= i < secs.len(),
        projects_fold(secs, ProjectsState { projects: Seq::empty(), aliases: Seq::empty() })
            == projects_fold(secs.skip(i), st),
        project_step(st, secs[i]) == Err::<ProjectsState, Seq<char>>(msg),
    ensures
        projects_fold(secs, ProjectsState { projects: Seq::empty(), aliases: Seq::empty() })
            == Err::<ProjectsState, Seq<char>>(msg),
{
    assert(secs.skip(i)[0] == secs[i]);
}

/// Loads every `project NAME` section of the document, exactly as
/// [`load_result`] has it over the document's sections in storage
/// order.
#[verifier::rlimit(50)]
pub fn ini_load(ini: &Ini) -> (r: Result<Vec<Project>, ConfigurationError>)
    requires
        ini.wf(),
    ensures
        match r {
            Ok(ps) => load_result(ini.sections_seq()) is Ok && pmodels_of(ps@) == load_result(
                ini.sections_seq(),
            )->Ok_0,
            Err(e) => load_result(ini.sections_seq()) is Err && e.msg@ == load_result(
                ini.sections_seq(),
            )->Err_0,
        },
{
    let ghost secs = ini.sections_seq();
    let sections = ini.iter();
    let n = sections.len();
    let mut projects: Vec<Project> = Vec::new();
    let mut globals: Vec<String> = Vec::new();
    let mut i: usize = 0;
    proof {
        assert(pmodels_of(projects@) =~= Seq::<ProjectModel>::empty());
        assert(globals.deep_view() =~= Seq::<Seq<char>>::empty());
        assert(secs.skip(0) =~= secs);
    }
    while i < n
        invariant
            0 <= i <= n,
            n == sections@.len(),
            sections@ == ini.sections_seq(),
            secs == ini.sections_seq(),
            ini.wf(),
            projects_fold(secs, ProjectsState { projects: Seq::empty(), aliases: Seq::empty() })
                == projects_fold(
                secs.skip(i as int),
                ProjectsState { projects: pmodels_of(projects@), aliases: globals.deep_view() },
            ),
        decreases n - i,
    {
        let ghost st = ProjectsState {
            projects: pmodels_of(projects@),
            aliases: globals.deep_view(),
        };
        let section: &IniSection = &sections[i];
        proof {
            assert(secs.skip(i as int)[0] == secs[i as int]);
            assert(secs.skip(i as int).drop_first() =~= secs.skip(i as int + 1));
            assert(*section == secs[i as int]);
            ini.lemma_wf_sections();
            assert(section.wf());
        }
        let ghost stepped = project_step(st, *section);
        if !str_starts_with(section.name.as_str(), "project ") {
            proof {
                assert(stepped == Ok::<ProjectsState, Seq<char>>(st));
                assert(projects_fold(secs.skip(i as int), st) == projects_fold(
                    secs.skip(i as int + 1),
                    st,
                ));
            }
            i = i + 1;
            continue ;
        }
        let nm = section.name.as_str();
        let nlen = nm.unicode_len();
        let plen = "project ".unicode_len();
        let raw = nm.substring_char(plen, nlen);
        let pname_str = crate::loader::strip_quotes_exec(raw);
        let ghost pname = strip_quotes(
            section.name@.subrange("project "@.len() as int, section.name@.len() as int),
        );
        proof {
            assert(raw@ == section.name@.subrange(
                "project "@.len() as int,
                section.name@.len() as int,
            ));
            assert(pname_str@ == pname);
        }
        let mut project = Project::new();
        project.name = String::from_str(pname_str);
        // fold the project's aliases in, rejecting one already taken
        let mut locals: Vec<String> = Vec::new();
        match section.get("alias") {
            Some(val) => {
                let pieces = split_str_comma(val.as_str());
                let ghost pvs = pieces.deep_view();
                let m = pieces.len();
                let mut j: usize = 0;
                proof {
                    assert(pvs.skip(0) =~= pvs);
                    assert(locals.deep_view() =~= Seq::<Seq<char>>::empty());
                }
                while j < m
                    invariant
                        0 <= j <= m,
                        m == pvs.len(),
                        pvs == pieces.deep_view(),
                        pname == project.name@,
                        0 <= i < secs.len(),
                        secs == ini.sections_seq(),
                        secs[i as int] == *section,
                        section.wf(),
                        projects_fold(
                            secs,
                            ProjectsState { projects: Seq::empty(), aliases: Seq::empty() },
                        ) == projects_fold(secs.skip(i as int), st),
                        stepped == project_step(st, *section),
                        starts_with(section.name@, "project "@),
                        pname == strip_quotes(
                            section.name@.subrange(
                                "project "@.len() as int,
                                section.name@.len() as int,
                            ),
                        ),
                        sec_value(section@, "alias"@) == Some(val@),
                        pvs == split_by(val@, ","@),
                        alias_fold(pname, st.aliases, Seq::empty(), pvs) == alias_fold(
                            pname,
                            globals.deep_view(),
                            locals.deep_view(),
                            pvs.skip(j as int),
                        ),
                    decreases m - j,
                {
                    proof {
                        assert(pvs.skip(j as int)[0] == pvs[j as int]);
                        assert(pvs.skip(j as int).drop_first() =~= pvs.skip(j as int + 1));
                        assert(pieces@[j as int]@ == pvs[j as int]);
                    }
                    let piece = trim(pieces[j].as_str());
                    if vec_has(&globals, piece) {
                        let e = ConfigurationError {
                            msg: String::from_str("Project '").concat(project.name.as_str()).concat(
                                "': Duplicate alias: ",
                            ).concat(piece),
                        };
                        proof {
                            assert(e.msg@ =~= msg_dup_alias(pname, trim_spec(pvs[j as int])));
                            assert(alias_fold(pname, st.aliases, Seq::empty(), pvs) == Err::<
                                (Seq<Seq<char>>, Seq<Seq<char>>),
                                Seq<char>,
                            >(e.msg@));
                            assert(stepped == Err::<ProjectsState, Seq<char>>(e.msg@));
                            lemma_projects_fold_err(secs, i as int, st, e.msg@);
                        }
                        return Err(e);
                    }
                    let ghost g0 = globals.deep_view();
                    let ghost l0 = locals.deep_view();
                    globals.push(String::from_str(piece));
                    locals.push(String::from_str(piece));
                    proof {
                        assert(globals.deep_view() =~= g0.push(piece@));
                        assert(locals.deep_view() =~= l0.push(piece@));
                    }
                    j = j + 1;
                }
                proof {
                    assert(pvs.skip(m as int) =~= Seq::<Seq<char>>::empty());
                    assert(alias_fold(pname, st.aliases, Seq::empty(), pvs) == Ok::<
                        (Seq<Seq<char>>, Seq<Seq<char>>),
                        Seq<char>,
                    >((globals.deep_view(), locals.deep_view())));
                }
            },
            None => {
                proof {
                    assert(locals.deep_view() =~= Seq::<Seq<char>>::empty());
                }
            },
        }
        project.alias = locals;
        // runtime overrides, stored as written
        match section.get("description") {
            Some(desc) => {
                project.description = Some(desc.clone());
            },
            None => {},
        }
        match section.get("java_home") {
            Some(v) => {
                project.runtime.java_home = Some(v.clone());
            },
            None => {},
        }
        match section.get("java_opts") {
            Some(v) => {
                project.runtime.java_opts = Some(v.clone());
            },
            None => {},
        }
        match section.get("catalina_home") {
            Some(v) => {
                project.runtime.catalina_home = Some(v.clone());
            },
            None => {},
        }
        project.runtime.http_port = get_port(section.get("http_port"));
        project.runtime.server_port = get_port(section.get("server_port"));
        project.runtime.jpda_port = get_port(section.get("jpda_port"));
        match section.get("enable_logfile") {
            Some(val) => {
                project.runtime.enable_logfile = Some(str_eq_nocase("true", val.as_str()));
            },
            None => {},
        }
        // the project's items
        match ini_load_item(&mut project, section) {
            Ok(()) => {},
            Err(e) => {
                proof {
                    assert(stepped == Err::<ProjectsState, Seq<char>>(e.msg@));
                    lemma_projects_fold_err(secs, i as int, st, e.msg@);
                }
                return Err(e);
            },
        }
        // a repeated project name is a failure
        if has_project(&projects, project.name.as_str()) {
            let e = ConfigurationError {
                msg: String::from_str("Duplicate project '").concat(project.name.as_str()).concat(
                    "'",
                ),
            };
            proof {
                assert(e.msg@ =~= msg_dup_project(pname));
                assert(stepped == Err::<ProjectsState, Seq<char>>(e.msg@));
                lemma_projects_fold_err(secs, i as int, st, e.msg@);
            }
            return Err(e);
        }
        let ghost ps0 = pmodels_of(projects@);
        let ghost new_model = project.model();
        projects.push(project);
        proof {
            assert(pmodels_of(projects@) =~= ps0.push(new_model));
            assert(stepped is Ok);
            assert(new_model =~= stepped->Ok_0.projects.last());
            assert(pmodels_of(projects@) =~= stepped->Ok_0.projects);
            assert(globals.deep_view() =~= stepped->Ok_0.aliases);
            assert((ProjectsState {
                projects: pmodels_of(projects@),
                aliases: globals.deep_view(),
            }) =~= stepped->Ok_0);
            assert(projects_fold(secs.skip(i as int), st) == projects_fold(
                secs.skip(i as int + 1),
                stepped->Ok_0,
            ));
        }
        i = i + 1;
    }
    proof {
        assert(secs.skip(n as int) =~= Seq::<IniSection>::empty());
    }
    Ok(projects)
}

/// Splits at commas.
fn split_str_comma(s: &str) -> (r: Vec<String>)
    ensures
        r.deep_view() == split_by(s@, ","@),
{
    proof {
        reveal_strlit(",");
    }
    split_str(s, ",")
}

} // verus!

verus! {

/// Projects of a second document folded into the accumulated list: a
/// name already present is a failure.
pub open spec fn merge_models(acc: Seq<ProjectModel>, ps: Seq<ProjectModel>) -> Result<
    Seq<ProjectModel>,
    Seq<char>,
>
    decreases ps.len(),
{
    if ps.len() == 0 {
        Ok(acc)
    } else if find_pmodel(acc, ps[0].name) is Some {
        Err(msg_dup_project_merge(ps[0].name))
    } else {
        merge_models(acc.push(ps[0]), ps.drop_first())
    }
}

/// The extra documents' projects folded into the accumulated list, in
/// document order.
pub open spec fn load_all_fold(acc: Seq<ProjectModel>, extra_secs: Seq<Seq<IniSection>>) -> Result<
    Seq<ProjectModel>,
    Seq<char>,
>
    decreases extra_secs.len(),
{
    if extra_secs.len() == 0 {
        Ok(acc)
    } else {
        match load_result(extra_secs[0]) {
            Err(m) => Err(m),
            Ok(ps) => match merge_models(acc, ps) {
                Err(m) => Err(m),
                Ok(acc2) => load_all_fold(acc2, extra_secs.drop_first()),
            },
        }
    }
}

/// What loading the base document and then each extra document yields:
/// all their projects, a name repeated anywhere being a failure.
pub open spec fn load_all_result(secs: Seq<IniSection>, extra_secs: Seq<Seq<IniSection>>) -> Result<
    Seq<ProjectModel>,
    Seq<char>,
> {
    match load_result(secs) {
        Err(m) => Err(m),
        Ok(ps) => load_all_fold(ps, extra_secs),
    }
}

/// The sections of each document.
pub open spec fn sections_of(inis: Seq<Ini>) -> Seq<Seq<IniSection>> {
    inis.map_values(|x: Ini| x.sections_seq())
}

/// Loads the base document's projects and folds in the projects of the
/// extra documents (the files the base names in its file-list entry,
/// loaded by the shell), exactly as [`load_all_result`] has it; a
/// project name repeated across documents is a failure.
pub fn ini_load_all(ini: &Ini, extras: &Vec<Ini>) -> (r: Result<Vec<Project>, ConfigurationError>)
    requires
        ini.wf(),
        forall|i: int| 0 <= i < extras@.len() ==> (#[trigger] extras@[i]).wf(),
    ensures
        match r {
            Ok(ps) => load_all_result(ini.sections_seq(), sections_of(extras@)) is Ok
                && pmodels_of(ps@) == load_all_result(
                ini.sections_seq(),
                sections_of(extras@),
            )->Ok_0,
            Err(e) => load_all_result(ini.sections_seq(), sections_of(extras@)) is Err && e.msg@
                == load_all_result(ini.sections_seq(), sections_of(extras@))->Err_0,
        },
{
    let ghost xsecs = sections_of(extras@);
    let mut all = match ini_load(ini) {
        Ok(ps) => ps,
        Err(e) => {
            return Err(e);
        },
    };
    let n = extras.len();
    let mut i: usize = 0;
    proof {
        assert(xsecs.skip(0) =~= xsecs);
    }
    while i < n
        invariant
            0 <= i <= n,
            n == extras@.len(),
            xsecs == sections_of(extras@),
            forall|k: int| 0 <= k < extras@.len() ==> (#[trigger] extras@[k]).wf(),
            load_all_result(ini.sections_seq(), xsecs) == load_all_fold(
                pmodels_of(all@),
                xsecs.skip(i as int),
            ),
        decreases n - i,
    {
        let ghost acc = pmodels_of(all@);
        proof {
            assert(xsecs.skip(i as int)[0] == xsecs[i as int]);
            assert(xsecs.skip(i as int).drop_first() =~= xsecs.skip(i as int + 1));
            assert(xsecs[i as int] == extras@[i as int].sections_seq());
        }
        let extra: &Ini = &extras[i];
        let mut ps = match ini_load(extra) {
            Ok(ps) => ps,
            Err(e) => {
                proof {
                    assert(load_result(xsecs[i as int]) == Err::<Seq<ProjectModel>, Seq<char>>(
                        e.msg@,
                    ));
                    assert(load_all_fold(pmodels_of(all@), xsecs.skip(i as int)) == Err::<
                        Seq<ProjectModel>,
                        Seq<char>,
                    >(e.msg@));
                }
                return Err(e);
            },
        };
        let ghost pms = pmodels_of(ps@);
        let m = ps.len();
        let mut j: usize = 0;
        proof {
            assert(pms.skip(0) =~= pms);
        }
        while j < m
            invariant
                0 <= j <= m,
                0 <= i < xsecs.len(),
                m == pms.len(),
                pms.skip(j as int) == pmodels_of(ps@),
                load_all_result(ini.sections_seq(), xsecs) == (match merge_models(acc, pms) {
                    Err(msg) => Err(msg),
                    Ok(acc2) => load_all_fold(acc2, xsecs.skip(i as int + 1)),
                }),
                merge_models(acc, pms) == merge_models(pmodels_of(all@), pms.skip(j as int)),
                xsecs == sections_of(extras@),
            decreases m - j,
        {
            proof {
                assert(pms.skip(j as int)[0] == pms[j as int]);
                assert(pms.skip(j as int).drop_first() =~= pms.skip(j as int + 1));
                assert(pmodels_of(ps@)[0] == ps@[0].model());
            }
            let p = ps.remove(0);
            proof {
                assert(pmodels_of(ps@) =~= pms.skip(j as int + 1));
                assert(p.model() == pms[j as int]);
            }
            if has_project(&all, p.name.as_str()) {
                let e = ConfigurationError {
                    msg: String::from_str("Duplicate project: ").concat(p.name.as_str()),
                };
                proof {
                    assert(e.msg@ =~= msg_dup_project_merge(pms[j as int].name));
                    assert(merge_models(pmodels_of(all@), pms.skip(j as int)) == Err::<
                        Seq<ProjectModel>,
                        Seq<char>,
                    >(e.msg@));
                }
                return Err(e);
            }
            let ghost all0 = pmodels_of(all@);
            all.push(p);
            proof {
                assert(pmodels_of(all@) =~= all0.push(pms[j as int]));
            }
            j = j + 1;
        }
        proof {
            assert(pms.skip(m as int) =~= Seq::<ProjectModel>::empty());
            assert(merge_models(acc, pms) == Ok::<Seq<ProjectModel>, Seq<char>>(
                pmodels_of(all@),
            ));
        }
        i = i + 1;
    }
    proof {
        assert(xsecs.skip(n as int) =~= Seq::<Seq<IniSection>>::empty());
    }
    Ok(all)
}

} // verus!

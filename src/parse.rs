use crate::config::ProjectRootConfiguration;
use crate::text::{index_of, string_of, substring, text_eq};
use vstd::prelude::*;

verus! {

/// Why the plugin configuration was refused.
#[derive(Debug, PartialEq, Eq)]
pub enum ParseConfigError {
    /// An `extra.<root>` key without the `.<name>` that must follow.
    InvalidExtraKey(String),
    /// A root with neither a path nor a task filter.
    MissingRootAndFilter(String),
    /// A root without a path.
    MissingRoot(String),
    /// A root without a task filter.
    MissingFilter(String),
}

/// What the configuration says of one root so far.
pub struct PartialRoot {
    pub root: Option<String>,
    pub extra: Vec<String>,
    pub root_filter: Option<String>,
    pub nested: Vec<(String, String)>,
    pub default: bool,
}

/// A partial root over plain values.
pub ghost struct PartialView {
    pub root: Option<Seq<char>>,
    pub extra: Seq<Seq<char>>,
    pub root_filter: Option<Seq<char>>,
    pub nested: Seq<(Seq<char>, Seq<char>)>,
    pub default: bool,
}

pub open spec fn opt_view(o: Option<String>) -> Option<Seq<char>> {
    match o {
        Some(s) => Some(s@),
        None => None,
    }
}

pub open spec fn pairs_view(v: Seq<(String, String)>) -> Seq<(Seq<char>, Seq<char>)> {
    v.map_values(|e: (String, String)| (e.0@, e.1@))
}

pub open spec fn strings_view(v: Seq<String>) -> Seq<Seq<char>> {
    v.map_values(|s: String| s@)
}

pub open spec fn partial_view(p: PartialRoot) -> PartialView {
    PartialView {
        root: opt_view(p.root),
        extra: strings_view(p.extra@),
        root_filter: opt_view(p.root_filter),
        nested: pairs_view(p.nested@),
        default: p.default,
    }
}

pub open spec fn empty_partial() -> PartialView {
    PartialView { root: None, extra: seq![], root_filter: None, nested: seq![], default: false }
}

pub open spec fn partials_view(v: Seq<(String, PartialRoot)>) -> Seq<(Seq<char>, PartialView)> {
    v.map_values(|e: (String, PartialRoot)| (e.0@, partial_view(e.1)))
}

/// The text before and after the first `'.'`, if there is one.
pub open spec fn split_dot(s: Seq<char>) -> Option<(Seq<char>, Seq<char>)> {
    let e = index_of(s, '.');
    if 0 <= e < s.len() {
        Some((s.take(e), s.skip(e + 1)))
    } else {
        None
    }
}

/// The position of the root named `name`, if present.
pub open spec fn find_name(parts: Seq<(Seq<char>, PartialView)>, name: Seq<char>) -> Option<int>
    decreases parts.len(),
{
    if parts.len() == 0 {
        None
    } else if parts.last().0 == name {
        Some(parts.len() - 1)
    } else {
        find_name(parts.drop_last(), name)
    }
}

/// How a configuration entry changes a partial root.
pub ghost enum Change {
    Root(Seq<char>),
    Default,
    Extra(Seq<char>),
    Nested(Seq<char>, Seq<char>),
    RootFilter(Seq<char>),
}

/// The last position of key `k` in `s`.
pub open spec fn find_pair(s: Seq<(Seq<char>, Seq<char>)>, k: Seq<char>) -> Option<int>
    decreases s.len(),
{
    if s.len() == 0 {
        None
    } else if s.last().0 == k {
        Some(s.len() - 1)
    } else {
        find_pair(s.drop_last(), k)
    }
}

/// `(k, v)` recorded in `s`: in place when `k` is present, last otherwise.
pub open spec fn pairs_upsert(s: Seq<(Seq<char>, Seq<char>)>, k: Seq<char>, v: Seq<char>) -> Seq<
    (Seq<char>, Seq<char>),
> {
    match find_pair(s, k) {
        Some(i) => s.update(i, (k, v)),
        None => s.push((k, v)),
    }
}

proof fn lemma_find_pair(s: Seq<(Seq<char>, Seq<char>)>, k: Seq<char>)
    ensures
        find_pair(s, k) matches Some(i) ==> 0 <= i < s.len(),
    decreases s.len(),
{
    if s.len() > 0 && s.last().0 != k {
        lemma_find_pair(s.drop_last(), k);
    }
}

pub open spec fn apply_change(p: PartialView, c: Change) -> PartialView {
    match c {
        Change::Root(v) => PartialView { root: Some(v), ..p },
        Change::Default => PartialView { default: true, ..p },
        Change::Extra(v) => PartialView { extra: p.extra.push(v), ..p },
        Change::Nested(k, v) => PartialView { nested: pairs_upsert(p.nested, k, v), ..p },
        Change::RootFilter(v) => PartialView { root_filter: Some(v), ..p },
    }
}

/// Applies a change to the root named `name`, which is added last when new.
pub open spec fn change_root(parts: Seq<(Seq<char>, PartialView)>, name: Seq<char>, c: Change) -> Seq<
    (Seq<char>, PartialView),
> {
    match find_name(parts, name) {
        Some(i) => parts.update(i, (name, apply_change(parts[i].1, c))),
        None => parts.push((name, apply_change(empty_partial(), c))),
    }
}

/// What one entry `(k, v)` does: `root.<r>`, `default.<r>`,
/// `extra.<r>.<name>`, `task_proj.<r>` and `task_proj.<r>.<name>` set the
/// path, the default mark, an extra project, the root's task filter and a
/// nested task filter of root `<r>`; other keys are ignored; an `extra` key
/// without a name is an error, reported with its key.
pub open spec fn entry_step(parts: Seq<(Seq<char>, PartialView)>, k: Seq<char>, v: Seq<char>) -> Result<
    Seq<(Seq<char>, PartialView)>,
    Seq<char>,
> {
    match split_dot(k) {
        None => Ok(parts),
        Some((field, key)) => if field == "root"@ {
            Ok(change_root(parts, key, Change::Root(v)))
        } else if field == "default"@ {
            Ok(change_root(parts, key, Change::Default))
        } else if field == "extra"@ {
            match split_dot(key) {
                Some((r, _)) => Ok(change_root(parts, r, Change::Extra(v))),
                None => Err(k),
            }
        } else if field == "task_proj"@ {
            match split_dot(key) {
                Some((r, n)) => Ok(change_root(parts, r, Change::Nested(n, v))),
                None => Ok(change_root(parts, key, Change::RootFilter(v))),
            }
        } else {
            Ok(parts)
        },
    }
}

/// The partial roots after all entries, or the key of the first bad entry.
pub open spec fn collect_parts(entries: Seq<(Seq<char>, Seq<char>)>) -> Result<
    Seq<(Seq<char>, PartialView)>,
    Seq<char>,
>
    decreases entries.len(),
{
    if entries.len() == 0 {
        Ok(seq![])
    } else {
        match collect_parts(entries.drop_last()) {
            Ok(p) => entry_step(p, entries.last().0, entries.last().1),
            Err(e) => Err(e),
        }
    }
}

/// A configuration error over plain values: a code (0 for a bad extra key;
/// 1, 2 and 3 for a root that misses both parts, its path, its filter) and
/// the key or root name that it names.
pub open spec fn error_view(e: ParseConfigError) -> (int, Seq<char>) {
    match e {
        ParseConfigError::InvalidExtraKey(s) => (0, s@),
        ParseConfigError::MissingRootAndFilter(s) => (1, s@),
        ParseConfigError::MissingRoot(s) => (2, s@),
        ParseConfigError::MissingFilter(s) => (3, s@),
    }
}

pub open spec fn missing_kind(p: PartialView) -> int {
    if p.root is None && p.root_filter is None {
        1
    } else if p.root is None {
        2
    } else if p.root_filter is None {
        3
    } else {
        0
    }
}

/// The first root that misses its path or its filter.
pub open spec fn first_incomplete(parts: Seq<(Seq<char>, PartialView)>) -> Option<int>
    decreases parts.len(),
{
    if parts.len() == 0 {
        None
    } else if missing_kind(parts[0].1) != 0 {
        Some(0)
    } else {
        match first_incomplete(parts.drop_first()) {
            Some(i) => Some(i + 1),
            None => None,
        }
    }
}

pub open spec fn config_view(c: ProjectRootConfiguration) -> (Seq<char>, PartialView) {
    (
        c.root_path@,
        PartialView {
            root: Some(c.root_path@),
            extra: strings_view(c.extra_project_paths@),
            root_filter: Some(c.root_task_project_filter@),
            nested: pairs_view(c.nested_task_project_filters@),
            default: c.default,
        },
    )
}

pub open spec fn complete_view(p: (Seq<char>, PartialView)) -> (Seq<char>, PartialView) {
    (p.1.root.unwrap(), p.1)
}

/// What the configuration entries, in key order, give.
pub open spec fn parse_spec(entries: Seq<(Seq<char>, Seq<char>)>, r: Result<
    Seq<ProjectRootConfiguration>,
    ParseConfigError,
>) -> bool {
    match collect_parts(entries) {
        Err(k) => r is Err && error_view(r->Err_0) == (0int, k),
        Ok(parts) => match first_incomplete(parts) {
            Some(i) => r is Err && error_view(r->Err_0) == (missing_kind(parts[i].1), parts[i].0),
            None => r is Ok && r->Ok_0.map_values(|c: ProjectRootConfiguration| config_view(c))
                == parts.map_values(|p: (Seq<char>, PartialView)| complete_view(p)),
        },
    }
}

fn split_dot_exec(s: &str) -> (r: Option<(String, String)>)
    ensures
        match split_dot(s@) {
            Some((a, b)) => r is Some && r.unwrap().0@ == a && r.unwrap().1@ == b,
            None => r is None,
        },
{
    let n = s.unicode_len();
    let mut i: usize = 0;
    while i < n && s.get_char(i) != '.'
        invariant
            n == s@.len(),
            i <= n,
            forall|j: int| 0 <= j < i ==> s@[j] != '.',
        decreases n - i,
    {
        i = i + 1;
    }
    proof {
        lemma_index_of_at(s@, '.', i as int);
    }
    if i < n {
        assert(s@.take(i as int) =~= s@.subrange(0, i as int));
        assert(s@.skip(i + 1) =~= s@.subrange(i + 1, n as int));
        Some((substring(s, 0, i), substring(s, i + 1, n)))
    } else {
        None
    }
}

proof fn lemma_index_of_at(s: Seq<char>, c: char, r: int)
    requires
        0 <= r <= s.len(),
        forall|j: int| 0 <= j < r ==> s[j] != c,
        r < s.len() ==> s[r] == c,
    ensures
        index_of(s, c) == r,
    decreases s.len(),
{
    if s.len() > 0 && s[0] != c {
        lemma_index_of_at(s.drop_first(), c, r - 1);
    }
}

fn empty_partial_exec() -> (r: PartialRoot)
    ensures
        partial_view(r) == empty_partial(),
{
    let r = PartialRoot {
        root: None,
        extra: Vec::new(),
        root_filter: None,
        nested: Vec::new(),
        default: false,
    };
    assert(strings_view(r.extra@) =~= Seq::<Seq<char>>::empty());
    assert(pairs_view(r.nested@) =~= Seq::<(Seq<char>, Seq<char>)>::empty());
    r
}

fn nested_upsert(nested: &mut Vec<(String, String)>, k: String, v: String)
    ensures
        pairs_view(final(nested)@) == pairs_upsert(pairs_view(old(nested)@), k@, v@),
{
    let ghost s0 = pairs_view(nested@);
    let mut i: usize = nested.len();
    assert(s0.take(i as int) =~= s0);
    proof {
        lemma_find_pair(s0, k@);
    }
    while i > 0
        invariant
            i <= nested@.len(),
            s0 == pairs_view(nested@),
            s0 == pairs_view(old(nested)@),
            find_pair(s0, k@) == find_pair(s0.take(i as int), k@),
        decreases i,
    {
        assert(s0.take(i as int).drop_last() =~= s0.take(i - 1));
        assert(s0.take(i as int).last() == s0[i - 1]);
        assert(s0[i - 1] == (nested@[i - 1].0@, nested@[i - 1].1@));
        if text_eq(nested[i - 1].0.as_str(), k.as_str()) {
            assert(find_pair(s0, k@) == Some(i - 1));
            nested.set(i - 1, (k, v));
            assert(pairs_view(nested@) =~= s0.update(i - 1, (k@, v@)));
            return ;
        }
        i = i - 1;
    }
    assert(s0.take(0) =~= Seq::<(Seq<char>, Seq<char>)>::empty());
    nested.push((k, v));
    assert(pairs_view(nested@) =~= s0.push((k@, v@)));
}

enum Edit {
    Root(String),
    Default,
    Extra(String),
    Nested(String, String),
    RootFilter(String),
}

spec fn edit_view(e: Edit) -> Change {
    match e {
        Edit::Root(v) => Change::Root(v@),
        Edit::Default => Change::Default,
        Edit::Extra(v) => Change::Extra(v@),
        Edit::Nested(k, v) => Change::Nested(k@, v@),
        Edit::RootFilter(v) => Change::RootFilter(v@),
    }
}

fn apply_edit(p: &mut PartialRoot, e: Edit)
    ensures
        partial_view(*final(p)) == apply_change(partial_view(*old(p)), edit_view(e)),
{
    match e {
        Edit::Root(v) => {
            p.root = Some(v);
        },
        Edit::Default => {
            p.default = true;
        },
        Edit::Extra(v) => {
            p.extra.push(v);
            assert(strings_view(p.extra@) =~= strings_view(old(p).extra@).push(v@));
        },
        Edit::Nested(k, v) => {
            nested_upsert(&mut p.nested, k, v);
        },
        Edit::RootFilter(v) => {
            p.root_filter = Some(v);
        },
    }
}

fn find_part(parts: &Vec<(String, PartialRoot)>, name: &str) -> (r: Option<usize>)
    ensures
        r is Some <==> find_name(partials_view(parts@), name@) is Some,
        r is Some ==> r.unwrap() == find_name(partials_view(parts@), name@).unwrap() && r.unwrap()
            < parts@.len(),
{
    let ghost pv = partials_view(parts@);
    let mut i: usize = parts.len();
    assert(pv.take(i as int) =~= pv);
    while i > 0
        invariant
            pv == partials_view(parts@),
            i <= parts@.len(),
            find_name(pv, name@) == find_name(pv.take(i as int), name@),
        decreases i,
    {
        assert(pv.take(i as int).drop_last() =~= pv.take(i - 1));
        assert(pv.take(i as int).last() == pv[i - 1]);
        if text_eq(parts[i - 1].0.as_str(), name) {
            return Some(i - 1);
        }
        i = i - 1;
    }
    assert(pv.take(0) =~= Seq::<(Seq<char>, PartialView)>::empty());
    None
}

proof fn lemma_find_name(parts: Seq<(Seq<char>, PartialView)>, name: Seq<char>)
    ensures
        find_name(parts, name) matches Some(i) ==> 0 <= i < parts.len() && parts[i].0 == name,
    decreases parts.len(),
{
    if parts.len() > 0 && parts.last().0 != name {
        lemma_find_name(parts.drop_last(), name);
    }
}

fn change_root_exec(parts: &mut Vec<(String, PartialRoot)>, name: String, e: Edit)
    ensures
        partials_view(final(parts)@) == change_root(partials_view(old(parts)@), name@, edit_view(e)),
{
    let ghost pv = partials_view(parts@);
    proof {
        lemma_find_name(pv, name@);
    }
    match find_part(parts, name.as_str()) {
        Some(i) => {
            let (n, mut p) = parts.remove(i);
            apply_edit(&mut p, e);
            parts.insert(i, (n, p));
            assert(partials_view(parts@) =~= pv.update(
                i as int,
                (name@, apply_change(pv[i as int].1, edit_view(e))),
            ));
        },
        None => {
            let mut p = empty_partial_exec();
            apply_edit(&mut p, e);
            parts.push((name, p));
            assert(partials_view(parts@) =~= pv.push(
                (name@, apply_change(empty_partial(), edit_view(e))),
            ));
        },
    }
}

fn entry_step_exec(parts: &mut Vec<(String, PartialRoot)>, k: &str, v: &str) -> (r: Result<(), String>)
    ensures
        match entry_step(partials_view(old(parts)@), k@, v@) {
            Ok(p) => r is Ok && partials_view(final(parts)@) == p,
            Err(e) => r is Err && r->Err_0@ == e,
        },
{
    match split_dot_exec(k) {
        None => Ok(()),
        Some((field, key)) => {
            if text_eq(field.as_str(), "root") {
                change_root_exec(parts, key, Edit::Root(string_of(v)));
                Ok(())
            } else if text_eq(field.as_str(), "default") {
                change_root_exec(parts, key, Edit::Default);
                Ok(())
            } else if text_eq(field.as_str(), "extra") {
                match split_dot_exec(key.as_str()) {
                    Some((r, _)) => {
                        change_root_exec(parts, r, Edit::Extra(string_of(v)));
                        Ok(())
                    },
                    None => Err(string_of(k)),
                }
            } else if text_eq(field.as_str(), "task_proj") {
                match split_dot_exec(key.as_str()) {
                    Some((r, n)) => {
                        change_root_exec(parts, r, Edit::Nested(n, string_of(v)));
                        Ok(())
                    },
                    None => {
                        change_root_exec(parts, key, Edit::RootFilter(string_of(v)));
                        Ok(())
                    },
                }
            } else {
                Ok(())
            }
        },
    }
}

impl ParseConfigError {
    /// A sentence that says what is wrong.
    pub fn message(&self) -> (r: String)
        ensures
            r@ == match self {
                ParseConfigError::InvalidExtraKey(k) => "Invalid extra project key '"@ + k@ + "'"@,
                ParseConfigError::MissingRootAndFilter(n) => "Missing root path & root task project filter for root '"@
                    + n@ + "'"@,
                ParseConfigError::MissingRoot(n) => "Missing root path for root '"@ + n@ + "'"@,
                ParseConfigError::MissingFilter(n) => "Missing root path project filter for root '"@ + n@
                    + "'"@,
            },
    {
        let (mut s, name) = match self {
            ParseConfigError::InvalidExtraKey(k) => (string_of("Invalid extra project key '"), k),
            ParseConfigError::MissingRootAndFilter(n) => (
                string_of("Missing root path & root task project filter for root '"),
                n,
            ),
            ParseConfigError::MissingRoot(n) => (string_of("Missing root path for root '"), n),
            ParseConfigError::MissingFilter(n) => (
                string_of("Missing root path project filter for root '"),
                n,
            ),
        };
        s.append(name.as_str());
        s.append("'");
        s
    }
}

/// Reads the root configurations from the plugin configuration's entries,
/// given in key order.  Each root needs a path and a task filter; the first
/// bad `extra` key, or else the first root that misses either, is reported.
pub fn parse_configuration(entries: &Vec<(String, String)>) -> (r: Result<
    Vec<ProjectRootConfiguration>,
    ParseConfigError,
>)
    ensures
        parse_spec(
            pairs_view(entries@),
            match r {
                Ok(v) => Ok(v@),
                Err(e) => Err(e),
            },
        ),
{
    let ghost ev = pairs_view(entries@);
    let mut parts: Vec<(String, PartialRoot)> = Vec::new();
    let mut i: usize = 0;
    assert(partials_view(parts@) =~= Seq::<(Seq<char>, PartialView)>::empty());
    assert(ev.take(0) =~= Seq::<(Seq<char>, Seq<char>)>::empty());
    while i < entries.len()
        invariant
            ev == pairs_view(entries@),
            i <= entries@.len(),
            collect_parts(ev.take(i as int)) == Ok::<
                Seq<(Seq<char>, PartialView)>,
                Seq<char>,
            >(partials_view(parts@)),
        decreases entries@.len() - i,
    {
        assert(ev.take(i + 1).drop_last() =~= ev.take(i as int));
        assert(ev.take(i + 1).last() == (entries@[i as int].0@, entries@[i as int].1@));
        match entry_step_exec(&mut parts, entries[i].0.as_str(), entries[i].1.as_str()) {
            Ok(()) => {},
            Err(k) => {
                proof {
                    lemma_collect_err(ev, i as int + 1);
                }
                return Err(ParseConfigError::InvalidExtraKey(k));
            },
        }
        i = i + 1;
    }
    assert(ev.take(i as int) =~= ev);
    let ghost pv = partials_view(parts@);
    let mut out: Vec<ProjectRootConfiguration> = Vec::new();
    let mut j: usize = 0;
    let n = parts.len();
    assert(pv.skip(0) =~= pv);
    while parts.len() > 0
        invariant
            ev == pairs_view(entries@),
            collect_parts(ev) == Ok::<Seq<(Seq<char>, PartialView)>, Seq<char>>(pv),
            n == pv.len(),
            j + parts@.len() == n,
            partials_view(parts@) == pv.skip(j as int),
            first_incomplete(pv) == (match first_incomplete(pv.skip(j as int)) {
                Some(x) => Some(x + j),
                None => None,
            }),
            out@.len() == j,
            forall|x: int|
                0 <= x < j ==> config_view(#[trigger] out@[x]) == complete_view(pv[x]),
        decreases parts@.len(),
    {
        let (name, p) = parts.remove(0);
        let ghost e = pv[j as int];
        assert(pv.skip(j as int)[0] == e);
        assert(pv.skip(j as int).drop_first() =~= pv.skip(j + 1));
        assert(e == (name@, partial_view(p)));
        match (p.root, p.root_filter) {
            (None, None) => {
                return Err(ParseConfigError::MissingRootAndFilter(name));
            },
            (None, Some(_)) => {
                return Err(ParseConfigError::MissingRoot(name));
            },
            (Some(_), None) => {
                return Err(ParseConfigError::MissingFilter(name));
            },
            (Some(root), Some(filter)) => {
                out.push(
                    ProjectRootConfiguration {
                        root_path: root,
                        extra_project_paths: p.extra,
                        root_task_project_filter: filter,
                        nested_task_project_filters: p.nested,
                        default: p.default,
                    },
                );
            },
        }
        j = j + 1;
    }
    assert(pv.skip(j as int) =~= Seq::<(Seq<char>, PartialView)>::empty());
    assert(out@.map_values(|c: ProjectRootConfiguration| config_view(c)) =~= pv.map_values(
        |p: (Seq<char>, PartialView)| complete_view(p),
    ));
    Ok(out)
}

proof fn lemma_collect_err(ev: Seq<(Seq<char>, Seq<char>)>, i: int)
    requires
        0 < i <= ev.len(),
        collect_parts(ev.take(i)) is Err,
    ensures
        collect_parts(ev) == collect_parts(ev.take(i)),
    decreases ev.len() - i,
{
    if i < ev.len() {
        assert(ev.take(i + 1).drop_last() =~= ev.take(i));
        lemma_collect_err(ev, i + 1);
    } else {
        assert(ev.take(i) =~= ev);
    }
}

} // verus!

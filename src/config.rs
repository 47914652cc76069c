use crate::text::{
    contains, contains_text, is_prefix, lines, lines_of, push_char, push_decimal, starts_with,
    string_of, substring,
};
use vstd::prelude::*;

verus! {

/// Where projects are found, and how their tasks are filtered.
#[derive(Debug)]
pub struct ProjectRootConfiguration {
    /// The directory searched for repositories.
    pub root_path: String,
    /// Projects outside the searched directory.
    pub extra_project_paths: Vec<String>,
    /// The task filter of projects that no nested filter matches.
    pub root_task_project_filter: String,
    /// Task filters by a key that a project's path contains, in order.
    pub nested_task_project_filters: Vec<(String, String)>,
    /// Whether this root is used where no root matches the directory.
    pub default: bool,
}

/// A project that can be opened: its path, its title and its task filter.
#[derive(Debug)]
pub struct ProjectOption {
    pub path: String,
    pub title: String,
    pub task_filter: String,
}

/// What `String::from_utf8_lossy` makes of some bytes.
pub uninterp spec fn utf8_lossy(b: Seq<u8>) -> Seq<char>;

/// Relies on `String::from_utf8_lossy`: decodes the bytes as UTF-8, with
/// each invalid sequence replaced; no bytes give no characters.
#[verifier::external_body]
fn lossy_text(b: &[u8]) -> (r: String)
    ensures
        r@ == utf8_lossy(b@),
        b@.len() == 0 ==> r@.len() == 0,
{
    String::from_utf8_lossy(b).into_owned()
}

/// Position of the last `'/'` in `s`, or -1.
pub open spec fn last_slash(s: Seq<char>) -> int
    decreases s.len(),
{
    if s.len() == 0 {
        -1
    } else if s.last() == '/' {
        s.len() - 1
    } else {
        last_slash(s.drop_last())
    }
}

/// `s` without the `'/'`s that end it, but for a lone `'/'`.
pub open spec fn strip_trailing(s: Seq<char>) -> Seq<char>
    decreases s.len(),
{
    if s.len() > 1 && s.last() == '/' {
        strip_trailing(s.drop_last())
    } else {
        s
    }
}

/// The directory that holds `p`, as `Path::parent` gives it: separators that
/// end `p` are ignored, then the text before the last `'/'` is taken without
/// the separators that end it; `"/"` when that leaves nothing, and nothing
/// when `p` has no `'/'`.  (`"/"` itself gives `"/"`, as a path that cannot
/// be shortened is kept.)
pub open spec fn parent_dir(p: Seq<char>) -> Seq<char> {
    let t = strip_trailing(p);
    let k = last_slash(t);
    if k < 0 {
        seq![]
    } else if strip_trailing(t.take(k)).len() == 0 {
        seq!['/']
    } else {
        strip_trailing(t.take(k))
    }
}

/// The title of a project: its path below the directory that holds the root.
pub open spec fn title_of(path: Seq<char>, root: Seq<char>) -> Seq<char> {
    let d = parent_dir(root);
    if is_prefix(d, path) && path.len() > d.len() {
        path.skip(d.len() + 1int)
    } else {
        path
    }
}

/// The end of `p`'s first `end` characters without the `'/'`s that end them.
fn strip_end(p: &str, end: usize) -> (r: usize)
    requires
        end <= p@.len(),
    ensures
        r <= end,
        p@.take(r as int) == strip_trailing(p@.take(end as int)),
{
    let mut i: usize = end;
    while i > 1 && p.get_char(i - 1) == '/'
        invariant
            i <= end <= p@.len(),
            strip_trailing(p@.take(end as int)) == strip_trailing(p@.take(i as int)),
        decreases i,
    {
        assert(p@.take(i as int).drop_last() =~= p@.take(i - 1));
        i = i - 1;
    }
    i
}

fn parent_dir_exec(p: &str) -> (r: String)
    ensures
        r@ == parent_dir(p@),
{
    let n = p.unicode_len();
    assert(p@.take(n as int) =~= p@);
    let e = strip_end(p, n);
    let ghost t = p@.take(e as int);
    let mut i: usize = e;
    assert(t.take(e as int) =~= t);
    while i > 0 && p.get_char(i - 1) != '/'
        invariant
            n == p@.len(),
            i <= e <= n,
            t == p@.take(e as int),
            last_slash(t) == last_slash(t.take(i as int)),
        decreases i,
    {
        assert(t.take(i as int).drop_last() =~= t.take(i - 1));
        i = i - 1;
    }
    if i == 0 {
        assert(last_slash(t.take(0)) == -1);
        String::new()
    } else {
        assert(t.take(i as int).last() == '/');
        assert(last_slash(t) == i - 1);
        assert(t.take(i - 1) =~= p@.take(i - 1));
        let h = strip_end(p, i - 1);
        if h == 0 {
            let mut r = String::new();
            push_char(&mut r, '/');
            assert(r@ =~= seq!['/']);
            r
        } else {
            assert(p@.take(h as int) =~= p@.subrange(0, h as int));
            substring(p, 0, h)
        }
    }
}

/// The title of the project at `project_path` under the root `root_path`:
/// the path below the directory that holds the root, or the whole path when
/// the project lies elsewhere.
pub fn project_title(project_path: &str, root_path: &str) -> (r: String)
    ensures
        r@ == title_of(project_path@, root_path@),
{
    let d = parent_dir_exec(root_path);
    let n = project_path.unicode_len();
    let dl = d.as_str().unicode_len();
    if starts_with(project_path, d.as_str()) && n > dl {
        substring(project_path, dl + 1, n)
    } else {
        string_of(project_path)
    }
}

// ---------------------------------------------------------------- order

/// Lexicographic order of texts by code point, the order of `str`.
pub open spec fn lex_le(a: Seq<char>, b: Seq<char>) -> bool
    decreases a.len(),
{
    if a.len() == 0 {
        true
    } else if b.len() == 0 {
        false
    } else if a[0] != b[0] {
        a[0] < b[0]
    } else {
        lex_le(a.drop_first(), b.drop_first())
    }
}

proof fn lemma_lex_total(a: Seq<char>, b: Seq<char>)
    ensures
        lex_le(a, b) || lex_le(b, a),
    decreases a.len(),
{
    if a.len() > 0 && b.len() > 0 && a[0] == b[0] {
        lemma_lex_total(a.drop_first(), b.drop_first());
    }
}

fn text_le(a: &str, b: &str) -> (r: bool)
    ensures
        r == lex_le(a@, b@),
{
    let n = a.unicode_len();
    let m = b.unicode_len();
    let mut i: usize = 0;
    assert(a@.skip(0) =~= a@);
    assert(b@.skip(0) =~= b@);
    loop
        invariant
            n == a@.len(),
            m == b@.len(),
            i <= n,
            i <= m,
            lex_le(a@, b@) == lex_le(a@.skip(i as int), b@.skip(i as int)),
        decreases n - i,
    {
        if i == n {
            return true;
        }
        if i == m {
            return false;
        }
        let x = a.get_char(i);
        let y = b.get_char(i);
        assert(a@.skip(i as int)[0] == x);
        assert(b@.skip(i as int)[0] == y);
        if x != y {
            return x < y;
        }
        assert(a@.skip(i as int).drop_first() =~= a@.skip(i + 1));
        assert(b@.skip(i as int).drop_first() =~= b@.skip(i + 1));
        i = i + 1;
    }
}

pub open spec fn texts(v: Seq<String>) -> Seq<Seq<char>> {
    v.map_values(|s: String| s@)
}

/// Each text is at most the next.
pub open spec fn sorted_texts(s: Seq<Seq<char>>) -> bool {
    forall|i: int| 0 <= i < s.len() - 1 ==> lex_le(#[trigger] s[i], s[i + 1])
}

/// Sorts texts in the order of `str`.
pub fn sort_texts(v: Vec<String>) -> (r: Vec<String>)
    ensures
        sorted_texts(texts(r@)),
        texts(r@).to_multiset() == texts(v@).to_multiset(),
{
    broadcast use vstd::seq_lib::to_multiset_insert, vstd::seq_lib::to_multiset_build;

    let mut r: Vec<String> = Vec::new();
    let mut i: usize = 0;
    assert(texts(v@).take(0) =~= Seq::<Seq<char>>::empty());
    assert(texts(r@) =~= Seq::<Seq<char>>::empty());
    while i < v.len()
        invariant
            i <= v@.len(),
            sorted_texts(texts(r@)),
            texts(r@).to_multiset() == texts(v@).take(i as int).to_multiset(),
        decreases v@.len() - i,
    {
        let x = v[i].clone();
        let mut p: usize = 0;
        while p < r.len() && text_le(r[p].as_str(), x.as_str())
            invariant
                p <= r@.len(),
                forall|j: int| 0 <= j < p ==> lex_le(#[trigger] r@[j]@, x@),
            decreases r@.len() - p,
        {
            p = p + 1;
        }
        let ghost before = texts(r@);
        if p < r.len() {
            proof {
                lemma_lex_total(r@[p as int]@, x@);
            }
        }
        let ghost xv = x@;
        assert(xv == v@[i as int]@);
        r.insert(p, x);
        assert(texts(r@) =~= before.insert(p as int, xv));
        proof {
            vstd::seq_lib::to_multiset_insert(before, p as int, xv);
            vstd::seq_lib::to_multiset_build(texts(v@).take(i as int), xv);
        }
        assert(sorted_texts(texts(r@))) by {
            assert forall|j: int| 0 <= j < texts(r@).len() - 1 implies lex_le(
                #[trigger] texts(r@)[j],
                texts(r@)[j + 1],
            ) by {
                if j + 1 < p {
                    assert(lex_le(before[j], before[j + 1]));
                } else if j + 1 == p {
                } else if j == p {
                } else {
                    assert(lex_le(before[j - 1], before[j]));
                }
            }
        }
        assert(texts(v@).take(i + 1) =~= texts(v@).take(i as int).push(v@[i as int]@));
        i = i + 1;
    }
    assert(texts(v@).take(i as int) =~= texts(v@));
    r
}

// ---------------------------------------------------------------- options

/// The task filter for a project path: the filter of the first nested key
/// that the path contains, else the root's filter.
pub open spec fn task_filter_for(
    path: Seq<char>,
    nested: Seq<(String, String)>,
    root_filter: Seq<char>,
) -> Seq<char>
    decreases nested.len(),
{
    if nested.len() == 0 {
        root_filter
    } else if contains_text(path, nested[0].0@) {
        nested[0].1@
    } else {
        task_filter_for(path, nested.drop_first(), root_filter)
    }
}

/// The option for the project at `path` under root `c`.
pub open spec fn option_for(c: ProjectRootConfiguration, path: Seq<char>) -> (
    Seq<char>,
    Seq<char>,
    Seq<char>,
) {
    (
        path,
        title_of(path, c.root_path@),
        task_filter_for(path, c.nested_task_project_filters@, c.root_task_project_filter@),
    )
}

pub open spec fn option_view(o: ProjectOption) -> (Seq<char>, Seq<char>, Seq<char>) {
    (o.path@, o.title@, o.task_filter@)
}

impl ProjectRootConfiguration {
    fn task_filter(&self, path: &str) -> (r: String)
        ensures
            r@ == task_filter_for(
                path@,
                self.nested_task_project_filters@,
                self.root_task_project_filter@,
            ),
    {
        let ghost ns = self.nested_task_project_filters@;
        let mut i: usize = 0;
        assert(ns.skip(0) =~= ns);
        while i < self.nested_task_project_filters.len()
            invariant
                ns == self.nested_task_project_filters@,
                i <= ns.len(),
                task_filter_for(path@, ns, self.root_task_project_filter@) == task_filter_for(
                    path@,
                    ns.skip(i as int),
                    self.root_task_project_filter@,
                ),
            decreases ns.len() - i,
        {
            assert(ns.skip(i as int)[0] == ns[i as int]);
            assert(ns.skip(i as int).drop_first() =~= ns.skip(i + 1));
            if contains(path, self.nested_task_project_filters[i].0.as_str()) {
                return self.nested_task_project_filters[i].1.clone();
            }
            i = i + 1;
        }
        self.root_task_project_filter.clone()
    }

    fn option(&self, path: String) -> (r: ProjectOption)
        ensures
            option_view(r) == option_for(*self, path@),
    {
        let task_filter = self.task_filter(path.as_str());
        let title = project_title(path.as_str(), self.root_path.as_str());
        ProjectOption { path, title, task_filter }
    }

    /// The projects to offer, from the text that the repository search
    /// printed: the found paths in order, then the extra projects, each with
    /// its title and task filter.
    pub fn project_options_from_text(&self, find_stdout: &str) -> (r: Vec<ProjectOption>)
        ensures
            exists|found: Seq<Seq<char>>|
                #![auto]
                sorted_texts(found) && found.to_multiset() == lines_of(find_stdout@).to_multiset()
                    && r@.map_values(|o: ProjectOption| option_view(o)) == (found + texts(
                    self.extra_project_paths@,
                )).map_values(|p: Seq<char>| option_for(*self, p)),
    {
        let found_lines = lines(find_stdout);
        assert(texts(found_lines@) =~= lines_of(find_stdout@));
        let sorted = sort_texts(found_lines);
        let ghost all = texts(sorted@) + texts(self.extra_project_paths@);
        let mut r: Vec<ProjectOption> = Vec::new();
        let mut i: usize = 0;
        while i < sorted.len()
            invariant
                i <= sorted@.len(),
                all == texts(sorted@) + texts(self.extra_project_paths@),
                r@.len() == i,
                forall|j: int|
                    0 <= j < i ==> option_view(#[trigger] r@[j]) == option_for(*self, all[j]),
            decreases sorted@.len() - i,
        {
            r.push(self.option(sorted[i].clone()));
            i = i + 1;
        }
        let mut k: usize = 0;
        while k < self.extra_project_paths.len()
            invariant
                k <= self.extra_project_paths@.len(),
                all == texts(sorted@) + texts(self.extra_project_paths@),
                r@.len() == sorted@.len() + k,
                forall|j: int|
                    0 <= j < r@.len() ==> option_view(#[trigger] r@[j]) == option_for(*self, all[j]),
            decreases self.extra_project_paths@.len() - k,
        {
            r.push(self.option(self.extra_project_paths[k].clone()));
            k = k + 1;
        }
        assert(r@.map_values(|o: ProjectOption| option_view(o)) =~= all.map_values(
            |p: Seq<char>| option_for(*self, p),
        ));
        r
    }

    /// The projects to offer, from the bytes that the repository search
    /// printed, decoded as `String::from_utf8_lossy` does.
    pub fn project_options(&self, find_stdout: &[u8]) -> (r: Vec<ProjectOption>)
        ensures
            exists|found: Seq<Seq<char>>|
                #![auto]
                sorted_texts(found) && found.to_multiset() == lines_of(
                    utf8_lossy(find_stdout@),
                ).to_multiset() && r@.map_values(|o: ProjectOption| option_view(o)) == (found
                    + texts(self.extra_project_paths@)).map_values(
                    |p: Seq<char>| option_for(*self, p),
                ),
    {
        let text = lossy_text(find_stdout);
        self.project_options_from_text(text.as_str())
    }
}

// ---------------------------------------------------------------- picker

/// The number of default roots.
pub open spec fn default_count(roots: Seq<ProjectRootConfiguration>) -> nat
    decreases roots.len(),
{
    if roots.len() == 0 {
        0
    } else {
        default_count(roots.drop_last()) + if roots.last().default {
            1nat
        } else {
            0nat
        }
    }
}

/// Why a picker configuration was refused.
#[derive(Debug, Clone, Copy, PartialEq, Eq, Structural)]
pub enum ConfigError {
    /// Not exactly one root is the default; holds how many are.
    DefaultRootCount(usize),
}

impl ConfigError {
    /// A sentence that says what is wrong.
    pub fn message(&self) -> (r: String)
        ensures
            match self {
                ConfigError::DefaultRootCount(n) => r@
                    == "There must be exactly 1 default root, but there're "@ + crate::text::decimal(
                    *n as nat,
                ),
            },
    {
        match self {
            ConfigError::DefaultRootCount(n) => {
                let mut s = string_of("There must be exactly 1 default root, but there're ");
                push_decimal(&mut s, *n);
                s
            },
        }
    }
}

/// The roots that the project picker knows, one of them the default.
#[derive(Debug)]
pub struct ProjectPickerConfiguration {
    pub roots: Vec<ProjectRootConfiguration>,
    default_idx: usize,
}

/// The first root whose path contains `cwd`.
pub open spec fn first_root_for(roots: Seq<ProjectRootConfiguration>, cwd: Seq<char>) -> Option<int>
    decreases roots.len(),
{
    if roots.len() == 0 {
        None
    } else if contains_text(roots[0].root_path@, cwd) {
        Some(0)
    } else {
        match first_root_for(roots.drop_first(), cwd) {
            Some(i) => Some(i + 1),
            None => None,
        }
    }
}

proof fn lemma_default_count(roots: Seq<ProjectRootConfiguration>, i: int)
    requires
        0 <= i < roots.len(),
        roots[i].default,
        default_count(roots) == 1,
    ensures
        forall|j: int| 0 <= j < roots.len() && j != i ==> !(#[trigger] roots[j]).default,
    decreases roots.len(),
{
    assert forall|j: int| 0 <= j < roots.len() && j != i implies !(#[trigger] roots[j]).default by {
        if roots[j].default {
            lemma_two_defaults(roots, i, j);
        }
    }
}

proof fn lemma_two_defaults(roots: Seq<ProjectRootConfiguration>, i: int, j: int)
    requires
        0 <= i < roots.len(),
        0 <= j < roots.len(),
        i != j,
        roots[i].default,
        roots[j].default,
    ensures
        default_count(roots) >= 2,
    decreases roots.len(),
{
    let n = roots.len() - 1;
    if i == n {
        lemma_one_default(roots.drop_last(), j);
    } else if j == n {
        lemma_one_default(roots.drop_last(), i);
    } else {
        lemma_two_defaults(roots.drop_last(), i, j);
    }
}

proof fn lemma_one_default(roots: Seq<ProjectRootConfiguration>, i: int)
    requires
        0 <= i < roots.len(),
        roots[i].default,
    ensures
        default_count(roots) >= 1,
    decreases roots.len(),
{
    if i < roots.len() - 1 {
        lemma_one_default(roots.drop_last(), i);
    }
}

impl ProjectPickerConfiguration {
    /// The roots, in order.
    pub closed spec fn roots_view(&self) -> Seq<ProjectRootConfiguration> {
        self.roots@
    }

    /// The default index is a root, the only default one.
    pub closed spec fn wf(&self) -> bool {
        &&& self.default_idx < self.roots_view().len()
        &&& self.roots_view()[self.default_idx as int].default
        &&& default_count(self.roots_view()) == 1
    }

    pub closed spec fn default_index(&self) -> int {
        self.default_idx as int
    }

    /// Accepts the roots when exactly one of them is the default.
    pub fn new(roots: Vec<ProjectRootConfiguration>) -> (r: Result<ProjectPickerConfiguration, ConfigError>)
        ensures
            r is Ok <==> default_count(roots@) == 1,
            r matches Ok(c) ==> c.wf() && c.roots_view() == roots@ && 0 <= c.default_index()
                < roots@.len() && roots@[c.default_index()].default,
            r matches Err(e) ==> e == ConfigError::DefaultRootCount(default_count(roots@) as usize),
    {
        let mut count: usize = 0;
        let mut idx: usize = 0;
        let mut i: usize = 0;
        assert(roots@.take(0) =~= Seq::<ProjectRootConfiguration>::empty());
        while i < roots.len()
            invariant
                i <= roots@.len(),
                count == default_count(roots@.take(i as int)),
                count <= i,
                count > 0 ==> idx < i && roots@[idx as int].default,
            decreases roots@.len() - i,
        {
            assert(roots@.take(i + 1).drop_last() =~= roots@.take(i as int));
            if roots[i].default {
                count = count + 1;
                idx = i;
            }
            i = i + 1;
        }
        assert(roots@.take(i as int) =~= roots@);
        if count == 1 {
            Ok(ProjectPickerConfiguration { roots, default_idx: idx })
        } else {
            Err(ConfigError::DefaultRootCount(count))
        }
    }

    /// The root at position `i`.
    pub fn root_at(&self, i: usize) -> (r: &ProjectRootConfiguration)
        requires
            i < self.roots_view().len(),
        ensures
            *r == self.roots_view()[i as int],
    {
        &self.roots[i]
    }

    /// The default root.
    pub fn default_root(&self) -> (r: &ProjectRootConfiguration)
        requires
            self.wf(),
        ensures
            0 <= self.default_index() < self.roots_view().len(),
            *r == self.roots_view()[self.default_index()],
            r.default,
            forall|j: int| 0 <= j < self.roots_view().len() && (#[trigger] self.roots_view()[j]).default ==> j
                == self.default_index(),
    {
        proof {
            lemma_default_count(self.roots_view(), self.default_idx as int);
        }
        &self.roots[self.default_idx]
    }

    /// The first root whose path contains `cwd`, else the default root.
    pub fn root(&self, cwd: &str) -> (r: &ProjectRootConfiguration)
        requires
            self.wf(),
        ensures
            *r == (match first_root_for(self.roots_view(), cwd@) {
                Some(i) => self.roots_view()[i],
                None => self.roots_view()[self.default_index()],
            }),
    {
        let i = self.root_index(cwd);
        &self.roots[i]
    }

    /// The position of the first root whose path contains `cwd`, else of the
    /// default root.
    pub fn root_index(&self, cwd: &str) -> (r: usize)
        requires
            self.wf(),
        ensures
            r < self.roots_view().len(),
            r == (match first_root_for(self.roots_view(), cwd@) {
                Some(i) => i,
                None => self.default_index(),
            }),
    {
        let ghost rs = self.roots_view();
        let mut i: usize = 0;
        assert(rs.skip(0) =~= rs);
        while i < self.roots.len()
            invariant
                rs == self.roots_view(),
                i <= rs.len(),
                first_root_for(rs, cwd@) == (match first_root_for(rs.skip(i as int), cwd@) {
                    Some(k) => Some(k + i),
                    None => None,
                }),
            decreases rs.len() - i,
        {
            assert(rs.skip(i as int)[0] == rs[i as int]);
            assert(rs.skip(i as int).drop_first() =~= rs.skip(i + 1));
            if contains(self.roots[i].root_path.as_str(), cwd) {
                return i;
            }
            i = i + 1;
        }
        self.default_idx
    }
}

} // verus!

use crate::pane::PaneId;
use crate::text::{push_char, text_eq};
use vstd::prelude::*;

verus! {

/// A pane that can be selected by label: its title, its identity, and
/// whether it was classified as an editor pane when first seen.
#[derive(Debug, Clone)]
pub struct DashPane {
    pub title: String,
    pub id: PaneId,
    pub editor: bool,
}

/// Labels paired with the panes they select.
pub struct LabelMap {
    entries: Vec<(String, PaneId)>,
}

pub open spec fn entries_view(m: Seq<(String, PaneId)>) -> Seq<(Seq<char>, PaneId)> {
    m.map_values(|e: (String, PaneId)| (e.0@, e.1))
}

impl View for LabelMap {
    type V = Seq<(Seq<char>, PaneId)>;

    closed spec fn view(&self) -> Seq<(Seq<char>, PaneId)> {
        entries_view(self.entries@)
    }
}

/// Length of the labels for `n` panes over an alphabet of `a` characters.
pub open spec fn label_len(n: nat, a: nat) -> nat {
    if n <= a {
        1
    } else {
        2
    }
}

pub open spec fn over_alphabet(l: Seq<char>, a: Seq<char>) -> bool {
    forall|i: int| 0 <= i < l.len() ==> a.contains(#[trigger] l[i])
}

pub open spec fn has_label(m: Seq<(Seq<char>, PaneId)>, l: Seq<char>) -> bool {
    exists|i: int| 0 <= i < m.len() && m[i].0 == l
}

pub open spec fn has_pane(m: Seq<(Seq<char>, PaneId)>, id: PaneId) -> bool {
    exists|i: int| 0 <= i < m.len() && m[i].1 == id
}

pub open spec fn is_visible(v: Seq<DashPane>, id: PaneId) -> bool {
    exists|i: int| 0 <= i < v.len() && v[i].id == id
}

/// No label and no pane occurs twice.
pub open spec fn labels_wf(m: Seq<(Seq<char>, PaneId)>) -> bool {
    forall|i: int, j: int|
        0 <= i < m.len() && 0 <= j < m.len() && i != j ==> m[i].0 != m[j].0 && m[i].1 != m[j].1
}

/// Whether an earlier entry stays: its pane is still visible and its label
/// has the required length and uses the alphabet only.
pub open spec fn keeps(e: (Seq<char>, PaneId), v: Seq<DashPane>, a: Seq<char>, len: nat) -> bool {
    is_visible(v, e.1) && e.0.len() == len && over_alphabet(e.0, a)
}

/// The earlier entries that stay, in their order.
pub open spec fn kept(prev: Seq<(Seq<char>, PaneId)>, v: Seq<DashPane>, a: Seq<char>, len: nat) -> Seq<
    (Seq<char>, PaneId),
>
    decreases prev.len(),
{
    if prev.len() == 0 {
        seq![]
    } else {
        let k = kept(prev.drop_last(), v, a, len);
        if keeps(prev.last(), v, a, len) {
            k.push(prev.last())
        } else {
            k
        }
    }
}

/// What `str::to_lowercase` makes of a text.
pub uninterp spec fn lower_of(s: Seq<char>) -> Seq<char>;

/// The mnemonic label of each pane for labels of `len` characters: the
/// first `len` characters of its title, in lower case; none when the title
/// is shorter.
pub open spec fn preferred_labels(v: Seq<DashPane>, len: nat) -> Seq<Option<Seq<char>>> {
    v.map_values(
        |p: DashPane|
            if p.title@.len() >= len {
                Some(lower_of(p.title@.take(len as int)))
            } else {
                None
            },
    )
}

/// Whether a mnemonic label can be taken: it has the required length, uses
/// the alphabet only and is free.
pub open spec fn preferred_fits(
    pref: Option<Seq<char>>,
    len: nat,
    a: Seq<char>,
    m: Seq<(Seq<char>, PaneId)>,
) -> bool {
    pref is Some && pref.unwrap().len() == len && over_alphabet(pref.unwrap(), a) && !has_label(
        m,
        pref.unwrap(),
    )
}

/// First pass over the visible panes `v`, whose mnemonic labels are
/// `prefs`: each pane not yet handled takes its mnemonic label when it fits,
/// and is deferred otherwise.  Gives the entries and the deferred panes.
pub open spec fn pass_preferred(
    m0: Seq<(Seq<char>, PaneId)>,
    v: Seq<DashPane>,
    prefs: Seq<Option<Seq<char>>>,
    a: Seq<char>,
    len: nat,
) -> (Seq<(Seq<char>, PaneId)>, Seq<PaneId>)
    decreases v.len(),
{
    if v.len() == 0 {
        (m0, seq![])
    } else {
        let (m, d) = pass_preferred(m0, v.drop_last(), prefs.drop_last(), a, len);
        let p = v.last();
        if has_pane(m, p.id) || d.contains(p.id) {
            (m, d)
        } else if preferred_fits(prefs.last(), len, a, m) {
            (m.push((prefs.last().unwrap(), p.id)), d)
        } else {
            (m, d.push(p.id))
        }
    }
}

pub open spec fn cand_count(a: Seq<char>, len: nat) -> nat {
    if len == 1 {
        a.len()
    } else {
        a.len() * a.len()
    }
}

/// The `k`-th label of length `len` over `a`, in the order of the alphabet.
pub open spec fn candidate(a: Seq<char>, len: nat, k: int) -> Seq<char> {
    if len == 1 {
        seq![a[k]]
    } else {
        seq![a[k / a.len() as int], a[k % a.len() as int]]
    }
}

/// The first label from the `k`-th on that no entry of `m` holds.
pub open spec fn first_free(m: Seq<(Seq<char>, PaneId)>, a: Seq<char>, len: nat, k: int) -> Option<
    Seq<char>,
>
    decreases cand_count(a, len) - k,
{
    if k < 0 || k >= cand_count(a, len) {
        None
    } else if !has_label(m, candidate(a, len, k)) {
        Some(candidate(a, len, k))
    } else {
        first_free(m, a, len, k + 1)
    }
}

/// Second pass: each deferred pane, in order, takes the first free label.
pub open spec fn pass_deferred(
    m: Seq<(Seq<char>, PaneId)>,
    d: Seq<PaneId>,
    a: Seq<char>,
    len: nat,
) -> Seq<(Seq<char>, PaneId)>
    decreases d.len(),
{
    if d.len() == 0 {
        m
    } else {
        let m1 = pass_deferred(m, d.drop_last(), a, len);
        match first_free(m1, a, len, 0) {
            Some(l) => m1.push((l, d.last())),
            None => m1,
        }
    }
}

/// The labels for the visible panes `v`, whose mnemonic labels are `prefs`,
/// over the alphabet `a`, given the earlier labels `prev`.
pub open spec fn assign_spec_with(
    v: Seq<DashPane>,
    prefs: Seq<Option<Seq<char>>>,
    a: Seq<char>,
    prev: Seq<(Seq<char>, PaneId)>,
) -> Seq<(Seq<char>, PaneId)> {
    let len = label_len(v.len(), a.len());
    let (m1, d) = pass_preferred(kept(prev, v, a, len), v, prefs, a, len);
    pass_deferred(m1, d, a, len)
}

/// The labels for the visible panes `v` over the alphabet `a`, given the
/// earlier labels `prev`.
pub open spec fn assign_spec(
    v: Seq<DashPane>,
    a: Seq<char>,
    prev: Seq<(Seq<char>, PaneId)>,
) -> Seq<(Seq<char>, PaneId)> {
    assign_spec_with(v, preferred_labels(v, label_len(v.len(), a.len())), a, prev)
}

pub open spec fn opt_texts(s: Seq<Option<String>>) -> Seq<Option<Seq<char>>> {
    s.map_values(
        |o: Option<String>|
            match o {
                Some(x) => Some(x@),
                None => None,
            },
    )
}

fn map_has_label(m: &Vec<(String, PaneId)>, l: &str) -> (r: bool)
    ensures
        r == has_label(entries_view(m@), l@),
{
    let mut i: usize = 0;
    while i < m.len()
        invariant
            i <= m@.len(),
            forall|j: int| 0 <= j < i ==> m@[j].0@ != l@,
        decreases m@.len() - i,
    {
        if text_eq(m[i].0.as_str(), l) {
            assert(entries_view(m@)[i as int].0 == l@);
            return true;
        }
        i = i + 1;
    }
    assert forall|j: int| 0 <= j < entries_view(m@).len() implies entries_view(m@)[j].0 != l@ by {
        assert(entries_view(m@)[j].0 == m@[j].0@);
    }
    false
}

fn map_has_pane(m: &Vec<(String, PaneId)>, id: PaneId) -> (r: bool)
    ensures
        r == has_pane(entries_view(m@), id),
{
    let mut i: usize = 0;
    while i < m.len()
        invariant
            i <= m@.len(),
            forall|j: int| 0 <= j < i ==> m@[j].1 != id,
        decreases m@.len() - i,
    {
        if m[i].1 == id {
            assert(entries_view(m@)[i as int].1 == id);
            return true;
        }
        i = i + 1;
    }
    assert forall|j: int| 0 <= j < entries_view(m@).len() implies entries_view(m@)[j].1 != id by {
        assert(entries_view(m@)[j].1 == m@[j].1);
    }
    false
}

fn ids_contain(d: &Vec<PaneId>, id: PaneId) -> (r: bool)
    ensures
        r == d@.contains(id),
{
    let mut i: usize = 0;
    while i < d.len()
        invariant
            i <= d@.len(),
            forall|j: int| 0 <= j < i ==> d@[j] != id,
        decreases d@.len() - i,
    {
        if d[i] == id {
            return true;
        }
        i = i + 1;
    }
    false
}

fn visible_contains(v: &Vec<DashPane>, id: PaneId) -> (r: bool)
    ensures
        r == is_visible(v@, id),
{
    let mut i: usize = 0;
    while i < v.len()
        invariant
            i <= v@.len(),
            forall|j: int| 0 <= j < i ==> v@[j].id != id,
        decreases v@.len() - i,
    {
        if v[i].id == id {
            return true;
        }
        i = i + 1;
    }
    false
}

fn alphabet_contains(a: &Vec<char>, c: char) -> (r: bool)
    ensures
        r == a@.contains(c),
{
    let mut i: usize = 0;
    while i < a.len()
        invariant
            i <= a@.len(),
            forall|j: int| 0 <= j < i ==> a@[j] != c,
        decreases a@.len() - i,
    {
        if a[i] == c {
            return true;
        }
        i = i + 1;
    }
    false
}

fn uses_alphabet(l: &str, a: &Vec<char>) -> (r: bool)
    ensures
        r == over_alphabet(l@, a@),
{
    let n = l.unicode_len();
    let mut i: usize = 0;
    while i < n
        invariant
            n == l@.len(),
            i <= n,
            forall|j: int| 0 <= j < i ==> a@.contains(#[trigger] l@[j]),
        decreases n - i,
    {
        if !alphabet_contains(a, l.get_char(i)) {
            return false;
        }
        i = i + 1;
    }
    true
}

/// Relies on `str::to_lowercase`: the lower case of a text depends on its
/// characters alone.
#[verifier::external_body]
fn lowercase(s: &str) -> (r: String)
    ensures
        r@ == lower_of(s@),
{
    s.to_lowercase()
}

/// The mnemonic label of `title`, if the title is long enough.
fn preferred_label(title: &str, len: usize) -> (r: Option<String>)
    ensures
        r is Some <==> title@.len() >= len,
        r is Some ==> r.unwrap()@ == lower_of(title@.take(len as int)),
{
    let n = title.unicode_len();
    if n < len {
        return None;
    }
    assert(title@.take(len as int) =~= title@.subrange(0, len as int));
    let prefix = crate::text::substring(title, 0, len);
    Some(lowercase(prefix.as_str()))
}

fn candidate_label(a: &Vec<char>, len: usize, k: usize) -> (r: String)
    requires
        len == 1 || len == 2,
        a@.len() > 0,
        k < cand_count(a@, len as nat),
    ensures
        r@ == candidate(a@, len as nat, k as int),
{
    let mut s = String::new();
    if len == 1 {
        push_char(&mut s, a[k]);
        assert(s@ =~= candidate(a@, len as nat, k as int));
    } else {
        let n = a.len();
        assert(k / n < n) by (nonlinear_arith)
            requires
                k < n * n,
                n > 0,
        ;
        push_char(&mut s, a[k / n]);
        push_char(&mut s, a[k % n]);
        assert(s@ =~= candidate(a@, len as nat, k as int));
    }
    s
}

fn first_free_label(m: &Vec<(String, PaneId)>, a: &Vec<char>, len: usize) -> (r: Option<String>)
    requires
        len == 1 || len == 2,
        a@.len() * a@.len() <= usize::MAX,
    ensures
        r matches Some(l) ==> first_free(entries_view(m@), a@, len as nat, 0) == Some(l@),
        r is None ==> first_free(entries_view(m@), a@, len as nat, 0) is None,
{
    let n = a.len();
    let count: usize = if len == 1 {
        n
    } else {
        n * n
    };
    if n == 0 {
        assert(a@.len() * a@.len() == 0) by (nonlinear_arith)
            requires
                a@.len() == 0,
        ;
        assert(cand_count(a@, len as nat) == 0);
        assert(first_free(entries_view(m@), a@, len as nat, 0) is None);
        return None;
    }
    let mut k: usize = 0;
    while k < count
        invariant
            count == cand_count(a@, len as nat),
            n == a@.len(),
            n > 0,
            len == 1 || len == 2,
            k <= count,
            first_free(entries_view(m@), a@, len as nat, 0) == first_free(
                entries_view(m@),
                a@,
                len as nat,
                k as int,
            ),
        decreases count - k,
    {
        let c = candidate_label(a, len, k);
        if !map_has_label(m, c.as_str()) {
            return Some(c);
        }
        k = k + 1;
    }
    None
}

impl LabelMap {
    pub open spec fn wf(&self) -> bool {
        labels_wf(self@)
    }

    /// A map with no label.
    pub fn new() -> (r: LabelMap)
        ensures
            r@ == Seq::<(Seq<char>, PaneId)>::empty(),
            r.wf(),
    {
        let r = LabelMap { entries: Vec::new() };
        assert(r@ =~= Seq::<(Seq<char>, PaneId)>::empty());
        r
    }

    pub fn len(&self) -> (r: usize)
        ensures
            r == self@.len(),
    {
        self.entries.len()
    }

    /// The pane that `label` selects: only a label typed in full selects.
    pub fn pane_for(&self, label: &str) -> (r: Option<PaneId>)
        ensures
            r is Some <==> has_label(self@, label@),
            r matches Some(id) ==> exists|i: int|
                0 <= i < self@.len() && self@[i] == (label@, id),
    {
        let mut i: usize = 0;
        while i < self.entries.len()
            invariant
                i <= self.entries@.len(),
                forall|j: int| 0 <= j < i ==> self.entries@[j].0@ != label@,
            decreases self.entries@.len() - i,
        {
            if text_eq(self.entries[i].0.as_str(), label) {
                assert(self@[i as int] == (self.entries@[i as int].0@, self.entries@[i as int].1));
                return Some(self.entries[i].1);
            }
            i = i + 1;
        }
        assert forall|j: int| 0 <= j < self@.len() implies self@[j].0 != label@ by {
            assert(self@[j].0 == self.entries@[j].0@);
        }
        None
    }

    /// The label that selects `id`, if any.
    pub fn label_of(&self, id: PaneId) -> (r: Option<String>)
        ensures
            r is Some <==> has_pane(self@, id),
            r matches Some(l) ==> exists|i: int|
                0 <= i < self@.len() && self@[i] == (l@, id),
    {
        let mut i: usize = 0;
        while i < self.entries.len()
            invariant
                i <= self.entries@.len(),
                forall|j: int| 0 <= j < i ==> self.entries@[j].1 != id,
            decreases self.entries@.len() - i,
        {
            if self.entries[i].1 == id {
                let l = self.entries[i].0.clone();
                assert(self@[i as int] == (self.entries@[i as int].0@, id));
                return Some(l);
            }
            i = i + 1;
        }
        assert forall|j: int| 0 <= j < self@.len() implies self@[j].1 != id by {
            assert(self@[j].1 == self.entries@[j].1);
        }
        None
    }
}

/// The labels for the visible panes `visible` over `alphabet`, given the
/// earlier labels `previous`.
///
/// Labels have one character when the panes are no more than the alphabet's
/// characters, two otherwise.  An earlier label stays with its pane while the
/// pane is visible and the label still has that length and uses the alphabet
/// only; so a change of length relabels every pane.  Each other pane takes its
/// mnemonic label (its title's first characters in lower case) when that label
/// is free and uses the alphabet only; the rest take, in order, the first free
/// label of that length over the alphabet, in the alphabet's order.
pub fn assign(visible: &Vec<DashPane>, alphabet: &Vec<char>, previous: &LabelMap) -> (r: LabelMap)
    requires
        alphabet@.len() * alphabet@.len() <= usize::MAX,
    ensures
        r@ == assign_spec(visible@, alphabet@, previous@),
{
    let len: usize = if visible.len() <= alphabet.len() {
        1
    } else {
        2
    };
    let mut prefs: Vec<Option<String>> = Vec::new();
    let mut i: usize = 0;
    while i < visible.len()
        invariant
            i <= visible@.len(),
            len == label_len(visible@.len(), alphabet@.len()),
            opt_texts(prefs@) == preferred_labels(visible@.take(i as int), len as nat),
        decreases visible@.len() - i,
    {
        let p = preferred_label(visible[i].title.as_str(), len);
        let ghost pv = opt_texts(seq![p])[0];
        assert(pv == preferred_labels(visible@.take(i + 1), len as nat)[i as int]);
        let ghost before = prefs@;
        prefs.push(p);
        assert(opt_texts(prefs@) =~= opt_texts(before).push(pv));
        assert(preferred_labels(visible@.take(i + 1), len as nat) =~= preferred_labels(
            visible@.take(i as int),
            len as nat,
        ).push(pv));
        i = i + 1;
    }
    assert(visible@.take(i as int) =~= visible@);
    assign_with_preferred(visible, &prefs, alphabet, previous)
}

/// The labels for the visible panes `visible`, whose mnemonic labels are
/// `preferred` (one per pane, none for a pane without one), over `alphabet`,
/// given the earlier labels `previous`.
pub fn assign_with_preferred(
    visible: &Vec<DashPane>,
    preferred: &Vec<Option<String>>,
    alphabet: &Vec<char>,
    previous: &LabelMap,
) -> (r: LabelMap)
    requires
        alphabet@.len() * alphabet@.len() <= usize::MAX,
        preferred@.len() == visible@.len(),
    ensures
        r@ == assign_spec_with(visible@, opt_texts(preferred@), alphabet@, previous@),
{
    let ghost prefs = opt_texts(preferred@);
    let ghost v = visible@;
    let ghost a = alphabet@;
    let len: usize = if visible.len() <= alphabet.len() {
        1
    } else {
        2
    };
    assert(len == label_len(v.len(), a.len()));
    let mut m: Vec<(String, PaneId)> = Vec::new();
    let mut i: usize = 0;
    assert(entries_view(m@) =~= kept(previous@.take(0), v, a, len as nat));
    while i < previous.entries.len()
        invariant
            v == visible@,
            a == alphabet@,
            i <= previous.entries@.len(),
            previous@.len() == previous.entries@.len(),
            entries_view(m@) == kept(previous@.take(i as int), v, a, len as nat),
        decreases previous.entries@.len() - i,
    {
        let e = &previous.entries[i];
        let ghost pe = previous@[i as int];
        assert(pe == (e.0@, e.1));
        assert(previous@.take(i + 1).drop_last() =~= previous@.take(i as int));
        assert(previous@.take(i + 1).last() == pe);
        if visible_contains(visible, e.1) && e.0.unicode_len() == len && uses_alphabet(
            e.0.as_str(),
            alphabet,
        ) {
            m.push((e.0.clone(), e.1));
            assert(entries_view(m@) =~= kept(previous@.take(i + 1), v, a, len as nat));
        } else {
            assert(entries_view(m@) =~= kept(previous@.take(i + 1), v, a, len as nat));
        }
        i = i + 1;
    }
    assert(previous@.take(i as int) =~= previous@);
    let ghost m0 = entries_view(m@);
    let mut d: Vec<PaneId> = Vec::new();
    let mut i: usize = 0;
    assert(v.take(0) =~= Seq::<DashPane>::empty());
    while i < visible.len()
        invariant
            v == visible@,
            a == alphabet@,
            i <= v.len(),
            prefs == opt_texts(preferred@),
            preferred@.len() == v.len(),
            (entries_view(m@), d@) == pass_preferred(
                m0,
                v.take(i as int),
                prefs.take(i as int),
                a,
                len as nat,
            ),
        decreases v.len() - i,
    {
        let p = &visible[i];
        assert(v.take(i + 1).drop_last() =~= v.take(i as int));
        assert(v.take(i + 1).last() == v[i as int]);
        assert(prefs.take(i + 1).drop_last() =~= prefs.take(i as int));
        assert(prefs.take(i + 1).last() == prefs[i as int]);
        if map_has_pane(&m, p.id) || ids_contain(&d, p.id) {
        } else {
            let mut taken = true;
            if let Some(l) = &preferred[i] {
                if l.as_str().unicode_len() == len && uses_alphabet(l.as_str(), alphabet)
                    && !map_has_label(&m, l.as_str()) {
                    m.push((l.clone(), p.id));
                    taken = false;
                }
            }
            if taken {
                d.push(p.id);
            }
        }
        assert((entries_view(m@), d@) =~= pass_preferred(
            m0,
            v.take(i + 1),
            prefs.take(i + 1),
            a,
            len as nat,
        ));
        i = i + 1;
    }
    assert(v.take(i as int) =~= v);
    assert(prefs.take(i as int) =~= prefs);
    let ghost m1 = entries_view(m@);
    let ghost dd = d@;
    let mut j: usize = 0;
    assert(dd.take(0) =~= Seq::<PaneId>::empty());
    while j < d.len()
        invariant
            a == alphabet@,
            a.len() * a.len() <= usize::MAX,
            len == 1 || len == 2,
            dd == d@,
            j <= dd.len(),
            entries_view(m@) == pass_deferred(m1, dd.take(j as int), a, len as nat),
        decreases dd.len() - j,
    {
        assert(dd.take(j + 1).drop_last() =~= dd.take(j as int));
        assert(dd.take(j + 1).last() == dd[j as int]);
        let f = first_free_label(&m, alphabet, len);
        if let Some(l) = f {
            m.push((l, d[j]));
        }
        assert(entries_view(m@) =~= pass_deferred(m1, dd.take(j + 1), a, len as nat));
        j = j + 1;
    }
    assert(dd.take(j as int) =~= dd);
    LabelMap { entries: m }
}

/// Every entry of `m` keeps its place given `v`, `a` and `len`.
pub open spec fn all_keep(m: Seq<(Seq<char>, PaneId)>, v: Seq<DashPane>, a: Seq<char>, len: nat) -> bool {
    forall|i: int| 0 <= i < m.len() ==> keeps(#[trigger] m[i], v, a, len)
}

pub open spec fn ids_distinct(v: Seq<DashPane>) -> bool {
    forall|i: int, j: int| 0 <= i < v.len() && 0 <= j < v.len() && i != j ==> v[i].id != v[j].id
}

proof fn lemma_kept(prev: Seq<(Seq<char>, PaneId)>, v: Seq<DashPane>, a: Seq<char>, len: nat)
    requires
        labels_wf(prev),
    ensures
        labels_wf(kept(prev, v, a, len)),
        all_keep(kept(prev, v, a, len), v, a, len),
        forall|i: int|
            0 <= i < kept(prev, v, a, len).len() ==> prev.contains(
                #[trigger] kept(prev, v, a, len)[i],
            ),
        forall|i: int|
            0 <= i < prev.len() && keeps(#[trigger] prev[i], v, a, len) ==> kept(
                prev,
                v,
                a,
                len,
            ).contains(prev[i]),
    decreases prev.len(),
{
    if prev.len() > 0 {
        let p = prev.drop_last();
        assert(labels_wf(p));
        lemma_kept(p, v, a, len);
        let k = kept(p, v, a, len);
        assert forall|i: int| 0 <= i < k.len() implies prev.contains(#[trigger] k[i]) by {
            assert(p.contains(k[i]));
            let j = choose|j: int| 0 <= j < p.len() && p[j] == k[i];
            assert(prev[j] == k[i]);
        }
        if keeps(prev.last(), v, a, len) {
            let k2 = k.push(prev.last());
            assert forall|i: int, j: int|
                0 <= i < k2.len() && 0 <= j < k2.len() && i != j implies k2[i].0 != k2[j].0
                && k2[i].1 != k2[j].1 by {
                if i < k.len() && j < k.len() {
                } else if i < k.len() {
                    let x = choose|x: int| 0 <= x < prev.len() && prev[x] == k[i];
                    assert(x != prev.len() - 1) by {
                        assert(p.contains(k[i]));
                        let y = choose|y: int| 0 <= y < p.len() && p[y] == k[i];
                        assert(prev[y] == k[i]);
                        assert(prev[y].1 != prev[prev.len() - 1].1);
                    }
                } else if j < k.len() {
                    let y = choose|y: int| 0 <= y < p.len() && p[y] == k[j];
                    assert(prev[y] == k[j]);
                }
            }
            assert forall|i: int| 0 <= i < k2.len() implies prev.contains(#[trigger] k2[i]) by {
                if i < k.len() {
                    assert(prev.contains(k[i]));
                } else {
                    assert(prev[prev.len() - 1] == k2[i]);
                }
            }
            assert forall|i: int|
                0 <= i < prev.len() && keeps(#[trigger] prev[i], v, a, len) implies k2.contains(
                prev[i],
            ) by {
                if i < p.len() {
                    assert(p[i] == prev[i]);
                    assert(k.contains(p[i]));
                    let x = choose|x: int| 0 <= x < k.len() && k[x] == p[i];
                    assert(k2[x] == prev[i]);
                } else {
                    assert(k2[k.len() as int] == prev[i]);
                }
            }
        } else {
            assert forall|i: int|
                0 <= i < prev.len() && keeps(#[trigger] prev[i], v, a, len) implies k.contains(
                prev[i],
            ) by {
                assert(i < p.len());
                assert(p[i] == prev[i]);
            }
        }
    }
}

proof fn lemma_preferred(
    m0: Seq<(Seq<char>, PaneId)>,
    w: Seq<DashPane>,
    prefs: Seq<Option<Seq<char>>>,
    vall: Seq<DashPane>,
    a: Seq<char>,
    len: nat,
)
    requires
        labels_wf(m0),
        all_keep(m0, vall, a, len),
        forall|i: int| 0 <= i < w.len() ==> is_visible(vall, #[trigger] w[i].id),
    ensures
        labels_wf(pass_preferred(m0, w, prefs, a, len).0),
        all_keep(pass_preferred(m0, w, prefs, a, len).0, vall, a, len),
        pass_preferred(m0, w, prefs, a, len).1.no_duplicates(),
        forall|x: PaneId| #[trigger]
            pass_preferred(m0, w, prefs, a, len).1.contains(x) ==> is_visible(vall, x) && !has_pane(
                pass_preferred(m0, w, prefs, a, len).0,
                x,
            ),
        forall|k: int|
            0 <= k < w.len() ==> has_pane(pass_preferred(m0, w, prefs, a, len).0, #[trigger] w[k].id)
                || pass_preferred(m0, w, prefs, a, len).1.contains(w[k].id),
        (forall|k: int| 0 <= k < w.len() ==> has_pane(m0, #[trigger] w[k].id)) ==> pass_preferred(
            m0,
            w,
            prefs,
            a,
            len,
        ) == (m0, Seq::<PaneId>::empty()),
    decreases w.len(),
{
    if w.len() > 0 {
        let w0 = w.drop_last();
        assert forall|i: int| 0 <= i < w0.len() implies is_visible(vall, #[trigger] w0[i].id) by {
            assert(w0[i] == w[i]);
        }
        lemma_preferred(m0, w0, prefs.drop_last(), vall, a, len);
        let (m, d) = pass_preferred(m0, w0, prefs.drop_last(), a, len);
        let p = w.last();
        assert(is_visible(vall, w[w.len() - 1].id));
        if has_pane(m, p.id) || d.contains(p.id) {
            assert forall|k: int| 0 <= k < w.len() implies has_pane(m, #[trigger] w[k].id)
                || d.contains(w[k].id) by {
                if k < w0.len() {
                    assert(w0[k] == w[k]);
                }
            }
        } else if preferred_fits(prefs.last(), len, a, m) {
            let e = (prefs.last().unwrap(), p.id);
            let m2 = m.push(e);
            assert(keeps(e, vall, a, len));
            assert forall|i: int| 0 <= i < m2.len() implies keeps(#[trigger] m2[i], vall, a, len) by {
                if i < m.len() {
                    assert(m2[i] == m[i]);
                }
            }
            assert forall|i: int, j: int|
                0 <= i < m2.len() && 0 <= j < m2.len() && i != j implies m2[i].0 != m2[j].0
                && m2[i].1 != m2[j].1 by {
                if i < m.len() && j < m.len() {
                } else if i < m.len() {
                    assert(m2[i] == m[i]);
                } else if j < m.len() {
                    assert(m2[j] == m[j]);
                }
            }
            assert forall|x: PaneId| #[trigger] d.contains(x) implies !has_pane(m2, x) by {
                if has_pane(m2, x) {
                    let i = choose|i: int| 0 <= i < m2.len() && m2[i].1 == x;
                    if i < m.len() {
                        assert(m2[i] == m[i]);
                    }
                }
            }
            assert forall|k: int| 0 <= k < w.len() implies has_pane(m2, #[trigger] w[k].id)
                || d.contains(w[k].id) by {
                if k < w0.len() {
                    assert(w0[k] == w[k]);
                    if has_pane(m, w[k].id) {
                        let i = choose|i: int| 0 <= i < m.len() && m[i].1 == w[k].id;
                        assert(m2[i] == m[i]);
                    }
                } else {
                    assert(m2[m.len() as int].1 == w[k].id);
                }
            }
        } else {
            let d2 = d.push(p.id);
            assert forall|k: int| 0 <= k < w.len() implies has_pane(m, #[trigger] w[k].id)
                || d2.contains(w[k].id) by {
                if k < w0.len() {
                    assert(w0[k] == w[k]);
                    if d.contains(w[k].id) {
                        let i = choose|i: int| 0 <= i < d.len() && d[i] == w[k].id;
                        assert(d2[i] == d[i]);
                    }
                } else {
                    assert(d2[d.len() as int] == w[k].id);
                }
            }
            assert forall|x: PaneId| #[trigger] d2.contains(x) implies is_visible(vall, x)
                && !has_pane(m, x) by {
                let i = choose|i: int| 0 <= i < d2.len() && d2[i] == x;
                if i < d.len() {
                    assert(d2[i] == d[i]);
                    assert(d.contains(x));
                }
            }
            assert(d2.no_duplicates()) by {
                assert forall|i: int, j: int|
                    0 <= i < d2.len() && 0 <= j < d2.len() && i != j implies d2[i] != d2[j] by {
                    if i < d.len() && j < d.len() {
                    } else if i < d.len() {
                        assert(d.contains(d2[i]));
                    } else if j < d.len() {
                        assert(d.contains(d2[j]));
                    }
                }
            }
        }
        if forall|k: int| 0 <= k < w.len() ==> has_pane(m0, #[trigger] w[k].id) {
            assert forall|k: int| 0 <= k < w0.len() implies has_pane(m0, #[trigger] w0[k].id) by {
                assert(w0[k] == w[k]);
            }
            assert(has_pane(m0, w[w.len() - 1].id));
        }
    }
}

proof fn lemma_first_free_none(m: Seq<(Seq<char>, PaneId)>, a: Seq<char>, len: nat, k: int)
    requires
        0 <= k,
        first_free(m, a, len, k) is None,
    ensures
        forall|j: int| k <= j < cand_count(a, len) ==> has_label(m, #[trigger] candidate(a, len, j)),
    decreases cand_count(a, len) - k,
{
    if k < cand_count(a, len) {
        lemma_first_free_none(m, a, len, k + 1);
    }
}

proof fn lemma_first_free_some(m: Seq<(Seq<char>, PaneId)>, a: Seq<char>, len: nat, k: int)
    requires
        0 <= k,
        first_free(m, a, len, k) is Some,
    ensures
        !has_label(m, first_free(m, a, len, k).unwrap()),
        exists|j: int|
            k <= j < cand_count(a, len) && first_free(m, a, len, k).unwrap() == candidate(a, len, j),
    decreases cand_count(a, len) - k,
{
    if k < cand_count(a, len) && has_label(m, candidate(a, len, k)) {
        lemma_first_free_some(m, a, len, k + 1);
    }
}

proof fn lemma_candidate(a: Seq<char>, len: nat, j: int)
    requires
        len == 1 || len == 2,
        0 <= j < cand_count(a, len),
    ensures
        candidate(a, len, j).len() == len,
        over_alphabet(candidate(a, len, j), a),
{
    if len == 2 {
        let n = a.len() as int;
        assert(n > 0) by (nonlinear_arith)
            requires
                0 <= j < n * n,
                n >= 0,
        ;
        assert(0 <= j / n < n && 0 <= j % n < n) by (nonlinear_arith)
            requires
                0 <= j < n * n,
                n > 0,
        ;
        assert(a.contains(a[j / n]));
        assert(a.contains(a[j % n]));
    } else {
        assert(a.contains(a[j]));
    }
}

proof fn lemma_candidates_distinct(a: Seq<char>, len: nat, i: int, j: int)
    requires
        len == 1 || len == 2,
        a.no_duplicates(),
        0 <= i < cand_count(a, len),
        0 <= j < cand_count(a, len),
        i != j,
    ensures
        candidate(a, len, i) != candidate(a, len, j),
{
    if len == 2 {
        let n = a.len() as int;
        assert(n > 0) by (nonlinear_arith)
            requires
                0 <= i < n * n,
                n >= 0,
        ;
        assert(0 <= i / n < n && 0 <= i % n < n && 0 <= j / n < n && 0 <= j % n < n)
            by (nonlinear_arith)
            requires
                0 <= i < n * n,
                0 <= j < n * n,
                n > 0,
        ;
        if candidate(a, len, i) == candidate(a, len, j) {
            assert(candidate(a, len, i)[0] == candidate(a, len, j)[0]);
            assert(candidate(a, len, i)[1] == candidate(a, len, j)[1]);
            assert(i / n == j / n);
            assert(i % n == j % n);
            assert(i == n * (i / n) + i % n) by (nonlinear_arith)
                requires
                    n > 0,
            ;
            assert(j == n * (j / n) + j % n) by (nonlinear_arith)
                requires
                    n > 0,
            ;
        }
    } else {
        assert(candidate(a, len, i)[0] != candidate(a, len, j)[0]);
    }
}

/// When fewer panes hold labels than there are labels, a free one exists.
proof fn lemma_free_exists(
    m: Seq<(Seq<char>, PaneId)>,
    vall: Seq<DashPane>,
    a: Seq<char>,
    len: nat,
    x: PaneId,
)
    requires
        len == 1 || len == 2,
        labels_wf(m),
        all_keep(m, vall, a, len),
        !has_pane(m, x),
        is_visible(vall, x),
        a.no_duplicates(),
        vall.len() <= cand_count(a, len),
    ensures
        first_free(m, a, len, 0) is Some,
{
    if first_free(m, a, len, 0) is None {
        lemma_first_free_none(m, a, len, 0);
        let count = cand_count(a, len);
        let cands = Seq::new(count, |k: int| candidate(a, len, k));
        assert(cands.no_duplicates()) by {
            assert forall|i: int, j: int|
                0 <= i < cands.len() && 0 <= j < cands.len() && i != j implies cands[i]
                != cands[j] by {
                lemma_candidates_distinct(a, len, i, j);
            }
        }
        cands.unique_seq_to_set();
        let labels = m.map_values(|e: (Seq<char>, PaneId)| e.0);
        labels.lemma_cardinality_of_set();
        assert(cands.to_set().subset_of(labels.to_set())) by {
            assert forall|l: Seq<char>| cands.to_set().contains(l) implies labels.to_set().contains(
                l,
            ) by {
                let k = choose|k: int| 0 <= k < cands.len() && cands[k] == l;
                assert(has_label(m, candidate(a, len, k)));
                let i = choose|i: int| 0 <= i < m.len() && m[i].0 == candidate(a, len, k);
                assert(labels[i] == l);
            }
        }
        vstd::set_lib::lemma_len_subset(cands.to_set(), labels.to_set());
        let panes = m.map_values(|e: (Seq<char>, PaneId)| e.1);
        assert(panes.no_duplicates());
        panes.unique_seq_to_set();
        let ids = vall.map_values(|p: DashPane| p.id);
        ids.lemma_cardinality_of_set();
        assert(ids.to_set().contains(x)) by {
            let i = choose|i: int| 0 <= i < vall.len() && vall[i].id == x;
            assert(ids[i] == x);
        }
        assert(panes.to_set().subset_of(ids.to_set().remove(x))) by {
            assert forall|y: PaneId| panes.to_set().contains(y) implies ids.to_set().remove(
                x,
            ).contains(y) by {
                let i = choose|i: int| 0 <= i < panes.len() && panes[i] == y;
                assert(keeps(m[i], vall, a, len));
                let j = choose|j: int| 0 <= j < vall.len() && vall[j].id == y;
                assert(ids[j] == y);
                assert(y != x);
            }
        }
        vstd::set_lib::lemma_len_subset(panes.to_set(), ids.to_set().remove(x));
        assert(false);
    }
}

proof fn lemma_deferred(
    m1: Seq<(Seq<char>, PaneId)>,
    d: Seq<PaneId>,
    vall: Seq<DashPane>,
    a: Seq<char>,
    len: nat,
)
    requires
        len == 1 || len == 2,
        labels_wf(m1),
        all_keep(m1, vall, a, len),
        d.no_duplicates(),
        forall|x: PaneId| #[trigger] d.contains(x) ==> is_visible(vall, x) && !has_pane(m1, x),
    ensures
        labels_wf(pass_deferred(m1, d, a, len)),
        all_keep(pass_deferred(m1, d, a, len), vall, a, len),
        forall|x: PaneId| #[trigger] has_pane(pass_deferred(m1, d, a, len), x) ==> has_pane(m1, x)
            || d.contains(x),
        forall|x: PaneId| has_pane(m1, x) ==> #[trigger] has_pane(pass_deferred(m1, d, a, len), x),
        a.no_duplicates() && vall.len() <= cand_count(a, len) ==> forall|x: PaneId| #[trigger]
            d.contains(x) ==> has_pane(pass_deferred(m1, d, a, len), x),
    decreases d.len(),
{
    if d.len() > 0 {
        let d0 = d.drop_last();
        assert(d0.no_duplicates());
        assert forall|x: PaneId| #[trigger] d0.contains(x) implies is_visible(vall, x) && !has_pane(
            m1,
            x,
        ) by {
            let i = choose|i: int| 0 <= i < d0.len() && d0[i] == x;
            assert(d[i] == x);
            assert(d.contains(x));
        }
        lemma_deferred(m1, d0, vall, a, len);
        let m = pass_deferred(m1, d0, a, len);
        let x = d.last();
        assert(d.contains(x));
        assert(!d0.contains(x)) by {
            if d0.contains(x) {
                let i = choose|i: int| 0 <= i < d0.len() && d0[i] == x;
                assert(d[i] == d[d.len() - 1]);
            }
        }
        assert(!has_pane(m, x));
        assert forall|y: PaneId| #[trigger] d0.contains(y) implies d.contains(y) by {
            let i = choose|i: int| 0 <= i < d0.len() && d0[i] == y;
            assert(d[i] == y);
        }
        match first_free(m, a, len, 0) {
            Some(l) => {
                lemma_first_free_some(m, a, len, 0);
                let j = choose|j: int| 0 <= j < cand_count(a, len) && l == candidate(a, len, j);
                lemma_candidate(a, len, j);
                let m2 = m.push((l, x));
                assert forall|i: int| 0 <= i < m2.len() implies keeps(#[trigger] m2[i], vall, a, len) by {
                    if i < m.len() {
                        assert(m2[i] == m[i]);
                    }
                }
                assert forall|i: int, k: int|
                    0 <= i < m2.len() && 0 <= k < m2.len() && i != k implies m2[i].0 != m2[k].0
                    && m2[i].1 != m2[k].1 by {
                    if i < m.len() && k < m.len() {
                    } else if i < m.len() {
                        assert(m2[i] == m[i]);
                    } else if k < m.len() {
                        assert(m2[k] == m[k]);
                    }
                }
                assert forall|y: PaneId| #[trigger] has_pane(m2, y) implies has_pane(m1, y)
                    || d.contains(y) by {
                    let i = choose|i: int| 0 <= i < m2.len() && m2[i].1 == y;
                    if i < m.len() {
                        assert(m2[i] == m[i]);
                        assert(has_pane(m, y));
                    }
                }
                assert forall|y: PaneId| has_pane(m1, y) implies #[trigger] has_pane(m2, y) by {
                    assert(has_pane(m, y));
                    let i = choose|i: int| 0 <= i < m.len() && m[i].1 == y;
                    assert(m2[i] == m[i]);
                }
                assert forall|y: PaneId| #[trigger] d.contains(y) implies has_pane(m2, y) || !(
                a.no_duplicates() && vall.len() <= cand_count(a, len)) by {
                    if y == x {
                        assert(m2[m.len() as int].1 == y);
                    } else if a.no_duplicates() && vall.len() <= cand_count(a, len) {
                        let i = choose|i: int| 0 <= i < d.len() && d[i] == y;
                        assert(i < d0.len());
                        assert(d0[i] == y);
                        assert(d0.contains(y));
                        assert(has_pane(m, y));
                        let k = choose|k: int| 0 <= k < m.len() && m[k].1 == y;
                        assert(m2[k] == m[k]);
                    }
                }
            },
            None => {
                if a.no_duplicates() && vall.len() <= cand_count(a, len) {
                    lemma_free_exists(m, vall, a, len, x);
                }
                assert forall|y: PaneId| #[trigger] has_pane(m, y) implies has_pane(m1, y)
                    || d.contains(y) by {
                    if !has_pane(m1, y) {
                        assert(d0.contains(y));
                    }
                }
                assert forall|y: PaneId| #[trigger] d.contains(y) implies has_pane(m, y) || !(
                a.no_duplicates() && vall.len() <= cand_count(a, len)) by {
                    if a.no_duplicates() && vall.len() <= cand_count(a, len) {
                        let i = choose|i: int| 0 <= i < d.len() && d[i] == y;
                        assert(i < d0.len());
                        assert(d0[i] == y);
                        assert(d0.contains(y));
                    }
                }
            },
        }
    }
}

/// Facts shared by the two laws below: the result is well formed, its labels
/// have the required length and use the alphabet only, its panes are visible,
/// and, when the labels of that length suffice, every visible pane is labelled.
proof fn lemma_assign(v: Seq<DashPane>, a: Seq<char>, prev: Seq<(Seq<char>, PaneId)>)
    requires
        labels_wf(prev),
    ensures
        labels_wf(assign_spec(v, a, prev)),
        all_keep(assign_spec(v, a, prev), v, a, label_len(v.len(), a.len())),
        a.no_duplicates() && v.len() <= a.len() * a.len() ==> forall|k: int|
            0 <= k < v.len() ==> has_pane(assign_spec(v, a, prev), #[trigger] v[k].id),
{
    lemma_assign_with(v, preferred_labels(v, label_len(v.len(), a.len())), a, prev);
}

proof fn lemma_assign_with(
    v: Seq<DashPane>,
    prefs: Seq<Option<Seq<char>>>,
    a: Seq<char>,
    prev: Seq<(Seq<char>, PaneId)>,
)
    requires
        labels_wf(prev),
    ensures
        labels_wf(assign_spec_with(v, prefs, a, prev)),
        all_keep(assign_spec_with(v, prefs, a, prev), v, a, label_len(v.len(), a.len())),
        a.no_duplicates() && v.len() <= a.len() * a.len() ==> forall|k: int|
            0 <= k < v.len() ==> has_pane(assign_spec_with(v, prefs, a, prev), #[trigger] v[k].id),
{
    let len = label_len(v.len(), a.len());
    lemma_kept(prev, v, a, len);
    let m0 = kept(prev, v, a, len);
    assert forall|i: int| 0 <= i < v.len() implies is_visible(v, #[trigger] v[i].id) by {}
    lemma_preferred(m0, v, prefs, v, a, len);
    let (m1, d) = pass_preferred(m0, v, prefs, a, len);
    lemma_deferred(m1, d, v, a, len);
    if a.no_duplicates() && v.len() <= a.len() * a.len() {
        assert(v.len() <= cand_count(a, len));
        assert forall|k: int| 0 <= k < v.len() implies has_pane(
            assign_spec_with(v, prefs, a, prev),
            #[trigger] v[k].id,
        ) by {
            if d.contains(v[k].id) {
            } else {
                assert(has_pane(m1, v[k].id));
            }
        }
    }
}

/// Labelling keeps a well-formed map well formed.
pub proof fn lemma_assign_wf(v: Seq<DashPane>, a: Seq<char>, prev: Seq<(Seq<char>, PaneId)>)
    requires
        labels_wf(prev),
    ensures
        labels_wf(assign_spec(v, a, prev)),
{
    lemma_assign(v, a, prev);
}

/// Labels are a bijection: for visible panes with distinct identities, no
/// more than the square of the alphabet's size, the result holds exactly one
/// entry per visible pane, no label twice, and every label has the required
/// length and uses the alphabet only.
pub proof fn lemma_label_bijection(v: Seq<DashPane>, a: Seq<char>, prev: Seq<(Seq<char>, PaneId)>)
    requires
        labels_wf(prev),
        a.no_duplicates(),
        ids_distinct(v),
        v.len() <= a.len() * a.len(),
    ensures
        assign_spec(v, a, prev).len() == v.len(),
        labels_wf(assign_spec(v, a, prev)),
        forall|k: int| 0 <= k < v.len() ==> has_pane(assign_spec(v, a, prev), #[trigger] v[k].id),
        forall|i: int|
            0 <= i < assign_spec(v, a, prev).len() ==> is_visible(
                v,
                #[trigger] assign_spec(v, a, prev)[i].1,
            ) && assign_spec(v, a, prev)[i].0.len() == label_len(v.len(), a.len())
                && over_alphabet(assign_spec(v, a, prev)[i].0, a),
{
    lemma_assign(v, a, prev);
    let r = assign_spec(v, a, prev);
    assert forall|i: int| 0 <= i < r.len() implies is_visible(v, #[trigger] r[i].1) && r[i].0.len()
        == label_len(v.len(), a.len()) && over_alphabet(r[i].0, a) by {
        assert(keeps(r[i], v, a, label_len(v.len(), a.len())));
    }
    let panes = r.map_values(|e: (Seq<char>, PaneId)| e.1);
    let ids = v.map_values(|p: DashPane| p.id);
    assert(panes.no_duplicates());
    assert(ids.no_duplicates());
    panes.unique_seq_to_set();
    ids.unique_seq_to_set();
    assert(panes.to_set() =~= ids.to_set()) by {
        assert forall|y: PaneId| panes.to_set().contains(y) implies ids.to_set().contains(y) by {
            let i = choose|i: int| 0 <= i < panes.len() && panes[i] == y;
            assert(keeps(r[i], v, a, label_len(v.len(), a.len())));
            let j = choose|j: int| 0 <= j < v.len() && v[j].id == y;
            assert(ids[j] == y);
        }
        assert forall|y: PaneId| ids.to_set().contains(y) implies panes.to_set().contains(y) by {
            let j = choose|j: int| 0 <= j < ids.len() && ids[j] == y;
            assert(has_pane(r, v[j].id));
            let i = choose|i: int| 0 <= i < r.len() && r[i].1 == y;
            assert(panes[i] == y);
        }
    }
}

/// Labels are stable when a pane goes: labelling again without the pane at
/// position `j`, while the required length stays the same, keeps only entries
/// of the earlier result and drops the one of the pane that went.
pub proof fn lemma_label_shrink_stable(
    v: Seq<DashPane>,
    a: Seq<char>,
    prev: Seq<(Seq<char>, PaneId)>,
    j: int,
)
    requires
        labels_wf(prev),
        a.no_duplicates(),
        ids_distinct(v),
        v.len() <= a.len() * a.len(),
        0 <= j < v.len(),
        label_len((v.len() - 1) as nat, a.len()) == label_len(v.len(), a.len()),
    ensures
        forall|i: int|
            0 <= i < assign_spec(v.remove(j), a, assign_spec(v, a, prev)).len() ==> assign_spec(
                v,
                a,
                prev,
            ).contains(#[trigger] assign_spec(v.remove(j), a, assign_spec(v, a, prev))[i]),
        has_pane(assign_spec(v, a, prev), v[j].id),
        !has_pane(assign_spec(v.remove(j), a, assign_spec(v, a, prev)), v[j].id),
{
    lemma_label_bijection(v, a, prev);
    let r = assign_spec(v, a, prev);
    let v2 = v.remove(j);
    let len = label_len(v.len(), a.len());
    assert(v2.len() == v.len() - 1);
    lemma_kept(r, v2, a, len);
    let k = kept(r, v2, a, len);
    assert(!is_visible(v2, v[j].id)) by {
        if is_visible(v2, v[j].id) {
            let i = choose|i: int| 0 <= i < v2.len() && v2[i].id == v[j].id;
            if i < j {
                assert(v2[i] == v[i]);
            } else {
                assert(v2[i] == v[i + 1]);
            }
        }
    }
    assert forall|i: int| 0 <= i < v2.len() implies has_pane(k, #[trigger] v2[i].id) by {
        let vi = if i < j {
            i
        } else {
            i + 1
        };
        assert(v2[i] == v[vi]);
        assert(has_pane(r, v[vi].id));
        let x = choose|x: int| 0 <= x < r.len() && r[x].1 == v[vi].id;
        assert(is_visible(v2, r[x].1));
        assert(keeps(r[x], v2, a, len));
        assert(k.contains(r[x]));
        let y = choose|y: int| 0 <= y < k.len() && k[y] == r[x];
    }
    assert(all_keep(k, v2, a, len));
    assert forall|i: int| 0 <= i < v2.len() implies is_visible(v2, #[trigger] v2[i].id) by {}
    let prefs2 = preferred_labels(v2, label_len(v2.len(), a.len()));
    lemma_preferred(k, v2, prefs2, v2, a, len);
    assert(pass_preferred(k, v2, prefs2, a, len) == (k, Seq::<PaneId>::empty()));
    assert(assign_spec(v2, a, r) == k);
    assert(!has_pane(k, v[j].id)) by {
        if has_pane(k, v[j].id) {
            let i = choose|i: int| 0 <= i < k.len() && k[i].1 == v[j].id;
            assert(keeps(k[i], v2, a, len));
        }
    }
}

} // verus!

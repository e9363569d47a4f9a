//! Which of the files that a directory walk found are analyzed, and in which
//! order. Names are taken as bytes, so that any file name can be told apart
//! from any other.

use crate::text;
use vstd::prelude::*;
use vstd::utf8::*;

verus! {

/// Patterns of the files to look for, relative to the scanned directory.
pub const PATTERNS: [&'static str; 2] = ["**/*.test.*", "**/*.spec.*"];

/// Directories that are not searched.
pub const EXCLUDED_DIRS: [&'static str; 5] = ["node_modules", ".git", "dist", "build", "target"];

/// Extensions of the files that are analyzed.
pub const TEST_EXTENSIONS: [&'static str; 8] = [
    "ts",
    "tsx",
    "js",
    "jsx",
    "mjs",
    "cjs",
    "mts",
    "cts",
];

/// One component of a path.
pub enum Component {
    /// A drive or share.
    Prefix(Vec<u8>),
    /// The root directory.
    Root,
    /// `.`
    Current,
    /// `..`
    Parent,
    /// The name of a file or directory.
    Normal(Vec<u8>),
}

/// A path that the walk found: its components and the extension of its file
/// name.
pub struct Candidate {
    pub components: Vec<Component>,
    pub extension: Option<Vec<u8>>,
}

/// A component as its kind, in the order of kinds, and its name.
pub ghost struct ComponentModel {
    pub kind: nat,
    pub name: Seq<u8>,
}

impl View for Component {
    type V = ComponentModel;

    open spec fn view(&self) -> ComponentModel {
        match self {
            Component::Prefix(name) => ComponentModel { kind: 0, name: name@ },
            Component::Root => ComponentModel { kind: 1, name: seq![] },
            Component::Current => ComponentModel { kind: 2, name: seq![] },
            Component::Parent => ComponentModel { kind: 3, name: seq![] },
            Component::Normal(name) => ComponentModel { kind: 4, name: name@ },
        }
    }
}

impl Candidate {
    /// The components of the path.
    pub open spec fn path(self) -> Seq<ComponentModel> {
        Seq::new(self.components@.len(), |i: int| self.components@[i]@)
    }

    /// Whether a directory that is not searched is on the path.
    pub open spec fn is_excluded(self) -> bool {
        exists|i: int|
            0 <= i < self.components@.len() && is_excluded_name(#[trigger] self.components@[i])
    }

    pub open spec fn has_test_extension(self) -> bool {
        match self.extension {
            Some(bytes) => is_listed_bytes(TEST_EXTENSIONS@, bytes@),
            None => false,
        }
    }

    /// Whether the file is analyzed.
    pub open spec fn is_kept(self) -> bool {
        !self.is_excluded() && self.has_test_extension()
    }
}

/// Whether some bytes are one of the texts of a list.
pub open spec fn is_listed_bytes(list: Seq<&'static str>, bytes: Seq<u8>) -> bool {
    exists|i: int| 0 <= i < list.len() && encode_utf8((#[trigger] list[i])@) == bytes
}

pub open spec fn is_excluded_name(component: Component) -> bool {
    match component {
        Component::Normal(name) => is_listed_bytes(EXCLUDED_DIRS@, name@),
        _ => false,
    }
}

/// Whether `a` comes before `b`, byte by byte.
pub open spec fn name_before(a: Seq<u8>, b: Seq<u8>) -> bool
    decreases b.len(),
{
    if b.len() == 0 {
        false
    } else if a.len() == 0 {
        true
    } else {
        a[0] < b[0] || (a[0] == b[0] && name_before(a.skip(1), b.skip(1)))
    }
}

/// Whether `a` comes before `b`: by kind, then by name.
pub open spec fn component_before(a: ComponentModel, b: ComponentModel) -> bool {
    a.kind < b.kind || (a.kind == b.kind && name_before(a.name, b.name))
}

/// Whether `a` comes before `b`, component by component.
pub open spec fn path_before(a: Seq<ComponentModel>, b: Seq<ComponentModel>) -> bool
    decreases b.len(),
{
    if b.len() == 0 {
        false
    } else if a.len() == 0 {
        true
    } else {
        component_before(a[0], b[0]) || (a[0] == b[0] && path_before(a.skip(1), b.skip(1)))
    }
}

proof fn lemma_name_order(a: Seq<u8>, b: Seq<u8>)
    ensures
        !(name_before(a, b) && name_before(b, a)),
        a == b ==> !name_before(a, b),
    decreases b.len(),
{
    if a.len() > 0 && b.len() > 0 {
        lemma_name_order(a.skip(1), b.skip(1));
    }
}

proof fn lemma_name_transitive(a: Seq<u8>, b: Seq<u8>, c: Seq<u8>)
    requires
        name_before(a, b),
        name_before(b, c),
    ensures
        name_before(a, c),
    decreases c.len(),
{
    if a.len() > 0 && b.len() > 0 && c.len() > 0 && a[0] == b[0] && b[0] == c[0] {
        lemma_name_transitive(a.skip(1), b.skip(1), c.skip(1));
    }
}

proof fn lemma_component_order(a: ComponentModel, b: ComponentModel)
    ensures
        !(component_before(a, b) && component_before(b, a)),
        a == b ==> !component_before(a, b),
{
    lemma_name_order(a.name, b.name);
}

proof fn lemma_component_transitive(a: ComponentModel, b: ComponentModel, c: ComponentModel)
    requires
        component_before(a, b),
        component_before(b, c),
    ensures
        component_before(a, c),
{
    if a.kind == b.kind && b.kind == c.kind {
        lemma_name_transitive(a.name, b.name, c.name);
    }
}

/// No path comes before itself, and no two paths come before each other.
pub proof fn lemma_path_order(a: Seq<ComponentModel>, b: Seq<ComponentModel>)
    ensures
        !(path_before(a, b) && path_before(b, a)),
        a == b ==> !path_before(a, b),
    decreases b.len(),
{
    if a.len() > 0 && b.len() > 0 {
        lemma_component_order(a[0], b[0]);
        lemma_path_order(a.skip(1), b.skip(1));
    }
}

pub proof fn lemma_path_transitive(
    a: Seq<ComponentModel>,
    b: Seq<ComponentModel>,
    c: Seq<ComponentModel>,
)
    requires
        path_before(a, b),
        path_before(b, c),
    ensures
        path_before(a, c),
    decreases c.len(),
{
    if a.len() > 0 && b.len() > 0 && c.len() > 0 {
        if component_before(a[0], b[0]) && component_before(b[0], c[0]) {
            lemma_component_transitive(a[0], b[0], c[0]);
        } else if a[0] == b[0] && b[0] == c[0] {
            lemma_path_transitive(a.skip(1), b.skip(1), c.skip(1));
        }
    }
}

/// How two values relate in an order.
#[derive(Debug, Clone, Copy, PartialEq, Eq, Structural)]
enum Relation {
    Before,
    Same,
    After,
}

/// Names that agree on a common beginning relate as what follows it.
proof fn lemma_name_after_common(a: Seq<u8>, b: Seq<u8>, n: int)
    requires
        0 <= n <= a.len(),
        n <= b.len(),
        forall|j: int| 0 <= j < n ==> a[j] == b[j],
    ensures
        name_before(a, b) == name_before(a.skip(n), b.skip(n)),
    decreases n,
{
    if n == 0 {
        assert(a.skip(0) =~= a);
        assert(b.skip(0) =~= b);
    } else {
        lemma_name_after_common(a.skip(1), b.skip(1), n - 1);
        assert(a.skip(1).skip(n - 1) =~= a.skip(n));
        assert(b.skip(1).skip(n - 1) =~= b.skip(n));
    }
}

fn relate_names(a: &Vec<u8>, b: &Vec<u8>) -> (r: Relation)
    ensures
        match r {
            Relation::Before => name_before(a@, b@),
            Relation::Same => a@ == b@,
            Relation::After => name_before(b@, a@),
        },
{
    let mut i: usize = 0;
    while i < a.len() && i < b.len()
        invariant
            0 <= i <= a@.len(),
            i <= b@.len(),
            forall|j: int| 0 <= j < i ==> a@[j] == b@[j],
        decreases a@.len() - i,
    {
        if a[i] != b[i] {
            proof {
                lemma_name_after_common(a@, b@, i as int);
                lemma_name_after_common(b@, a@, i as int);
            }
            return if a[i] < b[i] {
                Relation::Before
            } else {
                Relation::After
            };
        }
        i += 1;
    }
    proof {
        lemma_name_after_common(a@, b@, i as int);
        lemma_name_after_common(b@, a@, i as int);
    }
    if i < b.len() {
        Relation::Before
    } else if i < a.len() {
        Relation::After
    } else {
        assert(a@ =~= b@);
        Relation::Same
    }
}

fn kind(c: &Component) -> (r: u8)
    ensures
        r as nat == c@.kind,
{
    match c {
        Component::Prefix(_) => 0,
        Component::Root => 1,
        Component::Current => 2,
        Component::Parent => 3,
        Component::Normal(_) => 4,
    }
}

fn relate_components(a: &Component, b: &Component) -> (r: Relation)
    ensures
        match r {
            Relation::Before => component_before(a@, b@),
            Relation::Same => a@ == b@,
            Relation::After => component_before(b@, a@),
        },
{
    let (x, y): (u8, u8) = (kind(a), kind(b));
    if x < y {
        return Relation::Before;
    }
    if y < x {
        return Relation::After;
    }
    match (a, b) {
        (Component::Prefix(m), Component::Prefix(n)) => relate_names(m, n),
        (Component::Normal(m), Component::Normal(n)) => relate_names(m, n),
        _ => Relation::Same,
    }
}

proof fn lemma_path_after_common(a: Seq<ComponentModel>, b: Seq<ComponentModel>, n: int)
    requires
        0 <= n <= a.len(),
        n <= b.len(),
        forall|j: int| 0 <= j < n ==> a[j] == b[j],
    ensures
        path_before(a, b) == path_before(a.skip(n), b.skip(n)),
    decreases n,
{
    if n == 0 {
        assert(a.skip(0) =~= a);
        assert(b.skip(0) =~= b);
    } else {
        lemma_component_order(a[0], b[0]);
        lemma_path_after_common(a.skip(1), b.skip(1), n - 1);
        assert(a.skip(1).skip(n - 1) =~= a.skip(n));
        assert(b.skip(1).skip(n - 1) =~= b.skip(n));
    }
}

fn relate_paths(a: &Candidate, b: &Candidate) -> (r: Relation)
    ensures
        match r {
            Relation::Before => path_before(a.path(), b.path()),
            Relation::Same => a.path() == b.path(),
            Relation::After => path_before(b.path(), a.path()),
        },
{
    let ghost p = a.path();
    let ghost q = b.path();
    let mut i: usize = 0;
    while i < a.components.len() && i < b.components.len()
        invariant
            p == a.path(),
            q == b.path(),
            0 <= i <= p.len(),
            i <= q.len(),
            forall|j: int| 0 <= j < i ==> p[j] == q[j],
        decreases p.len() - i,
    {
        let relation: Relation = relate_components(&a.components[i], &b.components[i]);
        if relation != Relation::Same {
            proof {
                lemma_path_after_common(p, q, i as int);
                lemma_path_after_common(q, p, i as int);
            }
            return relation;
        }
        i += 1;
    }
    proof {
        lemma_path_after_common(p, q, i as int);
        lemma_path_after_common(q, p, i as int);
    }
    if i < b.components.len() {
        Relation::Before
    } else if i < a.components.len() {
        Relation::After
    } else {
        assert(p =~= q);
        Relation::Same
    }
}

/// Whether the bytes are the encoding of the text.
fn same_bytes(text: &str, bytes: &Vec<u8>) -> (r: bool)
    ensures
        r == (encode_utf8(text@) == bytes@),
{
    let x: &[u8] = text.as_bytes();
    if x.len() != bytes.len() {
        return false;
    }
    let mut i: usize = 0;
    while i < x.len()
        invariant
            x@ == encode_utf8(text@),
            x@.len() == bytes@.len(),
            0 <= i <= x@.len(),
            forall|j: int| 0 <= j < i ==> x@[j] == bytes@[j],
        decreases x@.len() - i,
    {
        if x[i] != bytes[i] {
            return false;
        }
        i += 1;
    }
    assert(x@ =~= bytes@);
    true
}

fn listed_bytes<const N: usize>(list: &[&'static str; N], bytes: &Vec<u8>) -> (r: bool)
    ensures
        r == is_listed_bytes(list@, bytes@),
{
    let mut i: usize = 0;
    while i < N
        invariant
            0 <= i <= N,
            forall|j: int| 0 <= j < i ==> encode_utf8((#[trigger] list@[j])@) != bytes@,
        decreases N - i,
    {
        if same_bytes(list[i], bytes) {
            assert(encode_utf8(list@[i as int]@) == bytes@);
            return true;
        }
        i += 1;
    }
    false
}

/// Whether the extension is one of those that are analyzed.
pub fn has_test_extension(candidate: &Candidate) -> (r: bool)
    ensures
        r == candidate.has_test_extension(),
{
    match &candidate.extension {
        Some(bytes) => listed_bytes(&TEST_EXTENSIONS, bytes),
        None => false,
    }
}

/// Whether a directory that is not searched is on the path.
pub fn is_excluded(candidate: &Candidate) -> (r: bool)
    ensures
        r == candidate.is_excluded(),
{
    let mut i: usize = 0;
    while i < candidate.components.len()
        invariant
            0 <= i <= candidate.components@.len(),
            forall|j: int| 0 <= j < i ==> !is_excluded_name(#[trigger] candidate.components@[j]),
        decreases candidate.components@.len() - i,
    {
        if let Component::Normal(name) = &candidate.components[i] {
            if listed_bytes(&EXCLUDED_DIRS, name) {
                assert(is_excluded_name(candidate.components@[i as int]));
                return true;
            }
        }
        i += 1;
    }
    false
}

/// The path of the candidate that was chosen at place `k`.
pub open spec fn chosen_path(candidates: Seq<Candidate>, chosen: Seq<usize>, k: int) -> Seq<
    ComponentModel,
> {
    candidates[chosen[k] as int].path()
}

/// Whether the path of candidate `j` was chosen, at `j` or before.
pub open spec fn is_covered(candidates: Seq<Candidate>, chosen: Seq<usize>, j: int) -> bool {
    exists|k: int|
        0 <= k < chosen.len() && chosen[k] <= j && #[trigger] chosen_path(candidates, chosen, k)
            == candidates[j].path()
}

/// Whether `chosen` are the files to analyze among the first `n` candidates:
/// in the order of their paths, each path once, and no kept path left out. Of
/// candidates with one path the first is chosen.
pub open spec fn is_selection(candidates: Seq<Candidate>, n: int, chosen: Seq<usize>) -> bool {
    &&& forall|k: int|
        0 <= k < chosen.len() ==> (#[trigger] chosen[k]) < n
            && candidates[chosen[k] as int].is_kept()
    &&& forall|k: int, l: int|
        0 <= k < l < chosen.len() ==> path_before(
            #[trigger] chosen_path(candidates, chosen, k),
            #[trigger] chosen_path(candidates, chosen, l),
        )
    &&& forall|j: int|
        0 <= j < n && candidates[j].is_kept() ==> #[trigger] is_covered(candidates, chosen, j)
}

/// Chooses the files to analyze. A file that matches both patterns is found
/// twice and analyzed once.
pub fn select_test_files(candidates: &[Candidate]) -> (r: Vec<usize>)
    ensures
        is_selection(candidates@, candidates@.len() as int, r@),
{
    let mut chosen: Vec<usize> = Vec::new();
    let mut i: usize = 0;
    while i < candidates.len()
        invariant
            0 <= i <= candidates@.len(),
            is_selection(candidates@, i as int, chosen@),
        decreases candidates@.len() - i,
    {
        if !is_excluded(&candidates[i]) && has_test_extension(&candidates[i]) {
            insert(candidates, i, &mut chosen);
        }
        i += 1;
    }
    chosen
}

/// Adds the kept candidate `i` at its place, unless its path is there.
fn insert(candidates: &[Candidate], i: usize, chosen: &mut Vec<usize>)
    requires
        i < candidates@.len(),
        candidates@[i as int].is_kept(),
        is_selection(candidates@, i as int, old(chosen)@),
    ensures
        is_selection(candidates@, i + 1, final(chosen)@),
{
    let ghost all = candidates@;
    let ghost before = chosen@;
    let ghost new = all[i as int].path();
    let mut low: usize = 0;
    let mut high: usize = chosen.len();
    while low < high
        invariant
            0 <= low <= high <= chosen@.len(),
            i < candidates@.len(),
            all == candidates@,
            chosen@ == before,
            before == old(chosen)@,
            new == all[i as int].path(),
            is_selection(all, i as int, before),
            forall|k: int| 0 <= k < low ==> path_before(#[trigger] chosen_path(all, before, k), new),
            forall|k: int|
                high <= k < before.len() ==> path_before(new, #[trigger] chosen_path(all, before, k)),
        decreases high - low,
    {
        let mid: usize = low + (high - low) / 2;
        let at: usize = chosen[mid];
        let ghost met = chosen_path(all, before, mid as int);
        assert(met == all[at as int].path());
        match relate_paths(&candidates[at], &candidates[i]) {
            Relation::Before => {
                assert forall|k: int| 0 <= k < mid + 1 implies path_before(
                    #[trigger] chosen_path(all, before, k),
                    new,
                ) by {
                    if k < mid {
                        lemma_path_transitive(chosen_path(all, before, k), met, new);
                    }
                }
                low = mid + 1;
            },
            Relation::Same => {
                assert(is_covered(all, before, i as int));
                return;
            },
            Relation::After => {
                assert forall|k: int| mid <= k < before.len() implies path_before(
                    new,
                    #[trigger] chosen_path(all, before, k),
                ) by {
                    if mid < k {
                        lemma_path_transitive(new, met, chosen_path(all, before, k));
                    }
                }
                high = mid;
            },
        }
    }
    chosen.insert(low, i);
    proof {
        lemma_inserted(all, before, low as int, i);
    }
}

/// Inserting between smaller and larger paths keeps a selection.
proof fn lemma_inserted(all: Seq<Candidate>, before: Seq<usize>, at: int, i: usize)
    requires
        0 <= at <= before.len(),
        i < all.len(),
        all[i as int].is_kept(),
        is_selection(all, i as int, before),
        forall|k: int|
            0 <= k < at ==> path_before(
                #[trigger] chosen_path(all, before, k),
                all[i as int].path(),
            ),
        forall|k: int|
            at <= k < before.len() ==> path_before(
                all[i as int].path(),
                #[trigger] chosen_path(all, before, k),
            ),
    ensures
        is_selection(all, i + 1, before.insert(at, i)),
{
    let after = before.insert(at, i);
    assert forall|k: int| 0 <= k < after.len() implies (#[trigger] after[k]) < i + 1
        && all[after[k] as int].is_kept() by {
        if k < at {
            assert(after[k] == before[k]);
        } else if k > at {
            assert(after[k] == before[k - 1]);
        }
    }
    assert forall|k: int, l: int| 0 <= k < l < after.len() implies path_before(
        #[trigger] chosen_path(all, after, k),
        #[trigger] chosen_path(all, after, l),
    ) by {
        let old_k = if k < at {
            k
        } else {
            k - 1
        };
        let old_l = if l < at {
            l
        } else {
            l - 1
        };
        if k != at {
            assert(chosen_path(all, after, k) == chosen_path(all, before, old_k));
        }
        if l != at {
            assert(chosen_path(all, after, l) == chosen_path(all, before, old_l));
        }
    }
    assert forall|j: int| 0 <= j < i + 1 && all[j].is_kept() implies #[trigger] is_covered(
        all,
        after,
        j,
    ) by {
        if j == i {
            assert(chosen_path(all, after, at) == all[j].path());
        } else {
            assert(is_covered(all, before, j));
            let k = choose|k: int|
                0 <= k < before.len() && before[k] <= j && #[trigger] chosen_path(all, before, k)
                    == all[j].path();
            let moved = if k < at {
                k
            } else {
                k + 1
            };
            assert(after[moved] == before[k]);
            assert(chosen_path(all, after, moved) == all[j].path());
        }
    }
}


/// A chosen candidate is the first of its path.
proof fn lemma_chosen_first(all: Seq<Candidate>, n: int, chosen: Seq<usize>, k: int, j: int)
    requires
        is_selection(all, n, chosen),
        0 <= k < chosen.len(),
        0 <= j < n,
        all[j].is_kept(),
        all[j].path() == chosen_path(all, chosen, k),
    ensures
        chosen[k] <= j,
{
    assert(is_covered(all, chosen, j));
    let l = choose|l: int|
        0 <= l < chosen.len() && chosen[l] <= j && #[trigger] chosen_path(all, chosen, l)
            == all[j].path();
    lemma_path_order(chosen_path(all, chosen, k), chosen_path(all, chosen, l));
}

/// What one selection holds, any other holds too.
proof fn lemma_chosen_in_other(
    all: Seq<Candidate>,
    n: int,
    a: Seq<usize>,
    b: Seq<usize>,
    k: int,
) -> (l: int)
    requires
        n <= all.len(),
        is_selection(all, n, a),
        is_selection(all, n, b),
        0 <= k < a.len(),
    ensures
        0 <= l < b.len(),
        b[l] == a[k],
{
    let j = a[k] as int;
    assert(is_covered(all, b, j));
    let l = choose|l: int|
        0 <= l < b.len() && b[l] <= j && #[trigger] chosen_path(all, b, l) == all[j].path();
    assert(chosen_path(all, a, k) == all[j].path());
    lemma_chosen_first(all, n, a, k, b[l] as int);
    l
}

proof fn lemma_same_at(all: Seq<Candidate>, n: int, a: Seq<usize>, b: Seq<usize>, k: int)
    requires
        n <= all.len(),
        is_selection(all, n, a),
        is_selection(all, n, b),
        0 <= k < a.len(),
        k < b.len(),
        forall|i: int| 0 <= i < k ==> a[i] == b[i],
    ensures
        a[k] == b[k],
{
    let l = lemma_chosen_in_other(all, n, a, b, k);
    let m = lemma_chosen_in_other(all, n, b, a, k);
    let p = chosen_path(all, a, k);
    let q = chosen_path(all, b, k);
    assert(chosen_path(all, b, l) == p);
    assert(chosen_path(all, a, m) == q);
    lemma_path_order(p, q);
    lemma_path_order(p, p);
    lemma_path_order(q, q);
    if l < k {
        assert(path_before(chosen_path(all, a, l), p));
    }
    if m < k {
        assert(path_before(chosen_path(all, b, m), q));
    }
}

proof fn lemma_same_up_to(all: Seq<Candidate>, n: int, a: Seq<usize>, b: Seq<usize>, k: int)
    requires
        n <= all.len(),
        is_selection(all, n, a),
        is_selection(all, n, b),
        0 <= k <= a.len(),
        k <= b.len(),
    ensures
        forall|i: int| 0 <= i < k ==> a[i] == b[i],
    decreases k,
{
    if k > 0 {
        lemma_same_up_to(all, n, a, b, k - 1);
        lemma_same_at(all, n, a, b, k - 1);
    }
}

proof fn lemma_no_longer(all: Seq<Candidate>, n: int, a: Seq<usize>, b: Seq<usize>)
    requires
        n <= all.len(),
        is_selection(all, n, a),
        is_selection(all, n, b),
    ensures
        a.len() <= b.len(),
{
    if a.len() > b.len() {
        let k = b.len() as int;
        lemma_same_up_to(all, n, a, b, k);
        let l = lemma_chosen_in_other(all, n, a, b, k);
        assert(a[l] == a[k]);
        assert(path_before(chosen_path(all, a, l), chosen_path(all, a, k)));
        lemma_path_order(chosen_path(all, a, l), chosen_path(all, a, k));
    }
}

/// There is one selection only: what is analyzed, and in which order, depends
/// on nothing but the candidates.
pub proof fn law_selection_is_unique(
    candidates: Seq<Candidate>,
    n: int,
    a: Seq<usize>,
    b: Seq<usize>,
)
    requires
        n <= candidates.len(),
        is_selection(candidates, n, a),
        is_selection(candidates, n, b),
    ensures
        a == b,
{
    lemma_no_longer(candidates, n, a, b);
    lemma_no_longer(candidates, n, b, a);
    lemma_same_up_to(candidates, n, a, b, a.len() as int);
    assert(a =~= b);
}

} // verus!

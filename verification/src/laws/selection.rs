//! Laws of the selection of files.

use crate::files;
use crate::files::{Candidate, Component, ComponentModel, EXCLUDED_DIRS, TEST_EXTENSIONS};
use vstd::prelude::*;
use vstd::utf8::*;

verus! {

/// The names of the directories that are not searched.
pub open spec fn is_off_limits(name: Seq<u8>) -> bool {
    name == encode_utf8("node_modules"@) || name == encode_utf8(".git"@) || name == encode_utf8(
        "dist"@,
    ) || name == encode_utf8("build"@) || name == encode_utf8("target"@)
}

proof fn lemma_off_limits(name: Seq<u8>)
    ensures
        files::is_listed_bytes(EXCLUDED_DIRS@, name) == is_off_limits(name),
{
    let list = EXCLUDED_DIRS@;
    assert(list[0]@ == "node_modules"@ && list[1]@ == ".git"@ && list[2]@ == "dist"@ && list[3]@
        == "build"@ && list[4]@ == "target"@);
    if is_off_limits(name) {
        assert(encode_utf8(list[0]@) == name || encode_utf8(list[1]@) == name || encode_utf8(
            list[2]@,
        ) == name || encode_utf8(list[3]@) == name || encode_utf8(list[4]@) == name);
    }
    if files::is_listed_bytes(list, name) {
        let i = choose|i: int| 0 <= i < list.len() && encode_utf8((#[trigger] list[i])@) == name;
        assert(i == 0 || i == 1 || i == 2 || i == 3 || i == 4);
    }
}

/// A path is excluded exactly if one of its components, at whatever depth, is
/// the name of a directory that is not searched.
pub proof fn law_excluded_at_any_depth(candidate: Candidate)
    ensures
        candidate.is_excluded() <==> exists|i: int|
            0 <= i < candidate.components@.len() && (
            #[trigger] candidate.components@[i] matches Component::Normal(name) && is_off_limits(
                name@,
            )),
{
    let s = candidate.components@;
    if candidate.is_excluded() {
        let i = choose|i: int| 0 <= i < s.len() && files::is_excluded_name(#[trigger] s[i]);
        lemma_off_limits(s[i]->Normal_0@);
        assert(s[i] matches Component::Normal(name) && is_off_limits(name@));
    }
    if exists|i: int|
        0 <= i < s.len() && (#[trigger] s[i] matches Component::Normal(name) && is_off_limits(
            name@,
        )) {
        let i = choose|i: int|
            0 <= i < s.len() && (#[trigger] s[i] matches Component::Normal(name) && is_off_limits(
                name@,
            ));
        lemma_off_limits(s[i]->Normal_0@);
        assert(files::is_excluded_name(s[i]));
    }
}

/// A path is excluded exactly if its leading directories or the rest of it
/// are, wherever it is parted.
pub proof fn law_exclusion_looks_at_every_part(whole: Candidate, a: Candidate, b: Candidate)
    requires
        whole.components@ == a.components@ + b.components@,
    ensures
        whole.is_excluded() <==> a.is_excluded() || b.is_excluded(),
{
    let (x, y, z) = (a.components@, b.components@, whole.components@);
    if a.is_excluded() {
        let i = choose|i: int| 0 <= i < x.len() && files::is_excluded_name(#[trigger] x[i]);
        assert(z[i] == x[i]);
    }
    if b.is_excluded() {
        let i = choose|i: int| 0 <= i < y.len() && files::is_excluded_name(#[trigger] y[i]);
        assert(z[x.len() + i] == y[i]);
    }
    if whole.is_excluded() {
        let i = choose|i: int| 0 <= i < z.len() && files::is_excluded_name(#[trigger] z[i]);
        if i < x.len() {
            assert(x[i] == z[i]);
        } else {
            assert(y[i - x.len()] == z[i]);
        }
    }
}

/// The extensions of scripts.
pub open spec fn is_script_extension(bytes: Seq<u8>) -> bool {
    bytes == encode_utf8("ts"@) || bytes == encode_utf8("tsx"@) || bytes == encode_utf8("js"@)
        || bytes == encode_utf8("jsx"@) || bytes == encode_utf8("mjs"@) || bytes == encode_utf8(
        "cjs"@,
    ) || bytes == encode_utf8("mts"@) || bytes == encode_utf8("cts"@)
}

proof fn lemma_script_extension(bytes: Seq<u8>)
    ensures
        files::is_listed_bytes(TEST_EXTENSIONS@, bytes) == is_script_extension(bytes),
{
    let list = TEST_EXTENSIONS@;
    assert(list[0]@ == "ts"@ && list[1]@ == "tsx"@ && list[2]@ == "js"@ && list[3]@ == "jsx"@
        && list[4]@ == "mjs"@ && list[5]@ == "cjs"@ && list[6]@ == "mts"@ && list[7]@ == "cts"@);
    if is_script_extension(bytes) {
        assert(encode_utf8(list[0]@) == bytes || encode_utf8(list[1]@) == bytes || encode_utf8(
            list[2]@,
        ) == bytes || encode_utf8(list[3]@) == bytes || encode_utf8(list[4]@) == bytes
            || encode_utf8(list[5]@) == bytes || encode_utf8(list[6]@) == bytes || encode_utf8(
            list[7]@,
        ) == bytes);
    }
    if files::is_listed_bytes(list, bytes) {
        let i = choose|i: int| 0 <= i < list.len() && encode_utf8((#[trigger] list[i])@) == bytes;
        assert(i == 0 || i == 1 || i == 2 || i == 3 || i == 4 || i == 5 || i == 6 || i == 7);
    }
}

/// A file is analyzed exactly if it is a script by its extension and no
/// directory on its path is left out.
pub proof fn law_scripts_are_kept(candidate: Candidate)
    ensures
        candidate.is_kept() <==> (candidate.extension matches Some(bytes) && is_script_extension(
            bytes@,
        )) && (forall|i: int|
            0 <= i < candidate.components@.len() ==> !(
            #[trigger] candidate.components@[i] matches Component::Normal(name) && is_off_limits(
                name@,
            ))),
{
    law_excluded_at_any_depth(candidate);
    match candidate.extension {
        Some(bytes) => {
            lemma_script_extension(bytes@);
        },
        None => {},
    }
}

/// What a selection is: only kept files, each path once, in the order of the
/// paths, and no kept path missing; of equal paths the first.
pub proof fn law_selection_is_complete(candidates: Seq<Candidate>, chosen: Seq<usize>)
    requires
        files::is_selection(candidates, candidates.len() as int, chosen),
    ensures
        forall|k: int|
            0 <= k < chosen.len() ==> (#[trigger] chosen[k]) < candidates.len()
                && candidates[chosen[k] as int].is_kept(),
        forall|k: int, l: int|
            #![trigger chosen[k], chosen[l]]
            0 <= k < l < chosen.len() ==> files::path_before(
                candidates[chosen[k] as int].path(),
                candidates[chosen[l] as int].path(),
            ) && candidates[chosen[k] as int].path() != candidates[chosen[l] as int].path(),
        forall|j: int|
            0 <= j < candidates.len() && (#[trigger] candidates[j]).is_kept() ==> exists|k: int|
                0 <= k < chosen.len() && (#[trigger] chosen[k]) <= j
                    && candidates[chosen[k] as int].path() == candidates[j].path(),
{
    assert forall|k: int, l: int|
        #![trigger chosen[k], chosen[l]]
        0 <= k < l < chosen.len() implies files::path_before(
        candidates[chosen[k] as int].path(),
        candidates[chosen[l] as int].path(),
    ) && candidates[chosen[k] as int].path() != candidates[chosen[l] as int].path() by {
        let (p, q) = (
            files::chosen_path(candidates, chosen, k),
            files::chosen_path(candidates, chosen, l),
        );
        assert(files::path_before(p, q));
        files::lemma_path_order(p, q);
    }
    assert forall|j: int|
        0 <= j < candidates.len() && (#[trigger] candidates[j]).is_kept() implies exists|k: int|
        0 <= k < chosen.len() && (#[trigger] chosen[k]) <= j && candidates[chosen[k] as int].path()
            == candidates[j].path() by {
        assert(files::is_covered(candidates, chosen, j));
        let k = choose|k: int|
            0 <= k < chosen.len() && chosen[k] <= j && #[trigger] files::chosen_path(
                candidates,
                chosen,
                k,
            ) == candidates[j].path();
        assert(chosen[k] <= j);
    }
}

/// A file on an excluded path is never chosen, and a kept file is never
/// forgotten: its path is chosen.
pub proof fn law_excluded_files_are_not_chosen(
    candidates: Seq<Candidate>,
    chosen: Seq<usize>,
    k: int,
    i: int,
)
    requires
        files::is_selection(candidates, candidates.len() as int, chosen),
        0 <= k < chosen.len(),
        0 <= i < candidates[chosen[k] as int].components@.len(),
    ensures
        candidates[chosen[k] as int].components@[i] matches Component::Normal(name)
            ==> !is_off_limits(name@),
{
    law_selection_is_complete(candidates, chosen);
    law_scripts_are_kept(candidates[chosen[k] as int]);
}

/// Names are ordered by their first difference, byte by byte; a name comes
/// before every longer name that begins with it.
pub proof fn law_names_are_ordered_by_their_first_difference(
    common: Seq<u8>,
    x: u8,
    y: u8,
    a: Seq<u8>,
    b: Seq<u8>,
)
    ensures
        x != y ==> files::name_before(common + seq![x] + a, common + seq![y] + b) == (x < y),
        files::name_before(common, common + seq![x] + a),
        !files::name_before(common + seq![x] + a, common),
        !files::name_before(common, common),
    decreases common.len(),
{
    let (p, q) = (common + seq![x] + a, common + seq![y] + b);
    if common.len() > 0 {
        let rest = common.skip(1);
        law_names_are_ordered_by_their_first_difference(rest, x, y, a, b);
        assert(p.skip(1) =~= rest + seq![x] + a);
        assert(q.skip(1) =~= rest + seq![y] + b);
        assert(p[0] == common[0] && q[0] == common[0]);
    }
}

/// Components are ordered by their kind first: a prefix, the root, `.`, `..`,
/// and names last, which are ordered among themselves.
pub proof fn law_components_are_ordered_by_kind(
    prefix: Component,
    name: Component,
    other: Component,
)
    requires
        prefix is Prefix,
        name is Normal,
        other is Normal,
    ensures
        files::component_before(prefix@, Component::Root@),
        files::component_before(Component::Root@, Component::Current@),
        files::component_before(Component::Current@, Component::Parent@),
        files::component_before(Component::Parent@, name@),
        files::component_before(name@, other@) == files::name_before(
            name->Normal_0@,
            other->Normal_0@,
        ),
{
}

/// Paths are ordered by their first different component; a directory comes
/// before what is in it.
pub proof fn law_paths_are_ordered_by_their_first_difference(
    common: Seq<ComponentModel>,
    x: ComponentModel,
    y: ComponentModel,
    a: Seq<ComponentModel>,
    b: Seq<ComponentModel>,
)
    ensures
        x != y ==> files::path_before(common + seq![x] + a, common + seq![y] + b)
            == files::component_before(x, y),
        files::path_before(common, common + seq![x] + a),
        !files::path_before(common + seq![x] + a, common),
    decreases common.len(),
{
    let (p, q) = (common + seq![x] + a, common + seq![y] + b);
    if common.len() > 0 {
        let rest = common.skip(1);
        law_paths_are_ordered_by_their_first_difference(rest, x, y, a, b);
        assert(p.skip(1) =~= rest + seq![x] + a);
        assert(q.skip(1) =~= rest + seq![y] + b);
        assert(p[0] == common[0] && q[0] == common[0]);
        files::lemma_path_order(seq![common[0]], seq![common[0]]);
        assert(!files::component_before(common[0], common[0]));
    }
}

/// The path of a candidate is all of its components, each by kind and name.
pub proof fn law_paths_hold_every_component(candidate: Candidate, i: int)
    requires
        0 <= i < candidate.components@.len(),
    ensures
        candidate.path().len() == candidate.components@.len(),
        candidate.path()[i] == candidate.components@[i]@,
        candidate.components@[i] matches Component::Normal(name) ==> candidate.path()[i].name
            == name@,
{
}

/// Files are looked for under two patterns.
pub proof fn law_patterns_are_test_and_spec()
    ensures
        files::PATTERNS@.len() == 2,
        files::PATTERNS@[0]@ == "**/*.test.*"@,
        files::PATTERNS@[1]@ == "**/*.spec.*"@,
{
}

} // verus!

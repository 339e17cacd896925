//! Where the configuration file is looked for.

use vstd::prelude::*;
use crate::model::strings_view;
use crate::text::{opt_view, owned};

verus! {

/// The parent of a path under the platform's path rules (`Path::parent`).
pub uninterp spec fn parent_path(path: Seq<char>) -> Option<Seq<char>>;

/// `base` joined with `rest` under the platform's path rules (`Path::join`).
pub uninterp spec fn joined_path(base: Seq<char>, rest: Seq<char>) -> Seq<char>;

/// Whether two paths have the same components (`Path`'s `==`).
pub uninterp spec fn same_path(a: Seq<char>, b: Seq<char>) -> bool;

/// `Path::parent`, the result written back as a string. Its result is taken
/// to depend on the path alone; nothing is stated of how the parent is found.
#[verifier::external_body]
fn path_parent(path: &str) -> (r: Option<String>)
    ensures
        opt_view(r) == parent_path(path@),
{
    match std::path::Path::new(path).parent() {
        Some(parent) => Some(parent.to_string_lossy().into_owned()),
        None => None,
    }
}

/// `Path::join`, the result written back as a string. Its result is taken
/// to depend on the two paths alone; nothing is stated of how they are
/// joined.
/// Stated beyond the name: joining a non-empty path gives a non-empty path
/// (`PathBuf::push` either appends `rest` or replaces the path by it).
#[verifier::external_body]
fn path_join(base: &str, rest: &str) -> (r: String)
    ensures
        r@ == joined_path(base@, rest@),
        rest@.len() > 0 ==> r@.len() > 0,
{
    std::path::Path::new(base).join(rest).to_string_lossy().into_owned()
}

/// `Path`'s `==` on two paths. Its result is taken to depend on the two
/// paths alone; stated beyond the name: a path equals itself (`Path: Eq`).
/// Nothing is stated of how components are compared.
#[verifier::external_body]
fn paths_equal(a: &str, b: &str) -> (r: bool)
    ensures
        r == same_path(a@, b@),
        a@ == b@ ==> r,
{
    std::path::Path::new(a) == std::path::Path::new(b)
}

/// The name of the configuration file.
pub open spec fn config_file_name() -> Seq<char> {
    "dashboard.config.json"@
}

/// The configuration file beside `path`: in its parent directory, or the
/// bare file name when `path` has no parent.
pub open spec fn sibling_of(path: Seq<char>) -> Seq<char> {
    match parent_path(path) {
        Some(parent) => joined_path(parent, config_file_name()),
        None => config_file_name(),
    }
}

/// The configuration file beside `path`.
pub fn sibling_config_path(path: &str) -> (r: String)
    ensures
        r@ == sibling_of(path@),
        r@.len() > 0,
{
    proof {
        reveal_strlit("dashboard.config.json");
    }
    match path_parent(path) {
        Some(parent) => path_join(parent.as_str(), "dashboard.config.json"),
        None => owned("dashboard.config.json"),
    }
}

/// `candidates` with `path` added, unless `path` is empty.
pub open spec fn with_candidate(candidates: Seq<Seq<char>>, path: Seq<char>) -> Seq<Seq<char>> {
    if path.len() == 0 {
        candidates
    } else {
        candidates.push(path)
    }
}

/// Adds `path` to the candidates, unless it is empty.
pub fn push_config_candidate(candidates: &mut Vec<String>, path: String)
    ensures
        strings_view(final(candidates)@) == with_candidate(strings_view(old(candidates)@), path@),
{
    if path.as_str().is_empty() {
        return;
    }
    let ghost before = candidates@;
    let ghost p = path@;
    candidates.push(path);
    assert(strings_view(candidates@) =~= strings_view(before).push(p));
}

/// Whether some path of `kept` is the same path as `p`.
pub open spec fn seen_before(kept: Seq<Seq<char>>, p: Seq<char>) -> bool {
    exists|k: int| 0 <= k < kept.len() && same_path(#[trigger] kept[k], p)
}

/// `paths` without each path that is the same path as one kept before it.
pub open spec fn deduped(paths: Seq<Seq<char>>) -> Seq<Seq<char>>
    decreases paths.len(),
{
    if paths.len() == 0 {
        Seq::empty()
    } else {
        let kept = deduped(paths.drop_last());
        if seen_before(kept, paths.last()) {
            kept
        } else {
            kept.push(paths.last())
        }
    }
}

fn seen_in(kept: &Vec<String>, p: &String) -> (r: bool)
    ensures
        r == seen_before(strings_view(kept@), p@),
{
    let mut k: usize = 0;
    while k < kept.len()
        invariant
            k <= kept.len(),
            forall|j: int| 0 <= j < k ==> !same_path(#[trigger] strings_view(kept@)[j], p@),
        decreases kept.len() - k,
    {
        if paths_equal(kept[k].as_str(), p.as_str()) {
            assert(same_path(strings_view(kept@)[k as int], p@));
            return true;
        }
        k = k + 1;
    }
    false
}

/// The paths in order, each path kept only the first time it occurs.
pub fn dedupe_paths(paths: Vec<String>) -> (r: Vec<String>)
    ensures
        strings_view(r@) == deduped(strings_view(paths@)),
{
    let ghost all = strings_view(paths@);
    let mut kept: Vec<String> = Vec::new();
    let mut i: usize = 0;
    while i < paths.len()
        invariant
            i <= paths.len(),
            all == strings_view(paths@),
            strings_view(kept@) == deduped(all.take(i as int)),
        decreases paths.len() - i,
    {
        assert(all.take(i + 1).drop_last() =~= all.take(i as int));
        assert(all.take(i + 1).last() == paths@[i as int]@);
        if !seen_in(&kept, &paths[i]) {
            let ghost before = kept@;
            let p = paths[i].clone();
            kept.push(p);
            assert(strings_view(kept@) =~= strings_view(before).push(paths@[i as int]@));
        }
        i = i + 1;
    }
    assert(all.take(paths.len() as int) =~= all);
    kept
}

/// What the search for the configuration file reads from its surroundings;
/// each is absent where it could not be read.
#[derive(Debug, Clone)]
pub struct ConfigSearch {
    /// The variable `TXST_DASHBOARD_CONFIG`.
    pub explicit_path: Option<String>,
    /// The working directory.
    pub current_dir: Option<String>,
    /// The variable `APPIMAGE`.
    pub appimage: Option<String>,
    /// The path of the running program.
    pub current_exe: Option<String>,
    /// The variable `XDG_CONFIG_HOME`.
    pub xdg_config_home: Option<String>,
    /// The variable `HOME`.
    pub home: Option<String>,
    /// The application's resource directory.
    pub resource_dir: Option<String>,
}

/// `candidates` with the path made from `o` by `f` added, when `o` is there.
pub open spec fn with_found(candidates: Seq<Seq<char>>, o: Option<Seq<char>>, f: spec_fn(Seq<char>) -> Seq<char>) -> Seq<Seq<char>> {
    match o {
        Some(s) => with_candidate(candidates, f(s)),
        None => candidates,
    }
}

/// The places the configuration file is looked for, in order, before
/// repeated places are dropped.
pub open spec fn candidate_places(search: ConfigSearch) -> Seq<Seq<char>> {
    let c0 = with_found(Seq::empty(), opt_view(search.explicit_path), |s: Seq<char>| s);
    let c1 = with_found(c0, opt_view(search.current_dir), |s: Seq<char>| joined_path(s, config_file_name()));
    let c2 = with_found(c1, opt_view(search.appimage), |s: Seq<char>| sibling_of(s));
    let c3 = with_found(c2, opt_view(search.current_exe), |s: Seq<char>| sibling_of(s));
    let c4 = with_found(
        c3,
        opt_view(search.xdg_config_home),
        |s: Seq<char>| joined_path(s, "txst-lab-dashboard/dashboard.config.json"@),
    );
    let c5 = with_found(
        c4,
        opt_view(search.home),
        |s: Seq<char>| joined_path(s, ".config/txst-lab-dashboard/dashboard.config.json"@),
    );
    let c6 = with_candidate(c5, "/etc/txst-lab-dashboard/dashboard.config.json"@);
    with_found(c6, opt_view(search.resource_dir), |s: Seq<char>| joined_path(s, config_file_name()))
}

/// The places the configuration file is looked for, in order, each once:
/// the explicit path, the working directory, beside the AppImage, beside
/// the program, the XDG and home configuration directories, `/etc`, and the
/// resource directory.
pub fn config_candidates(search: &ConfigSearch) -> (r: Vec<String>)
    ensures
        strings_view(r@) == deduped(candidate_places(*search)),
        covered(strings_view(r@), "/etc/txst-lab-dashboard/dashboard.config.json"@),
        match (search.explicit_path, search.current_dir) {
            (None, Some(dir)) => r@.len() > 0 && r@[0]@ == joined_path(dir@, config_file_name()),
            _ => true,
        },
        search.explicit_path matches Some(p) ==> (p@.len() > 0 ==> covered(strings_view(r@), p@)),
        search.current_dir matches Some(d) ==> covered(strings_view(r@), joined_path(d@, "dashboard.config.json"@)),
        search.appimage matches Some(a) ==> covered(strings_view(r@), sibling_of(a@)),
        search.current_exe matches Some(e) ==> covered(strings_view(r@), sibling_of(e@)),
        search.xdg_config_home matches Some(x) ==> covered(
            strings_view(r@),
            joined_path(x@, "txst-lab-dashboard/dashboard.config.json"@),
        ),
        search.home matches Some(h) ==> covered(
            strings_view(r@),
            joined_path(h@, ".config/txst-lab-dashboard/dashboard.config.json"@),
        ),
        search.resource_dir matches Some(d) ==> covered(strings_view(r@), joined_path(d@, "dashboard.config.json"@)),
        all_places_given(*search) && pairwise_different(every_place(*search)) ==> strings_view(r@)
            == every_place(*search),
{
    proof {
        reveal_strlit("dashboard.config.json");
        reveal_strlit("/etc/txst-lab-dashboard/dashboard.config.json");
        reveal_strlit("txst-lab-dashboard/dashboard.config.json");
        reveal_strlit(".config/txst-lab-dashboard/dashboard.config.json");
    }
    let mut candidates: Vec<String> = Vec::new();
    assert(strings_view(candidates@) =~= Seq::<Seq<char>>::empty());
    match &search.explicit_path {
        Some(p) => push_config_candidate(&mut candidates, p.clone()),
        None => {},
    }
    match &search.current_dir {
        Some(p) => push_config_candidate(&mut candidates, path_join(p.as_str(), "dashboard.config.json")),
        None => {},
    }
    match &search.appimage {
        Some(p) => push_config_candidate(&mut candidates, sibling_config_path(p.as_str())),
        None => {},
    }
    match &search.current_exe {
        Some(p) => push_config_candidate(&mut candidates, sibling_config_path(p.as_str())),
        None => {},
    }
    match &search.xdg_config_home {
        Some(p) => push_config_candidate(
            &mut candidates,
            path_join(p.as_str(), "txst-lab-dashboard/dashboard.config.json"),
        ),
        None => {},
    }
    match &search.home {
        Some(p) => push_config_candidate(
            &mut candidates,
            path_join(p.as_str(), ".config/txst-lab-dashboard/dashboard.config.json"),
        ),
        None => {},
    }
    let ghost at = candidates@.len();
    push_config_candidate(&mut candidates, owned("/etc/txst-lab-dashboard/dashboard.config.json"));
    assert(strings_view(candidates@)[at as int] == "/etc/txst-lab-dashboard/dashboard.config.json"@);
    match &search.resource_dir {
        Some(p) => push_config_candidate(&mut candidates, path_join(p.as_str(), "dashboard.config.json")),
        None => {},
    }
    let ghost given = strings_view(candidates@);
    assert(given[at as int] == "/etc/txst-lab-dashboard/dashboard.config.json"@);
    proof {
        lemma_places_covered(*search);
        if all_places_given(*search) && pairwise_different(every_place(*search)) {
            assert(candidate_places(*search) =~= every_place(*search));
            lemma_deduped_keeps_different(every_place(*search));
        }
        every_path_is_covered(given);
        assert(covered(deduped(given), given[at as int]));
        if search.explicit_path is None && search.current_dir is Some {
            first_path_is_kept(given);
        }
    }
    dedupe_paths(candidates)
}

/// Whether `p` is among `kept`, itself or as the same path.
pub open spec fn covered(kept: Seq<Seq<char>>, p: Seq<char>) -> bool {
    exists|j: int| 0 <= j < kept.len() && (kept[j] == p || same_path(#[trigger] kept[j], p))
}

/// Every given path is looked at: it is kept, or the same path was kept
/// before it.
pub proof fn every_path_is_covered(paths: Seq<Seq<char>>)
    ensures
        forall|i: int| 0 <= i < paths.len() ==> covered(deduped(paths), #[trigger] paths[i]),
    decreases paths.len(),
{
    if paths.len() > 0 {
        every_path_is_covered(paths.drop_last());
        let kept = deduped(paths.drop_last());
        let r = deduped(paths);
        assert forall|i: int| 0 <= i < paths.len() implies covered(r, #[trigger] paths[i]) by {
            if i < paths.len() - 1 {
                assert(paths[i] == paths.drop_last()[i]);
                assert(covered(kept, paths.drop_last()[i]));
                let j = choose|j: int|
                    0 <= j < kept.len() && (kept[j] == paths[i] || same_path(#[trigger] kept[j], paths[i]));
                assert(r[j] == kept[j]);
            } else if seen_before(kept, paths.last()) {
                let k = choose|k: int| 0 <= k < kept.len() && same_path(#[trigger] kept[k], paths.last());
                assert(r[k] == kept[k]);
            } else {
                assert(r[kept.len() as int] == paths.last());
            }
        }
    }
}

/// The first place kept is the first place given.
pub proof fn first_path_is_kept(paths: Seq<Seq<char>>)
    requires
        paths.len() > 0,
    ensures
        deduped(paths).len() > 0,
        deduped(paths)[0] == paths[0],
    decreases paths.len(),
{
    if paths.len() > 1 {
        first_path_is_kept(paths.drop_last());
        assert(paths.drop_last()[0] == paths[0]);
    } else {
        assert(deduped(paths.drop_last()) =~= Seq::<Seq<char>>::empty());
        assert(!seen_before(Seq::<Seq<char>>::empty(), paths.last()));
    }
}

/// Each place is looked at once: no kept path is the same path as one kept
/// before it, and every kept path is one of the given paths.
pub proof fn deduped_paths_are_distinct(paths: Seq<Seq<char>>)
    ensures
        forall|i: int, j: int|
            0 <= i < j < deduped(paths).len() ==> !same_path(#[trigger] deduped(paths)[i], #[trigger] deduped(paths)[j]),
        forall|i: int| 0 <= i < deduped(paths).len() ==> paths.contains(#[trigger] deduped(paths)[i]),
    decreases paths.len(),
{
    if paths.len() > 0 {
        deduped_paths_are_distinct(paths.drop_last());
        let kept = deduped(paths.drop_last());
        let r = deduped(paths);
        assert forall|i: int, j: int| 0 <= i < j < r.len() implies !same_path(#[trigger] r[i], #[trigger] r[j]) by {
            if j == kept.len() {
                assert(r[i] == kept[i]);
                assert(!seen_before(kept, paths.last()));
            } else {
                assert(r[i] == kept[i] && r[j] == kept[j]);
            }
        }
        assert forall|i: int| 0 <= i < r.len() implies paths.contains(#[trigger] r[i]) by {
            if i < kept.len() {
                assert(r[i] == kept[i]);
                let k = choose|k: int| 0 <= k < paths.drop_last().len() && paths.drop_last()[k] == kept[i];
                assert(paths[k] == kept[i]);
            } else {
                assert(paths[paths.len() - 1] == r[i]);
            }
        }
    }
}

/// Whether every place the search reads is known, the explicit path being
/// non-empty.
pub open spec fn all_places_given(search: ConfigSearch) -> bool {
    &&& search.explicit_path matches Some(p) && p@.len() > 0
    &&& search.current_dir is Some
    &&& search.appimage is Some
    &&& search.current_exe is Some
    &&& search.xdg_config_home is Some
    &&& search.home is Some
    &&& search.resource_dir is Some
}

/// The eight places, in the order they are looked at, when all are known.
pub open spec fn every_place(search: ConfigSearch) -> Seq<Seq<char>> {
    seq![
        search.explicit_path->0@,
        joined_path(search.current_dir->0@, "dashboard.config.json"@),
        sibling_of(search.appimage->0@),
        sibling_of(search.current_exe->0@),
        joined_path(search.xdg_config_home->0@, "txst-lab-dashboard/dashboard.config.json"@),
        joined_path(search.home->0@, ".config/txst-lab-dashboard/dashboard.config.json"@),
        "/etc/txst-lab-dashboard/dashboard.config.json"@,
        joined_path(search.resource_dir->0@, "dashboard.config.json"@),
    ]
}

/// Whether no two paths of `s` are the same path.
pub open spec fn pairwise_different(s: Seq<Seq<char>>) -> bool {
    forall|i: int, j: int| 0 <= i < j < s.len() ==> !same_path(#[trigger] s[i], #[trigger] s[j])
}

/// Paths that are all different are all kept, in order.
pub proof fn lemma_deduped_keeps_different(s: Seq<Seq<char>>)
    requires
        pairwise_different(s),
    ensures
        deduped(s) == s,
    decreases s.len(),
{
    if s.len() > 0 {
        let init = s.drop_last();
        assert forall|i: int, j: int| 0 <= i < j < init.len() implies !same_path(#[trigger] init[i], #[trigger] init[j]) by {
            assert(init[i] == s[i] && init[j] == s[j]);
        }
        lemma_deduped_keeps_different(init);
        if seen_before(init, s.last()) {
            let k = choose|k: int| 0 <= k < init.len() && same_path(#[trigger] init[k], s.last());
            assert(init[k] == s[k]);
            assert(!same_path(s[k], s[s.len() - 1]));
        }
        assert(init.push(s.last()) =~= s);
    }
}

proof fn lemma_with_candidate_keeps(c: Seq<Seq<char>>, p: Seq<char>, x: Seq<char>)
    requires
        c.contains(x),
    ensures
        with_candidate(c, p).contains(x),
{
    if p.len() > 0 {
        let i = choose|i: int| 0 <= i < c.len() && c[i] == x;
        assert(c.push(p)[i] == x);
    }
}

proof fn lemma_with_found_keeps(c: Seq<Seq<char>>, o: Option<Seq<char>>, f: spec_fn(Seq<char>) -> Seq<char>, x: Seq<char>)
    requires
        c.contains(x),
    ensures
        with_found(c, o, f).contains(x),
{
    if let Some(s) = o {
        lemma_with_candidate_keeps(c, f(s), x);
    }
}

proof fn lemma_with_found_adds(c: Seq<Seq<char>>, o: Option<Seq<char>>, f: spec_fn(Seq<char>) -> Seq<char>)
    requires
        o is Some,
        f(o->0).len() > 0,
    ensures
        with_found(c, o, f).contains(f(o->0)),
{
    assert(c.push(f(o->0))[c.len() as int] == f(o->0));
}

proof fn lemma_places_covered(search: ConfigSearch)
    requires
        search.current_dir matches Some(d) ==> joined_path(d@, "dashboard.config.json"@).len() > 0,
        search.appimage matches Some(a) ==> sibling_of(a@).len() > 0,
        search.current_exe matches Some(e) ==> sibling_of(e@).len() > 0,
        search.xdg_config_home matches Some(x) ==> joined_path(x@, "txst-lab-dashboard/dashboard.config.json"@).len() > 0,
        search.home matches Some(h) ==> joined_path(h@, ".config/txst-lab-dashboard/dashboard.config.json"@).len() > 0,
        search.resource_dir matches Some(d) ==> joined_path(d@, "dashboard.config.json"@).len() > 0,
    ensures
        search.explicit_path matches Some(p) ==> (p@.len() > 0 ==> candidate_places(search).contains(p@)),
        search.current_dir matches Some(d) ==> candidate_places(search).contains(joined_path(d@, "dashboard.config.json"@)),
        search.appimage matches Some(a) ==> candidate_places(search).contains(sibling_of(a@)),
        search.current_exe matches Some(e) ==> candidate_places(search).contains(sibling_of(e@)),
        search.xdg_config_home matches Some(x) ==> candidate_places(search).contains(
            joined_path(x@, "txst-lab-dashboard/dashboard.config.json"@),
        ),
        search.home matches Some(h) ==> candidate_places(search).contains(
            joined_path(h@, ".config/txst-lab-dashboard/dashboard.config.json"@),
        ),
        search.resource_dir matches Some(d) ==> candidate_places(search).contains(
            joined_path(d@, "dashboard.config.json"@),
        ),
{
    let f0 = |s: Seq<char>| s;
    let f1 = |s: Seq<char>| joined_path(s, config_file_name());
    let f2 = |s: Seq<char>| sibling_of(s);
    let f4 = |s: Seq<char>| joined_path(s, "txst-lab-dashboard/dashboard.config.json"@);
    let f5 = |s: Seq<char>| joined_path(s, ".config/txst-lab-dashboard/dashboard.config.json"@);
    let c0 = with_found(Seq::empty(), opt_view(search.explicit_path), f0);
    let c1 = with_found(c0, opt_view(search.current_dir), f1);
    let c2 = with_found(c1, opt_view(search.appimage), f2);
    let c3 = with_found(c2, opt_view(search.current_exe), f2);
    let c4 = with_found(c3, opt_view(search.xdg_config_home), f4);
    let c5 = with_found(c4, opt_view(search.home), f5);
    let c6 = with_candidate(c5, "/etc/txst-lab-dashboard/dashboard.config.json"@);
    let c7 = with_found(c6, opt_view(search.resource_dir), f1);
    assert(c7 == candidate_places(search));
    let etc = "/etc/txst-lab-dashboard/dashboard.config.json"@;
    // Each place, once added, stays in the list.
    assert forall|x: Seq<char>| c0.contains(x) implies c7.contains(x) by {
        lemma_with_found_keeps(c0, opt_view(search.current_dir), f1, x);
        lemma_with_found_keeps(c1, opt_view(search.appimage), f2, x);
        lemma_with_found_keeps(c2, opt_view(search.current_exe), f2, x);
        lemma_with_found_keeps(c3, opt_view(search.xdg_config_home), f4, x);
        lemma_with_found_keeps(c4, opt_view(search.home), f5, x);
        lemma_with_candidate_keeps(c5, etc, x);
        lemma_with_found_keeps(c6, opt_view(search.resource_dir), f1, x);
    }
    assert forall|x: Seq<char>| c1.contains(x) implies c7.contains(x) by {
        lemma_with_found_keeps(c1, opt_view(search.appimage), f2, x);
        lemma_with_found_keeps(c2, opt_view(search.current_exe), f2, x);
        lemma_with_found_keeps(c3, opt_view(search.xdg_config_home), f4, x);
        lemma_with_found_keeps(c4, opt_view(search.home), f5, x);
        lemma_with_candidate_keeps(c5, etc, x);
        lemma_with_found_keeps(c6, opt_view(search.resource_dir), f1, x);
    }
    assert forall|x: Seq<char>| c2.contains(x) implies c7.contains(x) by {
        lemma_with_found_keeps(c2, opt_view(search.current_exe), f2, x);
        lemma_with_found_keeps(c3, opt_view(search.xdg_config_home), f4, x);
        lemma_with_found_keeps(c4, opt_view(search.home), f5, x);
        lemma_with_candidate_keeps(c5, etc, x);
        lemma_with_found_keeps(c6, opt_view(search.resource_dir), f1, x);
    }
    assert forall|x: Seq<char>| c3.contains(x) implies c7.contains(x) by {
        lemma_with_found_keeps(c3, opt_view(search.xdg_config_home), f4, x);
        lemma_with_found_keeps(c4, opt_view(search.home), f5, x);
        lemma_with_candidate_keeps(c5, etc, x);
        lemma_with_found_keeps(c6, opt_view(search.resource_dir), f1, x);
    }
    assert forall|x: Seq<char>| c4.contains(x) implies c7.contains(x) by {
        lemma_with_found_keeps(c4, opt_view(search.home), f5, x);
        lemma_with_candidate_keeps(c5, etc, x);
        lemma_with_found_keeps(c6, opt_view(search.resource_dir), f1, x);
    }
    assert forall|x: Seq<char>| c5.contains(x) implies c7.contains(x) by {
        lemma_with_candidate_keeps(c5, etc, x);
        lemma_with_found_keeps(c6, opt_view(search.resource_dir), f1, x);
    }
    if let Some(p) = search.explicit_path {
        if p@.len() > 0 {
            lemma_with_found_adds(Seq::empty(), opt_view(search.explicit_path), f0);
        }
    }
    if let Some(d) = search.current_dir {
        lemma_with_found_adds(c0, opt_view(search.current_dir), f1);
    }
    if let Some(a) = search.appimage {
        lemma_with_found_adds(c1, opt_view(search.appimage), f2);
    }
    if let Some(e) = search.current_exe {
        lemma_with_found_adds(c2, opt_view(search.current_exe), f2);
    }
    if let Some(x) = search.xdg_config_home {
        lemma_with_found_adds(c3, opt_view(search.xdg_config_home), f4);
    }
    if let Some(h) = search.home {
        lemma_with_found_adds(c4, opt_view(search.home), f5);
    }
    if let Some(d) = search.resource_dir {
        lemma_with_found_adds(c6, opt_view(search.resource_dir), f1);
    }
}

} // verus!

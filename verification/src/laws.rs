//! The engine's global guarantees, stated and proved over the contracts of
//! the run: what a finished deployment promises about ignored names,
//! format mismatches, search order, and a repeated run.

use vstd::prelude::*;
use crate::text::spec_join;
use crate::config::{Args, Platform, spec_search_dirs, spec_filter_dirs, spec_bin_candidates, spec_env_in_play};
use crate::classify::{
    Classification, spec_classify, spec_contains_str, spec_probe_system, spec_system_probe_dirs,
};
use crate::world::{World, lookup_flag, lookup_tool, lookup_walk};
use crate::engine::{
    deps_fact_ok, spec_deps, fmt_fact_ok, spec_fmt, cand_hit, cand_miss, shallow_miss_upto,
    dir_all_miss, walk_of,
};
use crate::deploy::{
    CopyRecord, Summary, copies_names, st_inv, located, no_hit, copy_justified, dep_settled,
    dep_preskip, run_shallow_dirs, run_deep_dirs, run_root_fmt, run_ready, run_idle,
};

verus! {

/// A dependency name that holds no path separator.
pub open spec fn name_plain(n: Seq<char>) -> bool {
    forall|j: int| 0 <= j < n.len() ==> n[j] != '/'
}

/// Joined paths of plain names coincide only componentwise.
proof fn lemma_join_plain_eq(d1: Seq<char>, n1: Seq<char>, d2: Seq<char>, n2: Seq<char>)
    requires
        name_plain(n1),
        name_plain(n2),
        spec_join(d1, n1) == spec_join(d2, n2),
    ensures
        d1 == d2,
        n1 == n2,
{
    let j1 = spec_join(d1, n1);
    let j2 = spec_join(d2, n2);
    assert(j1.len() == d1.len() + 1 + n1.len());
    assert(j2.len() == d2.len() + 1 + n2.len());
    if d1.len() < d2.len() {
        assert(j2[d2.len() as int] == '/');
        assert(j1[d2.len() as int] == n1[d2.len() - d1.len() - 1]);
        assert(false);
    }
    if d2.len() < d1.len() {
        assert(j1[d1.len() as int] == '/');
        assert(j2[d1.len() as int] == n2[d1.len() - d2.len() - 1]);
        assert(false);
    }
    assert(d1 =~= d2) by {
        assert(forall|j: int| 0 <= j < d1.len() ==> j1[j] == d1[j] && j2[j] == d2[j]);
    }
    assert(n1 =~= n2) by {
        assert(forall|j: int|
            0 <= j < n1.len() ==> j1[d1.len() + 1 + j] == n1[j] && j2[d2.len() + 1 + j] == n2[j]);
    }
}

/// `p` is the destination path of one of the copies.
pub open spec fn copied_dest(copies: Seq<CopyRecord>, p: Seq<char>) -> bool {
    exists|k: int| 0 <= k < copies.len() && copies[k].dest@ == p
}

/// How a world may look when the same configuration is run once more
/// after a finished deployment: every recorded answer is kept, except
/// that a file-existence answer now also reports the files the deployment
/// put into the target directory.
pub open spec fn worlds_evolve(w1: World, w2: World, copies: Seq<CopyRecord>) -> bool {
    &&& forall|p: Seq<char>|
        lookup_flag(w1.dir_facts@, p) is Some ==> #[trigger] lookup_flag(w2.dir_facts@, p)
            == lookup_flag(w1.dir_facts@, p)
    &&& forall|p: Seq<char>|
        lookup_tool(w1.deps_facts@, p) is Some ==> #[trigger] lookup_tool(w2.deps_facts@, p)
            == lookup_tool(w1.deps_facts@, p)
    &&& forall|p: Seq<char>|
        lookup_tool(w1.format_facts@, p) is Some ==> #[trigger] lookup_tool(w2.format_facts@, p)
            == lookup_tool(w1.format_facts@, p)
    &&& forall|p: Seq<char>|
        lookup_walk(w1.walk_facts@, p) is Some ==> #[trigger] lookup_walk(w2.walk_facts@, p)
            == lookup_walk(w1.walk_facts@, p)
    &&& forall|p: Seq<char>|
        lookup_flag(w1.file_facts@, p) is Some ==> #[trigger] lookup_flag(w2.file_facts@, p)
            == Some(lookup_flag(w1.file_facts@, p)->0 || copied_dest(copies, p))
}

/// All copied names and all of the root's declared names are plain.
pub open spec fn all_names_plain(w1: World, args: Args, copies: Seq<CopyRecord>) -> bool {
    &&& forall|k: int| 0 <= k < copies.len() ==> name_plain(#[trigger] copies[k].name@)
    &&& forall|i: int|
        0 <= i < spec_deps(w1, args.binary_file@).len() ==> name_plain(
            #[trigger] spec_deps(w1, args.binary_file@)[i],
        )
}

/// A directory filter over preserved directory answers filters alike,
/// provided it ran to completion before.
proof fn lemma_filter_dirs_preserved(
    w1: World,
    w2: World,
    copies: Seq<CopyRecord>,
    cands: Seq<Seq<char>>,
    i: nat,
    acc: Seq<Seq<char>>,
)
    requires
        worlds_evolve(w1, w2, copies),
        spec_filter_dirs(w1.dir_facts@, cands, i, acc) is Ok,
    ensures
        spec_filter_dirs(w2.dir_facts@, cands, i, acc) == spec_filter_dirs(
            w1.dir_facts@,
            cands,
            i,
            acc,
        ),
    decreases cands.len() + 1 - i,
{
    if i >= cands.len() {
    } else {
        match lookup_flag(w1.dir_facts@, cands[i as int]) {
            None => {},
            Some(true) => {
                lemma_filter_dirs_preserved(w1, w2, copies, cands, i + 1, acc.push(cands[i as int]));
            },
            Some(false) => {
                lemma_filter_dirs_preserved(w1, w2, copies, cands, i + 1, acc);
            },
        }
    }
}

/// Composed search lists come out alike over preserved directory answers.
proof fn lemma_search_dirs_preserved(
    w1: World,
    w2: World,
    copies: Seq<CopyRecord>,
    args: Args,
    plat: Platform,
    explicit: Seq<Seq<char>>,
)
    requires
        worlds_evolve(w1, w2, copies),
        spec_search_dirs(w1, args, plat, explicit) is Ok,
    ensures
        spec_search_dirs(w2, args, plat, explicit) == spec_search_dirs(w1, args, plat, explicit),
{
    let cands = spec_bin_candidates(args.cmake_prefix_path.deep_view(), 0);
    lemma_filter_dirs_preserved(w1, w2, copies, cands, 0, explicit);
    match spec_filter_dirs(w1.dir_facts@, cands, 0, explicit) {
        Err(_) => {},
        Ok(with_cmake) => {
            if spec_env_in_play(args, plat) {
                lemma_filter_dirs_preserved(
                    w1,
                    w2,
                    copies,
                    crate::text::spec_split(plat.env_path->0@, ';'),
                    0,
                    with_cmake,
                );
            }
        },
    }
}

/// A file-existence answer at a path that no copy wrote is kept exactly.
proof fn lemma_file_fact_untouched(
    w1: World,
    w2: World,
    copies: Seq<CopyRecord>,
    tgt: Seq<char>,
    d: Seq<char>,
    n: Seq<char>,
)
    requires
        worlds_evolve(w1, w2, copies),
        forall|k: int| 0 <= k < copies.len() ==> name_plain(#[trigger] copies[k].name@),
        forall|k: int|
            0 <= k < copies.len() ==> (#[trigger] copies[k].dest@) == spec_join(
                tgt,
                copies[k].name@,
            ),
        name_plain(n),
        !spec_contains_str(copies_names(copies), n),
        lookup_flag(w1.file_facts@, spec_join(d, n)) is Some,
    ensures
        lookup_flag(w2.file_facts@, spec_join(d, n)) == lookup_flag(
            w1.file_facts@,
            spec_join(d, n),
        ),
{
    let p = spec_join(d, n);
    if copied_dest(copies, p) {
        let k = choose|k: int| 0 <= k < copies.len() && copies[k].dest@ == p;
        lemma_join_plain_eq(tgt, copies[k].name@, d, n);
        assert(copies_names(copies)[k] == n);
        assert(false);
    }
    assert(lookup_flag(w2.file_facts@, p) == Some(lookup_flag(w1.file_facts@, p)->0 || false));
    assert(lookup_flag(w2.file_facts@, p) == lookup_flag(w1.file_facts@, p));
}

/// The system-directory probe answers alike for a name that no copy
/// deployed.
proof fn lemma_probe_preserved(
    w1: World,
    w2: World,
    copies: Seq<CopyRecord>,
    tgt: Seq<char>,
    n: Seq<char>,
    i: nat,
)
    requires
        worlds_evolve(w1, w2, copies),
        forall|k: int| 0 <= k < copies.len() ==> name_plain(#[trigger] copies[k].name@),
        forall|k: int|
            0 <= k < copies.len() ==> (#[trigger] copies[k].dest@) == spec_join(
                tgt,
                copies[k].name@,
            ),
        name_plain(n),
        !spec_contains_str(copies_names(copies), n),
        spec_probe_system(w1, n, i) is Ok,
    ensures
        spec_probe_system(w2, n, i) == spec_probe_system(w1, n, i),
    decreases spec_system_probe_dirs().len() + 1 - i,
{
    if i >= spec_system_probe_dirs().len() {
    } else {
        let d = spec_system_probe_dirs()[i as int];
        match lookup_flag(w1.file_facts@, spec_join(d, n)) {
            None => {},
            Some(true) => {
                lemma_file_fact_untouched(w1, w2, copies, tgt, d, n);
            },
            Some(false) => {
                lemma_file_fact_untouched(w1, w2, copies, tgt, d, n);
                lemma_probe_preserved(w1, w2, copies, tgt, n, i + 1);
            },
        }
    }
}

/// Classification answers alike for a name that no copy deployed.
proof fn lemma_classify_preserved(
    w1: World,
    w2: World,
    copies: Seq<CopyRecord>,
    args: Args,
    plat: Platform,
    tgt: Seq<char>,
    n: Seq<char>,
)
    requires
        worlds_evolve(w1, w2, copies),
        forall|k: int| 0 <= k < copies.len() ==> name_plain(#[trigger] copies[k].name@),
        forall|k: int|
            0 <= k < copies.len() ==> (#[trigger] copies[k].dest@) == spec_join(
                tgt,
                copies[k].name@,
            ),
        name_plain(n),
        !spec_contains_str(copies_names(copies), n),
        spec_classify(w1, args, plat, tgt, n) is Ok,
    ensures
        spec_classify(w2, args, plat, tgt, n) == spec_classify(w1, args, plat, tgt, n),
{
    lemma_file_fact_untouched(w1, w2, copies, tgt, tgt, n);
    match lookup_flag(w1.file_facts@, spec_join(tgt, n)) {
        None => {},
        Some(true) => {},
        Some(false) => {
            if !spec_contains_str(args.ignore.deep_view(), n) {
                if plat.windows {
                    lemma_probe_preserved(w1, w2, copies, tgt, n, 0);
                }
            }
        },
    }
}

/// A candidate that missed keeps missing for a name that no copy
/// deployed.
proof fn lemma_miss_preserved(
    w1: World,
    w2: World,
    copies: Seq<CopyRecord>,
    tgt: Seq<char>,
    d: Seq<char>,
    n: Seq<char>,
    v: Option<Seq<char>>,
)
    requires
        worlds_evolve(w1, w2, copies),
        forall|k: int| 0 <= k < copies.len() ==> name_plain(#[trigger] copies[k].name@),
        forall|k: int|
            0 <= k < copies.len() ==> (#[trigger] copies[k].dest@) == spec_join(
                tgt,
                copies[k].name@,
            ),
        name_plain(n),
        !spec_contains_str(copies_names(copies), n),
        cand_miss(w1, spec_join(d, n), v),
    ensures
        cand_miss(w2, spec_join(d, n), v),
{
    lemma_file_fact_untouched(w1, w2, copies, tgt, d, n);
}

/// The whole ordered search keeps finding nothing for a name that no copy
/// deployed.
proof fn lemma_no_hit_preserved(
    w1: World,
    w2: World,
    copies: Seq<CopyRecord>,
    args: Args,
    tgt: Seq<char>,
    sh: Seq<Seq<char>>,
    dp: Seq<Seq<char>>,
    n: Seq<char>,
    v: Option<Seq<char>>,
)
    requires
        worlds_evolve(w1, w2, copies),
        forall|k: int| 0 <= k < copies.len() ==> name_plain(#[trigger] copies[k].name@),
        forall|k: int|
            0 <= k < copies.len() ==> (#[trigger] copies[k].dest@) == spec_join(
                tgt,
                copies[k].name@,
            ),
        name_plain(n),
        !spec_contains_str(copies_names(copies), n),
        no_hit(w1, args, sh, dp, n, v),
    ensures
        no_hit(w2, args, sh, dp, n, v),
{
    if !args.no_shallow_search {
        assert forall|j: int| 0 <= j < sh.len() implies cand_miss(
            w2,
            spec_join(sh[j], n),
            v,
        ) by {
            assert(cand_miss(w1, spec_join(sh[j], n), v));
            lemma_miss_preserved(w1, w2, copies, tgt, sh[j], n, v);
        }
    }
    if !args.no_deep_search {
        assert forall|j: int| 0 <= j < dp.len() implies dir_all_miss(w2, dp[j], n, v) by {
            assert(dir_all_miss(w1, dp[j], n, v));
            assert(lookup_walk(w2.walk_facts@, dp[j]) == lookup_walk(w1.walk_facts@, dp[j]));
            assert forall|k: int| 0 <= k < walk_of(w2, dp[j]).len() implies cand_miss(
                w2,
                spec_join(walk_of(w2, dp[j])[k], n),
                v,
            ) by {
                assert(walk_of(w2, dp[j]) == walk_of(w1, dp[j]));
                assert(cand_miss(w1, spec_join(walk_of(w1, dp[j])[k], n), v));
                lemma_miss_preserved(w1, w2, copies, tgt, walk_of(w1, dp[j])[k], n, v);
            }
        }
    }
}

/// Idempotence: after a finished run, running the same configuration
/// against the same filesystem — whose only change is the files the run
/// deployed into the target directory — leaves nothing to deploy: every
/// declared name of the root binary classifies as satisfied or excluded,
/// or remains unlocatable under tolerance, so the second run copies
/// nothing.  Names are assumed plain (no path separator), as base file
/// names are: a name holding a separator could make a deployed file's
/// path coincide with a search candidate's path when the target directory
/// lies inside a searched tree, and such a name is extractable in
/// principle, so plainness is a stated hypothesis rather than a proved
/// fact.
pub proof fn lemma_second_run_idle(
    w1: World,
    w2: World,
    args: Args,
    plat: Platform,
    tgt: Seq<char>,
    s: Summary,
)
    requires
        run_ready(w1, args, plat),
        deps_fact_ok(w1, args.binary_file@),
        forall|k: int|
            0 <= k < s.copies@.len() ==> copy_justified(
                w1,
                args,
                plat,
                tgt,
                run_shallow_dirs(w1, args, plat)->Ok_0,
                run_deep_dirs(w1, args, plat)->Ok_0,
                run_root_fmt(w1, args),
                #[trigger] s.copies@[k],
            ),
        forall|i: int|
            0 <= i < spec_deps(w1, args.binary_file@).len() ==> dep_settled(
                w1,
                args,
                plat,
                tgt,
                run_shallow_dirs(w1, args, plat)->Ok_0,
                run_deep_dirs(w1, args, plat)->Ok_0,
                run_root_fmt(w1, args),
                #[trigger] spec_deps(w1, args.binary_file@)[i],
                s,
            ),
        worlds_evolve(w1, w2, s.copies@),
        all_names_plain(w1, args, s.copies@),
    ensures
        run_idle(w2, args, plat, tgt),
{
    let root = args.binary_file@;
    let sh = run_shallow_dirs(w1, args, plat)->Ok_0;
    let dp = run_deep_dirs(w1, args, plat)->Ok_0;
    let fmt = run_root_fmt(w1, args);
    lemma_search_dirs_preserved(
        w1,
        w2,
        s.copies@,
        args,
        plat,
        args.shallow_search_dir.deep_view(),
    );
    lemma_search_dirs_preserved(w1, w2, s.copies@, args, plat, args.deep_search_dir.deep_view());
    assert(lookup_tool(w2.format_facts@, root) == lookup_tool(w1.format_facts@, root));
    assert(fmt_fact_ok(w2, root) && run_root_fmt(w2, args) == fmt);
    assert(lookup_tool(w2.deps_facts@, root) == lookup_tool(w1.deps_facts@, root));
    assert(deps_fact_ok(w2, root) && spec_deps(w2, root) == spec_deps(w1, root));
    assert(run_ready(w2, args, plat));
    assert forall|i: int| 0 <= i < spec_deps(w2, root).len() implies dep_preskip(
        w2,
        args,
        plat,
        tgt,
        run_shallow_dirs(w2, args, plat)->Ok_0,
        run_deep_dirs(w2, args, plat)->Ok_0,
        run_root_fmt(w2, args),
        #[trigger] spec_deps(w2, root)[i],
        Seq::empty(),
    ) by {
        let n = spec_deps(w1, root)[i];
        assert(dep_settled(w1, args, plat, tgt, sh, dp, fmt, n, s));
        assert(name_plain(n));
        if spec_contains_str(copies_names(s.copies@), n) {
            // Deployed by the first run: the target file now exists.
            let k = choose|k: int|
                0 <= k < copies_names(s.copies@).len() && copies_names(s.copies@)[k] == n;
            assert(copy_justified(w1, args, plat, tgt, sh, dp, fmt, s.copies@[k]));
            assert(s.copies@[k].dest@ == spec_join(tgt, n));
            assert(copied_dest(s.copies@, spec_join(tgt, n)));
            assert(lookup_flag(w1.file_facts@, spec_join(tgt, n)) == Some(false));
            assert(lookup_flag(w2.file_facts@, spec_join(tgt, n)) == Some(true));
            assert(spec_classify(w2, args, plat, tgt, n) == Ok::<_, Seq<char>>(
                Classification::AlreadyDeployed,
            ));
        } else {
            let ghost cj = forall|k: int|
                0 <= k < s.copies@.len() ==> (#[trigger] s.copies@[k].dest@) == spec_join(
                    tgt,
                    s.copies@[k].name@,
                );
            assert(cj) by {
                assert forall|k: int| 0 <= k < s.copies@.len() implies (
                #[trigger] s.copies@[k].dest@) == spec_join(tgt, s.copies@[k].name@) by {
                    assert(copy_justified(w1, args, plat, tgt, sh, dp, fmt, s.copies@[k]));
                }
            }
            if spec_classify(w1, args, plat, tgt, n) matches Ok(c) && c
                != Classification::Unresolved {
                lemma_classify_preserved(w1, w2, s.copies@, args, plat, tgt, n);
            } else {
                // Tolerated as unresolved: the search still finds nothing.
                assert(spec_classify(w1, args, plat, tgt, n) == Ok::<_, Seq<char>>(
                    Classification::Unresolved,
                ) && args.allow_missing && no_hit(w1, args, sh, dp, n, Some(fmt)));
                lemma_classify_preserved(w1, w2, s.copies@, args, plat, tgt, n);
                lemma_no_hit_preserved(w1, w2, s.copies@, args, tgt, sh, dp, n, Some(fmt));
            }
        }
    }
}

/// Ignore precedence: a name in the configured ignore set is never among
/// the deployed names, however locatable it is.
pub proof fn lemma_ignored_never_copied(
    w: World,
    args: Args,
    plat: Platform,
    tgt: Seq<char>,
    sh: Seq<Seq<char>>,
    dp: Seq<Seq<char>>,
    fmt: Seq<char>,
    s: Summary,
    n: Seq<char>,
)
    requires
        forall|k: int|
            0 <= k < s.copies@.len() ==> copy_justified(
                w,
                args,
                plat,
                tgt,
                sh,
                dp,
                fmt,
                #[trigger] s.copies@[k],
            ),
        spec_contains_str(args.ignore.deep_view(), n),
    ensures
        !spec_contains_str(copies_names(s.copies@), n),
{
    if spec_contains_str(copies_names(s.copies@), n) {
        let k = choose|k: int|
            0 <= k < copies_names(s.copies@).len() && copies_names(s.copies@)[k] == n;
        assert(copy_justified(w, args, plat, tgt, sh, dp, fmt, s.copies@[k]));
        assert(lookup_flag(w.file_facts@, spec_join(tgt, n)) == Some(false));
        assert(false);
    }
}

/// Architecture rejection: every deployed copy's source reports exactly
/// the root binary's format tag; a candidate reporting any other tag is
/// never selected.
pub proof fn lemma_copied_format_matches(
    w: World,
    args: Args,
    plat: Platform,
    tgt: Seq<char>,
    sh: Seq<Seq<char>>,
    dp: Seq<Seq<char>>,
    fmt: Seq<char>,
    s: Summary,
    k: int,
)
    requires
        forall|k: int|
            0 <= k < s.copies@.len() ==> copy_justified(
                w,
                args,
                plat,
                tgt,
                sh,
                dp,
                fmt,
                #[trigger] s.copies@[k],
            ),
        0 <= k < s.copies@.len(),
    ensures
        fmt_fact_ok(w, s.copies@[k].from@),
        spec_fmt(w, s.copies@[k].from@) == fmt,
{
    assert(copy_justified(w, args, plat, tgt, sh, dp, fmt, s.copies@[k]));
    assert(cand_hit(w, s.copies@[k].from@, Some(fmt)));
}

/// Search order determinism: where the shallow phase is enabled and some
/// shallow candidate is a validated hit, the selected source is a shallow
/// candidate — the deep phase is never consulted.
pub proof fn lemma_shallow_precedes_deep(
    w: World,
    args: Args,
    sh: Seq<Seq<char>>,
    dp: Seq<Seq<char>>,
    n: Seq<char>,
    v: Option<Seq<char>>,
    p: Seq<char>,
    i: int,
)
    requires
        located(w, args, sh, dp, n, v, p),
        !args.no_shallow_search,
        0 <= i < sh.len(),
        cand_hit(w, spec_join(sh[i], n), v),
    ensures
        exists|j: int| 0 <= j < sh.len() && p == spec_join(sh[j], n) && cand_hit(w, p, v),
{
    if !(exists|j: int| 0 <= j < sh.len() && p == spec_join(sh[j], n) && cand_hit(w, p, v)) {
        assert(shallow_miss_upto(w, sh, n, v, sh.len() as int));
        assert(cand_miss(w, spec_join(sh[i], n), v));
        assert(false);
    }
}

/// Missing-dependency tolerance: with tolerance enabled, an unresolved
/// dependency never ends the run; it can only be reported.
pub proof fn lemma_tolerance_never_fatal(
    w: World,
    args: Args,
    plat: Platform,
    tgt: Seq<char>,
    sh: Seq<Seq<char>>,
    dp: Seq<Seq<char>>,
    fmt: Seq<char>,
    e: crate::engine::EngineError,
)
    requires
        args.allow_missing,
        crate::deploy::fatal_justified(w, args, plat, tgt, sh, dp, fmt, e),
    ensures
        !(e matches crate::engine::EngineError::UnresolvedDependency { .. }),
{
}

/// Exactly-once deployment: a finished run deploys no name twice.
pub proof fn lemma_each_name_deployed_once(w: World, s: Summary, k1: int, k2: int)
    requires
        st_inv(w, s),
        0 <= k1 < s.copies@.len(),
        0 <= k2 < s.copies@.len(),
        k1 != k2,
    ensures
        s.copies@[k1].name@ != s.copies@[k2].name@,
{
    assert(copies_names(s.copies@)[k1] == s.copies@[k1].name@);
    assert(copies_names(s.copies@)[k2] == s.copies@[k2].name@);
}

} // verus!

//! The deployment engine: the depth-first fixpoint over declared
//! dependencies.
//!
//! For one binary the engine extracts the declared names in order and, for
//! each, decides its disposition; an unresolved name is searched for,
//! shallow phase before deep phase, and a validated find is copied next to
//! the target and immediately recursed into before the next sibling.  A
//! name is deployed at most once per invocation: once a file of that name
//! exists in the target directory — also when the engine itself just put
//! it there — the name is satisfied forever after, which bounds the
//! recursion even on cyclic dependency graphs.

use vstd::prelude::*;
use crate::text::{spec_join, join_path};
use crate::config::{Args, Platform, spec_search_dirs};
use crate::classify::{Classification, spec_classify, spec_contains_str, classify};
use crate::world::{World, Query, CopyFact, lookup_flag, lookup_tool, lookup_walk, lookup_copy, find_copy};
use crate::engine::{
    EngineError, Stop, Validator, query_unanswered, deps_fact_ok, spec_deps, cand_hit, cand_need,
    shallow_miss_upto, dir_all_miss, deep_miss_upto, entries_miss_upto, walk_of,
    get_dependencies, search_dll_shallow, search_dll_deep,
};


verus! {

/// One performed deployment: `name` was copied from `from` to `dest` in
/// the target directory.
pub struct CopyRecord {
    pub name: String,
    pub from: String,
    pub dest: String,
}

/// One tolerated unresolved dependency: `name`, required by the binary at
/// `required_by`, could not be located.
pub struct MissingRecord {
    pub name: String,
    pub required_by: String,
}

/// What one run deployed and what it could not resolve, in order.
pub struct Summary {
    pub copies: Vec<CopyRecord>,
    pub missing: Vec<MissingRecord>,
}

/// The deployed names, in deployment order.
pub open spec fn copies_names(cs: Seq<CopyRecord>) -> Seq<Seq<char>> {
    cs.map_values(|c: CopyRecord| c.name@)
}

/// The reported unresolved names, in report order.
pub open spec fn missing_names(ms: Seq<MissingRecord>) -> Seq<Seq<char>> {
    ms.map_values(|m: MissingRecord| m.name@)
}

/// The names with a recorded copy attempt.
pub open spec fn world_copy_names(w: World) -> Set<Seq<char>> {
    w.copy_facts@.map_values(|c: CopyFact| c.name@).to_set()
}

/// The running state is sound: no name deployed twice, and every deployed
/// name has a recorded copy attempt.
pub open spec fn st_inv(w: World, s: Summary) -> bool {
    &&& copies_names(s.copies@).no_duplicates()
    &&& copies_names(s.copies@).to_set() <= world_copy_names(w)
}

/// `p` is where the ordered search finds `name`: the first validated hit
/// of the shallow phase; or, where that phase is disabled or misses
/// everywhere, the first validated hit of the deep phase.
pub open spec fn located(
    w: World,
    args: Args,
    sh: Seq<Seq<char>>,
    dp: Seq<Seq<char>>,
    name: Seq<char>,
    v: Option<Seq<char>>,
    p: Seq<char>,
) -> bool {
    ||| (!args.no_shallow_search && exists|i: int|
        0 <= i < sh.len() && p == spec_join(sh[i], name) && cand_hit(w, p, v) && shallow_miss_upto(
            w,
            sh,
            name,
            v,
            i,
        ))
    ||| ((args.no_shallow_search || shallow_miss_upto(w, sh, name, v, sh.len() as int))
        && !args.no_deep_search && exists|i: int, k: int|
        {
            &&& 0 <= i < dp.len()
            &&& deep_miss_upto(w, dp, name, v, i)
            &&& lookup_walk(w.walk_facts@, dp[i]) is Some
            &&& 0 <= k < walk_of(w, dp[i]).len()
            &&& entries_miss_upto(w, dp[i], name, v, k)
            &&& p == spec_join(walk_of(w, dp[i])[k], name)
            &&& cand_hit(w, p, v)
        })
}

/// The ordered search finds nothing for `name`: each enabled phase misses
/// everywhere.
pub open spec fn no_hit(
    w: World,
    args: Args,
    sh: Seq<Seq<char>>,
    dp: Seq<Seq<char>>,
    name: Seq<char>,
    v: Option<Seq<char>>,
) -> bool {
    &&& (args.no_shallow_search || shallow_miss_upto(w, sh, name, v, sh.len() as int))
    &&& (args.no_deep_search || deep_miss_upto(w, dp, name, v, dp.len() as int))
}

/// A recorded copy is justified: its name classified as unresolved, its
/// source is where the ordered search finds the name with the root's
/// format tag, its destination is the target path of the name, and its
/// copy attempt is recorded as successful.
pub open spec fn copy_justified(
    w: World,
    args: Args,
    plat: Platform,
    tgt: Seq<char>,
    sh: Seq<Seq<char>>,
    dp: Seq<Seq<char>>,
    fmt: Seq<char>,
    c: CopyRecord,
) -> bool {
    &&& spec_classify(w, args, plat, tgt, c.name@) == Ok::<_, Seq<char>>(
        Classification::Unresolved,
    )
    &&& located(w, args, sh, dp, c.name@, Some(fmt), c.from@)
    &&& c.dest@ == spec_join(tgt, c.name@)
    &&& lookup_copy(w.copy_facts@, c.from@, c.name@) == Some(true)
}

/// A reported unresolved name is justified: it classified as unresolved,
/// the ordered search finds nothing for it, tolerance is enabled, and the
/// binary it is blamed on indeed declares it.
pub open spec fn miss_justified(
    w: World,
    args: Args,
    plat: Platform,
    tgt: Seq<char>,
    sh: Seq<Seq<char>>,
    dp: Seq<Seq<char>>,
    fmt: Seq<char>,
    m: MissingRecord,
) -> bool {
    &&& spec_classify(w, args, plat, tgt, m.name@) == Ok::<_, Seq<char>>(
        Classification::Unresolved,
    )
    &&& no_hit(w, args, sh, dp, m.name@, Some(fmt))
    &&& args.allow_missing
    &&& deps_fact_ok(w, m.required_by@)
    &&& spec_deps(w, m.required_by@).contains(m.name@)
}

/// After a finished call, dependency name `n` demands nothing more: it was
/// deployed, or it classified as satisfied or excluded, or it was reported
/// unresolved under tolerance.
pub open spec fn dep_settled(
    w: World,
    args: Args,
    plat: Platform,
    tgt: Seq<char>,
    sh: Seq<Seq<char>>,
    dp: Seq<Seq<char>>,
    fmt: Seq<char>,
    n: Seq<char>,
    s: Summary,
) -> bool {
    ||| spec_contains_str(copies_names(s.copies@), n)
    ||| (spec_classify(w, args, plat, tgt, n) matches Ok(c) && c != Classification::Unresolved)
    ||| (spec_classify(w, args, plat, tgt, n) == Ok::<_, Seq<char>>(Classification::Unresolved)
        && args.allow_missing && no_hit(w, args, sh, dp, n, Some(fmt)) && spec_contains_str(
        missing_names(s.missing@),
        n,
    ))
}

/// Dependency name `n` will be skipped without copying: it is already
/// among the deployed names, or it classifies (with all needed facts
/// recorded) as satisfied or excluded, or it classifies as unresolved, the
/// search finds nothing, and tolerance is enabled.
pub open spec fn dep_preskip(
    w: World,
    args: Args,
    plat: Platform,
    tgt: Seq<char>,
    sh: Seq<Seq<char>>,
    dp: Seq<Seq<char>>,
    fmt: Seq<char>,
    n: Seq<char>,
    copies0: Seq<Seq<char>>,
) -> bool {
    ||| spec_contains_str(copies0, n)
    ||| (spec_classify(w, args, plat, tgt, n) matches Ok(c) && c != Classification::Unresolved)
    ||| (spec_classify(w, args, plat, tgt, n) == Ok::<_, Seq<char>>(Classification::Unresolved)
        && args.allow_missing && no_hit(w, args, sh, dp, n, Some(fmt)))
}

/// The binary's dependency listing is recorded and usable, and every
/// declared name will be skipped without copying.
pub open spec fn deps_all_preskip(
    w: World,
    args: Args,
    plat: Platform,
    tgt: Seq<char>,
    sh: Seq<Seq<char>>,
    dp: Seq<Seq<char>>,
    fmt: Seq<char>,
    binary: Seq<char>,
    copies0: Seq<Seq<char>>,
) -> bool {
    &&& deps_fact_ok(w, binary)
    &&& forall|i: int|
        0 <= i < spec_deps(w, binary).len() ==> dep_preskip(
            w,
            args,
            plat,
            tgt,
            sh,
            dp,
            fmt,
            spec_deps(w, binary)[i],
            copies0,
        )
}

/// A fatal error is justified by the recorded facts.
pub open spec fn fatal_justified(
    w: World,
    args: Args,
    plat: Platform,
    tgt: Seq<char>,
    sh: Seq<Seq<char>>,
    dp: Seq<Seq<char>>,
    fmt: Seq<char>,
    e: EngineError,
) -> bool {
    match e {
        EngineError::UnresolvedDependency { name, required_by } => {
            &&& !args.allow_missing
            &&& spec_classify(w, args, plat, tgt, name@) == Ok::<_, Seq<char>>(
                Classification::Unresolved,
            )
            &&& no_hit(w, args, sh, dp, name@, Some(fmt))
            &&& deps_fact_ok(w, required_by@)
            &&& spec_deps(w, required_by@).contains(name@)
        },
        EngineError::ToolInvocationFailure { path, detail } => {
            ||| (lookup_tool(w.deps_facts@, path@) matches Some(t) && !t.ok && detail@
                == t.stderr@)
            ||| (lookup_tool(w.format_facts@, path@) matches Some(t) && !t.ok && detail@
                == t.stderr@)
        },
        EngineError::ParseFailure { path, detail } => {
            ||| (lookup_tool(w.deps_facts@, path@) matches Some(t) && t.ok
                && crate::parse::spec_dependencies(t.stdout@) == Err::<Seq<Seq<char>>, _>(
                detail@,
            ))
            ||| (lookup_tool(w.format_facts@, path@) matches Some(t) && t.ok
                && crate::parse::spec_file_format(t.stdout@) is None && detail@ == t.stdout@)
        },
        EngineError::CopyFailure { from, dest } => exists|n: Seq<char>|
            lookup_copy(w.copy_facts@, from@, n) == Some(false) && dest@ == spec_join(tgt, n),
    }
}

/// The binary is one this run inspects: the call's own target binary, or
/// a file that a recorded successful copy deployed into the target
/// directory.
pub open spec fn relevant_binary(
    w: World,
    tgt: Seq<char>,
    binary: Seq<char>,
    b: Seq<char>,
) -> bool {
    ||| b == binary
    ||| exists|from: Seq<char>, n: Seq<char>|
        lookup_copy(w.copy_facts@, from, n) == Some(true) && b == spec_join(tgt, n)
}

/// `b` is an inspected binary whose recorded listing declares `n`.
pub open spec fn serves_name(
    w: World,
    tgt: Seq<char>,
    binary: Seq<char>,
    b: Seq<char>,
    n: Seq<char>,
) -> bool {
    &&& relevant_binary(w, tgt, binary, b)
    &&& deps_fact_ok(w, b)
    &&& spec_deps(w, b).contains(n)
}

/// `p` is a candidate path the ordered search checks for `n`: a direct
/// child of a shallow directory, or of a recorded walk entry of a deep
/// directory, each phase only while enabled.
pub open spec fn candidate_path(
    w: World,
    args: Args,
    sh: Seq<Seq<char>>,
    dp: Seq<Seq<char>>,
    n: Seq<char>,
    p: Seq<char>,
) -> bool {
    ||| (!args.no_shallow_search && exists|i: int|
        0 <= i < sh.len() && p == spec_join(sh[i], n))
    ||| (!args.no_deep_search && exists|i: int, k: int|
        {
            &&& 0 <= i < dp.len()
            &&& lookup_walk(w.walk_facts@, dp[i]) is Some
            &&& 0 <= k < walk_of(w, dp[i]).len()
            &&& p == spec_join(walk_of(w, dp[i])[k], n)
        })
}

/// The requested action is one the deployment needs: its outcome is not
/// recorded yet, and it serves a declared name of an inspected binary —
/// its classification, a search candidate, a walk of a configured deep
/// directory, the listing of an inspected binary, or the one copy the
/// ordered search has settled on.
pub open spec fn need_justified(
    w: World,
    args: Args,
    plat: Platform,
    tgt: Seq<char>,
    sh: Seq<Seq<char>>,
    dp: Seq<Seq<char>>,
    fmt: Seq<char>,
    binary: Seq<char>,
    q: Query,
) -> bool {
    match q {
        Query::ToolDeps { path } => lookup_tool(w.deps_facts@, path@) is None && relevant_binary(
            w,
            tgt,
            binary,
            path@,
        ),
        Query::IsFile { path } => lookup_flag(w.file_facts@, path@) is None && exists|
            b: Seq<char>,
            n: Seq<char>,
        |
            #[trigger] serves_name(w, tgt, binary, b, n) && (spec_classify(w, args, plat, tgt, n)
                == Err::<Classification, Seq<char>>(path@) || candidate_path(
                w,
                args,
                sh,
                dp,
                n,
                path@,
            )),
        Query::ToolFormat { path } => lookup_tool(w.format_facts@, path@) is None && lookup_flag(
            w.file_facts@,
            path@,
        ) == Some(true) && exists|b: Seq<char>, n: Seq<char>|
            #[trigger] serves_name(w, tgt, binary, b, n) && candidate_path(
                w,
                args,
                sh,
                dp,
                n,
                path@,
            ),
        Query::WalkEntries { dir } => lookup_walk(w.walk_facts@, dir@) is None
            && !args.no_deep_search && exists|i: int| 0 <= i < dp.len() && dir@ == dp[i],
        Query::DoCopy { from, name, dest } => {
            &&& lookup_copy(w.copy_facts@, from@, name@) is None
            &&& spec_classify(w, args, plat, tgt, name@) == Ok::<_, Seq<char>>(
                Classification::Unresolved,
            )
            &&& located(w, args, sh, dp, name@, Some(fmt), from@)
            &&& dest@ == spec_join(tgt, name@)
            &&& exists|b: Seq<char>| #[trigger] serves_name(w, tgt, binary, b, name@)
        },
        Query::IsDir { .. } => false,
    }
}

/// What a recursive call needs, the enclosing call needs too, since the
/// callee's target is itself a successfully deployed file of this run.
proof fn lemma_need_rebind(
    w: World,
    args: Args,
    plat: Platform,
    tgt: Seq<char>,
    sh: Seq<Seq<char>>,
    dp: Seq<Seq<char>>,
    fmt: Seq<char>,
    sub_binary: Seq<char>,
    binary: Seq<char>,
    q: Query,
)
    requires
        need_justified(w, args, plat, tgt, sh, dp, fmt, sub_binary, q),
        exists|from: Seq<char>, n: Seq<char>|
            lookup_copy(w.copy_facts@, from, n) == Some(true) && sub_binary == spec_join(tgt, n),
    ensures
        need_justified(w, args, plat, tgt, sh, dp, fmt, binary, q),
{
    assert forall|b: Seq<char>, n: Seq<char>|
        serves_name(w, tgt, sub_binary, b, n) implies serves_name(w, tgt, binary, b, n) by {
        if b == sub_binary {
            let (from, m) = choose|from: Seq<char>, m: Seq<char>|
                lookup_copy(w.copy_facts@, from, m) == Some(true) && sub_binary == spec_join(
                    tgt,
                    m,
                );
            assert(relevant_binary(w, tgt, binary, b));
        }
    }
    match q {
        Query::ToolDeps { path } => {
            if path@ == sub_binary {
                let (from, m) = choose|from: Seq<char>, m: Seq<char>|
                    lookup_copy(w.copy_facts@, from, m) == Some(true) && sub_binary == spec_join(
                        tgt,
                        m,
                    );
                assert(relevant_binary(w, tgt, binary, path@));
            }
        },
        Query::IsFile { path } => {
            let (b, n) = choose|b: Seq<char>, n: Seq<char>|
                serves_name(w, tgt, sub_binary, b, n) && (spec_classify(w, args, plat, tgt, n)
                    == Err::<Classification, Seq<char>>(path@) || candidate_path(
                    w,
                    args,
                    sh,
                    dp,
                    n,
                    path@,
                ));
            assert(serves_name(w, tgt, binary, b, n));
        },
        Query::ToolFormat { path } => {
            let (b, n) = choose|b: Seq<char>, n: Seq<char>|
                serves_name(w, tgt, sub_binary, b, n) && candidate_path(w, args, sh, dp, n, path@);
            assert(serves_name(w, tgt, binary, b, n));
        },
        Query::WalkEntries { .. } => {},
        Query::DoCopy { from: _, name, dest: _ } => {
            let b = choose|b: Seq<char>| serves_name(w, tgt, sub_binary, b, name@);
            assert(serves_name(w, tgt, binary, b, name@));
        },
        Query::IsDir { .. } => {},
    }
}

/// Whether one of the deployed records names `name`.
fn copies_contain(cs: &Vec<CopyRecord>, name: &String) -> (r: bool)
    ensures
        r == spec_contains_str(copies_names(cs@), name@),
{
    for i in 0..cs.len()
        invariant
            forall|j: int| 0 <= j < i ==> copies_names(cs@)[j] != name@,
    {
        proof {
            assert(copies_names(cs@)[i as int] == cs@[i as int].name@);
        }
        if crate::text::str_eq(&cs[i].name, name) {
            proof {
                assert(copies_names(cs@)[i as int] == name@);
            }
            return true;
        }
    }
    false
}

/// A name with a recorded copy attempt is among the world's copy names.
proof fn lemma_copy_fact_name(entries: Seq<CopyFact>, from: Seq<char>, name: Seq<char>)
    requires
        lookup_copy(entries, from, name) is Some,
    ensures
        entries.map_values(|c: CopyFact| c.name@).to_set().contains(name),
    decreases entries.len(),
{
    if entries.len() == 0 {
    } else if entries[0].from@ == from && entries[0].name@ == name {
        assert(entries.map_values(|c: CopyFact| c.name@)[0] == name);
        assert(entries.map_values(|c: CopyFact| c.name@).contains(name));
    } else {
        lemma_copy_fact_name(entries.drop_first(), from, name);
        let m = entries.map_values(|c: CopyFact| c.name@);
        let md = entries.drop_first().map_values(|c: CopyFact| c.name@);
        assert(md.contains(name));
        let i = choose|i: int| 0 <= i < md.len() && md[i] == name;
        assert(m[i + 1] == md[i]);
        assert(m.contains(name));
    }
}

/// A name settled in one state stays settled after the state grows.
proof fn lemma_settled_mono(
    w: World,
    args: Args,
    plat: Platform,
    tgt: Seq<char>,
    sh: Seq<Seq<char>>,
    dp: Seq<Seq<char>>,
    fmt: Seq<char>,
    n: Seq<char>,
    s1: Summary,
    s2: Summary,
)
    requires
        dep_settled(w, args, plat, tgt, sh, dp, fmt, n, s1),
        s1.copies@.is_prefix_of(s2.copies@),
        s1.missing@.is_prefix_of(s2.missing@),
    ensures
        dep_settled(w, args, plat, tgt, sh, dp, fmt, n, s2),
{
    if spec_contains_str(copies_names(s1.copies@), n) {
        let j = choose|j: int|
            0 <= j < copies_names(s1.copies@).len() && copies_names(s1.copies@)[j] == n;
        assert(s2.copies@[j] == s1.copies@[j]);
        assert(copies_names(s2.copies@)[j] == n);
    } else if spec_contains_str(missing_names(s1.missing@), n) {
        let j = choose|j: int|
            0 <= j < missing_names(s1.missing@).len() && missing_names(s1.missing@)[j] == n;
        assert(s2.missing@[j] == s1.missing@[j]);
        assert(missing_names(s2.missing@)[j] == n);
    }
}

/// The dependencies of one deployed file demand nothing more: the file's
/// own listing is recorded and usable, and every name it declares is
/// settled in the summary.  Holding for every copy of a finished run,
/// this is the transitive fixpoint: deploying further adds nothing.
pub open spec fn copy_deps_settled(
    w: World,
    args: Args,
    plat: Platform,
    tgt: Seq<char>,
    sh: Seq<Seq<char>>,
    dp: Seq<Seq<char>>,
    fmt: Seq<char>,
    c: CopyRecord,
    s: Summary,
) -> bool {
    &&& deps_fact_ok(w, c.dest@)
    &&& forall|i: int|
        0 <= i < spec_deps(w, c.dest@).len() ==> dep_settled(
            w,
            args,
            plat,
            tgt,
            sh,
            dp,
            fmt,
            #[trigger] spec_deps(w, c.dest@)[i],
            s,
        )
}

/// A copy whose dependencies are settled keeps them settled after the
/// state grows.
proof fn lemma_copy_deps_settled_mono(
    w: World,
    args: Args,
    plat: Platform,
    tgt: Seq<char>,
    sh: Seq<Seq<char>>,
    dp: Seq<Seq<char>>,
    fmt: Seq<char>,
    c: CopyRecord,
    s1: Summary,
    s2: Summary,
)
    requires
        copy_deps_settled(w, args, plat, tgt, sh, dp, fmt, c, s1),
        s1.copies@.is_prefix_of(s2.copies@),
        s1.missing@.is_prefix_of(s2.missing@),
    ensures
        copy_deps_settled(w, args, plat, tgt, sh, dp, fmt, c, s2),
{
    assert forall|i: int| 0 <= i < spec_deps(w, c.dest@).len() implies dep_settled(
        w,
        args,
        plat,
        tgt,
        sh,
        dp,
        fmt,
        #[trigger] spec_deps(w, c.dest@)[i],
        s2,
    ) by {
        lemma_settled_mono(w, args, plat, tgt, sh, dp, fmt, spec_deps(w, c.dest@)[i], s1, s2);
    }
}

/// Prefixes compose.
proof fn lemma_prefix_trans<T>(a: Seq<T>, b: Seq<T>, c: Seq<T>)
    requires
        a.is_prefix_of(b),
        b.is_prefix_of(c),
    ensures
        a.is_prefix_of(c),
{
    assert(a =~= c.subrange(0, a.len() as int));
}

/// Deploys every library the binary at `target_binary` transitively
/// requires, extending `st`, depth first and in declared order.
#[verifier::loop_isolation(false)]
#[verifier::rlimit(60)]
pub fn deploy_dll(
    target_binary: &String,
    target_dir: &String,
    binary_format: &String,
    args: &Args,
    plat: &Platform,
    sh_dirs: &Vec<String>,
    dp_dirs: &Vec<String>,
    w: &World,
    st: Summary,
) -> (r: Result<Summary, Stop>)
    requires
        st_inv(*w, st),
    ensures
        r matches Ok(st2) ==> {
            &&& st.copies@.is_prefix_of(st2.copies@)
            &&& st.missing@.is_prefix_of(st2.missing@)
            &&& st_inv(*w, st2)
            &&& forall|k: int|
                st.copies@.len() <= k < st2.copies@.len() ==> copy_justified(
                    *w,
                    *args,
                    *plat,
                    target_dir@,
                    sh_dirs.deep_view(),
                    dp_dirs.deep_view(),
                    binary_format@,
                    #[trigger] st2.copies@[k],
                )
            &&& forall|k: int|
                st.missing@.len() <= k < st2.missing@.len() ==> miss_justified(
                    *w,
                    *args,
                    *plat,
                    target_dir@,
                    sh_dirs.deep_view(),
                    dp_dirs.deep_view(),
                    binary_format@,
                    #[trigger] st2.missing@[k],
                )
            &&& deps_fact_ok(*w, target_binary@)
            &&& forall|i: int|
                0 <= i < spec_deps(*w, target_binary@).len() ==> dep_settled(
                    *w,
                    *args,
                    *plat,
                    target_dir@,
                    sh_dirs.deep_view(),
                    dp_dirs.deep_view(),
                    binary_format@,
                    #[trigger] spec_deps(*w, target_binary@)[i],
                    st2,
                )
            &&& forall|k: int|
                st.copies@.len() <= k < st2.copies@.len() ==> copy_deps_settled(
                    *w,
                    *args,
                    *plat,
                    target_dir@,
                    sh_dirs.deep_view(),
                    dp_dirs.deep_view(),
                    binary_format@,
                    #[trigger] st2.copies@[k],
                    st2,
                )
        },
        deps_all_preskip(
            *w,
            *args,
            *plat,
            target_dir@,
            sh_dirs.deep_view(),
            dp_dirs.deep_view(),
            binary_format@,
            target_binary@,
            copies_names(st.copies@),
        ) ==> (r matches Ok(st2) && st2.copies@ == st.copies@),
        r matches Err(Stop::Need(q)) ==> query_unanswered(*w, q) && need_justified(
            *w,
            *args,
            *plat,
            target_dir@,
            sh_dirs.deep_view(),
            dp_dirs.deep_view(),
            binary_format@,
            target_binary@,
            q,
        ),
        r matches Err(Stop::Fatal(e)) ==> fatal_justified(
            *w,
            *args,
            *plat,
            target_dir@,
            sh_dirs.deep_view(),
            dp_dirs.deep_view(),
            binary_format@,
            e,
        ),
    decreases world_copy_names(*w).len() - copies_names(st.copies@).len(),
{
    let ghost sh = sh_dirs.deep_view();
    let ghost dp = dp_dirs.deep_view();
    let ghost fmt = binary_format@;
    let ghost tgt = target_dir@;
    let ghost hyp = deps_all_preskip(
        *w,
        *args,
        *plat,
        tgt,
        sh,
        dp,
        fmt,
        target_binary@,
        copies_names(st.copies@),
    );
    let deps = match get_dependencies(w, target_binary) {
        Ok(v) => v,
        Err(s) => {
            proof {
                if hyp {
                    assert(false);
                }
                match s {
                    Stop::Need(ref q) => {
                        assert(relevant_binary(*w, tgt, target_binary@, target_binary@));
                        assert(need_justified(
                            *w,
                            *args,
                            *plat,
                            tgt,
                            sh,
                            dp,
                            fmt,
                            target_binary@,
                            *q,
                        ));
                    },
                    _ => {},
                }
            }
            return Err(s);
        },
    };
    let validator = Validator { expected_format: Some(binary_format.clone()) };
    let mut cur = st;
    let ghost st0 = cur;
    for di in 0..deps.len()
        invariant
            st_inv(*w, cur),
            st0.copies@.is_prefix_of(cur.copies@),
            st0.missing@.is_prefix_of(cur.missing@),
            forall|k: int|
                st0.copies@.len() <= k < cur.copies@.len() ==> copy_justified(
                    *w,
                    *args,
                    *plat,
                    tgt,
                    sh,
                    dp,
                    fmt,
                    #[trigger] cur.copies@[k],
                ),
            forall|k: int|
                st0.missing@.len() <= k < cur.missing@.len() ==> miss_justified(
                    *w,
                    *args,
                    *plat,
                    tgt,
                    sh,
                    dp,
                    fmt,
                    #[trigger] cur.missing@[k],
                ),
            forall|i: int|
                0 <= i < di ==> dep_settled(
                    *w,
                    *args,
                    *plat,
                    tgt,
                    sh,
                    dp,
                    fmt,
                    #[trigger] deps.deep_view()[i],
                    cur,
                ),
            forall|k: int|
                st0.copies@.len() <= k < cur.copies@.len() ==> copy_deps_settled(
                    *w,
                    *args,
                    *plat,
                    tgt,
                    sh,
                    dp,
                    fmt,
                    #[trigger] cur.copies@[k],
                    cur,
                ),
            hyp ==> cur.copies@ == st0.copies@,
    {
        proof {
            assert(deps.deep_view()[di as int] == deps@[di as int]@);
        }
        let dep = &deps[di];
        let ghost cur_before = cur;
        if copies_contain(&cur.copies, dep) {
            // Deployed earlier in this very run: satisfied.
            proof {
                assert(dep_settled(*w, *args, *plat, tgt, sh, dp, fmt, dep@, cur));
            }
        } else {
        let cls = match classify(dep, target_dir, args, plat, w) {
            Ok(c) => c,
            Err(q) => {
                proof {
                    if hyp {
                        assert(dep_preskip(
                            *w,
                            *args,
                            *plat,
                            tgt,
                            sh,
                            dp,
                            fmt,
                            spec_deps(*w, target_binary@)[di as int],
                            copies_names(st0.copies@),
                        ));
                        assert(false);
                    }
                    assert(spec_deps(*w, target_binary@).contains(dep@));
                    assert(serves_name(*w, tgt, target_binary@, target_binary@, dep@));
                    assert(need_justified(*w, *args, *plat, tgt, sh, dp, fmt, target_binary@, q));
                }
                return Err(Stop::Need(q));
            },
        };
        match cls {
            Classification::Unresolved => {
                let mut loc: Option<String> = None;
                if !args.no_shallow_search {
                    match search_dll_shallow(dep, sh_dirs, &validator, w) {
                        Ok(Some(p)) => {
                            loc = Some(p);
                        },
                        Ok(None) => {},
                        Err(s) => {
                            proof {
                                if hyp {
                                    assert(dep_preskip(
                                        *w,
                                        *args,
                                        *plat,
                                        tgt,
                                        sh,
                                        dp,
                                        fmt,
                                        spec_deps(*w, target_binary@)[di as int],
                                        copies_names(st0.copies@),
                                    ));
                                    assert(false);
                                }
                                match s {
                                    Stop::Need(ref q) => {
                                        let i = choose|i: int|
                                            0 <= i < sh.len() && shallow_miss_upto(
                                                *w,
                                                sh,
                                                dep@,
                                                validator.view_opt(),
                                                i,
                                            ) && cand_need(
                                                *w,
                                                spec_join(sh[i], dep@),
                                                validator.view_opt(),
                                                *q,
                                            );
                                        assert(spec_deps(*w, target_binary@).contains(dep@));
                                        assert(serves_name(
                                            *w,
                                            tgt,
                                            target_binary@,
                                            target_binary@,
                                            dep@,
                                        ));
                                        assert(candidate_path(
                                            *w,
                                            *args,
                                            sh,
                                            dp,
                                            dep@,
                                            spec_join(sh[i], dep@),
                                        ));
                                        assert(need_justified(
                                            *w,
                                            *args,
                                            *plat,
                                            tgt,
                                            sh,
                                            dp,
                                            fmt,
                                            target_binary@,
                                            *q,
                                        ));
                                    },
                                    _ => {},
                                }
                            }
                            return Err(s);
                        },
                    }
                }
                if loc.is_none() && !args.no_deep_search {
                    match search_dll_deep(dep, dp_dirs, &validator, w) {
                        Ok(Some(p)) => {
                            loc = Some(p);
                        },
                        Ok(None) => {},
                        Err(s) => {
                            proof {
                                if hyp {
                                    assert(dep_preskip(
                                        *w,
                                        *args,
                                        *plat,
                                        tgt,
                                        sh,
                                        dp,
                                        fmt,
                                        spec_deps(*w, target_binary@)[di as int],
                                        copies_names(st0.copies@),
                                    ));
                                    assert(false);
                                }
                                match s {
                                    Stop::Need(ref q) => {
                                        let i = choose|i: int|
                                            0 <= i < dp.len() && deep_miss_upto(
                                                *w,
                                                dp,
                                                dep@,
                                                validator.view_opt(),
                                                i,
                                            ) && (match *q {
                                                Query::WalkEntries { dir } => dir@ == dp[i]
                                                    && lookup_walk(w.walk_facts@, dir@) is None,
                                                _ => exists|k: int|
                                                    {
                                                        &&& lookup_walk(
                                                            w.walk_facts@,
                                                            dp[i],
                                                        ) is Some
                                                        &&& 0 <= k < walk_of(*w, dp[i]).len()
                                                        &&& entries_miss_upto(
                                                            *w,
                                                            dp[i],
                                                            dep@,
                                                            validator.view_opt(),
                                                            k,
                                                        )
                                                        &&& cand_need(
                                                            *w,
                                                            spec_join(walk_of(*w, dp[i])[k], dep@),
                                                            validator.view_opt(),
                                                            *q,
                                                        )
                                                    },
                                            });
                                        assert(spec_deps(*w, target_binary@).contains(dep@));
                                        assert(serves_name(
                                            *w,
                                            tgt,
                                            target_binary@,
                                            target_binary@,
                                            dep@,
                                        ));
                                        match *q {
                                            Query::WalkEntries { .. } => {},
                                            _ => {
                                                let k = choose|k: int|
                                                    {
                                                        &&& lookup_walk(
                                                            w.walk_facts@,
                                                            dp[i],
                                                        ) is Some
                                                        &&& 0 <= k < walk_of(*w, dp[i]).len()
                                                        &&& entries_miss_upto(
                                                            *w,
                                                            dp[i],
                                                            dep@,
                                                            validator.view_opt(),
                                                            k,
                                                        )
                                                        &&& cand_need(
                                                            *w,
                                                            spec_join(walk_of(*w, dp[i])[k], dep@),
                                                            validator.view_opt(),
                                                            *q,
                                                        )
                                                    };
                                                assert(candidate_path(
                                                    *w,
                                                    *args,
                                                    sh,
                                                    dp,
                                                    dep@,
                                                    spec_join(walk_of(*w, dp[i])[k], dep@),
                                                ));
                                            },
                                        }
                                        assert(need_justified(
                                            *w,
                                            *args,
                                            *plat,
                                            tgt,
                                            sh,
                                            dp,
                                            fmt,
                                            target_binary@,
                                            *q,
                                        ));
                                    },
                                    _ => {},
                                }
                            }
                            return Err(s);
                        },
                    }
                }
                match loc {
                    Some(location) => {
                        let ghost loc_view = location@;
                        proof {
                            assert(located(*w, *args, sh, dp, dep@, Some(fmt), location@));
                            if hyp {
                                assert(dep_preskip(
                                    *w,
                                    *args,
                                    *plat,
                                    tgt,
                                    sh,
                                    dp,
                                    fmt,
                                    spec_deps(*w, target_binary@)[di as int],
                                    copies_names(st0.copies@),
                                ));
                                assert(false);
                            }
                        }
                        let dest = join_path(target_dir, dep);
                        match find_copy(&w.copy_facts, &location, dep) {
                            None => {
                                let q = Query::DoCopy {
                                    from: location,
                                    name: dep.clone(),
                                    dest,
                                };
                                proof {
                                    assert(spec_deps(*w, target_binary@).contains(dep@));
                                    assert(serves_name(
                                        *w,
                                        tgt,
                                        target_binary@,
                                        target_binary@,
                                        dep@,
                                    ));
                                    assert(need_justified(
                                        *w,
                                        *args,
                                        *plat,
                                        tgt,
                                        sh,
                                        dp,
                                        fmt,
                                        target_binary@,
                                        q,
                                    ));
                                }
                                return Err(Stop::Need(q));
                            },
                            Some(false) => {
                                return Err(
                                    Stop::Fatal(
                                        EngineError::CopyFailure { from: location, dest },
                                    ),
                                );
                            },
                            Some(true) => {
                                let copied_path = dest.clone();
                                let record = CopyRecord {
                                    name: dep.clone(),
                                    from: location,
                                    dest,
                                };
                                let ghost names_before = copies_names(cur.copies@);
                                cur.copies.push(record);
                                let ghost mid = cur;
                                proof {
                                    assert(copies_names(cur.copies@) =~= names_before.push(dep@));
                                    broadcast use vstd::seq_lib::seq_to_set_is_finite;

                                    lemma_copy_fact_name(w.copy_facts@, record.from@, dep@);
                                    assert(copies_names(cur.copies@).to_set() <= world_copy_names(
                                        *w,
                                    ));
                                    names_before.unique_seq_to_set();
                                    copies_names(cur.copies@).unique_seq_to_set();
                                    vstd::set_lib::lemma_len_subset(
                                        copies_names(cur.copies@).to_set(),
                                        world_copy_names(*w),
                                    );
                                    assert(forall|k: int|
                                        st0.copies@.len() <= k < cur.copies@.len()
                                            ==> copy_justified(
                                            *w,
                                            *args,
                                            *plat,
                                            tgt,
                                            sh,
                                            dp,
                                            fmt,
                                            #[trigger] cur.copies@[k],
                                        ));
                                }
                                let sub = deploy_dll(
                                    &copied_path,
                                    target_dir,
                                    binary_format,
                                    args,
                                    plat,
                                    sh_dirs,
                                    dp_dirs,
                                    w,
                                    cur,
                                );
                                cur = match sub {
                                    Ok(s2) => s2,
                                    Err(s) => {
                                        proof {
                                            match s {
                                                Stop::Need(ref q) => {
                                                    assert(lookup_copy(
                                                        w.copy_facts@,
                                                        loc_view,
                                                        dep@,
                                                    ) == Some(true));
                                                    assert(copied_path@ == spec_join(tgt, dep@));
                                                    lemma_need_rebind(
                                                        *w,
                                                        *args,
                                                        *plat,
                                                        tgt,
                                                        sh,
                                                        dp,
                                                        fmt,
                                                        copied_path@,
                                                        target_binary@,
                                                        *q,
                                                    );
                                                },
                                                _ => {},
                                            }
                                        }
                                        return Err(s);
                                    },
                                };
                                proof {
                                    assert(cur_before.copies@.is_prefix_of(mid.copies@));
                                    lemma_prefix_trans(
                                        cur_before.copies@,
                                        mid.copies@,
                                        cur.copies@,
                                    );
                                    lemma_prefix_trans(st0.copies@, cur_before.copies@, cur.copies@);
                                    lemma_prefix_trans(st0.missing@, mid.missing@, cur.missing@);
                                    assert forall|i: int| 0 <= i < di implies dep_settled(
                                        *w,
                                        *args,
                                        *plat,
                                        tgt,
                                        sh,
                                        dp,
                                        fmt,
                                        #[trigger] deps.deep_view()[i],
                                        cur,
                                    ) by {
                                        lemma_settled_mono(
                                            *w,
                                            *args,
                                            *plat,
                                            tgt,
                                            sh,
                                            dp,
                                            fmt,
                                            deps.deep_view()[i],
                                            cur_before,
                                            cur,
                                        );
                                    }
                                    let j = cur_before.copies@.len() as int;
                                    assert(mid.copies@[j] == record);
                                    assert(cur.copies@[j] == mid.copies@[j]);
                                    assert(copies_names(cur.copies@)[j] == dep@);
                                    assert(dep_settled(
                                        *w,
                                        *args,
                                        *plat,
                                        tgt,
                                        sh,
                                        dp,
                                        fmt,
                                        dep@,
                                        cur,
                                    ));
                                    assert forall|k: int|
                                        st0.copies@.len() <= k < cur.copies@.len()
                                            implies copy_justified(
                                        *w,
                                        *args,
                                        *plat,
                                        tgt,
                                        sh,
                                        dp,
                                        fmt,
                                        #[trigger] cur.copies@[k],
                                    ) by {
                                        if k < mid.copies@.len() {
                                            assert(cur.copies@[k] == mid.copies@[k]);
                                        }
                                    }
                                    assert forall|k: int|
                                        st0.missing@.len() <= k < cur.missing@.len()
                                            implies miss_justified(
                                        *w,
                                        *args,
                                        *plat,
                                        tgt,
                                        sh,
                                        dp,
                                        fmt,
                                        #[trigger] cur.missing@[k],
                                    ) by {
                                        if k < mid.missing@.len() {
                                            assert(cur.missing@[k] == mid.missing@[k]);
                                        }
                                    }
                                    assert(record.dest@ == copied_path@);
                                    assert(cur.copies@[j].dest@ == copied_path@);
                                    assert forall|k: int|
                                        st0.copies@.len() <= k < cur.copies@.len()
                                            implies copy_deps_settled(
                                        *w,
                                        *args,
                                        *plat,
                                        tgt,
                                        sh,
                                        dp,
                                        fmt,
                                        #[trigger] cur.copies@[k],
                                        cur,
                                    ) by {
                                        if k < cur_before.copies@.len() {
                                            assert(cur.copies@[k] == cur_before.copies@[k]);
                                            lemma_copy_deps_settled_mono(
                                                *w,
                                                *args,
                                                *plat,
                                                tgt,
                                                sh,
                                                dp,
                                                fmt,
                                                cur.copies@[k],
                                                cur_before,
                                                cur,
                                            );
                                        } else if k == j {
                                            // The recursive call settled everything the
                                            // freshly copied file declares.
                                            assert(copy_deps_settled(
                                                *w,
                                                *args,
                                                *plat,
                                                tgt,
                                                sh,
                                                dp,
                                                fmt,
                                                cur.copies@[k],
                                                cur,
                                            ));
                                        }
                                    }
                                }
                            },
                        }
                    },
                    None => {
                        proof {
                            assert(no_hit(*w, *args, sh, dp, dep@, Some(fmt)));
                        }
                        if args.allow_missing {
                            let ghost mnames_before = missing_names(cur.missing@);
                            cur.missing.push(
                                MissingRecord {
                                    name: dep.clone(),
                                    required_by: target_binary.clone(),
                                },
                            );
                            proof {
                                assert(missing_names(cur.missing@) =~= mnames_before.push(dep@));
                                let j = cur.missing@.len() - 1;
                                assert(missing_names(cur.missing@)[j] == dep@);
                                assert(dep_settled(*w, *args, *plat, tgt, sh, dp, fmt, dep@, cur));
                                assert(cur_before.copies@.is_prefix_of(cur.copies@)) by {
                                    assert(cur_before.copies@ =~= cur.copies@.subrange(
                                        0,
                                        cur_before.copies@.len() as int,
                                    ));
                                }
                                assert(cur_before.missing@.is_prefix_of(cur.missing@)) by {
                                    assert(cur_before.missing@ =~= cur.missing@.subrange(
                                        0,
                                        cur_before.missing@.len() as int,
                                    ));
                                }
                                assert forall|i: int| 0 <= i < di implies dep_settled(
                                    *w,
                                    *args,
                                    *plat,
                                    tgt,
                                    sh,
                                    dp,
                                    fmt,
                                    #[trigger] deps.deep_view()[i],
                                    cur,
                                ) by {
                                    lemma_settled_mono(
                                        *w,
                                        *args,
                                        *plat,
                                        tgt,
                                        sh,
                                        dp,
                                        fmt,
                                        deps.deep_view()[i],
                                        cur_before,
                                        cur,
                                    );
                                }
                                assert forall|k: int|
                                    st0.copies@.len() <= k < cur.copies@.len()
                                        implies copy_deps_settled(
                                    *w,
                                    *args,
                                    *plat,
                                    tgt,
                                    sh,
                                    dp,
                                    fmt,
                                    #[trigger] cur.copies@[k],
                                    cur,
                                ) by {
                                    lemma_copy_deps_settled_mono(
                                        *w,
                                        *args,
                                        *plat,
                                        tgt,
                                        sh,
                                        dp,
                                        fmt,
                                        cur.copies@[k],
                                        cur_before,
                                        cur,
                                    );
                                }
                            }
                        } else {
                            proof {
                                if hyp {
                                    assert(dep_preskip(
                                        *w,
                                        *args,
                                        *plat,
                                        tgt,
                                        sh,
                                        dp,
                                        fmt,
                                        spec_deps(*w, target_binary@)[di as int],
                                        copies_names(st0.copies@),
                                    ));
                                    assert(false);
                                }
                            }
                            return Err(
                                Stop::Fatal(
                                    EngineError::UnresolvedDependency {
                                        name: dep.clone(),
                                        required_by: target_binary.clone(),
                                    },
                                ),
                            );
                        }
                    },
                }
            },
            _ => {
                // Satisfied or excluded: nothing to do.
                proof {
                    assert(dep_settled(*w, *args, *plat, tgt, sh, dp, fmt, dep@, cur));
                }
            },
        }
        }
    }
    Ok(cur)
}

/// The outcome of driving the engine against the recorded facts.
pub enum RunResult {
    /// One more fact is needed; perform the query and record its answer.
    NeedFact(Query),
    /// The deployment reached its fixpoint.
    Done(Summary),
    /// The invocation failed.
    Failed(EngineError),
}

/// The composed shallow list of this configuration.
pub open spec fn run_shallow_dirs(w: World, args: Args, plat: Platform) -> Result<
    Seq<Seq<char>>,
    Seq<char>,
> {
    spec_search_dirs(w, args, plat, args.shallow_search_dir.deep_view())
}

/// The composed deep list of this configuration.
pub open spec fn run_deep_dirs(w: World, args: Args, plat: Platform) -> Result<
    Seq<Seq<char>>,
    Seq<char>,
> {
    spec_search_dirs(w, args, plat, args.deep_search_dir.deep_view())
}

/// The root binary's format tag as recorded.
pub open spec fn run_root_fmt(w: World, args: Args) -> Seq<char> {
    crate::engine::spec_fmt(w, args.binary_file@)
}

/// The facts a finished run rests on: both search lists composed and the
/// root binary's format report recorded and usable.
pub open spec fn run_ready(w: World, args: Args, plat: Platform) -> bool {
    &&& run_shallow_dirs(w, args, plat) is Ok
    &&& run_deep_dirs(w, args, plat) is Ok
    &&& crate::engine::fmt_fact_ok(w, args.binary_file@)
}

/// Nothing is left to deploy: the lists and the root format are recorded,
/// the root's dependency listing is usable, and every declared name of the
/// root will be skipped without copying.
pub open spec fn run_idle(w: World, args: Args, plat: Platform, tgt: Seq<char>) -> bool {
    &&& run_ready(w, args, plat)
    &&& deps_all_preskip(
        w,
        args,
        plat,
        tgt,
        run_shallow_dirs(w, args, plat)->Ok_0,
        run_deep_dirs(w, args, plat)->Ok_0,
        run_root_fmt(w, args),
        args.binary_file@,
        Seq::empty(),
    )
}

/// A query the top level may ask: a directory fact needed to compose the
/// search lists, the root binary's format report, or — once the lists and
/// the root format stand — an action the deployment itself needs.
pub open spec fn run_need_justified(
    w: World,
    args: Args,
    plat: Platform,
    tgt: Seq<char>,
    q: Query,
) -> bool {
    ||| (q matches Query::IsDir { path } && (run_shallow_dirs(w, args, plat) == Err::<
        Seq<Seq<char>>,
        Seq<char>,
    >(path@) || run_deep_dirs(w, args, plat) == Err::<Seq<Seq<char>>, Seq<char>>(path@)))
    ||| (q matches Query::ToolFormat { path } && path@ == args.binary_file@ && lookup_tool(
        w.format_facts@,
        path@,
    ) is None)
    ||| (run_ready(w, args, plat) && need_justified(
        w,
        args,
        plat,
        tgt,
        run_shallow_dirs(w, args, plat)->Ok_0,
        run_deep_dirs(w, args, plat)->Ok_0,
        run_root_fmt(w, args),
        args.binary_file@,
        q,
    ))
}

/// Runs the engine against the recorded facts: composes the search lists,
/// reads the root binary's format tag, and deploys the root's transitive
/// dependencies into the target directory.
pub fn run(args: &Args, plat: &Platform, target_dir: &String, w: &World) -> (r: RunResult)
    ensures
        r matches RunResult::NeedFact(q) ==> query_unanswered(*w, q) && run_need_justified(
            *w,
            *args,
            *plat,
            target_dir@,
            q,
        ),
        r matches RunResult::Done(s) ==> {
            &&& run_ready(*w, *args, *plat)
            &&& st_inv(*w, s)
            &&& deps_fact_ok(*w, args.binary_file@)
            &&& forall|k: int|
                0 <= k < s.copies@.len() ==> copy_justified(
                    *w,
                    *args,
                    *plat,
                    target_dir@,
                    run_shallow_dirs(*w, *args, *plat)->Ok_0,
                    run_deep_dirs(*w, *args, *plat)->Ok_0,
                    run_root_fmt(*w, *args),
                    #[trigger] s.copies@[k],
                )
            &&& forall|k: int|
                0 <= k < s.missing@.len() ==> miss_justified(
                    *w,
                    *args,
                    *plat,
                    target_dir@,
                    run_shallow_dirs(*w, *args, *plat)->Ok_0,
                    run_deep_dirs(*w, *args, *plat)->Ok_0,
                    run_root_fmt(*w, *args),
                    #[trigger] s.missing@[k],
                )
            &&& forall|i: int|
                0 <= i < spec_deps(*w, args.binary_file@).len() ==> dep_settled(
                    *w,
                    *args,
                    *plat,
                    target_dir@,
                    run_shallow_dirs(*w, *args, *plat)->Ok_0,
                    run_deep_dirs(*w, *args, *plat)->Ok_0,
                    run_root_fmt(*w, *args),
                    #[trigger] spec_deps(*w, args.binary_file@)[i],
                    s,
                )
            &&& forall|k: int|
                0 <= k < s.copies@.len() ==> copy_deps_settled(
                    *w,
                    *args,
                    *plat,
                    target_dir@,
                    run_shallow_dirs(*w, *args, *plat)->Ok_0,
                    run_deep_dirs(*w, *args, *plat)->Ok_0,
                    run_root_fmt(*w, *args),
                    #[trigger] s.copies@[k],
                    s,
                )
        },
        r matches RunResult::Failed(e) ==> run_shallow_dirs(*w, *args, *plat) is Ok
            && run_deep_dirs(*w, *args, *plat) is Ok && fatal_justified(
            *w,
            *args,
            *plat,
            target_dir@,
            run_shallow_dirs(*w, *args, *plat)->Ok_0,
            run_deep_dirs(*w, *args, *plat)->Ok_0,
            run_root_fmt(*w, *args),
            e,
        ),
        run_idle(*w, *args, *plat, target_dir@) ==> (r matches RunResult::Done(s)
            && s.copies@ == Seq::<CopyRecord>::empty()),
{
    let sh_dirs = match args.shallow_search_dirs(plat, w) {
        Ok(v) => v,
        Err(q) => {
            return RunResult::NeedFact(q);
        },
    };
    let dp_dirs = match args.deep_search_dirs(plat, w) {
        Ok(v) => v,
        Err(q) => {
            return RunResult::NeedFact(q);
        },
    };
    let fmt = match crate::engine::get_file_format(w, &args.binary_file) {
        Ok(t) => t,
        Err(Stop::Need(q)) => {
            return RunResult::NeedFact(q);
        },
        Err(Stop::Fatal(e)) => {
            return RunResult::Failed(e);
        },
    };
    let st = Summary { copies: Vec::new(), missing: Vec::new() };
    proof {
        assert(copies_names(st.copies@) =~= Seq::<Seq<char>>::empty());
        assert(copies_names(st.copies@).to_set() =~= Set::<Seq<char>>::empty());
        assert(copies_names(st.copies@).to_set() <= world_copy_names(*w));
    }
    match deploy_dll(
        &args.binary_file,
        target_dir,
        &fmt,
        args,
        plat,
        &sh_dirs,
        &dp_dirs,
        w,
        st,
    ) {
        Ok(s) => {
            proof {
                if s.copies@.len() > 0 {
                    assert(s.copies@ != Seq::<CopyRecord>::empty());
                }
            }
            RunResult::Done(s)
        },
        Err(Stop::Need(q)) => RunResult::NeedFact(q),
        Err(Stop::Fatal(e)) => RunResult::Failed(e),
    }
}

} // verus!

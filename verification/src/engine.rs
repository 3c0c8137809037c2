//! The locate-and-validate strategy: tool-output access, candidate
//! validation, and the shallow and deep searches.
//!
//! A candidate for a dependency name is the path `dir/name`.  It is a hit
//! when it exists as a regular file and, where a validator demands a
//! format, the inspection tool's recorded report for it parses to exactly
//! the demanded format tag; it is a miss when it does not exist, or exists
//! with a well-formed report naming a different tag.  A candidate whose
//! report is recorded but unusable (tool failure, or no format line) stops
//! the whole run, as the original contract with the tool demands.

use vstd::prelude::*;
use crate::text::{spec_join, join_path};
use crate::parse::{spec_dependencies, spec_file_format, get_dependency_names, parse_file_format};
use crate::world::{
    World, Query, lookup_flag, lookup_tool, lookup_walk, lookup_copy, find_flag, find_tool,
    find_walk,
};

verus! {

/// A condition that ends the whole invocation.
pub enum EngineError {
    /// The inspection tool could not be run or exited unsuccessfully;
    /// `detail` is its captured error output.
    ToolInvocationFailure { path: String, detail: String },
    /// The tool ran but its output does not follow the expected text
    /// contract; `detail` is the offending text.
    ParseFailure { path: String, detail: String },
    /// No validated candidate was found and tolerance is not enabled.
    UnresolvedDependency { name: String, required_by: String },
    /// A filesystem copy could not complete.
    CopyFailure { from: String, dest: String },
}

/// Why the engine stopped short of a finished deployment: it needs one
/// more fact, or the invocation failed.
pub enum Stop {
    Need(Query),
    Fatal(EngineError),
}

/// Whether the world does not answer the query yet.
pub open spec fn query_unanswered(w: World, q: Query) -> bool {
    match q {
        Query::IsDir { path } => lookup_flag(w.dir_facts@, path@) is None,
        Query::IsFile { path } => lookup_flag(w.file_facts@, path@) is None,
        Query::ToolDeps { path } => lookup_tool(w.deps_facts@, path@) is None,
        Query::ToolFormat { path } => lookup_tool(w.format_facts@, path@) is None,
        Query::WalkEntries { dir } => lookup_walk(w.walk_facts@, dir@) is None,
        Query::DoCopy { from, name, dest: _ } => lookup_copy(w.copy_facts@, from@, name@) is None,
    }
}

/// Whether the recorded dependency-listing output for `p` is usable: the
/// tool succeeded and its output parses.
pub open spec fn deps_fact_ok(w: World, p: Seq<char>) -> bool {
    match lookup_tool(w.deps_facts@, p) {
        Some(t) => t.ok && spec_dependencies(t.stdout@) is Ok,
        None => false,
    }
}

/// The dependency names recorded for `p` (meaningful when `deps_fact_ok`).
pub open spec fn spec_deps(w: World, p: Seq<char>) -> Seq<Seq<char>> {
    match lookup_tool(w.deps_facts@, p) {
        Some(t) => match spec_dependencies(t.stdout@) {
            Ok(v) => v,
            Err(_) => Seq::empty(),
        },
        None => Seq::empty(),
    }
}

/// Whether the recorded format report for `p` is usable: the tool
/// succeeded and a format line was found.
pub open spec fn fmt_fact_ok(w: World, p: Seq<char>) -> bool {
    match lookup_tool(w.format_facts@, p) {
        Some(t) => t.ok && spec_file_format(t.stdout@) is Some,
        None => false,
    }
}

/// The format tag recorded for `p` (meaningful when `fmt_fact_ok`).
pub open spec fn spec_fmt(w: World, p: Seq<char>) -> Seq<char> {
    match lookup_tool(w.format_facts@, p) {
        Some(t) => match spec_file_format(t.stdout@) {
            Some(tag) => tag,
            None => Seq::empty(),
        },
        None => Seq::empty(),
    }
}

/// The declared dependency names of the binary at `path`.
pub fn get_dependencies(w: &World, path: &String) -> (r: Result<Vec<String>, Stop>)
    ensures
        match r {
            Ok(v) => deps_fact_ok(*w, path@) && v.deep_view() == spec_deps(*w, path@),
            Err(Stop::Need(q)) => query_unanswered(*w, q) && q == (Query::ToolDeps {
                path: *path,
            }),
            Err(Stop::Fatal(e)) => !deps_fact_ok(*w, path@) && match e {
                EngineError::ToolInvocationFailure { path: p, detail: d } => p@ == path@
                    && (lookup_tool(w.deps_facts@, path@) matches Some(t) && !t.ok && d@
                    == t.stderr@),
                EngineError::ParseFailure { path: p, detail: d } => p@ == path@ && (lookup_tool(
                    w.deps_facts@,
                    path@,
                ) matches Some(t) && t.ok && spec_dependencies(t.stdout@) == Err::<
                    Seq<Seq<char>>,
                    _,
                >(d@)),
                _ => false,
            },
        },
{
    let t = match find_tool(&w.deps_facts, path) {
        Some(t) => t,
        None => {
            return Err(Stop::Need(Query::ToolDeps { path: path.clone() }));
        },
    };
    if !t.ok {
        return Err(
            Stop::Fatal(
                EngineError::ToolInvocationFailure {
                    path: path.clone(),
                    detail: t.stderr.clone(),
                },
            ),
        );
    }
    match get_dependency_names(&t.stdout) {
        Ok(v) => Ok(v),
        Err(line) => Err(
            Stop::Fatal(EngineError::ParseFailure { path: path.clone(), detail: line }),
        ),
    }
}

/// The format tag of the binary at `path`.
pub fn get_file_format(w: &World, path: &String) -> (r: Result<String, Stop>)
    ensures
        match r {
            Ok(tag) => fmt_fact_ok(*w, path@) && tag@ == spec_fmt(*w, path@),
            Err(Stop::Need(q)) => query_unanswered(*w, q) && q == (Query::ToolFormat {
                path: *path,
            }),
            Err(Stop::Fatal(e)) => !fmt_fact_ok(*w, path@) && match e {
                EngineError::ToolInvocationFailure { path: p, detail: d } => p@ == path@
                    && (lookup_tool(w.format_facts@, path@) matches Some(t) && !t.ok && d@
                    == t.stderr@),
                EngineError::ParseFailure { path: p, detail: d } => p@ == path@ && (lookup_tool(
                    w.format_facts@,
                    path@,
                ) matches Some(t) && t.ok && spec_file_format(t.stdout@) is None && d@
                    == t.stdout@),
                _ => false,
            },
        },
{
    let t = match find_tool(&w.format_facts, path) {
        Some(t) => t,
        None => {
            return Err(Stop::Need(Query::ToolFormat { path: path.clone() }));
        },
    };
    if !t.ok {
        return Err(
            Stop::Fatal(
                EngineError::ToolInvocationFailure {
                    path: path.clone(),
                    detail: t.stderr.clone(),
                },
            ),
        );
    }
    match parse_file_format(&t.stdout) {
        Ok(tag) => Ok(tag),
        Err(_) => Err(
            Stop::Fatal(
                EngineError::ParseFailure { path: path.clone(), detail: t.stdout.clone() },
            ),
        ),
    }
}

/// The acceptance condition handed to the locator: where `expected_format`
/// is set, a candidate must report exactly that format tag.
pub struct Validator {
    pub expected_format: Option<String>,
}

impl Validator {
    /// The demanded format tag, as a character sequence.
    pub open spec fn view_opt(self) -> Option<Seq<char>> {
        match self.expected_format {
            Some(s) => Some(s@),
            None => None,
        }
    }
}

/// The candidate at `p` is a hit: it exists, and any demanded format tag
/// is reported for it exactly.
pub open spec fn cand_hit(w: World, p: Seq<char>, v: Option<Seq<char>>) -> bool {
    &&& lookup_flag(w.file_facts@, p) == Some(true)
    &&& match v {
        None => true,
        Some(fmt) => fmt_fact_ok(w, p) && spec_fmt(w, p) == fmt,
    }
}

/// The candidate at `p` is a miss: it does not exist, or a format tag is
/// demanded and its well-formed report names a different tag.
pub open spec fn cand_miss(w: World, p: Seq<char>, v: Option<Seq<char>>) -> bool {
    ||| lookup_flag(w.file_facts@, p) == Some(false)
    ||| (lookup_flag(w.file_facts@, p) == Some(true) && v is Some && fmt_fact_ok(w, p)
        && spec_fmt(w, p) != v->0)
}

/// The query `q` is the fact missing to decide the candidate at `p`.
pub open spec fn cand_need(w: World, p: Seq<char>, v: Option<Seq<char>>, q: Query) -> bool {
    match q {
        Query::IsFile { path } => path@ == p && lookup_flag(w.file_facts@, p) is None,
        Query::ToolFormat { path } => path@ == p && lookup_flag(w.file_facts@, p) == Some(true)
            && v is Some && lookup_tool(w.format_facts@, p) is None,
        _ => false,
    }
}

/// The candidate at `p` exists but its recorded format report is unusable,
/// which `e` reports.
pub open spec fn cand_fatal(w: World, p: Seq<char>, v: Option<Seq<char>>, e: EngineError) -> bool {
    &&& lookup_flag(w.file_facts@, p) == Some(true)
    &&& v is Some
    &&& match e {
        EngineError::ToolInvocationFailure { path, detail } => path@ == p && (lookup_tool(
            w.format_facts@,
            p,
        ) matches Some(t) && !t.ok && detail@ == t.stderr@),
        EngineError::ParseFailure { path, detail } => path@ == p && (lookup_tool(
            w.format_facts@,
            p,
        ) matches Some(t) && t.ok && spec_file_format(t.stdout@) is None && detail@
            == t.stdout@),
        _ => false,
    }
}

/// Decides whether the candidate at `dll_loc` is usable: it must exist as
/// a regular file and satisfy the validator.
pub fn validate_dll(w: &World, dll_loc: &String, validate: &Validator) -> (r: Result<bool, Stop>)
    ensures
        match r {
            Ok(true) => cand_hit(*w, dll_loc@, validate.view_opt()),
            Ok(false) => cand_miss(*w, dll_loc@, validate.view_opt()),
            Err(Stop::Need(q)) => cand_need(*w, dll_loc@, validate.view_opt(), q)
                && query_unanswered(*w, q),
            Err(Stop::Fatal(e)) => cand_fatal(*w, dll_loc@, validate.view_opt(), e),
        },
{
    match find_flag(&w.file_facts, dll_loc) {
        None => {
            return Err(Stop::Need(Query::IsFile { path: dll_loc.clone() }));
        },
        Some(false) => {
            return Ok(false);
        },
        Some(true) => {},
    }
    let expected = match &validate.expected_format {
        None => {
            return Ok(true);
        },
        Some(f) => f,
    };
    match get_file_format(w, dll_loc) {
        Ok(tag) => Ok(crate::text::str_eq(&tag, expected)),
        Err(Stop::Need(q)) => Err(Stop::Need(q)),
        Err(Stop::Fatal(e)) => Err(Stop::Fatal(e)),
    }
}

/// Every shallow candidate for `name` before position `i` is a miss.
pub open spec fn shallow_miss_upto(
    w: World,
    dirs: Seq<Seq<char>>,
    name: Seq<char>,
    v: Option<Seq<char>>,
    i: int,
) -> bool {
    forall|j: int| 0 <= j < i ==> cand_miss(w, spec_join(dirs[j], name), v)
}

/// Searches each directory in order for a direct child named `name` that
/// satisfies the validator; returns the first hit.
pub fn search_dll_shallow(name: &String, dirs: &Vec<String>, validate: &Validator, w: &World) -> (r:
    Result<Option<String>, Stop>)
    ensures
        match r {
            Ok(Some(p)) => exists|i: int|
                0 <= i < dirs.deep_view().len() && p@ == spec_join(dirs.deep_view()[i], name@)
                    && cand_hit(*w, p@, validate.view_opt()) && shallow_miss_upto(
                    *w,
                    dirs.deep_view(),
                    name@,
                    validate.view_opt(),
                    i,
                ),
            Ok(None) => shallow_miss_upto(
                *w,
                dirs.deep_view(),
                name@,
                validate.view_opt(),
                dirs.deep_view().len() as int,
            ),
            Err(Stop::Need(q)) => query_unanswered(*w, q) && exists|i: int|
                0 <= i < dirs.deep_view().len() && shallow_miss_upto(
                    *w,
                    dirs.deep_view(),
                    name@,
                    validate.view_opt(),
                    i,
                ) && cand_need(*w, spec_join(dirs.deep_view()[i], name@), validate.view_opt(), q),
            Err(Stop::Fatal(e)) => exists|i: int|
                0 <= i < dirs.deep_view().len() && shallow_miss_upto(
                    *w,
                    dirs.deep_view(),
                    name@,
                    validate.view_opt(),
                    i,
                ) && cand_fatal(*w, spec_join(dirs.deep_view()[i], name@), validate.view_opt(), e),
        },
{
    for i in 0..dirs.len()
        invariant
            shallow_miss_upto(*w, dirs.deep_view(), name@, validate.view_opt(), i as int),
    {
        proof {
            assert(dirs.deep_view()[i as int] == dirs@[i as int]@);
        }
        let loc = join_path(&dirs[i], name);
        match validate_dll(w, &loc, validate) {
            Ok(true) => {
                return Ok(Some(loc));
            },
            Ok(false) => {},
            Err(s) => {
                return Err(s);
            },
        }
    }
    Ok(None)
}

/// The recorded walk listing of `d` (meaningful when one is recorded).
pub open spec fn walk_of(w: World, d: Seq<char>) -> Seq<Seq<char>> {
    match lookup_walk(w.walk_facts@, d) {
        Some(v) => v.deep_view(),
        None => Seq::empty(),
    }
}

/// A walk of `d` is recorded and every entry's candidate for `name` is a
/// miss.
pub open spec fn dir_all_miss(
    w: World,
    d: Seq<char>,
    name: Seq<char>,
    v: Option<Seq<char>>,
) -> bool {
    &&& lookup_walk(w.walk_facts@, d) is Some
    &&& forall|k: int|
        0 <= k < walk_of(w, d).len() ==> cand_miss(w, spec_join(walk_of(w, d)[k], name), v)
}

/// Every deep directory before position `i` misses everywhere for `name`.
pub open spec fn deep_miss_upto(
    w: World,
    dirs: Seq<Seq<char>>,
    name: Seq<char>,
    v: Option<Seq<char>>,
    i: int,
) -> bool {
    forall|j: int| 0 <= j < i ==> dir_all_miss(w, dirs[j], name, v)
}

/// Every candidate from the entries of `d` before position `k` is a miss.
pub open spec fn entries_miss_upto(
    w: World,
    d: Seq<char>,
    name: Seq<char>,
    v: Option<Seq<char>>,
    k: int,
) -> bool {
    forall|j: int| 0 <= j < k ==> cand_miss(w, spec_join(walk_of(w, d)[j], name), v)
}

/// Walks each directory in order, checking every visited entry for a
/// child named `name` that satisfies the validator; returns the first hit.
pub fn search_dll_deep(name: &String, dirs: &Vec<String>, validate: &Validator, w: &World) -> (r:
    Result<Option<String>, Stop>)
    ensures
        match r {
            Ok(Some(p)) => exists|i: int, k: int|
                {
                    &&& 0 <= i < dirs.deep_view().len()
                    &&& deep_miss_upto(*w, dirs.deep_view(), name@, validate.view_opt(), i)
                    &&& lookup_walk(w.walk_facts@, dirs.deep_view()[i]) is Some
                    &&& 0 <= k < walk_of(*w, dirs.deep_view()[i]).len()
                    &&& entries_miss_upto(*w, dirs.deep_view()[i], name@, validate.view_opt(), k)
                    &&& p@ == spec_join(walk_of(*w, dirs.deep_view()[i])[k], name@)
                    &&& cand_hit(*w, p@, validate.view_opt())
                },
            Ok(None) => deep_miss_upto(
                *w,
                dirs.deep_view(),
                name@,
                validate.view_opt(),
                dirs.deep_view().len() as int,
            ),
            Err(Stop::Need(q)) => query_unanswered(*w, q) && exists|i: int|
                {
                    &&& 0 <= i < dirs.deep_view().len()
                    &&& deep_miss_upto(*w, dirs.deep_view(), name@, validate.view_opt(), i)
                    &&& match q {
                        Query::WalkEntries { dir } => dir@ == dirs.deep_view()[i] && lookup_walk(
                            w.walk_facts@,
                            dir@,
                        ) is None,
                        _ => exists|k: int|
                            {
                                &&& lookup_walk(w.walk_facts@, dirs.deep_view()[i]) is Some
                                &&& 0 <= k < walk_of(*w, dirs.deep_view()[i]).len()
                                &&& entries_miss_upto(
                                    *w,
                                    dirs.deep_view()[i],
                                    name@,
                                    validate.view_opt(),
                                    k,
                                )
                                &&& cand_need(
                                    *w,
                                    spec_join(walk_of(*w, dirs.deep_view()[i])[k], name@),
                                    validate.view_opt(),
                                    q,
                                )
                            },
                    }
                },
            Err(Stop::Fatal(e)) => exists|i: int, k: int|
                {
                    &&& 0 <= i < dirs.deep_view().len()
                    &&& deep_miss_upto(*w, dirs.deep_view(), name@, validate.view_opt(), i)
                    &&& lookup_walk(w.walk_facts@, dirs.deep_view()[i]) is Some
                    &&& 0 <= k < walk_of(*w, dirs.deep_view()[i]).len()
                    &&& entries_miss_upto(*w, dirs.deep_view()[i], name@, validate.view_opt(), k)
                    &&& cand_fatal(
                        *w,
                        spec_join(walk_of(*w, dirs.deep_view()[i])[k], name@),
                        validate.view_opt(),
                        e,
                    )
                },
        },
{
    for i in 0..dirs.len()
        invariant
            deep_miss_upto(*w, dirs.deep_view(), name@, validate.view_opt(), i as int),
    {
        proof {
            assert(dirs.deep_view()[i as int] == dirs@[i as int]@);
        }
        let entries = match find_walk(&w.walk_facts, &dirs[i]) {
            Some(v) => v,
            None => {
                return Err(Stop::Need(Query::WalkEntries { dir: dirs[i].clone() }));
            },
        };
        for k in 0..entries.len()
            invariant
                0 <= i < dirs.deep_view().len(),
                dirs.deep_view()[i as int] == dirs@[i as int]@,
                deep_miss_upto(*w, dirs.deep_view(), name@, validate.view_opt(), i as int),
                lookup_walk(w.walk_facts@, dirs.deep_view()[i as int]) == Some(*entries),
                entries.deep_view() == walk_of(*w, dirs.deep_view()[i as int]),
                entries_miss_upto(
                    *w,
                    dirs.deep_view()[i as int],
                    name@,
                    validate.view_opt(),
                    k as int,
                ),
        {
            proof {
                assert(entries.deep_view()[k as int] == entries@[k as int]@);
            }
            let loc = join_path(&entries[k], name);
            match validate_dll(w, &loc, validate) {
                Ok(true) => {
                    return Ok(Some(loc));
                },
                Ok(false) => {},
                Err(s) => {
                    return Err(s);
                },
            }
        }
    }
    Ok(None)
}

} // verus!

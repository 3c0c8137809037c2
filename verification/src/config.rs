//! The deployment configuration record and the search-path builder.
//!
//! Search directories come in two ordered lists, shallow and deep, both
//! composed by the same rule: explicit directories first, kept as given;
//! then the `/bin` subdirectory of every configured package-prefix path;
//! then, on the platform with a native search-path variable and unless
//! suppressed, every directory that variable names.  Candidates from the
//! second and third group are dropped unless they exist as directories;
//! explicit directories are never filtered.

use vstd::prelude::*;
use crate::text::{
    spec_split, spec_join, str_to_chars, chars_to_string, split_chars, extend_chars, str_eq_lit,
};
use crate::world::{World, Query, lookup_flag, find_flag};

verus! {

/// What the host platform supplies to one invocation: whether the
/// native-search-path rule applies (the platform where the engine's
/// library format is native), the value of the search-path variable, and
/// the table of operating-system-owned library names used where the
/// platform cannot be probed directly.
pub struct Platform {
    pub windows: bool,
    pub env_path: Option<String>,
    pub system_dll_table: Vec<String>,
}

/// The configuration record of one invocation, immutable throughout it.
pub struct Args {
    /// The binary to deploy libraries for (an absolute path).
    pub binary_file: String,
    /// Do not consult the native search-path variable.
    pub skip_env_path: bool,
    /// Deploy redistributable C/C++ runtime libraries too.
    pub copy_vc_redist: bool,
    /// Report each step.
    pub verbose: bool,
    /// Directories searched without descending into them.
    pub shallow_search_dir: Vec<String>,
    /// Disable the shallow search phase.
    pub no_shallow_search: bool,
    /// Directories searched recursively.
    pub deep_search_dir: Vec<String>,
    /// Disable the deep search phase.
    pub no_deep_search: bool,
    /// Package-prefix paths, each contributing its `/bin` subdirectory.
    pub cmake_prefix_path: Vec<String>,
    /// Dependency names never deployed.
    pub ignore: Vec<String>,
    /// Where to find the inspection tool (a selector or a path).
    pub objdump_file: String,
    /// Keep going when a dependency cannot be located.
    pub allow_missing: bool,
}

/// The `/bin` subdirectory candidates contributed by one package-prefix
/// path: the path is split on `;` and each piece extended with `/bin`.
pub open spec fn spec_bins_of(path: Seq<char>) -> Seq<Seq<char>> {
    spec_split(path, ';').map_values(|p: Seq<char>| p + "/bin"@)
}

/// The `/bin` subdirectory candidates of all package-prefix paths from
/// position `i` on, in order.
pub open spec fn spec_bin_candidates(paths: Seq<Seq<char>>, i: nat) -> Seq<Seq<char>>
    decreases paths.len() + 1 - i,
{
    if i >= paths.len() {
        Seq::empty()
    } else {
        spec_bins_of(paths[i as int]) + spec_bin_candidates(paths, i + 1)
    }
}

/// Keeps, of the candidates from position `i` on, those recorded as
/// existing directories, appending them to `acc` in order; `Err` returns
/// the first candidate with no recorded fact.
pub open spec fn spec_filter_dirs(
    facts: Seq<(String, bool)>,
    cands: Seq<Seq<char>>,
    i: nat,
    acc: Seq<Seq<char>>,
) -> Result<Seq<Seq<char>>, Seq<char>>
    decreases cands.len() + 1 - i,
{
    if i >= cands.len() {
        Ok(acc)
    } else {
        match lookup_flag(facts, cands[i as int]) {
            None => Err(cands[i as int]),
            Some(true) => spec_filter_dirs(facts, cands, i + 1, acc.push(cands[i as int])),
            Some(false) => spec_filter_dirs(facts, cands, i + 1, acc),
        }
    }
}

/// Appends to `dest` every candidate recorded as an existing directory.
pub fn filter_existing_dirs(dest: &mut Vec<String>, cands: &Vec<String>, w: &World) -> (r: Result<
    (),
    Query,
>)
    ensures
        match r {
            Ok(_) => spec_filter_dirs(w.dir_facts@, cands.deep_view(), 0, old(dest).deep_view())
                == Ok::<_, Seq<char>>(final(dest).deep_view()),
            Err(q) => match q {
                Query::IsDir { path } => spec_filter_dirs(
                    w.dir_facts@,
                    cands.deep_view(),
                    0,
                    old(dest).deep_view(),
                ) == Err::<Seq<Seq<char>>, _>(path@) && lookup_flag(w.dir_facts@, path@) is None,
                _ => false,
            },
        },
{
    for i in 0..cands.len()
        invariant
            spec_filter_dirs(w.dir_facts@, cands.deep_view(), 0, old(dest).deep_view())
                == spec_filter_dirs(w.dir_facts@, cands.deep_view(), i as nat, dest.deep_view()),
    {
        proof {
            assert(cands.deep_view()[i as int] == cands@[i as int]@);
        }
        match find_flag(&w.dir_facts, &cands[i]) {
            None => {
                return Err(Query::IsDir { path: cands[i].clone() });
            },
            Some(true) => {
                let ghost d0 = dest.deep_view();
                dest.push(cands[i].clone());
                proof {
                    assert(dest.deep_view() =~~= d0.push(cands.deep_view()[i as int]));
                }
            },
            Some(false) => {},
        }
    }
    Ok(())
}

/// The `/bin` candidates of one package-prefix path.
fn bins_of_path(path: &String) -> (r: Vec<String>)
    ensures
        r.deep_view() == spec_bins_of(path@),
{
    let chars = str_to_chars(path.as_str());
    let pieces = split_chars(&chars, ';');
    let suffix = str_to_chars("/bin");
    let mut r: Vec<String> = Vec::new();
    proof {
        assert(r.deep_view() =~= spec_bins_of(path@).take(0));
    }
    for j in 0..pieces.len()
        invariant
            suffix@ == "/bin"@,
            pieces.deep_view() == spec_split(path@, ';'),
            r.deep_view() == spec_bins_of(path@).take(j as int),
    {
        let mut piece = pieces[j].clone();
        proof {
            assert(pieces@[j as int]@ == pieces.deep_view()[j as int]);
        }
        extend_chars(&mut piece, &suffix);
        let ghost r0 = r.deep_view();
        r.push(chars_to_string(&piece));
        proof {
            assert(r.deep_view() =~~= r0.push(pieces.deep_view()[j as int] + "/bin"@));
            assert(spec_bins_of(path@).take(j + 1) =~= spec_bins_of(path@).take(j as int).push(
                spec_bins_of(path@)[j as int],
            ));
        }
    }
    proof {
        assert(spec_bins_of(path@).take(spec_bins_of(path@).len() as int) =~= spec_bins_of(path@));
    }
    r
}

/// The `/bin` candidates of all package-prefix paths, in order.
fn bin_candidates(paths: &Vec<String>) -> (r: Vec<String>)
    ensures
        r.deep_view() == spec_bin_candidates(paths.deep_view(), 0),
{
    let mut r: Vec<String> = Vec::new();
    proof {
        assert(r.deep_view() + spec_bin_candidates(paths.deep_view(), 0) =~= spec_bin_candidates(
            paths.deep_view(),
            0,
        ));
    }
    for i in 0..paths.len()
        invariant
            spec_bin_candidates(paths.deep_view(), 0) =~= r.deep_view() + spec_bin_candidates(
                paths.deep_view(),
                i as nat,
            ),
    {
        proof {
            assert(paths.deep_view()[i as int] == paths@[i as int]@);
        }
        let bins = bins_of_path(&paths[i]);
        let ghost r0 = r.deep_view();
        for k in 0..bins.len()
            invariant
                r.deep_view() == r0 + bins.deep_view().take(k as int),
        {
            let ghost r1 = r.deep_view();
            r.push(bins[k].clone());
            proof {
                assert(bins@[k as int]@ == bins.deep_view()[k as int]);
                assert(r.deep_view() =~~= r1.push(bins.deep_view()[k as int]));
                assert(r0 + bins.deep_view().take(k + 1) =~= (r0 + bins.deep_view().take(
                    k as int,
                )).push(bins.deep_view()[k as int]));
            }
        }
        proof {
            assert(bins.deep_view().take(bins.deep_view().len() as int) =~= bins.deep_view());
            assert((r0 + spec_bins_of(paths.deep_view()[i as int])) + spec_bin_candidates(
                paths.deep_view(),
                (i + 1) as nat,
            ) =~= r0 + (spec_bins_of(paths.deep_view()[i as int]) + spec_bin_candidates(
                paths.deep_view(),
                (i + 1) as nat,
            )));
        }
    }
    proof {
        assert(r.deep_view() + Seq::<Seq<char>>::empty() =~= r.deep_view());
    }
    r
}

/// Copies a list of strings.
pub fn clone_strings(v: &Vec<String>) -> (r: Vec<String>)
    ensures
        r.deep_view() == v.deep_view(),
{
    let mut r: Vec<String> = Vec::new();
    for i in 0..v.len()
        invariant
            r.deep_view() == v.deep_view().take(i as int),
    {
        let ghost r0 = r.deep_view();
        r.push(v[i].clone());
        proof {
            assert(r.deep_view() =~~= r0.push(v.deep_view()[i as int]));
            assert(v.deep_view().take(i + 1) =~= v.deep_view().take(i as int).push(
                v.deep_view()[i as int],
            ));
        }
    }
    proof {
        assert(v.deep_view().take(v.deep_view().len() as int) =~= v.deep_view());
    }
    r
}

/// Whether the native search-path variable takes part in the search lists.
pub open spec fn spec_env_in_play(args: Args, plat: Platform) -> bool {
    plat.windows && !args.skip_env_path && plat.env_path is Some
}

/// One composed search-directory list: the explicit directories as given,
/// then the package-prefix `/bin` candidates that exist as directories,
/// then — where the native search-path rule applies — the variable's
/// entries that exist as directories.  `Err` returns a candidate whose
/// directory fact is missing.
pub open spec fn spec_search_dirs(
    w: World,
    args: Args,
    plat: Platform,
    explicit: Seq<Seq<char>>,
) -> Result<Seq<Seq<char>>, Seq<char>> {
    let cmake = spec_filter_dirs(
        w.dir_facts@,
        spec_bin_candidates(args.cmake_prefix_path.deep_view(), 0),
        0,
        explicit,
    );
    match cmake {
        Err(p) => Err(p),
        Ok(with_cmake) => {
            if spec_env_in_play(args, plat) {
                spec_filter_dirs(
                    w.dir_facts@,
                    spec_split(plat.env_path->0@, ';'),
                    0,
                    with_cmake,
                )
            } else {
                Ok(with_cmake)
            }
        },
    }
}

/// Appends every entry of the native search-path variable that exists as a
/// directory.
pub fn existing_var_path(dest: &mut Vec<String>, env: &String, w: &World) -> (r: Result<(), Query>)
    ensures
        match r {
            Ok(_) => spec_filter_dirs(
                w.dir_facts@,
                spec_split(env@, ';'),
                0,
                old(dest).deep_view(),
            ) == Ok::<_, Seq<char>>(final(dest).deep_view()),
            Err(q) => match q {
                Query::IsDir { path } => spec_filter_dirs(
                    w.dir_facts@,
                    spec_split(env@, ';'),
                    0,
                    old(dest).deep_view(),
                ) == Err::<Seq<Seq<char>>, _>(path@) && lookup_flag(w.dir_facts@, path@) is None,
                _ => false,
            },
        },
{
    let chars = str_to_chars(env.as_str());
    let pieces = split_chars(&chars, ';');
    let mut cands: Vec<String> = Vec::new();
    proof {
        assert(cands.deep_view() =~= pieces.deep_view().take(0));
    }
    for j in 0..pieces.len()
        invariant
            pieces.deep_view() == spec_split(env@, ';'),
            cands.deep_view() == pieces.deep_view().take(j as int),
    {
        let ghost c0 = cands.deep_view();
        cands.push(chars_to_string(&pieces[j]));
        proof {
            assert(pieces@[j as int]@ == pieces.deep_view()[j as int]);
            assert(cands.deep_view() =~~= c0.push(pieces.deep_view()[j as int]));
            assert(pieces.deep_view().take(j + 1) =~= pieces.deep_view().take(j as int).push(
                pieces.deep_view()[j as int],
            ));
        }
    }
    proof {
        assert(pieces.deep_view().take(pieces.deep_view().len() as int) =~= pieces.deep_view());
    }
    filter_existing_dirs(dest, &cands, w)
}

impl Args {
    /// Appends the existing `/bin` subdirectories of the package-prefix
    /// paths.
    pub fn existing_cmake_prefix_path(&self, dest: &mut Vec<String>, w: &World) -> (r: Result<
        (),
        Query,
    >)
        ensures
            match r {
                Ok(_) => spec_filter_dirs(
                    w.dir_facts@,
                    spec_bin_candidates(self.cmake_prefix_path.deep_view(), 0),
                    0,
                    old(dest).deep_view(),
                ) == Ok::<_, Seq<char>>(final(dest).deep_view()),
                Err(q) => match q {
                    Query::IsDir { path } => spec_filter_dirs(
                        w.dir_facts@,
                        spec_bin_candidates(self.cmake_prefix_path.deep_view(), 0),
                        0,
                        old(dest).deep_view(),
                    ) == Err::<Seq<Seq<char>>, _>(path@) && lookup_flag(
                        w.dir_facts@,
                        path@,
                    ) is None,
                    _ => false,
                },
            },
    {
        let cands = bin_candidates(&self.cmake_prefix_path);
        filter_existing_dirs(dest, &cands, w)
    }

    /// The composed shallow search-directory list.
    pub fn shallow_search_dirs(&self, plat: &Platform, w: &World) -> (r: Result<Vec<String>, Query>)
        ensures
            match r {
                Ok(v) => spec_search_dirs(*w, *self, *plat, self.shallow_search_dir.deep_view())
                    == Ok::<_, Seq<char>>(v.deep_view()),
                Err(q) => match q {
                    Query::IsDir { path } => spec_search_dirs(
                        *w,
                        *self,
                        *plat,
                        self.shallow_search_dir.deep_view(),
                    ) == Err::<Seq<Seq<char>>, _>(path@) && lookup_flag(
                        w.dir_facts@,
                        path@,
                    ) is None,
                    _ => false,
                },
            },
    {
        let mut vec = clone_strings(&self.shallow_search_dir);
        match self.existing_cmake_prefix_path(&mut vec, w) {
            Ok(_) => {},
            Err(q) => {
                return Err(q);
            },
        }
        if self.windows_env_in_play(plat) {
            match &plat.env_path {
                Some(env) => {
                    match existing_var_path(&mut vec, env, w) {
                        Ok(_) => {},
                        Err(q) => {
                            return Err(q);
                        },
                    }
                },
                None => {},
            }
        }
        Ok(vec)
    }

    /// The composed deep search-directory list.
    pub fn deep_search_dirs(&self, plat: &Platform, w: &World) -> (r: Result<Vec<String>, Query>)
        ensures
            match r {
                Ok(v) => spec_search_dirs(*w, *self, *plat, self.deep_search_dir.deep_view())
                    == Ok::<_, Seq<char>>(v.deep_view()),
                Err(q) => match q {
                    Query::IsDir { path } => spec_search_dirs(
                        *w,
                        *self,
                        *plat,
                        self.deep_search_dir.deep_view(),
                    ) == Err::<Seq<Seq<char>>, _>(path@) && lookup_flag(
                        w.dir_facts@,
                        path@,
                    ) is None,
                    _ => false,
                },
            },
    {
        let mut vec = clone_strings(&self.deep_search_dir);
        match self.existing_cmake_prefix_path(&mut vec, w) {
            Ok(_) => {},
            Err(q) => {
                return Err(q);
            },
        }
        if self.windows_env_in_play(plat) {
            match &plat.env_path {
                Some(env) => {
                    match existing_var_path(&mut vec, env, w) {
                        Ok(_) => {},
                        Err(q) => {
                            return Err(q);
                        },
                    }
                },
                None => {},
            }
        }
        Ok(vec)
    }

    /// Settles the inspection tool's location from this configuration's
    /// selector.
    pub fn objdump_file(
        &self,
        system_tool: &Option<String>,
        builtin_tool: &Option<String>,
        input_is_file: bool,
    ) -> (r: Result<String, ObjdumpError>)
        ensures
            match r {
                Ok(s) => spec_get_objdump(
                    self.objdump_file@,
                    opt_str_view(*system_tool),
                    opt_str_view(*builtin_tool),
                    input_is_file,
                ) == Ok::<_, ObjdumpError>(s@),
                Err(e) => spec_get_objdump(
                    self.objdump_file@,
                    opt_str_view(*system_tool),
                    opt_str_view(*builtin_tool),
                    input_is_file,
                ) == Err::<Seq<char>, _>(e),
            },
    {
        get_objdump_file(&self.objdump_file, system_tool, builtin_tool, input_is_file)
    }

    /// Whether the native search-path variable takes part for this
    /// configuration.
    fn windows_env_in_play(&self, plat: &Platform) -> (r: bool)
        ensures
            r == spec_env_in_play(*self, *plat),
    {
        plat.windows && !self.skip_env_path && plat.env_path.is_some()
    }
}

/// Why no inspection tool location could be settled on.
#[derive(PartialEq, Eq, Structural, Clone, Copy, Debug)]
pub enum ObjdumpError {
    /// The selector demanded the system-installed tool and none was found.
    SystemNotFound,
    /// The selector demanded (or fell back to) the bundled tool and no
    /// bundled executable exists.
    BuiltinNotFound,
    /// The selector named an explicit path that is not a regular file.
    GivenNotFound,
}

/// The view of an optional string.
pub open spec fn opt_str_view(o: Option<String>) -> Option<Seq<char>> {
    match o {
        Some(s) => Some(s@),
        None => None,
    }
}

/// Where the inspection tool is, given the configured selector and what
/// the host found: the system-installed tool where the selector demands or
/// allows it, the bundled one where demanded or as fallback, or the
/// explicitly named path if it is a regular file.
pub open spec fn spec_get_objdump(
    input: Seq<char>,
    system_tool: Option<Seq<char>>,
    builtin_tool: Option<Seq<char>>,
    input_is_file: bool,
) -> Result<Seq<char>, ObjdumpError> {
    if input == "[system]"@ {
        match system_tool {
            Some(s) => Ok(s),
            None => Err(ObjdumpError::SystemNotFound),
        }
    } else if input == "[builtin]"@ {
        match builtin_tool {
            Some(b) => Ok(b),
            None => Err(ObjdumpError::BuiltinNotFound),
        }
    } else if input == "[auto]"@ {
        match system_tool {
            Some(s) => Ok(s),
            None => match builtin_tool {
                Some(b) => Ok(b),
                None => Err(ObjdumpError::BuiltinNotFound),
            },
        }
    } else if input_is_file {
        Ok(input)
    } else {
        Err(ObjdumpError::GivenNotFound)
    }
}

/// The first line that names an existing file, if any: the host hands the
/// candidate lines of its tool lookup and, for each, whether it is a
/// regular file.
pub fn get_system_objdump(lines: &Vec<String>, exists: &Vec<bool>) -> (r: Option<String>)
    requires
        lines@.len() == exists@.len(),
    ensures
        match r {
            Some(s) => exists|i: int|
                0 <= i < lines.deep_view().len() && exists@[i] && s@ == lines.deep_view()[i]
                    && forall|j: int| 0 <= j < i ==> !exists@[j],
            None => forall|i: int| 0 <= i < exists@.len() ==> !exists@[i],
        },
{
    for i in 0..lines.len()
        invariant
            lines@.len() == exists@.len(),
            forall|j: int| 0 <= j < i ==> !exists@[j],
    {
        if exists[i] {
            proof {
                assert(lines.deep_view()[i as int] == lines@[i as int]@);
            }
            return Some(lines[i].clone());
        }
    }
    None
}

/// Settles the inspection tool's location from the configured selector.
pub fn get_objdump_file(
    input: &String,
    system_tool: &Option<String>,
    builtin_tool: &Option<String>,
    input_is_file: bool,
) -> (r: Result<String, ObjdumpError>)
    ensures
        match r {
            Ok(s) => spec_get_objdump(
                input@,
                opt_str_view(*system_tool),
                opt_str_view(*builtin_tool),
                input_is_file,
            ) == Ok::<_, ObjdumpError>(s@),
            Err(e) => spec_get_objdump(
                input@,
                opt_str_view(*system_tool),
                opt_str_view(*builtin_tool),
                input_is_file,
            ) == Err::<Seq<char>, _>(e),
        },
{
    if str_eq_lit(input, "[system]") {
        return match system_tool {
            Some(s) => Ok(s.clone()),
            None => Err(ObjdumpError::SystemNotFound),
        };
    }
    if str_eq_lit(input, "[builtin]") {
        return match builtin_tool {
            Some(b) => Ok(b.clone()),
            None => Err(ObjdumpError::BuiltinNotFound),
        };
    }
    if str_eq_lit(input, "[auto]") {
        return match system_tool {
            Some(s) => Ok(s.clone()),
            None => match builtin_tool {
                Some(b) => Ok(b.clone()),
                None => Err(ObjdumpError::BuiltinNotFound),
            },
        };
    }
    if input_is_file {
        Ok(input.clone())
    } else {
        Err(ObjdumpError::GivenNotFound)
    }
}

} // verus!

//! The policy that decides, for one dependency name, whether anything must
//! be located and deployed for it.
//!
//! The decision is taken in a fixed precedence order: already deployed in
//! the target directory; explicitly ignored; owned by the operating
//! system; a redistributable runtime library while deploying those is not
//! enabled; otherwise unresolved, to be searched for.

use vstd::prelude::*;
use crate::text::{spec_join, spec_lower, str_to_chars, chars_to_string, lower_chars, join_path, str_eq};
use crate::config::{Args, Platform};
use crate::world::{World, Query, lookup_flag, find_flag};

verus! {

/// The disposition of one dependency name.
#[derive(PartialEq, Eq, Structural, Clone, Copy, Debug)]
pub enum Classification {
    /// A file of that name already exists in the target directory.
    AlreadyDeployed,
    /// The name is in the configured ignore set.
    Ignored,
    /// The operating system owns a library of that name.
    SystemOwned,
    /// A redistributable runtime library, and deploying those is not
    /// enabled.
    Redistributable,
    /// Must be located and deployed.
    Unresolved,
}

/// Whether one of the strings equals `x`.
pub open spec fn spec_contains_str(ss: Seq<Seq<char>>, x: Seq<char>) -> bool {
    exists|j: int| 0 <= j < ss.len() && ss[j] == x
}

/// Whether one of the strings equals `x`.
pub fn contains_string(v: &Vec<String>, x: &String) -> (r: bool)
    ensures
        r == spec_contains_str(v.deep_view(), x@),
{
    for i in 0..v.len()
        invariant
            forall|j: int| 0 <= j < i ==> v.deep_view()[j] != x@,
    {
        proof {
            assert(v.deep_view()[i as int] == v@[i as int]@);
        }
        if str_eq(&v[i], x) {
            return true;
        }
    }
    false
}

/// A dependency name is a redistributable C/C++ runtime library when it
/// follows the `api-ms-win` naming convention.
pub open spec fn spec_is_vc_redist_dll(name: Seq<char>) -> bool {
    "api-ms-win"@.is_prefix_of(name)
}

/// Decides whether a dependency name denotes a redistributable C/C++
/// runtime library (the `api-ms-win` naming convention).
pub fn is_vc_redist_dll(name: &str) -> (r: bool)
    ensures
        r == spec_is_vc_redist_dll(name@),
{
    let pat = "api-ms-win";
    let n = pat.unicode_len();
    if name.unicode_len() < n {
        return false;
    }
    for i in 0..n
        invariant
            n == "api-ms-win"@.len() <= name@.len(),
            pat@ == "api-ms-win"@,
            forall|j: int| 0 <= j < i ==> name@[j] == "api-ms-win"@[j],
    {
        if name.get_char(i) != pat.get_char(i) {
            proof {
                assert(!"api-ms-win"@.is_prefix_of(name@));
            }
            return false;
        }
    }
    assert("api-ms-win"@.is_prefix_of(name@));
    true
}

/// The known system directories probed on the native platform.
pub open spec fn spec_system_probe_dirs() -> Seq<Seq<char>> {
    seq![
        "C:/Windows"@,
        "C:/Windows/system32"@,
        "C:/Windows/System32/Wbem"@,
        "C:/Windows/System32/WindowsPowerShell/v1.0"@,
        "C:/Windows/System32/OpenSSH"@,
    ]
}

/// The known system directories probed on the native platform.
pub fn system_probe_dirs() -> (r: Vec<String>)
    ensures
        r.deep_view() == spec_system_probe_dirs(),
{
    let mut r: Vec<String> = Vec::new();
    r.push(String::from_str("C:/Windows"));
    r.push(String::from_str("C:/Windows/system32"));
    r.push(String::from_str("C:/Windows/System32/Wbem"));
    r.push(String::from_str("C:/Windows/System32/WindowsPowerShell/v1.0"));
    r.push(String::from_str("C:/Windows/System32/OpenSSH"));
    proof {
        assert(r.deep_view() =~~= spec_system_probe_dirs());
    }
    r
}

/// Probes the known system directories from position `i` on for a file of
/// the given name; `Err` returns the first probed path with no recorded
/// fact.
pub open spec fn spec_probe_system(w: World, name: Seq<char>, i: nat) -> Result<bool, Seq<char>>
    decreases spec_system_probe_dirs().len() + 1 - i,
{
    if i >= spec_system_probe_dirs().len() {
        Ok(false)
    } else {
        let p = spec_join(spec_system_probe_dirs()[i as int], name);
        match lookup_flag(w.file_facts@, p) {
            None => Err(p),
            Some(true) => Ok(true),
            Some(false) => spec_probe_system(w, name, i + 1),
        }
    }
}

/// Whether the operating system owns a library of this name: on the native
/// platform, a probe of the known system directories; elsewhere, a lookup
/// of the lower-cased name in the supplied table.  `Err` returns a probed
/// path with no recorded fact.
pub open spec fn spec_is_system_dll(w: World, plat: Platform, name: Seq<char>) -> Result<
    bool,
    Seq<char>,
> {
    if plat.windows {
        spec_probe_system(w, name, 0)
    } else {
        Ok(spec_contains_str(plat.system_dll_table.deep_view(), spec_lower(name)))
    }
}

/// Decides whether the operating system owns a library of this name.
pub fn is_system_dll(name: &String, plat: &Platform, w: &World) -> (r: Result<bool, Query>)
    ensures
        match r {
            Ok(b) => spec_is_system_dll(*w, *plat, name@) == Ok::<_, Seq<char>>(b),
            Err(q) => match q {
                Query::IsFile { path } => spec_is_system_dll(*w, *plat, name@) == Err::<bool, _>(
                    path@,
                ) && lookup_flag(w.file_facts@, path@) is None,
                _ => false,
            },
        },
{
    if plat.windows {
        let dirs = system_probe_dirs();
        for i in 0..dirs.len()
            invariant
                plat.windows,
                dirs.deep_view() == spec_system_probe_dirs(),
                spec_probe_system(*w, name@, 0) == spec_probe_system(*w, name@, i as nat),
        {
            proof {
                assert(dirs.deep_view()[i as int] == dirs@[i as int]@);
            }
            let p = join_path(&dirs[i], name);
            proof {
                assert(p@ == spec_join(spec_system_probe_dirs()[i as int], name@));
            }
            match find_flag(&w.file_facts, &p) {
                None => {
                    proof {
                        assert(spec_probe_system(*w, name@, i as nat) == Err::<bool, Seq<char>>(
                            p@,
                        ));
                    }
                    return Err(Query::IsFile { path: p });
                },
                Some(true) => {
                    proof {
                        assert(spec_probe_system(*w, name@, i as nat) == Ok::<bool, Seq<char>>(
                            true,
                        ));
                    }
                    return Ok(true);
                },
                Some(false) => {},
            }
        }
        Ok(false)
    } else {
        let chars = str_to_chars(name.as_str());
        let lowered = lower_chars(&chars);
        let lname = chars_to_string(&lowered);
        Ok(contains_string(&plat.system_dll_table, &lname))
    }
}

/// The disposition of one dependency name, decided in precedence order:
/// already present in the target directory; ignored; system-owned; a
/// redistributable runtime library while deploying those is not enabled;
/// otherwise unresolved.  `Err` returns a path whose file fact is missing.
pub open spec fn spec_classify(
    w: World,
    args: Args,
    plat: Platform,
    target_dir: Seq<char>,
    name: Seq<char>,
) -> Result<Classification, Seq<char>> {
    match lookup_flag(w.file_facts@, spec_join(target_dir, name)) {
        None => Err(spec_join(target_dir, name)),
        Some(true) => Ok(Classification::AlreadyDeployed),
        Some(false) => {
            if spec_contains_str(args.ignore.deep_view(), name) {
                Ok(Classification::Ignored)
            } else {
                match spec_is_system_dll(w, plat, name) {
                    Err(p) => Err(p),
                    Ok(true) => Ok(Classification::SystemOwned),
                    Ok(false) => {
                        if spec_is_vc_redist_dll(name) && !args.copy_vc_redist {
                            Ok(Classification::Redistributable)
                        } else {
                            Ok(Classification::Unresolved)
                        }
                    },
                }
            }
        },
    }
}

/// Decides the disposition of one dependency name.
pub fn classify(
    name: &String,
    target_dir: &String,
    args: &Args,
    plat: &Platform,
    w: &World,
) -> (r: Result<Classification, Query>)
    ensures
        match r {
            Ok(c) => spec_classify(*w, *args, *plat, target_dir@, name@) == Ok::<_, Seq<char>>(c),
            Err(q) => match q {
                Query::IsFile { path } => spec_classify(*w, *args, *plat, target_dir@, name@)
                    == Err::<Classification, _>(path@) && lookup_flag(
                    w.file_facts@,
                    path@,
                ) is None,
                _ => false,
            },
        },
{
    let expected = join_path(target_dir, name);
    match find_flag(&w.file_facts, &expected) {
        None => {
            return Err(Query::IsFile { path: expected });
        },
        Some(true) => {
            return Ok(Classification::AlreadyDeployed);
        },
        Some(false) => {},
    }
    if contains_string(&args.ignore, name) {
        return Ok(Classification::Ignored);
    }
    match is_system_dll(name, plat, w) {
        Err(q) => {
            return Err(q);
        },
        Ok(true) => {
            return Ok(Classification::SystemOwned);
        },
        Ok(false) => {},
    }
    if is_vc_redist_dll(name.as_str()) && !args.copy_vc_redist {
        return Ok(Classification::Redistributable);
    }
    Ok(Classification::Unresolved)
}

} // verus!

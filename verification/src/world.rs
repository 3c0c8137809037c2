//! The engine's record of the outside world.
//!
//! The engine never touches the filesystem and never spawns a process.
//! Everything it knows is a fact recorded in a `World`: whether a path is a
//! directory or a regular file, what the inspection tool printed for a
//! binary, which entries a recursive directory walk visited, and whether a
//! requested copy succeeded.  When a fact it needs is absent, the engine
//! stops and asks for it as a `Query`; the driver performs the action,
//! records the answer, and runs the engine again.  Facts are only ever
//! appended, so a rerun takes the same decisions and continues further.

use vstd::prelude::*;

verus! {

/// Captured output of one inspection-tool invocation.  `ok` is whether the
/// tool exited successfully.
pub struct ToolOutput {
    pub ok: bool,
    pub stdout: String,
    pub stderr: String,
}

/// One recorded copy attempt: `from` is the located source path, `name`
/// the dependency name it was deployed under, `ok` whether the filesystem
/// copy completed.
pub struct CopyFact {
    pub from: String,
    pub name: String,
    pub ok: bool,
}

/// An action the driver must perform so that its outcome becomes a fact.
#[derive(PartialEq, Eq, Clone, Debug)]
pub enum Query {
    /// Whether the path names an existing directory.
    IsDir { path: String },
    /// Whether the path names an existing regular file.
    IsFile { path: String },
    /// Run the inspection tool asking for the declared library names.
    ToolDeps { path: String },
    /// Run the inspection tool asking for the binary format report.
    ToolFormat { path: String },
    /// Recursively walk the directory and record every visited entry path,
    /// the root itself included; subtrees that cannot be read are skipped.
    WalkEntries { dir: String },
    /// Copy the file at `from` to `dest` (the target directory joined with
    /// `name`) and record whether the copy completed.
    DoCopy { from: String, name: String, dest: String },
}

/// Everything the engine knows about the outside world.
pub struct World {
    pub dir_facts: Vec<(String, bool)>,
    pub file_facts: Vec<(String, bool)>,
    pub deps_facts: Vec<(String, ToolOutput)>,
    pub format_facts: Vec<(String, ToolOutput)>,
    pub walk_facts: Vec<(String, Vec<String>)>,
    pub copy_facts: Vec<CopyFact>,
}

impl World {
    /// A world holding no facts at all.
    pub fn new() -> (w: World)
        ensures
            w.dir_facts@ =~= Seq::<(String, bool)>::empty(),
            w.file_facts@ =~= Seq::<(String, bool)>::empty(),
            w.deps_facts@ =~= Seq::<(String, ToolOutput)>::empty(),
            w.format_facts@ =~= Seq::<(String, ToolOutput)>::empty(),
            w.walk_facts@ =~= Seq::<(String, Vec<String>)>::empty(),
            w.copy_facts@ =~= Seq::<CopyFact>::empty(),
    {
        World {
            dir_facts: Vec::new(),
            file_facts: Vec::new(),
            deps_facts: Vec::new(),
            format_facts: Vec::new(),
            walk_facts: Vec::new(),
            copy_facts: Vec::new(),
        }
    }
}

/// The first recorded yes/no fact for `key`, if any.
pub open spec fn lookup_flag(entries: Seq<(String, bool)>, key: Seq<char>) -> Option<bool>
    decreases entries.len(),
{
    if entries.len() == 0 {
        None
    } else if entries[0].0@ == key {
        Some(entries[0].1)
    } else {
        lookup_flag(entries.drop_first(), key)
    }
}

/// The first recorded tool output for `key`, if any.
pub open spec fn lookup_tool(entries: Seq<(String, ToolOutput)>, key: Seq<char>) -> Option<
    ToolOutput,
>
    decreases entries.len(),
{
    if entries.len() == 0 {
        None
    } else if entries[0].0@ == key {
        Some(entries[0].1)
    } else {
        lookup_tool(entries.drop_first(), key)
    }
}

/// The first recorded walk listing for `key`, if any.
pub open spec fn lookup_walk(entries: Seq<(String, Vec<String>)>, key: Seq<char>) -> Option<
    Vec<String>,
>
    decreases entries.len(),
{
    if entries.len() == 0 {
        None
    } else if entries[0].0@ == key {
        Some(entries[0].1)
    } else {
        lookup_walk(entries.drop_first(), key)
    }
}

/// The first recorded copy outcome for the pair (`from`, `name`), if any.
pub open spec fn lookup_copy(entries: Seq<CopyFact>, from: Seq<char>, name: Seq<char>) -> Option<
    bool,
>
    decreases entries.len(),
{
    if entries.len() == 0 {
        None
    } else if entries[0].from@ == from && entries[0].name@ == name {
        Some(entries[0].ok)
    } else {
        lookup_copy(entries.drop_first(), from, name)
    }
}

/// Looks up a yes/no fact.
pub fn find_flag(entries: &Vec<(String, bool)>, key: &String) -> (r: Option<bool>)
    ensures
        r == lookup_flag(entries@, key@),
{
    let mut i: usize = entries.len();
    let mut r: Option<bool> = None;
    proof {
        assert(entries@.skip(i as int) =~= Seq::<(String, bool)>::empty());
    }
    while i > 0
        invariant
            i <= entries@.len(),
            r == lookup_flag(entries@.skip(i as int), key@),
        decreases i,
    {
        i = i - 1;
        proof {
            assert(entries@.skip(i as int).drop_first() =~= entries@.skip(i + 1));
            assert(entries@.skip(i as int)[0] == entries@[i as int]);
        }
        if crate::text::str_eq(&entries[i].0, key) {
            r = Some(entries[i].1);
        }
    }
    proof {
        assert(entries@.skip(0) =~= entries@);
    }
    r
}

/// Looks up a recorded tool output.
pub fn find_tool<'a>(entries: &'a Vec<(String, ToolOutput)>, key: &String) -> (r: Option<
    &'a ToolOutput,
>)
    ensures
        match r {
            Some(t) => lookup_tool(entries@, key@) == Some(*t),
            None => lookup_tool(entries@, key@) is None,
        },
{
    let mut i: usize = entries.len();
    let mut r: Option<&'a ToolOutput> = None;
    proof {
        assert(entries@.skip(i as int) =~= Seq::<(String, ToolOutput)>::empty());
    }
    while i > 0
        invariant
            i <= entries@.len(),
            match r {
                Some(t) => lookup_tool(entries@.skip(i as int), key@) == Some(*t),
                None => lookup_tool(entries@.skip(i as int), key@) is None,
            },
        decreases i,
    {
        i = i - 1;
        proof {
            assert(entries@.skip(i as int).drop_first() =~= entries@.skip(i + 1));
            assert(entries@.skip(i as int)[0] == entries@[i as int]);
        }
        if crate::text::str_eq(&entries[i].0, key) {
            r = Some(&entries[i].1);
        }
    }
    proof {
        assert(entries@.skip(0) =~= entries@);
    }
    r
}

/// Looks up a recorded walk listing.
pub fn find_walk<'a>(entries: &'a Vec<(String, Vec<String>)>, key: &String) -> (r: Option<
    &'a Vec<String>,
>)
    ensures
        match r {
            Some(v) => lookup_walk(entries@, key@) == Some(*v),
            None => lookup_walk(entries@, key@) is None,
        },
{
    let mut i: usize = entries.len();
    let mut r: Option<&'a Vec<String>> = None;
    proof {
        assert(entries@.skip(i as int) =~= Seq::<(String, Vec<String>)>::empty());
    }
    while i > 0
        invariant
            i <= entries@.len(),
            match r {
                Some(v) => lookup_walk(entries@.skip(i as int), key@) == Some(*v),
                None => lookup_walk(entries@.skip(i as int), key@) is None,
            },
        decreases i,
    {
        i = i - 1;
        proof {
            assert(entries@.skip(i as int).drop_first() =~= entries@.skip(i + 1));
            assert(entries@.skip(i as int)[0] == entries@[i as int]);
        }
        if crate::text::str_eq(&entries[i].0, key) {
            r = Some(&entries[i].1);
        }
    }
    proof {
        assert(entries@.skip(0) =~= entries@);
    }
    r
}

/// Looks up a recorded copy outcome.
pub fn find_copy(entries: &Vec<CopyFact>, from: &String, name: &String) -> (r: Option<bool>)
    ensures
        r == lookup_copy(entries@, from@, name@),
{
    let mut i: usize = entries.len();
    let mut r: Option<bool> = None;
    proof {
        assert(entries@.skip(i as int) =~= Seq::<CopyFact>::empty());
    }
    while i > 0
        invariant
            i <= entries@.len(),
            r == lookup_copy(entries@.skip(i as int), from@, name@),
        decreases i,
    {
        i = i - 1;
        proof {
            assert(entries@.skip(i as int).drop_first() =~= entries@.skip(i + 1));
            assert(entries@.skip(i as int)[0] == entries@[i as int]);
        }
        if crate::text::str_eq(&entries[i].from, from) && crate::text::str_eq(
            &entries[i].name,
            name,
        ) {
            r = Some(entries[i].ok);
        }
    }
    proof {
        assert(entries@.skip(0) =~= entries@);
    }
    r
}

} // verus!

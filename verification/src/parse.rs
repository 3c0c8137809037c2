//! Parsers for the two text contracts of the external inspection tool:
//! the list of declared library names and the binary-format report.

use vstd::prelude::*;
use crate::text::{
    spec_lower, spec_strip_cr, spec_split, spec_find, spec_rfind_upto, spec_contains,
    str_to_chars, chars_to_string, lower_chars, strip_cr, split_chars, find_sub, rfind_sub,
    subrange_vec, extend_chars, lemma_find_from_some, lemma_rfind_upto_some,
};

verus! {

/// The marker that introduces a declared library name on a tool output line.
pub open spec fn dep_marker() -> Seq<char> {
    "dll name: "@
}

/// The library file extension that terminates a declared name.
pub open spec fn dll_ext() -> Seq<char> {
    ".dll"@
}

/// The marker that introduces the format tag on a tool output line.
pub open spec fn format_marker() -> Seq<char> {
    "file format "@
}

/// The declared base name on one (lower-cased) output line: the bare text
/// strictly between the end of the dependency marker and the first
/// occurrence of the extension.  `None` is a parse failure: the extension
/// is missing, or it ends at or before one character past the marker.
pub open spec fn spec_parse_dep_line(line: Seq<char>) -> Option<Seq<char>> {
    match spec_find(line, dep_marker()) {
        None => None,
        Some(l1) => match spec_find(line, dll_ext()) {
            None => None,
            Some(l2) => {
                let start = l1 + dep_marker().len();
                if start + 1 >= l2 {
                    None
                } else {
                    Some(line.subrange(start as int, l2 as int))
                }
            },
        },
    }
}

/// Scans lines from position `i` on, collecting the declared name of every
/// line that holds the dependency marker, with the extension put back on
/// each extracted base name; `Err` returns the first line whose name
/// cannot be parsed.
pub open spec fn spec_scan_dep_lines(
    lines: Seq<Seq<char>>,
    i: nat,
    acc: Seq<Seq<char>>,
) -> Result<Seq<Seq<char>>, Seq<char>>
    decreases lines.len() + 1 - i,
{
    if i >= lines.len() {
        Ok(acc)
    } else if !spec_contains(lines[i as int], dep_marker()) {
        spec_scan_dep_lines(lines, i + 1, acc)
    } else {
        match spec_parse_dep_line(lines[i as int]) {
            None => Err(lines[i as int]),
            Some(nm) => spec_scan_dep_lines(lines, i + 1, acc.push(nm + dll_ext())),
        }
    }
}

/// The declared library names in raw tool output: carriage returns are
/// removed, the whole output is lower-cased and split into lines, and every
/// line holding the dependency marker contributes its name, in line order.
/// Duplicates are preserved.  `Err` returns the first malformed line.
pub open spec fn spec_dependencies(out: Seq<char>) -> Result<Seq<Seq<char>>, Seq<char>> {
    spec_scan_dep_lines(
        spec_split(spec_lower(spec_strip_cr(out)), '\n'),
        0,
        Seq::empty(),
    )
}

/// Extracts the declared base name (without the extension) from one
/// lower-cased output line.
pub fn parse_output_single_line(line: &Vec<char>) -> (r: Result<Vec<char>, ()>)
    ensures
        match r {
            Ok(nm) => spec_parse_dep_line(line@) == Some(nm@),
            Err(_) => spec_parse_dep_line(line@) is None,
        },
{
    let marker = str_to_chars("dll name: ");
    let ext = str_to_chars(".dll");
    let l1 = match find_sub(line, &marker) {
        Some(i) => i,
        None => {
            return Err(());
        },
    };
    let l2 = match find_sub(line, &ext) {
        Some(i) => i,
        None => {
            return Err(());
        },
    };
    proof {
        lemma_find_from_some(line@, marker@, 0, l1 as nat);
        lemma_find_from_some(line@, ext@, 0, l2 as nat);
    }
    let line_len = line.len();
    let start = l1 + marker.len();
    proof {
        assert(start <= line_len);
    }
    if l2 <= 1 {
        return Err(());
    }
    if start >= l2 - 1 {
        return Err(());
    }
    Ok(subrange_vec(line, start, l2))
}

/// Extracts every declared library name from raw dependency-listing tool
/// output.
pub fn get_dependency_names(output: &String) -> (r: Result<Vec<String>, String>)
    ensures
        match r {
            Ok(v) => spec_dependencies(output@) == Ok::<_, Seq<char>>(v.deep_view()),
            Err(l) => spec_dependencies(output@) == Err::<Seq<Seq<char>>, _>(l@),
        },
{
    let chars = str_to_chars(output.as_str());
    let stripped = strip_cr(&chars);
    let lowered = lower_chars(&stripped);
    let lines = split_chars(&lowered, '\n');
    let marker = str_to_chars("dll name: ");
    let ext = str_to_chars(".dll");
    let mut names: Vec<String> = Vec::new();
    proof {
        assert(names.deep_view() =~= Seq::<Seq<char>>::empty());
    }
    for i in 0..lines.len()
        invariant
            marker@ == dep_marker(),
            ext@ == dll_ext(),
            lines.deep_view() == spec_split(spec_lower(spec_strip_cr(output@)), '\n'),
            spec_dependencies(output@) == spec_scan_dep_lines(
                lines.deep_view(),
                i as nat,
                names.deep_view(),
            ),
    {
        proof {
            assert(lines.deep_view()[i as int] == lines@[i as int].deep_view());
            assert(lines@[i as int].deep_view() =~= lines@[i as int]@);
        }
        match find_sub(&lines[i], &marker) {
            None => {
                proof {
                    assert(!spec_contains(lines.deep_view()[i as int], dep_marker()));
                }
            },
            Some(_) => {
                match parse_output_single_line(&lines[i]) {
                    Ok(mut nm) => {
                        extend_chars(&mut nm, &ext);
                        let ghost names0 = names.deep_view();
                        let ghost nmv = nm@;
                        names.push(chars_to_string(&nm));
                        proof {
                            assert(names.deep_view() =~~= names0.push(nmv));
                        }
                    },
                    Err(_) => {
                        return Err(chars_to_string(&lines[i]));
                    },
                }
            },
        }
    }
    Ok(names)
}

/// Scans lines from position `i` on for the first one holding the format
/// marker; the tag is everything after the last occurrence of the marker on
/// that line.
pub open spec fn spec_scan_format_lines(lines: Seq<Seq<char>>, i: nat) -> Option<Seq<char>>
    decreases lines.len() + 1 - i,
{
    if i >= lines.len() {
        None
    } else {
        let line = lines[i as int];
        match spec_rfind_upto(line, format_marker(), line.len()) {
            Some(l) => Some(line.subrange(l + format_marker().len() as int, line.len() as int)),
            None => spec_scan_format_lines(lines, i + 1),
        }
    }
}

/// The format tag in raw format-report tool output: carriage returns are
/// removed, the output is split into lines, and the first line holding the
/// format marker yields everything after the marker's last occurrence.
/// `None` is a parse failure: no line holds the marker.
pub open spec fn spec_file_format(out: Seq<char>) -> Option<Seq<char>> {
    spec_scan_format_lines(spec_split(spec_strip_cr(out), '\n'), 0)
}

/// Extracts the format tag from raw format-report tool output.
pub fn parse_file_format(output: &String) -> (r: Result<String, ()>)
    ensures
        match r {
            Ok(tag) => spec_file_format(output@) == Some(tag@),
            Err(_) => spec_file_format(output@) is None,
        },
{
    let chars = str_to_chars(output.as_str());
    let stripped = strip_cr(&chars);
    let lines = split_chars(&stripped, '\n');
    let marker = str_to_chars("file format ");
    for i in 0..lines.len()
        invariant
            marker@ == format_marker(),
            lines.deep_view() == spec_split(spec_strip_cr(output@), '\n'),
            spec_file_format(output@) == spec_scan_format_lines(lines.deep_view(), i as nat),
    {
        proof {
            assert(lines.deep_view()[i as int] == lines@[i as int].deep_view());
            assert(lines@[i as int].deep_view() =~= lines@[i as int]@);
        }
        match rfind_sub(&lines[i], &marker) {
            Some(l) => {
                let line = &lines[i];
                proof {
                    lemma_rfind_upto_some(line@, marker@, line@.len(), l as nat);
                }
                let line_len = line.len();
                let start = l + marker.len();
                proof {
                    assert(start <= line_len);
                }
                let tag = subrange_vec(line, start, line.len());
                return Ok(chars_to_string(&tag));
            },
            None => {},
        }
    }
    Err(())
}

} // verus!

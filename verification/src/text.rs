//! Character-sequence utilities the engine's parsers are built on.
//!
//! Tool output is handled as a vector of characters, so that every scan is
//! an ordinary indexed loop.  Each executable function is specified by a
//! spec function that states the result directly over `Seq<char>`.

use vstd::prelude::*;

verus! {

/// ASCII lower-casing of one character; every other character is kept.
pub open spec fn spec_lower_char(c: char) -> char {
    if 'A' <= c && c <= 'Z' {
        ((c as u8) + 32) as char
    } else {
        c
    }
}

/// ASCII lower-casing of a character sequence.
pub open spec fn spec_lower(s: Seq<char>) -> Seq<char> {
    s.map_values(|c: char| spec_lower_char(c))
}

/// Lower-cases one character (ASCII range only).
pub fn lower_char(c: char) -> (r: char)
    ensures
        r == spec_lower_char(c),
{
    if 'A' <= c && c <= 'Z' {
        ((c as u8) + 32) as char
    } else {
        c
    }
}

/// Lower-cases a character sequence (ASCII range only).
pub fn lower_chars(s: &Vec<char>) -> (r: Vec<char>)
    ensures
        r@ == spec_lower(s@),
{
    let mut r: Vec<char> = Vec::new();
    for i in 0..s.len()
        invariant
            r@ == spec_lower(s@.take(i as int)),
    {
        r.push(lower_char(s[i]));
        proof {
            assert(s@.take(i + 1).map_values(|c: char| spec_lower_char(c)) =~= s@.take(
                i as int,
            ).map_values(|c: char| spec_lower_char(c)).push(spec_lower_char(s@[i as int])));
        }
    }
    proof {
        assert(s@.take(s@.len() as int) =~= s@);
    }
    r
}

/// Whether the pattern `m` occurs in `s` starting at position `i`.
pub open spec fn match_at(s: Seq<char>, m: Seq<char>, i: int) -> bool {
    0 <= i && i + m.len() <= s.len() && s.subrange(i, i + m.len()) == m
}

/// Position of the first occurrence of `m` in `s` at or after `i`.
pub open spec fn spec_find_from(s: Seq<char>, m: Seq<char>, i: nat) -> Option<nat>
    decreases s.len() + 1 - i,
{
    if i + m.len() > s.len() {
        None
    } else if match_at(s, m, i as int) {
        Some(i)
    } else {
        spec_find_from(s, m, (i + 1) as nat)
    }
}

/// Position of the first occurrence of `m` in `s`, if any.
pub open spec fn spec_find(s: Seq<char>, m: Seq<char>) -> Option<nat> {
    spec_find_from(s, m, 0)
}

/// Position of the last occurrence of `m` in `s` strictly below `i + m.len()`.
pub open spec fn spec_rfind_upto(s: Seq<char>, m: Seq<char>, i: nat) -> Option<nat>
    decreases i,
{
    if i == 0 {
        None
    } else if match_at(s, m, i - 1) {
        Some((i - 1) as nat)
    } else {
        spec_rfind_upto(s, m, (i - 1) as nat)
    }
}

/// A found position is a match position at or after the start of the scan.
pub proof fn lemma_find_from_some(s: Seq<char>, m: Seq<char>, i: nat, j: nat)
    requires
        spec_find_from(s, m, i) == Some(j),
    ensures
        i <= j,
        match_at(s, m, j as int),
    decreases s.len() + 1 - i,
{
    if i + m.len() > s.len() {
    } else if match_at(s, m, i as int) {
    } else {
        lemma_find_from_some(s, m, (i + 1) as nat, j);
    }
}

/// A position found scanning backwards is a match position.
pub proof fn lemma_rfind_upto_some(s: Seq<char>, m: Seq<char>, i: nat, j: nat)
    requires
        spec_rfind_upto(s, m, i) == Some(j),
    ensures
        j < i,
        match_at(s, m, j as int),
    decreases i,
{
    if i == 0 {
    } else if match_at(s, m, i - 1) {
    } else {
        lemma_rfind_upto_some(s, m, (i - 1) as nat, j);
    }
}

/// Whether `m` occurs anywhere in `s`.
pub open spec fn spec_contains(s: Seq<char>, m: Seq<char>) -> bool {
    spec_find(s, m) is Some
}

/// Compares `s[i..]` with `m` character by character.
fn match_here(s: &Vec<char>, m: &Vec<char>, i: usize) -> (r: bool)
    requires
        i + m@.len() <= s@.len(),
    ensures
        r == match_at(s@, m@, i as int),
{
    let n = s.len();
    for k in 0..m.len()
        invariant
            n == s@.len(),
            i + m@.len() <= s@.len(),
            forall|j: int| 0 <= j < k ==> s@[i + j] == m@[j],
    {
        assert(i + k < n);
        if s[i + k] != m[k] {
            proof {
                assert(s@.subrange(i as int, i + m@.len())[k as int] == s@[i + k]);
                assert(!match_at(s@, m@, i as int));
            }
            return false;
        }
    }
    proof {
        assert(s@.subrange(i as int, i + m@.len()) =~= m@);
    }
    true
}

/// Finds the first occurrence of `m` in `s`.
pub fn find_sub(s: &Vec<char>, m: &Vec<char>) -> (r: Option<usize>)
    ensures
        match r {
            Some(i) => spec_find(s@, m@) == Some(i as nat),
            None => spec_find(s@, m@) is None,
        },
{
    if m.len() > s.len() {
        return None;
    }
    if m.len() == 0 {
        proof {
            assert(s@.subrange(0, 0) =~= m@);
        }
        return Some(0);
    }
    let end = s.len() - m.len();
    let mut i: usize = 0;
    while i <= end
        invariant
            1 <= m@.len() <= s@.len() <= usize::MAX,
            end == s@.len() - m@.len(),
            i <= end + 1,
            spec_find(s@, m@) == spec_find_from(s@, m@, i as nat),
        decreases end + 1 - i,
    {
        if match_here(s, m, i) {
            return Some(i);
        }
        i = i + 1;
    }
    None
}

/// Finds the last occurrence of `m` in `s`.
pub fn rfind_sub(s: &Vec<char>, m: &Vec<char>) -> (r: Option<usize>)
    ensures
        match r {
            Some(i) => spec_rfind_upto(s@, m@, s@.len()) == Some(i as nat),
            None => spec_rfind_upto(s@, m@, s@.len()) is None,
        },
{
    let mut i: usize = s.len();
    while i > 0
        invariant
            i <= s@.len(),
            spec_rfind_upto(s@, m@, s@.len()) == spec_rfind_upto(s@, m@, i as nat),
        decreases i,
    {
        if m.len() <= s.len() && i - 1 <= s.len() - m.len() {
            if match_here(s, m, i - 1) {
                return Some(i - 1);
            }
        } else {
            proof {
                assert(!match_at(s@, m@, i - 1));
            }
        }
        i = i - 1;
    }
    None
}

/// Splitting with an accumulator: `cur` is the piece being read, `acc` the
/// pieces already read.
pub open spec fn spec_split_acc(
    s: Seq<char>,
    sep: char,
    cur: Seq<char>,
    acc: Seq<Seq<char>>,
) -> Seq<Seq<char>>
    decreases s.len(),
{
    if s.len() == 0 {
        acc.push(cur)
    } else if s[0] == sep {
        spec_split_acc(s.drop_first(), sep, Seq::empty(), acc.push(cur))
    } else {
        spec_split_acc(s.drop_first(), sep, cur.push(s[0]), acc)
    }
}

/// The pieces of `s` between occurrences of the separator, in order;
/// separators are dropped, empty pieces are kept.
pub open spec fn spec_split(s: Seq<char>, sep: char) -> Seq<Seq<char>> {
    spec_split_acc(s, sep, Seq::empty(), Seq::empty())
}

/// Splits `s` on the separator character.
pub fn split_chars(s: &Vec<char>, sep: char) -> (r: Vec<Vec<char>>)
    ensures
        r.deep_view() == spec_split(s@, sep),
{
    let mut acc: Vec<Vec<char>> = Vec::new();
    let mut cur: Vec<char> = Vec::new();
    proof {
        assert(s@.skip(0) =~= s@);
        assert(acc.deep_view() =~= Seq::<Seq<char>>::empty());
    }
    for i in 0..s.len()
        invariant
            spec_split(s@, sep) == spec_split_acc(s@.skip(i as int), sep, cur@, acc.deep_view()),
    {
        proof {
            assert(s@.skip(i as int).drop_first() =~= s@.skip(i + 1));
            assert(s@.skip(i as int)[0] == s@[i as int]);
        }
        if s[i] == sep {
            let ghost acc0 = acc.deep_view();
            let ghost cur0 = cur@;
            acc.push(cur);
            cur = Vec::new();
            proof {
                assert(acc.deep_view() =~~= acc0.push(cur0));
            }
        } else {
            cur.push(s[i]);
        }
    }
    proof {
        assert(s@.skip(s@.len() as int) =~= Seq::<char>::empty());
    }
    let ghost accf = acc.deep_view();
    let ghost curf = cur@;
    acc.push(cur);
    proof {
        assert(acc.deep_view() =~~= accf.push(curf));
    }
    acc
}

/// Copies the characters of `v` between positions `a` and `b`.
pub fn subrange_vec(v: &Vec<char>, a: usize, b: usize) -> (r: Vec<char>)
    requires
        a <= b <= v@.len(),
    ensures
        r@ == v@.subrange(a as int, b as int),
{
    let mut r: Vec<char> = Vec::new();
    for i in a..b
        invariant
            a <= b <= v@.len(),
            r@ == v@.subrange(a as int, i as int),
    {
        r.push(v[i]);
        proof {
            assert(v@.subrange(a as int, i + 1) =~= v@.subrange(a as int, i as int).push(
                v@[i as int],
            ));
        }
    }
    r
}

/// Appends the characters of `w` to `v`.
pub fn extend_chars(v: &mut Vec<char>, w: &Vec<char>)
    ensures
        final(v)@ == old(v)@ + w@,
{
    proof {
        assert(old(v)@ + w@.take(0) =~= old(v)@);
    }
    for i in 0..w.len()
        invariant
            v@ == old(v)@ + w@.take(i as int),
    {
        v.push(w[i]);
        proof {
            assert(old(v)@ + w@.take(i + 1) =~= (old(v)@ + w@.take(i as int)).push(w@[i as int]));
        }
    }
    proof {
        assert(old(v)@ + w@.take(w@.len() as int) =~= old(v)@ + w@);
    }
}

/// Relies on str::chars: the iterator yields exactly the characters of the
/// string, in order; collecting them gives the string's character sequence,
/// which is what the view of a string slice denotes.
#[verifier::external_body]
pub fn str_to_chars(s: &str) -> (v: Vec<char>)
    ensures
        v@ == s@,
{
    s.chars().collect()
}

/// Relies on String::push: it appends exactly the given character to the
/// end of the string.
#[verifier::external_body]
pub fn push_char(s: &mut String, c: char) -> (r: ())
    ensures
        final(s)@ == old(s)@.push(c),
{
    s.push(c)
}

/// Builds the string holding exactly the given characters.
pub fn chars_to_string(v: &Vec<char>) -> (r: String)
    ensures
        r@ == v@,
{
    let mut r = String::new();
    for i in 0..v.len()
        invariant
            r@ == v@.take(i as int),
    {
        push_char(&mut r, v[i]);
        proof {
            assert(v@.take(i + 1) =~= v@.take(i as int).push(v@[i as int]));
        }
    }
    proof {
        assert(v@.take(v@.len() as int) =~= v@);
    }
    r
}

/// The path of entry `name` directly inside directory `dir`.
pub open spec fn spec_join(dir: Seq<char>, name: Seq<char>) -> Seq<char> {
    dir + seq!['/'] + name
}

/// Joins a directory and an entry name with a path separator.
pub fn join_path(dir: &String, name: &String) -> (r: String)
    ensures
        r@ == spec_join(dir@, name@),
{
    let mut r: String = dir.clone();
    push_char(&mut r, '/');
    let tail = str_to_chars(name.as_str());
    for i in 0..tail.len()
        invariant
            tail@ == name@,
            r@ == dir@ + seq!['/'] + name@.take(i as int),
    {
        push_char(&mut r, tail[i]);
        proof {
            assert(dir@ + seq!['/'] + name@.take(i + 1) =~= (dir@ + seq!['/'] + name@.take(
                i as int,
            )).push(name@[i as int]));
        }
    }
    proof {
        assert(dir@ + seq!['/'] + name@.take(name@.len() as int) =~= spec_join(dir@, name@));
        assert(r@ + Seq::<char>::empty() =~= r@);
    }
    r
}

/// Compares two character vectors.
pub fn chars_eq(a: &Vec<char>, b: &Vec<char>) -> (r: bool)
    ensures
        r == (a@ == b@),
{
    if a.len() != b.len() {
        return false;
    }
    for i in 0..a.len()
        invariant
            a@.len() == b@.len(),
            forall|j: int| 0 <= j < i ==> a@[j] == b@[j],
    {
        if a[i] != b[i] {
            return false;
        }
    }
    proof {
        assert(a@ =~= b@);
    }
    true
}

/// Whether a string holds exactly the characters of a literal.
pub fn str_eq_lit(a: &String, lit: &str) -> (r: bool)
    ensures
        r == (a@ == lit@),
{
    let va = str_to_chars(a.as_str());
    let vb = str_to_chars(lit);
    chars_eq(&va, &vb)
}

/// Whether two strings hold the same characters.
pub fn str_eq(a: &String, b: &String) -> (r: bool)
    ensures
        r == (a@ == b@),
{
    a.eq(b)
}

/// Removes every carriage-return character, keeping the rest in order.
pub open spec fn spec_strip_cr(s: Seq<char>) -> Seq<char> {
    s.filter(|c: char| c != '\r')
}

/// Removes every carriage-return character.
pub fn strip_cr(s: &Vec<char>) -> (r: Vec<char>)
    ensures
        r@ == spec_strip_cr(s@),
{
    let mut r: Vec<char> = Vec::new();
    for i in 0..s.len()
        invariant
            r@ == spec_strip_cr(s@.take(i as int)),
    {
        proof {
            reveal_with_fuel(Seq::filter, 2);
            assert(s@.take(i + 1).drop_last() =~= s@.take(i as int));
            assert(s@.take(i + 1).last() == s@[i as int]);
        }
        if s[i] != '\r' {
            r.push(s[i]);
        }
    }
    proof {
        assert(s@.take(s@.len() as int) =~= s@);
    }
    r
}

} // verus!

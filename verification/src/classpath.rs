//! The APEXes that a class path names.
//!
//! A class path is a list of paths with a colon between any two. A path
//! below `/apex` names the APEX whose directory comes next in it.

use vstd::prelude::*;

verus! {

/// How far a position is from the point one past the end of a text of
/// `len` characters.
pub open spec fn left(len: nat, from: int) -> nat {
    if 0 <= from <= len {
        (len - from + 1) as nat
    } else {
        0
    }
}

/// The number of characters from `from` on that come before the next `sep`,
/// or before the end where no `sep` follows.
pub open spec fn run_len(text: Seq<char>, sep: char, from: int) -> nat
    decreases left(text.len(), from),
{
    if from < 0 || from >= text.len() || text[from] == sep {
        0
    } else {
        1 + run_len(text, sep, from + 1)
    }
}

/// Whether a piece between two separators is no component of a path: it is
/// empty, or a single dot.
pub open spec fn is_skipped(piece: Seq<char>) -> bool {
    piece.len() == 0 || piece == seq!['.']
}

/// The components of the part of an absolute path that starts at `from`:
/// the pieces between separators, without those that are empty or a single
/// dot.
pub open spec fn components(path: Seq<char>, from: int) -> Seq<Seq<char>>
    decreases left(path.len(), from),
{
    if from < 0 || from >= path.len() {
        Seq::empty()
    } else {
        let end = from + run_len(path, '/', from);
        let piece = path.subrange(from, end);
        let rest = components(path, end + 1);
        if is_skipped(piece) {
            rest
        } else {
            seq![piece] + rest
        }
    }
}

/// What a path says of an APEX. A path that is not absolute, or whose first
/// component is not `apex`, says nothing. Any other names the APEX of its
/// second component, or none where it has no second component.
pub open spec fn apex_of(path: Seq<char>) -> Option<Option<Seq<char>>> {
    let parts = components(path, 0);
    if path.len() > 0 && path[0] == '/' && parts.len() >= 1 && parts[0] == "apex"@ {
        if parts.len() >= 2 {
            Some(Some(parts[1]))
        } else {
            Some(None)
        }
    } else {
        None
    }
}

/// The paths of the part of a class path that starts at `from`: the pieces
/// between colons, the empty ones too.
pub open spec fn entries(classpath: Seq<char>, from: int) -> Seq<Seq<char>>
    decreases left(classpath.len(), from),
{
    if from < 0 || from > classpath.len() {
        Seq::empty()
    } else {
        let end = from + run_len(classpath, ':', from);
        seq![classpath.subrange(from, end)] + entries(classpath, end + 1)
    }
}

/// `names`, put before the names that follow, where there are any.
pub open spec fn prepend(names: Seq<Seq<char>>, following: Option<Seq<Seq<char>>>) -> Option<
    Seq<Seq<char>>,
> {
    match following {
        Some(rest) => Some(names + rest),
        None => None,
    }
}

/// The APEXes that the paths name, in the order of the paths; nothing where
/// one of the paths stops at `/apex`.
pub open spec fn names_of(paths: Seq<Seq<char>>) -> Option<Seq<Seq<char>>>
    decreases paths.len(),
{
    if paths.len() == 0 {
        Some(Seq::empty())
    } else {
        match apex_of(paths[0]) {
            None => names_of(paths.drop_first()),
            Some(None) => None,
            Some(Some(name)) => prepend(seq![name], names_of(paths.drop_first())),
        }
    }
}

/// The APEXes that a class path names.
pub open spec fn apex_names_in(classpath: Seq<char>) -> Option<Seq<Seq<char>>> {
    names_of(entries(classpath, 0))
}

/// The texts of strings.
pub open spec fn texts(names: Seq<String>) -> Seq<Seq<char>> {
    Seq::new(names.len(), |i: int| names[i]@)
}

/// The position of the next `sep` at or after `from`, or the end.
fn run_end(text: &str, len: usize, sep: char, from: usize) -> (end: usize)
    requires
        len == text@.len(),
        from <= len,
    ensures
        end == from + run_len(text@, sep, from as int),
        from <= end <= len,
{
    let mut end: usize = from;
    while end < len && text.get_char(end) != sep
        invariant
            from <= end <= len,
            len == text@.len(),
            run_len(text@, sep, from as int) == (end - from) + run_len(text@, sep, end as int),
        decreases len - end,
    {
        end = end + 1;
    }
    end
}

/// The bounds of the first component of `path` at or after `from`.
fn next_component(path: &str, len: usize, from: usize) -> (found: Option<(usize, usize)>)
    requires
        len == path@.len(),
        from <= len,
    ensures
        match found {
            Some((start, end)) => {
                &&& from <= start < end <= len
                &&& components(path@, from as int) == seq![
                    path@.subrange(start as int, end as int),
                ] + components(path@, end + 1)
            },
            None => components(path@, from as int) == Seq::<Seq<char>>::empty(),
        },
{
    let mut start: usize = from;
    while start < len
        invariant
            from <= start <= len,
            len == path@.len(),
            components(path@, from as int) == components(path@, start as int),
        decreases len - start,
    {
        let end = run_end(path, len, '/', start);
        let ghost piece = path@.subrange(start as int, end as int);
        if end > start {
            let first = path.get_char(start);
            assert(piece[0] == first);
            if end > start + 1 || first != '.' {
                assert(seq!['.'].len() == 1 && seq!['.'][0] == '.');
                assert(!is_skipped(piece));
                return Some((start, end));
            }
            assert(piece =~= seq!['.']);
        }
        if end == len {
            assert(components(path@, end + 1) == Seq::<Seq<char>>::empty());
            return None;
        }
        start = end + 1;
    }
    None
}

/// What `path` says of an APEX.
pub fn apex_name_of(path: &str) -> (name: Option<Option<String>>)
    ensures
        match apex_of(path@) {
            Some(Some(apex)) => name matches Some(Some(found)) && found@ == apex,
            Some(None) => name matches Some(None),
            None => name is None,
        },
{
    let len = path.unicode_len();
    if len == 0 {
        return None;
    }
    if path.get_char(0) != '/' {
        return None;
    }
    let Some((start, end)) = next_component(path, len, 0) else {
        return None;
    };
    let first = String::from_str(path.substring_char(start, end));
    if !(first == String::from_str("apex")) {
        return None;
    }
    if end == len {
        assert(components(path@, end + 1) == Seq::<Seq<char>>::empty());
        return Some(None);
    }
    match next_component(path, len, end + 1) {
        Some((start, end)) => Some(Some(String::from_str(path.substring_char(start, end)))),
        None => Some(None),
    }
}

/// The APEXes that a class path names, in the order of its paths. Nothing
/// comes back where one of the paths stops at `/apex`.
pub fn find_apex_names_in_classpath(classpath: &str) -> (names: Option<Vec<String>>)
    ensures
        match apex_names_in(classpath@) {
            Some(expected) => names matches Some(found) && texts(found@) == expected,
            None => names is None,
        },
{
    let len = classpath.unicode_len();
    let mut names: Vec<String> = Vec::new();
    let mut from: usize = 0;
    loop
        invariant
            from <= len,
            len == classpath@.len(),
            apex_names_in(classpath@) == prepend(
                texts(names@),
                names_of(entries(classpath@, from as int)),
            ),
        decreases len - from,
    {
        let end = run_end(classpath, len, ':', from);
        let entry = classpath.substring_char(from, end);
        proof {
            let all = entries(classpath@, from as int);
            assert(all.drop_first() =~= entries(classpath@, end + 1));
            assert(all[0] == entry@);
        }
        match apex_name_of(entry) {
            None => {},
            Some(None) => {
                return None;
            },
            Some(Some(name)) => {
                let ghost before = texts(names@);
                names.push(name);
                proof {
                    let rest = names_of(entries(classpath@, end + 1));
                    assert(texts(names@) =~= before + seq![name@]);
                    if rest is Some {
                        assert(before + (seq![name@] + rest.unwrap()) =~= texts(names@)
                            + rest.unwrap());
                    }
                }
            },
        }
        if end == len {
            proof {
                assert(entries(classpath@, end + 1) == Seq::<Seq<char>>::empty());
                assert(texts(names@) + Seq::<Seq<char>>::empty() =~= texts(names@));
            }
            return Some(names);
        }
        from = end + 1;
    }
}

} // verus!

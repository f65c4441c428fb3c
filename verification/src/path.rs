//! File names, extensions and the kind of module that a path names.
//!
//! A path is read as a run of components parted by `\` or `/`. Its file name
//! is the last component that is neither empty nor `.`; a path that ends in
//! `..` has none. The extension is what follows the last dot of the file
//! name, unless that dot opens the name. A drive or share in front of the
//! path is not told apart from a name.

use crate::text::chars_of;
use vstd::prelude::*;

verus! {

/// What a loaded image is, going by the extension of its path.
#[derive(Clone, Copy, Debug, PartialEq, Eq, Structural)]
pub enum ModuleKind {
    /// The extension is exactly `dll`.
    Library,
    /// The extension is exactly `exe`.
    Executable,
    /// Any other extension, or none.
    Other,
}

/// A character that parts two components of a path.
pub open spec fn is_separator(c: char) -> bool {
    c == '\\' || c == '/'
}

/// Where the last component begins: behind the last separator, or at the
/// front of a path that has none.
pub open spec fn component_start(path: Seq<char>) -> int
    decreases path.len(),
{
    if path.len() == 0 || is_separator(path.last()) {
        path.len() as int
    } else {
        component_start(path.drop_last())
    }
}

/// The component is the single dot that stands for the directory itself.
pub open spec fn is_current_dir(component: Seq<char>) -> bool {
    component.len() == 1 && component[0] == '.'
}

/// The component is the double dot that stands for the parent directory.
pub open spec fn is_parent_dir(component: Seq<char>) -> bool {
    component.len() == 2 && component[0] == '.' && component[1] == '.'
}

/// The file name of a path, if it has one.
pub open spec fn spec_file_name(path: Seq<char>) -> Option<Seq<char>>
    decreases path.len(),
{
    let start = component_start(path);
    let component = path.skip(start);
    if component.len() == 0 || is_current_dir(component) {
        if 0 < start <= path.len() {
            spec_file_name(path.take(start - 1))
        } else {
            None
        }
    } else if is_parent_dir(component) {
        None
    } else {
        Some(component)
    }
}

/// Position of the last dot of a name, or -1 where it has none.
pub open spec fn last_dot(name: Seq<char>) -> int
    decreases name.len(),
{
    if name.len() == 0 {
        -1
    } else if name.last() == '.' {
        name.len() - 1
    } else {
        last_dot(name.drop_last())
    }
}

/// The extension of a file name: what follows its last dot, unless the name
/// has no dot or only the one that opens it.
pub open spec fn name_extension(name: Seq<char>) -> Option<Seq<char>> {
    if last_dot(name) <= 0 {
        None
    } else {
        Some(name.skip(last_dot(name) + 1))
    }
}

/// The extension of a path: that of its file name.
pub open spec fn spec_extension(path: Seq<char>) -> Option<Seq<char>> {
    match spec_file_name(path) {
        Some(name) => name_extension(name),
        None => None,
    }
}

/// The extension of a library.
pub open spec fn library_extension() -> Seq<char> {
    seq!['d', 'l', 'l']
}

/// The extension of an executable.
pub open spec fn executable_extension() -> Seq<char> {
    seq!['e', 'x', 'e']
}

/// The kind of module that a path names. Letter case counts.
pub open spec fn kind_of(path: Seq<char>) -> ModuleKind {
    if spec_extension(path) == Some(library_extension()) {
        ModuleKind::Library
    } else if spec_extension(path) == Some(executable_extension()) {
        ModuleKind::Executable
    } else {
        ModuleKind::Other
    }
}

/// `component_start` lies inside the path, no separator follows it, and one
/// stands right in front of it unless it is the front of the path.
pub proof fn lemma_component_start(path: Seq<char>)
    ensures
        0 <= component_start(path) <= path.len(),
        forall|i: int| component_start(path) <= i < path.len() ==> !is_separator(path[i]),
        component_start(path) > 0 ==> is_separator(path[component_start(path) - 1]),
    decreases path.len(),
{
    if path.len() == 0 || is_separator(path.last()) {
    } else {
        let front = path.drop_last();
        lemma_component_start(front);
        assert forall|i: int| component_start(path) <= i < path.len() implies !is_separator(
            path[i],
        ) by {
            if i < front.len() {
                assert(path[i] == front[i]);
            }
        }
        if component_start(path) > 0 {
            assert(front[component_start(path) - 1] == path[component_start(path) - 1]);
        }
    }
}

/// A position that no separator follows, and that a separator precedes
/// unless it is the front of the path, is `component_start`.
pub proof fn lemma_component_start_found(path: Seq<char>, start: int)
    requires
        0 <= start <= path.len(),
        forall|i: int| start <= i < path.len() ==> !is_separator(path[i]),
        start > 0 ==> is_separator(path[start - 1]),
    ensures
        component_start(path) == start,
{
    lemma_component_start(path);
    let found = component_start(path);
    if found < start {
        assert(!is_separator(path[start - 1]));
    } else if found > start {
        assert(is_separator(path[found - 1]));
    }
}

/// `last_dot` is -1 or the position of a dot that no dot follows.
pub proof fn lemma_last_dot(name: Seq<char>)
    ensures
        -1 <= last_dot(name) < name.len(),
        last_dot(name) >= 0 ==> name[last_dot(name)] == '.',
        forall|i: int| last_dot(name) < i < name.len() ==> name[i] != '.',
    decreases name.len(),
{
    if name.len() == 0 || name.last() == '.' {
    } else {
        let front = name.drop_last();
        lemma_last_dot(front);
        assert forall|i: int| last_dot(name) < i < name.len() implies name[i] != '.' by {
            if i < front.len() {
                assert(name[i] == front[i]);
            }
        }
        if last_dot(name) >= 0 {
            assert(front[last_dot(name)] == name[last_dot(name)]);
        }
    }
}

/// A dot that no dot follows stands at `last_dot`, and so does -1 where the
/// name has no dot.
pub proof fn lemma_last_dot_found(name: Seq<char>, dot: int)
    requires
        -1 <= dot < name.len(),
        dot >= 0 ==> name[dot] == '.',
        forall|i: int| dot < i < name.len() ==> name[i] != '.',
    ensures
        last_dot(name) == dot,
{
    lemma_last_dot(name);
    let found = last_dot(name);
    if found < dot {
        assert(name[dot] != '.');
    } else if found > dot {
        assert(name[found] != '.');
    }
}

/// The two extensions that are told apart, letter by letter.
pub proof fn lemma_extension_letters()
    ensures
        library_extension().len() == 3,
        library_extension()[0] == 'd',
        library_extension()[1] == 'l',
        library_extension()[2] == 'l',
        executable_extension().len() == 3,
        executable_extension()[0] == 'e',
        executable_extension()[1] == 'x',
        executable_extension()[2] == 'e',
        library_extension() != executable_extension(),
{
}

/// Bounds of the file name inside the path.
pub fn file_name_bounds(path: &[char]) -> (bounds: Option<(usize, usize)>)
    ensures
        match bounds {
            Some((start, end)) => start < end <= path.len() && spec_file_name(path@) == Some(
                path@.subrange(start as int, end as int),
            ),
            None => spec_file_name(path@) is None,
        },
{
    let mut end: usize = path.len();
    proof {
        assert(path@.take(end as int) =~= path@);
    }
    loop
        invariant
            end <= path.len(),
            spec_file_name(path@) == spec_file_name(path@.take(end as int)),
        decreases end,
    {
        let ghost front = path@.take(end as int);
        let mut start: usize = end;
        while start > 0 && path[start - 1] != '\\' && path[start - 1] != '/'
            invariant
                start <= end <= path.len(),
                front == path@.take(end as int),
                forall|i: int| start <= i < end ==> !is_separator(front[i]),
            decreases start,
        {
            start = start - 1;
        }
        proof {
            lemma_component_start_found(front, start as int);
            assert(front.skip(start as int) =~= path@.subrange(start as int, end as int));
        }
        let len = end - start;
        if len == 0 || (len == 1 && path[start] == '.') {
            if start == 0 {
                return None;
            }
            proof {
                assert(front.take(start - 1) =~= path@.take(start - 1));
            }
            end = start - 1;
        } else if len == 2 && path[start] == '.' && path[start + 1] == '.' {
            return None;
        } else {
            return Some((start, end));
        }
    }
}

/// Bounds of the extension inside the path.
pub fn extension_bounds(path: &[char]) -> (bounds: Option<(usize, usize)>)
    ensures
        match bounds {
            Some((start, end)) => start <= end <= path.len() && spec_extension(path@) == Some(
                path@.subrange(start as int, end as int),
            ),
            None => spec_extension(path@) is None,
        },
{
    match file_name_bounds(path) {
        None => None,
        Some((start, end)) => {
            let ghost name = path@.subrange(start as int, end as int);
            let mut dot: usize = end;
            while dot > start && path[dot - 1] != '.'
                invariant
                    start <= dot <= end <= path.len(),
                    name == path@.subrange(start as int, end as int),
                    forall|i: int| dot - start <= i < name.len() ==> name[i] != '.',
                decreases dot,
            {
                dot = dot - 1;
            }
            proof {
                lemma_last_dot_found(name, dot - start - 1);
            }
            if dot <= start + 1 {
                None
            } else {
                proof {
                    assert(name.skip(dot - start) =~= path@.subrange(dot as int, end as int));
                }
                Some((dot, end))
            }
        },
    }
}

/// The extension of a path, if it has one.
pub fn extension(path: &str) -> (found: Option<String>)
    ensures
        match found {
            Some(text) => spec_extension(path@) == Some(text@),
            None => spec_extension(path@) is None,
        },
{
    let chars = chars_of(path);
    match extension_bounds(chars.as_slice()) {
        None => None,
        Some((start, end)) => {
            let mut text = String::new();
            let mut i: usize = start;
            while i < end
                invariant
                    start <= i <= end <= chars.len(),
                    text@ == chars@.subrange(start as int, i as int),
                decreases end - i,
            {
                text.push(chars[i]);
                proof {
                    assert(chars@.subrange(start as int, i as int).push(chars@[i as int])
                        =~= chars@.subrange(start as int, i + 1));
                }
                i = i + 1;
            }
            Some(text)
        },
    }
}

/// The kind of module that a path names.
pub fn classify(path: &str) -> (kind: ModuleKind)
    ensures
        kind == kind_of(path@),
{
    let chars = chars_of(path);
    match extension_bounds(chars.as_slice()) {
        None => ModuleKind::Other,
        Some((start, end)) => {
            let ghost ext = chars@.subrange(start as int, end as int);
            proof {
                lemma_extension_letters();
            }
            if end - start != 3 {
                ModuleKind::Other
            } else if chars[start] == 'd' && chars[start + 1] == 'l' && chars[start + 2] == 'l' {
                proof {
                    assert(ext =~= library_extension());
                }
                ModuleKind::Library
            } else if chars[start] == 'e' && chars[start + 1] == 'x' && chars[start + 2] == 'e' {
                proof {
                    assert(ext =~= executable_extension());
                }
                ModuleKind::Executable
            } else {
                proof {
                    assert(ext[0] == chars[start as int]);
                    assert(ext[1] == chars[start + 1]);
                    assert(ext[2] == chars[start + 2]);
                }
                ModuleKind::Other
            }
        },
    }
}

} // verus!

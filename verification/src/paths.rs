//! Paths of filesystem entries, held as text with `/` between components.
//!
//! An entry's *name* is the last component of its path. A name may carry
//! several dotted extensions (`door.tar.xz.aes`); the part before the first
//! dot that is not the name's first character is the *stem*, the part after
//! it the *extensions*.
use vstd::prelude::*;
use crate::text::{concat_text, slice_text};

verus! {

/// The separator between the components of a path.
pub open spec fn separator() -> char {
    '/'
}

/// Length of `path` without the separators it ends in.
pub open spec fn spec_trimmed_len(path: Seq<char>) -> int
    decreases path.len(),
{
    if path.len() > 0 && path.last() == separator() {
        spec_trimmed_len(path.drop_last())
    } else {
        path.len() as int
    }
}

/// Index at which the last component of `path[..end]` starts: just behind
/// the last separator before `end`, or 0 where there is none.
pub open spec fn spec_component_start(path: Seq<char>, end: int) -> int
    decreases end,
{
    if end <= 0 || end > path.len() {
        0
    } else if path[end - 1] == separator() {
        end
    } else {
        spec_component_start(path, end - 1)
    }
}

/// The last component of `path`, without the separators that follow it.
pub open spec fn spec_last_component(path: Seq<char>) -> Seq<char> {
    let end = spec_trimmed_len(path);
    path.subrange(spec_component_start(path, end), end)
}

/// Whether `name` is one of the two navigation components `.` and `..`.
pub open spec fn spec_is_navigation(name: Seq<char>) -> bool {
    name =~= seq!['.'] || name =~= seq!['.', '.']
}

/// The name of the entry that `path` leads to: its last component, unless
/// the path is empty, is made of separators only, or ends in `.` or `..`.
pub open spec fn spec_file_name(path: Seq<char>) -> Option<Seq<char>> {
    let name = spec_last_component(path);
    if name.len() == 0 || spec_is_navigation(name) {
        None
    } else {
        Some(name)
    }
}

/// Length of the stem of `name`, looking at the characters from `from` on:
/// the index of the first dot at `from` or later, or the length of `name`.
pub open spec fn spec_dot_from(name: Seq<char>, from: int) -> int
    decreases name.len() - from,
{
    if from < 0 || from >= name.len() {
        name.len() as int
    } else if name[from] == '.' {
        from
    } else {
        spec_dot_from(name, from + 1)
    }
}

/// Length of the stem of `name`: the index of the first dot that is not the
/// first character of `name`, or the length of `name` where there is none.
pub open spec fn spec_stem_len(name: Seq<char>) -> int {
    spec_dot_from(name, 1)
}

/// The stem of an entry name: the name without its extensions.
pub open spec fn spec_name_stem(name: Seq<char>) -> Seq<char> {
    name.subrange(0, spec_stem_len(name))
}

/// The extensions of an entry name, joined by dots as they stand in the
/// name; `None` where the name has none.
pub open spec fn spec_name_extensions(name: Seq<char>) -> Option<Seq<char>> {
    let stem = spec_stem_len(name);
    if stem < name.len() {
        Some(name.subrange(stem + 1, name.len() as int))
    } else {
        None
    }
}

/// The extensions of the entry that `path` leads to.
pub open spec fn spec_extensions(path: Seq<char>) -> Option<Seq<char>> {
    match spec_file_name(path) {
        Some(name) => spec_name_extensions(name),
        None => None,
    }
}

/// The stem of the entry that `path` leads to.
pub open spec fn spec_file_stem_no_extensions(path: Seq<char>) -> Option<Seq<char>> {
    match spec_file_name(path) {
        Some(name) => Some(spec_name_stem(name)),
        None => None,
    }
}

/// `path` cut behind the stem of its entry; `path` itself where it leads to
/// no entry.
pub open spec fn spec_no_extensions(path: Seq<char>) -> Seq<char> {
    match spec_file_name(path) {
        Some(name) => path.subrange(
            0,
            spec_component_start(path, spec_trimmed_len(path)) + spec_stem_len(name),
        ),
        None => path,
    }
}

/// `dir` followed by a separator (unless it ends in one or is empty) and
/// `name`.
pub open spec fn spec_join(dir: Seq<char>, name: Seq<char>) -> Seq<char> {
    if dir.len() == 0 || dir.last() == separator() {
        dir + name
    } else {
        dir + seq![separator()] + name
    }
}

/// The path of the directory that holds the entry `path` leads to: `path`
/// without its last component and the separators before it. `None` where
/// `path` has no component, or nothing stands before its last one.
pub open spec fn spec_parent(path: Seq<char>) -> Option<Seq<char>> {
    let end = spec_trimmed_len(path);
    let start = spec_component_start(path, end);
    if end == 0 {
        None
    } else if start == 0 {
        Some(Seq::empty())
    } else if spec_trimmed_len(path.subrange(0, start)) == 0 {
        Some(path.subrange(0, 1))
    } else {
        Some(path.subrange(0, spec_trimmed_len(path.subrange(0, start))))
    }
}

/// Whether an entry name is hidden, that is, starts with a dot.
pub open spec fn spec_is_hidden_name(name: Seq<char>) -> bool {
    name.len() > 0 && name[0] == '.'
}

/// Whether the entry that `path` leads to is hidden. A path that leads to no
/// entry (it ends in `..`, say) is not.
pub open spec fn spec_is_hidden(path: Seq<char>) -> bool {
    match spec_file_name(path) {
        Some(name) => spec_is_hidden_name(name),
        None => false,
    }
}

/// Where the separators at the end of a path begin, and that none stands
/// just before them.
pub proof fn lemma_trimmed_len(path: Seq<char>)
    ensures
        0 <= spec_trimmed_len(path) <= path.len(),
        spec_trimmed_len(path) > 0 ==> path[spec_trimmed_len(path) - 1] != separator(),
    decreases path.len(),
{
    if path.len() > 0 && path.last() == separator() {
        lemma_trimmed_len(path.drop_last());
    }
}

/// Where the last component before `end` starts: behind a separator or at
/// the start of the path, with no separator from there to `end`.
pub proof fn lemma_component_start(path: Seq<char>, end: int)
    requires
        0 <= end <= path.len(),
    ensures
        0 <= spec_component_start(path, end) <= end,
        spec_component_start(path, end) > 0 ==> path[spec_component_start(path, end) - 1]
            == separator(),
        forall|i: int| spec_component_start(path, end) <= i < end ==> path[i] != separator(),
    decreases end,
{
    if end > 0 && path[end - 1] != separator() {
        lemma_component_start(path, end - 1);
    }
}

/// A stretch without separators that begins behind a separator, or at the
/// start of the path, is the last component before its end.
pub proof fn lemma_component_found(path: Seq<char>, start: int, end: int)
    requires
        0 <= start <= end <= path.len(),
        start > 0 ==> path[start - 1] == separator(),
        forall|i: int| start <= i < end ==> path[i] != separator(),
    ensures
        spec_component_start(path, end) == start,
    decreases end - start,
{
    if start < end {
        lemma_component_found(path, start, end - 1);
    }
}

/// Where the first dot from `from` on stands, and that none stands between.
pub proof fn lemma_dot_from(name: Seq<char>, from: int)
    requires
        0 <= from <= name.len(),
    ensures
        from <= spec_dot_from(name, from) <= name.len(),
        spec_dot_from(name, from) < name.len() ==> name[spec_dot_from(name, from)] == '.',
        forall|i: int| from <= i < spec_dot_from(name, from) ==> name[i] != '.',
    decreases name.len() - from,
{
    if from < name.len() && name[from] != '.' {
        lemma_dot_from(name, from + 1);
    }
}

/// A name without a dot from `from` on has its first such dot at its end.
pub proof fn lemma_no_dot_from(name: Seq<char>, from: int)
    requires
        0 <= from,
        forall|i: int| from <= i < name.len() ==> name[i] != '.',
    ensures
        spec_dot_from(name, from) == name.len(),
    decreases name.len() - from,
{
    if from < name.len() {
        lemma_no_dot_from(name, from + 1);
    }
}

/// Number of characters of `path` before the separators it ends in.
fn trimmed_len(path: &str) -> (end: usize)
    ensures
        end == spec_trimmed_len(path@),
        end <= path@.len(),
{
    let mut end: usize = path.unicode_len();
    proof {
        assert(path@.subrange(0, end as int) =~= path@);
    }
    while end > 0 && path.get_char(end - 1) == '/'
        invariant
            end <= path@.len(),
            spec_trimmed_len(path@) == spec_trimmed_len(path@.subrange(0, end as int)),
        decreases end,
    {
        proof {
            let prefix = path@.subrange(0, end as int);
            assert(prefix.last() == separator());
            assert(prefix.drop_last() =~= path@.subrange(0, end - 1));
        }
        end = end - 1;
    }
    proof {
        let prefix = path@.subrange(0, end as int);
        assert(end > 0 ==> prefix.last() == path@[end - 1]);
    }
    end
}

/// Index at which the last component of the first `end` characters starts.
fn component_start(path: &str, end: usize) -> (start: usize)
    requires
        end <= path@.len(),
    ensures
        start == spec_component_start(path@, end as int),
        start <= end,
{
    let mut start: usize = end;
    while start > 0 && path.get_char(start - 1) != '/'
        invariant
            start <= end <= path@.len(),
            spec_component_start(path@, end as int) == spec_component_start(path@, start as int),
        decreases start,
    {
        start = start - 1;
    }
    start
}

/// Index of the first dot of `name` that is not its first character.
fn stem_len(name: &str) -> (stem: usize)
    ensures
        stem == spec_stem_len(name@),
        stem <= name@.len(),
{
    let len: usize = name.unicode_len();
    let mut at: usize = 1;
    if len <= 1 {
        return len;
    }
    while at < len && name.get_char(at) != '.'
        invariant
            1 <= at <= len,
            len == name@.len(),
            spec_dot_from(name@, 1) == spec_dot_from(name@, at as int),
        decreases len - at,
    {
        at = at + 1;
    }
    at
}

/// Tells whether `name` is `.` or `..`.
fn is_navigation(name: &str) -> (navigation: bool)
    ensures
        navigation == spec_is_navigation(name@),
{
    let len: usize = name.unicode_len();
    if len == 1 {
        let first = name.get_char(0);
        proof {
            if first == '.' {
                assert(name@ =~= seq!['.']);
            } else {
                assert(seq!['.'][0] == '.');
            }
        }
        first == '.'
    } else if len == 2 {
        let first = name.get_char(0);
        let second = name.get_char(1);
        proof {
            if first == '.' && second == '.' {
                assert(name@ =~= seq!['.', '.']);
            } else {
                assert(seq!['.', '.'][0] == '.');
                assert(seq!['.', '.'][1] == '.');
            }
        }
        first == '.' && second == '.'
    } else {
        proof {
            assert(seq!['.'].len() == 1);
            assert(seq!['.', '.'].len() == 2);
        }
        false
    }
}

/// The name of the entry that `path` leads to.
pub fn file_name(path: &str) -> (name: Option<String>)
    ensures
        match name {
            Some(text) => spec_file_name(path@) == Some(text@),
            None => spec_file_name(path@).is_none(),
        },
{
    let end = trimmed_len(path);
    let start = component_start(path, end);
    let name = slice_text(path, start, end);
    if start == end || is_navigation(name.as_str()) {
        None
    } else {
        Some(name)
    }
}

/// The extensions of an entry name, joined by dots.
pub fn name_extensions(name: &str) -> (extensions: Option<String>)
    ensures
        match extensions {
            Some(text) => spec_name_extensions(name@) == Some(text@),
            None => spec_name_extensions(name@).is_none(),
        },
{
    let stem = stem_len(name);
    let len: usize = name.unicode_len();
    if stem < len {
        Some(slice_text(name, stem + 1, len))
    } else {
        None
    }
}

/// The extensions of the entry that `path` leads to, joined by dots; `None`
/// where the path leads to no entry or the entry's name has no extension.
pub fn extensions(path: &str) -> (extensions: Option<String>)
    ensures
        match extensions {
            Some(text) => spec_extensions(path@) == Some(text@),
            None => spec_extensions(path@).is_none(),
        },
{
    match file_name(path) {
        Some(name) => name_extensions(name.as_str()),
        None => None,
    }
}

/// The name of the entry that `path` leads to, without its extensions.
pub fn file_stem_no_extensions(path: &str) -> (stem: Option<String>)
    ensures
        match stem {
            Some(text) => spec_file_stem_no_extensions(path@) == Some(text@),
            None => spec_file_stem_no_extensions(path@).is_none(),
        },
{
    match file_name(path) {
        Some(name) => {
            let stem = stem_len(name.as_str());
            Some(slice_text(name.as_str(), 0, stem))
        },
        None => None,
    }
}

/// `path` with the extensions of its entry, and all that follows them, cut
/// off.
pub fn no_extensions(path: &str) -> (stripped: String)
    ensures
        stripped@ == spec_no_extensions(path@),
{
    match file_name(path) {
        Some(name) => {
            let end = trimmed_len(path);
            let start = component_start(path, end);
            let stem = stem_len(name.as_str());
            slice_text(path, 0, start + stem)
        },
        None => {
            let len: usize = path.unicode_len();
            proof {
                assert(path@.subrange(0, len as int) =~= path@);
            }
            slice_text(path, 0, len)
        },
    }
}

/// The path of `name` inside the directory `dir`.
pub fn join(dir: &str, name: &str) -> (joined: String)
    ensures
        joined@ == spec_join(dir@, name@),
{
    let len: usize = dir.unicode_len();
    if len == 0 || dir.get_char(len - 1) == '/' {
        concat_text(dir, name)
    } else {
        let mut joined = concat_text(dir, "/");
        proof {
            reveal_strlit("/");
            assert("/"@ =~= seq![separator()]);
        }
        joined.append(name);
        joined
    }
}

/// The path of the directory that holds the entry `path` leads to.
pub fn parent(path: &str) -> (dir: Option<String>)
    ensures
        match dir {
            Some(text) => spec_parent(path@) == Some(text@),
            None => spec_parent(path@).is_none(),
        },
{
    let end = trimmed_len(path);
    let start = component_start(path, end);
    if end == 0 {
        None
    } else if start == 0 {
        let empty = String::new();
        Some(empty)
    } else {
        let head = slice_text(path, 0, start);
        let head_end = trimmed_len(head.as_str());
        if head_end == 0 {
            Some(slice_text(path, 0, 1))
        } else {
            Some(slice_text(path, 0, head_end))
        }
    }
}

/// Tells whether the entry that `path` leads to is hidden.
pub fn is_hidden(path: &str) -> (hidden: bool)
    ensures
        hidden == spec_is_hidden(path@),
{
    match file_name(path) {
        Some(name) => {
            name.as_str().unicode_len() > 0 && name.as_str().get_char(0) == '.'
        },
        None => false,
    }
}

} // verus!

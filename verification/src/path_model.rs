//! A textual model of filesystem paths.
//!
//! A path is the sequence of characters of its string form, with `/`
//! separating components. The model covers exactly what the watcher reads
//! from a path: its file-name component (the part after the last separator),
//! the extension of that component (the part after its last dot, provided
//! the dot is not the component's first character), the parent path, and
//! appending one component.

use vstd::prelude::*;
use vstd::string::StrSliceExecFns;
use vstd::string::StringExecFns;

verus! {

/// The character sequences of a sequence of strings.
pub open spec fn views_of(ss: Seq<String>) -> Seq<Seq<char>> {
    ss.map_values(|s: String| s@)
}

/// The index of the last occurrence of `c` in `s`, or `-1` if `c` does not
/// occur in `s`.
pub open spec fn last_pos_of(s: Seq<char>, c: char) -> int
    decreases s.len(),
{
    if s.len() == 0 {
        -1
    } else if s.last() == c {
        s.len() - 1
    } else {
        last_pos_of(s.drop_last(), c)
    }
}

/// `last_pos_of` points at an occurrence of `c` and nothing after it is `c`.
pub proof fn lemma_last_pos_of(s: Seq<char>, c: char)
    ensures
        -1 <= last_pos_of(s, c) < s.len(),
        last_pos_of(s, c) >= 0 ==> s[last_pos_of(s, c)] == c,
        forall|j: int| last_pos_of(s, c) < j < s.len() ==> s[j] != c,
    decreases s.len(),
{
    if s.len() > 0 && s.last() != c {
        lemma_last_pos_of(s.drop_last(), c);
        assert forall|j: int| last_pos_of(s, c) < j < s.len() implies s[j] != c by {
            if j < s.len() - 1 {
                assert(s[j] == s.drop_last()[j]);
            }
        }
    }
}

/// Finds the last occurrence of `c` in `s`.
pub fn rfind_char(s: &str, c: char) -> (r: Option<usize>)
    ensures
        match r {
            Some(i) => last_pos_of(s@, c) == i,
            None => last_pos_of(s@, c) == -1,
        },
{
    let n = s.unicode_len();
    let mut i = n;
    while i > 0
        invariant
            i <= n,
            n == s@.len(),
            forall|j: int| i <= j < n ==> s@[j] != c,
        decreases i,
    {
        if s.get_char(i - 1) == c {
            proof {
                lemma_last_pos_of(s@, c);
            }
            return Some(i - 1);
        }
        i = i - 1;
    }
    proof {
        lemma_last_pos_of(s@, c);
    }
    None
}

/// Whether two string slices hold the same characters.
pub fn str_eq(a: &str, b: &str) -> (r: bool)
    ensures
        r == (a@ == b@),
{
    let na = a.unicode_len();
    let nb = b.unicode_len();
    if na != nb {
        return false;
    }
    let mut i: usize = 0;
    while i < na
        invariant
            i <= na,
            na == a@.len(),
            na == b@.len(),
            forall|j: int| 0 <= j < i ==> a@[j] == b@[j],
        decreases na - i,
    {
        if a.get_char(i) != b.get_char(i) {
            return false;
        }
        i = i + 1;
    }
    proof {
        assert(a@ =~= b@);
    }
    true
}

/// The file-name component of a path: everything after the last separator,
/// or the whole path when it holds no separator; a path that ends in a
/// separator, and the empty path, have none.
pub open spec fn file_name_spec(p: Seq<char>) -> Option<Seq<char>> {
    let k = last_pos_of(p, '/');
    if k + 1 == p.len() {
        None
    } else {
        Some(p.subrange(k + 1, p.len() as int))
    }
}

/// Extracts the file-name component of a path.
pub fn file_name_of(p: &str) -> (r: Option<String>)
    ensures
        match r {
            Some(n) => file_name_spec(p@) == Some(n@),
            None => file_name_spec(p@) is None,
        },
{
    proof {
        lemma_last_pos_of(p@, '/');
    }
    let n = p.unicode_len();
    let start = match rfind_char(p, '/') {
        None => 0,
        Some(k) => k + 1,
    };
    if start == n {
        None
    } else {
        Some(p.substring_char(start, n).to_owned())
    }
}

/// The extension of a file-name component: everything after its last dot,
/// provided the dot is neither absent nor the component's first character.
pub open spec fn name_extension_spec(name: Seq<char>) -> Option<Seq<char>> {
    let d = last_pos_of(name, '.');
    if d <= 0 {
        None
    } else {
        Some(name.subrange(d + 1, name.len() as int))
    }
}

/// The extension of a path's file-name component, if both exist.
pub open spec fn extension_spec(p: Seq<char>) -> Option<Seq<char>> {
    match file_name_spec(p) {
        None => None,
        Some(name) => name_extension_spec(name),
    }
}

/// Whether a path names a reloadable source file: its extension is `zig`.
pub open spec fn is_zig_path(p: Seq<char>) -> bool {
    extension_spec(p) == Some("zig"@)
}

/// Decides `is_zig_path` for a path given as a string.
pub fn has_zig_extension(p: &str) -> (r: bool)
    ensures
        r == is_zig_path(p@),
{
    let name = match file_name_of(p) {
        None => {
            return false;
        },
        Some(n) => n,
    };
    proof {
        lemma_last_pos_of(name@, '.');
    }
    let nlen = name.as_str().unicode_len();
    match rfind_char(name.as_str(), '.') {
        None => false,
        Some(d) => {
            if d == 0 {
                false
            } else {
                let ext = name.as_str().substring_char(d + 1, nlen);
                str_eq(ext, "zig")
            }
        },
    }
}

/// The parent of a path: the part before the last separator, the lone root
/// separator when the last separator starts the path, and the empty path
/// when there is no separator at all.
pub open spec fn parent_spec(p: Seq<char>) -> Seq<char> {
    let k = last_pos_of(p, '/');
    if k < 0 {
        Seq::empty()
    } else if k == 0 {
        p.subrange(0, 1)
    } else {
        p.subrange(0, k)
    }
}

/// Ascends one directory level from a path.
pub fn parent_of(p: &str) -> (r: String)
    ensures
        r@ == parent_spec(p@),
{
    proof {
        lemma_last_pos_of(p@, '/');
    }
    match rfind_char(p, '/') {
        None => String::new(),
        Some(k) => {
            if k == 0 {
                p.substring_char(0, 1).to_owned()
            } else {
                p.substring_char(0, k).to_owned()
            }
        },
    }
}

/// A path with one more component appended: a separator is inserted unless
/// the path already ends in one or is empty.
pub open spec fn pushed(dir: Seq<char>, name: Seq<char>) -> Seq<char> {
    if dir.len() == 0 {
        name
    } else if dir.last() == '/' {
        dir + name
    } else {
        dir + seq!['/'] + name
    }
}

/// Appends one component to a path.
pub fn push_component(dir: &str, name: &str) -> (r: String)
    ensures
        r@ == pushed(dir@, name@),
{
    let n = dir.unicode_len();
    if n == 0 {
        return name.to_owned();
    }
    let mut out = dir.to_owned();
    if dir.get_char(n - 1) != '/' {
        out.append("/");
        proof {
            reveal_strlit("/");
            assert(out@ =~= dir@ + seq!['/']);
        }
    }
    out.append(name);
    proof {
        assert(out@ =~= pushed(dir@, name@));
    }
    out
}

} // verus!

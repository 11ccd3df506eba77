//! Choosing the client's files among those the server finds on disk. Paths
//! are Unix path strings, read the way `std::path::Path` reads them.

use vstd::prelude::*;
use vstd::string::*;

verus! {

/// The files that make up the browser client.
#[derive(Debug)]
pub struct ClientFiles {
    pub wasm: Vec<u8>,
    pub js: String,
    pub html: String,
    pub wasm_name: String,
    pub js_name: String,
}

/// The index just after the last `/` among the first `end` characters of
/// `p`, or 0 when there is none: where the component ending at `end` starts.
pub open spec fn segment_start(p: Seq<char>, end: int) -> int
    decreases end,
{
    if end <= 0 {
        0
    } else if p[end - 1] == '/' {
        end
    } else {
        segment_start(p, end - 1)
    }
}

/// Where a component starts lies within the text before it.
pub proof fn lemma_segment_start_bounds(p: Seq<char>, end: int)
    ensures
        0 <= segment_start(p, end),
        end >= 0 ==> segment_start(p, end) <= end,
        end > 0 && p[end - 1] != '/' ==> segment_start(p, end) < end,
    decreases end,
{
    if end > 0 && p[end - 1] != '/' {
        lemma_segment_start_bounds(p, end - 1);
    }
}

/// The last normal component among the first `end` characters of `p`, as
/// `Path::file_name` finds it: separators repeat freely, a trailing `/` and
/// `.` components are skipped, and a final `..` (or no component at all, as
/// in `/` or the empty path) gives `None`.
pub open spec fn component_before(p: Seq<char>, end: int) -> Option<Seq<char>>
    decreases end,
{
    if end <= 0 {
        None
    } else if p[end - 1] == '/' {
        component_before(p, end - 1)
    } else {
        let start = segment_start(p, end);
        let seg = p.subrange(start, end);
        if seg == seq!['.'] {
            proof {
                lemma_segment_start_bounds(p, end);
            }
            component_before(p, start)
        } else if seg == seq!['.', '.'] {
            None
        } else {
            Some(seg)
        }
    }
}

/// `Path::file_name` of the path text `p`.
pub open spec fn path_file_name(p: Seq<char>) -> Option<Seq<char>> {
    component_before(p, p.len() as int)
}

/// The index of the last `.` among the first `end` characters, or -1.
pub open spec fn last_dot(name: Seq<char>, end: int) -> int
    decreases end,
{
    if end <= 0 {
        -1
    } else if name[end - 1] == '.' {
        end - 1
    } else {
        last_dot(name, end - 1)
    }
}

/// The last dot lies within the text searched, and is a dot.
pub proof fn lemma_last_dot_bounds(name: Seq<char>, end: int)
    ensures
        -1 <= last_dot(name, end) < if end > 0 { end } else { 0 },
        last_dot(name, end) >= 0 ==> name[last_dot(name, end)] == '.',
    decreases end,
{
    if end > 0 && name[end - 1] != '.' {
        lemma_last_dot_bounds(name, end - 1);
    }
}

/// The extension of a file name, as `Path::extension` takes it: what follows
/// the last `.`, unless there is no `.` or the only one starts the name.
pub open spec fn name_extension(name: Seq<char>) -> Option<Seq<char>> {
    let k = last_dot(name, name.len() as int);
    if k <= 0 {
        None
    } else {
        Some(name.subrange(k + 1, name.len() as int))
    }
}

/// `Path::extension` of the path text `p`.
pub open spec fn path_extension(p: Seq<char>) -> Option<Seq<char>> {
    match path_file_name(p) {
        Some(name) => name_extension(name),
        None => None,
    }
}

/// Whether the path has exactly the extension `ext`.
pub open spec fn has_extension(p: Seq<char>, ext: Seq<char>) -> bool {
    path_extension(p) == Some(ext)
}

/// `name` is a file name with the extension `ext`: it ends with a `.`
/// followed by `ext`, `ext` holds no `.`, and that `.` does not start the
/// name.
pub open spec fn named_with_extension(name: Seq<char>, ext: Seq<char>) -> bool {
    &&& name.len() >= ext.len() + 2
    &&& name[name.len() - ext.len() - 1] == '.'
    &&& name.subrange(name.len() - ext.len(), name.len() as int) == ext
    &&& forall|i: int| 0 <= i < ext.len() ==> ext[i] != '.'
}

/// No `.` lies after the last one, and a `.` with none after it is the last.
proof fn lemma_last_dot_is_last(name: Seq<char>, end: int)
    requires
        0 <= end <= name.len(),
    ensures
        forall|j: int| last_dot(name, end) < j < end ==> name[j] != '.',
        forall|d: int|
            0 <= d < end && name[d] == '.' && (forall|j: int| d < j < end ==> name[j] != '.')
                ==> last_dot(name, end) == d,
    decreases end,
{
    if end > 0 {
        lemma_last_dot_is_last(name, end - 1);
    }
}

/// A path has the extension `ext` exactly when its file name ends with a
/// `.` and `ext`, with no `.` in `ext` and the `.` not starting the name.
pub proof fn lemma_extension_follows_last_dot(p: Seq<char>, ext: Seq<char>)
    ensures
        has_extension(p, ext) <==> (path_file_name(p) matches Some(name) && named_with_extension(
            name,
            ext,
        )),
{
    if let Some(name) = path_file_name(p) {
        let n = name.len() as int;
        lemma_last_dot_is_last(name, n);
        lemma_last_dot_bounds(name, n);
        let k = last_dot(name, n);
        if has_extension(p, ext) {
            assert(k > 0);
            assert(ext == name.subrange(k + 1, n));
            assert forall|i: int| 0 <= i < ext.len() implies ext[i] != '.' by {
                assert(ext[i] == name[k + 1 + i]);
            }
        }
        if named_with_extension(name, ext) {
            let d = n - ext.len() - 1;
            assert forall|j: int| d < j < n implies name[j] != '.' by {
                assert(name.subrange(n - ext.len(), n)[j - (n - ext.len())] == name[j]);
            }
            assert(k == d);
            assert(name_extension(name) == Some(ext));
        }
    }
}

/// The final component of a path, as `Path::file_name` gives it.
pub fn file_name(path: &str) -> (r: Option<String>)
    ensures
        match r {
            Some(s) => path_file_name(path@) == Some(s@),
            None => path_file_name(path@) is None,
        },
{
    let ghost p = path@;
    let n = path.unicode_len();
    let mut end: usize = n;
    loop
        invariant
            p == path@,
            n == p.len(),
            end <= n,
            component_before(p, end as int) == path_file_name(p),
        decreases end,
    {
        if end == 0 {
            return None;
        }
        if path.get_char(end - 1) == '/' {
            end = end - 1;
        } else {
            let mut start: usize = end;
            while start > 0 && path.get_char(start - 1) != '/'
                invariant
                    p == path@,
                    n == p.len(),
                    start <= end <= n,
                    end > 0,
                    segment_start(p, start as int) == segment_start(p, end as int),
                decreases start,
            {
                start = start - 1;
            }
            proof {
                lemma_segment_start_bounds(p, end as int);
            }
            assert(segment_start(p, end as int) == start);
            let len = end - start;
            let ghost seg = p.subrange(start as int, end as int);
            let c0 = path.get_char(start);
            let c1 = if len >= 2 { path.get_char(start + 1) } else { c0 };
            if len == 1 && c0 == '.' {
                assert(seg =~= seq!['.']);
                end = start;
            } else if len == 2 && c0 == '.' && c1 == '.' {
                assert(seg =~= seq!['.', '.']);
                return None;
            } else {
                assert(seg != seq!['.']) by {
                    if seg == seq!['.'] {
                        let d = seq!['.'];
                        assert(d.len() == 1 && d[0] == '.');
                        assert(seg.len() == 1 && seg[0] == p[start as int]);
                    }
                }
                assert(seg != seq!['.', '.']) by {
                    if seg == seq!['.', '.'] {
                        let dd = seq!['.', '.'];
                        assert(dd.len() == 2 && dd[0] == '.' && dd[1] == '.');
                        assert(len == 2);
                        assert(seg[0] == p[start as int] && seg[1] == p[start as int + 1]);
                    }
                }
                return Some(String::from_str(path.substring_char(start, end)));
            }
        }
    }
}

/// The extension of a path, as `Path::extension` gives it.
pub fn extension(path: &str) -> (r: Option<String>)
    ensures
        match r {
            Some(s) => path_extension(path@) == Some(s@),
            None => path_extension(path@) is None,
        },
{
    let name = match file_name(path) {
        Some(name) => name,
        None => return None,
    };
    let text = name.as_str();
    let ghost s = text@;
    let n = text.unicode_len();
    let mut end: usize = n;
    while end > 0 && text.get_char(end - 1) != '.'
        invariant
            s == text@,
            n == s.len(),
            end <= n,
            last_dot(s, end as int) == last_dot(s, n as int),
        decreases end,
    {
        end = end - 1;
    }
    if end <= 1 {
        proof {
            lemma_last_dot_bounds(s, end as int);
        }
        return None;
    }
    assert(last_dot(s, n as int) == end - 1);
    Some(String::from_str(text.substring_char(end, n)))
}

/// The first of the paths whose extension is `ext`.
pub fn find_with_extension<'a>(files: &'a [String], ext: &str) -> (r: Option<&'a String>)
    ensures
        match r {
            Some(f) => exists|i: int|
                0 <= i < files@.len() && f == files@[i] && has_extension(files@[i]@, ext@) && (
                forall|j: int| 0 <= j < i ==> !has_extension(#[trigger] files@[j]@, ext@)),
            None => forall|i: int|
                0 <= i < files@.len() ==> !has_extension(#[trigger] files@[i]@, ext@),
        },
        r matches Some(f) ==> (path_file_name(f@) matches Some(name) && named_with_extension(
            name,
            ext@,
        )),
        r is None ==> forall|i: int|
            0 <= i < files@.len() ==> !(path_file_name(#[trigger] files@[i]@) matches Some(name)
                && named_with_extension(name, ext@)),
{
    let wanted = String::from_str(ext);
    let mut i: usize = 0;
    while i < files.len()
        invariant
            i <= files@.len(),
            wanted@ == ext@,
            forall|j: int| 0 <= j < i ==> !has_extension(#[trigger] files@[j]@, ext@),
        decreases files@.len() - i,
    {
        let found = match extension(files[i].as_str()) {
            Some(e) => e == wanted,
            None => false,
        };
        if found {
            proof {
                lemma_extension_follows_last_dot(files@[i as int]@, ext@);
            }
            return Some(&files[i]);
        }
        i = i + 1;
    }
    proof {
        assert forall|j: int| 0 <= j < files@.len() implies !(path_file_name(
            #[trigger] files@[j]@,
        ) matches Some(name) && named_with_extension(name, ext@)) by {
            lemma_extension_follows_last_dot(files@[j]@, ext@);
        }
    }
    None
}

} // verus!

//! Paths as text: components separated by `/`, as on Unix.
use vstd::prelude::*;

verus! {

/// The index of the last occurrence of `c` in `s`, or -1.
pub open spec fn last_position(s: Seq<char>, c: char) -> int
    decreases s.len(),
{
    if s.len() == 0 {
        -1
    } else if s.last() == c {
        s.len() - 1
    } else {
        last_position(s.drop_last(), c)
    }
}

/// What follows the last `c` in `s`: all of `s` where `c` does not occur.
pub open spec fn after_last(s: Seq<char>, c: char) -> Seq<char> {
    s.skip(last_position(s, c) + 1)
}

/// `s` without the slashes that it starts with.
pub open spec fn without_leading_slashes(s: Seq<char>) -> Seq<char>
    decreases s.len(),
{
    if s.len() > 0 && s[0] == '/' {
        without_leading_slashes(s.drop_first())
    } else {
        s
    }
}

/// `tail` seen from the directory `base`. An absolute `tail` stands for itself; any other is
/// appended, behind a slash where `base` is not empty and does not end with one.
pub open spec fn joined(base: Seq<char>, tail: Seq<char>) -> Seq<char> {
    if tail.len() > 0 && tail[0] == '/' {
        tail
    } else if base.len() == 0 || base.last() == '/' {
        base + tail
    } else {
        base.push('/') + tail
    }
}

/// The path that a request for `uri_path` leads to from `root`.
pub open spec fn requested_path(root: Seq<char>, uri_path: Seq<char>) -> Seq<char> {
    joined(root, without_leading_slashes(uri_path))
}

/// The last component of `path` that is neither empty nor `.`, unless it is `..`.
pub open spec fn name_of(path: Seq<char>) -> Option<Seq<char>>
    decreases path.len(),
{
    if path.len() == 0 {
        None
    } else {
        let last = after_last(path, '/');
        if last.len() == 0 || last == seq!['.'] {
            name_of(path.drop_last())
        } else if last == seq!['.', '.'] {
            None
        } else {
            Some(last)
        }
    }
}

/// What follows the last dot of the file name. A dot that the name starts with does not
/// count.
pub open spec fn extension_of(path: Seq<char>) -> Option<Seq<char>> {
    match name_of(path) {
        Some(name) => if last_position(name, '.') > 0 {
            Some(after_last(name, '.'))
        } else {
            None
        },
        None => None,
    }
}

/// Whether `path` has the extension `html`, in lower case.
pub open spec fn has_html_extension(path: Seq<char>) -> bool {
    extension_of(path) == Some("html"@)
}

/// The last position lies in `s`, holds `c`, and no later position does.
pub proof fn lemma_last_position(s: Seq<char>, c: char)
    ensures
        -1 <= last_position(s, c) < s.len(),
        last_position(s, c) >= 0 ==> s[last_position(s, c)] == c,
        forall|i: int| last_position(s, c) < i < s.len() ==> s[i] != c,
    decreases s.len(),
{
    if s.len() > 0 && s.last() != c {
        lemma_last_position(s.drop_last(), c);
        assert forall|i: int| last_position(s, c) < i < s.len() implies s[i] != c by {
            if i < s.len() - 1 {
                assert(s.drop_last()[i] != c);
            }
        }
    }
}

/// A position that holds `c` and has no `c` behind it is the last one.
pub proof fn lemma_last_position_is(s: Seq<char>, c: char, k: int)
    requires
        -1 <= k < s.len(),
        k >= 0 ==> s[k] == c,
        forall|i: int| k < i < s.len() ==> s[i] != c,
    ensures
        last_position(s, c) == k,
{
    lemma_last_position(s, c);
}

/// The characters of `s`, for access by index.
pub(crate) fn chars_of(s: &str) -> (chars: Vec<char>)
    ensures
        chars@ == s@,
{
    let mut chars: Vec<char> = Vec::new();
    for c in iter: s.chars()
        invariant
            iter.seq() == s@,
            chars@ == s@.take(iter.index() as int),
    {
        chars.push(c);
    }
    chars
}

/// `s` without the slashes that it starts with.
pub fn trim_leading_slashes(s: &str) -> (rest: &str)
    ensures
        rest@ == without_leading_slashes(s@),
{
    let chars = chars_of(s);
    let mut from: usize = 0;
    assert(s@.skip(0) == s@);
    while from < chars.len() && chars[from] == '/'
        invariant
            chars@ == s@,
            from <= chars.len(),
            without_leading_slashes(s@.skip(from as int)) == without_leading_slashes(s@),
        decreases chars.len() - from,
    {
        assert(s@.skip(from as int).drop_first() == s@.skip(from + 1));
        from = from + 1;
    }
    s.substring_char(from, chars.len())
}

/// Joins `tail` to the directory `base`.
pub fn join(base: &str, tail: &str) -> (path: String)
    ensures
        path@ == joined(base@, tail@),
{
    if tail.unicode_len() > 0 && tail.get_char(0) == '/' {
        return tail.to_owned();
    }
    let n: usize = base.unicode_len();
    let mut path = base.to_owned();
    if n > 0 && base.get_char(n - 1) != '/' {
        proof {
            reveal_strlit("/");
        }
        path.append("/");
        assert(path@ == base@.push('/'));
    }
    path.append(tail);
    path
}

/// The path that a request for `uri_path` leads to from `root`.
pub fn request_path(root: &str, uri_path: &str) -> (path: String)
    ensures
        path@ == requested_path(root@, uri_path@),
{
    join(root, trim_leading_slashes(uri_path))
}

/// The index behind the last `c` among the first `end` characters, or 0.
fn index_behind_last(chars: &Vec<char>, end: usize, c: char) -> (start: usize)
    requires
        end <= chars.len(),
    ensures
        start == last_position(chars@.take(end as int), c) + 1,
        start <= end,
{
    let mut start: usize = end;
    while start > 0 && chars[start - 1] != c
        invariant
            start <= end <= chars.len(),
            last_position(chars@.take(start as int), c) == last_position(
                chars@.take(end as int),
                c,
            ),
        decreases start,
    {
        assert(chars@.take(start as int).drop_last() == chars@.take(start - 1));
        start = start - 1;
    }
    start
}

/// The name of the file or directory that `path` ends with.
pub fn file_name(path: &str) -> (name: Option<&str>)
    ensures
        match name {
            Some(text) => name_of(path@) == Some(text@),
            None => name_of(path@) is None,
        },
{
    let chars = chars_of(path);
    let mut end: usize = chars.len();
    assert(path@.take(end as int) == path@);
    while end > 0
        invariant
            chars@ == path@,
            end <= chars.len(),
            name_of(path@.take(end as int)) == name_of(path@),
        decreases end,
    {
        let start: usize = index_behind_last(&chars, end, '/');
        let ghost head = path@.take(end as int);
        let ghost last = after_last(head, '/');
        assert(last == path@.subrange(start as int, end as int));
        assert(head.drop_last() == path@.take(end - 1));
        let width: usize = end - start;
        if width == 0 || (width == 1 && chars[start] == '.') {
            assert(width == 1 ==> last == seq!['.']);
            end = end - 1;
        } else if width == 2 && chars[start] == '.' && chars[start + 1] == '.' {
            assert(last == seq!['.', '.']);
            return None;
        } else {
            assert(last != seq!['.']) by {
                if last == seq!['.'] {
                    assert(last.len() == 1 && last[0] == '.');
                }
            }
            assert(last != seq!['.', '.']) by {
                if last == seq!['.', '.'] {
                    assert(last.len() == 2 && last[0] == '.' && last[1] == '.');
                }
            }
            return Some(path.substring_char(start, end));
        }
    }
    None
}

/// The extension of the file that `path` names.
pub fn extension(path: &str) -> (ext: Option<&str>)
    ensures
        match ext {
            Some(text) => extension_of(path@) == Some(text@),
            None => extension_of(path@) is None,
        },
{
    match file_name(path) {
        None => None,
        Some(name) => {
            let chars = chars_of(name);
            let n: usize = chars.len();
            let start: usize = index_behind_last(&chars, n, '.');
            assert(name@.take(n as int) == name@);
            if start > 1 {
                assert(name@.subrange(start as int, n as int) == name@.skip(start as int));
                Some(name.substring_char(start, n))
            } else {
                None
            }
        },
    }
}

/// Whether `path` names an HTML file: one whose extension is `html`.
pub fn is_html(path: &str) -> (html: bool)
    ensures
        html == has_html_extension(path@),
{
    match extension(path) {
        Some(ext) => ext.to_owned() == "html".to_owned(),
        None => false,
    }
}

} // verus!

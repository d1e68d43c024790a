//! Where a path leads, by the names in it: the directories and the file that one passes on the
//! way. Symbolic links are not looked into.
use vstd::prelude::*;

use crate::path::{
    after_last, chars_of, joined, last_position, lemma_last_position, lemma_last_position_is,
    request_path, requested_path, trim_leading_slashes, without_leading_slashes,
};

verus! {

/// The components of `path`, without those that lead nowhere: empty ones and `.`.
pub open spec fn components(path: Seq<char>) -> Seq<Seq<char>>
    decreases path.len(),
{
    if path.len() == 0 {
        Seq::empty()
    } else {
        let k = last_position(path, '/');
        let before = if 0 <= k < path.len() {
            components(path.take(k))
        } else {
            Seq::empty()
        };
        let last = after_last(path, '/');
        if last.len() == 0 || last == seq!['.'] {
            before
        } else {
            before.push(last)
        }
    }
}

/// Where the components lead, one after the other: `..` leads back to where the one before it
/// started.
pub open spec fn followed(parts: Seq<Seq<char>>) -> Seq<Seq<char>>
    decreases parts.len(),
{
    if parts.len() == 0 {
        Seq::empty()
    } else {
        let before = followed(parts.drop_last());
        if parts.last() != seq!['.', '.'] {
            before.push(parts.last())
        } else if before.len() > 0 && before.last() != seq!['.', '.'] {
            before.drop_last()
        } else {
            before.push(parts.last())
        }
    }
}

/// The place that `path` leads to.
pub open spec fn place(path: Seq<char>) -> Seq<Seq<char>> {
    followed(components(path))
}

/// Whether `path` leads to the directory `dir` or to something in it.
pub open spec fn lies_in(dir: Seq<char>, path: Seq<char>) -> bool {
    place(dir).is_prefix_of(place(path))
}

/// How far down the components lead: a name leads one directory down, `..` one up.
pub open spec fn depth(parts: Seq<Seq<char>>) -> int
    decreases parts.len(),
{
    if parts.len() == 0 {
        0
    } else if parts.last() == seq!['.', '.'] {
        depth(parts.drop_last()) - 1
    } else {
        depth(parts.drop_last()) + 1
    }
}

/// Whether the components, on their way, lead above the place that they start from.
pub open spec fn climbs(parts: Seq<Seq<char>>) -> bool
    decreases parts.len(),
{
    parts.len() > 0 && (climbs(parts.drop_last()) || depth(parts) < 0)
}

/// The path of `name` in the directory `root`. A name that leads out of the directory on its
/// way has none.
pub open spec fn below(root: Seq<char>, name: Seq<char>) -> Option<Seq<char>> {
    if climbs(components(without_leading_slashes(name))) {
        None
    } else {
        Some(requested_path(root, name))
    }
}

/// The components of two paths with a slash between them are those of the one, then those of
/// the other.
pub(crate) proof fn lemma_components_concat(a: Seq<char>, b: Seq<char>)
    ensures
        components(a + seq!['/'] + b) == components(a) + components(b),
    decreases b.len(),
{
    let path = a + seq!['/'] + b;
    let k = last_position(b, '/');
    lemma_last_position(b, '/');
    assert forall|i: int| a.len() + 1 + k < i < path.len() implies path[i] != '/' by {
        assert(path[i] == b[i - a.len() - 1]);
    }
    assert(path[a.len() as int] == '/');
    if k >= 0 {
        assert(path[a.len() + 1 + k] == b[k]);
    }
    lemma_last_position_is(path, '/', a.len() + 1 + k);
    assert(after_last(path, '/') == after_last(b, '/'));
    if k >= 0 {
        assert(path.take(a.len() + 1 + k) == a + seq!['/'] + b.take(k));
        lemma_components_concat(a, b.take(k));
        let last = after_last(b, '/');
        if last.len() == 0 || last == seq!['.'] {
            assert(components(path) == components(a) + components(b));
        } else {
            assert(components(path) == (components(a) + components(b.take(k))).push(last));
            assert(components(b) == components(b.take(k)).push(last));
            assert(components(path) == components(a) + components(b));
        }
    } else {
        assert(path.take(a.len() as int) == a);
        let last = after_last(b, '/');
        assert(last == b);
        if b.len() == 0 || b == seq!['.'] {
            assert(components(b) == Seq::<Seq<char>>::empty());
            assert(components(path) == components(a) + components(b));
        } else {
            assert(components(b) == Seq::<Seq<char>>::empty().push(b));
            assert(components(path) == components(a).push(b));
            assert(components(path) == components(a) + components(b));
        }
    }
}

/// A path without a slash is its own component, if it leads anywhere.
pub(crate) proof fn lemma_single_component(name: Seq<char>)
    requires
        !name.contains('/'),
    ensures
        components(name) == if name.len() == 0 || name == seq!['.'] {
            Seq::<Seq<char>>::empty()
        } else {
            seq![name]
        },
{
    assert forall|i: int| -1 < i < name.len() implies name[i] != '/' by {
        assert(name.contains(name[i]));
    }
    lemma_last_position_is(name, '/', -1);
    assert(after_last(name, '/') == name);
    assert(Seq::<Seq<char>>::empty().push(name) == seq![name]);
}

/// What has led out stays out, whatever follows.
proof fn lemma_climbs_on(a: Seq<Seq<char>>, b: Seq<Seq<char>>)
    requires
        climbs(a),
    ensures
        climbs(a + b),
    decreases b.len(),
{
    if b.len() == 0 {
        assert(a + b == a);
    } else {
        assert((a + b).drop_last() == a + b.drop_last());
        lemma_climbs_on(a, b.drop_last());
    }
}

/// Components that do not lead out lead down by names alone.
proof fn lemma_followed_without_climbing(parts: Seq<Seq<char>>)
    requires
        !climbs(parts),
    ensures
        followed(parts).len() == depth(parts),
        forall|i: int|
            0 <= i < followed(parts).len() ==> #[trigger] followed(parts)[i] != seq!['.', '.'],
    decreases parts.len(),
{
    if parts.len() > 0 {
        let before = parts.drop_last();
        lemma_followed_without_climbing(before);
        if parts.last() == seq!['.', '.'] {
            assert(followed(before).len() > 0);
            assert(followed(before)[followed(before).len() - 1] != seq!['.', '.']);
            assert(followed(parts) == followed(before).drop_last());
            assert forall|i: int| 0 <= i < followed(parts).len() implies #[trigger] followed(
                parts,
            )[i] != seq!['.', '.'] by {
                assert(followed(parts)[i] == followed(before)[i]);
            }
        } else {
            assert forall|i: int| 0 <= i < followed(parts).len() implies #[trigger] followed(
                parts,
            )[i] != seq!['.', '.'] by {
                if i < followed(before).len() {
                    assert(followed(parts)[i] == followed(before)[i]);
                }
            }
        }
    }
}

/// Components that do not lead out lead on from wherever one is.
proof fn lemma_followed_concat(a: Seq<Seq<char>>, b: Seq<Seq<char>>)
    requires
        !climbs(b),
    ensures
        followed(a + b) == followed(a) + followed(b),
    decreases b.len(),
{
    if b.len() == 0 {
        assert(a + b == a);
        assert(followed(a) + followed(b) == followed(a));
    } else {
        let before = b.drop_last();
        assert((a + b).drop_last() == a + before);
        assert((a + b).last() == b.last());
        lemma_followed_concat(a, before);
        lemma_followed_without_climbing(before);
        if b.last() == seq!['.', '.'] {
            let last = followed(before)[followed(before).len() - 1];
            assert(followed(before).len() > 0);
            assert(last != seq!['.', '.']);
            assert((followed(a) + followed(before)).last() == last);
            assert((followed(a) + followed(before)).drop_last() == followed(a) + followed(
                before,
            ).drop_last());
        } else {
            assert((followed(a) + followed(before)).push(b.last()) == followed(a) + followed(
                before,
            ).push(b.last()));
        }
    }
}

/// What is left of a path does not start with a slash.
pub proof fn lemma_trimmed(s: Seq<char>)
    ensures
        without_leading_slashes(s).len() > 0 ==> without_leading_slashes(s)[0] != '/',
    decreases s.len(),
{
    if s.len() > 0 && s[0] == '/' {
        lemma_trimmed(s.drop_first());
    }
}

/// A request that does not lead out leads on from the root directory, by its components.
pub proof fn lemma_requested_place(root: Seq<char>, name: Seq<char>)
    requires
        !climbs(components(without_leading_slashes(name))),
    ensures
        place(requested_path(root, name)) == place(root) + place(without_leading_slashes(name)),
        lies_in(root, requested_path(root, name)),
{
    let tail = without_leading_slashes(name);
    lemma_trimmed(name);
    if root.len() == 0 {
        assert(root + tail == tail);
        assert(components(root) == Seq::<Seq<char>>::empty());
        assert(components(root) + components(tail) == components(tail));
    } else if root.last() == '/' {
        let front = root.drop_last();
        assert(front + seq!['/'] + tail == root + tail);
        lemma_components_concat(front, tail);
        let none = Seq::<char>::empty();
        assert(front + seq!['/'] + none == root);
        lemma_components_concat(front, none);
        assert(components(none) == Seq::<Seq<char>>::empty());
        assert(components(front) + components(none) == components(front));
    } else {
        assert(root.push('/') + tail == root + seq!['/'] + tail);
        lemma_components_concat(root, tail);
    }
    assert(components(joined(root, tail)) == components(root) + components(tail));
    lemma_followed_concat(components(root), components(tail));
}

/// Whether `path`, on its way, leads above the directory that it starts from.
pub fn climbs_out(path: &str) -> (out: bool)
    ensures
        out == climbs(components(path@)),
{
    let chars = chars_of(path);
    let n: usize = chars.len();
    let mut done: usize = 0;
    let mut first: bool = true;
    let mut level: usize = 0;
    assert(path@.take(0) == Seq::<char>::empty());
    while first || done < n
        invariant
            chars@ == path@,
            n == chars.len(),
            done <= n,
            first ==> done == 0,
            !first && done < n ==> path@[done as int] == '/',
            level <= done,
            level == depth(components(path@.take(done as int))),
            !climbs(components(path@.take(done as int))),
        decreases
            n - done,
            if first {
                1int
            } else {
                0int
            },
    {
        let start: usize = if first {
            0
        } else {
            done + 1
        };
        let mut end: usize = start;
        while end < n && chars[end] != '/'
            invariant
                chars@ == path@,
                n == chars.len(),
                start <= end <= n,
                forall|i: int| start <= i < end ==> path@[i] != '/',
            decreases n - end,
        {
            end = end + 1;
        }
        let ghost name = path@.subrange(start as int, end as int);
        let ghost before = components(path@.take(done as int));
        let ghost after = components(path@.take(end as int));
        proof {
            assert(!name.contains('/'));
            lemma_single_component(name);
            if first {
                assert(path@.take(end as int) == name);
                assert(before + components(name) == components(name));
            } else {
                assert(path@.take(end as int) == path@.take(done as int) + seq!['/'] + name);
                lemma_components_concat(path@.take(done as int), name);
            }
            assert(after == before + components(name));
        }
        let width: usize = end - start;
        if width == 0 || (width == 1 && chars[start] == '.') {
            assert(width == 1 ==> name == seq!['.']);
            assert(after == before);
        } else {
            assert(name != seq!['.']) by {
                if name == seq!['.'] {
                    assert(name.len() == 1 && name[0] == '.');
                }
            }
            assert(after.drop_last() == before);
            assert(after.last() == name);
            if width == 2 && chars[start] == '.' && chars[start + 1] == '.' {
                assert(name == seq!['.', '.']);
                if level == 0 {
                    proof {
                        assert(climbs(after));
                        if end < n {
                            let rest = path@.skip(end + 1);
                            assert(path@ == path@.take(end as int) + seq!['/'] + rest);
                            lemma_components_concat(path@.take(end as int), rest);
                            lemma_climbs_on(after, components(rest));
                        } else {
                            assert(path@.take(end as int) == path@);
                        }
                    }
                    return true;
                }
                level = level - 1;
            } else {
                assert(name != seq!['.', '.']) by {
                    if name == seq!['.', '.'] {
                        assert(name.len() == 2 && name[0] == '.' && name[1] == '.');
                    }
                }
                level = level + 1;
            }
        }
        done = end;
        first = false;
    }
    assert(path@.take(done as int) == path@);
    false
}

/// The path of `name` in the directory `root`, unless `name` leads out of it.
pub fn path_below(root: &str, name: &str) -> (path: Option<String>)
    ensures
        match path {
            Some(text) => below(root@, name@) == Some(text@),
            None => below(root@, name@) is None,
        },
{
    if climbs_out(trim_leading_slashes(name)) {
        None
    } else {
        Some(request_path(root, name))
    }
}

} // verus!

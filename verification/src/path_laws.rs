//! What holds of paths: their components, where they lead, and the names in them.
use vstd::prelude::*;

use crate::content_type::{content_type_of, media_type_for};
use crate::location::{
    below, climbs, components, depth, followed, lemma_components_concat,
    lemma_single_component, lies_in, place,
};
use crate::path::{
    after_last, extension_of, has_html_extension, joined, last_position, lemma_last_position,
    lemma_last_position_is, name_of, requested_path, without_leading_slashes,
};

verus! {

// ---------------------------------------------------------------------------------------
// Text
// ---------------------------------------------------------------------------------------

/// Trimming cuts off the leading slashes, all of them, and nothing else.
pub proof fn law_trimming_cuts_leading_slashes(s: Seq<char>)
    ensures
        without_leading_slashes(s).len() <= s.len(),
        without_leading_slashes(s) == s.skip(s.len() - without_leading_slashes(s).len()),
        forall|i: int| 0 <= i < s.len() - without_leading_slashes(s).len() ==> s[i] == '/',
        without_leading_slashes(s).len() > 0 ==> without_leading_slashes(s)[0] != '/',
    decreases s.len(),
{
    if s.len() > 0 && s[0] == '/' {
        let rest = s.drop_first();
        law_trimming_cuts_leading_slashes(rest);
        let cut = rest.len() - without_leading_slashes(rest).len();
        assert(rest.skip(cut) == s.skip(cut + 1));
        assert forall|i: int| 0 <= i < cut + 1 implies s[i] == '/' by {
            if i > 0 {
                assert(rest[i - 1] == '/');
            }
        }
    } else {
        assert(s.skip(0) == s);
    }
}

/// What follows the last `c` holds no `c`, and stands behind a `c` unless it is everything.
pub proof fn law_after_last(s: Seq<char>, c: char)
    ensures
        !after_last(s, c).contains(c),
        after_last(s, c).is_suffix_of(s),
        after_last(s, c).len() < s.len() ==> s[s.len() - after_last(s, c).len() - 1] == c,
        s.contains(c) ==> after_last(s, c).len() < s.len(),
{
    let k = last_position(s, c);
    lemma_last_position(s, c);
    let rest = after_last(s, c);
    assert(!rest.contains(c)) by {
        if rest.contains(c) {
            let i = choose|i: int| 0 <= i < rest.len() && rest[i] == c;
            assert(s[k + 1 + i] == c);
        }
    }
    if s.contains(c) {
        let i = choose|i: int| 0 <= i < s.len() && s[i] == c;
        assert(k >= i);
    }
}

/// A joined path ends with the path that was joined. An absolute one stands alone; any other
/// stands directly behind the directory, or behind the one slash that was missing.
pub proof fn law_joining(base: Seq<char>, tail: Seq<char>)
    ensures
        tail.is_suffix_of(joined(base, tail)),
        tail.len() > 0 && tail[0] == '/' ==> joined(base, tail).len() == tail.len(),
        !(tail.len() > 0 && tail[0] == '/') ==> {
            &&& base.is_prefix_of(joined(base, tail))
            &&& joined(base, tail).len() - base.len() - tail.len() == if base.len() > 0
                && base.last() != '/' {
                1int
            } else {
                0int
            }
        },
        !(tail.len() > 0 && tail[0] == '/') && base.len() > 0 ==> joined(base, tail)[joined(
            base,
            tail,
        ).len() - tail.len() - 1] == '/',
{
}

// ---------------------------------------------------------------------------------------
// Components
// ---------------------------------------------------------------------------------------

/// Two paths with a slash between them have the components of the one, then those of the other.
pub proof fn law_components_of_two_paths(a: Seq<char>, b: Seq<char>)
    ensures
        components(a + seq!['/'] + b) == components(a) + components(b),
{
    lemma_components_concat(a, b);
}

/// A path without a slash is its own only component, unless it is empty or `.`.
pub proof fn law_components_of_a_name(name: Seq<char>)
    requires
        !name.contains('/'),
    ensures
        name.len() == 0 || name == seq!['.'] ==> components(name).len() == 0,
        name.len() > 0 && name != seq!['.'] ==> components(name) == seq![name],
{
    lemma_single_component(name);
}

/// The slashes that a path starts with add no component.
pub proof fn law_leading_slashes_add_no_component(path: Seq<char>)
    ensures
        components(without_leading_slashes(path)) == components(path),
    decreases path.len(),
{
    if path.len() > 0 && path[0] == '/' {
        let rest = path.drop_first();
        law_leading_slashes_add_no_component(rest);
        lemma_components_concat(Seq::empty(), rest);
        assert(path == Seq::<char>::empty() + seq!['/'] + rest);
        assert(components(Seq::empty()) + components(rest) == components(rest));
    }
}

/// Every component stands in the path, as it is. It is not empty, is not `.` and holds no
/// slash.
pub proof fn law_components_stand_in_the_path(path: Seq<char>, i: int)
    requires
        0 <= i < components(path).len(),
    ensures
        components(path)[i].len() > 0,
        components(path)[i] != seq!['.'],
        !components(path)[i].contains('/'),
        exists|k: int|
            0 <= k && k + components(path)[i].len() <= path.len() && #[trigger] path.subrange(
                k,
                k + components(path)[i].len(),
            ) == components(path)[i],
    decreases path.len(),
{
    let part = components(path)[i];
    let n = part.len() as int;
    let k = last_position(path, '/');
    lemma_last_position(path, '/');
    law_after_last(path, '/');
    let before = if k >= 0 {
        components(path.take(k))
    } else {
        Seq::empty()
    };
    if i < before.len() {
        law_components_stand_in_the_path(path.take(k), i);
        let j = choose|j: int|
            0 <= j && j + n <= path.take(k).len() && #[trigger] path.take(k).subrange(j, j + n)
                == part;
        assert(path.subrange(j, j + n) == path.take(k).subrange(j, j + n));
    } else {
        assert(part == after_last(path, '/'));
        assert(path.subrange(k + 1, k + 1 + n) == part);
    }
}

/// A path in which no dot follows another has no component `..`, so it does not climb.
pub proof fn law_paths_without_two_dots_do_not_climb(path: Seq<char>)
    requires
        forall|i: int| 0 < i < path.len() && path[i] == '.' ==> #[trigger] path[i - 1] != '.',
    ensures
        !climbs(components(path)),
{
    let parts = components(path);
    assert forall|i: int| 0 <= i < parts.len() implies #[trigger] parts[i] != seq!['.', '.'] by {
        law_components_stand_in_the_path(path, i);
        let part = parts[i];
        let k = choose|k: int|
            0 <= k && k + part.len() <= path.len() && #[trigger] path.subrange(k, k + part.len())
                == part;
        if part == seq!['.', '.'] {
            assert(path.subrange(k, k + 2)[0] == path[k]);
            assert(path.subrange(k, k + 2)[1] == path[k + 1]);
            assert(path[(k + 1) - 1] == '.');
        }
    }
    law_names_do_not_climb(parts);
}

/// The file name is the last component, unless that is `..`.
pub proof fn law_file_name_is_the_last_component(path: Seq<char>)
    ensures
        match name_of(path) {
            Some(name) => components(path).len() > 0 && components(path).last() == name && name
                != seq!['.', '.'],
            None => components(path).len() == 0 || components(path).last() == seq!['.', '.'],
        },
    decreases path.len(),
{
    if path.len() > 0 {
        let k = last_position(path, '/');
        lemma_last_position(path, '/');
        let last = after_last(path, '/');
        if last.len() == 0 {
            assert(k == path.len() - 1);
            assert(path.take(k) == path.drop_last());
            law_file_name_is_the_last_component(path.drop_last());
        } else if last == seq!['.'] {
            let shorter = path.drop_last();
            assert(last.len() == 1 && last[0] == '.');
            assert(path.last() == last[0]);
            assert(last_position(shorter, '/') == k);
            if k >= 0 {
                assert(shorter.take(k) == path.take(k));
                assert(after_last(shorter, '/').len() == 0);
            } else {
                assert(shorter.len() == 0);
            }
            assert(components(shorter) == components(path));
            law_file_name_is_the_last_component(shorter);
        }
    }
}

// ---------------------------------------------------------------------------------------
// Where a path leads
// ---------------------------------------------------------------------------------------

/// How many of the components are `..`.
pub open spec fn parents(parts: Seq<Seq<char>>) -> nat {
    parts.filter(|part: Seq<char>| part == seq!['.', '.']).len()
}

/// The depth is the number of names less the number of `..`.
pub proof fn law_depth_counts(parts: Seq<Seq<char>>)
    ensures
        depth(parts) == (parts.len() - parents(parts)) - parents(parts),
    decreases parts.len(),
{
    reveal(Seq::filter);
    if parts.len() > 0 {
        law_depth_counts(parts.drop_last());
    }
}

/// A path climbs out if and only if some part of it, from its start, holds more `..` than
/// names.
pub proof fn law_climbing_is_more_parents_than_names(parts: Seq<Seq<char>>)
    ensures
        climbs(parts) <==> exists|k: int|
            0 <= k <= parts.len() && parents(#[trigger] parts.take(k)) > k - parents(
                parts.take(k),
            ),
    decreases parts.len(),
{
    reveal(Seq::filter);
    if parts.len() == 0 {
        assert(parts.take(0) == parts);
        assert forall|k: int| 0 <= k <= parts.len() implies parents(#[trigger] parts.take(k)) <= k
            - parents(parts.take(k)) by {
            assert(parts.take(k) == parts);
        }
    } else {
        let before = parts.drop_last();
        let n = parts.len() as int;
        law_climbing_is_more_parents_than_names(before);
        law_depth_counts(parts);
        assert(parts.take(n) == parts);
        if climbs(before) {
            let k = choose|k: int|
                0 <= k <= before.len() && parents(#[trigger] before.take(k)) > k - parents(
                    before.take(k),
                );
            assert(before.take(k) == parts.take(k));
        }
        if exists|k: int|
            0 <= k <= n && parents(#[trigger] parts.take(k)) > k - parents(parts.take(k)) {
            let k = choose|k: int|
                0 <= k <= n && parents(#[trigger] parts.take(k)) > k - parents(parts.take(k));
            if k < n {
                assert(before.take(k) == parts.take(k));
            }
        }
    }
}

/// A path without a component `..` does not climb, however long it is.
pub proof fn law_names_do_not_climb(parts: Seq<Seq<char>>)
    requires
        forall|i: int| 0 <= i < parts.len() ==> #[trigger] parts[i] != seq!['.', '.'],
    ensures
        !climbs(parts),
        depth(parts) == parts.len(),
    decreases parts.len(),
{
    if parts.len() > 0 {
        let before = parts.drop_last();
        assert forall|i: int| 0 <= i < before.len() implies #[trigger] before[i] != seq!['.', '.'] by {
            assert(before[i] == parts[i]);
        }
        law_names_do_not_climb(before);
        assert(parts[parts.len() - 1] != seq!['.', '.']);
    }
}

/// Going on by names does not climb where one has not climbed before.
pub proof fn law_going_down_does_not_climb(parts: Seq<Seq<char>>, name: Seq<char>)
    requires
        name != seq!['.', '.'],
    ensures
        climbs(parts.push(name)) == climbs(parts),
{
    assert(parts.push(name).drop_last() == parts);
    if !climbs(parts) {
        lemma_depth_without_climbing(parts);
    }
}

/// Where one has not climbed, one is not above where one started.
proof fn lemma_depth_without_climbing(parts: Seq<Seq<char>>)
    requires
        !climbs(parts),
    ensures
        depth(parts) >= 0,
{
}

/// A name and the `..` behind it lead nowhere: without both, the path leads to the same place.
pub proof fn law_parent_undoes_a_name(a: Seq<Seq<char>>, name: Seq<char>, b: Seq<Seq<char>>)
    requires
        name != seq!['.', '.'],
    ensures
        followed(a + seq![name, seq!['.', '.']] + b) == followed(a + b),
    decreases b.len(),
{
    let long = a + seq![name, seq!['.', '.']] + b;
    if b.len() == 0 {
        assert(a + b == a);
        assert(long.drop_last() == a.push(name));
        assert(a.push(name).drop_last() == a);
        assert(followed(a.push(name)) == followed(a).push(name));
        assert(followed(a).push(name).drop_last() == followed(a));
    } else {
        assert(long.drop_last() == a + seq![name, seq!['.', '.']] + b.drop_last());
        assert((a + b).drop_last() == a + b.drop_last());
        law_parent_undoes_a_name(a, name, b.drop_last());
    }
}

/// Components that first lead up and then down by names lead where they say.
pub proof fn law_plain_components_lead_where_they_say(parts: Seq<Seq<char>>, ups: int)
    requires
        0 <= ups <= parts.len(),
        forall|i: int| 0 <= i < ups ==> #[trigger] parts[i] == seq!['.', '.'],
        forall|i: int| ups <= i < parts.len() ==> #[trigger] parts[i] != seq!['.', '.'],
    ensures
        followed(parts) == parts,
    decreases parts.len(),
{
    if parts.len() > 0 {
        let before = parts.drop_last();
        let up = if ups < parts.len() {
            ups
        } else {
            ups - 1
        };
        assert forall|i: int| 0 <= i < up implies #[trigger] before[i] == seq!['.', '.'] by {
            assert(before[i] == parts[i]);
        }
        assert forall|i: int| up <= i < before.len() implies #[trigger] before[i] != seq![
            '.',
            '.',
        ] by {
            assert(before[i] == parts[i]);
        }
        law_plain_components_lead_where_they_say(before, up);
        assert(before.push(parts.last()) == parts);
        if ups == parts.len() {
            assert(parts[parts.len() - 1] == seq!['.', '.']);
            if before.len() > 0 {
                assert(parts[parts.len() - 2] == seq!['.', '.']);
                assert(before.last() == seq!['.', '.']);
            }
        } else {
            assert(parts[parts.len() - 1] != seq!['.', '.']);
        }
    }
}

/// A path lies in a directory if and only if it leads where the directory leads, and on from
/// there.
pub proof fn law_lying_in_a_directory(dir: Seq<char>, path: Seq<char>)
    ensures
        lies_in(dir, path) <==> exists|rest: Seq<Seq<char>>|
            followed(components(path)) == #[trigger] (followed(components(dir)) + rest),
{
    let d = followed(components(dir));
    let p = followed(components(path));
    if lies_in(dir, path) {
        assert(p == d + p.skip(d.len() as int));
    }
    if exists|rest: Seq<Seq<char>>| p == #[trigger] (d + rest) {
        let rest = choose|rest: Seq<Seq<char>>| p == #[trigger] (d + rest);
        assert(place(dir).is_prefix_of(place(path)));
    }
}

/// A request has a path exactly if it does not climb, and then the path that it names.
pub proof fn law_only_climbing_has_no_path(root: Seq<char>, name: Seq<char>)
    ensures
        below(root, name) is None <==> climbs(components(without_leading_slashes(name))),
        below(root, name) matches Some(path) ==> path == requested_path(root, name),
{
}

// ---------------------------------------------------------------------------------------
// Names
// ---------------------------------------------------------------------------------------

/// A file has the extension `ext` if and only if its name is something, a dot and `ext`, where
/// `ext` holds no further dot.
pub proof fn law_extension_is_behind_the_last_dot(path: Seq<char>, ext: Seq<char>)
    ensures
        extension_of(path) == Some(ext) <==> !ext.contains('.') && exists|stem: Seq<char>|
            stem.len() > 0 && name_of(path) == Some(#[trigger] (stem + seq!['.'] + ext)),
{
    if extension_of(path) == Some(ext) {
        let name = name_of(path)->0;
        let d = last_position(name, '.');
        lemma_last_position(name, '.');
        law_after_last(name, '.');
        let stem = name.take(d);
        assert(name == stem + seq!['.'] + ext);
    }
    if !ext.contains('.') && exists|stem: Seq<char>|
        stem.len() > 0 && name_of(path) == Some(#[trigger] (stem + seq!['.'] + ext)) {
        let stem = choose|stem: Seq<char>|
            stem.len() > 0 && name_of(path) == Some(#[trigger] (stem + seq!['.'] + ext));
        let name = stem + seq!['.'] + ext;
        assert(name[stem.len() as int] == '.');
        assert forall|i: int| stem.len() < i < name.len() implies name[i] != '.' by {
            assert(name[i] == ext[i - stem.len() - 1]);
            assert(ext.contains(ext[i - stem.len() - 1]));
        }
        lemma_last_position_is(name, '.', stem.len() as int);
        assert(after_last(name, '.') == ext);
    }
}

/// A file is HTML if and only if its name is something and then `.html`.
pub proof fn law_html_is_told_by_the_name(path: Seq<char>)
    ensures
        has_html_extension(path) <==> exists|stem: Seq<char>|
            stem.len() > 0 && name_of(path) == Some(#[trigger] (stem + ".html"@)),
{
    reveal_strlit("html");
    reveal_strlit(".html");
    law_extension_is_behind_the_last_dot(path, "html"@);
    assert(!"html"@.contains('.'));
    assert forall|stem: Seq<char>| #[trigger] (stem + ".html"@) == stem + seq!['.'] + "html"@ by {
        assert(".html"@ == seq!['.'] + "html"@);
        assert(stem + ".html"@ == stem + seq!['.'] + "html"@);
    }
    if exists|stem: Seq<char>|
        stem.len() > 0 && name_of(path) == Some(#[trigger] (stem + seq!['.'] + "html"@)) {
        let stem = choose|stem: Seq<char>|
            stem.len() > 0 && name_of(path) == Some(#[trigger] (stem + seq!['.'] + "html"@));
        assert(stem + ".html"@ == stem + seq!['.'] + "html"@);
    }
    if exists|stem: Seq<char>|
        stem.len() > 0 && name_of(path) == Some(#[trigger] (stem + ".html"@)) {
        let stem = choose|stem: Seq<char>|
            stem.len() > 0 && name_of(path) == Some(#[trigger] (stem + ".html"@));
        assert(name_of(path) == Some(stem + seq!['.'] + "html"@));
    }
}

/// A file with another extension than `html` is not HTML.
pub proof fn law_other_extensions_are_not_html(path: Seq<char>, stem: Seq<char>, ext: Seq<char>)
    requires
        name_of(path) == Some(stem + seq!['.'] + ext),
        stem.len() > 0,
        !ext.contains('.'),
        ext != "html"@,
    ensures
        !has_html_extension(path),
{
    reveal_strlit("html");
    reveal_strlit(".html");
    law_html_is_told_by_the_name(path);
    if has_html_extension(path) {
        let other = choose|other: Seq<char>|
            other.len() > 0 && name_of(path) == Some(#[trigger] (other + ".html"@));
        let name = stem + seq!['.'] + ext;
        assert(name == other + ".html"@);
        law_extension_is_behind_the_last_dot(path, ext);
        assert(name == other + seq!['.'] + "html"@);
        assert(!"html"@.contains('.'));
        law_extension_is_behind_the_last_dot(path, "html"@);
        assert(name_of(path) == Some(other + seq!['.'] + "html"@));
        assert(name_of(path) == Some(stem + seq!['.'] + ext));
        assert(extension_of(path) == Some(ext));
        assert(extension_of(path) == Some("html"@));
    }
}

/// A file whose name holds no dot, but for one that it may start with, has no extension and is
/// not HTML; nor has a path that names no file.
pub proof fn law_names_without_dot_have_no_extension(path: Seq<char>)
    requires
        name_of(path) matches Some(name) ==> (forall|i: int|
            0 < i < name.len() ==> #[trigger] name[i] != '.'),
    ensures
        extension_of(path) is None,
        !has_html_extension(path),
{
    if let Some(name) = name_of(path) {
        lemma_last_position(name, '.');
    }
}

/// A file is served under the first media type that is listed for its own extension, and
/// under the default where it has no extension.
pub proof fn law_content_type_is_that_of_the_extension(path: Seq<char>, ext: Seq<char>)
    ensures
        extension_of(path) == Some(ext) ==> content_type_of(path) == media_type_for(ext),
        extension_of(path) is None ==> content_type_of(path) == "application/octet-stream"@,
{
}

} // verus!

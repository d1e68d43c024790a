//! What holds of the library as a whole. What holds of paths alone is in `path_laws`, what holds
//! of single steps in `step_laws`.
use vstd::prelude::*;
use vstd::utf8::encode_utf8;

use crate::changes::Drained;
use crate::client::{after_sending, apart, bound, ClientView};
use crate::clients::{kept, told};
use crate::content_type::{content_type_of, media_type_for};
use crate::events::EventsView;
use crate::location::{
    below, climbs, components, lemma_requested_place, lemma_trimmed, lies_in, place,
};
use crate::path::{
    after_last, extension_of, has_html_extension, lemma_last_position_is, name_of, requested_path,
    without_leading_slashes,
};
use crate::path_laws::{
    law_content_type_is_that_of_the_extension, law_extension_is_behind_the_last_dot,
    law_leading_slashes_add_no_component, law_names_do_not_climb,
    law_names_without_dot_have_no_extension, law_other_extensions_are_not_html,
};
use crate::reload::{
    after_event, after_events, burst, event_of, occurrences, pending_action, reloads,
    BroadcastActionView, BroadcastEvent, BroadcastTask, RELOAD_MESSAGE,
};
use crate::response::{
    file_answer, not_found_answer, page_answer, read_error_answer, Response, ResponseView,
    Status, HTML_CONTENT_TYPE,
};
use crate::script::{script_text, SCRIPT_HEAD, SCRIPT_MIDDLE, SCRIPT_TAIL, WS_ROUTE};
use crate::server::{
    after_bytes, after_check, after_text, first_stage, Exchange, ExchangeView,
};
use crate::socket::forwarded;
use crate::watcher::{passed_on, Report};

verus! {

// ---------------------------------------------------------------------------------------
// Answers
// ---------------------------------------------------------------------------------------

/// The answer with a file holds the file, whole and unchanged, under the type that it was
/// given.
pub proof fn law_file_answers_hold_the_file(content_type: Seq<char>, body: Seq<u8>)
    ensures
        file_answer(content_type, body).status == Status::Success,
        file_answer(content_type, body).content_type == Some(content_type),
        file_answer(content_type, body).body == body,
{
}

/// The answer with a page is HTML. It starts with the whole page, ends with the whole script
/// and holds nothing else.
pub proof fn law_page_answers_hold_page_and_script(page: Seq<char>, script: Seq<char>)
    ensures
        page_answer(page, script).status == Status::Success,
        page_answer(page, script).content_type == Some("text/html; charset=utf-8"@),
        page_answer(page, script).body.len() == encode_utf8(page).len() + encode_utf8(script).len(),
        encode_utf8(page).is_prefix_of(page_answer(page, script).body),
        encode_utf8(script).is_suffix_of(page_answer(page, script).body),
{
    lemma_encode_concat(page, script);
}

/// The answer where nothing was found says so, as a status and in words.
pub proof fn law_not_found_answers_say_so()
    ensures
        not_found_answer().status == Status::NotFound,
        not_found_answer().content_type is None,
        not_found_answer().body == encode_utf8("File not found"@),
{
}

/// The answer where reading failed is a server error, whatever the error's text is, and gives
/// that text whole.
pub proof fn law_read_error_answers_give_the_reason(error: Seq<char>)
    ensures
        read_error_answer(error).status == Status::InternalServerError,
        read_error_answer(error).content_type is None,
        read_error_answer(error).body == encode_utf8("Error reading file: "@) + encode_utf8(error),
        encode_utf8(error).is_suffix_of(read_error_answer(error).body),
{
    lemma_encode_concat("Error reading file: "@, error);
}

/// Each status has a number of its own, the one that HTTP gives it.
pub proof fn law_status_numbers(status: Status)
    ensures
        status.number() == 200 <==> status == Status::Success,
        status.number() == 404 <==> status == Status::NotFound,
        status.number() == 500 <==> status == Status::InternalServerError,
{
}

/// What is stated of an answer as a mathematical value is stated of its fields.
pub proof fn law_answers_are_their_fields(response: Response)
    ensures
        response@.status == response.status,
        response@.content_type is Some <==> response.content_type is Some,
        response.content_type matches Some(text) ==> response@.content_type == Some(text@),
        response@.body == response.body@,
{
}

/// What is stated of a stage as a mathematical value is stated of what the stage holds.
pub proof fn law_stages_are_their_fields(stage: Exchange)
    ensures
        match stage {
            Exchange::CheckFile { path, fallback } => stage@ matches ExchangeView::CheckFile {
                path: p,
                fallback: f,
            } && p == path@ && (fallback is Some <==> f is Some) && (fallback matches Some(entry)
                ==> f == Some(entry@)),
            Exchange::ReadText { path } => stage@ matches ExchangeView::ReadText { path: p } && p
                == path@,
            Exchange::ReadBytes { path } => stage@ matches ExchangeView::ReadBytes { path: p } && p
                == path@,
            Exchange::Respond { response } => stage@ matches ExchangeView::Respond { response: r }
                && r == response@,
        },
{
}

// ---------------------------------------------------------------------------------------
// Requests
// ---------------------------------------------------------------------------------------

/// What reading one file gives: as text, and as bytes. A failed read gives the error's text.
pub struct FileState {
    pub text: Result<Seq<char>, Seq<char>>,
    pub bytes: Result<Seq<u8>, Seq<char>>,
}

/// The stage of an exchange after the pending piece of work was done on `disk`, which holds
/// the files by their paths.
pub open spec fn next_stage(
    stage: ExchangeView,
    disk: Map<Seq<char>, FileState>,
    script: Seq<char>,
) -> ExchangeView {
    match stage {
        ExchangeView::CheckFile { path, fallback } => after_check(
            path,
            fallback,
            disk.dom().contains(path),
        ),
        ExchangeView::ReadText { path } => after_text(path, disk[path].text, script),
        ExchangeView::ReadBytes { path } => ExchangeView::Respond {
            response: after_bytes(path, disk[path].bytes),
        },
        ExchangeView::Respond { response } => stage,
    }
}

/// The stage of an exchange after `steps` pieces of work were done on `disk`.
pub open spec fn later_stage(
    stage: ExchangeView,
    disk: Map<Seq<char>, FileState>,
    script: Seq<char>,
    steps: nat,
) -> ExchangeView
    decreases steps,
{
    if steps == 0 {
        stage
    } else {
        later_stage(next_stage(stage, disk, script), disk, script, (steps - 1) as nat)
    }
}

/// The answer that holds the file at `path`.
pub open spec fn answer_with_file(
    path: Seq<char>,
    file: FileState,
    script: Seq<char>,
) -> ResponseView {
    if has_html_extension(path) {
        match file.text {
            Ok(text) => page_answer(text, script),
            Err(error) => read_error_answer(error),
        }
    } else {
        match file.bytes {
            Ok(bytes) => file_answer(content_type_of(path), bytes),
            Err(error) => read_error_answer(error),
        }
    }
}

/// The answer that holds the file `name` in the directory `root`, if there is one.
pub open spec fn answer_below(
    root: Seq<char>,
    name: Seq<char>,
    disk: Map<Seq<char>, FileState>,
    script: Seq<char>,
) -> Option<ResponseView> {
    match below(root, name) {
        Some(path) => if disk.dom().contains(path) {
            Some(answer_with_file(path, disk[path], script))
        } else {
            None
        },
        None => None,
    }
}

/// The answer to a request for `uri_path`.
pub open spec fn answer(
    root: Seq<char>,
    uri_path: Seq<char>,
    spa_entry: Option<Seq<char>>,
    disk: Map<Seq<char>, FileState>,
    script: Seq<char>,
) -> ResponseView {
    match (answer_below(root, uri_path, disk, script), below(root, uri_path), spa_entry) {
        (Some(response), _, _) => response,
        (None, Some(_), Some(entry)) => match answer_below(root, entry, disk, script) {
            Some(response) => response,
            None => not_found_answer(),
        },
        _ => not_found_answer(),
    }
}

/// Every request is answered after at most four pieces of file system work: with the file that
/// it names, else with the entry file if one is set, else with the news that there is none.
pub proof fn law_every_request_is_answered(
    root: Seq<char>,
    uri_path: Seq<char>,
    spa_entry: Option<Seq<char>>,
    disk: Map<Seq<char>, FileState>,
    script: Seq<char>,
)
    ensures
        later_stage(first_stage(root, uri_path, spa_entry), disk, script, 4)
            == (ExchangeView::Respond {
            response: answer(root, uri_path, spa_entry, disk, script),
        }),
{
    reveal_with_fuel(later_stage, 5);
}

/// The encoding of two texts in a row is the encoding of the one, then that of the other.
pub proof fn lemma_encode_concat(a: Seq<char>, b: Seq<char>)
    ensures
        encode_utf8(a + b) == encode_utf8(a) + encode_utf8(b),
    decreases a.len(),
{
    if a.len() == 0 {
        assert(a + b == b);
    } else {
        assert((a + b).drop_first() == a.drop_first() + b);
        lemma_encode_concat(a.drop_first(), b);
    }
}

/// An HTML file that can be read is answered with success and as HTML. The body is the page,
/// unchanged, and then the script.
pub proof fn law_html_pages_get_the_script(
    root: Seq<char>,
    uri_path: Seq<char>,
    spa_entry: Option<Seq<char>>,
    disk: Map<Seq<char>, FileState>,
    script: Seq<char>,
    path: Seq<char>,
    page: Seq<char>,
)
    requires
        below(root, uri_path) == Some(path),
        disk.dom().contains(path),
        has_html_extension(path),
        disk[path].text == Ok::<Seq<char>, Seq<char>>(page),
    ensures
        answer(root, uri_path, spa_entry, disk, script).status == Status::Success,
        answer(root, uri_path, spa_entry, disk, script).content_type == Some(HTML_CONTENT_TYPE@),
        HTML_CONTENT_TYPE@ == "text/html; charset=utf-8"@,
        answer(root, uri_path, spa_entry, disk, script).body == encode_utf8(page) + encode_utf8(
            script,
        ),
{
    lemma_encode_concat(page, script);
}

/// A file that is not HTML and can be read is answered with success, under its media type and
/// with its bytes, unchanged. They need not be text, and the script plays no part.
pub proof fn law_other_files_are_served_unchanged(
    root: Seq<char>,
    uri_path: Seq<char>,
    spa_entry: Option<Seq<char>>,
    disk: Map<Seq<char>, FileState>,
    script: Seq<char>,
    path: Seq<char>,
    bytes: Seq<u8>,
)
    requires
        below(root, uri_path) == Some(path),
        disk.dom().contains(path),
        !has_html_extension(path),
        disk[path].bytes == Ok::<Seq<u8>, Seq<char>>(bytes),
    ensures
        answer(root, uri_path, spa_entry, disk, script) == file_answer(
            content_type_of(path),
            bytes,
        ),
        answer(root, uri_path, spa_entry, disk, script).status == Status::Success,
        answer(root, uri_path, spa_entry, disk, script).content_type == Some(content_type_of(path)),
        answer(root, uri_path, spa_entry, disk, script).body == bytes,
{
}

/// A file that cannot be read, an HTML file as text and any other at all, is answered with a
/// server error that gives the reason.
pub proof fn law_unreadable_files_are_reported(
    root: Seq<char>,
    uri_path: Seq<char>,
    spa_entry: Option<Seq<char>>,
    disk: Map<Seq<char>, FileState>,
    script: Seq<char>,
    path: Seq<char>,
    error: Seq<char>,
)
    requires
        below(root, uri_path) == Some(path),
        disk.dom().contains(path),
        has_html_extension(path) ==> disk[path].text == Err::<Seq<char>, Seq<char>>(error),
        !has_html_extension(path) ==> disk[path].bytes == Err::<Seq<u8>, Seq<char>>(error),
    ensures
        answer(root, uri_path, spa_entry, disk, script) == read_error_answer(error),
        answer(root, uri_path, spa_entry, disk, script).status == Status::InternalServerError,
        answer(root, uri_path, spa_entry, disk, script).content_type is None,
        answer(root, uri_path, spa_entry, disk, script).body == encode_utf8(
            "Error reading file: "@ + error,
        ),
{
}

/// Where neither the request nor the entry file, if one is set, names a file in the root
/// directory, the answer is that there is none, whatever else is on the disk.
pub proof fn law_missing_files_are_not_found(
    root: Seq<char>,
    uri_path: Seq<char>,
    spa_entry: Option<Seq<char>>,
    disk: Map<Seq<char>, FileState>,
    script: Seq<char>,
)
    requires
        below(root, uri_path) matches Some(path) ==> !disk.dom().contains(path),
        spa_entry matches Some(entry) ==> (below(root, entry) matches Some(path)
            ==> !disk.dom().contains(path)),
    ensures
        answer(root, uri_path, spa_entry, disk, script) == not_found_answer(),
        answer(root, uri_path, spa_entry, disk, script).status == Status::NotFound,
        answer(root, uri_path, spa_entry, disk, script).content_type is None,
        answer(root, uri_path, spa_entry, disk, script).body == encode_utf8("File not found"@),
{
}

/// A request that leads out of the root directory finds nothing, and nothing is looked at or
/// read for it, whatever is on the disk and whatever entry file is set.
pub proof fn law_climbing_requests_find_nothing(
    root: Seq<char>,
    uri_path: Seq<char>,
    spa_entry: Option<Seq<char>>,
)
    requires
        climbs(components(without_leading_slashes(uri_path))),
    ensures
        first_stage(root, uri_path, spa_entry) == (ExchangeView::Respond {
            response: not_found_answer(),
        }),
        first_stage(root, uri_path, spa_entry) matches ExchangeView::Respond { response }
            && response.status == Status::NotFound && response.content_type is None
            && response.body == encode_utf8("File not found"@),
{
}

/// A request is refused unread only where it leads out of the root directory: any other is
/// taken up, with or without `..` in it. What it names is looked at first. What the entry file
/// names comes second, if one is set and does not lead out of the root directory either.
pub proof fn law_other_requests_are_looked_at(
    root: Seq<char>,
    uri_path: Seq<char>,
    spa_entry: Option<Seq<char>>,
)
    requires
        !climbs(components(without_leading_slashes(uri_path))),
    ensures
        first_stage(root, uri_path, spa_entry) matches ExchangeView::CheckFile { path, fallback }
            && path == requested_path(root, uri_path) && match spa_entry {
            Some(entry) => if climbs(components(without_leading_slashes(entry))) {
                fallback is None
            } else {
                fallback == Some(requested_path(root, entry))
            },
            None => fallback is None,
        },
{
}

/// A request without a component `..` is looked at under the root directory, however many
/// directories it goes through.
pub proof fn law_requests_by_names_are_looked_at(
    root: Seq<char>,
    uri_path: Seq<char>,
    spa_entry: Option<Seq<char>>,
)
    requires
        forall|i: int|
            0 <= i < components(uri_path).len() ==> #[trigger] components(uri_path)[i] != seq![
                '.',
                '.',
            ],
    ensures
        below(root, uri_path) == Some(requested_path(root, uri_path)),
        first_stage(root, uri_path, spa_entry) matches ExchangeView::CheckFile { path, .. } && path
            == requested_path(root, uri_path),
{
    law_leading_slashes_add_no_component(uri_path);
    law_names_do_not_climb(components(uri_path));
}

/// Where a request names no file in the root directory, it is answered as a request for the
/// entry file is.
pub proof fn law_entry_file_stands_in(
    root: Seq<char>,
    uri_path: Seq<char>,
    entry: Seq<char>,
    disk: Map<Seq<char>, FileState>,
    script: Seq<char>,
)
    requires
        below(root, uri_path) matches Some(path) && !disk.dom().contains(path),
    ensures
        answer(root, uri_path, Some(entry), disk, script) == answer(
            root,
            entry,
            None,
            disk,
            script,
        ),
{
}

/// Whether everything that a stage of an exchange works on lies in the directory `root`.
pub open spec fn stays_in(root: Seq<char>, stage: ExchangeView) -> bool {
    match stage {
        ExchangeView::CheckFile { path, fallback } => lies_in(root, path) && (fallback matches Some(
            entry,
        ) ==> lies_in(root, entry)),
        ExchangeView::ReadText { path } => lies_in(root, path),
        ExchangeView::ReadBytes { path } => lies_in(root, path),
        ExchangeView::Respond { response } => true,
    }
}

/// No request leaves the root directory: at every stage, the path that is looked at or read
/// leads to a place in it.
pub proof fn law_requests_stay_in_the_root(
    root: Seq<char>,
    uri_path: Seq<char>,
    spa_entry: Option<Seq<char>>,
    disk: Map<Seq<char>, FileState>,
    script: Seq<char>,
    steps: nat,
)
    ensures
        stays_in(root, later_stage(first_stage(root, uri_path, spa_entry), disk, script, steps)),
{
    if !climbs(components(without_leading_slashes(uri_path))) {
        lemma_requested_place(root, uri_path);
    }
    if let Some(entry) = spa_entry {
        if !climbs(components(without_leading_slashes(entry))) {
            lemma_requested_place(root, entry);
        }
    }
    lemma_later_stages_stay(root, first_stage(root, uri_path, spa_entry), disk, script, steps);
}

/// An exchange that is in a directory stays there.
proof fn lemma_later_stages_stay(
    root: Seq<char>,
    stage: ExchangeView,
    disk: Map<Seq<char>, FileState>,
    script: Seq<char>,
    steps: nat,
)
    requires
        stays_in(root, stage),
    ensures
        stays_in(root, later_stage(stage, disk, script, steps)),
    decreases steps,
{
    if steps > 0 {
        lemma_later_stages_stay(
            root,
            next_stage(stage, disk, script),
            disk,
            script,
            (steps - 1) as nat,
        );
    }
}

// ---------------------------------------------------------------------------------------
// Paths
// ---------------------------------------------------------------------------------------

/// A slash in front of the requested path makes no difference.
pub proof fn law_leading_slash_is_ignored(root: Seq<char>, uri_path: Seq<char>)
    ensures
        requested_path(root, seq!['/'] + uri_path) == requested_path(root, uri_path),
{
    assert((seq!['/'] + uri_path).drop_first() == uri_path);
}

/// The path of a request is the root directory and then the requested path, with a slash
/// between them unless the root is empty or ends with one. Unless the request leads out of the
/// root, the path leads to where the requested path leads from there.
pub proof fn law_requests_extend_the_root(root: Seq<char>, uri_path: Seq<char>)
    ensures
        root.len() == 0 || root.last() == '/' ==> requested_path(root, uri_path) == root
            + without_leading_slashes(uri_path),
        root.len() > 0 && root.last() != '/' ==> requested_path(root, uri_path) == root + seq!['/']
            + without_leading_slashes(uri_path),
        !climbs(components(without_leading_slashes(uri_path))) ==> place(
            requested_path(root, uri_path),
        ) == place(root) + place(without_leading_slashes(uri_path)),
{
    lemma_trimmed(uri_path);
    assert(root.push('/') == root + seq!['/']);
    if !climbs(components(without_leading_slashes(uri_path))) {
        lemma_requested_place(root, uri_path);
    }
}

/// Behind a directory that is empty or ends with a slash, a plain name is the file name.
proof fn lemma_name_behind_directory(dir: Seq<char>, name: Seq<char>)
    requires
        dir.len() == 0 || dir.last() == '/',
        name.len() > 0,
        !name.contains('/'),
        name != seq!['.'],
        name != seq!['.', '.'],
    ensures
        name_of(dir + name) == Some(name),
{
    let path = dir + name;
    assert forall|i: int| dir.len() - 1 < i < path.len() implies path[i] != '/' by {
        assert(path[i] == name[i - dir.len()]);
    }
    lemma_last_position_is(path, '/', dir.len() - 1);
    assert(after_last(path, '/') == name);
}

/// The extension of a file is what follows the last dot in its name, wherever the file lies:
/// the name needs only something in front of that dot.
pub proof fn law_extension_by_name(dir: Seq<char>, stem: Seq<char>, ext: Seq<char>)
    requires
        dir.len() == 0 || dir.last() == '/',
        stem.len() > 0,
        !stem.contains('/'),
        stem == seq!['.'] ==> ext.len() > 0,
        !ext.contains('/'),
        !ext.contains('.'),
    ensures
        extension_of(dir + (stem + seq!['.'] + ext)) == Some(ext),
{
    let name = stem + seq!['.'] + ext;
    assert(name[stem.len() as int] == '.');
    assert(!name.contains('/')) by {
        if name.contains('/') {
            let i = choose|i: int| 0 <= i < name.len() && name[i] == '/';
            if i < stem.len() {
                assert(stem[i] == '/');
            } else {
                assert(ext[i - stem.len() - 1] == '/');
            }
        }
    }
    assert(name != seq!['.']);
    assert(name != seq!['.', '.']) by {
        if name == seq!['.', '.'] {
            assert(stem.len() == 1);
            assert(stem[0] == name[0]);
            assert(stem == seq!['.']);
        }
    }
    lemma_name_behind_directory(dir, name);
    assert forall|i: int| stem.len() < i < name.len() implies name[i] != '.' by {
        assert(name[i] == ext[i - stem.len() - 1]);
    }
    lemma_last_position_is(name, '.', stem.len() as int);
    assert(after_last(name, '.') == ext);
}

/// Trimming stops inside a directory that a slash ends, or at the name behind it.
proof fn lemma_trim_directory(dir: Seq<char>, name: Seq<char>)
    requires
        dir.len() == 0 || dir.last() == '/',
        name.len() > 0,
        name[0] != '/',
    ensures
        without_leading_slashes(dir + name) == without_leading_slashes(dir) + name,
        without_leading_slashes(dir).len() == 0 || without_leading_slashes(dir).last() == '/',
    decreases dir.len(),
{
    if dir.len() == 0 {
        assert(dir + name == name);
        assert(without_leading_slashes(dir) + name == name);
    } else if dir[0] == '/' {
        assert((dir + name).drop_first() == dir.drop_first() + name);
        lemma_trim_directory(dir.drop_first(), name);
    } else {
        assert((dir + name)[0] == dir[0]);
    }
}

/// A request for a name that ends in `.html`, in whatever directory, is one for an HTML file,
/// whatever the root directory is.
pub proof fn law_html_requests(root: Seq<char>, dir: Seq<char>, stem: Seq<char>)
    requires
        dir.len() == 0 || dir.last() == '/',
        stem.len() > 0,
        !stem.contains('/'),
    ensures
        has_html_extension(requested_path(root, dir + (stem + seq!['.'] + "html"@))),
{
    reveal_strlit("html");
    let name = stem + seq!['.'] + "html"@;
    let trimmed = without_leading_slashes(dir);
    assert(name[0] == stem[0]);
    lemma_trim_directory(dir, name);
    lemma_trimmed(dir + name);
    let full = if root.len() == 0 || root.last() == '/' {
        root + trimmed
    } else {
        root.push('/') + trimmed
    };
    assert(requested_path(root, dir + name) == full + name);
    assert(trimmed.len() > 0 ==> full.last() == trimmed.last());
    law_extension_by_name(full, stem, "html"@);
}

/// The path of a request for a plain name, in whatever directory, ends in that name.
proof fn lemma_requested_name(root: Seq<char>, dir: Seq<char>, name: Seq<char>)
    requires
        dir.len() == 0 || dir.last() == '/',
        name.len() > 0,
        !name.contains('/'),
        name != seq!['.'],
        name != seq!['.', '.'],
    ensures
        name_of(requested_path(root, dir + name)) == Some(name),
{
    let trimmed = without_leading_slashes(dir);
    assert(name[0] != '/') by {
        assert(name.contains(name[0]));
    }
    lemma_trim_directory(dir, name);
    lemma_trimmed(dir + name);
    let full = if root.len() == 0 || root.last() == '/' {
        root + trimmed
    } else {
        root.push('/') + trimmed
    };
    assert(requested_path(root, dir + name) == full + name);
    assert(trimmed.len() > 0 ==> full.last() == trimmed.last());
    lemma_name_behind_directory(full, name);
}

/// A request for a name with another extension than `html`, in whatever directory, is one for
/// a file that is not HTML. If the file is there and can be read, the answer is success, the
/// media type of that extension, and the bytes of the file.
pub proof fn law_requests_by_extension(
    root: Seq<char>,
    dir: Seq<char>,
    stem: Seq<char>,
    ext: Seq<char>,
    spa_entry: Option<Seq<char>>,
    disk: Map<Seq<char>, FileState>,
    script: Seq<char>,
    bytes: Seq<u8>,
)
    requires
        dir.len() == 0 || dir.last() == '/',
        stem.len() > 0,
        !stem.contains('/'),
        stem == seq!['.'] ==> ext.len() > 0,
        !ext.contains('/'),
        !ext.contains('.'),
        ext != "html"@,
    ensures
        !has_html_extension(requested_path(root, dir + (stem + seq!['.'] + ext))),
        ({
            let uri_path = dir + (stem + seq!['.'] + ext);
            let path = requested_path(root, uri_path);
            !climbs(components(uri_path)) && disk.dom().contains(path) && disk[path].bytes == Ok::<
                Seq<u8>,
                Seq<char>,
            >(bytes) ==> {
                &&& answer(root, uri_path, spa_entry, disk, script).status == Status::Success
                &&& answer(root, uri_path, spa_entry, disk, script).content_type == Some(
                    media_type_for(ext),
                )
                &&& answer(root, uri_path, spa_entry, disk, script).body == bytes
            }
        }),
{
    let name = stem + seq!['.'] + ext;
    let uri_path = dir + name;
    let path = requested_path(root, uri_path);
    assert(!name.contains('/')) by {
        if name.contains('/') {
            let i = choose|i: int| 0 <= i < name.len() && name[i] == '/';
            if i < stem.len() {
                assert(stem[i] == '/');
            } else {
                assert(ext[i - stem.len() - 1] == '/');
            }
        }
    }
    assert(name != seq!['.', '.']) by {
        if name == seq!['.', '.'] {
            assert(stem.len() == 1);
            assert(stem[0] == name[0]);
            assert(stem == seq!['.']);
        }
    }
    lemma_requested_name(root, dir, name);
    law_other_extensions_are_not_html(path, stem, ext);
    law_extension_is_behind_the_last_dot(path, ext);
    assert(extension_of(path) == Some(ext));
    law_content_type_is_that_of_the_extension(path, ext);
    law_leading_slashes_add_no_component(uri_path);
    if !climbs(components(uri_path)) && disk.dom().contains(path) && disk[path].bytes == Ok::<
        Seq<u8>,
        Seq<char>,
    >(bytes) {
        law_other_files_are_served_unchanged(
            root,
            uri_path,
            spa_entry,
            disk,
            script,
            path,
            bytes,
        );
    }
}

/// A request for a name without a dot, but for one that it may start with, is one for a file
/// that is not HTML. If the file is there and can be read, the answer is success, the default
/// media type, and the bytes of the file.
pub proof fn law_requests_without_extension(
    root: Seq<char>,
    dir: Seq<char>,
    name: Seq<char>,
    spa_entry: Option<Seq<char>>,
    disk: Map<Seq<char>, FileState>,
    script: Seq<char>,
    bytes: Seq<u8>,
)
    requires
        dir.len() == 0 || dir.last() == '/',
        name.len() > 0,
        name != seq!['.'],
        !name.contains('/'),
        forall|i: int| 0 < i < name.len() ==> #[trigger] name[i] != '.',
    ensures
        !has_html_extension(requested_path(root, dir + name)),
        ({
            let uri_path = dir + name;
            let path = requested_path(root, uri_path);
            !climbs(components(uri_path)) && disk.dom().contains(path) && disk[path].bytes == Ok::<
                Seq<u8>,
                Seq<char>,
            >(bytes) ==> {
                &&& answer(root, uri_path, spa_entry, disk, script).status == Status::Success
                &&& answer(root, uri_path, spa_entry, disk, script).content_type == Some(
                    "application/octet-stream"@,
                )
                &&& answer(root, uri_path, spa_entry, disk, script).body == bytes
            }
        }),
{
    let uri_path = dir + name;
    let path = requested_path(root, uri_path);
    assert(name != seq!['.', '.']) by {
        if name == seq!['.', '.'] {
            assert(name[1] == '.');
        }
    }
    lemma_requested_name(root, dir, name);
    law_names_without_dot_have_no_extension(path);
    law_content_type_is_that_of_the_extension(path, name);
    law_leading_slashes_add_no_component(uri_path);
    if !climbs(components(uri_path)) && disk.dom().contains(path) && disk[path].bytes == Ok::<
        Seq<u8>,
        Seq<char>,
    >(bytes) {
        law_other_files_are_served_unchanged(
            root,
            uri_path,
            spa_entry,
            disk,
            script,
            path,
            bytes,
        );
    }
}

/// Two files with the same extension are served under the same content type.
pub proof fn law_content_type_by_extension(a: Seq<char>, b: Seq<char>)
    requires
        extension_of(a) == extension_of(b),
    ensures
        content_type_of(a) == content_type_of(b),
{
}

// ---------------------------------------------------------------------------------------
// Clients
// ---------------------------------------------------------------------------------------

/// The positions of the flags that are set, in ascending order.
pub open spec fn accepted_positions(accepted: Seq<bool>) -> Seq<int>
    decreases accepted.len(),
{
    if accepted.len() == 0 {
        Seq::empty()
    } else if accepted.last() {
        accepted_positions(accepted.drop_last()).push(accepted.len() - 1)
    } else {
        accepted_positions(accepted.drop_last())
    }
}

/// The positions ascend and are exactly those of the flags that are set.
proof fn lemma_accepted_positions(accepted: Seq<bool>)
    ensures
        forall|j: int|
            0 <= j < accepted_positions(accepted).len() ==> 0
                <= #[trigger] accepted_positions(accepted)[j] < accepted.len()
                && accepted[accepted_positions(accepted)[j]],
        forall|j: int, k: int|
            0 <= j < k < accepted_positions(accepted).len() ==> accepted_positions(accepted)[j]
                < accepted_positions(accepted)[k],
        forall|i: int|
            0 <= i < accepted.len() && accepted[i] ==> #[trigger] accepted_positions(
                accepted,
            ).contains(i),
    decreases accepted.len(),
{
    if accepted.len() > 0 {
        let before = accepted.drop_last();
        let earlier = accepted_positions(before);
        let all = accepted_positions(accepted);
        lemma_accepted_positions(before);
        assert forall|j: int| 0 <= j < all.len() implies 0 <= #[trigger] all[j] < accepted.len()
            && accepted[all[j]] by {
            if j < earlier.len() {
                assert(all[j] == earlier[j]);
                assert(before[earlier[j]]);
            }
        }
        assert forall|j: int, k: int| 0 <= j < k < all.len() implies all[j] < all[k] by {
            assert(all[j] == earlier[j]);
            if k < earlier.len() {
                assert(all[k] == earlier[k]);
            }
        }
        assert forall|i: int| 0 <= i < accepted.len() && accepted[i] implies #[trigger] all.contains(
            i,
        ) by {
            if i < before.len() {
                assert(before[i]);
                assert(earlier.contains(i));
                let j = choose|j: int| 0 <= j < earlier.len() && earlier[j] == i;
                assert(all[j] == i);
            } else {
                assert(all[all.len() - 1] == i);
            }
        }
    }
}

/// The clients that stay are exactly those whose channel took the message, each once and in
/// their order.
pub proof fn law_accepted_clients_stay<C>(clients: Seq<C>, accepted: Seq<bool>)
    requires
        accepted.len() == clients.len(),
    ensures
        kept(clients, accepted).len() == accepted_positions(accepted).len(),
        forall|j: int|
            0 <= j < kept(clients, accepted).len() ==> #[trigger] kept(clients, accepted)[j]
                == clients[accepted_positions(accepted)[j]],
        forall|j: int, k: int|
            0 <= j < k < accepted_positions(accepted).len() ==> accepted_positions(accepted)[j]
                < accepted_positions(accepted)[k],
        forall|i: int|
            0 <= i < accepted.len() ==> (#[trigger] accepted_positions(accepted).contains(i)
                <==> accepted[i]),
        forall|j: int|
            0 <= j < accepted_positions(accepted).len() ==> 0
                <= #[trigger] accepted_positions(accepted)[j] < accepted.len()
                && accepted[accepted_positions(accepted)[j]],
    decreases clients.len(),
{
    lemma_accepted_positions(accepted);
    if clients.len() > 0 {
        let earlier = accepted.drop_last();
        law_accepted_clients_stay(clients.drop_last(), earlier);
        lemma_accepted_positions(earlier);
        assert forall|j: int| 0 <= j < kept(clients, accepted).len() implies #[trigger] kept(
            clients,
            accepted,
        )[j] == clients[accepted_positions(accepted)[j]] by {
            let before = kept(clients.drop_last(), earlier);
            if j < before.len() {
                assert(before[j] == clients.drop_last()[accepted_positions(earlier)[j]]);
                assert(0 <= accepted_positions(earlier)[j] < earlier.len());
            }
        }
    }
}

/// Where every channel takes the message, no client is removed.
pub proof fn law_connected_clients_stay<C>(clients: Seq<C>, accepted: Seq<bool>)
    requires
        accepted.len() == clients.len(),
        forall|i: int| 0 <= i < accepted.len() ==> accepted[i],
    ensures
        kept(clients, accepted) == clients,
    decreases clients.len(),
{
    if clients.len() > 0 {
        law_connected_clients_stay(clients.drop_last(), accepted.drop_last());
        assert(clients.drop_last().push(clients.last()) == clients);
    }
}

/// Where no channel takes the message, no client is left.
pub proof fn law_disconnected_clients_leave<C>(clients: Seq<C>, accepted: Seq<bool>)
    requires
        accepted.len() == clients.len(),
        forall|i: int| 0 <= i < accepted.len() ==> !accepted[i],
    ensures
        kept(clients, accepted) == Seq::<C>::empty(),
    decreases clients.len(),
{
    if clients.len() > 0 {
        law_disconnected_clients_leave(clients.drop_last(), accepted.drop_last());
    }
}

/// The flags with the other value.
pub open spec fn refused_flags(accepted: Seq<bool>) -> Seq<bool> {
    accepted.map_values(|taken: bool| !taken)
}

/// After a broadcast the clients that stay are exactly those whose channel took the message,
/// in their order, and the clients that leave are exactly the others. Each of either was handed
/// that message once and nothing else, on the channel that it had before.
pub proof fn law_each_client_is_told_once(
    clients: Seq<ClientView>,
    message: Seq<char>,
    accepted: Seq<bool>,
)
    requires
        accepted.len() == clients.len(),
    ensures
        kept(told(clients, message, accepted), accepted).len() == accepted_positions(
            accepted,
        ).len(),
        forall|j: int|
            0 <= j < accepted_positions(accepted).len() ==> #[trigger] kept(
                told(clients, message, accepted),
                accepted,
            )[j] == after_sending(clients[accepted_positions(accepted)[j]], message, true),
        kept(told(clients, message, accepted), refused_flags(accepted)).len()
            == accepted_positions(refused_flags(accepted)).len(),
        forall|j: int|
            0 <= j < accepted_positions(refused_flags(accepted)).len() ==> #[trigger] kept(
                told(clients, message, accepted),
                refused_flags(accepted),
            )[j] == after_sending(
                clients[accepted_positions(refused_flags(accepted))[j]],
                message,
                false,
            ),
        forall|i: int|
            0 <= i < clients.len() ==> (#[trigger] accepted_positions(accepted).contains(i)
                <==> !accepted_positions(refused_flags(accepted)).contains(i)),
{
    let refused = refused_flags(accepted);
    law_accepted_clients_stay(told(clients, message, accepted), accepted);
    lemma_accepted_positions(accepted);
    law_accepted_clients_stay(told(clients, message, accepted), refused);
    lemma_accepted_positions(refused);
    assert forall|j: int| 0 <= j < accepted_positions(refused).len() implies #[trigger] kept(
        told(clients, message, accepted),
        refused,
    )[j] == after_sending(clients[accepted_positions(refused)[j]], message, false) by {
        let i = accepted_positions(refused)[j];
        assert(refused[i]);
        assert(!accepted[i]);
    }
    assert forall|i: int| 0 <= i < clients.len() implies (#[trigger] accepted_positions(
        accepted,
    ).contains(i) <==> !accepted_positions(refused).contains(i)) by {
        assert(refused[i] == !accepted[i]);
    }
}

// ---------------------------------------------------------------------------------------
// Reloads
// ---------------------------------------------------------------------------------------

/// As long as changes are there, or were overwritten, the task goes on draining.
proof fn lemma_draining_goes_on(looks: Seq<Drained>)
    requires
        forall|i: int| 0 <= i < looks.len() ==> event_of(#[trigger] looks[i])
            == BroadcastEvent::Pending,
    ensures
        after_events(BroadcastTask::Receiving, burst(looks)) == BroadcastTask::Draining,
        reloads(BroadcastTask::Receiving, burst(looks)) == 0,
    decreases looks.len(),
{
    let events = burst(looks);
    if looks.len() == 0 {
        assert(events == seq![BroadcastEvent::Received, BroadcastEvent::Slept]);
        assert(events.drop_last() == seq![BroadcastEvent::Received]);
        assert(events.drop_last().drop_last() == Seq::<BroadcastEvent>::empty());
        reveal_with_fuel(after_events, 3);
        reveal_with_fuel(reloads, 3);
    } else {
        lemma_draining_goes_on(looks.drop_last());
        assert(events.drop_last() == burst(looks.drop_last()));
        assert(event_of(looks[looks.len() - 1]) == BroadcastEvent::Pending);
        assert(events.last() == BroadcastEvent::Pending);
    }
}

/// However many changes the task finds while it drains the channel, and even if some were
/// overwritten, the clients reload exactly once: when no change is left. After that the task
/// waits for the next change.
pub proof fn law_a_burst_reloads_once(looks: Seq<Drained>, end: Drained)
    requires
        forall|i: int|
            0 <= i < looks.len() ==> (#[trigger] looks[i]) is Taken || looks[i] is Overwritten,
        end is Empty || end is Closed,
    ensures
        after_events(BroadcastTask::Receiving, burst(looks.push(end))) == BroadcastTask::Reloading,
        reloads(BroadcastTask::Receiving, burst(looks.push(end))) == 1,
        pending_action(after_events(BroadcastTask::Receiving, burst(looks.push(end))))
            == BroadcastActionView::Send(RELOAD_MESSAGE@),
        after_events(
            BroadcastTask::Receiving,
            burst(looks.push(end)).push(BroadcastEvent::Reloaded),
        ) == BroadcastTask::Receiving,
        reloads(
            BroadcastTask::Receiving,
            burst(looks.push(end)).push(BroadcastEvent::Reloaded),
        ) == 1,
{
    let all = burst(looks.push(end));
    assert forall|i: int| 0 <= i < looks.len() implies event_of(#[trigger] looks[i])
        == BroadcastEvent::Pending by {
        assert(looks[i] is Taken || looks[i] is Overwritten);
    }
    lemma_draining_goes_on(looks);
    assert(all.drop_last() == burst(looks));
    assert(all.last() == BroadcastEvent::NonePending);
    assert(after_events(BroadcastTask::Receiving, all) == BroadcastTask::Reloading);
    assert(reloads(BroadcastTask::Receiving, all) == 1);
    let more = all.push(BroadcastEvent::Reloaded);
    assert(more.drop_last() == all);
    assert(more.last() == BroadcastEvent::Reloaded);
    assert(after_events(BroadcastTask::Receiving, more) == BroadcastTask::Receiving);
    assert(reloads(BroadcastTask::Receiving, more) == 1);
}

/// A task that waits for a change never has the clients reload more often than changes were
/// received, nor more often than the waiting time was kept.
pub proof fn law_reloads_need_changes(events: Seq<BroadcastEvent>)
    ensures
        reloads(BroadcastTask::Receiving, events) <= occurrences(events, BroadcastEvent::Received),
        reloads(BroadcastTask::Receiving, events) <= occurrences(events, BroadcastEvent::Slept),
{
    lemma_reload_budget(events);
}

/// A change that is on its way to a reload is not counted twice.
proof fn lemma_reload_budget(events: Seq<BroadcastEvent>)
    ensures
        reloads(BroadcastTask::Receiving, events) + (match after_events(
            BroadcastTask::Receiving,
            events,
        ) {
            BroadcastTask::Debouncing => 1int,
            BroadcastTask::Draining => 1int,
            _ => 0int,
        }) <= occurrences(events, BroadcastEvent::Received),
        reloads(BroadcastTask::Receiving, events) + (match after_events(
            BroadcastTask::Receiving,
            events,
        ) {
            BroadcastTask::Draining => 1int,
            _ => 0int,
        }) <= occurrences(events, BroadcastEvent::Slept),
    decreases events.len(),
{
    if events.len() > 0 {
        lemma_reload_budget(events.drop_last());
    }
}

/// Once receiving has failed the task has ended for good: no later event makes the clients
/// reload.
pub proof fn law_failure_ends_the_task(events: Seq<BroadcastEvent>)
    ensures
        after_event(BroadcastTask::Receiving, BroadcastEvent::ReceiveFailed)
            == BroadcastTask::Stopped,
        after_events(BroadcastTask::Stopped, events) == BroadcastTask::Stopped,
        reloads(BroadcastTask::Stopped, events) == 0,
    decreases events.len(),
{
    if events.len() > 0 {
        law_failure_ends_the_task(events.drop_last());
    }
}

/// The task sends nothing but the reload message, and only at a reload.
pub proof fn law_only_reloads_are_sent(task: BroadcastTask, message: Seq<char>)
    ensures
        pending_action(task) == BroadcastActionView::Send(message) <==> task
            == BroadcastTask::Reloading && message == RELOAD_MESSAGE@,
{
}

/// The script in the pages and the server agree: the script connects to the route of the
/// WebSocket connections, and the message that it waits for is the one that the task sends.
pub proof fn law_script_and_server_agree()
    ensures
        script_text().subrange(
            SCRIPT_HEAD@.len() as int,
            (SCRIPT_HEAD@ + WS_ROUTE@).len() as int,
        ) == WS_ROUTE@,
        pending_action(BroadcastTask::Reloading) == BroadcastActionView::Send(
            script_text().subrange(
                (SCRIPT_HEAD@ + WS_ROUTE@ + SCRIPT_MIDDLE@).len() as int,
                script_text().len() - SCRIPT_TAIL@.len(),
            ),
        ),
{
    assert(script_text().subrange(
        SCRIPT_HEAD@.len() as int,
        (SCRIPT_HEAD@ + WS_ROUTE@).len() as int,
    ) == WS_ROUTE@);
    assert(script_text().subrange(
        (SCRIPT_HEAD@ + WS_ROUTE@ + SCRIPT_MIDDLE@).len() as int,
        script_text().len() - SCRIPT_TAIL@.len(),
    ) == RELOAD_MESSAGE@);
}

// ---------------------------------------------------------------------------------------
// Connections
// ---------------------------------------------------------------------------------------

/// A client is sent the messages of its queue in their order, without a gap and none twice, up
/// to and with the first one that cannot be sent.
pub proof fn law_messages_are_forwarded_in_order<M>(queue: Seq<M>, sent: Seq<bool>)
    requires
        sent.len() == queue.len(),
    ensures
        forwarded(queue, sent).is_prefix_of(queue),
        forall|i: int|
            0 <= i < forwarded(queue, sent).len() - 1 ==> #[trigger] sent[i],
        forwarded(queue, sent).len() < queue.len() ==> forwarded(queue, sent).len() > 0
            && !sent[forwarded(queue, sent).len() - 1],
    decreases queue.len(),
{
    if queue.len() > 0 {
        let rest = queue.drop_first();
        let later = sent.drop_first();
        let all = forwarded(queue, sent);
        if sent[0] {
            law_messages_are_forwarded_in_order(rest, later);
            let tail = forwarded(rest, later);
            assert(all == seq![queue[0]] + tail);
            assert forall|i: int| 0 <= i < all.len() implies all[i] == queue[i] by {
                if i > 0 {
                    assert(tail[i - 1] == rest[i - 1]);
                }
            }
            assert forall|i: int| 0 <= i < all.len() - 1 implies #[trigger] sent[i] by {
                if i > 0 {
                    assert(later[i - 1]);
                }
            }
            if all.len() < queue.len() {
                assert(!later[tail.len() - 1]);
            }
        } else {
            assert(all == seq![queue[0]]);
        }
    }
}

/// Whether no two clients share a channel.
pub open spec fn all_apart(clients: Seq<ClientView>) -> bool {
    forall|i: int, j: int|
        0 <= i < j < clients.len() ==> apart(
            (#[trigger] clients[i]).sender,
            (#[trigger] clients[j]).sender,
        )
}

/// Connections do not mix: what one client is handed comes out of that client's queue only.
pub proof fn law_connections_do_not_mix(
    clients: Seq<ClientView>,
    i: int,
    j: int,
    queue: tokio::sync::mpsc::UnboundedReceiver<axum::extract::ws::Message>,
)
    requires
        all_apart(clients),
        0 <= i < clients.len(),
        0 <= j < clients.len(),
        i != j,
        bound(clients[i].sender, queue),
    ensures
        !bound(clients[j].sender, queue),
{
    if i < j {
        assert(apart(clients[i].sender, clients[j].sender));
    } else {
        assert(apart(clients[j].sender, clients[i].sender));
    }
}

/// A new client, apart from each of the others, keeps the clients apart.
pub proof fn law_connecting_keeps_clients_apart(clients: Seq<ClientView>, client: ClientView)
    requires
        all_apart(clients),
        forall|i: int| 0 <= i < clients.len() ==> apart((#[trigger] clients[i]).sender, client.sender),
    ensures
        all_apart(clients.push(client)),
{
    let all = clients.push(client);
    assert forall|i: int, j: int| 0 <= i < j < all.len() implies apart(
        (#[trigger] all[i]).sender,
        (#[trigger] all[j]).sender,
    ) by {
        assert(all[i] == clients[i]);
        if j < clients.len() {
            assert(all[j] == clients[j]);
        }
    }
}

/// A broadcast keeps the clients apart.
pub proof fn law_broadcasting_keeps_clients_apart(
    clients: Seq<ClientView>,
    message: Seq<char>,
    accepted: Seq<bool>,
)
    requires
        accepted.len() == clients.len(),
        all_apart(clients),
    ensures
        all_apart(kept(told(clients, message, accepted), accepted)),
{
    let after = kept(told(clients, message, accepted), accepted);
    let at = accepted_positions(accepted);
    law_each_client_is_told_once(clients, message, accepted);
    lemma_accepted_positions(accepted);
    assert forall|i: int, j: int| 0 <= i < j < after.len() implies apart(
        (#[trigger] after[i]).sender,
        (#[trigger] after[j]).sender,
    ) by {
        assert(at[i] < at[j]);
        assert(0 <= at[i] && at[j] < clients.len());
        assert(apart(clients[at[i]].sender, clients[at[j]].sender));
    }
}

// ---------------------------------------------------------------------------------------
// File changes
// ---------------------------------------------------------------------------------------

/// The events among the reports of the watcher, in their order.
pub open spec fn events_in(reports: Seq<Result<notify::Event, notify::Error>>) -> Seq<notify::Event>
    decreases reports.len(),
{
    if reports.len() == 0 {
        Seq::empty()
    } else {
        let before = events_in(reports.drop_last());
        match reports.last() {
            Ok(event) => before.push(event),
            Err(_) => before,
        }
    }
}

/// The events that a channel was handed, in their order.
pub open spec fn events_sent(channel: EventsView) -> Seq<notify::Event> {
    channel.sent.map_values(|entry: (notify::Event, Option<usize>)| entry.0)
}

/// Every event that the watcher reports is handed to the channel once, unaltered and in order;
/// errors send nothing. Neither an error nor an event that no one heard stops what comes after
/// it. `channel[i]` is the channel before the `i`-th report.
pub proof fn law_reports_are_forwarded_in_order(
    channel: Seq<EventsView>,
    reports: Seq<Result<notify::Event, notify::Error>>,
    outcomes: Seq<Report>,
)
    requires
        channel.len() == reports.len() + 1,
        outcomes.len() == reports.len(),
        forall|i: int|
            #![trigger reports[i]]
            0 <= i < reports.len() ==> passed_on(
                channel[i],
                reports[i],
                channel[i + 1],
                outcomes[i],
            ),
    ensures
        events_sent(channel.last()) == events_sent(channel[0]) + events_in(reports),
        channel.last().sender == channel[0].sender,
    decreases reports.len(),
{
    if reports.len() == 0 {
        assert(events_sent(channel[0]) + events_in(reports) == events_sent(channel[0]));
    } else {
        let n = reports.len() as int;
        let before = channel.drop_last();
        assert forall|i: int|
            #![trigger reports.drop_last()[i]]
            0 <= i < reports.drop_last().len() implies passed_on(
            before[i],
            reports.drop_last()[i],
            before[i + 1],
            outcomes.drop_last()[i],
        ) by {
            assert(reports[i] == reports.drop_last()[i]);
        }
        law_reports_are_forwarded_in_order(before, reports.drop_last(), outcomes.drop_last());
        assert(passed_on(channel[n - 1], reports[n - 1], channel[n], outcomes[n - 1]));
        let earlier = events_sent(channel[0]) + events_in(reports.drop_last());
        match reports.last() {
            Ok(event) => {
                assert(events_sent(channel[n]) == events_sent(channel[n - 1]).push(event)) by {
                    assert(channel[n].sent == channel[n - 1].sent.push(channel[n].sent.last()));
                }
                assert(earlier.push(event) == events_sent(channel[0]) + events_in(reports));
            },
            Err(_) => {},
        }
    }
}

} // verus!

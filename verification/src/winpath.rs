//! The lexical grammar of Win32 paths, as far as it takes to name the last
//! component. It is the same on every host.

use vstd::prelude::*;

use crate::lists::{last_index, rfind};
use crate::text::{chars_of, string_of};

verus! {

/// A backslash separates components, and so does a slash outside verbatim paths.
pub open spec fn is_separator(c: char, verbatim: bool) -> bool {
    c == '\\' || (c == '/' && !verbatim)
}

/// A path that starts with `\\?\` is verbatim.
pub open spec fn is_verbatim(path: Seq<char>) -> bool {
    path.len() >= 4 && path[0] == '\\' && path[1] == '\\' && path[2] == '?' && path[3] == '\\'
}

/// A drive letter and a colon stand at `at`.
pub open spec fn is_drive(path: Seq<char>, at: int) -> bool {
    &&& at + 1 < path.len()
    &&& ('a' <= path[at] <= 'z' || 'A' <= path[at] <= 'Z')
    &&& path[at + 1] == ':'
}

/// The end of the component that starts at `from`.
pub open spec fn component_end(path: Seq<char>, from: int, verbatim: bool) -> int
    decreases path.len() - from,
{
    if from >= path.len() {
        path.len() as int
    } else if is_separator(path[from], verbatim) {
        from
    } else {
        component_end(path, from + 1, verbatim)
    }
}

/// The start of the component that ends at `end`, not below `start`.
pub open spec fn component_start(path: Seq<char>, start: int, end: int, verbatim: bool) -> int
    decreases end - start,
{
    if end <= start {
        start
    } else if is_separator(path[end - 1], verbatim) {
        end
    } else {
        component_start(path, start, end - 1, verbatim)
    }
}

/// The end of a server name at `from` and the share name behind it; the end of
/// the server name where no share is named.
pub open spec fn share_end(path: Seq<char>, from: int, verbatim: bool) -> int {
    let server_end = component_end(path, from, verbatim);
    let end = component_end(path, server_end + 1, verbatim);
    if server_end + 1 < end {
        end
    } else {
        server_end
    }
}

/// The length of the prefix: `\\?\UNC\server\share`, `\\?\C:`, `\\?\name`,
/// `\\.\device`, `\\server\share`, `C:`, or nothing. Behind `UNC` either
/// separator may stand.
pub open spec fn prefix_len(path: Seq<char>) -> int {
    if is_verbatim(path) {
        if path.len() >= 8 && path[4] == 'U' && path[5] == 'N' && path[6] == 'C' && is_separator(
            path[7],
            false,
        ) {
            share_end(path, 8, true)
        } else if is_drive(path, 4) && (path.len() == 6 || is_separator(path[6], false)) {
            6
        } else {
            component_end(path, 4, true)
        }
    } else if path.len() >= 2 && is_separator(path[0], false) && is_separator(path[1], false) {
        if path.len() >= 4 && path[2] == '.' && is_separator(path[3], false) {
            component_end(path, 4, false)
        } else {
            let server_end = component_end(path, 2, false);
            let end = share_end(path, 2, false);
            if 2 < server_end < end {
                end
            } else {
                0
            }
        }
    } else if is_drive(path, 0) {
        2
    } else {
        0
    }
}

/// Where the components start: behind the prefix, and behind the root where a
/// separator follows. A slash is a root behind a verbatim drive too.
pub open spec fn body_start(path: Seq<char>) -> int {
    let len = prefix_len(path);
    if len < path.len() && is_separator(path[len], false) {
        len + 1
    } else {
        len
    }
}

pub open spec fn is_dot(component: Seq<char>) -> bool {
    component.len() == 1 && component[0] == '.'
}

pub open spec fn is_dot_dot(component: Seq<char>) -> bool {
    component.len() == 2 && component[0] == '.' && component[1] == '.'
}

/// The last component of `path` between `start` and `end` that names something:
/// empty components are skipped, and so is `.` outside verbatim paths. A path
/// whose last component is `..` names nothing.
pub open spec fn last_component(path: Seq<char>, start: int, end: int, verbatim: bool) -> Option<
    Seq<char>,
>
    decreases end - start,
{
    if end <= start {
        None
    } else {
        let begin = component_start(path, start, end, verbatim);
        let component = path.subrange(begin, end);
        if component.len() == 0 || (is_dot(component) && !verbatim) {
            if start < begin <= end {
                last_component(path, start, begin - 1, verbatim)
            } else {
                None
            }
        } else if is_dot(component) || is_dot_dot(component) {
            None
        } else {
            Some(component)
        }
    }
}

/// The file name of a path.
pub open spec fn file_name(path: Seq<char>) -> Option<Seq<char>> {
    last_component(path, body_start(path), path.len() as int, is_verbatim(path))
}

/// A file name without its extension: what stands before the last dot, unless
/// that is the first character.
pub open spec fn stem_of(name: Seq<char>) -> Seq<char> {
    match last_index(name, '.') {
        Some(i) => if i > 0 {
            name.take(i)
        } else {
            name
        },
        None => name,
    }
}

/// The file name of a path without its extension.
pub open spec fn stem(path: Seq<char>) -> Option<Seq<char>> {
    match file_name(path) {
        Some(name) => Some(stem_of(name)),
        None => None,
    }
}

fn separates(c: char, verbatim: bool) -> (separates: bool)
    ensures
        separates == is_separator(c, verbatim),
{
    c == '\\' || (c == '/' && !verbatim)
}

fn has_drive(path: &[char], at: usize) -> (drive: bool)
    requires
        at < 8,
    ensures
        drive == is_drive(path@, at as int),
{
    at + 1 < path.len() && (('a' <= path[at] && path[at] <= 'z') || ('A' <= path[at] && path[at]
        <= 'Z')) && path[at + 1] == ':'
}

fn find_component_end(path: &[char], from: usize, verbatim: bool) -> (end: usize)
    ensures
        end == component_end(path@, from as int, verbatim),
        end <= path@.len(),
{
    let mut at: usize = from;
    while at < path.len() && !separates(path[at], verbatim)
        invariant
            component_end(path@, from as int, verbatim) == component_end(
                path@,
                at as int,
                verbatim,
            ),
        decreases path@.len() - at,
    {
        at = at + 1;
    }
    if at < path.len() {
        at
    } else {
        path.len()
    }
}

fn find_share_end(path: &[char], from: usize, verbatim: bool) -> (end: usize)
    ensures
        end == share_end(path@, from as int, verbatim),
        end <= path@.len(),
{
    let server_end = find_component_end(path, from, verbatim);
    if server_end >= path.len() {
        return server_end;
    }
    let end = find_component_end(path, server_end + 1, verbatim);
    if server_end + 1 < end {
        end
    } else {
        server_end
    }
}

fn find_prefix_len(path: &[char]) -> (len: usize)
    ensures
        len == prefix_len(path@),
        len <= path@.len(),
{
    let n = path.len();
    if n >= 4 && path[0] == '\\' && path[1] == '\\' && path[2] == '?' && path[3] == '\\' {
        if n >= 8 && path[4] == 'U' && path[5] == 'N' && path[6] == 'C' && separates(
            path[7],
            false,
        ) {
            find_share_end(path, 8, true)
        } else if has_drive(path, 4) && (n == 6 || separates(path[6], false)) {
            6
        } else {
            find_component_end(path, 4, true)
        }
    } else if n >= 2 && separates(path[0], false) && separates(path[1], false) {
        if n >= 4 && path[2] == '.' && separates(path[3], false) {
            find_component_end(path, 4, false)
        } else {
            let server_end = find_component_end(path, 2, false);
            let end = find_share_end(path, 2, false);
            if 2 < server_end && server_end < end {
                end
            } else {
                0
            }
        }
    } else if has_drive(path, 0) {
        2
    } else {
        0
    }
}

fn find_body_start(path: &[char]) -> (start: usize)
    ensures
        start == body_start(path@),
        start <= path@.len(),
{
    let len = find_prefix_len(path);
    if len < path.len() && separates(path[len], false) {
        len + 1
    } else {
        len
    }
}

fn find_component_start(path: &[char], start: usize, end: usize, verbatim: bool) -> (begin: usize)
    requires
        start <= end <= path@.len(),
    ensures
        begin == component_start(path@, start as int, end as int, verbatim),
        start <= begin <= end,
{
    let mut at: usize = end;
    while start < at && !separates(path[at - 1], verbatim)
        invariant
            start <= at <= end <= path@.len(),
            component_start(path@, start as int, end as int, verbatim) == component_start(
                path@,
                start as int,
                at as int,
                verbatim,
            ),
        decreases at,
    {
        at = at - 1;
    }
    at
}

/// The file name of a Win32 path without its extension; nothing for a path that
/// ends in `..` or names no file.
pub fn file_stem(path: &str) -> (found: Option<String>)
    ensures
        match found {
            Some(text) => stem(path@) == Some(text@),
            None => stem(path@) is None,
        },
{
    let chars = chars_of(path);
    let chars = chars.as_slice();
    let n = chars.len();
    let verbatim = n >= 4 && chars[0] == '\\' && chars[1] == '\\' && chars[2] == '?' && chars[3]
        == '\\';
    let start = find_body_start(chars);
    let mut end: usize = n;
    while start < end
        invariant
            chars@ == path@,
            start == body_start(path@),
            verbatim == is_verbatim(path@),
            start <= path@.len(),
            end <= path@.len(),
            file_name(path@) == last_component(path@, start as int, end as int, verbatim),
        decreases end,
    {
        let begin = find_component_start(chars, start, end, verbatim);
        let len: usize = end - begin;
        let dot = len == 1 && chars[begin] == '.';
        if len == 0 || (dot && !verbatim) {
            if start < begin {
                end = begin - 1;
                continue ;
            }
            return None;
        }
        if dot || (len == 2 && chars[begin] == '.' && chars[begin + 1] == '.') {
            return None;
        }
        let mut name: Vec<char> = Vec::new();
        for i in begin..end
            invariant
                chars@ == path@,
                end <= path@.len(),
                begin <= i,
                name@ == path@.subrange(begin as int, i as int),
        {
            name.push(chars[i]);
        }
        if let Some(i) = rfind(name.as_slice(), '.') {
            if i > 0 {
                proof {
                    crate::lists::last_index_is_last(name@, '.');
                }
                name.truncate(i);
            }
        }
        return Some(string_of(name.as_slice()));
    }
    None
}

proof fn component_starts_behind_separator(
    path: Seq<char>,
    start: int,
    begin: int,
    end: int,
    verbatim: bool,
)
    requires
        0 <= start <= begin <= end <= path.len(),
        start < begin ==> is_separator(path[begin - 1], verbatim),
        forall|i: int| begin <= i < end ==> !is_separator(#[trigger] path[i], verbatim),
    ensures
        component_start(path, start, end, verbatim) == begin,
    decreases end - begin,
{
    if begin < end {
        component_starts_behind_separator(path, start, begin, end - 1, verbatim);
    }
}

/// The stem of a file on a drive is the file's name without its extension,
/// whatever directory it is in.
pub proof fn stem_of_file_on_drive(dir: Seq<char>, base: Seq<char>, extension: Seq<char>)
    requires
        is_drive(dir, 0),
        base.len() > 0,
        !(is_dot(base) && extension.len() == 0),
        forall|i: int| 0 <= i < base.len() ==> !is_separator(#[trigger] base[i], false),
        forall|i: int|
            0 <= i < extension.len() ==> !is_separator(#[trigger] extension[i], false)
                && extension[i] != '.',
    ensures
        stem(dir + seq!['\\'] + base + seq!['.'] + extension) == Some(base),
{
    let name = base + seq!['.'] + extension;
    let path = dir + seq!['\\'] + base + seq!['.'] + extension;
    let begin = dir.len() + 1;
    let end = path.len() as int;
    assert(path[0] == dir[0] && path[1] == dir[1]);
    assert(path[begin - 1] == '\\');
    assert(path.subrange(begin as int, end) =~= name);
    assert forall|i: int| begin <= i < end implies !is_separator(#[trigger] path[i], false) by {
        let at = i - begin;
        assert(path[i] == name[at]);
        if at < base.len() {
            assert(name[at] == base[at]);
        } else if at > base.len() {
            assert(name[at] == extension[at - base.len() - 1]);
        }
    }
    if dir.len() == 2 {
        assert(path[2] == '\\');
    } else {
        assert(path[2] == dir[2]);
    }
    component_starts_behind_separator(path, body_start(path), begin as int, end, false);
    assert(name[base.len() as int] == '.');
    assert(name[0] == base[0]);
    assert forall|i: int| base.len() < i < name.len() implies #[trigger] name[i] != '.' by {
        assert(name[i] == extension[i - base.len() - 1]);
    }
    crate::lists::last_index_found(name, '.', base.len() as int);
    assert(name.take(base.len() as int) =~= base);
    assert(!is_dot_dot(name));
    assert(file_name(path) == Some(name));
}

/// The path starts with two backslashes, a question mark and a backslash.
pub open spec fn starts_verbatim(path: Seq<char>) -> bool {
    "\\\\?\\"@.is_prefix_of(path)
}

proof fn verbatim_start(path: Seq<char>)
    ensures
        starts_verbatim(path) <==> is_verbatim(path),
{
    reveal_strlit("\\\\?\\");
    let head = "\\\\?\\"@;
    if is_verbatim(path) {
        assert(path.subrange(0, 4) =~= head);
    }
    if starts_verbatim(path) {
        assert(path.subrange(0, 4)[0] == head[0] && path.subrange(0, 4)[1] == head[1]
            && path.subrange(0, 4)[2] == head[2] && path.subrange(0, 4)[3] == head[3]);
    }
}

proof fn component_ends(path: Seq<char>, from: int, end: int, verbatim: bool)
    requires
        0 <= from <= end <= path.len(),
        forall|i: int| from <= i < end ==> !is_separator(#[trigger] path[i], verbatim),
        end < path.len() ==> is_separator(path[end], verbatim),
    ensures
        component_end(path, from, verbatim) == end,
    decreases end - from,
{
    if from < end {
        component_ends(path, from + 1, end, verbatim);
    }
}

proof fn component_end_in_path(path: Seq<char>, from: int, verbatim: bool)
    requires
        0 <= from,
    ensures
        0 <= component_end(path, from, verbatim) <= path.len(),
    decreases path.len() - from,
{
    if from < path.len() {
        component_end_in_path(path, from + 1, verbatim);
    }
}

/// The prefix is a part of the path.
pub proof fn prefix_is_in_path(path: Seq<char>)
    ensures
        0 <= prefix_len(path) <= path.len(),
        prefix_len(path) <= body_start(path) <= path.len(),
{
    component_end_in_path(path, 4, true);
    component_end_in_path(path, 4, false);
    component_end_in_path(path, 8, true);
    component_end_in_path(path, component_end(path, 8, true) + 1, true);
    component_end_in_path(path, 2, false);
    component_end_in_path(path, component_end(path, 2, false) + 1, false);
}

/// `c` is a slash or a backslash.
pub open spec fn is_slash(c: char) -> bool {
    c == '/' || c == '\\'
}

/// A text without a slash or a backslash.
pub open spec fn no_slash(text: Seq<char>) -> bool {
    forall|i: int| 0 <= i < text.len() ==> !is_slash(#[trigger] text[i])
}

/// A text without a backslash.
pub open spec fn no_backslash(text: Seq<char>) -> bool {
    forall|i: int| 0 <= i < text.len() ==> #[trigger] text[i] != '\\'
}

/// A path on a drive has the letter and the colon as its prefix, and one that
/// starts with neither a drive nor two slashes has none.
pub proof fn prefix_of_a_drive(path: Seq<char>)
    ensures
        path.len() >= 2 && ('a' <= path[0] <= 'z' || 'A' <= path[0] <= 'Z') && path[1] == ':'
            ==> prefix_len(path) == 2,
        !(path.len() >= 2 && ('a' <= path[0] <= 'z' || 'A' <= path[0] <= 'Z') && path[1] == ':')
            && !(path.len() >= 2 && is_slash(path[0]) && is_slash(path[1])) ==> prefix_len(path)
            == 0,
{
}

/// A path on a share has the server and the share as its prefix; without a share,
/// or with an empty server, it has none.
pub proof fn prefix_of_a_share(a: char, b: char, server: Seq<char>, rest: Seq<char>)
    requires
        is_slash(a) && is_slash(b),
        no_slash(server),
        server != seq!['.'],
        rest.len() > 0 ==> is_slash(rest[0]),
        !starts_verbatim(seq![a, b] + server + rest),
    ensures
        ({
            let path = seq![a, b] + server + rest;
            &&& server.len() == 0 ==> prefix_len(path) == 0
            &&& rest.len() <= 1 ==> prefix_len(path) == 0
            &&& rest.len() > 1 && is_slash(rest[1]) ==> prefix_len(path) == 0
            &&& forall|n: int|
                #![trigger rest.subrange(1, n)]
                server.len() > 0 && 1 < n <= rest.len() && no_slash(rest.subrange(1, n)) && (n
                    < rest.len() ==> is_slash(rest[n])) ==> prefix_len(path) == 2 + server.len() + n
        }),
{
    let path = seq![a, b] + server + rest;
    let server_end = 2 + server.len() as int;
    verbatim_start(path);
    assert(path[0] == a && path[1] == b);
    assert forall|i: int| 2 <= i < server_end implies !is_separator(#[trigger] path[i], false) by {
        assert(path[i] == server[i - 2]);
    }
    if rest.len() > 0 {
        assert(path[server_end] == rest[0]);
    }
    component_ends(path, 2, server_end, false);
    assert(!(path.len() >= 4 && path[2] == '.' && is_separator(path[3], false))) by {
        if path.len() >= 4 && path[2] == '.' && is_separator(path[3], false) {
            if server.len() > 0 {
                assert(path[2] == server[0]);
                if server.len() > 1 {
                    assert(path[3] == server[1]);
                }
                assert(server =~= seq!['.']);
            } else {
                assert(path[2] == rest[0]);
            }
        }
    }
    if rest.len() <= 1 {
    } else if is_slash(rest[1]) {
        assert(path[server_end + 1] == rest[1]);
        component_ends(path, server_end + 1, server_end + 1, false);
    }
    assert forall|n: int|
        #![trigger rest.subrange(1, n)]
        server.len() > 0 && 1 < n <= rest.len() && no_slash(rest.subrange(1, n)) && (n < rest.len()
            ==> is_slash(rest[n])) implies prefix_len(path) == 2 + server.len() + n by {
        let end = server_end + n;
        let share = rest.subrange(1, n);
        assert forall|i: int| server_end < i < end implies !is_separator(
            #[trigger] path[i],
            false,
        ) by {
            assert(path[i] == rest[i - server_end]);
            assert(share[i - server_end - 1] == rest[i - server_end]);
        }
        if n < rest.len() {
            assert(path[end] == rest[n]);
        }
        component_ends(path, server_end + 1, end, false);
    }
}

/// A path of a device has the device's name as the end of its prefix.
pub proof fn prefix_of_a_device(a: char, b: char, c: char, name: Seq<char>, rest: Seq<char>)
    requires
        is_slash(a) && is_slash(b) && is_slash(c),
        no_slash(name),
        rest.len() > 0 ==> is_slash(rest[0]),
    ensures
        prefix_len(seq![a, b, '.', c] + name + rest) == 4 + name.len(),
{
    let path = seq![a, b, '.', c] + name + rest;
    assert(path[0] == a && path[1] == b && path[2] == '.' && path[3] == c);
    assert forall|i: int| 4 <= i < 4 + name.len() implies !is_separator(
        #[trigger] path[i],
        false,
    ) by {
        assert(path[i] == name[i - 4]);
    }
    if rest.len() > 0 {
        assert(path[4 + name.len() as int] == rest[0]);
    }
    component_ends(path, 4, 4 + name.len() as int, false);
}

/// A verbatim path on a drive has the drive as the end of its prefix.
pub proof fn prefix_of_a_verbatim_drive(letter: char, rest: Seq<char>)
    requires
        'a' <= letter <= 'z' || 'A' <= letter <= 'Z',
        rest.len() > 0 ==> is_slash(rest[0]),
    ensures
        prefix_len("\\\\?\\"@ + seq![letter, ':'] + rest) == 6,
{
    reveal_strlit("\\\\?\\");
    let path = "\\\\?\\"@ + seq![letter, ':'] + rest;
    assert(path[0] == '\\' && path[1] == '\\' && path[2] == '?' && path[3] == '\\');
    assert(path[4] == letter && path[5] == ':');
    if rest.len() > 0 {
        assert(path[6] == rest[0]);
    }
}

/// A verbatim path on a share has the share as the end of its prefix, and the
/// server where no share is named. In it only a backslash ends a name.
pub proof fn prefix_of_a_verbatim_share(slash: char, server: Seq<char>, rest: Seq<char>)
    requires
        is_slash(slash),
        no_backslash(server),
        rest.len() > 0 ==> rest[0] == '\\',
    ensures
        ({
            let path = "\\\\?\\UNC"@ + seq![slash] + server + rest;
            &&& rest.len() <= 1 ==> prefix_len(path) == 8 + server.len()
            &&& rest.len() > 1 && rest[1] == '\\' ==> prefix_len(path) == 8 + server.len()
            &&& forall|n: int|
                #![trigger rest.subrange(1, n)]
                1 < n <= rest.len() && no_backslash(rest.subrange(1, n)) && (n < rest.len()
                    ==> rest[n] == '\\') ==> prefix_len(path) == 8 + server.len() + n
        }),
{
    reveal_strlit("\\\\?\\UNC");
    let path = "\\\\?\\UNC"@ + seq![slash] + server + rest;
    let server_end = 8 + server.len() as int;
    assert(path[0] == '\\' && path[1] == '\\' && path[2] == '?' && path[3] == '\\');
    assert(path[4] == 'U' && path[5] == 'N' && path[6] == 'C' && path[7] == slash);
    assert forall|i: int| 8 <= i < server_end implies !is_separator(#[trigger] path[i], true) by {
        assert(path[i] == server[i - 8]);
    }
    if rest.len() > 0 {
        assert(path[server_end] == rest[0]);
    }
    component_ends(path, 8, server_end, true);
    if rest.len() > 1 && rest[1] == '\\' {
        assert(path[server_end + 1] == rest[1]);
        component_ends(path, server_end + 1, server_end + 1, true);
    }
    assert forall|n: int|
        #![trigger rest.subrange(1, n)]
        1 < n <= rest.len() && no_backslash(rest.subrange(1, n)) && (n < rest.len() ==> rest[n]
            == '\\') implies prefix_len(path) == 8 + server.len() + n by {
        let end = server_end + n;
        let share = rest.subrange(1, n);
        assert forall|i: int| server_end < i < end implies !is_separator(
            #[trigger] path[i],
            true,
        ) by {
            assert(path[i] == rest[i - server_end]);
            assert(share[i - server_end - 1] == rest[i - server_end]);
        }
        if n < rest.len() {
            assert(path[end] == rest[n]);
        }
        component_ends(path, server_end + 1, end, true);
    }
}

/// Any other verbatim path has its first name as the end of its prefix.
pub proof fn prefix_of_a_verbatim_name(name: Seq<char>, rest: Seq<char>)
    requires
        no_backslash(name),
        rest.len() > 0 ==> rest[0] == '\\',
        !(name.len() >= 2 && ('a' <= name[0] <= 'z' || 'A' <= name[0] <= 'Z') && name[1] == ':'),
        name != "UNC"@,
        !(name.len() >= 4 && name.take(3) == "UNC"@ && name[3] == '/'),
    ensures
        prefix_len("\\\\?\\"@ + name + rest) == 4 + name.len(),
{
    reveal_strlit("\\\\?\\");
    reveal_strlit("UNC");
    let path = "\\\\?\\"@ + name + rest;
    let end = 4 + name.len() as int;
    assert(path[0] == '\\' && path[1] == '\\' && path[2] == '?' && path[3] == '\\');
    assert forall|i: int| 4 <= i < end implies path[i] == name[i - 4] by {}
    assert forall|i: int| 4 <= i < end implies !is_separator(#[trigger] path[i], true) by {
        assert(path[i] == name[i - 4]);
    }
    if rest.len() > 0 {
        assert(path[end] == rest[0]);
    }
    if path.len() >= 8 && path[4] == 'U' && path[5] == 'N' && path[6] == 'C' && is_separator(
        path[7],
        false,
    ) {
        if name.len() >= 4 {
            assert(name.take(3) =~= "UNC"@);
            assert(path[7] == name[3]);
        } else if name.len() == 3 {
            assert(name =~= "UNC"@);
        } else {
            assert(path[end] == '\\');
        }
    }
    if is_drive(path, 4) {
        if name.len() < 2 {
            assert(path[end] == '\\');
        }
    }
    component_ends(path, 4, end, true);
}

proof fn trailing_separators_are_skipped(
    path: Seq<char>,
    start: int,
    end: int,
    n: int,
    verbatim: bool,
)
    requires
        0 <= start <= end <= n <= path.len(),
        forall|i: int| end <= i < n ==> is_separator(#[trigger] path[i], verbatim),
    ensures
        last_component(path, start, n, verbatim) == last_component(path, start, end, verbatim),
    decreases n - end,
{
    if end < n {
        assert(is_separator(path[n - 1], verbatim));
        assert(path.subrange(n, n).len() == 0);
        trailing_separators_are_skipped(path, start, end, n - 1, verbatim);
    }
}

/// The file of a path is its last component: what stands between `begin` and
/// `end` behind the prefix, where a separator or the prefix is before it and
/// nothing but separators behind it. Slashes separate too, but in a verbatim path
/// only as the root. `..` names no file, and neither does `.` in a verbatim path.
pub proof fn file_is_the_last_component(path: Seq<char>, begin: int, end: int)
    requires
        ({
            let n = prefix_len(path);
            let v = starts_verbatim(path);
            &&& n <= begin < end <= path.len()
            &&& begin == n || path[begin - 1] == '\\' || (path[begin - 1] == '/' && (!v || begin
                == n + 1))
            &&& begin == n ==> path[n] != '/'
            &&& forall|i: int|
                begin <= i < end ==> #[trigger] path[i] != '\\' && (path[i] == '/' ==> v)
            &&& forall|i: int|
                end <= i < path.len() ==> #[trigger] path[i] == '\\' || (path[i] == '/' && !v)
        }),
    ensures
        ({
            let name = path.subrange(begin, end);
            &&& name == seq!['.', '.'] ==> stem(path) is None
            &&& name == seq!['.'] && starts_verbatim(path) ==> stem(path) is None
            &&& name != seq!['.', '.'] && name != seq!['.'] ==> stem(path) == Some(stem_of(name))
        }),
{
    let v = is_verbatim(path);
    let start = body_start(path);
    let name = path.subrange(begin, end);
    verbatim_start(path);
    prefix_is_in_path(path);
    trailing_separators_are_skipped(path, start, end, path.len() as int, v);
    component_starts_behind_separator(path, start, begin, end, v);
    if is_dot(name) {
        assert(name =~= seq!['.']);
    }
    if is_dot_dot(name) {
        assert(name =~= seq!['.', '.']);
    }
}

/// A path with nothing but separators behind its prefix names no file.
pub proof fn no_file_without_a_component(path: Seq<char>)
    requires
        ({
            let n = prefix_len(path);
            let v = starts_verbatim(path);
            &&& n <= path.len()
            &&& forall|i: int|
                n <= i < path.len() ==> #[trigger] path[i] == '\\' || (path[i] == '/' && (!v || i
                    == n))
        }),
    ensures
        stem(path) is None,
{
    let v = is_verbatim(path);
    let start = body_start(path);
    verbatim_start(path);
    prefix_is_in_path(path);
    trailing_separators_are_skipped(path, start, start, path.len() as int, v);
}

/// A separator or a `.` component at the end changes nothing outside verbatim
/// paths, as long as the prefix stays the same.
pub proof fn dots_at_the_end_are_skipped(path: Seq<char>, slash: char)
    requires
        is_slash(slash),
        !starts_verbatim(path + seq![slash, '.']),
        prefix_len(path + seq![slash, '.']) == prefix_len(path),
        prefix_len(path) < path.len(),
    ensures
        stem(path + seq![slash, '.']) == stem(path),
{
    let longer = path + seq![slash, '.'];
    let n = path.len() as int;
    verbatim_start(longer);
    verbatim_start(path);
    prefix_is_in_path(path);
    assert(forall|i: int| 0 <= i < n ==> longer[i] == path[i]);
    assert(longer[n] == slash && longer[n + 1] == '.');
    let start = body_start(path);
    assert(body_start(longer) == start);
    assert(!is_verbatim(path));
    component_starts_behind_separator(longer, start, n + 1, n + 2, false);
    assert(is_dot(longer.subrange(n + 1, n + 2)));
    assert(last_component(longer, start, n + 2, false) == last_component(longer, start, n, false));
    same_last_component(path, longer, start, n);
}

proof fn same_component_start(path: Seq<char>, longer: Seq<char>, start: int, end: int)
    requires
        0 <= start <= end <= path.len() <= longer.len(),
        forall|i: int| 0 <= i < path.len() ==> longer[i] == path[i],
    ensures
        component_start(longer, start, end, false) == component_start(path, start, end, false),
        start <= component_start(path, start, end, false) <= end,
    decreases end - start,
{
    if start < end {
        same_component_start(path, longer, start, end - 1);
    }
}

proof fn same_last_component(path: Seq<char>, longer: Seq<char>, start: int, end: int)
    requires
        0 <= start <= path.len(),
        end <= path.len() <= longer.len(),
        forall|i: int| 0 <= i < path.len() ==> longer[i] == path[i],
    ensures
        last_component(longer, start, end, false) == last_component(path, start, end, false),
    decreases end - start,
{
    if start < end {
        same_component_start(path, longer, start, end);
        let begin = component_start(path, start, end, false);
        assert(longer.subrange(begin, end) =~= path.subrange(begin, end));
        if start < begin {
            same_last_component(path, longer, start, begin - 1);
        }
    }
}

/// An extension is what follows the last dot, unless that dot is the first
/// character: a name without a dot, or with one at its start alone, is its own
/// stem.
pub proof fn stem_is_without_extension(base: Seq<char>, extension: Seq<char>)
    requires
        !extension.contains('.'),
    ensures
        base.len() > 0 ==> stem_of(base + seq!['.'] + extension) == base,
        stem_of(extension) == extension,
        stem_of(seq!['.'] + extension) == seq!['.'] + extension,
{
    let name = base + seq!['.'] + extension;
    assert forall|i: int| base.len() < i < name.len() implies #[trigger] name[i] != '.' by {
        assert(name[i] == extension[i - base.len() - 1]);
        assert(extension.contains(extension[i - base.len() - 1]));
    }
    assert(name[base.len() as int] == '.');
    crate::lists::last_index_found(name, '.', base.len() as int);
    assert(name.take(base.len() as int) =~= base);
    crate::lists::last_index_is_last(extension, '.');
    if let Some(i) = last_index(extension, '.') {
        assert(extension.contains(extension[i]));
    }
    let hidden = seq!['.'] + extension;
    assert forall|i: int| 0 < i < hidden.len() implies #[trigger] hidden[i] != '.' by {
        assert(hidden[i] == extension[i - 1]);
        assert(extension.contains(extension[i - 1]));
    }
    assert(hidden[0] == '.');
    crate::lists::last_index_found(hidden, '.', 0);
}

} // verus!

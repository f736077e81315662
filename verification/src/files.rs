//! File names and paths: which files the application opens, under which name a
//! download is kept, and where the user wants it.
use vstd::prelude::*;
use vstd::string::*;

use crate::text;

verus! {

// ---------------------------------------------------------------------------
// The last component of a path
// ---------------------------------------------------------------------------
/// A path that every platform reads in the same way: `/` separates its components,
/// and it has no `\`, no drive and no name of a server in front.
pub open spec fn is_portable_path(path: Seq<char>) -> bool {
    &&& !path.contains('\\')
    &&& !path.contains(':')
    &&& !(path.len() >= 2 && path[0] == '/' && path[1] == '/')
}

/// The last of some components that is neither empty nor `.`.
pub open spec fn last_named(parts: Seq<Seq<char>>) -> Option<Seq<char>>
    decreases parts.len(),
{
    if parts.len() == 0 {
        None
    } else if parts.last().len() == 0 || parts.last() == "."@ {
        last_named(parts.drop_last())
    } else {
        Some(parts.last())
    }
}

/// The file name of a path that every platform reads in the same way: its final
/// component, unless that is `..`.
pub open spec fn portable_file_name(path: Seq<char>) -> Option<Seq<char>> {
    match last_named(text::split_on(path, '/')) {
        Some(name) => if name == ".."@ {
            None
        } else {
            Some(name)
        },
        None => None,
    }
}

/// What separates components or a drive on some platform.
pub open spec fn is_path_mark(c: char) -> bool {
    c == '/' || c == '\\' || c == ':'
}

/// The longest end of a path without anything that separates components or a drive
/// on some platform.
pub open spec fn path_tail(path: Seq<char>) -> Seq<char>
    decreases path.len(),
{
    if path.len() == 0 || is_path_mark(path.last()) {
        Seq::empty()
    } else {
        path_tail(path.drop_last()).push(path.last())
    }
}

/// A path that begins like one on a server or a device on some platform.
pub open spec fn has_two_marks_in_front(path: Seq<char>) -> bool {
    path.len() >= 2 && is_path_mark(path[0]) && is_path_mark(path[1])
}

/// A name of a server or of one of its shares.
pub open spec fn is_share_word(word: Seq<char>) -> bool {
    word.len() > 0 && !word.contains('/') && !word.contains(':')
}

/// A path on a share of a server, `\\server\share\` with something behind it. The names
/// `?` and `.` are no servers: they begin a path of another kind.
pub open spec fn is_share_path(path: Seq<char>) -> bool {
    let parts = text::split_on(path, '\\');
    &&& parts.len() >= 5
    &&& parts[0].len() == 0
    &&& parts[1].len() == 0
    &&& is_share_word(parts[2])
    &&& is_share_word(parts[3])
    &&& parts[2] != "?"@
    &&& parts[2] != "."@
}

/// A path that begins like a path on this machine, or one on a share.
pub open spec fn is_common_path(path: Seq<char>) -> bool {
    !has_two_marks_in_front(path) || is_share_path(path)
}

/// A path on this machine or on a share whose end is a name on every platform.
pub open spec fn has_named_tail(path: Seq<char>) -> bool {
    &&& is_common_path(path)
    &&& path_tail(path).len() > 0
    &&& path_tail(path) != "."@
    &&& path_tail(path) != ".."@
}

/// `end` is the end of `s`.
pub open spec fn ends_with(s: Seq<char>, end: Seq<char>) -> bool {
    end.len() <= s.len() && s.skip(s.len() - end.len()) == end
}

/// What holds of the file name of a path on every platform.
///
/// Repeated separators and components `.` do not count, and a path that ends in `..`
/// has no file name. What else a separator, a drive or a server is depends on the
/// platform. Of every path this is said: the name is a part of the path, is not empty
/// and is neither `.` nor `..`. Of a path on this machine or on a share: the name holds
/// no `/`; and if the end of the path is a name on every platform, there is a file name,
/// it ends with that, and it is itself an end of the path.
pub open spec fn may_be_file_name(path: Seq<char>, component: Option<Seq<char>>) -> bool {
    &&& component matches Some(name) ==> {
        &&& name.len() > 0
        &&& name != "."@
        &&& name != ".."@
        &&& text::contains_text(path, name)
        &&& is_common_path(path) ==> !name.contains('/')
    }
    &&& is_portable_path(path) ==> component == portable_file_name(path)
    &&& has_named_tail(path) ==> {
        &&& component is Some
        &&& ends_with(component->0, path_tail(path))
        &&& ends_with(path, component->0)
    }
}

/// `Path::file_name`: the final component of a path, if it has one that is a name. Which
/// that is depends on the platform; what [`may_be_file_name`] says holds on all of them.
#[verifier::external_body]
fn path_file_name(path: &str) -> (r: Option<String>)
    ensures
        may_be_file_name(path@, text::optional_text(r)),
{
    std::path::Path::new(path).file_name().and_then(|name| name.to_str()).map(|name| name.to_string())
}

/// `component` is the file name that this platform gives to a path.
pub closed spec fn is_file_name(path: Seq<char>, component: Option<String>) -> bool {
    exists|p: &str| p@ == path && #[trigger] call_ensures(path_file_name, (p,), component)
}

/// The file name that this platform gives to a path.
pub fn file_name_of(path: &str) -> (r: Option<String>)
    ensures
        is_file_name(path@, r),
        may_be_file_name(path@, text::optional_text(r)),
{
    path_file_name(path)
}

/// What holds of the parent of a path on every platform.
///
/// It is the path without its final component, so it is a shorter beginning of the path.
/// Of a path that every platform reads in the same way and that ends in a name: the
/// parent of a single name is empty; and if another name stands before the last `/`, the
/// parent is what stands before that.
pub open spec fn may_be_parent(path: Seq<char>, parent: Option<Seq<char>>) -> bool {
    let tail = path_tail(path);
    let before = path.take(path.len() - tail.len() - 1);
    &&& parent matches Some(dir) ==> dir.len() < path.len() && dir == path.take(dir.len() as int)
    &&& is_portable_path(path) && has_named_tail(path) ==> {
        &&& tail.len() == path.len() ==> parent == Some(Seq::<char>::empty())
        &&& tail.len() < path.len() && path_tail(before).len() > 0 && path_tail(before) != "."@
            ==> parent == Some(before)
    }
}

/// `Path::parent`: a path without its final component, if there is one to take away.
/// Which that is depends on the platform; what [`may_be_parent`] says holds on all of
/// them.
#[verifier::external_body]
fn path_parent(path: &str) -> (r: Option<String>)
    ensures
        may_be_parent(path@, text::optional_text(r)),
{
    std::path::Path::new(path).parent().and_then(|dir| dir.to_str()).map(|dir| dir.to_string())
}

/// `parent` is the parent that this platform gives to a path.
pub closed spec fn is_parent(path: Seq<char>, parent: Option<String>) -> bool {
    exists|p: &str| p@ == path && #[trigger] call_ensures(path_parent, (p,), parent)
}

/// The parent that this platform gives to a path.
pub fn parent_of(path: &str) -> (r: Option<String>)
    ensures
        is_parent(path@, r),
        may_be_parent(path@, text::optional_text(r)),
{
    path_parent(path)
}

/// Law: a path without separators and drives that names no directory is its own file
/// name.
pub proof fn law_plain_name_is_its_own_file_name(path: Seq<char>)
    requires
        path.len() > 0,
        !path.contains('/'),
        path != "."@,
        path != ".."@,
    ensures
        portable_file_name(path) == Some(path),
{
    lemma_split_without_separator(path, '/');
    assert(text::split_on(path, '/').last() == path);
}

proof fn lemma_split_without_separator(s: Seq<char>, sep: char)
    requires
        !s.contains(sep),
    ensures
        text::split_on(s, sep) == seq![s],
    decreases s.len(),
{
    if s.len() > 0 {
        let t = s.drop_last();
        assert(!t.contains(sep)) by {
            if t.contains(sep) {
                let i = choose|i: int| 0 <= i < t.len() && t[i] == sep;
                assert(s[i] == sep);
            }
        }
        assert(s[s.len() - 1] != sep);
        lemma_split_without_separator(t, sep);
        let before = text::split_on(t, sep);
        assert(before.last() == t);
        assert(before.drop_last().push(before.last().push(s.last())) =~= seq![s]) by {
            assert(t.push(s.last()) =~= s);
        }
    } else {
        assert(s =~= Seq::<char>::empty());
    }
}

/// Law: the file name of a path is what stands behind its last `/`; a `/` at the end and
/// a component `.` at the end do not count, and a path that ends in `..` has none.
pub proof fn law_file_name_stands_behind_the_last_slash(dir: Seq<char>, name: Seq<char>)
    requires
        name.len() > 0,
        !name.contains('/'),
    ensures
        name != "."@ && name != ".."@ ==> portable_file_name(dir.push('/') + name) == Some(name),
        name == "."@ ==> portable_file_name(dir.push('/') + name) == portable_file_name(dir),
        name == ".."@ ==> portable_file_name(dir.push('/') + name) is None,
        portable_file_name(dir.push('/')) == portable_file_name(dir),
{
    reveal_strlit(".");
    reveal_strlit("..");
    assert("."@.len() == 1 && ".."@.len() == 2);
    let parts = text::split_on(dir, '/');
    text::law_parts_on_both_sides_of_a_separator(dir, '/', name);
    text::law_a_text_without_separator_is_one_part(name, '/');
    let all = parts + seq![name];
    assert(all.last() == name && all.drop_last() =~= parts);
    let none = Seq::<char>::empty();
    text::law_parts_on_both_sides_of_a_separator(dir, '/', none);
    assert(dir.push('/') + none =~= dir.push('/'));
    let more = parts + text::split_on(none, '/');
    assert(text::split_on(none, '/') =~= seq![none]);
    assert(more.last() == none && more.drop_last() =~= parts);
}

/// What stands behind the last dot of a file name, unless that dot is its first
/// character or there is none.
pub open spec fn extension(name: Seq<char>) -> Option<Seq<char>>
    decreases name.len(),
{
    if name.len() == 0 {
        None
    } else if name.last() == '.' {
        if name.len() > 1 {
            Some(Seq::empty())
        } else {
            None
        }
    } else {
        match extension(name.drop_last()) {
            Some(rest) => Some(rest.push(name.last())),
            None => None,
        }
    }
}

/// Without a dot from `i` on, the extension of a name is that of its first `i`
/// characters with the rest behind it.
proof fn lemma_extension_tail(name: Seq<char>, i: int)
    requires
        0 <= i <= name.len(),
        forall|k: int| i <= k < name.len() ==> #[trigger] name[k] != '.',
    ensures
        extension(name) == (match extension(name.take(i)) {
            Some(rest) => Some(rest + name.subrange(i, name.len() as int)),
            None => None,
        }),
    decreases name.len(),
{
    if i == name.len() {
        assert(name.take(i) == name);
        if extension(name) is Some {
            let rest = extension(name)->0;
            assert(rest + name.subrange(i, name.len() as int) =~= rest);
        }
    } else {
        let shorter = name.drop_last();
        assert forall|k: int| i <= k < shorter.len() implies #[trigger] shorter[k] != '.' by {
            assert(shorter[k] == name[k]);
        }
        lemma_extension_tail(shorter, i);
        assert(shorter.take(i) == name.take(i));
        assert(name[name.len() - 1] != '.');
        if extension(name.take(i)) is Some {
            let rest = extension(name.take(i))->0;
            assert((rest + shorter.subrange(i, shorter.len() as int)).push(name.last()) =~= rest
                + name.subrange(i, name.len() as int));
        }
    }
}

/// The extension of a file name.
pub fn extension_of(name: &str) -> (r: Option<&str>)
    ensures
        r is Some == extension(name@) is Some,
        r matches Some(e) ==> e@ == extension(name@)->0,
{
    let chars: Vec<char> = text::chars_of(name);
    let n: usize = chars.len();
    let mut i: usize = n;
    while i > 0 && chars[i - 1] != '.'
        invariant
            n == chars.len(),
            chars@ == name@,
            i <= n,
            forall|k: int| i <= k < n ==> #[trigger] name@[k] != '.',
        decreases i,
    {
        i -= 1;
    }
    proof {
        lemma_extension_tail(name@, i as int);
        if i > 0 {
            assert(name@.take(i as int).last() == '.');
            if i > 1 {
                assert(Seq::<char>::empty() + name@.subrange(i as int, n as int)
                    =~= name@.subrange(i as int, n as int));
            }
        }
    }
    if i > 1 {
        Some(name.substring_char(i, n))
    } else {
        None
    }
}

/// A name has the extension of its end, if the end has one.
proof fn lemma_extension_of_end(front: Seq<char>, end: Seq<char>)
    requires
        extension(end) is Some,
    ensures
        extension(front + end) == extension(end),
    decreases end.len(),
{
    let whole = front + end;
    assert(end.len() > 0);
    assert(whole.last() == end.last());
    assert(whole.drop_last() =~= front + end.drop_last());
    if end.last() != '.' {
        lemma_extension_of_end(front, end.drop_last());
    }
}

/// Law: the extension of a name is what stands behind its last dot, if something stands
/// in front of that dot.
pub proof fn law_extension_stands_behind_the_last_dot(stem: Seq<char>, end: Seq<char>)
    requires
        stem.len() > 0,
        !end.contains('.'),
    ensures
        extension(stem.push('.') + end) == Some(end),
{
    let name = stem.push('.') + end;
    let i = stem.len() + 1;
    assert forall|k: int| i <= k < name.len() implies #[trigger] name[k] != '.' by {
        assert(name[k] == end[k - i]);
    }
    lemma_extension_tail(name, i as int);
    assert(name.take(i as int) =~= stem.push('.'));
    assert(extension(stem.push('.')) == Some(Seq::<char>::empty()));
    assert(Seq::<char>::empty() + name.subrange(i as int, name.len() as int) =~= end);
}

/// Law: a name without a dot behind its first character has no extension.
pub proof fn law_names_without_a_dot_have_no_extension(name: Seq<char>)
    requires
        forall|k: int| 1 <= k < name.len() ==> #[trigger] name[k] != '.',
    ensures
        extension(name) is None,
{
    if name.len() > 0 {
        lemma_extension_tail(name, 1);
        let first = name.take(1);
        assert(first.len() == 1 && first.last() == name[0]);
        assert(extension(first.drop_last()) is None);
    }
}

/// Where the last dot of a name stands, or a place in front of it if it has none.
proof fn lemma_last_dot(name: Seq<char>) -> (i: int)
    ensures
        -1 <= i < name.len(),
        i >= 0 ==> name[i] == '.',
        forall|k: int| i < k < name.len() ==> #[trigger] name[k] != '.',
    decreases name.len(),
{
    if name.len() == 0 {
        -1
    } else if name.last() == '.' {
        name.len() - 1
    } else {
        let shorter = name.drop_last();
        let i = lemma_last_dot(shorter);
        assert forall|k: int| i < k < name.len() implies #[trigger] name[k] != '.' by {
            if k < shorter.len() {
                assert(shorter[k] != '.');
            }
        }
        i
    }
}

/// Law: the files of the application are those whose name ends in `.bdengine`, in letters
/// of any case, with something in front of it.
pub proof fn law_application_files_end_in_bdengine(name: Seq<char>)
    ensures
        is_bdengine_name(name) <==> name.len() > 9 && text::ascii_lowered(
            name.skip(name.len() - 9),
        ) == ".bdengine"@,
{
    reveal_strlit("bdengine");
    reveal_strlit(".bdengine");
    assert(text::ascii_lowered("bdengine"@) =~= "bdengine"@);
    assert(".bdengine"@ =~= seq!['.'] + "bdengine"@);
    let i = lemma_last_dot(name);
    if i <= 0 {
        law_names_without_a_dot_have_no_extension(name);
    } else {
        law_extension_stands_behind_the_last_dot(name.take(i), name.skip(i + 1));
        assert(name.take(i).push('.') + name.skip(i + 1) =~= name);
    }
    if is_bdengine_name(name) {
        let end = name.skip(i + 1);
        assert(text::ascii_lowered(end).len() == 8);
        assert(text::ascii_lowered(name.skip(i)) =~= seq!['.'] + text::ascii_lowered(end));
        assert(i == name.len() - 9);
    }
    if name.len() > 9 && text::ascii_lowered(name.skip(name.len() - 9)) == ".bdengine"@ {
        let n = name.len() - 9;
        let tail = name.skip(n);
        assert forall|k: int| 0 <= k < 9 implies text::ascii_lower(#[trigger] tail[k])
            == ".bdengine"@[k] by {
            assert(text::ascii_lowered(tail)[k] == ".bdengine"@[k]);
        }
        assert(tail[0] == '.') by {
            assert(text::ascii_lower(tail[0]) == '.');
        }
        assert forall|k: int| n < k < name.len() implies #[trigger] name[k] != '.' by {
            assert(name[k] == tail[k - n]);
            assert(text::ascii_lower('.') == '.');
            assert(".bdengine"@[k - n] != '.');
        }
        assert(name[n] == tail[0]);
        assert(i == n);
        let end = name.skip(i + 1);
        assert(text::ascii_lowered(end) =~= "bdengine"@) by {
            assert forall|k: int| 0 <= k < 8 implies text::ascii_lowered(end)[k]
                == "bdengine"@[k] by {
                assert(end[k] == tail[k + 1]);
                assert(".bdengine"@[k + 1] == "bdengine"@[k]);
            }
        }
    }
}

/// A file name with the extension of the application's files, in any case.
pub open spec fn is_bdengine_name(name: Seq<char>) -> bool {
    extension(name) matches Some(e) && text::ascii_lowered(e) == text::ascii_lowered("bdengine"@)
}

/// Tells whether the last component of a path is the name of a file of the
/// application.
pub fn has_bdengine_name(component: &Option<String>) -> (r: bool)
    ensures
        r == (component matches Some(name) && is_bdengine_name(name@)),
{
    match component {
        Some(name) => match extension_of(name.as_str()) {
            Some(e) => text::same_ignoring_ascii_case(e, "bdengine"),
            None => false,
        },
        None => false,
    }
}

/// The end of a path is an end of it, and stands behind something that separates
/// components or a drive on some platform.
proof fn lemma_path_tail(path: Seq<char>)
    ensures
        ends_with(path, path_tail(path)),
        path_tail(path).len() < path.len() ==> is_path_mark(
            path[path.len() - path_tail(path).len() - 1],
        ),
    decreases path.len(),
{
    if path.len() == 0 || is_path_mark(path.last()) {
        assert(path.skip(path.len() as int) =~= Seq::<char>::empty());
    } else {
        let shorter = path.drop_last();
        lemma_path_tail(shorter);
        let n = path_tail(shorter).len();
        assert(path.skip(path.len() - (n + 1)) =~= shorter.skip(shorter.len() - n).push(
            path.last(),
        ));
    }
}

/// Where the end of a path has no dot, no extension of its file name is that of the
/// application's files.
proof fn lemma_end_without_dot(path: Seq<char>, name: Seq<char>)
    requires
        ends_with(path, name),
        ends_with(name, path_tail(path)),
        path_tail(path).len() > 0,
        !path_tail(path).contains('.'),
    ensures
        !is_bdengine_name(name),
{
    let tail = path_tail(path);
    let i = name.len() - tail.len();
    let front = name.take(i);
    lemma_path_tail(path);
    assert forall|k: int| i <= k < name.len() implies #[trigger] name[k] != '.' by {
        assert(name.skip(i)[k - i] == tail[k - i]);
    }
    lemma_extension_tail(name, i);
    assert(name.subrange(i, name.len() as int) =~= tail);
    if i > 0 {
        let mark = front.last();
        assert(path.skip(path.len() - name.len())[i - 1] == name[i - 1]);
        assert(mark == path[path.len() - tail.len() - 1]);
        assert(is_path_mark(mark));
        if extension(name) is Some {
            let rest = extension(front.drop_last())->0;
            let e = extension(name)->0;
            let k = rest.len() as int;
            assert(e == rest.push(mark) + tail);
            assert(e[k] == mark);
            reveal_strlit("bdengine");
            assert("bdengine"@.len() == 8);
            if text::ascii_lowered(e) == text::ascii_lowered("bdengine"@) {
                assert(text::ascii_lowered(e).len() == e.len());
                assert(text::ascii_lowered("bdengine"@).len() == 8);
                assert(0 <= k < 8);
                assert(text::ascii_lowered(e)[k] == mark);
                assert(text::ascii_lowered("bdengine"@)[k] == text::ascii_lower("bdengine"@[k]));
                assert(!is_path_mark("bdengine"@[k]));
            }
        }
    } else {
        assert(front =~= Seq::<char>::empty());
    }
}

/// Where the end of a path is a name on every platform, it decides whether the file name
/// has the extension of the application's files: by its own extension, or by having no
/// dot.
pub proof fn lemma_named_tail_decides(path: Seq<char>, name: Seq<char>)
    requires
        has_named_tail(path),
        may_be_file_name(path, Some(name)),
    ensures
        extension(path_tail(path)) is Some ==> is_bdengine_name(name) == is_bdengine_name(
            path_tail(path),
        ),
        !path_tail(path).contains('.') ==> !is_bdengine_name(name),
{
    let tail = path_tail(path);
    if extension(tail) is Some {
        let front = name.take(name.len() - tail.len());
        assert(name =~= front + tail);
        lemma_extension_of_end(front, tail);
    }
    if !tail.contains('.') {
        lemma_end_without_dot(path, name);
    }
}

/// Tells whether a path is a file of the application; `is_file` says whether it is
/// a file at all. It goes by the extension of the file name that this platform gives to
/// the path.
pub fn is_bdengine_file(path: &str, is_file: bool) -> (r: bool)
    ensures
        !is_file ==> !r,
        is_file ==> exists|component: Option<String>| #[trigger]
            is_file_name(path@, component) && r == (component matches Some(name)
                && is_bdengine_name(name@)),
        is_portable_path(path@) ==> r == (is_file && (portable_file_name(path@) matches Some(name)
            && is_bdengine_name(name))),
        has_named_tail(path@) && extension(path_tail(path@)) is Some ==> r == (is_file
            && is_bdengine_name(path_tail(path@))),
        has_named_tail(path@) && !path_tail(path@).contains('.') ==> !r,
{
    if !is_file {
        return false;
    }
    let component: Option<String> = file_name_of(path);
    let r: bool = has_bdengine_name(&component);
    proof {
        if has_named_tail(path@) {
            lemma_named_tail_decides(path@, component->0@);
        }
    }
    r
}

// ---------------------------------------------------------------------------
// The name of a download
// ---------------------------------------------------------------------------
/// What holds of the name that a download is kept under, on every platform: it is not
/// blank, names no directory, and is a part of what was asked for; of a request that is
/// a path on this machine or on a share, it holds no `/`. It may hold what separates
/// components or a drive on another platform.
pub open spec fn is_download_name(name: Seq<char>, asked: Seq<char>) -> bool {
    &&& !text::is_blank(name)
    &&& name != "."@
    &&& name != ".."@
    &&& text::contains_text(asked, name)
    &&& is_common_path(asked) ==> !name.contains('/')
}

/// A name that no platform reads as a way out of the directory that it is kept in.
pub open spec fn stays_in_directory(name: Seq<char>) -> bool {
    &&& name.len() > 0
    &&& name != "."@
    &&& name != ".."@
    &&& forall|i: int| 0 <= i < name.len() ==> !is_path_mark(#[trigger] name[i])
}

/// Law: a download that was asked for by a path that every platform reads in the same
/// way is kept in the directory of the downloads.
pub proof fn law_portable_downloads_stay_in_their_directory(name: Seq<char>, asked: Seq<char>)
    requires
        is_download_name(name, asked),
        is_portable_path(asked),
    ensures
        stays_in_directory(name),
{
    text::lemma_blank(name);
    let at = choose|at: int| #[trigger] text::occurs_at(asked, name, at);
    assert forall|i: int| 0 <= i < name.len() implies !is_path_mark(#[trigger] name[i]) by {
        assert(asked.subrange(at, at + name.len())[i] == asked[at + i]);
        if name[i] == '/' {
            assert(name.contains('/'));
        }
    }
}

/// A file name, unless it is blank.
pub open spec fn unless_blank(component: Option<Seq<char>>) -> Option<Seq<char>> {
    match component {
        Some(name) => if text::is_blank(name) {
            None
        } else {
            Some(name)
        },
        None => None,
    }
}

/// `name` is what a download that was asked for as `asked` is kept under, if anything:
/// the file name that this platform gives to it, unless that is blank.
pub open spec fn is_kept_under(asked: Seq<char>, name: Option<Seq<char>>) -> bool {
    &&& exists|component: Option<String>| #[trigger]
        is_file_name(asked, component) && name == unless_blank(text::optional_text(component))
    &&& name matches Some(n) ==> is_download_name(n, asked)
    &&& is_portable_path(asked) ==> name == unless_blank(portable_file_name(asked))
    &&& has_named_tail(asked) && !text::is_blank(path_tail(asked)) ==> {
        &&& name is Some
        &&& ends_with(name->0, path_tail(asked))
        &&& ends_with(asked, name->0)
    }
}

/// Law: a download that was asked for by a path that every platform reads in the same way
/// is kept under the last component of the path, unchanged; one that was asked for by a
/// name is kept under that name.
pub proof fn law_downloads_are_kept_under_their_last_component(
    dir: Seq<char>,
    name: Seq<char>,
    kept: Option<Seq<char>>,
)
    requires
        name != "."@,
        name != ".."@,
        !name.contains('/'),
        !text::is_blank(name),
    ensures
        is_portable_path(dir.push('/') + name) && is_kept_under(dir.push('/') + name, kept) ==> kept
            == Some(name),
        is_portable_path(name) && is_kept_under(name, kept) ==> kept == Some(name),
{
    text::lemma_blank(name);
    law_file_name_stands_behind_the_last_slash(dir, name);
    law_plain_name_is_its_own_file_name(name);
}

/// Law: a path that ends in `..` names no download.
pub proof fn law_parents_are_no_downloads(dir: Seq<char>, kept: Option<Seq<char>>)
    requires
        is_portable_path(dir.push('/') + ".."@),
        is_kept_under(dir.push('/') + ".."@, kept),
    ensures
        kept is None,
{
    reveal_strlit("..");
    law_file_name_stands_behind_the_last_slash(dir, ".."@);
}

/// The name of a download, from the last component of what was asked for.
pub fn accept_file_name(component: Option<String>) -> (r: Result<String, String>)
    ensures
        match r {
            Ok(name) => component == Some(name) && !text::is_blank(name@),
            Err(message) => {
                &&& message@ == "Could not resolve download file name."@
                &&& (component matches Some(name) ==> text::is_blank(name@))
            },
        },
{
    match component {
        Some(name) => {
            if text::trim(name.as_str()).is_empty() {
                Err("Could not resolve download file name.".to_owned())
            } else {
                Ok(name)
            }
        },
        None => Err("Could not resolve download file name.".to_owned()),
    }
}

/// The name under which a download is kept: the file name of what was asked for,
/// without white space around it.
pub fn sanitize_download_file_name(file_name: &str) -> (r: Result<String, String>)
    ensures
        text::is_blank(file_name@) ==> r is Err && r->Err_0@ == "File name is empty."@,
        !text::is_blank(file_name@) ==> match r {
            Ok(name) => is_kept_under(text::trimmed(file_name@), Some(name@)),
            Err(message) => {
                &&& message@ == "Could not resolve download file name."@
                &&& is_kept_under(text::trimmed(file_name@), None)
            },
        },
{
    let asked: &str = text::trim(file_name);
    if asked.is_empty() {
        return Err("File name is empty.".to_owned());
    }
    let component: Option<String> = file_name_of(asked);
    proof {
        if has_named_tail(asked@) && !text::is_blank(path_tail(asked@)) {
            if text::is_blank(component->0@) {
                lemma_end_of_blank(component->0@, path_tail(asked@));
            }
        }
    }
    accept_file_name(component)
}

/// The end of a blank text is blank.
proof fn lemma_end_of_blank(s: Seq<char>, end: Seq<char>)
    requires
        ends_with(s, end),
        text::is_blank(s),
    ensures
        text::is_blank(end),
{
    text::lemma_blank(s);
    text::lemma_blank(end);
    assert forall|i: int| 0 <= i < end.len() implies text::is_white_space(#[trigger] end[i]) by {
        assert(s.skip(s.len() - end.len())[i] == s[s.len() - end.len() + i]);
    }
}

/// The path of a project file, without surrounding white space.
pub fn project_file_path(path: &str) -> (r: Result<String, String>)
    ensures
        match r {
            Ok(p) => !text::is_blank(path@) && p@ == text::trimmed(path@),
            Err(message) => text::is_blank(path@) && message@ == "Project file path is empty."@,
        },
{
    let p: &str = text::trim(path);
    if p.is_empty() {
        Err("Project file path is empty.".to_owned())
    } else {
        Ok(p.to_owned())
    }
}

/// The path that a file to be saved is first suggested under.
pub fn suggested_save_path(file_name: &str) -> (r: Result<String, String>)
    ensures
        match r {
            Ok(p) => !text::is_blank(file_name@) && p@ == text::trimmed(file_name@),
            Err(message) => text::is_blank(file_name@) && message@ == "File name is empty."@,
        },
{
    let p: &str = text::trim(file_name);
    if p.is_empty() {
        Err("File name is empty.".to_owned())
    } else {
        Ok(p.to_owned())
    }
}

// ---------------------------------------------------------------------------
// The dialog for the destination of a download
// ---------------------------------------------------------------------------
/// A text with every single quote doubled.
pub open spec fn quotes_doubled(s: Seq<char>) -> Seq<char>
    decreases s.len(),
{
    if s.len() == 0 {
        Seq::empty()
    } else if s.last() == '\'' {
        quotes_doubled(s.drop_last()).push('\'').push('\'')
    } else {
        quotes_doubled(s.drop_last()).push(s.last())
    }
}

/// The text that a PowerShell literal in single quotes denotes: two quotes stand
/// for one. `None` where a single quote would end the literal.
pub open spec fn single_quoted_value(literal: Seq<char>) -> Option<Seq<char>>
    decreases literal.len(),
{
    if literal.len() == 0 {
        Some(Seq::empty())
    } else if literal[0] != '\'' {
        match single_quoted_value(literal.drop_first()) {
            Some(rest) => Some(seq![literal[0]] + rest),
            None => None,
        }
    } else if literal.len() >= 2 && literal[1] == '\'' {
        match single_quoted_value(literal.subrange(2, literal.len() as int)) {
            Some(rest) => Some(seq!['\''] + rest),
            None => None,
        }
    } else {
        None
    }
}

/// A text as the inside of a PowerShell literal in single quotes.
pub fn escape_powershell_single_quoted(value: &str) -> (r: String)
    ensures
        r@ == quotes_doubled(value@),
{
    let chars: Vec<char> = text::chars_of(value);
    let mut r: String = String::new();
    let mut i: usize = 0;
    assert(chars@.take(0) == Seq::<char>::empty());
    while i < chars.len()
        invariant
            i <= chars.len(),
            r@ == quotes_doubled(chars@.take(i as int)),
        decreases chars.len() - i,
    {
        let c: char = chars[i];
        assert(chars@.take(i + 1).drop_last() == chars@.take(i as int));
        if c == '\'' {
            r.push(c);
        }
        r.push(c);
        i += 1;
    }
    assert(chars@.take(chars.len() as int) == chars@);
    r
}

/// Reading the literal of a longer text from the front.
proof fn lemma_quoted_concat(a: Seq<char>, c: char)
    requires
        single_quoted_value(a) is Some,
    ensures
        c != '\'' ==> single_quoted_value(a.push(c)) == Some(single_quoted_value(a)->0.push(c)),
        c == '\'' ==> single_quoted_value(a.push(c).push(c)) == Some(
            single_quoted_value(a)->0.push(c),
        ),
    decreases a.len(),
{
    reveal_with_fuel(single_quoted_value, 2);
    if a.len() == 0 {
        assert(a.push(c).drop_first() =~= Seq::<char>::empty());
        assert(a.push(c).push(c).subrange(2, 2) =~= Seq::<char>::empty());
        assert(seq![c] + Seq::<char>::empty() =~= Seq::<char>::empty().push(c));
    } else if a[0] != '\'' {
        let rest = a.drop_first();
        lemma_quoted_concat(rest, c);
        assert(a.push(c).drop_first() =~= rest.push(c));
        assert(a.push(c).push(c).drop_first() =~= rest.push(c).push(c));
        let v = single_quoted_value(rest)->0;
        assert(seq![a[0]] + v.push(c) =~= (seq![a[0]] + v).push(c));
    } else {
        let rest = a.subrange(2, a.len() as int);
        lemma_quoted_concat(rest, c);
        assert(a.push(c).subrange(2, a.push(c).len() as int) =~= rest.push(c));
        assert(a.push(c).push(c).subrange(2, a.push(c).push(c).len() as int) =~= rest.push(c).push(
            c,
        ));
        let v = single_quoted_value(rest)->0;
        assert(seq!['\''] + v.push(c) =~= (seq!['\''] + v).push(c));
    }
}

/// Law: a PowerShell literal in single quotes around an escaped text denotes that
/// text; nothing in the text can end the literal.
pub proof fn law_escaped_literal_denotes_the_text(s: Seq<char>)
    ensures
        single_quoted_value(quotes_doubled(s)) == Some(s),
    decreases s.len(),
{
    if s.len() == 0 {
        assert(s =~= Seq::<char>::empty());
    } else {
        law_escaped_literal_denotes_the_text(s.drop_last());
        lemma_quoted_concat(quotes_doubled(s.drop_last()), s.last());
        assert(s.drop_last().push(s.last()) =~= s);
    }
}

/// A text, unless there is none or it is blank.
pub open spec fn or_if_blank(value: Option<Seq<char>>, fallback: Seq<char>) -> Seq<char> {
    match value {
        Some(v) => if text::is_blank(v) {
            fallback
        } else {
            v
        },
        None => fallback,
    }
}

/// The text of an optional string slice.
pub open spec fn optional_str(value: Option<&str>) -> Option<Seq<char>> {
    match value {
        Some(v) => Some(v@),
        None => None,
    }
}

fn text_or(value: Option<&str>, fallback: &str) -> (r: String)
    ensures
        r@ == or_if_blank(optional_str(value), fallback@),
{
    match value {
        Some(v) => if text::trim(v).is_empty() {
            fallback.to_owned()
        } else {
            v.to_owned()
        },
        None => fallback.to_owned(),
    }
}

/// The script's text up to the suggested file name.
pub const DIALOG_SCRIPT_HEAD: &'static str = "
Add-Type -AssemblyName System.Windows.Forms
$dialog = New-Object System.Windows.Forms.SaveFileDialog
$dialog.Title = 'Save File'
$dialog.OverwritePrompt = $true
$dialog.CheckPathExists = $true
$dialog.FileName = '";

/// The script's text between the file name and the test of the directory.
pub const DIALOG_SCRIPT_TEST: &'static str = "'
if ('";

/// The script's text between the test and the use of the directory.
pub const DIALOG_SCRIPT_DIRECTORY: &'static str = "' -ne '') {
  $dialog.InitialDirectory = '";

/// The script's text behind the directory.
pub const DIALOG_SCRIPT_TAIL: &'static str = "'
}
if ($dialog.ShowDialog() -eq [System.Windows.Forms.DialogResult]::OK) {
  $bytes = [System.Text.Encoding]::UTF8.GetBytes($dialog.FileName)
  [Console]::OpenStandardOutput().Write($bytes, 0, $bytes.Length)
}
";

/// The PowerShell script of the dialog, for a suggested file name and directory.
pub open spec fn dialog_script(file_name: Seq<char>, directory: Seq<char>) -> Seq<char> {
    DIALOG_SCRIPT_HEAD@ + quotes_doubled(file_name) + DIALOG_SCRIPT_TEST@ + quotes_doubled(
        directory,
    ) + DIALOG_SCRIPT_DIRECTORY@ + quotes_doubled(directory) + DIALOG_SCRIPT_TAIL@
}

/// The PowerShell script of the dialog, for the file name and the parent of a path. The
/// file is called `download` and the directory is left open where they say nothing.
pub open spec fn suggestion_script(
    file_name: Option<Seq<char>>,
    directory: Option<Seq<char>>,
) -> Seq<char> {
    dialog_script(or_if_blank(file_name, "download"@), or_if_blank(directory, ""@))
}

/// The PowerShell script that asks for the destination of a download. `file_name`
/// and `directory` are the last component and the parent of the suggested path.
pub fn download_dialog_script(file_name: Option<&str>, directory: Option<&str>) -> (r: String)
    ensures
        r@ == suggestion_script(optional_str(file_name), optional_str(directory)),
{
    let name: String = text_or(file_name, "download");
    let dir: String = text_or(directory, "");
    let quoted_name: String = escape_powershell_single_quoted(name.as_str());
    let quoted_dir: String = escape_powershell_single_quoted(dir.as_str());
    let mut r: String = text::concat3(
        DIALOG_SCRIPT_HEAD,
        quoted_name.as_str(),
        DIALOG_SCRIPT_TEST,
    );
    r.append(quoted_dir.as_str());
    r.append(DIALOG_SCRIPT_DIRECTORY);
    r.append(quoted_dir.as_str());
    r.append(DIALOG_SCRIPT_TAIL);
    r
}

/// The slice of an optional string.
fn as_optional_str(value: &Option<String>) -> (r: Option<&str>)
    ensures
        optional_str(r) == text::optional_text(*value),
{
    match value {
        Some(v) => Some(v.as_str()),
        None => None,
    }
}

/// The PowerShell script that asks for the destination of a download, for a suggested
/// path: it suggests the file name and the parent that this platform gives to the path.
pub fn download_dialog_script_for(suggested_path: &str) -> (r: String)
    ensures
        exists|name: Option<String>, directory: Option<String>|
            #![trigger is_file_name(suggested_path@, name), is_parent(suggested_path@, directory)]
            {
                &&& is_file_name(suggested_path@, name)
                &&& is_parent(suggested_path@, directory)
                &&& may_be_file_name(suggested_path@, text::optional_text(name))
                &&& may_be_parent(suggested_path@, text::optional_text(directory))
                &&& r@ == suggestion_script(
                    text::optional_text(name),
                    text::optional_text(directory),
                )
            },
{
    let name: Option<String> = file_name_of(suggested_path);
    let directory: Option<String> = parent_of(suggested_path);
    download_dialog_script(as_optional_str(&name), as_optional_str(&directory))
}

/// Law: the dialog suggests the file name and the directory as they are; a blank or
/// missing name is `download`, and a blank directory is as good as none.
pub proof fn law_dialog_suggests_name_and_directory(name: Seq<char>, directory: Seq<char>)
    ensures
        !text::is_blank(name) && !text::is_blank(directory) ==> suggestion_script(
            Some(name),
            Some(directory),
        ) == DIALOG_SCRIPT_HEAD@ + quotes_doubled(name) + DIALOG_SCRIPT_TEST@ + quotes_doubled(
            directory,
        ) + DIALOG_SCRIPT_DIRECTORY@ + quotes_doubled(directory) + DIALOG_SCRIPT_TAIL@,
        !text::is_blank(name) ==> suggestion_script(Some(name), None) == DIALOG_SCRIPT_HEAD@
            + quotes_doubled(name) + DIALOG_SCRIPT_TEST@ + DIALOG_SCRIPT_DIRECTORY@
            + DIALOG_SCRIPT_TAIL@,
        text::is_blank(name) ==> suggestion_script(Some(name), Some(directory))
            == suggestion_script(Some("download"@), Some(directory)),
        suggestion_script(None, Some(directory)) == suggestion_script(
            Some("download"@),
            Some(directory),
        ),
        text::is_blank(directory) ==> suggestion_script(Some(name), Some(directory))
            == suggestion_script(Some(name), None),
{
    reveal_strlit("download");
    reveal_strlit("");
    text::lemma_blank("download"@);
    assert(!text::is_white_space("download"@[0]));
    assert(""@ =~= Seq::<char>::empty());
    assert(quotes_doubled(""@) =~= Seq::<char>::empty());
    assert(DIALOG_SCRIPT_HEAD@ + quotes_doubled(name) + DIALOG_SCRIPT_TEST@ + quotes_doubled(""@)
        + DIALOG_SCRIPT_DIRECTORY@ + quotes_doubled(""@) + DIALOG_SCRIPT_TAIL@
        =~= DIALOG_SCRIPT_HEAD@ + quotes_doubled(name) + DIALOG_SCRIPT_TEST@
        + DIALOG_SCRIPT_DIRECTORY@ + DIALOG_SCRIPT_TAIL@);
}

/// Law: escaping doubles single quotes and leaves everything else as it is.
pub proof fn law_escaping_doubles_quotes(s: Seq<char>, c: char)
    ensures
        c == '\'' ==> quotes_doubled(s.push(c)) == quotes_doubled(s) + seq!['\'', '\''],
        c != '\'' ==> quotes_doubled(s.push(c)) == quotes_doubled(s).push(c),
        !s.contains('\'') ==> quotes_doubled(s) == s,
    decreases s.len(),
{
    assert(s.push(c).drop_last() =~= s);
    if c == '\'' {
        assert(quotes_doubled(s).push(c).push(c) =~= quotes_doubled(s) + seq!['\'', '\'']);
    }
    if s.len() > 0 {
        let t = s.drop_last();
        law_escaping_doubles_quotes(t, s.last());
        assert(t.push(s.last()) =~= s);
        if !s.contains('\'') {
            assert(s[s.len() - 1] != '\'');
            assert forall|i: int| 0 <= i < t.len() implies t[i] != '\'' by {
                assert(s[i] != '\'');
            }
        }
    } else {
        assert(quotes_doubled(s) =~= s);
    }
}

/// What came of the question for a destination.
pub enum DialogOutcome {
    /// The platform has no dialog.
    Unavailable,
    /// The dialog could not be run.
    NotStarted,
    /// The dialog has ended.
    Ended { success: bool, stdout: Vec<u8> },
}

/// The destination that a dialog's output names: the output without surrounding
/// white space, unless nothing is left.
pub fn dialog_reply(output: &str) -> (r: Option<String>)
    ensures
        match r {
            Some(path) => !text::is_blank(output@) && path@ == text::trimmed(output@),
            None => text::is_blank(output@),
        },
{
    let path: &str = text::trim(output);
    if path.is_empty() {
        None
    } else {
        Some(path.to_owned())
    }
}

/// The destination of a download: the suggested path where there is no dialog, and
/// otherwise what the user chose in it, if anything.
pub fn prompt_download_destination(suggested_path: &str, dialog: &DialogOutcome) -> (r: Option<
    String,
>)
    ensures
        match dialog {
            DialogOutcome::Unavailable => r is Some && r->0@ == suggested_path@,
            DialogOutcome::NotStarted => r is None,
            DialogOutcome::Ended { success, stdout } => {
                let output = text::utf8_lossy(stdout@);
                &&& r is Some == (*success && !text::is_blank(output))
                &&& r matches Some(path) ==> path@ == text::trimmed(output)
            },
        },
{
    match dialog {
        DialogOutcome::Unavailable => Some(suggested_path.to_owned()),
        DialogOutcome::NotStarted => None,
        DialogOutcome::Ended { success, stdout } => if *success {
            let output: String = text::lossy_text(stdout.as_slice());
            dialog_reply(output.as_str())
        } else {
            None
        },
    }
}

/// Law: a download goes where the user wants it: to the suggested path where nobody can be
/// asked, to what the dialog printed, without white space around it, where it ended with
/// success, and nowhere where it could not be run, ended without success or printed
/// nothing.
pub proof fn law_downloads_go_where_the_user_wants(
    suggested_path: &str,
    dialog: &DialogOutcome,
    r: Option<String>,
)
    requires
        call_ensures(prompt_download_destination, (suggested_path, dialog), r),
    ensures
        dialog is Unavailable ==> r is Some && r->0@ == suggested_path@,
        dialog is NotStarted ==> r is None,
        dialog matches DialogOutcome::Ended { success, stdout } ==> {
            let printed = text::utf8_lossy(stdout@);
            &&& !*success ==> r is None
            &&& *success && text::trimmed(printed).len() == 0 ==> r is None
            &&& *success && text::trimmed(printed).len() > 0 ==> r is Some && r->0@
                == text::trimmed(printed)
        },
{
}

/// Law: the path of a project file and the suggested path of a file to be saved are taken
/// without white space around them, and are refused where nothing is left.
pub proof fn law_given_paths_are_trimmed(
    given: &str,
    project: Result<String, String>,
    suggested: Result<String, String>,
)
    requires
        call_ensures(project_file_path, (given,), project),
        call_ensures(suggested_save_path, (given,), suggested),
    ensures
        text::trimmed(given@).len() > 0 ==> {
            &&& project is Ok && project->Ok_0@ == text::trimmed(given@)
            &&& suggested is Ok && suggested->Ok_0@ == text::trimmed(given@)
        },
        text::trimmed(given@).len() == 0 ==> {
            &&& project is Err && project->Err_0@ == "Project file path is empty."@
            &&& suggested is Err && suggested->Err_0@ == "File name is empty."@
        },
{
}

} // verus!

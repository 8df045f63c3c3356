use vstd::prelude::*;
use crate::error::MioInnerError;
use crate::ids::{same_ignoring_case, uuid_string, uuid_text};
use crate::msgstructs::{FolderCreateDelete, FolderQuery, FolderRename};
use crate::paths::{
    collect_path, components, components_prefix, is_prefix_of, path_collect, path_components,
    path_push, push_path, lemma_push_child, is_absolute,
};
use path_absolutize::Absolutize;

verus! {

/// Whether a list of path components starts at the root.
pub open spec fn rooted(t: Seq<Seq<char>>) -> bool {
    t.len() > 0 && t[0] == seq!['/']
}

/// The components `path_absolutize` starts from, given the first component
/// `first` of the path and the working directory `cwd`: the root for an
/// absolute path; the working directory for `.`; its parent for `..` (the root
/// stays the root); and the working directory followed by `first` otherwise.
pub open spec fn start_tokens(first: Seq<char>, cwd: Seq<char>) -> Seq<Seq<char>> {
    let wd = components(cwd);
    if first == seq!['/'] {
        seq![seq!['/']]
    } else if first == seq!['.'] {
        wd
    } else if first == seq!['.', '.'] {
        if wd.len() > 0 && wd.last() != seq!['/'] {
            wd.drop_last()
        } else if wd == seq![seq!['/']] {
            wd
        } else {
            Seq::empty()
        }
    } else {
        wd.push(first)
    }
}

/// The components left after walking `rest` from `t`: `.` changes nothing,
/// `..` removes the last component but never a leading root, and any other
/// component is entered.
pub open spec fn resolve(t: Seq<Seq<char>>, root: bool, rest: Seq<Seq<char>>) -> Seq<Seq<char>>
    decreases rest.len(),
{
    if rest.len() == 0 {
        t
    } else {
        let r = resolve(t, root, rest.drop_last());
        let c = rest.last();
        if c == seq!['.'] {
            r
        } else if c == seq!['.', '.'] {
            if r.len() > 0 && (r.len() != 1 || !root) {
                r.drop_last()
            } else {
                r
            }
        } else {
            r.push(c)
        }
    }
}

/// The path written from components: after a root, the others joined by `/`;
/// without one, all joined by `/`.
pub open spec fn join_tokens(t: Seq<Seq<char>>, root: bool) -> Seq<char> {
    if root {
        seq!['/'] + join_slash(t.drop_first())
    } else {
        join_slash(t)
    }
}

/// The path that `path_absolutize` (its Unix `absolutize_from`) makes of
/// `path`, resolving it against the working directory `cwd`: an empty path
/// gives `cwd` itself; otherwise the components of the path are walked from
/// `start_tokens` with `resolve`, and written back with `join_tokens`.
pub open spec fn absolutized(path: Seq<char>, cwd: Seq<char>) -> Seq<char> {
    let c = components(path);
    if c.len() == 0 {
        cwd
    } else {
        let t = start_tokens(c[0], cwd);
        join_tokens(resolve(t, rooted(t), c.drop_first()), rooted(t))
    }
}

/// Whether sanitizing a file name drops `c`: the characters ``/?<>\:*|"``
/// and the control characters U+0000 to U+001F and U+0080 to U+009F.
pub open spec fn dropped_char(c: char) -> bool {
    c == '/' || c == '?' || c == '<' || c == '>' || c == '\\' || c == ':' || c == '*' || c == '|'
        || c == '"' || c as int <= 0x1f || (0x80 <= c as int && c as int <= 0x9f)
}

/// Whether `s` is made only of dots, and holds at least one.
pub open spec fn all_dots(s: Seq<char>) -> bool {
    s.len() > 0 && forall|i: int| 0 <= i < s.len() ==> s[i] == '.'
}

/// The name with the dropped characters removed, and emptied when it is made
/// only of dots.
pub open spec fn cleaned(name: Seq<char>) -> Seq<char> {
    let kept = name.filter(|c: char| !dropped_char(c));
    if all_dots(kept) {
        Seq::empty()
    } else {
        kept
    }
}

/// The longest start of `s` whose UTF-8 encoding takes at most 255 bytes: the
/// name cut at the last character boundary within 255 bytes.
pub open spec fn cut_to_255_bytes(s: Seq<char>) -> Seq<char>
    decreases s.len(),
{
    if s.len() == 0 || vstd::utf8::encode_utf8(s).len() <= 255 {
        s
    } else {
        cut_to_255_bytes(s.drop_last())
    }
}

/// The file name that `sanitize_filename` leaves of `name` with the Windows
/// rules off, as `sanitize` does on Unix.
pub open spec fn sanitized(name: Seq<char>) -> Seq<char> {
    cut_to_255_bytes(cleaned(name))
}

/// `Path::absolutize_from` of `path_absolutize`. The Unix implementation,
/// which is the one this crate's Unix paths use, is lexical, as `absolutized`
/// writes out, and it never returns an error. (When nothing changes and the
/// length is the same it hands back the path itself, which is then already
/// written as `join_tokens` writes it.) With a relative
/// `cwd` a path with enough `..` leaves it no component, and it panics, so
/// `cwd` must be absolute; then the root is never removed.
#[verifier::external_body]
fn absolutize_from(path: &str, cwd: &str) -> (res: Result<String, String>)
    requires
        is_absolute(cwd@),
    ensures
        res is Ok,
        res matches Ok(p) ==> p@ == absolutized(path@, cwd@),
{
    match std::path::Path::new(path).absolutize_from(cwd) {
        Ok(p) => Ok(p.to_string_lossy().into_owned()),
        Err(err) => Err(err.to_string()),
    }
}

/// `sanitize_filename::sanitize_with_options` with the given `windows` rule
/// and the other options at their defaults (cut to 255 bytes, removed
/// characters replaced by nothing); with `windows` off this is what
/// `sanitize_filename::sanitize` does on Unix. As its source shows, the result
/// is `sanitized`, or `sanitized_for_windows` with the Windows rules. It holds
/// no `/` (all of them are removed) and is neither `.` nor `..` (a name made
/// only of dots is emptied, trailing dots go with the Windows rules, and a name
/// cut to 255 bytes is longer than two characters).
#[verifier::external_body]
fn sanitize_name(name: &str, windows: bool) -> (res: String)
    ensures
        !windows ==> res@ == sanitized(name@),
        windows ==> res@ == sanitized_for_windows(name@),
        !res@.contains('/'),
        res@ != "."@,
        res@ != ".."@,
{
    sanitize_filename::sanitize_with_options(
        name,
        sanitize_filename::Options { windows, ..Default::default() },
    )
}

/// Whether the first three characters of `s` are `w`, ignoring ASCII case.
pub open spec fn starts_ignoring_case(s: Seq<char>, w: Seq<char>) -> bool {
    s.len() >= 3 && w.len() == 3 && forall|i: int| 0 <= i < 3 ==> same_ignoring_case(#[trigger] s[i], w[i])
}

/// Whether `s` ends at `n` or goes on with a dot there.
pub open spec fn ends_or_dot_at(s: Seq<char>, n: int) -> bool {
    s.len() == n || (s.len() > n && s[n] == '.')
}

/// Whether `s` is a name Windows reserves: `con`, `prn`, `aux`, `nul`, or
/// `com` or `lpt` and a digit, in any ASCII case, alone or before a dot.
pub open spec fn windows_reserved(s: Seq<char>) -> bool {
    ||| (starts_ignoring_case(s, "con"@) || starts_ignoring_case(s, "prn"@) || starts_ignoring_case(
        s,
        "aux"@,
    ) || starts_ignoring_case(s, "nul"@)) && ends_or_dot_at(s, 3)
    ||| (starts_ignoring_case(s, "com"@) || starts_ignoring_case(s, "lpt"@)) && s.len() >= 4 && (48
        <= s[3] as int && s[3] as int <= 57) && ends_or_dot_at(s, 4)
}

/// `s` without its trailing dots and spaces.
pub open spec fn trim_dots_spaces(s: Seq<char>) -> Seq<char>
    decreases s.len(),
{
    if s.len() > 0 && (s.last() == '.' || s.last() == ' ') {
        trim_dots_spaces(s.drop_last())
    } else {
        s
    }
}

/// The file name that `sanitize_filename::sanitize_with_options` leaves of
/// `name` with Windows rules switched on: a reserved name is emptied and
/// trailing dots and spaces are removed before the cut to 255 bytes.
pub open spec fn sanitized_for_windows(name: Seq<char>) -> Seq<char> {
    let c = cleaned(name);
    cut_to_255_bytes(trim_dots_spaces(if windows_reserved(c) { Seq::empty() } else { c }))
}


/// The pieces of `parts` joined with `/` between them, as `[String]::join("/")`.
pub open spec fn join_slash(parts: Seq<Seq<char>>) -> Seq<char>
    decreases parts.len(),
{
    if parts.len() == 0 {
        Seq::empty()
    } else if parts.len() == 1 {
        parts[0]
    } else {
        join_slash(parts.drop_last()) + "/"@ + parts.last()
    }
}

/// The pieces joined with `/` between them.
pub fn join_with_slash(parts: &Vec<String>) -> (res: String)
    ensures
        res@ == join_slash(parts.deep_view()),
{
    let mut res = String::new();
    if parts.len() == 0 {
        return res;
    }
    res.append(parts[0].as_str());
    assert(parts.deep_view().subrange(0, 1).len() == 1);
    let mut i: usize = 1;
    while i < parts.len()
        invariant
            1 <= i <= parts@.len(),
            res@ == join_slash(parts.deep_view().subrange(0, i as int)),
        decreases parts@.len() - i,
    {
        assert(parts.deep_view().subrange(0, i + 1).drop_last() == parts.deep_view().subrange(
            0,
            i as int,
        ));
        res.append("/");
        res.append(parts[i].as_str());
        i = i + 1;
    }
    assert(parts.deep_view().subrange(0, parts@.len() as int) == parts.deep_view());
    res
}

/// The name an uploaded track keeps: the name the client gave, or else the
/// track's id, sanitized with Windows rules.
pub fn upload_filename(fname: &Option<String>, track_id: u128) -> (res: String)
    ensures
        fname matches Some(f) ==> res@ == sanitized_for_windows(f@),
        fname is None ==> res@ == sanitized_for_windows(uuid_text(track_id)),
{
    match fname {
        Some(f) => sanitize_name(f.as_str(), true),
        None => {
            let id = uuid_string(track_id);
            sanitize_name(id.as_str(), true)
        },
    }
}

/// The directory that holds the files of the user `userid`.
pub open spec fn user_dir(data_dir: Seq<char>, userid: u128) -> Seq<char> {
    path_push(data_dir, uuid_text(userid))
}

/// Whether the absolutized `ask` lies inside the absolutized `home`: its
/// components start with all the components of `home`.
pub open spec fn lies_within(home_abs: Seq<char>, ask_abs: Seq<char>) -> bool {
    is_prefix_of(components(home_abs), components(ask_abs))
}

/// Whether the absolutized path `path`, pushed onto the user's directory,
/// stays inside that directory.
pub open spec fn stays_in_user_dir(data_dir: Seq<char>, userid: u128, path: Seq<char>, cwd: Seq<char>) -> bool {
    lies_within(
        absolutized(user_dir(data_dir, userid), cwd),
        absolutized(path_push(user_dir(data_dir, userid), path), cwd),
    )
}

/// Whether the error is the answer to a path outside the user's directory.
pub open spec fn is_bad_path(e: MioInnerError) -> bool {
    e matches MioInnerError::ExtIoError(m, c) && m@ == "bad path"@ && c == 400
}

/// Refuses `ask_abs` unless it lies inside `home_abs`; both are absolutized paths.
pub fn dir_within(home_abs: &str, ask_abs: &str) -> (res: Result<(), MioInnerError>)
    ensures
        res is Ok <==> lies_within(home_abs@, ask_abs@),
        res matches Err(e) ==> is_bad_path(e),
{
    let home = path_components(home_abs);
    let ask = path_components(ask_abs);
    if components_prefix(&home, &ask) {
        Ok(())
    } else {
        Err(MioInnerError::ExtIoError(String::from_str("bad path"), 400))
    }
}

/// Checks that `path`, taken relative to the directory of the user `userid`
/// under `data_dir`, stays inside that directory once `.` and `..` are resolved.
/// `cwd` is the directory against which relative paths are resolved.
pub fn check_dir_in_data_dir(data_dir: &str, userid: u128, path: &str, cwd: &str) -> (res: Result<(), MioInnerError>)
    requires
        is_absolute(cwd@),
    ensures
        res is Ok <==> stays_in_user_dir(data_dir@, userid, path@, cwd@),
        res matches Err(e) ==> is_bad_path(e),
{
    let mut home = String::new();
    home.append(data_dir);
    let id = uuid_string(userid);
    push_path(&mut home, id.as_str());
    let mut ask = home.clone();
    push_path(&mut ask, path);
    let home_abs = match absolutize_from(home.as_str(), cwd) {
        Ok(p) => p,
        Err(e) => {
            return Err(MioInnerError::IntIoError(e));
        },
    };
    let ask_abs = match absolutize_from(ask.as_str(), cwd) {
        Ok(p) => p,
        Err(e) => {
            let mut m = String::from_str("the path supplied could not be absolutize'd: ");
            m.append(e.as_str());
            return Err(MioInnerError::ExtIoError(m, 400));
        },
    };
    dir_within(home_abs.as_str(), ask_abs.as_str())
}

/// The directory of the user `userid` under `data_dir`.
pub fn user_dir_path(data_dir: &str, userid: u128) -> (res: String)
    ensures
        res@ == user_dir(data_dir@, userid),
{
    let mut home = String::new();
    home.append(data_dir);
    let id = uuid_string(userid);
    push_path(&mut home, id.as_str());
    home
}

/// The folder that a create request names: the sanitized `name` inside the
/// folder at `path`, after checking that this folder lies in the user's directory.
pub fn folder_create_target(data_dir: &str, userid: u128, req: &FolderCreateDelete, cwd: &str) -> (res: Result<String, MioInnerError>)
    requires
        is_absolute(cwd@),
    ensures
        res matches Ok(t) ==> {
            &&& stays_in_user_dir(data_dir@, userid, path_collect(req.path.deep_view()), cwd@)
            &&& t@ == path_push(
                path_push(user_dir(data_dir@, userid), path_collect(req.path.deep_view())),
                sanitized(req.name@),
            )
            &&& sanitized(req.name@).len() > 0 ==> components(t@) == components(
                path_push(user_dir(data_dir@, userid), path_collect(req.path.deep_view())),
            ).push(sanitized(req.name@))
        },
        res is Ok <==> stays_in_user_dir(data_dir@, userid, path_collect(req.path.deep_view()), cwd@),
        res matches Err(e) ==> is_bad_path(e),
{
    let name = sanitize_name(req.name.as_str(), false);
    let pbuf = collect_path(&req.path);
    match check_dir_in_data_dir(data_dir, userid, pbuf.as_str(), cwd) {
        Ok(()) => {},
        Err(e) => {
            return Err(e);
        },
    }
    let mut target = user_dir_path(data_dir, userid);
    push_path(&mut target, pbuf.as_str());
    let ghost parent = target@;
    proof {
        assert(uuid_text(userid).len() > 0);
        assert(parent.len() > 0);
    }
    push_path(&mut target, name.as_str());
    proof {
        if name@.len() > 0 {
            assert(name@ != seq!['.']) by {
                assert("."@ == seq!['.']) by {
                    reveal_strlit(".");
                }
            }
            lemma_push_child(parent, name@);
        }
    }
    Ok(target)
}

/// The folder that a delete request names, after checking that the folder
/// holding it lies in the user's directory.
pub fn folder_delete_target(data_dir: &str, userid: u128, req: &FolderCreateDelete, cwd: &str) -> (res: Result<String, MioInnerError>)
    requires
        is_absolute(cwd@),
    ensures
        res matches Ok(t) ==> {
            &&& stays_in_user_dir(data_dir@, userid, path_collect(req.path.deep_view()), cwd@)
            &&& t@ == path_push(
                path_push(user_dir(data_dir@, userid), path_collect(req.path.deep_view())),
                req.name@,
            )
        },
        res is Ok <==> stays_in_user_dir(data_dir@, userid, path_collect(req.path.deep_view()), cwd@),
        res matches Err(e) ==> is_bad_path(e),
{
    let inp = collect_path(&req.path);
    let mut target = user_dir_path(data_dir, userid);
    push_path(&mut target, inp.as_str());
    push_path(&mut target, req.name.as_str());
    match check_dir_in_data_dir(data_dir, userid, inp.as_str(), cwd) {
        Ok(()) => {},
        Err(e) => {
            return Err(e);
        },
    }
    Ok(target)
}

/// The absolutized source and destination of a folder move, after checking
/// that both lie in the user's directory.
pub fn folder_rename_paths(data_dir: &str, userid: u128, req: &FolderRename, cwd: &str) -> (res: Result<(String, String), MioInnerError>)
    requires
        is_absolute(cwd@),
    ensures
        res matches Ok((old, new)) ==> {
            &&& stays_in_user_dir(data_dir@, userid, path_collect(req.old_path.deep_view()), cwd@)
            &&& stays_in_user_dir(data_dir@, userid, path_collect(req.new_path.deep_view()), cwd@)
            &&& old@ == absolutized(
                path_push(user_dir(data_dir@, userid), path_collect(req.old_path.deep_view())),
                cwd@,
            )
            &&& new@ == absolutized(
                path_push(user_dir(data_dir@, userid), path_collect(req.new_path.deep_view())),
                cwd@,
            )
        },
        res is Ok <==> (stays_in_user_dir(data_dir@, userid, path_collect(req.old_path.deep_view()), cwd@)
            && stays_in_user_dir(data_dir@, userid, path_collect(req.new_path.deep_view()), cwd@)),
        res matches Err(e) ==> is_bad_path(e),
{
    let old_path = collect_path(&req.old_path);
    let new_path = collect_path(&req.new_path);
    match check_dir_in_data_dir(data_dir, userid, old_path.as_str(), cwd) {
        Ok(()) => {},
        Err(e) => {
            return Err(e);
        },
    }
    match check_dir_in_data_dir(data_dir, userid, new_path.as_str(), cwd) {
        Ok(()) => {},
        Err(e) => {
            return Err(e);
        },
    }
    let mut old = user_dir_path(data_dir, userid);
    push_path(&mut old, old_path.as_str());
    let mut new = user_dir_path(data_dir, userid);
    push_path(&mut new, new_path.as_str());
    let old = match absolutize_from(old.as_str(), cwd) {
        Ok(p) => p,
        Err(e) => {
            return Err(MioInnerError::IntIoError(e));
        },
    };
    let new = match absolutize_from(new.as_str(), cwd) {
        Ok(p) => p,
        Err(e) => {
            return Err(MioInnerError::IntIoError(e));
        },
    };
    Ok((old, new))
}

/// The directory a folder listing reads and the name the listing is given:
/// the requested path is absolutized, checked, and pushed onto the user's
/// directory; the name is the last requested piece, or empty.
pub fn folder_query_dir(data_dir: &str, userid: u128, req: &FolderQuery, cwd: &str) -> (res: Result<(String, String), MioInnerError>)
    requires
        is_absolute(cwd@),
    ensures
        res matches Ok((dir, name)) ==> {
            let abs = absolutized(path_collect(req.path.deep_view()), cwd@);
            &&& stays_in_user_dir(data_dir@, userid, abs, cwd@)
            &&& dir@ == path_push(user_dir(data_dir@, userid), abs)
            &&& name@ == (if req.path.len() == 0 {
                Seq::<char>::empty()
            } else {
                req.path.deep_view().last()
            })
        },
        res is Ok <==> stays_in_user_dir(
            data_dir@,
            userid,
            absolutized(path_collect(req.path.deep_view()), cwd@),
            cwd@,
        ),
        res matches Err(e) ==> is_bad_path(e),
{
    let name = if req.path.len() == 0 {
        String::new()
    } else {
        req.path[req.path.len() - 1].clone()
    };
    let path = collect_path(&req.path);
    let abs = match absolutize_from(path.as_str(), cwd) {
        Ok(p) => p,
        Err(e) => {
            return Err(MioInnerError::IntIoError(e));
        },
    };
    match check_dir_in_data_dir(data_dir, userid, abs.as_str(), cwd) {
        Ok(()) => {},
        Err(e) => {
            return Err(e);
        },
    }
    let mut dir = user_dir_path(data_dir, userid);
    push_path(&mut dir, abs.as_str());
    Ok((dir, name))
}

/// Where a moved track goes: the folder recorded for it (the requested pieces
/// joined with `/`) and its new file, after checking that the file lies in the
/// user's directory.
pub fn track_move_target(data_dir: &str, userid: u128, new_path: &Vec<String>, id: u128, cwd: &str) -> (res: Result<(String, String), MioInnerError>)
    requires
        is_absolute(cwd@),
    ensures
        res matches Ok((dir, file)) ==> {
            &&& dir@ == join_slash(new_path.deep_view())
            &&& file@ == path_push(path_push(user_dir(data_dir@, userid), dir@), uuid_text(id))
            &&& stays_in_user_dir(data_dir@, userid, file@, cwd@)
        },
        res is Ok <==> stays_in_user_dir(
            data_dir@,
            userid,
            path_push(path_push(user_dir(data_dir@, userid), join_slash(new_path.deep_view())), uuid_text(id)),
            cwd@,
        ),
        res matches Err(e) ==> is_bad_path(e),
{
    let dir = join_with_slash(new_path);
    let mut file = user_dir_path(data_dir, userid);
    push_path(&mut file, dir.as_str());
    let name = uuid_string(id);
    push_path(&mut file, name.as_str());
    match check_dir_in_data_dir(data_dir, userid, file.as_str(), cwd) {
        Ok(()) => {},
        Err(e) => {
            return Err(e);
        },
    }
    Ok((dir, file))
}

/// The file an uploaded track is stored in: the track's id inside the folder
/// `dir` of the user's directory, after checking that the file lies in that directory.
pub fn track_upload_target(data_dir: &str, userid: u128, dir: &str, track_id: u128, cwd: &str) -> (res: Result<String, MioInnerError>)
    requires
        is_absolute(cwd@),
    ensures
        res matches Ok(t) ==> {
            &&& t@ == path_push(path_push(user_dir(data_dir@, userid), dir@), uuid_text(track_id))
            &&& stays_in_user_dir(data_dir@, userid, t@, cwd@)
        },
        res is Ok <==> stays_in_user_dir(
            data_dir@,
            userid,
            path_push(path_push(user_dir(data_dir@, userid), dir@), uuid_text(track_id)),
            cwd@,
        ),
        res matches Err(e) ==> is_bad_path(e),
{
    let mut target = user_dir_path(data_dir, userid);
    push_path(&mut target, dir);
    let id = uuid_string(track_id);
    push_path(&mut target, id.as_str());
    match check_dir_in_data_dir(data_dir, userid, target.as_str(), cwd) {
        Ok(()) => {},
        Err(e) => {
            return Err(e);
        },
    }
    Ok(target)
}

} // verus!

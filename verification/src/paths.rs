//! Where the accelerator keeps its files.
use crate::platform::Os;
use crate::text::{followed_by, from_chars, opt_text, to_chars};
use vstd::prelude::*;

verus! {

/// The name of the configuration file.
pub const CONFIG_FILE_NAME: &'static str = "linuxdo-accelerator.toml";

/// Where the accelerator keeps its files.
#[derive(Debug)]
pub struct AppPaths {
    pub config_path: String,
    pub runtime_dir: String,
    pub cert_dir: String,
    pub state_path: String,
    pub pid_path: String,
    pub runtime_log_path: String,
}

/// Where the accelerator keeps its files, as sequences.
#[verifier::ext_equal]
pub struct PathsModel {
    pub config_path: Seq<char>,
    pub runtime_dir: Seq<char>,
    pub cert_dir: Seq<char>,
    pub state_path: Seq<char>,
    pub pid_path: Seq<char>,
    pub runtime_log_path: Seq<char>,
}

impl View for AppPaths {
    type V = PathsModel;

    open spec fn view(&self) -> PathsModel {
        PathsModel {
            config_path: self.config_path@,
            runtime_dir: self.runtime_dir@,
            cert_dir: self.cert_dir@,
            state_path: self.state_path@,
            pid_path: self.pid_path@,
            runtime_log_path: self.runtime_log_path@,
        }
    }
}

/// The directories that the system keeps for the user's programs.
#[derive(Debug)]
pub struct UserDirs {
    /// The home of the user.
    pub home: String,
    /// What Windows keeps for programs, and shares between machines.
    pub app_data: String,
    /// What Windows keeps for programs on this machine.
    pub local_app_data: String,
}

/// Whether a path is one that Windows takes word for word: it begins with
/// `\\?\`.
pub open spec fn is_verbatim(os: Os, path: Seq<char>) -> bool {
    &&& os == Os::Windows
    &&& path.len() >= 4
    &&& path[0] == '\\'
    &&& path[1] == '\\'
    &&& path[2] == '?'
    &&& path[3] == '\\'
}

/// Whether a character parts the names in a path.
pub open spec fn is_separator(os: Os, verbatim: bool, c: char) -> bool {
    (c == '/' && !verbatim) || (c == '\\' && os == Os::Windows)
}

/// Where the name that begins at `from` ends.
pub open spec fn name_end(os: Os, path: Seq<char>, from: int) -> int
    decreases path.len() - from,
{
    if 0 <= from < path.len() && !is_separator(os, is_verbatim(os, path), path[from]) {
        name_end(os, path, from + 1)
    } else {
        from
    }
}

/// Whether the letter of a drive stands at `at`.
pub open spec fn is_drive(path: Seq<char>, at: int) -> bool {
    &&& at + 1 < path.len()
    &&& ('a' <= path[at] <= 'z' || 'A' <= path[at] <= 'Z')
    &&& path[at + 1] == ':'
}

/// Whether a path begins with the letter of a drive.
pub open spec fn has_drive(os: Os, path: Seq<char>) -> bool {
    os == Os::Windows && is_drive(path, 0)
}

/// Whether a path begins with two separators.
pub open spec fn has_double_root(os: Os, path: Seq<char>) -> bool {
    &&& os == Os::Windows
    &&& path.len() >= 2
    &&& is_separator(os, false, path[0])
    &&& is_separator(os, false, path[1])
}

/// Whether a path names a device: it begins with `\\.\`.
pub open spec fn is_device(os: Os, path: Seq<char>) -> bool {
    &&& has_double_root(os, path)
    &&& path.len() >= 4
    &&& path[2] == '.'
    &&& is_separator(os, false, path[3])
}

/// Whether a path that is taken word for word names a drive.
pub open spec fn is_verbatim_drive(os: Os, path: Seq<char>) -> bool {
    &&& is_verbatim(os, path)
    &&& is_drive(path, 4)
    &&& path.len() == 6 || is_separator(os, false, path[6])
}

/// Whether a path that is taken word for word names a share: it begins with
/// `\\?\UNC\`.
pub open spec fn is_verbatim_share(os: Os, path: Seq<char>) -> bool {
    &&& is_verbatim(os, path)
    &&& path.len() >= 8
    &&& path[4] == 'U'
    &&& path[5] == 'N'
    &&& path[6] == 'C'
    &&& is_separator(os, false, path[7])
}

/// Where the name of a share ends whose machine is named at `from`; where the
/// machine's name ends, if there is none.
pub open spec fn share_end(os: Os, path: Seq<char>, from: int) -> int {
    let machine = name_end(os, path, from);
    if machine < path.len() && machine + 1 < name_end(os, path, machine + 1) {
        name_end(os, path, machine + 1)
    } else {
        machine
    }
}

/// Whether a path begins, after two separators, with the name of a machine
/// and of something that it shares.
pub open spec fn has_share(os: Os, path: Seq<char>) -> bool {
    &&& has_double_root(os, path)
    &&& 2 < name_end(os, path, 2) < share_end(os, path, 2)
}

/// How much of a path says which drive, share or device it is on.
pub open spec fn prefix_len(os: Os, path: Seq<char>) -> int {
    if is_verbatim_share(os, path) {
        share_end(os, path, 8)
    } else if is_verbatim_drive(os, path) {
        6
    } else if is_verbatim(os, path) || is_device(os, path) {
        name_end(os, path, 4)
    } else if has_share(os, path) {
        share_end(os, path, 2)
    } else if has_drive(os, path) {
        2
    } else {
        0
    }
}

/// Whether a separator stands where the names could begin.
pub open spec fn has_root(os: Os, path: Seq<char>) -> bool {
    let n = prefix_len(os, path);
    n < path.len() && is_separator(os, false, path[n])
}

/// Where the names in a path begin: behind its drive or share, and its root.
pub open spec fn names_from(os: Os, path: Seq<char>) -> int {
    prefix_len(os, path) + if has_root(os, path) {
        1int
    } else {
        0int
    }
}

/// Whether the last name in the front part of a path, up to `end`, is a dot
/// that says nothing. A dot that a path begins with counts as a name.
pub open spec fn ends_in_dot(os: Os, path: Seq<char>, end: int) -> bool {
    &&& !is_verbatim(os, path)
    &&& path[end - 1] == '.'
    &&& if end - 1 == names_from(os, path) {
        has_root(os, path)
    } else {
        is_separator(os, false, path[end - 2])
    }
}

/// The end of the last name in the front part of a path, up to `end`, without
/// the separators behind it and the dots that say nothing.
pub open spec fn last_name_end(os: Os, path: Seq<char>, end: int) -> int
    decreases end,
{
    if end <= names_from(os, path) || end <= 0 {
        names_from(os, path)
    } else if is_separator(os, is_verbatim(os, path), path[end - 1]) || ends_in_dot(os, path, end) {
        last_name_end(os, path, end - 1)
    } else {
        end
    }
}

/// Where the name that ends at `end` begins.
pub open spec fn name_start(os: Os, path: Seq<char>, end: int) -> int
    decreases end,
{
    if end <= names_from(os, path) || end <= 0 || is_separator(
        os,
        is_verbatim(os, path),
        path[end - 1],
    ) {
        end
    } else {
        name_start(os, path, end - 1)
    }
}

/// The directory that a file is in: the path without its last name, and empty
/// where it has none. Separators at the end, repeated ones and dots between
/// names do not count as names.
pub open spec fn parent(os: Os, path: Seq<char>) -> Seq<char> {
    let end = last_name_end(os, path, path.len() as int);
    if end <= names_from(os, path) {
        Seq::empty()
    } else {
        path.take(last_name_end(os, path, name_start(os, path, end)))
    }
}

/// What stands between the names in a path that is put together.
pub open spec fn separator(os: Os) -> Seq<char> {
    if os == Os::Windows {
        "\\"@
    } else {
        "/"@
    }
}

/// The path of `name` in the directory `dir`. Behind the letter of a drive
/// alone it stands without a separator.
pub open spec fn in_dir(os: Os, dir: Seq<char>, name: Seq<char>) -> Seq<char> {
    if dir.len() == 0 {
        name
    } else if is_separator(os, is_verbatim(os, dir), dir.last()) || (dir.len() == 2 && has_drive(
        os,
        dir,
    )) {
        dir + name
    } else {
        dir + separator(os) + name
    }
}

/// What is known of the characters of a path once its beginning was read.
struct PathStart {
    verbatim: bool,
    root: bool,
    names_from: usize,
}

impl PathStart {
    spec fn fits(self, os: Os, path: Seq<char>) -> bool {
        &&& self.verbatim == is_verbatim(os, path)
        &&& self.root == has_root(os, path)
        &&& self.names_from == names_from(os, path)
        &&& self.names_from <= path.len()
    }
}

fn separates(os: Os, verbatim: bool, c: char) -> (r: bool)
    ensures
        r == is_separator(os, verbatim, c),
{
    (c == '/' && !verbatim) || (c == '\\' && os == Os::Windows)
}

fn find_name_end(os: Os, chars: &Vec<char>, verbatim: bool, from: usize) -> (r: usize)
    requires
        from <= chars@.len(),
        verbatim == is_verbatim(os, chars@),
    ensures
        r == name_end(os, chars@, from as int),
        from <= r <= chars@.len(),
{
    let mut end: usize = from;
    while end < chars.len() && !separates(os, verbatim, chars[end])
        invariant
            from <= end <= chars@.len(),
            verbatim == is_verbatim(os, chars@),
            name_end(os, chars@, from as int) == name_end(os, chars@, end as int),
        decreases chars@.len() - end,
    {
        end = end + 1;
    }
    end
}

fn drive_at(chars: &Vec<char>, at: usize) -> (r: bool)
    requires
        at <= 4,
    ensures
        r == is_drive(chars@, at as int),
{
    at + 1 < chars.len() && (('a' <= chars[at] && chars[at] <= 'z') || ('A' <= chars[at]
        && chars[at] <= 'Z')) && chars[at + 1] == ':'
}

fn starts_verbatim(os: Os, chars: &Vec<char>) -> (r: bool)
    ensures
        r == is_verbatim(os, chars@),
{
    os == Os::Windows && chars.len() >= 4 && chars[0] == '\\' && chars[1] == '\\' && chars[2]
        == '?' && chars[3] == '\\'
}

fn find_share_end(os: Os, chars: &Vec<char>, verbatim: bool, from: usize) -> (r: usize)
    requires
        from <= chars@.len(),
        verbatim == is_verbatim(os, chars@),
    ensures
        r == share_end(os, chars@, from as int),
        from <= r <= chars@.len(),
{
    let machine = find_name_end(os, chars, verbatim, from);
    if machine < chars.len() {
        let share = find_name_end(os, chars, verbatim, machine + 1);
        if machine + 1 < share {
            return share;
        }
    }
    machine
}

fn find_prefix_len(os: Os, chars: &Vec<char>, verbatim: bool) -> (r: usize)
    requires
        verbatim == is_verbatim(os, chars@),
    ensures
        r == prefix_len(os, chars@),
        r <= chars@.len(),
{
    let n = chars.len();
    if verbatim {
        if n >= 8 && chars[4] == 'U' && chars[5] == 'N' && chars[6] == 'C' && separates(
            os,
            false,
            chars[7],
        ) {
            return find_share_end(os, chars, verbatim, 8);
        }
        if drive_at(chars, 4) && (n == 6 || separates(os, false, chars[6])) {
            return 6;
        }
        return find_name_end(os, chars, verbatim, 4);
    }
    if os == Os::Windows && n >= 2 && separates(os, false, chars[0]) && separates(
        os,
        false,
        chars[1],
    ) {
        if n >= 4 && chars[2] == '.' && separates(os, false, chars[3]) {
            return find_name_end(os, chars, verbatim, 4);
        }
        let machine = find_name_end(os, chars, verbatim, 2);
        let share = find_share_end(os, chars, verbatim, 2);
        if 2 < machine && machine < share {
            return share;
        }
    }
    if os == Os::Windows && drive_at(chars, 0) {
        2
    } else {
        0
    }
}

fn read_start(os: Os, chars: &Vec<char>) -> (r: PathStart)
    ensures
        r.fits(os, chars@),
{
    let verbatim = starts_verbatim(os, chars);
    let prefix = find_prefix_len(os, chars, verbatim);
    let root = prefix < chars.len() && separates(os, false, chars[prefix]);
    let names_from: usize = if root {
        prefix + 1
    } else {
        prefix
    };
    PathStart { verbatim, root, names_from }
}

fn find_last_name_end(os: Os, chars: &Vec<char>, start: &PathStart, from: usize) -> (r: usize)
    requires
        start.fits(os, chars@),
        from <= chars@.len(),
    ensures
        r == last_name_end(os, chars@, from as int),
        r <= chars@.len(),
{
    let mut end: usize = from;
    while end > start.names_from
        invariant
            start.fits(os, chars@),
            end <= chars@.len(),
            last_name_end(os, chars@, from as int) == last_name_end(os, chars@, end as int),
        decreases end,
    {
        let c = chars[end - 1];
        if !separates(os, start.verbatim, c) {
            let dot = !start.verbatim && c == '.' && if end - 1 == start.names_from {
                start.root
            } else {
                separates(os, false, chars[end - 2])
            };
            if !dot {
                return end;
            }
        }
        end = end - 1;
    }
    start.names_from
}

fn find_name_start(os: Os, chars: &Vec<char>, start: &PathStart, from: usize) -> (r: usize)
    requires
        start.fits(os, chars@),
        from <= chars@.len(),
    ensures
        r == name_start(os, chars@, from as int),
        r <= from,
{
    let mut at: usize = from;
    while at > start.names_from && !separates(os, start.verbatim, chars[at - 1])
        invariant
            start.fits(os, chars@),
            at <= from <= chars@.len(),
            name_start(os, chars@, from as int) == name_start(os, chars@, at as int),
        decreases at,
    {
        at = at - 1;
    }
    at
}

fn parent_path(os: Os, path: &str) -> (r: String)
    ensures
        r@ == parent(os, path@),
{
    let chars = to_chars(path);
    let start = read_start(os, &chars);
    let end = find_last_name_end(os, &chars, &start, chars.len());
    if end <= start.names_from {
        let r = String::new();
        assert(r@ =~= Seq::<char>::empty());
        return r;
    }
    let name = find_name_start(os, &chars, &start, end);
    let cut = find_last_name_end(os, &chars, &start, name);
    let r = from_chars(&chars, 0, cut);
    assert(r@ =~= path@.take(cut as int));
    r
}

/// The path of `name` in the directory `dir`.
pub fn join_path(os: Os, dir: &str, name: &str) -> (r: String)
    ensures
        r@ == in_dir(os, dir@, name@),
{
    let chars = to_chars(dir);
    let n = chars.len();
    if n == 0 {
        return name.to_string();
    }
    let verbatim = starts_verbatim(os, &chars);
    if separates(os, verbatim, chars[n - 1]) || (n == 2 && os == Os::Windows && drive_at(&chars, 0)) {
        return followed_by(dir, name);
    }
    let mut path = if os == Os::Windows {
        followed_by(dir, "\\")
    } else {
        followed_by(dir, "/")
    };
    path.append(name);
    path
}

/// The files around a configuration file and the directory for data.
pub open spec fn paths_at(os: Os, config_path: Seq<char>, data_dir: Seq<char>) -> PathsModel {
    let runtime = in_dir(os, data_dir, "runtime"@);
    PathsModel {
        config_path,
        runtime_dir: runtime,
        cert_dir: in_dir(os, data_dir, "certs"@),
        state_path: in_dir(os, runtime, "state.json"@),
        pid_path: in_dir(os, runtime, "service.pid"@),
        runtime_log_path: in_dir(os, runtime, "runtime.log"@),
    }
}

/// The directory for the configuration.
pub open spec fn config_home(os: Os, dirs: UserDirs) -> Seq<char> {
    if os == Os::Windows {
        in_dir(os, dirs.app_data@, "linuxdo\\linuxdo-accelerator\\config"@)
    } else if os == Os::MacOs {
        in_dir(
            os,
            dirs.home@,
            "Library/Application Support/io.linuxdo.linuxdo-accelerator"@,
        )
    } else {
        in_dir(os, dirs.home@, ".config/linuxdo-accelerator"@)
    }
}

/// The directory for data.
pub open spec fn data_home(os: Os, dirs: UserDirs) -> Seq<char> {
    if os == Os::Windows {
        in_dir(os, dirs.local_app_data@, "linuxdo\\linuxdo-accelerator\\data"@)
    } else if os == Os::MacOs {
        in_dir(
            os,
            dirs.home@,
            "Library/Application Support/io.linuxdo.linuxdo-accelerator"@,
        )
    } else {
        in_dir(os, dirs.home@, ".local/share/linuxdo-accelerator"@)
    }
}

/// Where the files are: beside the configuration file where one is named, and
/// else where the system keeps such files.
pub open spec fn resolved_paths(
    os: Os,
    config_override: Option<Seq<char>>,
    dirs: UserDirs,
) -> PathsModel {
    match config_override {
        Some(path) => paths_at(os, path, parent(os, path)),
        None => paths_at(
            os,
            in_dir(os, config_home(os, dirs), CONFIG_FILE_NAME@),
            data_home(os, dirs),
        ),
    }
}

fn build_paths(os: Os, config_path: String, data_dir: &str) -> (r: AppPaths)
    ensures
        r@ == paths_at(os, config_path@, data_dir@),
{
    let runtime_dir = join_path(os, data_dir, "runtime");
    let state_path = join_path(os, runtime_dir.as_str(), "state.json");
    let pid_path = join_path(os, runtime_dir.as_str(), "service.pid");
    let runtime_log_path = join_path(os, runtime_dir.as_str(), "runtime.log");
    AppPaths {
        config_path,
        cert_dir: join_path(os, data_dir, "certs"),
        state_path,
        pid_path,
        runtime_log_path,
        runtime_dir,
    }
}

/// Finds out where the files are.
pub fn resolve_paths(os: Os, config_override: Option<String>, dirs: &UserDirs) -> (r: AppPaths)
    ensures
        r@ == resolved_paths(os, opt_text(config_override), *dirs),
{
    if let Some(path) = config_override {
        let dir = parent_path(os, path.as_str());
        return build_paths(os, path, dir.as_str());
    }
    let home = dirs.home.as_str();
    let (config_dir, data_dir) = if os == Os::Windows {
        (
            join_path(os, dirs.app_data.as_str(), "linuxdo\\linuxdo-accelerator\\config"),
            join_path(os, dirs.local_app_data.as_str(), "linuxdo\\linuxdo-accelerator\\data"),
        )
    } else if os == Os::MacOs {
        (
            join_path(os, home, "Library/Application Support/io.linuxdo.linuxdo-accelerator"),
            join_path(os, home, "Library/Application Support/io.linuxdo.linuxdo-accelerator"),
        )
    } else {
        (
            join_path(os, home, ".config/linuxdo-accelerator"),
            join_path(os, home, ".local/share/linuxdo-accelerator"),
        )
    };
    let config_path = join_path(os, config_dir.as_str(), CONFIG_FILE_NAME);
    build_paths(os, config_path, data_dir.as_str())
}

/// The file beside the configuration in which earlier versions kept its
/// second half.
pub fn legacy_network_profile_path(os: Os, config_path: &str) -> (r: String)
    ensures
        r@ == in_dir(os, parent(os, config_path@), "linuxdo-network.toml"@),
{
    let dir = parent_path(os, config_path);
    join_path(os, dir.as_str(), "linuxdo-network.toml")
}

/// Where a configuration file is named, everything is kept in its directory.
pub proof fn law_files_follow_the_configuration(os: Os, path: Seq<char>, dirs: UserDirs)
    ensures
        resolved_paths(os, Some(path), dirs).config_path == path,
        resolved_paths(os, Some(path), dirs).runtime_dir == in_dir(
            os,
            parent(os, path),
            "runtime"@,
        ),
        resolved_paths(os, Some(path), dirs).cert_dir == in_dir(os, parent(os, path), "certs"@),
{
}

/// A name is put behind a directory after a separator, but not where one
/// stands there already, nor behind nothing.
pub proof fn law_names_in_directories(os: Os, dir: Seq<char>, name: Seq<char>)
    requires
        os != Os::Windows,
    ensures
        dir.len() == 0 ==> in_dir(os, dir, name) == name,
        dir.len() > 0 && dir.last() == '/' ==> in_dir(os, dir, name) == dir + name,
        dir.len() > 0 && dir.last() != '/' ==> in_dir(os, dir, name) == dir + seq!['/'] + name,
{
    reveal_strlit("/");
    assert("/"@ =~= seq!['/']);
}

/// On Windows both kinds of slash separate, a backslash is put in, and none
/// behind the letter of a drive alone.
pub proof fn law_names_in_directories_on_windows(dir: Seq<char>, name: Seq<char>)
    requires
        dir.len() > 0 ==> !(dir[0] == '\\' || dir[0] == '/'),
    ensures
        dir.len() == 0 ==> in_dir(Os::Windows, dir, name) == name,
        dir.len() > 0 && (dir.last() == '\\' || dir.last() == '/') ==> in_dir(
            Os::Windows,
            dir,
            name,
        ) == dir + name,
        dir.len() == 2 && dir[1] == ':' && ('a' <= dir[0] <= 'z' || 'A' <= dir[0] <= 'Z')
            ==> in_dir(Os::Windows, dir, name) == dir + name,
        dir.len() > 2 && dir.last() != '\\' && dir.last() != '/' ==> in_dir(
            Os::Windows,
            dir,
            name,
        ) == dir + seq!['\\'] + name,
{
    reveal_strlit("\\");
    assert("\\"@ =~= seq!['\\']);
}

/// Whether a text can be the name of a file: it is not empty, has no separator
/// in it, and does not end with a dot.
pub open spec fn is_file_name(name: Seq<char>) -> bool {
    &&& name.len() > 0
    &&& !name.contains('/')
    &&& !name.contains('\\')
    &&& name.last() != '.'
}

proof fn lemma_name_start(os: Os, path: Seq<char>, from: int, end: int)
    requires
        names_from(os, path) <= from <= end <= path.len(),
        0 <= from,
        forall|i: int|
            from <= i < end ==> !is_separator(os, is_verbatim(os, path), #[trigger] path[i]),
        from == names_from(os, path) || is_separator(os, is_verbatim(os, path), path[from - 1]),
    ensures
        name_start(os, path, end) == from,
    decreases end,
{
    if end > from {
        assert(!is_separator(os, is_verbatim(os, path), path[end - 1]));
        lemma_name_start(os, path, from, end - 1);
    }
}

/// The directory of a file that was put into it is that directory, also with a
/// separator behind the file; the root for one in it, and nothing for a name
/// alone.
pub proof fn law_directory_of_a_file(os: Os, dir: Seq<char>, name: Seq<char>)
    requires
        os != Os::Windows,
        is_file_name(name),
    ensures
        dir.len() > 0 && dir.last() != '/' && dir.last() != '.' ==> parent(
            os,
            dir + seq!['/'] + name,
        ) == dir && parent(os, dir + seq!['/'] + name + seq!['/']) == dir && parent(
            os,
            in_dir(os, dir, name),
        ) == dir,
        parent(os, seq!['/'] + name) == seq!['/'],
        parent(os, name).len() == 0,
{
    let n = name.len() as int;
    assert forall|i: int| 0 <= i < n implies #[trigger] name[i] != '/' by {}
    if dir.len() > 0 && dir.last() != '/' && dir.last() != '.' {
        let d = dir.len() as int;
        let path = dir + seq!['/'] + name;
        let start = names_from(os, path);
        assert(0 <= start <= 1);
        assert(path[d - 1] == dir.last());
        if start == 1 {
            assert(path[0] == '/');
            assert(d > 1);
        }
        assert(path[d + n] == name.last());
        assert forall|i: int| d + 1 <= i < d + 1 + n implies !is_separator(
            os,
            false,
            #[trigger] path[i],
        ) by {
            assert(path[i] == name[i - d - 1]);
        }
        assert(last_name_end(os, path, d + 1 + n) == d + 1 + n);
        lemma_name_start(os, path, d + 1, d + 1 + n);
        assert(path[d] == '/');
        assert(last_name_end(os, path, d) == d);
        assert(last_name_end(os, path, d + 1) == d);
        assert(path.take(d) =~= dir);
        let longer = path + seq!['/'];
        assert(names_from(os, longer) == start);
        assert(longer[d + 1 + n] == '/');
        assert(longer[d + n] == name.last());
        assert(longer[d - 1] == dir.last());
        assert(longer[d] == '/');
        assert(last_name_end(os, longer, d + 1 + n) == d + 1 + n);
        assert(last_name_end(os, longer, d + 2 + n) == d + 1 + n);
        assert forall|i: int| d + 1 <= i < d + 1 + n implies !is_separator(
            os,
            false,
            #[trigger] longer[i],
        ) by {
            assert(longer[i] == name[i - d - 1]);
        }
        lemma_name_start(os, longer, d + 1, d + 1 + n);
        assert(last_name_end(os, longer, d) == d);
        assert(last_name_end(os, longer, d + 1) == d);
        assert(longer.take(d) =~= dir);
        law_names_in_directories(os, dir, name);
    }
    let rooted = seq!['/'] + name;
    assert(rooted[0] == '/');
    assert(names_from(os, rooted) == 1);
    assert(rooted[n] == name.last());
    assert forall|i: int| 1 <= i < n + 1 implies !is_separator(os, false, #[trigger] rooted[i]) by {
        assert(rooted[i] == name[i - 1]);
    }
    assert(last_name_end(os, rooted, n + 1) == n + 1);
    lemma_name_start(os, rooted, 1, n + 1);
    assert(rooted.take(1) =~= seq!['/']);
    assert(name[0] != '/');
    assert(names_from(os, name) == 0);
    assert(last_name_end(os, name, n) == n);
    lemma_name_start(os, name, 0, n);
    assert(name.take(0) =~= Seq::<char>::empty());
}

/// On Windows too the directory of a file that was put into it is that
/// directory, where it is one on a drive; the root of the drive for a file in
/// it.
pub proof fn law_directory_of_a_file_on_windows(drive: char, dir: Seq<char>, name: Seq<char>)
    requires
        'a' <= drive <= 'z' || 'A' <= drive <= 'Z',
        is_file_name(name),
        dir.len() > 0 ==> dir.last() != '\\' && dir.last() != '/' && dir.last() != '.',
    ensures
        dir.len() > 0 ==> parent(
            Os::Windows,
            seq![drive, ':', '\\'] + dir + seq!['\\'] + name,
        ) == seq![drive, ':', '\\'] + dir,
        parent(Os::Windows, seq![drive, ':', '\\'] + name) == seq![drive, ':', '\\'],
{
    let os = Os::Windows;
    let n = name.len() as int;
    let root = seq![drive, ':', '\\'];
    assert forall|i: int| 0 <= i < n implies #[trigger] name[i] != '/' && name[i] != '\\' by {}
    if dir.len() > 0 {
        let path = root + dir + seq!['\\'] + name;
        let d = 3 + dir.len() as int;
        assert(path[0] == drive && path[1] == ':' && path[2] == '\\');
        assert(names_from(os, path) == 3);
        assert(path[d - 1] == dir.last());
        assert(path[d] == '\\');
        assert(path[d + n] == name.last());
        assert forall|i: int| d + 1 <= i < d + 1 + n implies !is_separator(
            os,
            false,
            #[trigger] path[i],
        ) by {
            assert(path[i] == name[i - d - 1]);
        }
        assert(last_name_end(os, path, d + 1 + n) == d + 1 + n);
        lemma_name_start(os, path, d + 1, d + 1 + n);
        assert(last_name_end(os, path, d) == d);
        assert(last_name_end(os, path, d + 1) == d);
        assert(path.take(d) =~= root + dir);
    }
    let path = root + name;
    assert(path[0] == drive && path[1] == ':' && path[2] == '\\');
    assert(names_from(os, path) == 3);
    assert(path[2 + n] == name.last());
    assert forall|i: int| 3 <= i < 3 + n implies !is_separator(os, false, #[trigger] path[i]) by {
        assert(path[i] == name[i - 3]);
    }
    assert(last_name_end(os, path, 3 + n) == 3 + n);
    lemma_name_start(os, path, 3, 3 + n);
    assert(path.take(3) =~= root);
}

/// With a configuration file of the user's own all files stand beside it: the
/// state, the number of the process and the log in `runtime`, the certificates
/// in `certs`.
pub proof fn law_files_beside_the_configuration(
    os: Os,
    dir: Seq<char>,
    name: Seq<char>,
    dirs: UserDirs,
)
    requires
        os != Os::Windows,
        is_file_name(name),
        dir.len() > 0,
        dir.last() != '/',
        dir.last() != '.',
    ensures
        ({
            let paths = resolved_paths(os, Some(dir + seq!['/'] + name), dirs);
            &&& paths.config_path == dir + seq!['/'] + name
            &&& paths.runtime_dir == dir + seq!['/'] + "runtime"@
            &&& paths.cert_dir == dir + seq!['/'] + "certs"@
            &&& paths.state_path == dir + seq!['/'] + "runtime"@ + seq!['/'] + "state.json"@
            &&& paths.pid_path == dir + seq!['/'] + "runtime"@ + seq!['/'] + "service.pid"@
            &&& paths.runtime_log_path == dir + seq!['/'] + "runtime"@ + seq!['/']
                + "runtime.log"@
        }),
{
    reveal_strlit("runtime");
    let runtime = dir + seq!['/'] + "runtime"@;
    assert(runtime.last() == 'e');
    law_directory_of_a_file(os, dir, name);
    law_names_in_directories(os, dir, "runtime"@);
    law_names_in_directories(os, dir, "certs"@);
    law_names_in_directories(os, runtime, "state.json"@);
    law_names_in_directories(os, runtime, "service.pid"@);
    law_names_in_directories(os, runtime, "runtime.log"@);
}

/// Without one the files stand where the system keeps such files for the user:
/// the configuration and the data apart on Linux, and together on macOS.
pub proof fn law_files_of_the_user(os: Os, dirs: UserDirs)
    requires
        os != Os::Windows,
        dirs.home@.len() > 0,
        dirs.home@.last() != '/',
    ensures
        ({
            let paths = resolved_paths(os, None, dirs);
            let home = dirs.home@ + seq!['/'];
            let config = if os == Os::MacOs {
                home + "Library/Application Support/io.linuxdo.linuxdo-accelerator"@
            } else {
                home + ".config/linuxdo-accelerator"@
            };
            let data = if os == Os::MacOs {
                home + "Library/Application Support/io.linuxdo.linuxdo-accelerator"@
            } else {
                home + ".local/share/linuxdo-accelerator"@
            };
            &&& paths.config_path == config + seq!['/'] + "linuxdo-accelerator.toml"@
            &&& paths.runtime_dir == data + seq!['/'] + "runtime"@
            &&& paths.cert_dir == data + seq!['/'] + "certs"@
            &&& paths.state_path == data + seq!['/'] + "runtime"@ + seq!['/'] + "state.json"@
            &&& paths.pid_path == data + seq!['/'] + "runtime"@ + seq!['/'] + "service.pid"@
            &&& paths.runtime_log_path == data + seq!['/'] + "runtime"@ + seq!['/']
                + "runtime.log"@
        }),
{
    reveal_strlit("runtime");
    reveal_strlit("Library/Application Support/io.linuxdo.linuxdo-accelerator");
    reveal_strlit(".config/linuxdo-accelerator");
    reveal_strlit(".local/share/linuxdo-accelerator");
    let config = config_home(os, dirs);
    let data = data_home(os, dirs);
    law_names_in_directories(
        os,
        dirs.home@,
        "Library/Application Support/io.linuxdo.linuxdo-accelerator"@,
    );
    law_names_in_directories(os, dirs.home@, ".config/linuxdo-accelerator"@);
    law_names_in_directories(os, dirs.home@, ".local/share/linuxdo-accelerator"@);
    assert(config.last() == 'r');
    assert(data.last() == 'r');
    let runtime = data + seq!['/'] + "runtime"@;
    assert(runtime.last() == 'e');
    law_names_in_directories(os, config, "linuxdo-accelerator.toml"@);
    law_names_in_directories(os, data, "runtime"@);
    law_names_in_directories(os, data, "certs"@);
    law_names_in_directories(os, runtime, "state.json"@);
    law_names_in_directories(os, runtime, "service.pid"@);
    law_names_in_directories(os, runtime, "runtime.log"@);
}

/// On Windows the configuration is kept with what Windows shares between
/// machines, and the data with what it keeps on this one.
pub proof fn law_files_of_the_user_on_windows(dirs: UserDirs)
    requires
        dirs.app_data@.len() > 2,
        dirs.app_data@[0] != '\\',
        dirs.app_data@[0] != '/',
        dirs.app_data@.last() != '\\',
        dirs.app_data@.last() != '/',
        dirs.local_app_data@.len() > 2,
        dirs.local_app_data@[0] != '\\',
        dirs.local_app_data@[0] != '/',
        dirs.local_app_data@.last() != '\\',
        dirs.local_app_data@.last() != '/',
    ensures
        ({
            let paths = resolved_paths(Os::Windows, None, dirs);
            let config = dirs.app_data@ + seq!['\\'] + "linuxdo\\linuxdo-accelerator\\config"@;
            let data = dirs.local_app_data@ + seq!['\\'] + "linuxdo\\linuxdo-accelerator\\data"@;
            &&& paths.config_path == config + seq!['\\'] + "linuxdo-accelerator.toml"@
            &&& paths.runtime_dir == data + seq!['\\'] + "runtime"@
            &&& paths.cert_dir == data + seq!['\\'] + "certs"@
            &&& paths.state_path == data + seq!['\\'] + "runtime"@ + seq!['\\'] + "state.json"@
            &&& paths.pid_path == data + seq!['\\'] + "runtime"@ + seq!['\\'] + "service.pid"@
            &&& paths.runtime_log_path == data + seq!['\\'] + "runtime"@ + seq!['\\']
                + "runtime.log"@
        }),
{
    reveal_strlit("runtime");
    reveal_strlit("linuxdo\\linuxdo-accelerator\\config");
    reveal_strlit("linuxdo\\linuxdo-accelerator\\data");
    let config = config_home(Os::Windows, dirs);
    let data = data_home(Os::Windows, dirs);
    law_names_in_directories_on_windows(
        dirs.app_data@,
        "linuxdo\\linuxdo-accelerator\\config"@,
    );
    law_names_in_directories_on_windows(
        dirs.local_app_data@,
        "linuxdo\\linuxdo-accelerator\\data"@,
    );
    assert(config.last() == 'g' && config[0] == dirs.app_data@[0]);
    assert(data.last() == 'a' && data[0] == dirs.local_app_data@[0]);
    let runtime = data + seq!['\\'] + "runtime"@;
    assert(runtime.last() == 'e' && runtime[0] == data[0]);
    law_names_in_directories_on_windows(config, "linuxdo-accelerator.toml"@);
    law_names_in_directories_on_windows(data, "runtime"@);
    law_names_in_directories_on_windows(data, "certs"@);
    law_names_in_directories_on_windows(runtime, "state.json"@);
    law_names_in_directories_on_windows(runtime, "service.pid"@);
    law_names_in_directories_on_windows(runtime, "runtime.log"@);
}

/// What is said of the places of the files is what they are.
pub proof fn law_paths_as_they_are(paths: AppPaths)
    ensures
        paths@.config_path == paths.config_path@,
        paths@.runtime_dir == paths.runtime_dir@,
        paths@.cert_dir == paths.cert_dir@,
        paths@.state_path == paths.state_path@,
        paths@.pid_path == paths.pid_path@,
        paths@.runtime_log_path == paths.runtime_log_path@,
{
}

/// Repeated separators, and a dot between them, say nothing: the directory of
/// a file behind them is the same.
pub proof fn law_repeated_separators(os: Os, dir: Seq<char>, name: Seq<char>)
    requires
        os != Os::Windows,
        is_file_name(name),
        dir.len() > 0,
        dir.last() != '/',
        dir.last() != '.',
    ensures
        parent(os, dir + seq!['/', '/'] + name) == dir,
        parent(os, dir + seq!['/', '.', '/'] + name) == dir,
{
    lemma_parent_behind(os, dir, seq!['/', '/'], name);
    lemma_parent_behind(os, dir, seq!['/', '.', '/'], name);
}

proof fn lemma_parent_behind(os: Os, dir: Seq<char>, gap: Seq<char>, name: Seq<char>)
    requires
        os != Os::Windows,
        is_file_name(name),
        dir.len() > 0,
        dir.last() != '/',
        dir.last() != '.',
        gap == seq!['/', '/'] || gap == seq!['/', '.', '/'],
    ensures
        parent(os, dir + gap + name) == dir,
{
    let n = name.len() as int;
    let d = dir.len() as int;
    let g = gap.len() as int;
    let path = dir + gap + name;
    let start = names_from(os, path);
    assert(0 <= start <= 1);
    assert(path[d - 1] == dir.last());
    assert(path[d] == '/');
    assert(path[d + 1] == gap[1]);
    assert(path[d + g - 1] == '/');
    if start == 1 {
        assert(path[0] == '/');
        assert(d > 1);
    }
    assert(path[d + g + n - 1] == name.last());
    assert forall|i: int| d + g <= i < d + g + n implies !is_separator(
        os,
        false,
        #[trigger] path[i],
    ) by {
        assert(path[i] == name[i - d - g]);
    }
    assert(last_name_end(os, path, d + g + n) == d + g + n);
    lemma_name_start(os, path, d + g, d + g + n);
    assert(last_name_end(os, path, d) == d);
    assert(last_name_end(os, path, d + 1) == d);
    assert(last_name_end(os, path, d + 2) == d);
    if g == 3 {
        assert(last_name_end(os, path, d + 3) == d);
    }
    assert(path.take(d) =~= dir);
}

proof fn lemma_name_end(os: Os, path: Seq<char>, from: int, to: int)
    requires
        0 <= from <= to <= path.len(),
        forall|i: int|
            from <= i < to ==> !is_separator(os, is_verbatim(os, path), #[trigger] path[i]),
        to < path.len() ==> is_separator(os, is_verbatim(os, path), path[to]),
    ensures
        name_end(os, path, from) == to,
    decreases to - from,
{
    if from < to {
        assert(!is_separator(os, is_verbatim(os, path), path[from]));
        lemma_name_end(os, path, from + 1, to);
    }
}

/// On Windows the directory of a file in a directory of a share is that
/// directory, and that of a file in the share itself is the share with its
/// root.
pub proof fn law_directory_of_a_file_on_a_share(
    machine: Seq<char>,
    share: Seq<char>,
    dir: Seq<char>,
    name: Seq<char>,
)
    requires
        is_file_name(machine),
        machine[0] != '?',
        machine[0] != '.',
        is_file_name(share),
        is_file_name(name),
        dir.len() > 0 ==> dir.last() != '\\' && dir.last() != '/' && dir.last() != '.',
    ensures
        ({
            let root = seq!['\\', '\\'] + machine + seq!['\\'] + share + seq!['\\'];
            &&& dir.len() > 0 ==> parent(Os::Windows, root + dir + seq!['\\'] + name) == root + dir
            &&& parent(Os::Windows, root + name) == root
        }),
{
    let root = seq!['\\', '\\'] + machine + seq!['\\'] + share + seq!['\\'];
    if dir.len() > 0 {
        let rest = dir + seq!['\\'] + name;
        let path = root + rest;
        assert(path =~= root + dir + seq!['\\'] + name);
        lemma_share_prefix(machine, share, rest);
        let r = root.len() as int;
        let d = r + dir.len() as int;
        let n = name.len() as int;
        assert(path[d - 1] == dir.last());
        assert(path[d] == '\\');
        assert(path[d + n] == name.last());
        assert forall|i: int| d + 1 <= i < d + 1 + n implies !is_separator(
            Os::Windows,
            false,
            #[trigger] path[i],
        ) by {
            assert(path[i] == name[i - d - 1]);
        }
        assert(last_name_end(Os::Windows, path, d + 1 + n) == d + 1 + n);
        lemma_name_start(Os::Windows, path, d + 1, d + 1 + n);
        assert(last_name_end(Os::Windows, path, d) == d);
        assert(last_name_end(Os::Windows, path, d + 1) == d);
        assert(path.take(d) =~= root + dir);
    }
    let path = root + name;
    lemma_share_prefix(machine, share, name);
    let r = root.len() as int;
    let n = name.len() as int;
    assert(path[r + n - 1] == name.last());
    assert forall|i: int| r <= i < r + n implies !is_separator(
        Os::Windows,
        false,
        #[trigger] path[i],
    ) by {
        assert(path[i] == name[i - r]);
    }
    assert(last_name_end(Os::Windows, path, r + n) == r + n);
    lemma_name_start(Os::Windows, path, r, r + n);
    assert(path.take(r) =~= root);
}

proof fn lemma_share_prefix(machine: Seq<char>, share: Seq<char>, rest: Seq<char>)
    requires
        is_file_name(machine),
        machine[0] != '?',
        machine[0] != '.',
        is_file_name(share),
    ensures
        ({
            let root = seq!['\\', '\\'] + machine + seq!['\\'] + share + seq!['\\'];
            &&& !is_verbatim(Os::Windows, root + rest)
            &&& names_from(Os::Windows, root + rest) == root.len()
            &&& has_root(Os::Windows, root + rest)
        }),
{
    let os = Os::Windows;
    let root = seq!['\\', '\\'] + machine + seq!['\\'] + share + seq!['\\'];
    let path = root + rest;
    let m = machine.len() as int;
    let s = share.len() as int;
    assert(path[0] == '\\' && path[1] == '\\' && path[2] == machine[0]);
    assert(!is_verbatim(os, path));
    assert(path[2 + m] == '\\');
    assert(path[3 + m + s] == '\\');
    assert forall|i: int| 2 <= i < 2 + m implies !is_separator(os, false, #[trigger] path[i]) by {
        assert(path[i] == machine[i - 2]);
    }
    assert forall|i: int| 3 + m <= i < 3 + m + s implies !is_separator(
        os,
        false,
        #[trigger] path[i],
    ) by {
        assert(path[i] == share[i - 3 - m]);
    }
    lemma_name_end(os, path, 2, 2 + m);
    lemma_name_end(os, path, 3 + m, 3 + m + s);
    assert(share_end(os, path, 2) == 3 + m + s);
    assert(prefix_len(os, path) == 3 + m + s);
}

/// On Windows the directory of a file in a directory of a drive is that
/// directory too where the path is one that is taken word for word.
pub proof fn law_directory_of_a_file_word_for_word(drive: char, dir: Seq<char>, name: Seq<char>)
    requires
        'a' <= drive <= 'z' || 'A' <= drive <= 'Z',
        is_file_name(name),
        dir.len() > 0,
        dir.last() != '\\',
    ensures
        ({
            let root = seq!['\\', '\\', '?', '\\', drive, ':', '\\'];
            parent(Os::Windows, root + dir + seq!['\\'] + name) == root + dir
        }),
{
    let os = Os::Windows;
    let root = seq!['\\', '\\', '?', '\\', drive, ':', '\\'];
    let path = root + dir + seq!['\\'] + name;
    let d = 7 + dir.len() as int;
    let n = name.len() as int;
    assert(path[0] == '\\' && path[1] == '\\' && path[2] == '?' && path[3] == '\\');
    assert(path[4] == drive && path[5] == ':' && path[6] == '\\');
    assert(is_verbatim(os, path));
    assert(is_verbatim_drive(os, path));
    assert(!is_verbatim_share(os, path));
    assert(names_from(os, path) == 7);
    assert(path[d - 1] == dir.last());
    assert(path[d] == '\\');
    assert(path[d + n] == name.last());
    assert forall|i: int| d + 1 <= i < d + 1 + n implies !is_separator(
        os,
        true,
        #[trigger] path[i],
    ) by {
        assert(path[i] == name[i - d - 1]);
    }
    assert(last_name_end(os, path, d + 1 + n) == d + 1 + n);
    lemma_name_start(os, path, d + 1, d + 1 + n);
    assert(last_name_end(os, path, d) == d);
    assert(last_name_end(os, path, d + 1) == d);
    assert(path.take(d) =~= root + dir);
}

} // verus!

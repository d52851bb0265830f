//! The hosts file: the block of lines that the accelerator manages in it.
use crate::config::{managed_domains, AppConfig, ConfigModel};
use crate::lines::{join, joined, line_end, lines, split_lines};
use crate::paths::{in_dir, join_path};
use crate::platform::Os;
use crate::space::{trim, trimmed};
use crate::text::{contains, ends_with, occurs, occurs_at, same_text, starts_with, texts};
use vstd::prelude::*;

verus! {

/// The line that opens the managed block.
pub const START_MARKER: &'static str = "# >>> linuxdo-accelerator >>>";

/// The line that closes the managed block.
pub const END_MARKER: &'static str = "# <<< linuxdo-accelerator <<<";

/// Whether a text ends any of its lines with a carriage return and a line
/// feed.
pub open spec fn has_crlf(content: Seq<char>) -> bool {
    occurs(content, "\r\n"@)
}

/// The line end that a text is written with.
pub open spec fn newline_of(content: Seq<char>) -> Seq<char> {
    line_end(has_crlf(content))
}

proof fn lemma_newline_literals()
    ensures
        "\r\n"@ == line_end(true),
        "\n"@ == line_end(false),
{
    reveal_strlit("\r\n");
    reveal_strlit("\n");
    assert("\r\n"@ =~= line_end(true));
    assert("\n"@ =~= line_end(false));
}

/// The line end that `content` is written with.
pub fn detect_newline(content: &str) -> (r: &'static str)
    ensures
        r@ == newline_of(content@),
{
    proof {
        lemma_newline_literals();
    }
    if contains(content, "\r\n") {
        "\r\n"
    } else {
        "\n"
    }
}

/// The lines outside the managed blocks, where the first line stands inside
/// one if `skipping` holds.
pub open spec fn unmanaged(ls: Seq<Seq<char>>, skipping: bool) -> Seq<Seq<char>>
    decreases ls.len(),
{
    if ls.len() == 0 {
        Seq::empty()
    } else if trimmed(ls[0]) == START_MARKER@ {
        unmanaged(ls.skip(1), true)
    } else if trimmed(ls[0]) == END_MARKER@ {
        unmanaged(ls.skip(1), false)
    } else if skipping {
        unmanaged(ls.skip(1), true)
    } else {
        seq![ls[0]] + unmanaged(ls.skip(1), false)
    }
}

/// The text with its managed blocks taken out.
pub open spec fn stripped(content: Seq<char>) -> Seq<char> {
    joined(unmanaged(lines(content), false), newline_of(content))
}

/// The text with its managed blocks taken out.
pub fn strip_managed_block(content: &str) -> (r: String)
    ensures
        r@ == stripped(content@),
{
    let all = split_lines(content);
    let mut output: Vec<String> = Vec::new();
    let mut skipping = false;
    let ghost ls = lines(content@);
    assert(ls.skip(0) =~= ls);
    assert(texts(output@) + unmanaged(ls, false) =~= unmanaged(ls, false));
    for i in 0..all.len()
        invariant
            ls == lines(content@),
            ls == texts(all@),
            texts(output@) + unmanaged(ls.skip(i as int), skipping) == unmanaged(ls, false),
    {
        let ghost rest = ls.skip(i as int);
        let ghost before = texts(output@);
        assert(rest[0] == all@[i as int]@);
        assert(rest.skip(1) =~= ls.skip(i + 1));
        let line = trim(all[i].as_str());
        if same_text(line.as_str(), START_MARKER) {
            skipping = true;
        } else if same_text(line.as_str(), END_MARKER) {
            skipping = false;
        } else if !skipping {
            output.push(all[i].clone());
            assert(texts(output@) =~= before.push(rest[0]));
            assert(texts(output@) + unmanaged(ls.skip(i + 1), false) =~= before + (seq![rest[0]]
                + unmanaged(ls.skip(i + 1), false)));
        }
    }
    assert(texts(output@) =~= texts(output@) + unmanaged(ls.skip(all@.len() as int), skipping));
    join(&output, detect_newline(content))
}

/// The lines that map hosts to an address, each ended with `newline`;
/// wildcards cannot stand in a hosts file and are left out.
pub open spec fn host_lines(ip: Seq<char>, hosts: Seq<Seq<char>>, newline: Seq<char>) -> Seq<char>
    decreases hosts.len(),
{
    if hosts.len() == 0 {
        Seq::empty()
    } else {
        let front = host_lines(ip, hosts.drop_last(), newline);
        if "*."@.is_prefix_of(hosts.last()) {
            front
        } else {
            front + (ip + " "@ + hosts.last()) + newline
        }
    }
}

/// The managed block.
pub open spec fn managed_block(ip: Seq<char>, hosts: Seq<Seq<char>>, newline: Seq<char>) -> Seq<
    char,
> {
    START_MARKER@ + newline + host_lines(ip, hosts, newline) + END_MARKER@ + newline
}

/// A text with a line end after it, where it is not empty and has none.
pub open spec fn ended(content: Seq<char>, newline: Seq<char>) -> Seq<char> {
    if content.len() > 0 && !newline.is_suffix_of(content) {
        content + newline
    } else {
        content
    }
}

/// The hosts file with the managed block of a configuration at its end, and
/// no other.
pub open spec fn rendered(original: Seq<char>, config: ConfigModel) -> Seq<char> {
    let newline = newline_of(original);
    ended(stripped(original), newline) + managed_block(
        config.hosts_ip,
        managed_domains(config),
        newline,
    )
}

/// The hosts file with the managed block of `config` at its end.
pub fn render_managed_hosts(original: &str, config: &AppConfig) -> (r: String)
    ensures
        r@ == rendered(original@, config@),
{
    let newline = detect_newline(original);
    let mut content = strip_managed_block(original);
    if !content.as_str().is_empty() && !ends_with(content.as_str(), newline) {
        content.append(newline);
    }
    let ghost head = ended(stripped(original@), newline@);
    assert(content@ == head);
    content.append(START_MARKER);
    content.append(newline);
    let hosts = config.hosts_domains();
    let ghost names = managed_domains(config@);
    let ghost lead = head + START_MARKER@ + newline@;
    assert(names.take(0) =~= Seq::<Seq<char>>::empty());
    assert(content@ =~= lead + host_lines(config@.hosts_ip, names.take(0), newline@));
    for i in 0..hosts.len()
        invariant
            names == texts(hosts@),
            content@ == lead + host_lines(config@.hosts_ip, names.take(i as int), newline@),
    {
        proof {
            assert(names.take(i + 1).drop_last() =~= names.take(i as int));
            assert(names.take(i + 1).last() == hosts@[i as int]@);
        }
        let ghost before = content@;
        if !starts_with(hosts[i].as_str(), "*.") {
            content.append(config.hosts_ip.as_str());
            content.append(" ");
            content.append(hosts[i].as_str());
            content.append(newline);
            assert(content@ =~= before + (config@.hosts_ip + " "@ + hosts@[i as int]@) + newline@);
            assert(content@ =~= lead + host_lines(config@.hosts_ip, names.take(i + 1), newline@));
        }
    }
    assert(names.take(names.len() as int) =~= names);
    content.append(END_MARKER);
    content.append(newline);
    assert(content@ =~= rendered(original@, config@));
    content
}

/// Where the hosts file stands.
pub open spec fn hosts_location(os: Os) -> Seq<char> {
    match os {
        Os::Windows => "C:\\Windows\\System32\\drivers\\etc\\hosts"@,
        Os::Android => "/system/etc/hosts"@,
        _ => "/etc/hosts"@,
    }
}

/// Where the hosts file stands.
pub fn hosts_path(os: Os) -> (r: &'static str)
    ensures
        r@ == hosts_location(os),
{
    match os {
        Os::Windows => "C:\\Windows\\System32\\drivers\\etc\\hosts",
        Os::Android => "/system/etc/hosts",
        _ => "/etc/hosts",
    }
}

// ---------------------------------------------------------------------------
// Changing the file
// ---------------------------------------------------------------------------

/// The file that stands for the hosts file on Android.
pub const ANDROID_MARKER_NAME: &'static str = "android-dns-hosts.txt";

/// What that file says.
pub const ANDROID_MARKER_TEXT: &'static str =
    "android uses internal dns_hosts overrides; system hosts is not touched\n";

/// A change of a file.
#[derive(Debug)]
pub enum FileChange {
    /// Write this text into the file.
    Write(String, String),
    /// Remove the file, if it is there.
    Remove(String),
}

/// A change of a file, as sequences.
#[verifier::ext_equal]
pub enum FileChangeModel {
    Write(Seq<char>, Seq<char>),
    Remove(Seq<char>),
}

impl View for FileChange {
    type V = FileChangeModel;

    open spec fn view(&self) -> FileChangeModel {
        match *self {
            FileChange::Write(path, content) => FileChangeModel::Write(path@, content@),
            FileChange::Remove(path) => FileChangeModel::Remove(path@),
        }
    }
}

impl Clone for FileChange {
    fn clone(&self) -> (r: Self)
        ensures
            r@ == self@,
    {
        match self {
            FileChange::Write(path, content) => FileChange::Write(path.clone(), content.clone()),
            FileChange::Remove(path) => FileChange::Remove(path.clone()),
        }
    }
}

/// What applying a configuration changes, where the hosts file holds
/// `original`. On Android that file is not touched and a marker is left.
pub fn apply_hosts(os: Os, original: &str, config: &AppConfig, runtime_dir: &str) -> (r: FileChange)
    ensures
        r@ == if os == Os::Android {
            FileChangeModel::Write(
                in_dir(os, runtime_dir@, "android-dns-hosts.txt"@),
                "android uses internal dns_hosts overrides; system hosts is not touched\n"@,
            )
        } else {
            FileChangeModel::Write(hosts_location(os), rendered(original@, config@))
        },
{
    if os == Os::Android {
        FileChange::Write(
            join_path(os, runtime_dir, ANDROID_MARKER_NAME),
            ANDROID_MARKER_TEXT.to_string(),
        )
    } else {
        FileChange::Write(hosts_path(os).to_string(), render_managed_hosts(original, config))
    }
}

/// What taking the managed block out changes, where the hosts file holds
/// `original`. On Android the marker is removed.
pub fn remove_hosts(os: Os, original: &str, runtime_dir: &str) -> (r: FileChange)
    ensures
        r@ == if os == Os::Android {
            FileChangeModel::Remove(in_dir(os, runtime_dir@, "android-dns-hosts.txt"@))
        } else {
            FileChangeModel::Write(hosts_location(os), stripped(original@))
        },
{
    if os == Os::Android {
        FileChange::Remove(join_path(os, runtime_dir, ANDROID_MARKER_NAME))
    } else {
        FileChange::Write(hosts_path(os).to_string(), strip_managed_block(original))
    }
}

/// The hosts file stands where the system looks for it.
pub proof fn law_place_of_the_hosts_file(os: Os)
    ensures
        os == Os::Windows ==> hosts_location(os) == "C:\\Windows\\System32\\drivers\\etc\\hosts"@,
        os != Os::Windows && os != Os::Android ==> hosts_location(os) == "/etc/hosts"@,
        os == Os::Android ==> hosts_location(os) == "/system/etc/hosts"@,
{
}

/// A text is written with a carriage return and a line feed where it holds the
/// two together anywhere, and else with a line feed.
pub proof fn law_line_ends_of_a_text(content: Seq<char>)
    ensures
        (exists|i: int|
            0 <= i < content.len() - 1 && #[trigger] content[i] == '\r' && content[i + 1] == '\n')
            ==> newline_of(content) == seq!['\r', '\n'],
        (forall|i: int|
            0 <= i < content.len() - 1 ==> !(#[trigger] content[i] == '\r' && content[i + 1]
                == '\n')) ==> newline_of(content) == seq!['\n'],
{
    lemma_newline_literals();
    if exists|i: int|
        0 <= i < content.len() - 1 && #[trigger] content[i] == '\r' && content[i + 1] == '\n' {
        let i = choose|i: int|
            0 <= i < content.len() - 1 && #[trigger] content[i] == '\r' && content[i + 1] == '\n';
        assert(content.subrange(i, i + 2) =~= line_end(true));
        assert(occurs_at(content, "\r\n"@, i));
    } else if has_crlf(content) {
        let i = choose|i: int| occurs_at(content, "\r\n"@, i);
        assert(content.subrange(i, i + 2)[0] == content[i]);
        assert(content.subrange(i, i + 2)[1] == content[i + 1]);
    }
}

/// What is said of a change is what it does.
pub proof fn law_changes_as_they_are(path: String, content: String)
    ensures
        FileChange::Write(path, content)@ == FileChangeModel::Write(path@, content@),
        FileChange::Remove(path)@ == FileChangeModel::Remove(path@),
{
}

} // verus!

//! What is asked of the operating system, and what its answers mean.
use crate::config::{AppConfig, ConfigModel};
use crate::lines::{join, joined, lines, split_lines};
use crate::number::{
    decimal, lemma_decimal_round_trip, parse_unsigned, parsed, to_decimal,
};
use crate::quoting::{
    applescript_escape, applescript_escaped, applescript_read, law_applescript_escaping,
    law_powershell_quoting, law_shell_quoting, powershell_quoted, powershell_read,
    powershell_single_quote, shell_join, shell_line, shell_read, ShellMode,
};
use crate::space::{trim, trimmed};
use crate::text::{followed_by, contains, occurs, opt_text, same_text, texts};
use vstd::prelude::*;

verus! {

/// The systems that the accelerator runs on.
#[derive(Debug, Clone, Copy, PartialEq, Eq, Structural)]
pub enum Os {
    Linux,
    MacOs,
    Windows,
    Android,
    Other,
}

// ---------------------------------------------------------------------------
// Commands
// ---------------------------------------------------------------------------

/// A program and its arguments.
#[derive(Debug)]
pub struct CommandLine {
    pub program: String,
    pub args: Vec<String>,
}

/// A program and its arguments, as sequences.
#[verifier::ext_equal]
pub struct CommandModel {
    pub program: Seq<char>,
    pub args: Seq<Seq<char>>,
}

impl View for CommandLine {
    type V = CommandModel;

    open spec fn view(&self) -> CommandModel {
        CommandModel { program: self.program@, args: texts(self.args@) }
    }
}

/// What a program that was run left behind.
#[derive(Debug)]
pub struct CommandOutput {
    pub success: bool,
    pub stdout: String,
    pub stderr: String,
}

/// The program with the arguments.
pub open spec fn command_of(program: Seq<char>, args: Seq<Seq<char>>) -> CommandModel {
    CommandModel { program, args }
}

/// The program with the arguments.
pub fn command(program: &str, args: Vec<String>) -> (r: CommandLine)
    ensures
        r@ == command_of(program@, texts(args@)),
{
    CommandLine { program: program.to_string(), args }
}

/// What a command that could be run amounts to: an error where it did not
/// succeed, with what it wrote about it.
pub fn check_command(program: &str, output: &CommandOutput) -> (r: Result<(), String>)
    ensures
        match r {
            Ok(_) => output.success,
            Err(e) => !output.success && e@ == program@ + " failed: "@ + trimmed(output.stderr@),
        },
{
    if output.success {
        return Ok(());
    }
    let mut message = followed_by(program, " failed: ");
    message.append(trim(output.stderr.as_str()).as_str());
    Err(message)
}

// ---------------------------------------------------------------------------
// Rights
// ---------------------------------------------------------------------------

/// The error where more rights are needed.
pub const NOT_ELEVATED: &'static str = "this command requires administrator/root privileges";

/// Whether what is to be done needs the rights of an administrator: setting
/// up does, and so do ports below 1024.
pub open spec fn privileged(config: ConfigModel, for_setup: bool) -> bool {
    for_setup || config.http_port < 1024 || config.https_port < 1024
}

/// Whether what is to be done needs the rights of an administrator.
pub fn needs_privilege(config: &AppConfig, for_setup: bool) -> (r: bool)
    ensures
        r == privileged(config@, for_setup),
{
    for_setup || config.http_port < 1024 || config.https_port < 1024
}

/// Refuses what needs the rights of an administrator where they are missing.
pub fn ensure_elevated(config: &AppConfig, for_setup: bool, elevated: bool) -> (r: Result<
    (),
    String,
>)
    ensures
        match r {
            Ok(_) => elevated || !privileged(config@, for_setup),
            Err(e) => !elevated && privileged(config@, for_setup) && e@
                == "this command requires administrator/root privileges"@,
        },
{
    if needs_privilege(config, for_setup) && !elevated {
        return Err(NOT_ELEVATED.to_string());
    }
    Ok(())
}

/// The command that finds out about the rights of this process.
pub fn elevation_probe(os: Os) -> (r: CommandLine)
    ensures
        r@ == if os == Os::Windows {
            command_of("fltmc"@, Seq::empty())
        } else {
            command_of("id"@, seq!["-u"@])
        },
{
    if os == Os::Windows {
        let r = command("fltmc", Vec::new());
        assert(r@ =~= command_of("fltmc"@, Seq::empty()));
        r
    } else {
        let r = command("id", vec!["-u".to_string()]);
        assert(r@ =~= command_of("id"@, seq!["-u"@]));
        r
    }
}

/// Whether the probe says that this process has the rights of an
/// administrator. `None` is a probe that could not be run.
pub fn is_elevated(os: Os, probe: &Option<CommandOutput>) -> (r: bool)
    ensures
        r == match *probe {
            Some(output) => if os == Os::Windows {
                output.success
            } else {
                trimmed(output.stdout@) == "0"@
            },
            None => false,
        },
{
    match probe {
        Some(output) => if os == Os::Windows {
            output.success
        } else {
            same_text(trim(output.stdout.as_str()).as_str(), "0")
        },
        None => false,
    }
}

/// The script that starts a program with more rights on Windows.
pub open spec fn windows_elevation_script(executable: Seq<char>, args: Seq<Seq<char>>) -> Seq<
    char,
> {
    "Start-Process -FilePath '"@ + powershell_quoted(executable) + "' -ArgumentList "@
        + powershell_list(args) + " -Verb RunAs -Wait"@
}

/// The arguments as a list of PowerShell.
pub open spec fn powershell_list(args: Seq<Seq<char>>) -> Seq<char> {
    if args.len() == 0 {
        "@()"@
    } else {
        "@("@ + joined(
            args.map_values(|arg: Seq<char>| "'"@ + powershell_quoted(arg) + "'"@),
            ","@,
        ) + ")"@
    }
}

fn powershell_args(args: &Vec<String>) -> (r: String)
    ensures
        r@ == powershell_list(texts(args@)),
{
    if args.is_empty() {
        return "@()".to_string();
    }
    let ghost quoted = texts(args@).map_values(
        |arg: Seq<char>| "'"@ + powershell_quoted(arg) + "'"@,
    );
    let mut parts: Vec<String> = Vec::new();
    assert(texts(parts@) =~= quoted.take(0));
    for i in 0..args.len()
        invariant
            quoted == texts(args@).map_values(
                |arg: Seq<char>| "'"@ + powershell_quoted(arg) + "'"@,
            ),
            texts(parts@) == quoted.take(i as int),
    {
        let mut part = followed_by("'", powershell_single_quote(args[i].as_str()).as_str());
        part.append("'");
        let ghost before = texts(parts@);
        let ghost text = part@;
        parts.push(part);
        assert(texts(parts@) =~= before.push(text));
        assert(texts(parts@) =~= quoted.take(i + 1));
    }
    assert(quoted.take(quoted.len() as int) =~= quoted);
    let mut list = followed_by("@(", join(&parts, ",").as_str());
    list.append(")");
    list
}

/// The script that starts a program with more rights on macOS.
pub open spec fn macos_elevation_script(executable: Seq<char>, args: Seq<Seq<char>>) -> Seq<char> {
    "do shell script \""@ + applescript_escaped(shell_line(seq![executable] + args))
        + "\" with administrator privileges"@
}

/// The command that starts a program with more rights.
pub open spec fn elevation(os: Os, executable: Seq<char>, args: Seq<Seq<char>>) -> CommandModel {
    if os == Os::Windows {
        command_of(
            "powershell"@,
            seq!["-NoProfile"@, "-Command"@, windows_elevation_script(executable, args)],
        )
    } else if os == Os::MacOs {
        command_of("osascript"@, seq!["-e"@, macos_elevation_script(executable, args)])
    } else {
        command_of("pkexec"@, seq![executable] + args)
    }
}

fn prefixed(first: &str, rest: &Vec<String>) -> (r: Vec<String>)
    ensures
        texts(r@) == seq![first@] + texts(rest@),
{
    let mut all: Vec<String> = Vec::new();
    all.push(first.to_string());
    assert(texts(all@) =~= seq![first@] + texts(rest@.take(0)));
    for i in 0..rest.len()
        invariant
            texts(all@) == seq![first@] + texts(rest@.take(i as int)),
    {
        let ghost before = texts(all@);
        all.push(rest[i].clone());
        assert(texts(all@) =~= before.push(rest@[i as int]@));
        assert(texts(all@) =~= seq![first@] + texts(rest@.take(i + 1)));
    }
    assert(rest@.take(rest@.len() as int) =~= rest@);
    all
}

/// The command that starts `executable` with more rights.
pub fn run_elevated(os: Os, executable: &str, args: &Vec<String>) -> (r: CommandLine)
    ensures
        r@ == elevation(os, executable@, texts(args@)),
{
    if os == Os::Windows {
        let mut script = followed_by(
            "Start-Process -FilePath '",
            powershell_single_quote(executable).as_str(),
        );
        script.append("' -ArgumentList ");
        script.append(powershell_args(args).as_str());
        script.append(" -Verb RunAs -Wait");
        let r = command(
            "powershell",
            vec!["-NoProfile".to_string(), "-Command".to_string(), script],
        );
        assert(r@ =~= elevation(os, executable@, texts(args@)));
        r
    } else if os == Os::MacOs {
        let line = shell_join(executable, args);
        let mut script = followed_by("do shell script \"", applescript_escape(line.as_str()).as_str());
        script.append("\" with administrator privileges");
        let r = command("osascript", vec!["-e".to_string(), script]);
        assert(r@ =~= elevation(os, executable@, texts(args@)));
        r
    } else {
        command("pkexec", prefixed(executable, args))
    }
}

/// The error where there is no `pkexec` to ask with.
pub const NO_PKEXEC: &'static str = "pkexec is required on Linux for GUI elevation prompts";

/// The error where `pkexec` says nothing.
pub const PKEXEC_REJECTED: &'static str = "pkexec rejected the elevation request";

/// What the run of a program through `pkexec` amounts to: an error where it
/// did not succeed, in the words of whichever output has any.
pub open spec fn pkexec_error(stdout: Seq<char>, stderr: Seq<char>) -> Seq<char> {
    if trimmed(stderr).len() > 0 {
        trimmed(stderr)
    } else if trimmed(stdout).len() > 0 {
        trimmed(stdout)
    } else {
        PKEXEC_REJECTED@
    }
}

/// Judges the run of a program through `pkexec`.
pub fn check_pkexec(output: &CommandOutput) -> (r: Result<(), String>)
    ensures
        match r {
            Ok(_) => output.success,
            Err(e) => !output.success && e@ == pkexec_error(output.stdout@, output.stderr@),
        },
{
    if output.success {
        return Ok(());
    }
    let stderr = trim(output.stderr.as_str());
    if !stderr.as_str().is_empty() {
        return Err(stderr);
    }
    let stdout = trim(output.stdout.as_str());
    if !stdout.as_str().is_empty() {
        return Err(stdout);
    }
    Err(PKEXEC_REJECTED.to_string())
}

/// An optional command, as a mathematical value.
pub open spec fn opt_command(o: Option<CommandLine>) -> Option<CommandModel> {
    match o {
        Some(c) => Some(c@),
        None => None,
    }
}

/// Whether a program is started with more rights through `pkexec`.
pub open spec fn uses_pkexec(os: Os) -> bool {
    os != Os::Windows && os != Os::MacOs
}

/// The command that finds out whether the tool that asks for more rights is
/// there, where it may be missing.
pub fn pkexec_probe(os: Os) -> (r: Option<CommandLine>)
    ensures
        opt_command(r) == if uses_pkexec(os) {
            Some(command_of("pkexec"@, seq!["--version"@]))
        } else {
            None
        },
{
    if os == Os::Windows || os == Os::MacOs {
        return None;
    }
    let r = command("pkexec", vec!["--version".to_string()]);
    assert(r@ =~= command_of("pkexec"@, seq!["--version"@]));
    Some(r)
}

/// Judges what the probe left behind; `None` is a probe that was not run.
pub fn judge_pkexec_probe(os: Os, probe: &Option<CommandOutput>) -> (r: Result<(), String>)
    ensures
        ({
            let there = !uses_pkexec(os) || (*probe matches Some(output) && output.success);
            match r {
                Ok(_) => there,
                Err(e) => !there && e@
                    == "pkexec is required on Linux for GUI elevation prompts"@,
            }
        }),
{
    if os == Os::Windows || os == Os::MacOs {
        return Ok(());
    }
    match probe {
        Some(output) => if output.success {
            Ok(())
        } else {
            Err(NO_PKEXEC.to_string())
        },
        None => Err(NO_PKEXEC.to_string()),
    }
}

/// Judges the run of a program that was started with more rights.
pub fn check_elevated_run(os: Os, output: &CommandOutput) -> (r: Result<(), String>)
    ensures
        match r {
            Ok(_) => output.success,
            Err(e) => !output.success && e@ == if os == Os::Windows {
                "powershell"@ + " failed: "@ + trimmed(output.stderr@)
            } else if os == Os::MacOs {
                "osascript"@ + " failed: "@ + trimmed(output.stderr@)
            } else {
                pkexec_error(output.stdout@, output.stderr@)
            },
        },
{
    if os == Os::Windows {
        check_command("powershell", output)
    } else if os == Os::MacOs {
        check_command("osascript", output)
    } else {
        check_pkexec(output)
    }
}

// ---------------------------------------------------------------------------
// The loopback address
// ---------------------------------------------------------------------------

/// The command that adds the address that is listened on, where the system
/// does not take all loopback addresses for its own.
pub fn ensure_loopback_alias(os: Os, config: &AppConfig) -> (r: Option<CommandLine>)
    ensures
        opt_command(r) == if os == Os::MacOs {
            Some(
                command_of("ifconfig"@, seq!["lo0"@, "alias"@, config@.listen_host, "up"@]),
            )
        } else {
            None
        },
{
    if os != Os::MacOs {
        return None;
    }
    let r = command(
        "ifconfig",
        vec![
            "lo0".to_string(),
            "alias".to_string(),
            config.listen_host.clone(),
            "up".to_string(),
        ],
    );
    assert(r@ =~= command_of(
        "ifconfig"@,
        seq!["lo0"@, "alias"@, config@.listen_host, "up"@],
    ));
    Some(r)
}

/// The command that removes that address.
pub fn remove_loopback_alias(os: Os, config: &AppConfig) -> (r: Option<CommandLine>)
    ensures
        opt_command(r) == if os == Os::MacOs {
            Some(command_of("ifconfig"@, seq!["lo0"@, "-alias"@, config@.listen_host]))
        } else {
            None
        },
{
    if os != Os::MacOs {
        return None;
    }
    let r = command(
        "ifconfig",
        vec!["lo0".to_string(), "-alias".to_string(), config.listen_host.clone()],
    );
    assert(r@ =~= command_of("ifconfig"@, seq!["lo0"@, "-alias"@, config@.listen_host]));
    Some(r)
}

// ---------------------------------------------------------------------------
// Processes
// ---------------------------------------------------------------------------

/// The command that starts a program on its own: on Linux in a session of
/// its own.
pub fn spawn_detached(os: Os, executable: &str, args: &Vec<String>) -> (r: CommandLine)
    ensures
        r@ == if os == Os::Linux {
            command_of("setsid"@, seq![executable@] + texts(args@))
        } else {
            command_of(executable@, texts(args@))
        },
{
    if os == Os::Linux {
        command("setsid", prefixed(executable, args))
    } else {
        let own = args.clone();
        assert(texts(own@) =~= texts(args@));
        command(executable, own)
    }
}

/// The command that ends a process.
pub fn terminate_process(os: Os, pid: u32) -> (r: CommandLine)
    ensures
        r@ == if os == Os::Windows {
            command_of("taskkill"@, seq!["/PID"@, decimal(pid as nat), "/T"@, "/F"@])
        } else {
            command_of("kill"@, seq!["-TERM"@, decimal(pid as nat)])
        },
{
    let number = to_decimal(pid as u64);
    if os == Os::Windows {
        let r = command(
            "taskkill",
            vec!["/PID".to_string(), number, "/T".to_string(), "/F".to_string()],
        );
        assert(r@ =~= command_of(
            "taskkill"@,
            seq!["/PID"@, decimal(pid as nat), "/T"@, "/F"@],
        ));
        r
    } else {
        let r = command("kill", vec!["-TERM".to_string(), number]);
        assert(r@ =~= command_of("kill"@, seq!["-TERM"@, decimal(pid as nat)]));
        r
    }
}

/// The command that finds out whether a process runs.
pub fn process_probe(os: Os, pid: u32) -> (r: CommandLine)
    ensures
        r@ == if os == Os::Windows {
            command_of(
                "cmd"@,
                seq!["/C"@, "tasklist /FI \"PID eq "@ + decimal(pid as nat) + "\""@],
            )
        } else {
            command_of("kill"@, seq!["-0"@, decimal(pid as nat)])
        },
{
    let number = to_decimal(pid as u64);
    if os == Os::Windows {
        let mut filter = followed_by("tasklist /FI \"PID eq ", number.as_str());
        filter.append("\"");
        let r = command("cmd", vec!["/C".to_string(), filter]);
        assert(r@ =~= command_of(
            "cmd"@,
            seq!["/C"@, "tasklist /FI \"PID eq "@ + decimal(pid as nat) + "\""@],
        ));
        r
    } else {
        let r = command("kill", vec!["-0".to_string(), number]);
        assert(r@ =~= command_of("kill"@, seq!["-0"@, decimal(pid as nat)]));
        r
    }
}

/// What the probe of a process says.
#[derive(Debug, Clone, Copy, PartialEq, Eq, Structural)]
pub enum Liveness {
    Running,
    Gone,
    /// The list of processes has to be asked.
    Unclear,
}

/// Whether a line of the text holds the other text.
pub open spec fn some_line_holds(text: Seq<char>, part: Seq<char>) -> bool {
    exists|i: int| 0 <= i < lines(text).len() && occurs(#[trigger] lines(text)[i], part)
}

/// What the probe of a process says. `None` is a probe that could not be run.
pub open spec fn probed(os: Os, pid: u32, probe: Option<CommandOutput>) -> Liveness {
    match probe {
        None => Liveness::Gone,
        Some(output) => if os == Os::Windows {
            if some_line_holds(output.stdout@, decimal(pid as nat)) {
                Liveness::Running
            } else {
                Liveness::Gone
            }
        } else if output.success || occurs(output.stderr@, "Operation not permitted"@) {
            Liveness::Running
        } else {
            Liveness::Unclear
        },
    }
}

/// Judges the probe of a process.
pub fn judge_probe(os: Os, pid: u32, probe: &Option<CommandOutput>) -> (r: Liveness)
    ensures
        r == probed(os, pid, *probe),
{
    match probe {
        None => Liveness::Gone,
        Some(output) => {
            if os == Os::Windows {
                let number = to_decimal(pid as u64);
                let all = split_lines(output.stdout.as_str());
                let ghost ls = lines(output.stdout@);
                for i in 0..all.len()
                    invariant
                        texts(all@) == ls,
                        ls == lines(output.stdout@),
                        number@ == decimal(pid as nat),
                        os == Os::Windows,
                        *probe == Some(*output),
                        forall|j: int| 0 <= j < i ==> !occurs(#[trigger] ls[j], number@),
                {
                    assert(ls[i as int] == all@[i as int]@);
                    if contains(all[i].as_str(), number.as_str()) {
                        return Liveness::Running;
                    }
                }
                Liveness::Gone
            } else if output.success || contains(
                output.stderr.as_str(),
                "Operation not permitted",
            ) {
                Liveness::Running
            } else {
                Liveness::Unclear
            }
        },
    }
}

/// The command that asks the list of processes.
pub fn process_list_probe(pid: u32) -> (r: CommandLine)
    ensures
        r@ == command_of("ps"@, seq!["-p"@, decimal(pid as nat), "-o"@, "pid="@]),
{
    let number = to_decimal(pid as u64);
    let r = command(
        "ps",
        vec!["-p".to_string(), number, "-o".to_string(), "pid=".to_string()],
    );
    assert(r@ =~= command_of("ps"@, seq!["-p"@, decimal(pid as nat), "-o"@, "pid="@]));
    r
}

/// Whether the list of processes holds the one that was asked for.
pub fn judge_process_list(list: &Option<CommandOutput>) -> (r: bool)
    ensures
        r == (*list matches Some(output) && output.success && trimmed(output.stdout@).len() > 0),
{
    match list {
        Some(output) => output.success && !trim(output.stdout.as_str()).as_str().is_empty(),
        None => false,
    }
}

/// Whether a process runs, by both probes.
pub fn is_process_running(
    os: Os,
    pid: u32,
    probe: &Option<CommandOutput>,
    list: &Option<CommandOutput>,
) -> (r: bool)
    ensures
        r == match probed(os, pid, *probe) {
            Liveness::Running => true,
            Liveness::Gone => false,
            Liveness::Unclear => *list matches Some(output) && output.success && trimmed(
                output.stdout@,
            ).len() > 0,
        },
{
    match judge_probe(os, pid, probe) {
        Liveness::Running => true,
        Liveness::Gone => false,
        Liveness::Unclear => judge_process_list(list),
    }
}

// ---------------------------------------------------------------------------
// The user behind the administrator
// ---------------------------------------------------------------------------

/// The user who asked for more rights: the one that `pkexec` names, or else
/// the one that `sudo` names.
pub open spec fn asking_user(pkexec: Option<Seq<char>>, sudo: Option<Seq<char>>) -> Option<nat> {
    match (pkexec, sudo) {
        (Some(uid), _) => parsed(uid, 10, u32::MAX as nat),
        (None, Some(uid)) => parsed(uid, 10, u32::MAX as nat),
        (None, None) => None,
    }
}

/// Finds the user who asked for more rights in what `pkexec` and `sudo` left
/// in the environment.
pub fn original_uid(pkexec: &Option<String>, sudo: &Option<String>) -> (r: Option<u32>)
    ensures
        match r {
            Some(uid) => asking_user(opt_text(*pkexec), opt_text(*sudo)) == Some(uid as nat),
            None => asking_user(opt_text(*pkexec), opt_text(*sudo)) is None,
        },
{
    let text = match pkexec {
        Some(uid) => uid.as_str(),
        None => match sudo {
            Some(uid) => uid.as_str(),
            None => {
                return None;
            },
        },
    };
    match parse_unsigned(text, 10, u32::MAX as u64) {
        Some(uid) => Some(uid as u32),
        None => None,
    }
}

/// The home of the user who asked for more rights, or else the one in the
/// environment.
pub fn original_user_home_dir(user_home: Option<String>, env_home: Option<String>) -> (r: Option<
    String,
>)
    ensures
        r == if user_home is Some {
            user_home
        } else {
            env_home
        },
{
    match user_home {
        Some(home) => Some(home),
        None => env_home,
    }
}

/// Whom a file that was written is handed over to, if to anybody: on Linux
/// what an administrator writes belongs to the user who asked.
pub fn sync_user_ownership(os: Os, elevated: bool, owner: Option<(u32, u32)>, present: bool) -> (r:
    Option<(u32, u32)>)
    ensures
        r == if os == Os::Linux && elevated && present {
            owner
        } else {
            None
        },
{
    if os != Os::Linux {
        return None;
    }
    if !elevated {
        return None;
    }
    if present {
        owner
    } else {
        None
    }
}

// ---------------------------------------------------------------------------
// Laws
// ---------------------------------------------------------------------------

/// Setting up always needs the rights of an administrator; serving needs them
/// exactly where one of the two ports is below 1024.
pub proof fn law_what_needs_rights(config: ConfigModel)
    ensures
        privileged(config, true),
        privileged(config, false) <==> config.http_port < 1024 || config.https_port < 1024,
{
}

/// A program is started with more rights through `pkexec`, with its arguments
/// as they are, on Linux.
pub proof fn law_elevation_on_linux(os: Os, executable: Seq<char>, args: Seq<Seq<char>>)
    requires
        os != Os::Windows,
        os != Os::MacOs,
    ensures
        uses_pkexec(os),
        !uses_pkexec(Os::Windows),
        !uses_pkexec(Os::MacOs),
        elevation(os, executable, args).program == "pkexec"@,
        elevation(os, executable, args).args == seq![executable] + args,
{
}

/// A program is started with more rights through `osascript` on macOS: the
/// string in the script reads as a line of the shell, and that as the program
/// and its arguments.
pub proof fn law_elevation_on_macos(executable: Seq<char>, args: Seq<Seq<char>>)
    ensures
        ({
            let c = elevation(Os::MacOs, executable, args);
            &&& c.program == "osascript"@
            &&& c.args.len() == 2
            &&& c.args[0] == "-e"@
            &&& exists|quoted: Seq<char>, line: Seq<char>|
                #![trigger applescript_read(quoted), shell_reads_as(line, seq![executable] + args)]
                {
                    &&& c.args[1] == "do shell script \""@ + quoted
                        + "\" with administrator privileges"@
                    &&& applescript_read(quoted) == Some(line)
                    &&& shell_reads_as(line, seq![executable] + args)
                }
        }),
{
    let words = seq![executable] + args;
    let line = shell_line(words);
    law_shell_quoting(words);
    law_applescript_escaping(line);
    let quoted = applescript_escaped(line);
    assert(applescript_read(quoted) == Some(line));
    assert(shell_reads_as(line, words));
}

/// Whether the shell takes a line apart into these words.
pub open spec fn shell_reads_as(line: Seq<char>, words: Seq<Seq<char>>) -> bool {
    shell_read(line, ShellMode::Between, Seq::empty(), Seq::empty()) == Some(words)
}

/// A program is started with more rights through PowerShell on Windows, and
/// waited for: the string in the script reads as the program, and those in its
/// list as the arguments, in their order.
pub proof fn law_elevation_on_windows(executable: Seq<char>, args: Seq<Seq<char>>)
    ensures
        ({
            let c = elevation(Os::Windows, executable, args);
            &&& c.program == "powershell"@
            &&& c.args.len() == 3
            &&& c.args[0] == "-NoProfile"@
            &&& c.args[1] == "-Command"@
            &&& exists|quoted: Seq<char>, items: Seq<Seq<char>>|
                #![trigger powershell_read(quoted), are_strings_of(items, args)]
                {
                    &&& c.args[2] == "Start-Process -FilePath '"@ + quoted + "' -ArgumentList "@
                        + ("@("@ + joined(items, ","@) + ")"@) + " -Verb RunAs -Wait"@
                    &&& powershell_read(quoted) == Some(executable)
                    &&& are_strings_of(items, args)
                }
        }),
{
    let quoted = powershell_quoted(executable);
    law_powershell_quoting(executable);
    let items = args.map_values(|arg: Seq<char>| "'"@ + powershell_quoted(arg) + "'"@);
    reveal_strlit("'");
    assert forall|i: int| 0 <= i < items.len() implies (#[trigger] items[i]).len() >= 2
        && items[i][0] == '\'' && items[i].last() == '\'' && powershell_read(
        items[i].subrange(1, items[i].len() - 1),
    ) == Some(args[i]) by {
        law_powershell_quoting(args[i]);
        assert(items[i].subrange(1, items[i].len() - 1) =~= powershell_quoted(args[i]));
    }
    assert(are_strings_of(items, args));
    assert(powershell_read(quoted) == Some(executable));
    if args.len() == 0 {
        reveal_strlit("@()");
        reveal_strlit("@(");
        reveal_strlit(")");
        assert(joined(items, ","@) =~= Seq::<char>::empty());
        assert("@()"@ =~= "@("@ + joined(items, ","@) + ")"@);
    }
    assert(powershell_list(args) == "@("@ + joined(items, ","@) + ")"@);
    assert(elevation(Os::Windows, executable, args).args[2] == windows_elevation_script(
        executable,
        args,
    ));
}

/// Whether items are strings of PowerShell that read as these values.
pub open spec fn are_strings_of(items: Seq<Seq<char>>, values: Seq<Seq<char>>) -> bool {
    &&& items.len() == values.len()
    &&& forall|i: int|
        0 <= i < items.len() ==> (#[trigger] items[i]).len() >= 2 && items[i][0] == '\''
            && items[i].last() == '\'' && powershell_read(
            items[i].subrange(1, items[i].len() - 1),
        ) == Some(values[i])
}

/// A request for more rights that failed is explained by what was written
/// about it, errors first, and in words of its own where nothing was.
pub proof fn law_rejected_elevation(stdout: Seq<char>, stderr: Seq<char>)
    ensures
        trimmed(stderr).len() > 0 ==> pkexec_error(stdout, stderr) == trimmed(stderr),
        trimmed(stderr).len() == 0 && trimmed(stdout).len() > 0 ==> pkexec_error(stdout, stderr)
            == trimmed(stdout),
        trimmed(stderr).len() == 0 && trimmed(stdout).len() == 0 ==> pkexec_error(stdout, stderr)
            == "pkexec rejected the elevation request"@,
{
}

/// A process runs where a signal could be sent to it, or was not permitted; on
/// Windows where a line of the list of processes holds its number. A probe
/// that could not be run finds none.
pub proof fn law_probes(os: Os, pid: u32, output: CommandOutput)
    ensures
        probed(os, pid, None) == Liveness::Gone,
        os != Os::Windows && output.success ==> probed(os, pid, Some(output)) == Liveness::Running,
        os != Os::Windows && occurs(output.stderr@, "Operation not permitted"@) ==> probed(
            os,
            pid,
            Some(output),
        ) == Liveness::Running,
        os != Os::Windows && !output.success && !occurs(
            output.stderr@,
            "Operation not permitted"@,
        ) ==> probed(os, pid, Some(output)) == Liveness::Unclear,
        os == Os::Windows ==> (probed(os, pid, Some(output)) == Liveness::Running <==> exists|
            i: int,
        |
            0 <= i < lines(output.stdout@).len() && occurs(
                #[trigger] lines(output.stdout@)[i],
                decimal(pid as nat),
            )),
        os == Os::Windows ==> probed(os, pid, Some(output)) != Liveness::Unclear,
{
}

/// The user who asked for more rights is the one that `pkexec` names, and the
/// one that `sudo` names only where `pkexec` names none.
pub proof fn law_asking_user(pkexec: nat, sudo: nat)
    requires
        pkexec <= u32::MAX,
        sudo <= u32::MAX,
    ensures
        asking_user(Some(decimal(pkexec)), None) == Some(pkexec),
        asking_user(Some(decimal(pkexec)), Some(decimal(sudo))) == Some(pkexec),
        asking_user(None, Some(decimal(sudo))) == Some(sudo),
        asking_user(None, None) is None,
{
    lemma_decimal_round_trip(pkexec, u32::MAX as nat);
    lemma_decimal_round_trip(sudo, u32::MAX as nat);
}

/// Of what `pkexec` names only a number counts, whatever `sudo` names.
pub proof fn law_asking_user_is_a_number(pkexec: Seq<char>, sudo: Option<Seq<char>>)
    ensures
        asking_user(Some(pkexec), sudo) == parsed(pkexec, 10, 0xffff_ffff),
{
}

/// A command is the program and the arguments that it was made of.
pub proof fn law_commands(program: Seq<char>, args: Seq<Seq<char>>, command: CommandLine)
    ensures
        command_of(program, args).program == program,
        command_of(program, args).args == args,
        opt_command(Some(command)) == Some(command@),
        opt_command(None) is None,
        command@.program == command.program@,
        command@.args == texts(command.args@),
{
}

} // verus!

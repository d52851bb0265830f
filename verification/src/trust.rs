//! Making the system and its browsers trust the root certificate, and undoing
//! it: the steps that this takes.
use crate::platform::{command, command_of, CommandLine, CommandModel, Os};
use crate::text::{followed_by, opt_text, texts};
use vstd::prelude::*;

verus! {

/// The file that the root certificate is kept in on Linux.
pub const LINUX_CA_FILE_NAME: &'static str = "linuxdo-accelerator-root-ca.crt";

/// The directory for certificates on Debian and its kin.
pub const DEBIAN_STORE: &'static str = "/usr/local/share/ca-certificates";

/// The directory for certificates on Fedora and its kin.
pub const FEDORA_STORE: &'static str = "/etc/pki/ca-trust/source/anchors";

/// The keychain of macOS that all users share.
pub const SYSTEM_KEYCHAIN: &'static str = "/Library/Keychains/System.keychain";

/// The error on a Linux that keeps certificates elsewhere.
pub const NO_TRUST_STORE: &'static str = "unsupported Linux trust store layout";

/// How a Linux keeps its certificates.
#[derive(Debug, Clone, Copy, PartialEq, Eq, Structural)]
pub enum TrustStore {
    Debian,
    Fedora,
}

/// How this Linux keeps its certificates, given which directories are there.
pub fn linux_trust_store(debian: bool, fedora: bool) -> (r: Option<TrustStore>)
    ensures
        r == if debian {
            Some(TrustStore::Debian)
        } else if fedora {
            Some(TrustStore::Fedora)
        } else {
            None
        },
{
    if debian {
        Some(TrustStore::Debian)
    } else if fedora {
        Some(TrustStore::Fedora)
    } else {
        None
    }
}

impl TrustStore {
    /// The directory of the store.
    pub open spec fn dir(self) -> Seq<char> {
        match self {
            TrustStore::Debian => DEBIAN_STORE@,
            TrustStore::Fedora => FEDORA_STORE@,
        }
    }

    /// The file of the root certificate in the store.
    pub open spec fn file(self) -> Seq<char> {
        self.dir() + "/"@ + LINUX_CA_FILE_NAME@
    }

    /// The command that makes a change of the store count.
    pub open spec fn update(self) -> CommandModel {
        match self {
            TrustStore::Debian => command_of("update-ca-certificates"@, Seq::empty()),
            TrustStore::Fedora => command_of("update-ca-trust"@, seq!["extract"@]),
        }
    }

    fn store_dir(self) -> (r: &'static str)
        ensures
            r@ == self.dir(),
    {
        match self {
            TrustStore::Debian => DEBIAN_STORE,
            TrustStore::Fedora => FEDORA_STORE,
        }
    }

    /// The file of the root certificate in the store.
    pub fn path(self) -> (r: String)
        ensures
            r@ == self.file(),
    {
        let mut path = followed_by(self.store_dir(), "/");
        path.append(LINUX_CA_FILE_NAME);
        path
    }

    fn update_command(self) -> (r: CommandLine)
        ensures
            r@ == self.update(),
    {
        match self {
            TrustStore::Debian => {
                let r = command("update-ca-certificates", Vec::new());
                assert(r@ =~= self.update());
                r
            },
            TrustStore::Fedora => {
                let r = command("update-ca-trust", vec!["extract".to_string()]);
                assert(r@ =~= self.update());
                r
            },
        }
    }
}

// ---------------------------------------------------------------------------
// Steps
// ---------------------------------------------------------------------------

/// One step.
#[derive(Debug)]
pub enum TrustStep {
    /// Run a command; a failure ends the plan.
    Run(CommandLine),
    /// Run a command, whether it succeeds or not.
    Attempt(CommandLine),
    /// Make a directory, with those above it, unless it is there.
    CreateDir(String),
    /// Copy a file.
    Copy(String, String),
    /// Remove a file, if it is there.
    Remove(String),
    /// Hand a directory over to the user who asked.
    HandOver(String),
    /// The plan cannot go on, for this reason.
    Fail(String),
}

/// One step, with texts as sequences.
#[verifier::ext_equal]
pub enum TrustStepModel {
    Run(CommandModel),
    Attempt(CommandModel),
    CreateDir(Seq<char>),
    Copy(Seq<char>, Seq<char>),
    Remove(Seq<char>),
    HandOver(Seq<char>),
    Fail(Seq<char>),
}

impl View for TrustStep {
    type V = TrustStepModel;

    open spec fn view(&self) -> TrustStepModel {
        match *self {
            TrustStep::Run(c) => TrustStepModel::Run(c@),
            TrustStep::Attempt(c) => TrustStepModel::Attempt(c@),
            TrustStep::CreateDir(d) => TrustStepModel::CreateDir(d@),
            TrustStep::Copy(from, to) => TrustStepModel::Copy(from@, to@),
            TrustStep::Remove(f) => TrustStepModel::Remove(f@),
            TrustStep::HandOver(d) => TrustStepModel::HandOver(d@),
            TrustStep::Fail(e) => TrustStepModel::Fail(e@),
        }
    }
}

/// The steps as mathematical values.
pub open spec fn step_models(steps: Seq<TrustStep>) -> Seq<TrustStepModel> {
    steps.map_values(|s: TrustStep| s@)
}

fn push_step(steps: &mut Vec<TrustStep>, step: TrustStep)
    ensures
        step_models(final(steps)@) == step_models(old(steps)@).push(step@),
{
    let ghost before = step_models(steps@);
    let ghost model = step@;
    steps.push(step);
    assert(step_models(steps@) =~= before.push(model));
}

/// What is known of the machine.
#[derive(Debug)]
pub struct TrustFacts {
    pub os: Os,
    /// How this Linux keeps its certificates.
    pub store: Option<TrustStore>,
    /// The certificate database of the user, where the user has a home.
    pub nss_dir: Option<String>,
    /// Whether the directory of that database is there.
    pub nss_present: bool,
    /// Whether there is a database in it.
    pub nss_filled: bool,
    /// Whether the tool for such databases is there.
    pub certutil: bool,
    /// The databases of the user's browser profiles, or why they cannot be
    /// found.
    pub profiles: Result<Vec<String>, String>,
}

/// How the tool for certificate databases names a database.
pub open spec fn nss_name(dir: Seq<char>) -> Seq<char> {
    "sql:"@ + dir
}

/// The command that makes an empty database.
pub open spec fn nss_create(dir: Seq<char>) -> CommandModel {
    command_of("certutil"@, seq!["-d"@, nss_name(dir), "-N"@, "--empty-password"@])
}

/// The command that takes a certificate out of a database.
pub open spec fn nss_delete(dir: Seq<char>, name: Seq<char>) -> CommandModel {
    command_of("certutil"@, seq!["-d"@, nss_name(dir), "-D"@, "-n"@, name])
}

/// The command that puts a certificate into a database, trusted for servers.
pub open spec fn nss_add(dir: Seq<char>, name: Seq<char>, cert: Seq<char>) -> CommandModel {
    command_of(
        "certutil"@,
        seq!["-d"@, nss_name(dir), "-A"@, "-t"@, "C,,"@, "-n"@, name, "-i"@, cert],
    )
}

fn nss_create_command(dir: &str) -> (r: CommandLine)
    ensures
        r@ == nss_create(dir@),
{
    let r = command(
        "certutil",
        vec![
            "-d".to_string(),
            followed_by("sql:", dir),
            "-N".to_string(),
            "--empty-password".to_string(),
        ],
    );
    assert(r@ =~= nss_create(dir@));
    r
}

fn nss_delete_command(dir: &str, name: &str) -> (r: CommandLine)
    ensures
        r@ == nss_delete(dir@, name@),
{
    let r = command(
        "certutil",
        vec![
            "-d".to_string(),
            followed_by("sql:", dir),
            "-D".to_string(),
            "-n".to_string(),
            name.to_string(),
        ],
    );
    assert(r@ =~= nss_delete(dir@, name@));
    r
}

fn nss_add_command(dir: &str, name: &str, cert: &str) -> (r: CommandLine)
    ensures
        r@ == nss_add(dir@, name@, cert@),
{
    let r = command(
        "certutil",
        vec![
            "-d".to_string(),
            followed_by("sql:", dir),
            "-A".to_string(),
            "-t".to_string(),
            "C,,".to_string(),
            "-n".to_string(),
            name.to_string(),
            "-i".to_string(),
            cert.to_string(),
        ],
    );
    assert(r@ =~= nss_add(dir@, name@, cert@));
    r
}

/// Taking a certificate out of a database.
pub open spec fn removal_steps(dir: Seq<char>, name: Seq<char>) -> Seq<TrustStepModel> {
    seq![TrustStepModel::Attempt(nss_delete(dir, name)), TrustStepModel::HandOver(dir)]
}

/// Putting a certificate into a database in the place of an older one.
pub open spec fn import_steps(dir: Seq<char>, name: Seq<char>, cert: Seq<char>) -> Seq<
    TrustStepModel,
> {
    seq![
        TrustStepModel::Attempt(nss_delete(dir, name)),
        TrustStepModel::Run(nss_add(dir, name, cert)),
        TrustStepModel::HandOver(dir),
    ]
}

/// Taking a certificate out of several databases.
pub open spec fn profile_removal(profiles: Seq<Seq<char>>, name: Seq<char>) -> Seq<TrustStepModel>
    decreases profiles.len(),
{
    if profiles.len() == 0 {
        Seq::empty()
    } else {
        profile_removal(profiles.drop_last(), name) + removal_steps(profiles.last(), name)
    }
}

/// Putting a certificate into several databases.
pub open spec fn profile_import(
    profiles: Seq<Seq<char>>,
    name: Seq<char>,
    cert: Seq<char>,
) -> Seq<TrustStepModel>
    decreases profiles.len(),
{
    if profiles.len() == 0 {
        Seq::empty()
    } else {
        profile_import(profiles.drop_last(), name, cert) + import_steps(
            profiles.last(),
            name,
            cert,
        )
    }
}

fn remove_ca_from_nss_db(steps: &mut Vec<TrustStep>, dir: &str, common_name: &str)
    ensures
        step_models(final(steps)@) == step_models(old(steps)@) + removal_steps(
            dir@,
            common_name@,
        ),
{
    let ghost before = step_models(steps@);
    push_step(steps, TrustStep::Attempt(nss_delete_command(dir, common_name)));
    push_step(steps, TrustStep::HandOver(dir.to_string()));
    assert(step_models(steps@) =~= before + removal_steps(dir@, common_name@));
}

fn import_ca_to_nss_db(steps: &mut Vec<TrustStep>, dir: &str, common_name: &str, cert: &str)
    ensures
        step_models(final(steps)@) == step_models(old(steps)@) + import_steps(
            dir@,
            common_name@,
            cert@,
        ),
{
    let ghost before = step_models(steps@);
    push_step(steps, TrustStep::Attempt(nss_delete_command(dir, common_name)));
    push_step(steps, TrustStep::Run(nss_add_command(dir, common_name, cert)));
    push_step(steps, TrustStep::HandOver(dir.to_string()));
    assert(step_models(steps@) =~= before + import_steps(dir@, common_name@, cert@));
}

// ---------------------------------------------------------------------------
// Plans
// ---------------------------------------------------------------------------

/// Taking the certificate out of the user's own database.
pub open spec fn own_removal(facts: TrustFacts, name: Seq<char>) -> Seq<TrustStepModel> {
    match facts.nss_dir {
        Some(dir) => if facts.nss_present && facts.certutil {
            removal_steps(dir@, name)
        } else {
            Seq::empty()
        },
        None => Seq::empty(),
    }
}

/// Taking the certificate out of the databases of the user, on Linux.
pub open spec fn nss_removal(facts: TrustFacts, name: Seq<char>) -> Seq<TrustStepModel> {
    if facts.os != Os::Linux {
        Seq::empty()
    } else {
        own_removal(facts, name) + (match facts.profiles {
            Ok(profiles) => if facts.certutil {
                profile_removal(texts(profiles@), name)
            } else {
                Seq::empty()
            },
            Err(e) => seq![TrustStepModel::Fail(e@)],
        })
    }
}

/// Putting the certificate into the user's own database.
pub open spec fn own_import(facts: TrustFacts, name: Seq<char>, cert: Seq<char>) -> Seq<
    TrustStepModel,
> {
    match facts.nss_dir {
        Some(dir) => seq![TrustStepModel::CreateDir(dir@)] + (if !facts.certutil {
            Seq::empty()
        } else {
            (if facts.nss_filled {
                Seq::empty()
            } else {
                seq![TrustStepModel::Run(nss_create(dir@))]
            }) + import_steps(dir@, name, cert)
        }),
        None => Seq::empty(),
    }
}

/// Putting the certificate into the databases of the user, on Linux.
pub open spec fn nss_import(facts: TrustFacts, name: Seq<char>, cert: Seq<char>) -> Seq<
    TrustStepModel,
> {
    if facts.os != Os::Linux {
        Seq::empty()
    } else {
        own_import(facts, name, cert) + (match facts.profiles {
            Ok(profiles) => if facts.certutil {
                profile_import(texts(profiles@), name, cert)
            } else {
                Seq::empty()
            },
            Err(e) => seq![TrustStepModel::Fail(e@)],
        })
    }
}

/// Making the store of a Linux forget the certificate.
pub open spec fn store_removal(facts: TrustFacts) -> Seq<TrustStepModel> {
    match facts.store {
        Some(store) => seq![
            TrustStepModel::Remove(store.file()),
            TrustStepModel::Run(store.update()),
        ],
        None => Seq::empty(),
    }
}

/// The steps that make the system forget the certificate.
pub open spec fn removal_plan(facts: TrustFacts, name: Seq<char>) -> Seq<TrustStepModel> {
    if facts.os == Os::Windows {
        seq![
            TrustStepModel::Run(command_of("certutil"@, seq!["-delstore"@, "Root"@, name])),
        ]
    } else if facts.os == Os::MacOs {
        seq![
            TrustStepModel::Run(
                command_of(
                    "security"@,
                    seq!["delete-certificate"@, "-c"@, name, SYSTEM_KEYCHAIN@],
                ),
            ),
        ]
    } else {
        store_removal(facts) + nss_removal(facts, name)
    }
}

/// The steps that make the system trust the certificate in the file `cert`.
pub open spec fn install_plan(facts: TrustFacts, name: Seq<char>, cert: Seq<char>) -> Seq<
    TrustStepModel,
> {
    if facts.os == Os::Windows {
        seq![
            TrustStepModel::Run(
                command_of("certutil"@, seq!["-f"@, "-addstore"@, "Root"@, cert]),
            ),
        ]
    } else if facts.os == Os::MacOs {
        seq![
            TrustStepModel::Run(
                command_of(
                    "security"@,
                    seq![
                        "add-trusted-cert"@,
                        "-d"@,
                        "-r"@,
                        "trustRoot"@,
                        "-k"@,
                        SYSTEM_KEYCHAIN@,
                        cert,
                    ],
                ),
            ),
        ]
    } else {
        match facts.store {
            None => seq![TrustStepModel::Fail(NO_TRUST_STORE@)],
            Some(store) => seq![
                TrustStepModel::CreateDir(store.dir()),
                TrustStepModel::Copy(cert, store.file()),
                TrustStepModel::Run(store.update()),
            ] + nss_import(facts, name, cert),
        }
    }
}

/// The steps that make the system forget the certificate `common_name`.
pub fn uninstall_ca(facts: &TrustFacts, common_name: &str) -> (r: Vec<TrustStep>)
    ensures
        step_models(r@) == removal_plan(*facts, common_name@),
{
    let mut steps: Vec<TrustStep> = Vec::new();
    let ghost none = Seq::<TrustStepModel>::empty();
    assert(step_models(steps@) =~= none);
    if facts.os == Os::Windows {
        let c = command(
            "certutil",
            vec!["-delstore".to_string(), "Root".to_string(), common_name.to_string()],
        );
        assert(c@ =~= command_of("certutil"@, seq!["-delstore"@, "Root"@, common_name@]));
        push_step(&mut steps, TrustStep::Run(c));
        assert(step_models(steps@) =~= removal_plan(*facts, common_name@));
        return steps;
    }
    if facts.os == Os::MacOs {
        let c = command(
            "security",
            vec![
                "delete-certificate".to_string(),
                "-c".to_string(),
                common_name.to_string(),
                SYSTEM_KEYCHAIN.to_string(),
            ],
        );
        assert(c@ =~= command_of(
            "security"@,
            seq!["delete-certificate"@, "-c"@, common_name@, SYSTEM_KEYCHAIN@],
        ));
        push_step(&mut steps, TrustStep::Run(c));
        assert(step_models(steps@) =~= removal_plan(*facts, common_name@));
        return steps;
    }
    if let Some(store) = facts.store {
        push_step(&mut steps, TrustStep::Remove(store.path()));
        push_step(&mut steps, TrustStep::Run(store.update_command()));
    }
    let ghost system = step_models(steps@);
    assert(system =~= store_removal(*facts));
    if facts.os != Os::Linux {
        assert(system + none =~= system);
        return steps;
    }
    if let Some(dir) = &facts.nss_dir {
        if facts.nss_present && facts.certutil {
            remove_ca_from_nss_db(&mut steps, dir.as_str(), common_name);
        }
    }
    let ghost own = step_models(steps@);
    assert(own =~= system + own_removal(*facts, common_name@));
    match &facts.profiles {
        Err(e) => {
            push_step(&mut steps, TrustStep::Fail(e.clone()));
        },
        Ok(profiles) => {
            if facts.certutil {
                let ghost names = texts(profiles@);
                assert(names.take(0) =~= Seq::<Seq<char>>::empty());
                assert(own + none =~= own);
                for i in 0..profiles.len()
                    invariant
                        names == texts(profiles@),
                        step_models(steps@) == own + profile_removal(
                            names.take(i as int),
                            common_name@,
                        ),
                {
                    remove_ca_from_nss_db(&mut steps, profiles[i].as_str(), common_name);
                    proof {
                        assert(names.take(i + 1).drop_last() =~= names.take(i as int));
                        assert(names.take(i + 1).last() == profiles@[i as int]@);
                        assert(step_models(steps@) =~= own + profile_removal(
                            names.take(i + 1),
                            common_name@,
                        ));
                    }
                }
                assert(names.take(names.len() as int) =~= names);
            }
        },
    }
    assert(step_models(steps@) =~= removal_plan(*facts, common_name@));
    steps
}

/// The steps that make the system trust the certificate `common_name` in the
/// file `ca_cert_path`, once an older one was removed as far as it could be.
pub fn installation_steps(facts: &TrustFacts, ca_cert_path: &str, common_name: &str) -> (r: Vec<
    TrustStep,
>)
    ensures
        step_models(r@) == install_plan(*facts, common_name@, ca_cert_path@),
{
    let mut steps: Vec<TrustStep> = Vec::new();
    let ghost none = Seq::<TrustStepModel>::empty();
    let ghost goal = install_plan(*facts, common_name@, ca_cert_path@);
    assert(step_models(steps@) =~= none);
    if facts.os == Os::Windows {
        let c = command(
            "certutil",
            vec![
                "-f".to_string(),
                "-addstore".to_string(),
                "Root".to_string(),
                ca_cert_path.to_string(),
            ],
        );
        assert(c@ =~= command_of(
            "certutil"@,
            seq!["-f"@, "-addstore"@, "Root"@, ca_cert_path@],
        ));
        push_step(&mut steps, TrustStep::Run(c));
        assert(step_models(steps@) =~= goal);
        return steps;
    }
    if facts.os == Os::MacOs {
        let c = command(
            "security",
            vec![
                "add-trusted-cert".to_string(),
                "-d".to_string(),
                "-r".to_string(),
                "trustRoot".to_string(),
                "-k".to_string(),
                SYSTEM_KEYCHAIN.to_string(),
                ca_cert_path.to_string(),
            ],
        );
        assert(c@ =~= command_of(
            "security"@,
            seq![
                "add-trusted-cert"@,
                "-d"@,
                "-r"@,
                "trustRoot"@,
                "-k"@,
                SYSTEM_KEYCHAIN@,
                ca_cert_path@,
            ],
        ));
        push_step(&mut steps, TrustStep::Run(c));
        assert(step_models(steps@) =~= goal);
        return steps;
    }
    let store = match facts.store {
        Some(store) => store,
        None => {
            push_step(&mut steps, TrustStep::Fail(NO_TRUST_STORE.to_string()));
            assert(step_models(steps@) =~= goal);
            return steps;
        },
    };
    push_step(&mut steps, TrustStep::CreateDir(store.store_dir().to_string()));
    push_step(&mut steps, TrustStep::Copy(ca_cert_path.to_string(), store.path()));
    push_step(&mut steps, TrustStep::Run(store.update_command()));
    let ghost system = step_models(steps@);
    assert(system =~= seq![
        TrustStepModel::CreateDir(store.dir()),
        TrustStepModel::Copy(ca_cert_path@, store.file()),
        TrustStepModel::Run(store.update()),
    ]);
    if facts.os != Os::Linux {
        assert(system + none =~= system);
        return steps;
    }
    if let Some(dir) = &facts.nss_dir {
        push_step(&mut steps, TrustStep::CreateDir(dir.clone()));
        if facts.certutil {
            if !facts.nss_filled {
                push_step(&mut steps, TrustStep::Run(nss_create_command(dir.as_str())));
            }
            import_ca_to_nss_db(&mut steps, dir.as_str(), common_name, ca_cert_path);
        }
    }
    let ghost own = step_models(steps@);
    assert(own =~= system + own_import(*facts, common_name@, ca_cert_path@));
    match &facts.profiles {
        Err(e) => {
            push_step(&mut steps, TrustStep::Fail(e.clone()));
        },
        Ok(profiles) => {
            if facts.certutil {
                let ghost names = texts(profiles@);
                assert(names.take(0) =~= Seq::<Seq<char>>::empty());
                assert(own + none =~= own);
                for i in 0..profiles.len()
                    invariant
                        names == texts(profiles@),
                        step_models(steps@) == own + profile_import(
                            names.take(i as int),
                            common_name@,
                            ca_cert_path@,
                        ),
                {
                    import_ca_to_nss_db(
                        &mut steps,
                        profiles[i].as_str(),
                        common_name,
                        ca_cert_path,
                    );
                    proof {
                        assert(names.take(i + 1).drop_last() =~= names.take(i as int));
                        assert(names.take(i + 1).last() == profiles@[i as int]@);
                        assert(step_models(steps@) =~= own + profile_import(
                            names.take(i + 1),
                            common_name@,
                            ca_cert_path@,
                        ));
                    }
                }
                assert(names.take(names.len() as int) =~= names);
            }
        },
    }
    assert(step_models(steps@) =~= goal);
    steps
}

// ---------------------------------------------------------------------------
// Going through a plan
// ---------------------------------------------------------------------------

/// What to do next in a plan.
#[derive(Debug)]
pub enum PlanNext {
    /// Take this step.
    Take(TrustStep),
    /// All steps were taken.
    Done,
    /// The plan has failed.
    Failed(String),
}

/// What to do next in a plan, as mathematical values.
#[verifier::ext_equal]
pub enum PlanNextModel {
    Take(TrustStepModel),
    Done,
    Failed(Seq<char>),
}

impl View for PlanNext {
    type V = PlanNextModel;

    open spec fn view(&self) -> PlanNextModel {
        match *self {
            PlanNext::Take(step) => PlanNextModel::Take(step@),
            PlanNext::Done => PlanNextModel::Done,
            PlanNext::Failed(e) => PlanNextModel::Failed(e@),
        }
    }
}

/// How steps went: `None` for one that went well, else its error.
pub open spec fn outcome_models(outcomes: Seq<Option<String>>) -> Seq<Option<Seq<char>>> {
    outcomes.map_values(|o: Option<String>| opt_text(o))
}

/// The error that a step ends its plan with.
pub open spec fn step_error(step: TrustStepModel, outcome: Option<Seq<char>>) -> Option<Seq<char>> {
    if step is Attempt {
        None
    } else {
        outcome
    }
}

/// What to do next in a plan whose first steps went so.
pub open spec fn next_in(
    plan: Seq<TrustStepModel>,
    outcomes: Seq<Option<Seq<char>>>,
) -> PlanNextModel {
    let n = outcomes.len() as int;
    if 0 < n <= plan.len() && step_error(plan[n - 1], outcomes[n - 1]) is Some {
        PlanNextModel::Failed(step_error(plan[n - 1], outcomes[n - 1])->0)
    } else if n < plan.len() {
        match plan[n] {
            TrustStepModel::Fail(e) => PlanNextModel::Failed(e),
            step => PlanNextModel::Take(step),
        }
    } else {
        PlanNextModel::Done
    }
}

/// Says what to do next in a plan, where its first steps went as the outcomes
/// say.
pub fn next_step(plan: Vec<TrustStep>, outcomes: &Vec<Option<String>>) -> (r: PlanNext)
    ensures
        r@ == next_in(step_models(plan@), outcome_models(outcomes@)),
{
    let mut plan = plan;
    let ghost all = step_models(plan@);
    let n = outcomes.len();
    if 0 < n && n <= plan.len() {
        assert(outcome_models(outcomes@)[n - 1] == opt_text(outcomes@[n - 1]));
        assert(all[n - 1] == plan@[n - 1]@);
        if let Some(e) = &outcomes[n - 1] {
            match &plan[n - 1] {
                TrustStep::Attempt(_) => {},
                _ => {
                    return PlanNext::Failed(e.clone());
                },
            }
        }
    }
    if n < plan.len() {
        assert(all[n as int] == plan@[n as int]@);
        let step = plan.remove(n);
        match step {
            TrustStep::Fail(e) => PlanNext::Failed(e),
            other => PlanNext::Take(other),
        }
    } else {
        PlanNext::Done
    }
}

/// What has been found out and done so far to install the certificate.
#[derive(Debug)]
pub struct InstallKnown {
    /// The machine before anything was done.
    pub before: Option<TrustFacts>,
    /// How the steps to remove an older certificate went.
    pub removals: Vec<Option<String>>,
    /// The machine after that.
    pub after: Option<TrustFacts>,
    /// How the steps to install the certificate went.
    pub installs: Vec<Option<String>>,
}

/// What to do next to install the certificate.
#[derive(Debug)]
pub enum InstallNext {
    /// Look at the machine.
    LookBefore,
    /// Take this step to remove an older certificate.
    Remove(TrustStep),
    /// Look at the machine again.
    LookAfter,
    /// Take this step to install the certificate.
    Install(TrustStep),
    /// The certificate is installed.
    Finished,
    /// It could not be installed.
    Failed(String),
}

/// What to do next to install the certificate, as mathematical values.
#[verifier::ext_equal]
pub enum InstallNextModel {
    LookBefore,
    Remove(TrustStepModel),
    LookAfter,
    Install(TrustStepModel),
    Finished,
    Failed(Seq<char>),
}

impl View for InstallNext {
    type V = InstallNextModel;

    open spec fn view(&self) -> InstallNextModel {
        match *self {
            InstallNext::LookBefore => InstallNextModel::LookBefore,
            InstallNext::Remove(step) => InstallNextModel::Remove(step@),
            InstallNext::LookAfter => InstallNextModel::LookAfter,
            InstallNext::Install(step) => InstallNextModel::Install(step@),
            InstallNext::Finished => InstallNextModel::Finished,
            InstallNext::Failed(e) => InstallNextModel::Failed(e@),
        }
    }
}

/// What to do next to install a certificate: an older one is removed first,
/// and whether that went well does not matter.
pub open spec fn install_next(
    before: Option<TrustFacts>,
    removals: Seq<Option<Seq<char>>>,
    after: Option<TrustFacts>,
    installs: Seq<Option<Seq<char>>>,
    name: Seq<char>,
    cert: Seq<char>,
) -> InstallNextModel {
    match before {
        None => InstallNextModel::LookBefore,
        Some(old_facts) => match next_in(removal_plan(old_facts, name), removals) {
            PlanNextModel::Take(step) => InstallNextModel::Remove(step),
            _ => match after {
                None => InstallNextModel::LookAfter,
                Some(facts) => match next_in(install_plan(facts, name, cert), installs) {
                    PlanNextModel::Take(step) => InstallNextModel::Install(step),
                    PlanNextModel::Done => InstallNextModel::Finished,
                    PlanNextModel::Failed(e) => InstallNextModel::Failed(e),
                },
            },
        },
    }
}

/// Says what to do next to make the system trust the certificate
/// `common_name` in the file `ca_cert_path`.
pub fn install_ca(known: &InstallKnown, ca_cert_path: &str, common_name: &str) -> (r: InstallNext)
    ensures
        r@ == install_next(
            known.before,
            outcome_models(known.removals@),
            known.after,
            outcome_models(known.installs@),
            common_name@,
            ca_cert_path@,
        ),
{
    let before = match &known.before {
        Some(facts) => facts,
        None => {
            return InstallNext::LookBefore;
        },
    };
    if let PlanNext::Take(step) = next_step(uninstall_ca(before, common_name), &known.removals) {
        return InstallNext::Remove(step);
    }
    let after = match &known.after {
        Some(facts) => facts,
        None => {
            return InstallNext::LookAfter;
        },
    };
    match next_step(installation_steps(after, ca_cert_path, common_name), &known.installs) {
        PlanNext::Take(step) => InstallNext::Install(step),
        PlanNext::Done => InstallNext::Finished,
        PlanNext::Failed(e) => InstallNext::Failed(e),
    }
}

// ---------------------------------------------------------------------------
// Laws
// ---------------------------------------------------------------------------

/// Different databases take different commands.
proof fn lemma_nss_add_injective(a: Seq<char>, b: Seq<char>, name: Seq<char>, cert: Seq<char>)
    requires
        nss_add(a, name, cert) == nss_add(b, name, cert),
    ensures
        a == b,
{
    let x = nss_add(a, name, cert).args[1];
    let y = nss_add(b, name, cert).args[1];
    assert(x == nss_name(a) && y == nss_name(b));
    assert(a =~= x.skip("sql:"@.len() as int));
    assert(b =~= y.skip("sql:"@.len() as int));
}

/// The databases that the certificate is put into are those that were named.
proof fn lemma_imports_only_named(
    profiles: Seq<Seq<char>>,
    name: Seq<char>,
    cert: Seq<char>,
    dir: Seq<char>,
)
    requires
        profile_import(profiles, name, cert).contains(
            TrustStepModel::Run(nss_add(dir, name, cert)),
        ),
    ensures
        profiles.contains(dir),
    decreases profiles.len(),
{
    let step = TrustStepModel::Run(nss_add(dir, name, cert));
    let all = profile_import(profiles, name, cert);
    let k = choose|k: int| 0 <= k < all.len() && all[k] == step;
    if profiles.len() > 0 {
        let front = profile_import(profiles.drop_last(), name, cert);
        let last = import_steps(profiles.last(), name, cert);
        if k < front.len() {
            assert(front[k] == step);
            lemma_imports_only_named(profiles.drop_last(), name, cert, dir);
            let j = choose|j: int|
                0 <= j < profiles.drop_last().len() && profiles.drop_last()[j] == dir;
            assert(profiles[j] == dir);
        } else {
            assert(last[k - front.len()] == step);
            assert(last[1] == TrustStepModel::Run(nss_add(profiles.last(), name, cert)));
            lemma_nss_add_injective(dir, profiles.last(), name, cert);
            assert(profiles[profiles.len() - 1] == dir);
        }
    }
}

/// Putting the certificate into databases copies no file.
proof fn lemma_imports_copy_nothing(
    profiles: Seq<Seq<char>>,
    name: Seq<char>,
    cert: Seq<char>,
    k: int,
)
    requires
        0 <= k < profile_import(profiles, name, cert).len(),
    ensures
        !(profile_import(profiles, name, cert)[k] is Copy),
    decreases profiles.len(),
{
    if profiles.len() > 0 {
        let front = profile_import(profiles.drop_last(), name, cert);
        if k < front.len() {
            lemma_imports_copy_nothing(profiles.drop_last(), name, cert, k);
        }
    }
}

/// The certificate is taken out of every database that was named.
proof fn lemma_removes_all_named(profiles: Seq<Seq<char>>, name: Seq<char>, dir: Seq<char>)
    requires
        profiles.contains(dir),
    ensures
        profile_removal(profiles, name).contains(TrustStepModel::Attempt(nss_delete(dir, name))),
    decreases profiles.len(),
{
    let step = TrustStepModel::Attempt(nss_delete(dir, name));
    let all = profile_removal(profiles, name);
    let front = profile_removal(profiles.drop_last(), name);
    let k = choose|k: int| 0 <= k < profiles.len() && profiles[k] == dir;
    if k < profiles.len() - 1 {
        assert(profiles.drop_last()[k] == dir);
        lemma_removes_all_named(profiles.drop_last(), name, dir);
        let j = choose|j: int| 0 <= j < front.len() && front[j] == step;
        assert(all[j] == step);
    } else {
        assert(removal_steps(dir, name)[0] == step);
        assert(all[front.len() as int] == step);
    }
}

/// Whatever database the certificate is put into, taking it out again reaches
/// that database, once the user's own is there.
pub proof fn law_removal_reaches_every_database(
    facts: TrustFacts,
    name: Seq<char>,
    cert: Seq<char>,
    dir: Seq<char>,
)
    requires
        facts.nss_present,
        install_plan(facts, name, cert).contains(TrustStepModel::Run(nss_add(dir, name, cert))),
    ensures
        removal_plan(facts, name).contains(TrustStepModel::Attempt(nss_delete(dir, name))),
{
    let step = TrustStepModel::Run(nss_add(dir, name, cert));
    let gone = TrustStepModel::Attempt(nss_delete(dir, name));
    let steps = install_plan(facts, name, cert);
    let k = choose|k: int| 0 <= k < steps.len() && steps[k] == step;
    assert(nss_add(dir, name, cert).args.len() == 9);
    if facts.os == Os::Windows || facts.os == Os::MacOs {
        assert(k == 0);
        assert(steps[0]->Run_0.args.len() != 9);
    } else if facts.store is None {
        assert(steps[0] is Fail);
    } else {
        let store = facts.store->0;
        assert(store.update().args.len() <= 1);
        let import = nss_import(facts, name, cert);
        assert(steps.len() == 3 + import.len());
        if k < 3 {
            assert(steps[2] == TrustStepModel::Run(store.update()));
            assert(steps[0] is CreateDir && steps[1] is Copy);
            assert(steps[2]->Run_0.args.len() != 9);
        }
        let at = k - 3;
        assert(import[at] == step);
        let own = own_import(facts, name, cert);
        let removal = nss_removal(facts, name);
        let system = store_removal(facts);
        assert(removal_plan(facts, name) =~= system + removal);
        if at < own.len() {
            let d = facts.nss_dir->0@;
            assert(own[at] == step);
            assert(nss_create(d).args.len() == 4);
            assert(own[at] == TrustStepModel::Run(nss_add(d, name, cert)));
            lemma_nss_add_injective(dir, d, name, cert);
            assert(removal_steps(d, name)[0] == gone);
            assert(removal[0] == gone);
            assert(removal_plan(facts, name)[system.len() as int] == gone);
        } else {
            assert(facts.profiles is Ok);
            let names = texts(facts.profiles->Ok_0@);
            let imports = profile_import(names, name, cert);
            assert(imports[at - own.len()] == step);
            lemma_imports_only_named(names, name, cert, dir);
            lemma_removes_all_named(names, name, dir);
            let removals = profile_removal(names, name);
            let j = choose|j: int| 0 <= j < removals.len() && removals[j] == gone;
            let before = removal.len() - removals.len();
            assert(removal[before + j] == gone);
            assert(removal_plan(facts, name)[system.len() + before + j] == gone);
        }
    }
}

/// The file that the certificate is copied to is removed again.
pub proof fn law_removal_reaches_the_store(
    facts: TrustFacts,
    name: Seq<char>,
    cert: Seq<char>,
    file: Seq<char>,
)
    requires
        install_plan(facts, name, cert).contains(TrustStepModel::Copy(cert, file)),
    ensures
        removal_plan(facts, name).contains(TrustStepModel::Remove(file)),
{
    let steps = install_plan(facts, name, cert);
    let k = choose|k: int| 0 <= k < steps.len() && steps[k] == TrustStepModel::Copy(cert, file);
    if facts.os != Os::Windows && facts.os != Os::MacOs && facts.store is Some {
        let import = nss_import(facts, name, cert);
        if k >= 3 {
            assert(import[k - 3] == steps[k]);
            if facts.os == Os::Linux {
                let own = own_import(facts, name, cert);
                if k - 3 < own.len() {
                    assert(own[k - 3] == steps[k]);
                } else if facts.profiles is Ok {
                    let names = texts(facts.profiles->Ok_0@);
                    assert(profile_import(names, name, cert)[k - 3 - own.len()] == steps[k]);
                    lemma_imports_copy_nothing(names, name, cert, k - 3 - own.len());
                }
            }
        }
        assert(steps[1] == TrustStepModel::Copy(cert, facts.store->0.file()));
        assert(removal_plan(facts, name)[0] == TrustStepModel::Remove(file));
    }
}

/// Whether the removal of an older certificate goes well or fails, and
/// however it fails, the certificate is then installed in the same way.
pub proof fn law_removal_does_not_matter(
    before: TrustFacts,
    removals: Seq<Option<Seq<char>>>,
    others: Seq<Option<Seq<char>>>,
    after: Option<TrustFacts>,
    installs: Seq<Option<Seq<char>>>,
    name: Seq<char>,
    cert: Seq<char>,
)
    requires
        !(next_in(removal_plan(before, name), removals) is Take),
        !(next_in(removal_plan(before, name), others) is Take),
    ensures
        install_next(Some(before), removals, after, installs, name, cert) == install_next(
            Some(before),
            others,
            after,
            installs,
            name,
            cert,
        ),
{
}

/// A certificate is reported as installed only where every step of the plan
/// was taken, and none that had to go well failed.
pub proof fn law_installed_means_done(
    before: Option<TrustFacts>,
    removals: Seq<Option<Seq<char>>>,
    after: TrustFacts,
    installs: Seq<Option<Seq<char>>>,
    name: Seq<char>,
    cert: Seq<char>,
    i: int,
)
    requires
        install_next(before, removals, Some(after), installs, name, cert) is Finished,
        forall|k: int|
            0 <= k < installs.len() ==> next_in(
                install_plan(after, name, cert),
                #[trigger] installs.take(k),
            ) is Take,
        0 <= i < install_plan(after, name, cert).len(),
    ensures
        i < installs.len(),
        step_error(install_plan(after, name, cert)[i], installs[i]) is None,
        !(install_plan(after, name, cert)[i] is Fail),
{
    let plan = install_plan(after, name, cert);
    assert(next_in(plan, installs) is Done);
    assert(next_in(plan, installs.take(i)) is Take);
    if i + 1 < installs.len() {
        let front = installs.take(i + 1);
        assert(next_in(plan, front) is Take);
        assert(front[i] == installs[i]);
    }
}

} // verus!

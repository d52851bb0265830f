//! What holds of installing the root certificate and of removing it.
use crate::platform::{CommandLine, CommandModel, Os};
use crate::text::{opt_text, texts};
use crate::trust::{
    import_steps, install_next, install_plan, next_in, nss_import, nss_removal, outcome_models,
    own_import, own_removal, profile_import, profile_removal, removal_plan, removal_steps,
    step_error, step_models, store_removal, InstallNext, InstallNextModel, PlanNext,
    PlanNextModel, TrustFacts, TrustStep, TrustStepModel, TrustStore,
};
use vstd::prelude::*;

verus! {

// ---------------------------------------------------------------------------
// The stores of the systems
// ---------------------------------------------------------------------------

/// On Windows the certificate is added to the root store by its file, and
/// removed from it by its name.
pub proof fn law_windows_store(facts: TrustFacts, name: Seq<char>, cert: Seq<char>)
    requires
        facts.os == Os::Windows,
    ensures
        install_plan(facts, name, cert) == seq![
            TrustStepModel::Run(
                CommandModel {
                    program: "certutil"@,
                    args: seq!["-f"@, "-addstore"@, "Root"@, cert],
                },
            ),
        ],
        removal_plan(facts, name) == seq![
            TrustStepModel::Run(
                CommandModel { program: "certutil"@, args: seq!["-delstore"@, "Root"@, name] },
            ),
        ],
{
}

/// On macOS the certificate is trusted as a root in the keychain that all
/// users share, and deleted from it by its name.
pub proof fn law_macos_keychain(facts: TrustFacts, name: Seq<char>, cert: Seq<char>)
    requires
        facts.os == Os::MacOs,
    ensures
        install_plan(facts, name, cert) == seq![
            TrustStepModel::Run(
                CommandModel {
                    program: "security"@,
                    args: seq![
                        "add-trusted-cert"@,
                        "-d"@,
                        "-r"@,
                        "trustRoot"@,
                        "-k"@,
                        "/Library/Keychains/System.keychain"@,
                        cert,
                    ],
                },
            ),
        ],
        removal_plan(facts, name) == seq![
            TrustStepModel::Run(
                CommandModel {
                    program: "security"@,
                    args: seq![
                        "delete-certificate"@,
                        "-c"@,
                        name,
                        "/Library/Keychains/System.keychain"@,
                    ],
                },
            ),
        ],
{
}

/// On Debian and its kin, and on Fedora and its kin, the certificate is copied
/// into the directory for such, after that was made, and the system told of
/// it, before anything else; it is removed from there, and the system told of
/// that, before anything else.
pub proof fn law_linux_store(facts: TrustFacts, name: Seq<char>, cert: Seq<char>)
    requires
        facts.os != Os::Windows,
        facts.os != Os::MacOs,
    ensures
        facts.store == Some(TrustStore::Debian) ==> {
            &&& install_plan(facts, name, cert).len() >= 3
            &&& install_plan(facts, name, cert).take(3) == seq![
                TrustStepModel::CreateDir("/usr/local/share/ca-certificates"@),
                TrustStepModel::Copy(
                    cert,
                    "/usr/local/share/ca-certificates"@ + "/"@
                        + "linuxdo-accelerator-root-ca.crt"@,
                ),
                TrustStepModel::Run(
                    CommandModel { program: "update-ca-certificates"@, args: Seq::empty() },
                ),
            ]
            &&& removal_plan(facts, name).len() >= 2
            &&& removal_plan(facts, name).take(2) == seq![
                TrustStepModel::Remove(
                    "/usr/local/share/ca-certificates"@ + "/"@
                        + "linuxdo-accelerator-root-ca.crt"@,
                ),
                TrustStepModel::Run(
                    CommandModel { program: "update-ca-certificates"@, args: Seq::empty() },
                ),
            ]
        },
        facts.store == Some(TrustStore::Fedora) ==> {
            &&& install_plan(facts, name, cert).len() >= 3
            &&& install_plan(facts, name, cert).take(3) == seq![
                TrustStepModel::CreateDir("/etc/pki/ca-trust/source/anchors"@),
                TrustStepModel::Copy(
                    cert,
                    "/etc/pki/ca-trust/source/anchors"@ + "/"@
                        + "linuxdo-accelerator-root-ca.crt"@,
                ),
                TrustStepModel::Run(
                    CommandModel { program: "update-ca-trust"@, args: seq!["extract"@] },
                ),
            ]
            &&& removal_plan(facts, name).len() >= 2
            &&& removal_plan(facts, name).take(2) == seq![
                TrustStepModel::Remove(
                    "/etc/pki/ca-trust/source/anchors"@ + "/"@
                        + "linuxdo-accelerator-root-ca.crt"@,
                ),
                TrustStepModel::Run(
                    CommandModel { program: "update-ca-trust"@, args: seq!["extract"@] },
                ),
            ]
        },
        facts.store is None ==> install_plan(facts, name, cert) == seq![
            TrustStepModel::Fail("unsupported Linux trust store layout"@),
        ],
        facts.os != Os::Linux && facts.store is Some ==> install_plan(facts, name, cert).len() == 3
            && removal_plan(facts, name).len() == 2,
        facts.os != Os::Linux && facts.store is None ==> removal_plan(facts, name).len() == 0,
{
    if facts.store is Some {
        let store = facts.store->0;
        let first = seq![
            TrustStepModel::CreateDir(store.dir()),
            TrustStepModel::Copy(cert, store.file()),
            TrustStepModel::Run(store.update()),
        ];
        assert(install_plan(facts, name, cert) == first + nss_import(facts, name, cert));
        assert(install_plan(facts, name, cert).take(3) =~= first);
        assert(removal_plan(facts, name).take(2) =~= store_removal(facts));
    }
}

// ---------------------------------------------------------------------------
// The databases of the user
// ---------------------------------------------------------------------------

/// Whether steps hold, from place `k` on, those that put a certificate into a
/// database: one of its name is taken out, whether it is there or not, the
/// certificate added as one that servers may be vouched for with, and the
/// directory handed over.
pub open spec fn imports_at(
    steps: Seq<TrustStepModel>,
    k: int,
    dir: Seq<char>,
    name: Seq<char>,
    cert: Seq<char>,
) -> bool {
    &&& 0 <= k
    &&& k + 3 <= steps.len()
    &&& steps.subrange(k, k + 3) == seq![
        TrustStepModel::Attempt(
            CommandModel {
                program: "certutil"@,
                args: seq!["-d"@, "sql:"@ + dir, "-D"@, "-n"@, name],
            },
        ),
        TrustStepModel::Run(
            CommandModel {
                program: "certutil"@,
                args: seq![
                    "-d"@,
                    "sql:"@ + dir,
                    "-A"@,
                    "-t"@,
                    "C,,"@,
                    "-n"@,
                    name,
                    "-i"@,
                    cert,
                ],
            },
        ),
        TrustStepModel::HandOver(dir),
    ]
}

/// Whether steps hold, from place `k` on, those that take a certificate out of
/// a database.
pub open spec fn removes_at(
    steps: Seq<TrustStepModel>,
    k: int,
    dir: Seq<char>,
    name: Seq<char>,
) -> bool {
    &&& 0 <= k
    &&& k + 2 <= steps.len()
    &&& steps.subrange(k, k + 2) == seq![
        TrustStepModel::Attempt(
            CommandModel {
                program: "certutil"@,
                args: seq!["-d"@, "sql:"@ + dir, "-D"@, "-n"@, name],
            },
        ),
        TrustStepModel::HandOver(dir),
    ]
}

proof fn lemma_profile_import(
    profiles: Seq<Seq<char>>,
    name: Seq<char>,
    cert: Seq<char>,
    i: int,
)
    requires
        0 <= i < profiles.len(),
    ensures
        profile_import(profiles, name, cert).len() == 3 * profiles.len(),
        imports_at(profile_import(profiles, name, cert), 3 * i, profiles[i], name, cert),
    decreases profiles.len(),
{
    let all = profile_import(profiles, name, cert);
    let front = profiles.drop_last();
    let before = profile_import(front, name, cert);
    lemma_profile_import_len(front, name, cert);
    if i < front.len() {
        lemma_profile_import(front, name, cert, i);
        assert(all.subrange(3 * i, 3 * i + 3) =~= before.subrange(3 * i, 3 * i + 3));
    } else {
        assert(all.subrange(3 * i, 3 * i + 3) =~= import_steps(profiles.last(), name, cert));
    }
}

proof fn lemma_profile_import_len(profiles: Seq<Seq<char>>, name: Seq<char>, cert: Seq<char>)
    ensures
        profile_import(profiles, name, cert).len() == 3 * profiles.len(),
    decreases profiles.len(),
{
    if profiles.len() > 0 {
        lemma_profile_import_len(profiles.drop_last(), name, cert);
    }
}

proof fn lemma_profile_removal(profiles: Seq<Seq<char>>, name: Seq<char>, i: int)
    requires
        0 <= i < profiles.len(),
    ensures
        removes_at(profile_removal(profiles, name), 2 * i, profiles[i], name),
    decreases profiles.len(),
{
    let all = profile_removal(profiles, name);
    let front = profiles.drop_last();
    let before = profile_removal(front, name);
    lemma_profile_removal_len(front, name);
    if i < front.len() {
        lemma_profile_removal(front, name, i);
        assert(all.subrange(2 * i, 2 * i + 2) =~= before.subrange(2 * i, 2 * i + 2));
    } else {
        assert(all.subrange(2 * i, 2 * i + 2) =~= removal_steps(profiles.last(), name));
    }
}

proof fn lemma_profile_removal_len(profiles: Seq<Seq<char>>, name: Seq<char>)
    ensures
        profile_removal(profiles, name).len() == 2 * profiles.len(),
    decreases profiles.len(),
{
    if profiles.len() > 0 {
        lemma_profile_removal_len(profiles.drop_last(), name);
    }
}

/// On Linux, behind the store of the system, the certificate goes into the
/// database of the user, where the user has a home, which is made where it is
/// not there, and then into that of every browser profile, in their order,
/// where there is the tool for that; nothing else is done.
pub proof fn law_databases_get_the_certificate(
    facts: TrustFacts,
    name: Seq<char>,
    cert: Seq<char>,
    profiles: Seq<Seq<char>>,
    i: int,
)
    requires
        facts.os == Os::Linux,
        facts.store is Some,
        facts.certutil,
        facts.profiles matches Ok(found) && profiles == texts(found@),
    ensures
        ({
            let steps = install_plan(facts, name, cert);
            let first: int = if facts.nss_dir is None {
                3
            } else if facts.nss_filled {
                7
            } else {
                8
            };
            &&& facts.nss_dir matches Some(dir) ==> {
                &&& steps[3] == TrustStepModel::CreateDir(dir@)
                &&& !facts.nss_filled ==> steps[4] == TrustStepModel::Run(
                    CommandModel {
                        program: "certutil"@,
                        args: seq!["-d"@, "sql:"@ + dir@, "-N"@, "--empty-password"@],
                    },
                )
                &&& imports_at(steps, first - 3, dir@, name, cert)
            }
            &&& 0 <= i < profiles.len() ==> imports_at(
                steps,
                first + 3 * i,
                profiles[i],
                name,
                cert,
            )
            &&& steps.len() == first + 3 * profiles.len()
        }),
{
    let steps = install_plan(facts, name, cert);
    let own = own_import(facts, name, cert);
    let rest = profile_import(profiles, name, cert);
    lemma_profile_import_len(profiles, name, cert);
    assert(nss_import(facts, name, cert) == own + rest);
    let first: int = if facts.nss_dir is None {
        3
    } else if facts.nss_filled {
        7
    } else {
        8
    };
    assert(own.len() == first - 3);
    if let Some(dir) = facts.nss_dir {
        assert(steps.subrange(first - 3, first) =~= import_steps(dir@, name, cert));
    }
    if 0 <= i < profiles.len() {
        lemma_profile_import(profiles, name, cert, i);
        assert(steps.subrange(first + 3 * i, first + 3 * i + 3) =~= rest.subrange(
            3 * i,
            3 * i + 3,
        ));
    }
}

/// On Linux the certificate is taken out of the database of the user, where it
/// is there, and of that of every browser profile, in their order, where there
/// is the tool for that, whether or not it is in them; nothing else is done
/// behind the store of the system.
pub proof fn law_databases_lose_the_certificate(
    facts: TrustFacts,
    name: Seq<char>,
    profiles: Seq<Seq<char>>,
    i: int,
)
    requires
        facts.os == Os::Linux,
        facts.certutil,
        facts.profiles matches Ok(found) && profiles == texts(found@),
    ensures
        ({
            let steps = removal_plan(facts, name);
            let store: int = if facts.store is Some {
                2
            } else {
                0
            };
            let own: int = if facts.nss_dir is Some && facts.nss_present {
                2
            } else {
                0
            };
            &&& facts.nss_present ==> (facts.nss_dir matches Some(dir) ==> removes_at(
                steps,
                store,
                dir@,
                name,
            ))
            &&& 0 <= i < profiles.len() ==> removes_at(
                steps,
                store + own + 2 * i,
                profiles[i],
                name,
            )
            &&& steps.len() == store + own + 2 * profiles.len()
        }),
{
    let steps = removal_plan(facts, name);
    let own = own_removal(facts, name);
    let rest = profile_removal(profiles, name);
    let s = store_removal(facts).len() as int;
    lemma_profile_removal_len(profiles, name);
    assert(nss_removal(facts, name) == own + rest);
    if facts.nss_present && facts.nss_dir is Some {
        assert(steps.subrange(s, s + 2) =~= removal_steps(facts.nss_dir->0@, name));
    }
    let at = s + own.len();
    if 0 <= i < profiles.len() {
        lemma_profile_removal(profiles, name, i);
        assert(steps.subrange(at + 2 * i, at + 2 * i + 2) =~= rest.subrange(2 * i, 2 * i + 2));
    }
}

/// Without the tool for them the databases are left alone; that of the user
/// still gets its directory when a certificate is installed. Where the browser
/// profiles cannot be found, both plans fail with the reason.
pub proof fn law_without_the_tool(facts: TrustFacts, name: Seq<char>, cert: Seq<char>)
    requires
        facts.os == Os::Linux,
        facts.store is Some,
    ensures
        !facts.certutil && facts.profiles is Ok && facts.nss_dir is Some ==> install_plan(
            facts,
            name,
            cert,
        ).len() == 4 && install_plan(facts, name, cert)[3] == TrustStepModel::CreateDir(
            facts.nss_dir->0@,
        ),
        !facts.certutil && facts.profiles is Ok && facts.nss_dir is None ==> install_plan(
            facts,
            name,
            cert,
        ).len() == 3,
        !facts.certutil && facts.profiles is Ok ==> removal_plan(facts, name).len() == 2,
        facts.profiles matches Err(why) ==> install_plan(facts, name, cert).last()
            == TrustStepModel::Fail(why@) && removal_plan(facts, name).last()
            == TrustStepModel::Fail(why@),
{
}

// ---------------------------------------------------------------------------
// Going through a plan
// ---------------------------------------------------------------------------

/// The steps of a plan are taken one after another for as long as none fails
/// that may not; a command that is only attempted may. The plan fails with the
/// first failure, or at a step that says so.
pub proof fn law_plan_is_taken_in_order(
    plan: Seq<TrustStepModel>,
    outcomes: Seq<Option<Seq<char>>>,
)
    requires
        outcomes.len() <= plan.len(),
    ensures
        ({
            let n = outcomes.len() as int;
            let failed = n > 0 && outcomes[n - 1] is Some && !(plan[n - 1] is Attempt);
            &&& failed ==> next_in(plan, outcomes) == PlanNextModel::Failed(outcomes[n - 1]->0)
            &&& !failed && n < plan.len() ==> match plan[n] {
                TrustStepModel::Fail(e) => next_in(plan, outcomes) == PlanNextModel::Failed(e),
                step => next_in(plan, outcomes) == PlanNextModel::Take(step),
            }
            &&& !failed && n == plan.len() ==> next_in(plan, outcomes) is Done
        }),
{
}

/// Only the failure of a command that is attempted is none of the plan.
pub proof fn law_failures_of_steps(step: TrustStepModel, outcome: Option<Seq<char>>)
    ensures
        step is Attempt ==> step_error(step, outcome) is None,
        !(step is Attempt) ==> step_error(step, outcome) == outcome,
{
}

/// Installing looks at the machine, takes the steps that remove an older
/// certificate, whether they succeed or not, looks again, and takes the steps
/// that install; it fails exactly where one of these does.
pub proof fn law_installing(
    facts: TrustFacts,
    after: TrustFacts,
    removals: Seq<Option<Seq<char>>>,
    installs: Seq<Option<Seq<char>>>,
    name: Seq<char>,
    cert: Seq<char>,
)
    ensures
        install_next(None, removals, Some(after), installs, name, cert) is LookBefore,
        next_in(removal_plan(facts, name), removals) matches PlanNextModel::Take(step)
            ==> install_next(Some(facts), removals, Some(after), installs, name, cert)
            == InstallNextModel::Remove(step),
        !(next_in(removal_plan(facts, name), removals) is Take) ==> {
            &&& install_next(Some(facts), removals, None, installs, name, cert) is LookAfter
            &&& next_in(install_plan(after, name, cert), installs) matches PlanNextModel::Take(step)
                ==> install_next(Some(facts), removals, Some(after), installs, name, cert)
                == InstallNextModel::Install(step)
            &&& next_in(install_plan(after, name, cert), installs) is Done ==> install_next(
                Some(facts),
                removals,
                Some(after),
                installs,
                name,
                cert,
            ) is Finished
            &&& next_in(install_plan(after, name, cert), installs) matches PlanNextModel::Failed(e)
                ==> install_next(Some(facts), removals, Some(after), installs, name, cert)
                == InstallNextModel::Failed(e)
        },
{
}

/// What is said of steps, of how they went and of what comes next is what they
/// are.
pub proof fn law_steps_as_they_are(
    steps: Seq<TrustStep>,
    outcomes: Seq<Option<String>>,
    i: int,
    command: CommandLine,
    a: String,
    b: String,
)
    ensures
        step_models(steps).len() == steps.len(),
        0 <= i < steps.len() ==> step_models(steps)[i] == steps[i]@,
        outcome_models(outcomes).len() == outcomes.len(),
        0 <= i < outcomes.len() ==> outcome_models(outcomes)[i] == opt_text(outcomes[i]),
        TrustStep::Run(command)@ == TrustStepModel::Run(command@),
        TrustStep::Attempt(command)@ == TrustStepModel::Attempt(command@),
        TrustStep::CreateDir(a)@ == TrustStepModel::CreateDir(a@),
        TrustStep::Copy(a, b)@ == TrustStepModel::Copy(a@, b@),
        TrustStep::Remove(a)@ == TrustStepModel::Remove(a@),
        TrustStep::HandOver(a)@ == TrustStepModel::HandOver(a@),
        TrustStep::Fail(a)@ == TrustStepModel::Fail(a@),
        PlanNext::Done@ == PlanNextModel::Done,
        PlanNext::Failed(a)@ == PlanNextModel::Failed(a@),
        PlanNext::Take(TrustStep::Run(command))@ == PlanNextModel::Take(
            TrustStepModel::Run(command@),
        ),
        InstallNext::Remove(TrustStep::Run(command))@ == InstallNextModel::Remove(
            TrustStepModel::Run(command@),
        ),
        InstallNext::Install(TrustStep::Run(command))@ == InstallNextModel::Install(
            TrustStepModel::Run(command@),
        ),
        InstallNext::LookBefore@ == InstallNextModel::LookBefore,
        InstallNext::LookAfter@ == InstallNextModel::LookAfter,
        InstallNext::Finished@ == InstallNextModel::Finished,
        InstallNext::Failed(a)@ == InstallNextModel::Failed(a@),
{
}

} // verus!

//! The provisioning state machine and the entry dispatcher: the install/skip
//! decision, the ordered provisioning sequence, and the entry-point launch,
//! all as plans that the unverified shell of the application carries out.

use vstd::prelude::*;

use crate::archive::spec_opt_text;
use crate::archive::spec_plan_matches;
use crate::archive::spec_unpack;
use crate::archive::unpack_bytes;
use crate::archive::ArchiveError;
use crate::archive::UnpackPlan;
use crate::assets::glob_pattern_ok;
use crate::assets::spec_glob_list;
use crate::assets::AssetBundle;
use crate::assets::AssetError;
use crate::command::Cmd;
use crate::environment::Environment;
use crate::network::download;
use crate::network::NetworkError;
use crate::network::Obtained;
use crate::network::MAX_DOWNLOAD_BYTES;
use crate::project::spec_join;
use crate::project::Project;
use crate::strutil::spec_split_clean;
use crate::strutil::split_clean;
use crate::strutil::str_eq;

verus! {

/// The two states of the provisioning machine, decided once per invocation.
#[derive(Clone, Copy, PartialEq, Eq, Structural, Debug)]
pub enum InstallState {
    /// The fingerprint is missing, unreadable or stale, or a rolling
    /// reinstall is configured: the install sequence must run.
    NeedsInstall,
    /// The fingerprint equals the running binary's identifier: skip.
    UpToDate,
}

/// The transition rule: up to date exactly when the fingerprint file held
/// the running binary's identifier and no rolling reinstall is configured.
pub open spec fn spec_install_state(
    uuid: Seq<char>,
    rolling: bool,
    fingerprint: Option<Seq<char>>,
) -> InstallState {
    if !rolling && fingerprint == Some(uuid) {
        InstallState::UpToDate
    } else {
        InstallState::NeedsInstall
    }
}

/// Law: a fingerprint equal to the current identifier, with rolling
/// reinstall unset, settles the machine on up to date — no provisioning
/// subprocess runs.
pub proof fn lemma_matching_fingerprint_skips(uuid: Seq<char>)
    ensures
        spec_install_state(uuid, false, Some(uuid)) == InstallState::UpToDate,
{
}

/// Law: a changed identifier (a newly packaged binary sharing the same
/// application version) forces the install sequence, however populated the
/// installation directory already is.
pub proof fn lemma_changed_uuid_reinstalls(
    uuid: Seq<char>,
    rolling: bool,
    found: Seq<char>,
)
    requires
        found != uuid,
    ensures
        spec_install_state(uuid, rolling, Some(found)) == InstallState::NeedsInstall,
{
}

/// Law: a configured rolling reinstall forces the install sequence on every
/// invocation, whatever the fingerprint holds.
pub proof fn lemma_rolling_reinstalls(uuid: Seq<char>, fingerprint: Option<Seq<char>>)
    ensures
        spec_install_state(uuid, true, fingerprint) == InstallState::NeedsInstall,
{
}

impl Project {
    /// Decide install-or-skip from what the fingerprint file held.
    /// A missing or unreadable file arrives as nothing found.
    pub fn install_state(&self, fingerprint: Option<&String>) -> (s: InstallState)
        ensures
            s == spec_install_state(
                self.uuid@,
                self.rolling,
                match fingerprint {
                    Some(f) => Some(f@),
                    None => None,
                },
            ),
    {
        if self.rolling {
            return InstallState::NeedsInstall;
        }
        match fingerprint {
            Some(f) => {
                if str_eq(f.as_str(), self.uuid.as_str()) {
                    InstallState::UpToDate
                } else {
                    InstallState::NeedsInstall
                }
            },
            None => InstallState::NeedsInstall,
        }
    }

    /// Where the package-manager archive comes from: the embedded bundle
    /// when it holds the archive, else the cache file the caller read.
    pub open spec fn spec_uv_source(
        &self,
        archives: &AssetBundle,
        cached: Option<Seq<u8>>,
    ) -> Option<Seq<u8>> {
        if archives.spec_read(self.spec_uv_archive_name()) is Some {
            archives.spec_read(self.spec_uv_archive_name())
        } else {
            cached
        }
    }
}

/// How the package-manager executable is made present.
pub enum UvProvision {
    /// The archive is at hand: carry out this plan inside the unpack
    /// directory.
    Unpack(UnpackPlan),
    /// Nothing local: fetch `url`, then come back through
    /// `ensure_uv_fetched`; the accepted bytes are cached at `cache_file`.
    Fetch { url: String, cache_file: String },
}

impl Project {
    /// Guarantee the package-manager executable is present: prefer the
    /// embedded archive, then the cache file, and only otherwise ask for a
    /// network fetch. A payload at hand is unpacked idempotently.
    pub fn ensure_uv(
        &self,
        archives: &AssetBundle,
        cached: Option<Vec<u8>>,
        flag_content: Option<&String>,
        unpack_dir_exists: bool,
    ) -> (r: Result<UvProvision, ArchiveError>)
        ensures
            ({
                let src = self.spec_uv_source(
                    archives,
                    match cached {
                        Some(c) => Some(c@),
                        None => None,
                    },
                );
                match src {
                    None => (r matches Ok(UvProvision::Fetch { url, cache_file })
                        && url@ == self.spec_uv_download_url() && cache_file@
                        == self.spec_uv_download_file()),
                    Some(b) => match r {
                        Ok(UvProvision::Unpack(plan)) => spec_plan_matches(
                            Ok(plan),
                            spec_unpack(b, spec_opt_text(flag_content), unpack_dir_exists),
                        ),
                        Ok(UvProvision::Fetch { .. }) => false,
                        Err(e) => spec_plan_matches(
                            Err(e),
                            spec_unpack(b, spec_opt_text(flag_content), unpack_dir_exists),
                        ),
                    },
                }
            }),
    {
        let name = self.uv_archive_name();
        let url = self.uv_download_url();
        let cache_file = self.uv_download_file();
        let got = download(archives, name.as_str(), url.as_str(), cache_file.as_str(), cached);
        let data = match got {
            Obtained::Bundled(b) => b,
            Obtained::Cached(c) => c,
            Obtained::MustFetch { url, cache_file } => {
                return Ok(UvProvision::Fetch { url, cache_file });
            },
        };
        let plan = unpack_bytes(&data, flag_content, unpack_dir_exists)?;
        Ok(UvProvision::Unpack(plan))
    }
}

/// A fetched package-manager archive, accepted and planned.
pub struct UvFetched {
    /// Where the caller writes the accepted bytes: a temporary sibling file,
    /// renamed into place.
    pub cache_file: String,
    /// The accepted bytes themselves.
    pub data: Vec<u8>,
    /// The unpack work for the unpack directory.
    pub plan: UnpackPlan,
}

/// Everything one launcher invocation can fail with.
#[derive(Debug)]
pub enum LaunchError {
    /// An asset query failed.
    Assets(AssetError),
    /// A required download failed.
    Network(NetworkError),
    /// An archive could not be planned for extraction.
    Archive(ArchiveError),
    /// The entry point could not be formed.
    Entry(EntryError),
}

/// Why the entry point could not be formed.
#[derive(Clone, Copy, PartialEq, Eq, Structural, Debug)]
pub enum EntryError {
    /// The configured command line does not tokenize.
    BadCommand,
    /// The configured command line holds no words at all.
    EmptyCommand,
}

impl Project {
    /// Accept a fetched package-manager archive: apply the size cap, then
    /// plan its unpacking; the bytes pass through unchanged for the caller
    /// to cache atomically.
    pub fn ensure_uv_fetched(
        &self,
        fetched: Vec<u8>,
        flag_content: Option<&String>,
        unpack_dir_exists: bool,
    ) -> (r: Result<UvFetched, LaunchError>)
        ensures
            fetched@.len() > MAX_DOWNLOAD_BYTES ==> (r matches Err(
                LaunchError::Network(NetworkError::PayloadTooLarge { size }),
            ) && size == fetched@.len()),
            fetched@.len() <= MAX_DOWNLOAD_BYTES ==> match r {
                Ok(f) => f.cache_file@ == self.spec_uv_download_file() && f.data@ == fetched@
                    && spec_plan_matches(
                    Ok(f.plan),
                    spec_unpack(fetched@, spec_opt_text(flag_content), unpack_dir_exists),
                ),
                Err(LaunchError::Archive(e)) => spec_plan_matches(
                    Err(e),
                    spec_unpack(fetched@, spec_opt_text(flag_content), unpack_dir_exists),
                ),
                Err(_) => false,
            },
    {
        let data = match crate::network::accept_download(fetched) {
            Ok(b) => b,
            Err(e) => {
                return Err(LaunchError::Network(e));
            },
        };
        let plan = match unpack_bytes(&data, flag_content, unpack_dir_exists) {
            Ok(p) => p,
            Err(e) => {
                return Err(LaunchError::Archive(e));
            },
        };
        Ok(UvFetched { cache_file: self.uv_download_file(), data, plan })
    }
}

/// What shell-style word splitting makes of a command line, or nothing for
/// erroneous input; a function of the text alone.
pub uninterp spec fn shlex_split_of(s: Seq<char>) -> Option<Seq<Seq<char>>>;

/// Relies on shlex::split: POSIX-shell-style word splitting, deterministic
/// in the text; input such as a dangling quote is rejected.
#[verifier::external_body]
fn shlex_split(s: &str) -> (r: Option<Vec<String>>)
    ensures
        (r matches Some(v) ==> shlex_split_of(s@) == Some(v.deep_view())),
        (r is None ==> shlex_split_of(s@) is None),
{
    shlex::split(s)
}

/// The single active entry variant, with defined precedence:
/// explicit command, then module, then script, then inline code, then the
/// bare interpreter as the fallback.
pub enum EntrySelection {
    /// A full command line of its own, bypassing the environment wrapper.
    Command(Seq<char>),
    /// A module run inside the environment.
    Module(Seq<char>),
    /// A script run inside the environment.
    Script(Seq<char>),
    /// A line of code run inside the environment.
    Code(Seq<char>),
    /// The bare interpreter: effectively an installer without entry points.
    Interpreter,
}

impl Project {
    /// Resolve the one active entry variant from the configured fields.
    pub open spec fn spec_entry(&self) -> EntrySelection {
        if self.entry_command@.len() > 0 {
            EntrySelection::Command(self.entry_command@)
        } else if self.entry_module@.len() > 0 {
            EntrySelection::Module(self.entry_module@)
        } else if self.entry_script@.len() > 0 {
            EntrySelection::Script(self.entry_script@)
        } else if self.entry_code@.len() > 0 {
            EntrySelection::Code(self.entry_code@)
        } else {
            EntrySelection::Interpreter
        }
    }

    /// The arguments the environment wrapper gets for a non-command entry,
    /// before the passthrough arguments.
    pub open spec fn spec_entry_wrapper_args(&self) -> Seq<Seq<char>> {
        let base = seq!["run"@, "--no-project"@, "--active"@];
        match self.spec_entry() {
            EntrySelection::Command(_) => base,
            EntrySelection::Module(m) => base + seq!["python"@, "-m"@, m],
            EntrySelection::Script(s) => base + seq!["python"@, s],
            EntrySelection::Code(c) => base + seq!["python"@, "-c"@, c],
            EntrySelection::Interpreter => base + seq!["python"@],
        }
    }

    /// Why dispatch would fail, if it would.
    pub open spec fn spec_entry_fails(&self) -> Option<EntryError> {
        match self.spec_entry() {
            EntrySelection::Command(s) => match shlex_split_of(s) {
                None => Some(EntryError::BadCommand),
                Some(t) => if t.len() == 0 {
                    Some(EntryError::EmptyCommand)
                } else {
                    None
                },
            },
            _ => None,
        }
    }

    /// Build the entry-point invocation. Wrapper variants run inside the
    /// environment through the package manager `uv`; an explicit command
    /// stands alone, shell-tokenized. All arguments the launcher received
    /// are appended verbatim, in their original order, after the
    /// entry-specific arguments.
    pub fn entry_cmd(&self, uv: &Cmd, passthrough: &Vec<String>) -> (r: Result<Cmd, EntryError>)
        ensures
            r is Err <==> self.spec_entry_fails() is Some,
            (r matches Err(e) ==> Some(e) == self.spec_entry_fails()),
            (!(self.spec_entry() is Command) ==> (r matches Ok(c) && c@.0 == uv@.0 && c@.1
                == uv@.1 + self.spec_entry_wrapper_args() + passthrough.deep_view())),
            ((self.spec_entry() is Command && r is Ok) ==> ({
                let t = shlex_split_of(self.entry_command@).unwrap();
                &&& shlex_split_of(self.entry_command@) is Some
                &&& t.len() > 0
                &&& r.unwrap()@.0 == t[0]
                &&& r.unwrap()@.1 == t.skip(1) + passthrough.deep_view()
            })),
    {
        if !self.entry_command.as_str().is_empty() {
            let tokens = match shlex_split(self.entry_command.as_str()) {
                Some(t) => t,
                None => {
                    return Err(EntryError::BadCommand);
                },
            };
            if tokens.len() == 0 {
                return Err(EntryError::EmptyCommand);
            }
            let mut c = Cmd::new(tokens[0].as_str());
            let n = tokens.len();
            let mut i: usize = 1;
            proof {
                assert(tokens.deep_view().subrange(1, 1) =~= Seq::<Seq<char>>::empty());
                assert(c@.1 =~= tokens.deep_view().subrange(1, 1));
            }
            while i < n
                invariant
                    1 <= i <= n,
                    n == tokens@.len(),
                    c@.0 == tokens.deep_view()[0],
                    c@.1 =~= tokens.deep_view().subrange(1, i as int),
                decreases n - i,
            {
                c.arg(tokens[i].as_str());
                proof {
                    assert(tokens.deep_view().subrange(1, i + 1) =~= tokens.deep_view().subrange(
                        1,
                        i as int,
                    ).push(tokens.deep_view()[i as int]));
                }
                i = i + 1;
            }
            c.extend_args(passthrough);
            proof {
                assert(tokens.deep_view().subrange(1, n as int) =~= tokens.deep_view().skip(1));
            }
            return Ok(c);
        }
        let mut c = uv.duplicate();
        c.arg("run");
        c.arg("--no-project");
        c.arg("--active");
        let ghost base_done = uv@.1 + seq!["run"@, "--no-project"@, "--active"@];
        proof {
            assert(c@.1 =~= base_done);
        }
        if !self.entry_module.as_str().is_empty() {
            c.arg("python");
            c.arg("-m");
            c.arg(self.entry_module.as_str());
            proof {
                assert(c@.1 =~= uv@.1 + self.spec_entry_wrapper_args());
            }
        } else if !self.entry_script.as_str().is_empty() {
            c.arg("python");
            c.arg(self.entry_script.as_str());
            proof {
                assert(c@.1 =~= uv@.1 + self.spec_entry_wrapper_args());
            }
        } else if !self.entry_code.as_str().is_empty() {
            c.arg("python");
            c.arg("-c");
            c.arg(self.entry_code.as_str());
            proof {
                assert(c@.1 =~= uv@.1 + self.spec_entry_wrapper_args());
            }
        } else {
            c.arg("python");
            proof {
                assert(c@.1 =~= uv@.1 + self.spec_entry_wrapper_args());
            }
        }
        c.extend_args(passthrough);
        proof {
            assert(c@.1 =~= uv@.1 + self.spec_entry_wrapper_args() + passthrough.deep_view());
        }
        Ok(c)
    }
}

impl Project {
    /// The arguments creating or refreshing the managed environment. A
    /// rolling reinstall allows reuse of an existing environment directory.
    pub open spec fn spec_venv_args(&self) -> Seq<Seq<char>> {
        let base = seq![
            "venv"@,
            self.spec_installation_dir(),
            "--python"@,
            self.python_version@,
            "--seed"@,
            "--quiet"@,
        ];
        if self.rolling {
            base.push("--allow-existing"@)
        } else {
            base
        }
    }

    /// The arguments installing the accelerated-compute backend, which runs
    /// before other installs so nothing pulls a default variant first.
    pub open spec fn spec_torch_args(&self) -> Seq<Seq<char>> {
        seq!["pip"@, "install"@, "torch=="@ + self.torch_version@, "--preview"@]
    }

    /// The bundled installable files: wheels, then source archives, each in
    /// lexical path order.
    pub open spec fn spec_wheel_entries(&self, wheels: Seq<(Seq<char>, Seq<u8>)>) -> Seq<
        (Seq<char>, Seq<u8>),
    > {
        spec_glob_list(wheels, "*.whl"@) + spec_glob_list(wheels, "*.tar.gz"@)
    }

    /// The files staged into the scratch directory before the one combined
    /// install call: every bundled installable, and the materialized
    /// requirements text when one is configured.
    pub open spec fn spec_staged_files(
        &self,
        wheels: Seq<(Seq<char>, Seq<u8>)>,
        staging: Seq<char>,
    ) -> Seq<(Seq<char>, Seq<u8>)> {
        let staged = self.spec_wheel_entries(wheels).map_values(
            |p: (Seq<char>, Seq<u8>)| (spec_join(staging, p.0), p.1),
        );
        if self.reqtxt@.len() > 0 {
            staged.push(
                (spec_join(staging, "requirements.txt"@), vstd::utf8::encode_utf8(self.reqtxt@)),
            )
        } else {
            staged
        }
    }

    /// The arguments of the one combined install call: the staged files,
    /// the configured package specifiers, and the requirements file.
    pub open spec fn spec_install_args(
        &self,
        wheels: Seq<(Seq<char>, Seq<u8>)>,
        staging: Seq<char>,
    ) -> Seq<Seq<char>> {
        let base = seq!["pip"@, "install"@, "--upgrade"@, "pip"@] + self.spec_wheel_entries(
            wheels,
        ).map_values(|p: (Seq<char>, Seq<u8>)| spec_join(staging, p.0)) + spec_split_clean(
            self.pypi@,
            ':',
        );
        if self.reqtxt@.len() > 0 {
            base + seq!["-r"@, spec_join(staging, "requirements.txt"@)]
        } else {
            base
        }
    }

    /// The ordered provisioning sequence: environment creation, then the
    /// optional accelerated backend, then the one combined install call.
    pub open spec fn spec_install_commands(
        &self,
        wheels: Seq<(Seq<char>, Seq<u8>)>,
        uv: (Seq<char>, Seq<Seq<char>>),
        staging: Seq<char>,
    ) -> Seq<(Seq<char>, Seq<Seq<char>>)> {
        let venv = (uv.0, uv.1 + self.spec_venv_args());
        let install = (uv.0, uv.1 + self.spec_install_args(wheels, staging));
        if self.torch_version@.len() > 0 {
            seq![venv, (uv.0, uv.1 + self.spec_torch_args()), install]
        } else {
            seq![venv, install]
        }
    }
}

/// The work one provisioning decision plans: subprocess calls in strict
/// order, files staged beforehand, and the fingerprint written only after
/// every call succeeded.
pub struct InstallPlan {
    /// The provisioning subprocess calls, in the order they must run;
    /// a failure aborts the sequence and leaves the fingerprint unwritten.
    pub commands: Vec<Cmd>,
    /// Files written to the scratch directory before the install call runs.
    pub stage_files: Vec<(String, Vec<u8>)>,
    /// The fingerprint file and its content, written only on full success.
    pub fingerprint: Option<(String, String)>,
}

impl Project {
    /// Plan the install sequence for the decided state: nothing at all when
    /// up to date, else environment creation, the optional backend install,
    /// and one combined install call over the staged files, the configured
    /// packages and the requirements text, with the fingerprint committed
    /// last.
    pub fn install_plan(
        &self,
        wheels: &AssetBundle,
        uv: &Cmd,
        staging_dir: &str,
        state: InstallState,
    ) -> (r: Result<InstallPlan, AssetError>)
        ensures
            state is UpToDate ==> (r matches Ok(p) && p.commands@.len() == 0
                && p.stage_files@.len() == 0 && p.fingerprint is None),
            state is NeedsInstall ==> (r is Ok <==> glob_pattern_ok("*.whl"@)
                && glob_pattern_ok("*.tar.gz"@)),
            (state is NeedsInstall && r is Ok) ==> ({
                let p = r.unwrap();
                &&& p.commands.deep_view() == self.spec_install_commands(
                    wheels.spec_entries(),
                    uv@,
                    staging_dir@,
                )
                &&& p.stage_files.deep_view() == self.spec_staged_files(
                    wheels.spec_entries(),
                    staging_dir@,
                )
                &&& (p.fingerprint matches Some((path, content)) && path@
                    == self.spec_uuid_tracker_file() && content@ == self.uuid@)
            }),
            r is Err ==> r == Err::<InstallPlan, AssetError>(AssetError::BadPattern),
    {
        if matches!(state, InstallState::UpToDate) {
            return Ok(
                InstallPlan { commands: Vec::new(), stage_files: Vec::new(), fingerprint: None },
            );
        }
        let mut venv = uv.duplicate();
        venv.arg("venv");
        venv.arg_owned(self.installation_dir());
        venv.arg("--python");
        venv.arg(self.python_version.as_str());
        venv.arg("--seed");
        venv.arg("--quiet");
        if self.rolling {
            venv.arg("--allow-existing");
        }
        proof {
            assert(venv@.1 =~= uv@.1 + self.spec_venv_args());
        }

        let mut wheel_files = wheels.glob("*.whl")?;
        let mut targz_files = wheels.glob("*.tar.gz")?;
        let ghost whl_list = spec_glob_list(wheels.spec_entries(), "*.whl"@);
        let ghost targz_list = spec_glob_list(wheels.spec_entries(), "*.tar.gz"@);
        wheel_files.append(&mut targz_files);
        let ghost all_list = self.spec_wheel_entries(wheels.spec_entries());
        proof {
            assert forall|i: int| 0 <= i < wheel_files@.len() implies (
            #[trigger] wheel_files@[i]).deep_view() == all_list[i] by {
                if i < whl_list.len() {
                    assert(wheel_files@[i].deep_view() == whl_list[i]);
                } else {
                    assert(wheel_files@[i].deep_view() == targz_list[i - whl_list.len()]);
                }
            }
            assert(wheel_files.deep_view() =~= all_list);
        }

        let mut install = uv.duplicate();
        install.arg("pip");
        install.arg("install");
        install.arg("--upgrade");
        install.arg("pip");
        let ghost install_base = uv@.1 + seq!["pip"@, "install"@, "--upgrade"@, "pip"@];
        proof {
            assert(install@.1 =~= install_base);
        }

        let ghost staged_list = all_list.map_values(
            |p: (Seq<char>, Seq<u8>)| (spec_join(staging_dir@, p.0), p.1),
        );
        let ghost arg_list = all_list.map_values(
            |p: (Seq<char>, Seq<u8>)| spec_join(staging_dir@, p.0),
        );
        let mut stage_files: Vec<(String, Vec<u8>)> = Vec::new();
        let n = wheel_files.len();
        let mut i: usize = 0;
        proof {
            assert(stage_files.deep_view() =~= staged_list.take(0));
            assert(install@.1 =~= install_base + arg_list.take(0));
        }
        while i < n
            invariant
                i <= n,
                n == wheel_files@.len(),
                wheel_files.deep_view() == all_list,
                staged_list == all_list.map_values(
                    |p: (Seq<char>, Seq<u8>)| (spec_join(staging_dir@, p.0), p.1),
                ),
                arg_list == all_list.map_values(
                    |p: (Seq<char>, Seq<u8>)| spec_join(staging_dir@, p.0),
                ),
                stage_files.deep_view() =~= staged_list.take(i as int),
                install@.0 == uv@.0,
                install@.1 =~= install_base + arg_list.take(i as int),
            decreases n - i,
        {
            let target = crate::project::join_path(staging_dir, wheel_files[i].0.as_str());
            let ghost prev_stage = stage_files.deep_view();
            let target_copy = target.clone();
            let data_copy = wheel_files[i].1.clone();
            proof {
                assert(data_copy.deep_view() =~= data_copy@);
            }
            stage_files.push((target_copy, data_copy));
            install.arg_owned(target);
            proof {
                let ghost e = wheel_files@[i as int];
                assert(e.deep_view() == all_list[i as int]);
                assert(stage_files.deep_view() =~= prev_stage.push(
                    (spec_join(staging_dir@, e.0@), e.1@),
                ));
                assert(staged_list.take(i + 1) =~= staged_list.take(i as int).push(
                    staged_list[i as int],
                ));
                assert(arg_list.take(i + 1) =~= arg_list.take(i as int).push(
                    arg_list[i as int],
                ));
                assert((install_base + arg_list.take(i as int)).push(arg_list[i as int]) =~= (
                install_base + arg_list.take(i + 1)));
            }
            i = i + 1;
        }
        proof {
            assert(staged_list.take(n as int) =~= staged_list);
            assert(arg_list.take(n as int) =~= arg_list);
        }

        let packages = split_clean(self.pypi.as_str(), ':');
        install.extend_args(&packages);

        if !self.reqtxt.as_str().is_empty() {
            let target = crate::project::join_path(staging_dir, "requirements.txt");
            let ghost prev_stage = stage_files.deep_view();
            let target_copy = target.clone();
            let content = self.reqtxt.as_str().as_bytes_vec();
            proof {
                assert(content.deep_view() =~= vstd::utf8::encode_utf8(self.reqtxt@));
            }
            stage_files.push((target_copy, content));
            install.arg("-r");
            install.arg_owned(target);
            proof {
                assert(stage_files.deep_view() =~= prev_stage.push(
                    (
                        spec_join(staging_dir@, "requirements.txt"@),
                        vstd::utf8::encode_utf8(self.reqtxt@),
                    ),
                ));
                assert(install@.1 =~= install_base + arg_list + spec_split_clean(self.pypi@, ':')
                    + seq!["-r"@, spec_join(staging_dir@, "requirements.txt"@)]);
            }
        } else {
            proof {
                assert(install@.1 =~= install_base + arg_list + spec_split_clean(
                    self.pypi@,
                    ':',
                ));
            }
        }
        proof {
            assert(install@.1 =~= uv@.1 + self.spec_install_args(
                wheels.spec_entries(),
                staging_dir@,
            ));
            assert(stage_files.deep_view() =~= self.spec_staged_files(
                wheels.spec_entries(),
                staging_dir@,
            ));
        }

        let mut commands: Vec<Cmd> = Vec::new();
        commands.push(venv);
        if !self.torch_version.as_str().is_empty() {
            let mut torch = uv.duplicate();
            torch.arg("pip");
            torch.arg("install");
            let mut spec = "torch==".to_owned();
            spec.append(self.torch_version.as_str());
            torch.arg_owned(spec);
            torch.arg("--preview");
            proof {
                assert(torch@.1 =~= uv@.1 + self.spec_torch_args());
            }
            commands.push(torch);
        }
        commands.push(install);
        proof {
            assert(commands.deep_view() =~= self.spec_install_commands(
                wheels.spec_entries(),
                uv@,
                staging_dir@,
            ));
        }

        Ok(
            InstallPlan {
                commands,
                stage_files,
                fingerprint: Some((self.uuid_tracker_file(), self.uuid.clone())),
            },
        )
    }
}

/// Everything one launcher invocation does, decided up front: the
/// provisioning sequence (possibly empty) and the entry invocation that
/// follows it. The caller runs the install commands in order, aborts the
/// whole sequence on any failure, writes the fingerprint only on full
/// success, and finally spawns the entry and mirrors its exit status.
pub struct LaunchPlan {
    /// The provisioning work, empty when the environment is up to date.
    pub install: InstallPlan,
    /// The entry-point invocation, run after provisioning.
    pub entry: Cmd,
}

/// One launcher invocation, planned end to end. The variable table gets the
/// process contract for the delegated package manager: the executable path,
/// the managed-runtime install directory, the active environment, the
/// package cache, and the flags keeping it off the system interpreter and
/// ambient project files. The provisioning sequence follows the fingerprint
/// decision, and the entry invocation carries the passthrough arguments.
pub fn run(
    project: &Project,
    env: &mut Environment,
    wheels: &AssetBundle,
    current_exe: &str,
    fingerprint: Option<&String>,
    staging_dir: &str,
    passthrough: &Vec<String>,
) -> (r: Result<LaunchPlan, LaunchError>)
    requires
        old(env).wf(),
    ensures
        final(env).wf(),
        final(env).spec_get("PYAKET"@) == Some(current_exe@),
        final(env).spec_get("UV_PYTHON_INSTALL_DIR"@) == Some(project.spec_python_install_dir()),
        final(env).spec_get("VIRTUAL_ENV"@) == Some(project.spec_installation_dir()),
        final(env).spec_get("UV_CACHE_DIR"@) == Some(project.spec_uv_cache_dir()),
        final(env).spec_get("UV_SYSTEM_PYTHON"@) == Some("false"@),
        final(env).spec_get("UV_NO_CONFIG"@) == Some("true"@),
        project.torch_version@.len() > 0 ==> final(env).spec_get("UV_TORCH_BACKEND"@) == (
        match old(env).spec_get("UV_TORCH_BACKEND"@) {
            Some(v) => Some(v),
            None => Some(project.torch_backend@),
        }),
        project.torch_version@.len() == 0 ==> final(env).spec_get("UV_TORCH_BACKEND"@) == old(
            env,
        ).spec_get("UV_TORCH_BACKEND"@),
        forall|k: Seq<char>|
            k != "PYAKET"@ && k != "UV_PYTHON_INSTALL_DIR"@ && k != "VIRTUAL_ENV"@ && k
                != "UV_CACHE_DIR"@ && k != "UV_SYSTEM_PYTHON"@ && k != "UV_NO_CONFIG"@ && k
                != "UV_TORCH_BACKEND"@ ==> final(env).spec_get(k) == old(env).spec_get(k),
        ({
            let st = spec_install_state(
                project.uuid@,
                project.rolling,
                match fingerprint {
                    Some(f) => Some(f@),
                    None => None,
                },
            );
            let globs_ok = glob_pattern_ok("*.whl"@) && glob_pattern_ok("*.tar.gz"@);
            let uvv = (current_exe@, seq!["self"@, "uv"@]);
            &&& (st is NeedsInstall && !globs_ok <==> r == Err::<LaunchPlan, LaunchError>(
                LaunchError::Assets(AssetError::BadPattern),
            ))
            &&& (((st is UpToDate || globs_ok) && project.spec_entry_fails() is Some) ==> r
                == Err::<LaunchPlan, LaunchError>(
                LaunchError::Entry(project.spec_entry_fails().unwrap()),
            ))
            &&& (r is Ok <==> (st is UpToDate || globs_ok) && project.spec_entry_fails()
                is None)
            &&& (r matches Ok(plan) ==> {
                &&& (st is UpToDate ==> plan.install.commands@.len() == 0
                    && plan.install.stage_files@.len() == 0 && plan.install.fingerprint
                    is None)
                &&& (st is NeedsInstall ==> {
                    &&& plan.install.commands.deep_view() == project.spec_install_commands(
                        wheels.spec_entries(),
                        uvv,
                        staging_dir@,
                    )
                    &&& plan.install.stage_files.deep_view() == project.spec_staged_files(
                        wheels.spec_entries(),
                        staging_dir@,
                    )
                    &&& (plan.install.fingerprint matches Some((path, content)) && path@
                        == project.spec_uuid_tracker_file() && content@ == project.uuid@)
                })
                &&& (!(project.spec_entry() is Command) ==> plan.entry@.0 == current_exe@
                    && plan.entry@.1 == seq!["self"@, "uv"@]
                    + project.spec_entry_wrapper_args() + passthrough.deep_view())
                &&& (project.spec_entry() is Command ==> ({
                    let t = shlex_split_of(project.entry_command@).unwrap();
                    &&& shlex_split_of(project.entry_command@) is Some
                    &&& t.len() > 0
                    &&& plan.entry@.0 == t[0]
                    &&& plan.entry@.1 == t.skip(1) + passthrough.deep_view()
                }))
            })
        }),
{
    proof {
        reveal_strlit("PYAKET");
        reveal_strlit("UV_PYTHON_INSTALL_DIR");
        reveal_strlit("VIRTUAL_ENV");
        reveal_strlit("UV_CACHE_DIR");
        reveal_strlit("UV_SYSTEM_PYTHON");
        reveal_strlit("UV_NO_CONFIG");
        reveal_strlit("UV_TORCH_BACKEND");
        assert("PYAKET"@.len() == 6);
        assert("UV_PYTHON_INSTALL_DIR"@.len() == 21);
        assert("VIRTUAL_ENV"@.len() == 11);
        assert("UV_CACHE_DIR"@.len() == 12);
        assert("UV_SYSTEM_PYTHON"@.len() == 16);
        assert("UV_NO_CONFIG"@.len() == 12);
        assert("UV_TORCH_BACKEND"@.len() == 16);
        assert("UV_CACHE_DIR"@ != "UV_NO_CONFIG"@) by {
            assert("UV_CACHE_DIR"@[3] != "UV_NO_CONFIG"@[3]);
        }
        assert("UV_SYSTEM_PYTHON"@ != "UV_TORCH_BACKEND"@) by {
            assert("UV_SYSTEM_PYTHON"@[3] != "UV_TORCH_BACKEND"@[3]);
        }
    }
    env.set("PYAKET", current_exe);
    let python_dir = project.python_install_dir();
    env.set("UV_PYTHON_INSTALL_DIR", python_dir.as_str());
    let install_dir = project.installation_dir();
    env.set("VIRTUAL_ENV", install_dir.as_str());
    let cache_dir = project.uv_cache_dir();
    env.set("UV_CACHE_DIR", cache_dir.as_str());
    env.set("UV_SYSTEM_PYTHON", "false");
    env.set("UV_NO_CONFIG", "true");
    if !project.torch_version.as_str().is_empty() {
        env.setdefault("UV_TORCH_BACKEND", project.torch_backend.as_str());
    }
    let uv_cmd = crate::command::uv(current_exe);
    let state = project.install_state(fingerprint);
    let install = match project.install_plan(wheels, &uv_cmd, staging_dir, state) {
        Ok(p) => p,
        Err(e) => {
            return Err(LaunchError::Assets(e));
        },
    };
    let entry = match project.entry_cmd(&uv_cmd, passthrough) {
        Ok(c) => c,
        Err(e) => {
            return Err(LaunchError::Entry(e));
        },
    };
    Ok(LaunchPlan { install, entry })
}

/// Law: when both a command and a module are configured, dispatch selects
/// the command variant exclusively — no module-based invocation occurs.
pub proof fn lemma_command_beats_module(p: Project)
    requires
        p.entry_command@.len() > 0,
    ensures
        p.spec_entry() == EntrySelection::Command(p.entry_command@),
        !(p.spec_entry() is Module),
{
}

} // verus!

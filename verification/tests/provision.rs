use pyaket::assets::AssetBundle;
use pyaket::command::uv;
use pyaket::command::rustup;
use pyaket::environment::Environment;
use pyaket::network::accept_download;
use pyaket::network::download;
use pyaket::network::must_exist;
use pyaket::network::NetworkError;
use pyaket::network::Obtained;
use pyaket::network::MAX_DOWNLOAD_BYTES;
use pyaket::project::Project;
use pyaket::project::PyaketApplication;
use pyaket::project::PyaketDirectories;
use pyaket::project::PyaketEntry;
use pyaket::project::PyaketPython;
use pyaket::project::PyaketTorch;
use pyaket::runtime::run;
use pyaket::runtime::EntryError;
use pyaket::runtime::InstallState;
use pyaket::runtime::LaunchError;
use pyaket::runtime::UvProvision;
use pyaket::archive::UnpackPayload;
use pyaket::archive::UnpackPlan;

fn sample_project() -> Project {
    Project::from_parts(
        "/ws".to_string(),
        PyaketApplication {
            name: "MyApp".to_string(),
            author: "Acme".to_string(),
            version: "1.0.0".to_string(),
            about: "demo".to_string(),
            wheels: String::new(),
            pypi: String::new(),
            reqtxt: String::new(),
            rolling: false,
            keep_open: false,
        },
        PyaketDirectories { common: "Pyaket".to_string(), versions: "Versions".to_string() },
        PyaketPython { version: "3.13".to_string() },
        PyaketTorch { version: String::new(), backend: "auto".to_string() },
        PyaketEntry {
            module: String::new(),
            script: String::new(),
            code: String::new(),
            command: String::new(),
        },
        "0.6.13".to_string(),
        "0123-4567-89ab".to_string(),
        "x86_64-unknown-linux-gnu".to_string(),
    )
}

#[test]
fn vendor_falls_back_to_the_name() {
    let mut app = PyaketApplication {
        name: "MyApp".to_string(),
        author: String::new(),
        version: "1.0.0".to_string(),
        about: String::new(),
        wheels: String::new(),
        pypi: String::new(),
        reqtxt: String::new(),
        rolling: false,
        keep_open: false,
    };
    assert_eq!(app.vendor(), "MyApp");
    app.author = "Acme".to_string();
    assert_eq!(app.vendor(), "Acme");
}

#[test]
fn workspace_paths_are_joined_in_order() {
    let p = sample_project();
    assert_eq!(p.workspace_common(), "/ws/Pyaket");
    assert_eq!(p.astral_dir(), "/ws/Pyaket/Astral");
    assert_eq!(p.uv_cache_dir(), "/ws/Pyaket/Cache");
    assert_eq!(p.python_install_dir(), "/ws/Pyaket/Python");
    assert_eq!(p.installation_dir(), "/ws/Pyaket/Versions/1.0.0");
    assert_eq!(p.uuid_tracker_file(), "/ws/Pyaket/Versions/1.0.0/MyApp.uuid");
}

#[test]
fn distribution_names_follow_the_triple() {
    let mut p = sample_project();
    assert_eq!(p.uv_archive_stem(), "uv-x86_64-unknown-linux-gnu");
    assert_eq!(p.uv_archive_name(), "uv-x86_64-unknown-linux-gnu.tar.gz");
    assert_eq!(
        p.uv_download_url(),
        "https://github.com/astral-sh/uv/releases/download/0.6.13/uv-x86_64-unknown-linux-gnu.tar.gz"
    );
    assert_eq!(
        p.uv_download_file(),
        "/ws/Pyaket/Astral/0.6.13/uv-x86_64-unknown-linux-gnu.tar.gz"
    );
    p.triple = "x86_64-pc-windows-gnu".to_string();
    assert_eq!(p.uv_archive_stem(), "uv-x86_64-pc-windows-msvc");
    assert_eq!(p.uv_archive_name(), "uv-x86_64-pc-windows-msvc.zip");
}

#[test]
fn fingerprint_match_skips_provisioning() {
    let p = sample_project();
    let fingerprint = "0123-4567-89ab".to_string();
    assert_eq!(p.install_state(Some(&fingerprint)), InstallState::UpToDate);
}

#[test]
fn missing_or_stale_fingerprint_reinstalls() {
    let p = sample_project();
    assert_eq!(p.install_state(None), InstallState::NeedsInstall);
    let other = "another-binary".to_string();
    assert_eq!(p.install_state(Some(&other)), InstallState::NeedsInstall);
}

#[test]
fn rolling_reinstalls_despite_matching_fingerprint() {
    let mut p = sample_project();
    p.rolling = true;
    let fingerprint = "0123-4567-89ab".to_string();
    assert_eq!(p.install_state(Some(&fingerprint)), InstallState::NeedsInstall);
}

#[test]
fn bundled_payloads_win_over_cache_and_network() {
    let mut bundle = AssetBundle::new();
    bundle.insert("tool.tar.gz".to_string(), b"bundled".to_vec());
    let got = download(&bundle, "tool.tar.gz", "https://example.invalid/t", "/cache/t", Some(b"cached".to_vec()));
    assert!(matches!(got, Obtained::Bundled(b) if b == b"bundled".to_vec()));
}

#[test]
fn present_cache_means_no_network_access() {
    let bundle = AssetBundle::new();
    let got = download(&bundle, "tool.tar.gz", "https://example.invalid/t", "/cache/t", Some(b"cached".to_vec()));
    match got {
        Obtained::Cached(bytes) => assert_eq!(bytes, b"cached".to_vec()),
        _ => panic!("the cached bytes must come back unchanged, with no fetch"),
    }
}

#[test]
fn nothing_local_asks_for_one_fetch() {
    let bundle = AssetBundle::new();
    let got = download(&bundle, "tool.tar.gz", "https://example.invalid/t", "/cache/t", None);
    match got {
        Obtained::MustFetch { url, cache_file } => {
            assert_eq!(url, "https://example.invalid/t");
            assert_eq!(cache_file, "/cache/t");
        }
        _ => panic!("expected a fetch request"),
    }
}

#[test]
fn oversized_downloads_are_fatal() {
    let ok = accept_download(vec![0u8; 16]);
    assert_eq!(ok.unwrap(), vec![0u8; 16]);
    let too_big = accept_download(vec![0u8; MAX_DOWNLOAD_BYTES + 1]);
    match too_big {
        Err(NetworkError::PayloadTooLarge { size }) => assert_eq!(size, MAX_DOWNLOAD_BYTES + 1),
        _ => panic!("expected the size cap to reject the payload"),
    }
}

#[test]
fn unreachable_url_is_reported() {
    assert!(must_exist("https://example.invalid/x", true).is_ok());
    match must_exist("https://example.invalid/x", false) {
        Err(NetworkError::UnreachableUrl { url }) => {
            assert_eq!(url, "https://example.invalid/x");
        }
        _ => panic!("expected the unreachable error"),
    }
}

#[test]
fn ensure_uv_prefers_the_bundle() {
    let p = sample_project();
    let mut archives = AssetBundle::new();
    let fake_zip = vec![0x50, 0x4B, 0x03, 0x04, 0x00, 0x00];
    archives.insert("uv-x86_64-unknown-linux-gnu.tar.gz".to_string(), fake_zip.clone());
    match p.ensure_uv(&archives, None, None, false).unwrap() {
        UvProvision::Unpack(UnpackPlan::Extract { payload: UnpackPayload::Zip(b), .. }) => {
            assert_eq!(b, fake_zip);
        }
        _ => panic!("expected an unpack plan from the bundled archive"),
    }
}

#[test]
fn ensure_uv_falls_back_to_a_fetch() {
    let p = sample_project();
    let archives = AssetBundle::new();
    match p.ensure_uv(&archives, None, None, false).unwrap() {
        UvProvision::Fetch { url, cache_file } => {
            assert_eq!(url, p.uv_download_url());
            assert_eq!(cache_file, p.uv_download_file());
        }
        _ => panic!("expected a fetch request"),
    }
}

#[test]
fn command_builders_name_their_programs() {
    let c = uv("/proc/self/exe");
    assert_eq!(c.program, "/proc/self/exe");
    assert_eq!(c.args, vec!["self".to_string(), "uv".to_string()]);
    let r = rustup();
    assert_eq!(r.program, "rustup");
    assert!(r.args.is_empty());
}

#[test]
fn command_entry_wins_over_module() {
    let mut p = sample_project();
    p.entry_command = "echo hello world".to_string();
    p.entry_module = "mypkg.main".to_string();
    let base = uv("/exe");
    let entry = p.entry_cmd(&base, &vec!["--flag".to_string()]).unwrap();
    assert_eq!(entry.program, "echo");
    assert_eq!(entry.args, vec!["hello".to_string(), "world".to_string(), "--flag".to_string()]);
}

#[test]
fn module_entry_runs_inside_the_environment() {
    let mut p = sample_project();
    p.entry_module = "mypkg.main".to_string();
    let base = uv("/exe");
    let entry = p.entry_cmd(&base, &Vec::new()).unwrap();
    assert_eq!(entry.program, "/exe");
    assert_eq!(
        entry.args,
        vec!["self", "uv", "run", "--no-project", "--active", "python", "-m", "mypkg.main"]
            .into_iter()
            .map(String::from)
            .collect::<Vec<_>>()
    );
}

#[test]
fn bare_interpreter_is_the_fallback() {
    let p = sample_project();
    let base = uv("/exe");
    let entry = p.entry_cmd(&base, &Vec::new()).unwrap();
    assert_eq!(entry.program, "/exe");
    assert_eq!(
        entry.args,
        vec!["self", "uv", "run", "--no-project", "--active", "python"]
            .into_iter()
            .map(String::from)
            .collect::<Vec<_>>()
    );
}

#[test]
fn dangling_quote_in_a_command_is_rejected() {
    let mut p = sample_project();
    p.entry_command = "echo 'unclosed".to_string();
    let base = uv("/exe");
    assert_eq!(p.entry_cmd(&base, &Vec::new()).unwrap_err(), EntryError::BadCommand);
}

#[test]
fn blank_command_holds_no_words() {
    let mut p = sample_project();
    p.entry_command = "   ".to_string();
    let base = uv("/exe");
    assert_eq!(p.entry_cmd(&base, &Vec::new()).unwrap_err(), EntryError::EmptyCommand);
}

#[test]
fn install_plan_is_empty_when_up_to_date() {
    let p = sample_project();
    let wheels = AssetBundle::new();
    let base = uv("/exe");
    let plan = p.install_plan(&wheels, &base, "/tmp/stage", InstallState::UpToDate).unwrap();
    assert!(plan.commands.is_empty());
    assert!(plan.stage_files.is_empty());
    assert!(plan.fingerprint.is_none());
}

#[test]
fn install_plan_orders_the_sequence() {
    let mut p = sample_project();
    p.pypi = "numpy: pydantic==2.11.2 :".to_string();
    p.reqtxt = "requests>=2\n".to_string();
    p.torch_version = "2.6.0".to_string();
    let mut wheels = AssetBundle::new();
    wheels.insert("zz.whl".to_string(), b"z".to_vec());
    wheels.insert("aa.whl".to_string(), b"a".to_vec());
    wheels.insert("src.tar.gz".to_string(), b"s".to_vec());
    let base = uv("/exe");
    let plan = p.install_plan(&wheels, &base, "/stage", InstallState::NeedsInstall).unwrap();

    assert_eq!(plan.commands.len(), 3);
    let venv = &plan.commands[0];
    assert_eq!(venv.program, "/exe");
    assert_eq!(
        venv.args,
        vec![
            "self",
            "uv",
            "venv",
            "/ws/Pyaket/Versions/1.0.0",
            "--python",
            "3.13",
            "--seed",
            "--quiet"
        ]
        .into_iter()
        .map(String::from)
        .collect::<Vec<_>>()
    );
    let torch = &plan.commands[1];
    assert_eq!(
        torch.args,
        vec!["self", "uv", "pip", "install", "torch==2.6.0", "--preview"]
            .into_iter()
            .map(String::from)
            .collect::<Vec<_>>()
    );
    let install = &plan.commands[2];
    assert_eq!(
        install.args,
        vec![
            "self",
            "uv",
            "pip",
            "install",
            "--upgrade",
            "pip",
            "/stage/aa.whl",
            "/stage/zz.whl",
            "/stage/src.tar.gz",
            "numpy",
            "pydantic==2.11.2",
            "-r",
            "/stage/requirements.txt"
        ]
        .into_iter()
        .map(String::from)
        .collect::<Vec<_>>()
    );

    assert_eq!(plan.stage_files.len(), 4);
    assert_eq!(plan.stage_files[0].0, "/stage/aa.whl");
    assert_eq!(plan.stage_files[0].1, b"a".to_vec());
    assert_eq!(plan.stage_files[3].0, "/stage/requirements.txt");
    assert_eq!(plan.stage_files[3].1, b"requests>=2\n".to_vec());

    let (path, content) = plan.fingerprint.unwrap();
    assert_eq!(path, "/ws/Pyaket/Versions/1.0.0/MyApp.uuid");
    assert_eq!(content, "0123-4567-89ab");
}

#[test]
fn rolling_venv_allows_an_existing_environment() {
    let mut p = sample_project();
    p.rolling = true;
    let wheels = AssetBundle::new();
    let base = uv("/exe");
    let plan = p.install_plan(&wheels, &base, "/stage", InstallState::NeedsInstall).unwrap();
    let venv = &plan.commands[0];
    assert_eq!(venv.args.last().unwrap(), "--allow-existing");
}

#[test]
fn first_and_second_launch_end_to_end() {
    let p = sample_project();
    let mut entry_project = p;
    entry_project.entry_module = "mypkg.main".to_string();
    let wheels = AssetBundle::new();
    let mut env = Environment::new();

    // First run: empty installation directory, so no fingerprint was found.
    let plan = run(
        &entry_project,
        &mut env,
        &wheels,
        "/exe",
        None,
        "/stage",
        &Vec::new(),
    )
    .unwrap();
    assert_eq!(plan.install.commands.len(), 2);
    assert_eq!(plan.install.commands[0].args[2], "venv");
    assert_eq!(plan.install.commands[0].args[3], "/ws/Pyaket/Versions/1.0.0");
    assert_eq!(
        plan.install.commands[1].args,
        vec!["self", "uv", "pip", "install", "--upgrade", "pip"]
            .into_iter()
            .map(String::from)
            .collect::<Vec<_>>()
    );
    assert!(plan.install.stage_files.is_empty());
    let (path, content) = plan.install.fingerprint.clone().unwrap();
    assert_eq!(path, "/ws/Pyaket/Versions/1.0.0/MyApp.uuid");
    assert_eq!(content, "0123-4567-89ab");
    assert_eq!(plan.entry.program, "/exe");
    assert_eq!(
        plan.entry.args,
        vec!["self", "uv", "run", "--no-project", "--active", "python", "-m", "mypkg.main"]
            .into_iter()
            .map(String::from)
            .collect::<Vec<_>>()
    );

    // The environment now carries the process contract for the manager.
    assert_eq!(env.uget("VIRTUAL_ENV", ""), "/ws/Pyaket/Versions/1.0.0");
    assert_eq!(env.uget("UV_PYTHON_INSTALL_DIR", ""), "/ws/Pyaket/Python");
    assert_eq!(env.uget("UV_CACHE_DIR", ""), "/ws/Pyaket/Cache");
    assert_eq!(env.uget("UV_SYSTEM_PYTHON", ""), "false");
    assert_eq!(env.uget("UV_NO_CONFIG", ""), "true");
    assert_eq!(env.uget("PYAKET", ""), "/exe");

    // Second run: the committed fingerprint short-circuits provisioning.
    let fingerprint = content;
    let second = run(
        &entry_project,
        &mut env,
        &wheels,
        "/exe",
        Some(&fingerprint),
        "/stage",
        &Vec::new(),
    )
    .unwrap();
    assert!(second.install.commands.is_empty());
    assert!(second.install.stage_files.is_empty());
    assert!(second.install.fingerprint.is_none());
    assert_eq!(second.entry.args, plan.entry.args);
}

#[test]
fn run_reports_entry_errors() {
    let mut p = sample_project();
    p.entry_command = "echo 'unclosed".to_string();
    let wheels = AssetBundle::new();
    let mut env = Environment::new();
    match run(&p, &mut env, &wheels, "/exe", None, "/stage", &Vec::new()) {
        Err(LaunchError::Entry(EntryError::BadCommand)) => {}
        _ => panic!("expected the entry error to surface"),
    }
}

#[test]
fn rolling_runs_the_full_sequence_every_time() {
    let mut p = sample_project();
    p.rolling = true;
    let wheels = AssetBundle::new();
    let mut env = Environment::new();
    let fingerprint = "0123-4567-89ab".to_string();
    let plan = run(&p, &mut env, &wheels, "/exe", Some(&fingerprint), "/stage", &Vec::new())
        .unwrap();
    assert_eq!(plan.install.commands.len(), 2);
    assert_eq!(plan.install.commands[0].args.last().unwrap(), "--allow-existing");
    assert!(plan.install.fingerprint.is_some());
}

#[test]
fn fetched_archives_are_capped_then_planned() {
    let p = sample_project();
    let fake_zip = vec![0x50u8, 0x4B, 0x03, 0x04, 0x00, 0x00];
    let accepted = p.ensure_uv_fetched(fake_zip.clone(), None, false).unwrap();
    assert_eq!(accepted.cache_file, p.uv_download_file());
    assert_eq!(accepted.data, fake_zip);
    assert!(matches!(accepted.plan, UnpackPlan::Extract { .. }));
    let oversized = vec![0u8; MAX_DOWNLOAD_BYTES + 1];
    match p.ensure_uv_fetched(oversized, None, false) {
        Err(LaunchError::Network(NetworkError::PayloadTooLarge { size })) => {
            assert_eq!(size, MAX_DOWNLOAD_BYTES + 1);
        }
        _ => panic!("expected the size cap to reject the payload"),
    }
}

use rubox::config::{ModelParams, ModelProfiles, ModelRegistry, RuboxConfig};
use rubox::prompts::{is_expired, prompt_name, prompt_names, sanitize_filename, PromptManager};
use rubox::selection::{append_model_result, available_models, parse_model_selection, unique_sorted};
use rubox::supervisor::startup_progress;
use rubox::supervisor::{
    launch_args, profile_key, resolve_model_path, server_port, ServerManager, SupervisorAction as A,
    SupervisorEvent as E, SupervisorState as S,
};

#[test]
fn ensure_twice_with_listening_server_spawns_nothing() {
    let mut m = ServerManager::new();
    let mut actions = Vec::new();
    for _ in 0..2 {
        actions.push(m.step(E::EnsureRequested));
        actions.push(m.step(E::Probed(true)));
    }
    assert_eq!(actions, vec![A::ProbePort, A::Ready, A::ProbePort, A::Ready]);
    assert_eq!(m.state, S::External);
    assert!(!m.owns_process());
}

#[test]
fn full_start_protocol() {
    let mut m = ServerManager::new();
    assert_eq!(m.step(E::EnsureRequested), A::ProbePort);
    assert_eq!(m.step(E::Probed(false)), A::Spawn);
    assert_eq!(m.step(E::Spawned(true)), A::Poll);
    assert!(m.owns_process());
    assert_eq!(m.step(E::Polled { waited_ms: 200, port_open: false }), A::Poll);
    assert_eq!(m.step(E::Polled { waited_ms: 400, port_open: true }), A::HealthProbe);
    assert_eq!(m.step(E::HealthChecked(false)), A::Poll);
    assert_eq!(m.step(E::Polled { waited_ms: 600, port_open: true }), A::HealthProbe);
    assert_eq!(m.step(E::HealthChecked(true)), A::Grace);
    assert_eq!(m.step(E::GraceElapsed), A::Ready);
    assert_eq!(m.state, S::Running);
    assert_eq!(m.step(E::EnsureRequested), A::ProbePort);
    assert_eq!(m.step(E::Probed(true)), A::Ready);
    assert_eq!(m.state, S::Running);
}

#[test]
fn model_switch_stops_then_starts() {
    let mut m = ServerManager { state: S::Running };
    assert_eq!(m.stop(), A::Kill);
    assert_eq!(m.state, S::NotRunning);
    assert_eq!(m.stop(), A::Nothing);
    assert_eq!(m.step(E::EnsureRequested), A::ProbePort);
    assert_eq!(m.step(E::Probed(false)), A::Spawn);
}

#[test]
fn dead_owned_server_is_replaced() {
    let mut m = ServerManager { state: S::Running };
    m.step(E::EnsureRequested);
    assert_eq!(m.step(E::Probed(false)), A::KillAndSpawn);
}

#[test]
fn launch_failure_and_timeout() {
    let mut m = ServerManager::new();
    m.step(E::EnsureRequested);
    m.step(E::Probed(false));
    assert_eq!(m.step(E::Spawned(false)), A::LaunchFailed);
    assert_eq!(m.state, S::NotRunning);
    m.step(E::EnsureRequested);
    m.step(E::Probed(false));
    m.step(E::Spawned(true));
    assert_eq!(m.step(E::Polled { waited_ms: 180_000, port_open: false }), A::Poll);
    assert_eq!(m.step(E::Polled { waited_ms: 180_001, port_open: false }), A::TimedOut);
    assert_eq!(m.state, S::NotRunning);
    assert!(!m.owns_process());
}

#[test]
fn out_of_order_events_are_ignored() {
    let mut m = ServerManager::new();
    assert_eq!(m.step(E::GraceElapsed), A::Ignored);
    m.step(E::EnsureRequested);
    assert_eq!(m.step(E::StopRequested), A::Ignored);
    assert_eq!(m.state, S::Probing { owned: false });
}

#[test]
fn stop_during_start_kills_held_process() {
    let mut m = ServerManager::new();
    m.step(E::EnsureRequested);
    m.step(E::Probed(false));
    assert_eq!(m.stop(), A::Ignored);
    assert_eq!(m.state, S::Starting);
    m.step(E::Spawned(true));
    assert!(m.owns_process());
    assert_eq!(m.stop(), A::Kill);
    assert_eq!(m.state, S::NotRunning);
    assert!(!m.owns_process());
    assert_eq!(m.stop(), A::Nothing);
}

#[test]
fn port_from_api_url() {
    assert_eq!(server_port("http://127.0.0.1:8081/v1"), 8081);
    assert_eq!(server_port("http://localhost:9000"), 9000);
    assert_eq!(server_port("http://localhost/v1"), 8081);
    assert_eq!(server_port("http://h:70000/v1"), 8081);
    assert_eq!(server_port("http://h:12ab/v1"), 8081);
}

#[test]
fn model_path_and_profile() {
    let config = RuboxConfig::default_internal();
    assert_eq!(resolve_model_path(&config, Some("gemma")), "models/google_gemma-3-4b-it-Q8_0.gguf");
    assert_eq!(resolve_model_path(&config, Some("unknown")), config.models.default);
    assert_eq!(resolve_model_path(&config, Some("models/x.gguf")), "models/x.gguf");
    assert_eq!(resolve_model_path(&config, None), config.models.default);
    assert_eq!(profile_key(&config, Some("lfm")), "lfm");
    assert_eq!(profile_key(&config, Some("google_gemma-3-4b-it-Q8_0.gguf")), "gemma");
    assert_eq!(profile_key(&config, Some("other.gguf")), "qwen3-vl");
    assert_eq!(profile_key(&config, None), "qwen3-vl");
}

#[test]
fn launch_arguments() {
    let config = RuboxConfig::default_internal();
    let p = config.get_model_params("qwen3-vl");
    let args = launch_args("models/a.gguf", &p, 8081, false);
    assert_eq!(
        args,
        vec![
            "--model", "models/a.gguf", "--ctx-size", "8192", "--port", "8081", "--n-gpu-layers", "35",
            "--parallel", "4", "--batch-size", "512", "--ubatch-size", "256", "--log-disable"
        ]
    );
    let with = launch_args("models/a.gguf", &p, 8081, true);
    assert_eq!(with.len(), 17);
    assert_eq!(with[15], "--mmproj");
    assert_eq!(with[16], "models/mmproj-Qwen3VL-8B-Instruct-F16.gguf");
    let neg = ModelParams { batch_size: 1, ubatch_size: 2, gpu_layers: -1, context_window: 3, mmproj: None };
    assert_eq!(launch_args("m", &neg, 1, true)[7], "-1");
}

#[test]
fn model_params_fallback() {
    let config = RuboxConfig::default_internal();
    let g = config.get_model_params("gemma");
    assert_eq!((g.batch_size, g.ubatch_size, g.gpu_layers, g.context_window), (1024, 512, 45, 8192));
    let f = config.get_model_params("nope");
    assert_eq!((f.batch_size, f.ubatch_size, f.gpu_layers, f.context_window), (512, 256, 35, 8192));
    assert!(f.mmproj.is_none());
    let profiles = ModelProfiles::default_profiles();
    assert_eq!(profiles.len(), 4);
    assert_eq!(profiles[3].name, "qwen3-128k");
    assert_eq!(profiles[3].params.context_window, 32768);
}

#[test]
fn registry_sorted_and_replacing() {
    let mut r = ModelRegistry::new();
    r.insert("zeta".to_string(), "z".to_string());
    r.insert("alpha".to_string(), "a".to_string());
    r.insert("mid".to_string(), "m".to_string());
    r.insert("alpha".to_string(), "a2".to_string());
    assert_eq!(r.names(), vec!["alpha", "mid", "zeta"]);
    assert_eq!(r.get("alpha").map(|s| s.as_str()), Some("a2"));
    assert!(r.get("beta").is_none());
    assert_eq!(r.len(), 3);
    assert_eq!(r.name_with_path_containing("z").map(|s| s.as_str()), Some("zeta"));
}

#[test]
fn prompt_names_sorted_once_each() {
    let names = prompt_names(vec![
        "b.txt".to_string(),
        "a.txt".to_string(),
        "notes.md".to_string(),
        "b.txt".to_string(),
    ]);
    assert_eq!(names, vec!["a", "b"]);
}

#[test]
fn prompts_and_file_names() {
    let pm = PromptManager::new("prompts/static".to_string());
    assert_eq!(pm.prompt_file("review"), "prompts/static/review.txt");
    assert_eq!(prompt_name("review.txt").as_deref(), Some("review"));
    assert_eq!(prompt_name("a.b.txt").as_deref(), Some("a.b"));
    assert_eq!(prompt_name(".txt"), None);
    assert_eq!(prompt_name("notes.md"), None);
    let names = prompt_names(vec!["b.txt".to_string(), "x.md".to_string(), "a.txt".to_string()]);
    assert_eq!(names, vec!["a", "b"]);
    assert_eq!(sanitize_filename("qwen:7b/q?*\"<>|\\x"), "qwen_7b_q_______x");
    assert_eq!(sanitize_filename("plain-name"), "plain-name");
}

#[test]
fn model_selection_parsing() {
    assert_eq!(parse_model_selection(" 1, 3 ,9,x,,2 \n", 4), vec![0, 2, 1]);
    assert_eq!(parse_model_selection("", 4), Vec::<usize>::new());
    assert_eq!(parse_model_selection("0", 4), Vec::<usize>::new());
    assert_eq!(parse_model_selection("4", 4), vec![3]);
    assert_eq!(unique_sorted(&vec![3, 1, 3, 0, 1]), vec![0, 1, 3]);
    assert_eq!(unique_sorted(&vec![]), Vec::<usize>::new());
}

#[test]
fn multi_model_results_and_progress() {
    let mut r = String::new();
    append_model_result(&mut r, "gemma", "one");
    assert_eq!(r, "# gemma\n\none\n");
    append_model_result(&mut r, "lfm", "two");
    assert_eq!(r, "# gemma\n\none\n\n---\n\n# lfm\n\ntwo\n");
    assert_eq!(startup_progress(0), (0, 0, "Loading Config"));
    assert_eq!(startup_progress(10), (50, 10, "Loading Model Weights"));
    assert_eq!(startup_progress(19), (95, 19, "Warming Up"));
}

#[test]
fn offered_models_merge_registry_and_files() {
    let registered = vec!["qwen3-vl".to_string(), "gemma".to_string()];
    let files = vec!["extra.gguf".to_string(), "gemma.gguf".to_string(), "notes.txt".to_string(), ".gguf".to_string()];
    assert_eq!(available_models(registered, &files), vec!["extra", "gemma", "qwen3-vl"]);
    let twice = vec!["gemma".to_string(), "gemma".to_string()];
    assert_eq!(available_models(twice, &vec!["gemma.gguf".to_string()]), vec!["gemma"]);
}

#[test]
fn scratch_file_expiry() {
    let day = 86400u64;
    assert!(is_expired(0, 3 * day + 1, 3));
    assert!(!is_expired(1, 3 * day + 1, 3));
    assert!(!is_expired(0, 10, 3));
}

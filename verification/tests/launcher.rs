//! End-to-end checks of the launcher library: endpoint classification,
//! CAS-config resolution, argument extraction, command assembly and the
//! execution state machine.

use sconectl::LauncherError;
use sconectl::args::ArgDisposition;
use sconectl::args::extract_cas_config_dir_and_volume;
use sconectl::args::split_pass_through;
use sconectl::creds::CredsCheck;
use sconectl::creds::check_creds_store;
use sconectl::creds::creds_warning_needed;
use sconectl::driver::Action;
use sconectl::driver::Event;
use sconectl::driver::Phase;
use sconectl::driver::RunOutcome;
use sconectl::driver::exit_status;
use sconectl::driver::pull_warning_needed;
use sconectl::driver::should_pull;
use sconectl::driver::step;
use sconectl::endpoint::HostEndpoint;
use sconectl::endpoint::classify_endpoint;
use sconectl::image::resolve_image;
use sconectl::invocation::Invocation;
use sconectl::invocation::endpoint_flags;
use sconectl::kube::get_kube_config_volume;
use sconectl::kube::kube_candidate;

fn v(xs: &[&str]) -> Vec<String> {
    xs.iter().map(|s| s.to_string()).collect()
}

#[test]
fn classify_absent_is_default() {
    assert!(matches!(classify_endpoint(None), HostEndpoint::Default));
}

#[test]
fn classify_unix_socket() {
    let e = classify_endpoint(Some("unix:///var/run/podman.sock"));
    assert!(matches!(e, HostEndpoint::UnixSocket(p) if p == "/var/run/podman.sock"));
}

#[test]
fn classify_tcp_endpoint() {
    let e = classify_endpoint(Some("tcp://10.0.0.5:2375"));
    assert!(matches!(e, HostEndpoint::TcpEndpoint(a) if a == "tcp://10.0.0.5:2375"));
}

#[test]
fn classify_raw_ipv4() {
    let e = classify_endpoint(Some("10.0.0.5"));
    assert!(matches!(e, HostEndpoint::RawAddress(r) if r == "10.0.0.5"));
}

#[test]
fn classify_raw_ipv4_with_port() {
    let e = classify_endpoint(Some("10.0.0.5:2375"));
    assert!(matches!(e, HostEndpoint::RawAddress(r) if r == "10.0.0.5:2375"));
}

#[test]
fn classify_rejects_bad_addresses() {
    for bad in [
        "256.0.0.1",
        "01.2.3.4",
        "1.2.3",
        "1.2.3.4.5",
        "1.2.3.4:65536",
        "1.2.3.4:",
        ":1234",
        "npipe:////./pipe/docker_engine",
        "",
    ] {
        let e = classify_endpoint(Some(bad));
        assert!(
            matches!(e, HostEndpoint::Unrecognized(_)),
            "expected Unrecognized for {bad:?}"
        );
    }
}

#[test]
fn classify_accepts_edge_addresses() {
    for good in ["0.0.0.0", "255.255.255.255", "1.2.3.4:65535", "1.2.3.4:0"] {
        let e = classify_endpoint(Some(good));
        assert!(
            matches!(e, HostEndpoint::RawAddress(_)),
            "expected RawAddress for {good:?}"
        );
    }
}

#[test]
fn normalized_endpoints_reclassify_stably() {
    // A raw address normalizes into the TCP form; every normalized value
    // then reclassifies to a class that exports it unchanged.
    let raw = classify_endpoint(Some("10.0.0.5"));
    assert!(matches!(raw, HostEndpoint::RawAddress(_)));
    let renormalized = classify_endpoint(Some("tcp://10.0.0.5"));
    assert!(matches!(renormalized, HostEndpoint::TcpEndpoint(a) if a == "tcp://10.0.0.5"));
    let fallback = classify_endpoint(Some("/var/run/docker.sock"));
    assert!(matches!(fallback, HostEndpoint::Unrecognized(_)));
}

#[test]
fn endpoint_flags_default_socket() {
    let f = endpoint_flags(&classify_endpoint(None));
    assert_eq!(f, "-v \"/var/run/docker.sock\":\"/var/run/docker.sock\"");
}

#[test]
fn endpoint_flags_unix_socket_mounts_path_and_exports_original() {
    let f = endpoint_flags(&classify_endpoint(Some("unix:///var/run/podman.sock")));
    assert_eq!(
        f,
        "-e DOCKER_HOST=\"unix:///var/run/podman.sock\" -v \"/var/run/podman.sock\":\"/var/run/podman.sock\""
    );
}

#[test]
fn endpoint_flags_raw_address_normalizes_to_tcp() {
    let f = endpoint_flags(&classify_endpoint(Some("10.0.0.5")));
    assert_eq!(f, "-e DOCKER_HOST=\"tcp://10.0.0.5\"");
}

#[test]
fn endpoint_flags_unrecognized_falls_back_to_default_socket() {
    let f = endpoint_flags(&classify_endpoint(Some("weird://x")));
    assert_eq!(
        f,
        "-e DOCKER_HOST=\"/var/run/docker.sock\" -v \"/var/run/docker.sock\":\"/var/run/docker.sock\""
    );
}

#[test]
fn cas_unset_uses_default_mount() {
    let r = extract_cas_config_dir_and_volume(v(&["sconectl", "apply"]), None).unwrap();
    assert_eq!(r.directory, None);
    assert_eq!(r.mount, "-v \"$HOME/.cas\":\"/home/nonroot/.cas\"");
    assert_eq!(r.remaining, v(&["sconectl", "apply"]));
}

#[test]
fn cas_flag_resolves_and_is_consumed() {
    let args = v(&["--cas-config", "/data/cas", "apply", "-f", "service.yaml"]);
    let r = extract_cas_config_dir_and_volume(args, None).unwrap();
    assert_eq!(r.directory.as_deref(), Some("/data/cas"));
    assert_eq!(r.mount, "-v \"/data/cas\":\"/home/nonroot/.cas\"");
    assert_eq!(r.remaining, v(&["apply", "-f", "service.yaml"]));
}

#[test]
fn cas_cli_wins_over_environment() {
    let args = v(&["sconectl", "--cas-config", "/cli/dir", "apply"]);
    let r = extract_cas_config_dir_and_volume(args, Some("/env/dir")).unwrap();
    assert_eq!(r.directory.as_deref(), Some("/cli/dir"));
    assert_eq!(r.mount, "-v \"/cli/dir\":\"/home/nonroot/.cas\"");
    assert_eq!(r.remaining, v(&["sconectl", "apply"]));
}

#[test]
fn cas_environment_used_when_no_flag() {
    let r = extract_cas_config_dir_and_volume(v(&["sconectl", "apply"]), Some("/env/dir")).unwrap();
    assert_eq!(r.directory.as_deref(), Some("/env/dir"));
    assert_eq!(r.mount, "-v \"/env/dir\":\"/home/nonroot/.cas\"");
}

#[test]
fn cas_empty_cli_value_falls_back_to_environment() {
    let args = v(&["sconectl", "--cas-config", "", "apply"]);
    let r = extract_cas_config_dir_and_volume(args, Some("/env/dir")).unwrap();
    assert_eq!(r.directory.as_deref(), Some("/env/dir"));
    assert_eq!(r.remaining, v(&["sconectl", "apply"]));
}

#[test]
fn cas_relative_cli_path_is_fatal() {
    let args = v(&["sconectl", "--cas-config", "rel/path", "apply"]);
    let r = extract_cas_config_dir_and_volume(args, None);
    assert!(matches!(r, Err(LauncherError::RelativeCasPath)));
}

#[test]
fn cas_relative_environment_path_is_fatal() {
    let r = extract_cas_config_dir_and_volume(v(&["sconectl", "apply"]), Some("rel"));
    assert!(matches!(r, Err(LauncherError::RelativeCasPath)));
}

#[test]
fn cas_flag_without_value_is_fatal() {
    let r = extract_cas_config_dir_and_volume(v(&["sconectl", "--cas-config"]), None);
    assert!(matches!(r, Err(LauncherError::MissingFlagValue)));
}

#[test]
fn arg_partition_preserves_order() {
    // The consumed tokens and the remaining tokens together are exactly
    // the input, in order.
    let args = v(&["sconectl", "a", "--cas-config", "/d", "b", "c"]);
    let r = extract_cas_config_dir_and_volume(args.clone(), None).unwrap();
    assert_eq!(r.remaining, v(&["sconectl", "a", "b", "c"]));
    let mut rebuilt = r.remaining.clone();
    rebuilt.splice(2..2, v(&["--cas-config", "/d"]));
    assert_eq!(rebuilt, args);
}

#[test]
fn split_forwards_tokens_in_order() {
    let r = split_pass_through(&v(&["sconectl", "apply", "-f", "service.yaml"])).unwrap();
    match r {
        ArgDisposition::Run(p) => {
            assert!(!p.quiet);
            assert_eq!(p.tokens, v(&["apply", "-f", "service.yaml"]));
        }
        ArgDisposition::ShowHelp => panic!("unexpected help"),
    }
}

#[test]
fn split_consumes_leading_quiet() {
    let r = split_pass_through(&v(&["sconectl", "--quiet", "apply"])).unwrap();
    match r {
        ArgDisposition::Run(p) => {
            assert!(p.quiet);
            assert_eq!(p.tokens, v(&["apply"]));
        }
        ArgDisposition::ShowHelp => panic!("unexpected help"),
    }
}

#[test]
fn split_leading_help_short_circuits() {
    let r = split_pass_through(&v(&["sconectl", "--help", "apply"])).unwrap();
    assert!(matches!(r, ArgDisposition::ShowHelp));
}

#[test]
fn split_help_not_first_is_forwarded() {
    let r = split_pass_through(&v(&["sconectl", "--quiet", "--help"])).unwrap();
    match r {
        ArgDisposition::Run(p) => assert_eq!(p.tokens, v(&["--help"])),
        ArgDisposition::ShowHelp => panic!("unexpected help"),
    }
}

#[test]
fn split_empty_tail_is_missing_command() {
    let r = split_pass_through(&v(&["sconectl"]));
    assert!(matches!(r, Err(LauncherError::MissingCommand)));
}

#[test]
fn split_quiet_alone_is_missing_command() {
    let r = split_pass_through(&v(&["sconectl", "--quiet"]));
    assert!(matches!(r, Err(LauncherError::MissingCommand)));
}

#[test]
fn kube_override_wins() {
    let c = kube_candidate(Some("/kube/conf"), Some("/home/u")).unwrap();
    assert_eq!(c, "/kube/conf");
}

#[test]
fn kube_default_under_home() {
    let c = kube_candidate(None, Some("/home/u")).unwrap();
    assert_eq!(c, "/home/u/.kube/config");
}

#[test]
fn kube_missing_home_is_fatal() {
    assert!(matches!(
        kube_candidate(None, None),
        Err(LauncherError::MissingHome)
    ));
}

#[test]
fn kube_mount_only_for_existing_file() {
    let m = get_kube_config_volume("/kube/conf", true);
    assert_eq!(
        m.as_deref(),
        Some("-v \"/kube/conf\":\"/home/nonroot/.kube/config\"")
    );
    assert_eq!(get_kube_config_volume("/kube/conf", false), None);
}

#[test]
fn image_defaults() {
    let (repo, image) = resolve_image(None, None, None);
    assert_eq!(repo, "registry.scontain.com/sconectl");
    assert_eq!(image, "registry.scontain.com/sconectl/sconecli:latest");
}

#[test]
fn image_version_precedence() {
    let (_, image) = resolve_image(None, Some("5.9.0"), Some("5.8.0"));
    assert_eq!(image, "registry.scontain.com/sconectl/sconecli:5.9.0");
    let (_, image) = resolve_image(None, None, Some("5.8.0"));
    assert_eq!(image, "registry.scontain.com/sconectl/sconecli:5.8.0");
}

#[test]
fn image_repo_override() {
    let (repo, image) = resolve_image(Some("registry.example.com/x"), None, None);
    assert_eq!(repo, "registry.example.com/x");
    assert_eq!(image, "registry.example.com/x/sconecli:latest");
}

#[test]
fn creds_store_delegation_warns() {
    let r = check_creds_store("{\"credsStore\":\"desktop\"}");
    assert!(matches!(r, CredsCheck::Delegated(s) if s == "desktop"));
}

#[test]
fn creds_store_empty_or_absent_is_clean() {
    assert!(matches!(check_creds_store("{}"), CredsCheck::Clean));
    assert!(matches!(
        check_creds_store("{\"credsStore\":\"\"}"),
        CredsCheck::Clean
    ));
    assert!(matches!(
        check_creds_store("{\"credsStore\":5}"),
        CredsCheck::Clean
    ));
}

#[test]
fn creds_store_garbled_config() {
    assert!(matches!(check_creds_store("not json"), CredsCheck::Garbled));
}

#[test]
fn creds_warning_rule() {
    assert!(creds_warning_needed(Some("desktop")));
    assert!(!creds_warning_needed(Some("")));
    assert!(!creds_warning_needed(None));
}

#[test]
fn driver_pulls_then_runs() {
    let (p, a) = step(Phase::Idle, Event::Start, false).unwrap();
    assert_eq!((p, a), (Phase::Pulling, Action::Pull));
    // A failed pull is advisory: the run follows anyway.
    let (p, a) = step(p, Event::PullFinished(1), false).unwrap();
    assert_eq!((p, a), (Phase::Running, Action::Run));
    let (p, a) = step(p, Event::RunFinished(0), false).unwrap();
    assert_eq!((p, a), (Phase::Succeeded, Action::ReportSuccess));
}

#[test]
fn driver_skips_pull_when_asked() {
    let (p, a) = step(Phase::Idle, Event::Start, true).unwrap();
    assert_eq!((p, a), (Phase::Running, Action::Run));
    let (p, a) = step(p, Event::RunFinished(3), true).unwrap();
    assert_eq!((p, a), (Phase::Failed, Action::ReportFailure));
}

#[test]
fn driver_rejects_protocol_violations() {
    assert!(step(Phase::Idle, Event::RunFinished(0), false).is_none());
    assert!(step(Phase::Succeeded, Event::Start, false).is_none());
}

#[test]
fn driver_pull_and_exit_rules() {
    assert!(should_pull(None));
    assert!(!should_pull(Some("1")));
    assert!(pull_warning_needed(1));
    assert!(!pull_warning_needed(0));
    assert_eq!(exit_status(&RunOutcome::Success), 0);
    assert_eq!(
        exit_status(&RunOutcome::Fatal(LauncherError::MissingCommand)),
        2
    );
    assert_eq!(exit_status(&RunOutcome::DownstreamFailure(7)), 1);
}

#[test]
fn command_assembly_exact() {
    let inv = Invocation {
        endpoint_flags: "-v \"/var/run/docker.sock\":\"/var/run/docker.sock\"".to_string(),
        cas_mount: "-v \"$HOME/.cas\":\"/home/nonroot/.cas\"".to_string(),
        kube_mount: None,
        cas_dir: String::new(),
        repo: "registry.scontain.com/sconectl".to_string(),
        image: "registry.scontain.com/sconectl/sconecli:latest".to_string(),
        pass_through: v(&["apply", "-f", "my file.yaml"]),
    };
    let expected = "docker run --platform linux/amd64 -e SCONE_PRODUCTION=0 -e SCONE_NO_TIME_THREAD=1 --entrypoint=\"\" --rm -v \"/var/run/docker.sock\":\"/var/run/docker.sock\" -v \"$HOME/.cas\":\"/home/nonroot/.cas\" -e SCONECTL_CAS_CONFIG=\"\" -e SCONECTL_PWD=\"$PWD\" -e SCONECTL_HOME=\"$HOME\" -e SCONECTL_REPO=\"registry.scontain.com/sconectl\" -v \"$HOME/.docker\":\"/home/nonroot/.docker\" -v \"$HOME/.scone\":\"/home/nonroot/.scone\" -v \"$PWD\":\"/wd\" -w \"/wd\" --user $(id -u):$(id -g) --group-add $(getent group docker | cut -d: -f3) registry.scontain.com/sconectl/sconecli:latest \"apply\" \"-f\" \"my file.yaml\"";
    assert_eq!(inv.to_command(), expected);
}

#[test]
fn scenario_empty_environment() {
    // No endpoint override, no CAS override, no kubeconfig: the default
    // socket is mounted, the CAS mount falls back to the default host
    // directory, and no kubeconfig fragment enters the command.
    let endpoint = classify_endpoint(None);
    assert!(matches!(endpoint, HostEndpoint::Default));
    let cas = extract_cas_config_dir_and_volume(v(&["sconectl", "apply"]), None).unwrap();
    let kube = get_kube_config_volume("/home/u/.kube/config", false);
    assert_eq!(kube, None);
    let inv = Invocation {
        endpoint_flags: endpoint_flags(&endpoint),
        cas_mount: cas.mount,
        kube_mount: kube,
        cas_dir: cas.directory.unwrap_or_default(),
        repo: "registry.scontain.com/sconectl".to_string(),
        image: "registry.scontain.com/sconectl/sconecli:latest".to_string(),
        pass_through: v(&["apply"]),
    };
    let cmd = inv.to_command();
    assert!(cmd.contains("-v \"/var/run/docker.sock\":\"/var/run/docker.sock\""));
    assert!(cmd.contains("-v \"$HOME/.cas\":\"/home/nonroot/.cas\""));
    assert!(!cmd.contains("/home/nonroot/.kube/config"));
}

#[test]
fn error_taxonomy() {
    assert!(LauncherError::MissingFlagValue.is_usage());
    assert!(LauncherError::RelativeCasPath.is_usage());
    assert!(LauncherError::MissingCommand.is_usage());
    assert!(!LauncherError::MissingHome.is_usage());
    assert!(!LauncherError::ShellNotFound.is_usage());
    assert!(!LauncherError::EngineNotFound.is_usage());
    assert!(!LauncherError::DirCreationFailed.is_usage());
}

#[test]
fn command_assembly_includes_kube_mount_when_present() {
    let inv = Invocation {
        endpoint_flags: endpoint_flags(&classify_endpoint(Some("unix:///var/run/podman.sock"))),
        cas_mount: "-v \"$HOME/.cas\":\"/home/nonroot/.cas\"".to_string(),
        kube_mount: get_kube_config_volume("/home/u/.kube/config", true),
        cas_dir: String::new(),
        repo: "r".to_string(),
        image: "r/sconecli:latest".to_string(),
        pass_through: v(&["apply"]),
    };
    let cmd = inv.to_command();
    assert!(cmd.contains("-e DOCKER_HOST=\"unix:///var/run/podman.sock\" -v \"/var/run/podman.sock\":\"/var/run/podman.sock\""));
    assert!(cmd.contains("-v \"/home/u/.kube/config\":\"/home/nonroot/.kube/config\""));
    assert!(cmd.ends_with("r/sconecli:latest \"apply\""));
}

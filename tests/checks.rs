use beeg::checks::{check_plan, version_plan, version_rows, CudaArgs, ClientMountArgs, run_check_cmd, warn_on_issues, CheckCmd, CheckReport, NvidiaFsArgs, OfedArgs, StorageTargetArgs, VersionRow};
use beeg::config::{default_transport, select_nodes, Config, Node};
use beeg::storage::{storage_plan, storage_report, StorageError};
use beeg::text::split_list;
use beeg::transport::{from_config, ssh_args, ExecOutput, Transport, TransportKind};

/// Answers by host: a fixed output for each, or a failure for unknown hosts.
struct Fake {
    answers: Vec<(String, String)>,
}

impl Transport for Fake {
    fn exec(&self, host: &str, cmd: &str) -> Result<ExecOutput, String> {
        for (h, a) in &self.answers {
            if h == host {
                let stdout = if cmd.contains("systemctl is-active beegfs-storage") {
                    "active\n".to_string()
                } else {
                    a.clone()
                };
                return Ok(ExecOutput { stdout, stderr: String::new() });
            }
        }
        Err(format!("no route to {}", host))
    }
}

fn node(name: &str, host: &str, labels: &[&str]) -> Node {
    Node { name: name.to_string(), host: host.to_string(), labels: labels.iter().map(|l| l.to_string()).collect() }
}

fn cfg() -> Config {
    Config {
        nodes: vec![node("a", "10.0.0.1", &["gpu"]), node("b", "10.0.0.2", &[]), node("c", "10.0.0.3", &["gpu"])],
        transport: default_transport(),
        ssh_user: None,
    }
}

fn row(name: &str, version: &str, ok: bool) -> VersionRow {
    VersionRow {
        node: name.to_string(),
        host: String::new(),
        version: version.to_string(),
        ok,
        stderr: String::new(),
    }
}

#[test]
fn selecting_nodes() {
    let c = cfg();
    let names = |sel: &str| select_nodes(&c, sel).iter().map(|n| n.name.clone()).collect::<Vec<_>>();
    assert_eq!(names("ALL"), vec!["a", "b", "c"]);
    assert_eq!(names("gpu"), vec!["a", "c"]);
    assert_eq!(names("10.0.0.2"), vec!["b"]);
    assert_eq!(names("c"), vec!["c"]);
    assert!(names("nope").is_empty());
}

#[test]
fn transport_choice() {
    let mut c = cfg();
    assert_eq!(default_transport(), "ssh");
    assert!(matches!(from_config(&c), TransportKind::Ssh { user: None }));
    c.ssh_user = Some("root".to_string());
    match from_config(&c) {
        TransportKind::Ssh { user } => assert_eq!(user, Some("root".to_string())),
        TransportKind::Local => panic!("expected ssh"),
    }
    c.transport = "local".to_string();
    assert!(matches!(from_config(&c), TransportKind::Local));
    let a = ssh_args(&Some("root".to_string()), "h1", "uptime");
    assert_eq!(a[6], "root@h1");
    assert_eq!(a[7], "uptime");
    assert_eq!(a[1], "BatchMode=yes");
}

#[test]
fn version_warnings() {
    let rows = vec![row("a", "535.1", true), row("b", "unknown", false), row("c", "530.2", true), row("d", "535.1", true)];
    let w = warn_on_issues("NVIDIA driver", &rows, &["unknown"]);
    assert_eq!(
        w,
        vec![
            "WARNING: NVIDIA driver missing on 1 node(s): b".to_string(),
            "WARNING: NVIDIA driver version mismatch across nodes:".to_string(),
            "  530.2: c".to_string(),
            "  535.1: a, d".to_string(),
        ]
    );
    let same = vec![row("a", "1.0", true), row("b", "LOADED", true), row("c", "1.0", true)];
    assert!(warn_on_issues("nvidia-fs", &same, &["unknown", "loaded"]).is_empty());
}

#[test]
fn version_check_through_transport() {
    let tr = Fake { answers: vec![("10.0.0.1".to_string(), "  5.9-0.5.6\n".to_string()), ("10.0.0.3".to_string(), "\n".to_string())] };
    let c = cfg();
    match run_check_cmd(&tr, &c, &CheckCmd::Ofed(OfedArgs { selector: "all".to_string() })) {
        Ok(CheckReport::Versions(rep)) => {
            assert_eq!(rep.rows.len(), 3);
            assert_eq!(rep.rows[0].version, "5.9-0.5.6");
            assert!(rep.rows[0].ok);
            assert_eq!(rep.rows[1].version, "error");
            assert_eq!(rep.rows[1].stderr, "no route to 10.0.0.2");
            assert_eq!(rep.rows[2].version, "unknown");
            assert!(!rep.rows[2].ok);
            assert_eq!(rep.warnings, vec!["WARNING: OFED/RDMA missing on 2 node(s): b, c".to_string()]);
        }
        _ => panic!("expected a version report"),
    }
    match run_check_cmd(&tr, &c, &CheckCmd::NvidiaFs(NvidiaFsArgs { selector: "gpu".to_string() })) {
        Ok(CheckReport::Versions(rep)) => assert_eq!(rep.rows.len(), 2),
        _ => panic!("expected a version report"),
    }
}

#[test]
fn splitting_target_lists() {
    assert_eq!(split_list(" 101, 102 ,,103,"), vec!["101", "102", "103"]);
    assert!(split_list("").is_empty());
}

#[test]
fn storage_target_report() {
    let listing = "TargetID     NodeID\n   101 (Good) node-a\n   102 @ node-b (Offline)\n  103(Good)\n";
    let tr = Fake { answers: vec![("10.0.0.2".to_string(), listing.to_string())] };
    let c = cfg();
    let args = StorageTargetArgs { selector: "b".to_string(), targets: "101,103,104".to_string(), timeout: 10 };
    match run_check_cmd(&tr, &c, &CheckCmd::StorageTarget(args)) {
        Ok(CheckReport::Storage(rep)) => {
            assert!(rep.service_active);
            assert_eq!(rep.rows.len(), 3);
            assert_eq!(rep.rows[0].target, "101");
            assert!(rep.rows[0].present);
            assert_eq!(rep.rows[0].state, "unknown");
            assert_eq!(rep.rows[1].state, "Good");
            assert!(!rep.rows[2].present);
            assert_eq!(rep.rows[2].state, "missing");
            assert_eq!(rep.missing_warning, Some("WARNING: missing targets: 104".to_string()));
            assert_eq!(
                rep.mismatch_warnings,
                vec!["WARNING: target state mismatch:".to_string(), "  Good: 103".to_string(), "  unknown: 101".to_string()]
            );
            assert_eq!(rep.service_warning, None);
        }
        _ => panic!("expected a storage report"),
    }
    let all = StorageTargetArgs { selector: "b".to_string(), targets: "All".to_string(), timeout: 10 };
    match run_check_cmd(&tr, &c, &CheckCmd::StorageTarget(all)) {
        Ok(CheckReport::Storage(rep)) => {
            let ids: Vec<_> = rep.rows.iter().map(|r| r.target.clone()).collect();
            assert_eq!(ids, vec!["101", "102", "103"]);
        }
        _ => panic!("expected a storage report"),
    }
}

#[test]
fn storage_target_errors() {
    let tr = Fake { answers: vec![] };
    let c = cfg();
    let args = StorageTargetArgs { selector: "gpu".to_string(), targets: "all".to_string(), timeout: 10 };
    match run_check_cmd(&tr, &c, &CheckCmd::StorageTarget(args)) {
        Err(e) => {
            assert!(matches!(e, StorageError::NotOneNode(2)));
            assert_eq!(e.message(), "selector must resolve to exactly one node (got 2)");
        }
        _ => panic!("expected a refusal"),
    }
    let args = StorageTargetArgs { selector: "a".to_string(), targets: "all".to_string(), timeout: 10 };
    match run_check_cmd(&tr, &c, &CheckCmd::StorageTarget(args)) {
        Err(StorageError::Exec(e)) => assert_eq!(e, "no route to 10.0.0.1"),
        _ => panic!("expected a transport failure"),
    }
}

#[test]
fn inventory_from_host_list() {
    let nodes = beeg::config::nodes_from_list("10.0.0.5, ,10.0.0.6 ");
    assert_eq!(nodes.len(), 2);
    assert_eq!(nodes[0].name, "node-1");
    assert_eq!(nodes[0].host, "10.0.0.5");
    assert_eq!(nodes[1].name, "node-2");
    assert_eq!(nodes[1].host, "10.0.0.6");
    assert!(nodes[1].labels.is_empty());
}

#[test]
fn version_plan_sends_query_to_each_host() {
    let c = cfg();
    let nodes = select_nodes(&c, "gpu");
    let plan = version_plan(&nodes, "uname -r");
    assert_eq!(plan, vec![("10.0.0.1".to_string(), "uname -r".to_string()), ("10.0.0.3".to_string(), "uname -r".to_string())]);
    let outs = vec![
        Ok(ExecOutput { stdout: " 12.2\n".to_string(), stderr: "w".to_string() }),
        Err("timeout".to_string()),
    ];
    let rows = version_rows(&nodes, &outs);
    assert_eq!(rows[0].node, "a");
    assert_eq!(rows[0].version, "12.2");
    assert!(rows[0].ok);
    assert_eq!(rows[0].stderr, "w");
    assert_eq!(rows[1].host, "10.0.0.3");
    assert_eq!(rows[1].version, "error");
    assert_eq!(rows[1].stderr, "timeout");
}

#[test]
fn check_plans() {
    let c = cfg();
    let cuda = CheckCmd::Cuda(CudaArgs { selector: "b".to_string() });
    match check_plan(&c, &cuda) {
        Ok(p) => {
            assert_eq!(p.len(), 1);
            assert_eq!(p[0].0, "10.0.0.2");
            assert!(p[0].1.starts_with("nvidia-smi --query-gpu=cuda_version"));
        }
        Err(_) => panic!("expected a plan"),
    }
    let st = CheckCmd::StorageTarget(StorageTargetArgs { selector: "c".to_string(), targets: "all".to_string(), timeout: 3 });
    match check_plan(&c, &st) {
        Ok(p) => {
            assert_eq!(p.len(), 2);
            assert_eq!(p[0].0, "10.0.0.3");
            assert_eq!(
                p[0].1,
                "timeout 3s sh -lc 'systemctl is-active beegfs-storage >/dev/null 2>&1 && echo active || echo inactive'"
            );
            assert!(p[1].1.starts_with("timeout 3s sh -lc 'beegfs-ctl --listtargets"));
        }
        Err(_) => panic!("expected a plan"),
    }
    let mount = CheckCmd::ClientMount(ClientMountArgs { mount: "/m".to_string(), selector: "all".to_string(), timeout: 1 });
    assert!(matches!(check_plan(&c, &mount), Ok(p) if p.is_empty()));
}

#[test]
fn storage_plan_and_report() {
    let c = cfg();
    let args = StorageTargetArgs { selector: "gpu".to_string(), targets: "all".to_string(), timeout: 10 };
    assert!(matches!(storage_plan(&c, &args), Err(StorageError::NotOneNode(2))));
    let args = StorageTargetArgs { selector: "a".to_string(), targets: "all".to_string(), timeout: 10 };
    match storage_plan(&c, &args) {
        Ok(p) => {
            assert_eq!(p.node, "a");
            assert_eq!(p.host, "10.0.0.1");
        }
        Err(_) => panic!("expected a plan"),
    }
    let rep = storage_report("a", "inactive\n", "  7(Good)\n", "all");
    assert!(!rep.service_active);
    assert_eq!(rep.rows.len(), 1);
    assert_eq!(rep.rows[0].state, "Good");
    assert_eq!(rep.service_warning, Some("WARNING: beegfs-storage service is inactive on a".to_string()));
}

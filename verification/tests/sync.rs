use std::cell::RefCell;

use cmux_beads::bd::types::Bead;
use cmux_beads::project::plan_sync;
use cmux_beads::bd::BridgeError;
use cmux_beads::host::{HostCall, HostLink};
use cmux_beads::sync::{
    apply_plan, clear_once, format_counts, resolve_or_identify, sync_once, with_workspace, CmuxHost,
    SyncOpts,
};

struct FakeCmux {
    list: String,
    identify: String,
    calls: RefCell<Vec<Vec<String>>>,
    fail_list: bool,
}

impl CmuxHost for FakeCmux {
    fn run(&self, args: &[String]) -> Result<String, String> {
        self.calls.borrow_mut().push(args.to_vec());
        if args.first().map(String::as_str) == Some("identify") {
            return Ok(self.identify.clone());
        }
        if args.first().map(String::as_str) == Some("list-status") {
            if self.fail_list {
                return Err("list-status failed".to_string());
            }
            return Ok(self.list.clone());
        }
        Ok(String::new())
    }
}

fn host() -> FakeCmux {
    FakeCmux {
        list: String::new(),
        identify: String::new(),
        calls: RefCell::new(Vec::new()),
        fail_list: false,
    }
}

fn item(id: &str, title: &str, status: &str, assignee: Option<&str>) -> Bead {
    Bead {
        id: id.to_string(),
        title: title.to_string(),
        status: status.to_string(),
        assignee: assignee.map(str::to_string),
        priority: 2,
        ..Bead::default()
    }
}

fn lab() -> Vec<Bead> {
    vec![
        item("lab-1", "Ship onboarding", "open", Some("/Users/dev")),
        item("lab-2", "Fix login timeout", "in_progress", Some("cmux:1/12")),
        item("lab-3", "Write release notes", "open", None),
        item("lab-4", "Unblock CI runner", "blocked", None),
        item("lab-5", "Migrate config", "deferred", None),
        item("lab-6", "Old cleanup", "closed", None),
    ]
}

type Loader = fn() -> Result<Vec<Bead>, BridgeError>;

fn no_beads() -> Result<Vec<Bead>, BridgeError> {
    Ok(Vec::new())
}

fn link<H: CmuxHost>(host: &H) -> HostLink<'_, H, Loader> {
    HostLink::new(host, no_beads as Loader)
}

fn share(in_progress: u32, active: u32) -> String {
    format!("{:.3}", f64::from(in_progress) / f64::from(active))
}

fn args_of(log: &[HostCall]) -> Vec<Vec<String>> {
    log.iter().map(|call| call.args.clone()).collect()
}

#[test]
fn apply_plan_writes_set_status_and_clears_stale() {
    let host = host();
    let beads = lab();
    let plan = plan_sync(&beads, &["bead:old".into()], false);
    let mut link = link(&host);
    let report = apply_plan(&mut link, "ws-1", &plan, false, &share).unwrap();
    assert_eq!(report.workspace, "ws-1");
    assert!(report.applied.iter().any(|key| key == "bead:lab-1"));
    assert_eq!(report.stale_cleared, ["bead:old"]);
    let calls = host.calls.borrow();
    assert!(calls
        .iter()
        .any(|args| args[0] == "set-status" && args.contains(&"--workspace".into())));
    assert!(calls.iter().any(
        |args| args.first().map(String::as_str) == Some("clear-status") && args[1] == "bead:old"
    ));
    assert!(!calls
        .iter()
        .any(|args| args.iter().any(|part| part.contains("/Users/"))));
}

#[test]
fn dry_run_does_not_call_host() {
    let host = host();
    let beads = lab();
    let plan = plan_sync(&beads, &[], false);
    let mut link = link(&host);
    apply_plan(&mut link, "ws-1", &plan, true, &share).unwrap();
    assert!(host.calls.borrow().is_empty());
    let log = link.calls();
    assert_eq!(log.len(), 6);
    assert_eq!(log[0].args[0], "set-status");
    assert_eq!(
        log[5].args,
        ["set-progress", "0.200", "--label", "beads 1/5 in progress", "--workspace", "ws-1"]
    );
    assert!(log.iter().all(|call| call.reply.is_none()));
}

#[test]
fn resolve_or_identify_uses_identify_when_env_missing() {
    let host = FakeCmux {
        identify: r#"{"caller":{"workspace_id":"from-identify"}}"#.into(),
        ..host()
    };
    let mut link = link(&host);
    assert_eq!(resolve_or_identify(&mut link, Some("explicit"), None).unwrap(), "explicit");
    assert!(link.calls().is_empty());
    assert_eq!(resolve_or_identify(&mut link, None, None).unwrap(), "from-identify");
    assert_eq!(link.calls().len(), 1);
    assert_eq!(link.calls()[0].args, ["identify", "--json"]);
    assert_eq!(resolve_or_identify(&mut link, None, Some("env-ws")).unwrap(), "env-ws");
    let empty = self::host();
    assert!(resolve_or_identify(&mut self::link(&empty), None, None).is_err());
}

#[test]
fn clear_removes_only_bead_keys() {
    let host = FakeCmux {
        list: "bead:lab-1=open · x\nherdr:p=1\nbead:lab-9=done\n".into(),
        ..host()
    };
    let mut link = link(&host);
    let report = clear_once(&mut link, Some("ws-1"), None, false).unwrap();
    assert_eq!(report.stale_cleared, ["bead:lab-1", "bead:lab-9"]);
    assert!(report.applied.is_empty());
    assert_eq!(
        args_of(link.calls()),
        [
            vec!["list-status", "--workspace", "ws-1"],
            vec!["clear-status", "bead:lab-1", "--workspace", "ws-1"],
            vec!["clear-status", "bead:lab-9", "--workspace", "ws-1"],
        ]
    );
    assert!(link.loads().is_empty());
    let failing = FakeCmux {
        fail_list: true,
        ..self::host()
    };
    let report = clear_once(&mut self::link(&failing), Some("ws-1"), None, false).unwrap();
    assert!(report.stale_cleared.is_empty());
}

#[test]
fn counts_and_workspace_args_format() {
    assert_eq!(format_counts(&Vec::new()), "empty");
    assert_eq!(
        format_counts(&vec![("in_progress".to_string(), 1), ("open".to_string(), 2)]),
        "in_progress=1 open=2"
    );
    assert_eq!(
        with_workspace(&vec!["list-status".to_string()], "w"),
        ["list-status", "--workspace", "w"]
    );
}

#[test]
fn real_run_sends_writes_then_clears_then_progress() {
    let host = host();
    let beads = vec![item("lab-1", "Ship onboarding", "open", None)];
    let plan = plan_sync(&beads, &["bead:old".into()], false);
    let mut link = link(&host);
    apply_plan(&mut link, "ws-1", &plan, false, &share).unwrap();
    let sent = args_of(link.calls());
    assert_eq!(sent, *host.calls.borrow());
    assert_eq!(sent.len(), 3);
    assert_eq!(sent[0][0], "set-status");
    assert_eq!(sent[0][1], "bead:lab-1");
    assert_eq!(sent[0][sent[0].len() - 2..], ["--workspace", "ws-1"]);
    assert_eq!(sent[1], ["clear-status", "bead:old", "--workspace", "ws-1"]);
    assert_eq!(
        sent[2],
        ["set-progress", "0.000", "--label", "beads 0/1 in progress", "--workspace", "ws-1"]
    );
    assert!(link.calls().iter().all(|call| matches!(call.reply, Some(Ok(_)))));
}

#[test]
fn no_progress_call_without_active_pills() {
    let host = host();
    let plan = plan_sync(&[], &["bead:old".into()], false);
    let mut link = link(&host);
    apply_plan(&mut link, "ws-1", &plan, false, &share).unwrap();
    assert_eq!(args_of(link.calls()), [vec!["clear-status", "bead:old", "--workspace", "ws-1"]]);
}

struct FailingSets;

impl CmuxHost for FailingSets {
    fn run(&self, args: &[String]) -> Result<String, String> {
        if args[0] == "set-status" {
            Err("no socket".to_string())
        } else {
            Ok(String::new())
        }
    }
}

#[test]
fn first_failing_call_ends_the_pass() {
    let beads = vec![item("lab-1", "a", "open", None), item("lab-2", "b", "open", None)];
    let plan = plan_sync(&beads, &["bead:old".into()], false);
    let mut link = link(&FailingSets);
    let err = apply_plan(&mut link, "ws-1", &plan, false, &share).unwrap_err();
    assert_eq!(err, "no socket");
    assert_eq!(link.calls().len(), 1);
    assert_eq!(link.calls()[0].reply, Some(Err("no socket".to_string())));
}

#[test]
fn sync_refuses_without_a_workspace_before_loading() {
    let host = host();
    let loaded = std::cell::Cell::new(false);
    let mut link = HostLink::new(&host, || {
        loaded.set(true);
        Ok(lab())
    });
    let result = sync_once(&mut link, &SyncOpts::default(), None, &share);
    assert!(result.unwrap_err().contains("refusing to guess a host"));
    assert!(link.loads().is_empty());
    assert_eq!(args_of(link.calls()), [vec!["identify", "--json"]]);
    drop(link);
    assert!(!loaded.get());
}

#[test]
fn dry_run_sync_only_reads_the_host() {
    let host = FakeCmux {
        fail_list: true,
        ..host()
    };
    let opts = SyncOpts {
        workspace: Some("ws-1".to_string()),
        dry_run: true,
        ..SyncOpts::default()
    };
    let mut link = HostLink::new(&host, || Ok(lab()));
    let report = sync_once(&mut link, &opts, None, &share).unwrap();
    assert!(report.dry_run);
    assert_eq!(*host.calls.borrow(), [vec!["list-status", "--workspace", "ws-1"]]);
    assert_eq!(*link.loads(), [0]);
    let log = link.calls();
    assert!(log[1..].iter().all(|call| call.reply.is_none()));
    assert_eq!(report.applied.len() + 1, log.len() - 1);
}

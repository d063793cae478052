use shepherd::encoder::{Encoder, EncoderAction, EncoderEvent, Failure};
use shepherd::manager::{Manager, ManagerAction, ManagerEvent, ManagerPhase, Remote};
use shepherd::queue::{JobQueue, Pull};
use shepherd::run::{Coordinator, HostOutcome, RunAction, RunError, RunEvent, RunPlan};

fn s(x: &str) -> String {
    x.to_string()
}

/// A fake set of hosts: every command and transfer succeeds at once unless
/// told otherwise, and everything done is written down.
struct World {
    queue: JobQueue,
    cancelled: bool,
    pulls: Vec<(String, usize)>,
    log: Vec<(String, String)>,
    fail_setup: Vec<String>,
    fail_encode: Option<String>,
    cancel_after_pulls: Option<usize>,
}

impl World {
    fn new() -> World {
        World {
            queue: JobQueue::new(),
            cancelled: false,
            pulls: Vec::new(),
            log: Vec::new(),
            fail_setup: Vec::new(),
            fail_encode: None,
            cancel_after_pulls: None,
        }
    }
}

struct Host {
    name: String,
    manager: Manager,
    next: Option<ManagerAction>,
    encoder: Encoder,
    encoder_result: Option<Result<Vec<String>, Failure>>,
    outcome: Option<Result<Vec<String>, Failure>>,
}

fn step_host(w: &mut World, h: &mut Host) {
    let action = h.next.take().unwrap();
    let ev = match action {
        ManagerAction::Remote(r) => {
            let ok = match &r {
                Remote::Exec(words) => {
                    w.log.push((h.name.clone(), format!("exec {}", words.join(" "))));
                    !(words[0] == "mkdir" && w.fail_setup.contains(&h.name))
                }
                Remote::CopyTo { local, remote_dir } => {
                    w.log.push((h.name.clone(), format!("up {} {}", local, remote_dir)));
                    true
                }
                Remote::CopyFrom { remote, local_dir } => {
                    w.log.push((h.name.clone(), format!("down {} {}", remote, local_dir)));
                    true
                }
            };
            ManagerEvent::Status(ok)
        }
        ManagerAction::Dequeue => {
            let p = w.queue.dequeue();
            if let Pull::Unit(u) = &p {
                w.pulls.push((h.name.clone(), u.ordinal));
                if Some(w.pulls.len()) == w.cancel_after_pulls {
                    w.cancelled = true;
                }
            }
            ManagerEvent::Pulled(p)
        }
        ManagerAction::HandOff(u) => {
            if h.encoder_result.is_some() {
                ManagerEvent::Accepted(false)
            } else {
                let ev = EncoderEvent::Received(Some(u));
                assert!(h.encoder.accepts(&ev));
                match h.encoder.step(ev, w.cancelled) {
                    EncoderAction::Run(cmd) => {
                        let line = cmd.join(" ");
                        let ok = match &w.fail_encode {
                            Some(name) => !line.contains(name.as_str()),
                            None => true,
                        };
                        w.log.push((h.name.clone(), format!("encode {}", line)));
                        if let EncoderAction::Return(r) = h.encoder.step(EncoderEvent::Ran(ok), w.cancelled) {
                            h.encoder_result = Some(r);
                        }
                    }
                    _ => panic!("the encoder should encode the unit it received"),
                }
                ManagerEvent::Accepted(true)
            }
        }
        ManagerAction::CloseRelay => {
            if h.encoder_result.is_none() {
                match h.encoder.step(EncoderEvent::Received(None), w.cancelled) {
                    EncoderAction::Return(r) => h.encoder_result = Some(r),
                    _ => panic!("a closed relay ends the encoder"),
                }
            }
            ManagerEvent::EncoderDone(h.encoder_result.take().unwrap())
        }
        ManagerAction::Finish(r) => {
            h.outcome = Some(r);
            return;
        }
    };
    assert!(h.manager.accepts(&ev));
    h.next = Some(h.manager.step(ev, w.cancelled));
}

/// Runs one manager and one encoder per host, a step of each host in turn,
/// until every manager has finished.
fn distribute(w: &mut World, plan: &RunPlan) -> Vec<HostOutcome> {
    let mut hosts: Vec<Host> = Vec::new();
    for name in &plan.hosts {
        let (manager, first) = Manager::start(plan.encoded_dir.clone());
        hosts.push(Host {
            name: name.clone(),
            manager,
            next: Some(first),
            encoder: Encoder::new(plan.ext.clone(), plan.options.clone()),
            encoder_result: None,
            outcome: None,
        });
    }
    while hosts.iter().any(|h| h.outcome.is_none()) {
        for h in hosts.iter_mut() {
            if h.outcome.is_none() {
                step_host(w, h);
            }
        }
    }
    for h in &hosts {
        assert_eq!(h.manager.phase(), ManagerPhase::Done);
    }
    hosts
        .into_iter()
        .map(|h| HostOutcome { host: h.name, result: h.outcome.unwrap() })
        .collect()
}

struct Trace {
    result: Result<(), RunError>,
    combines: Vec<(String, Vec<String>)>,
    teardowns: usize,
    outcomes: Vec<HostOutcome>,
}

fn drive(plan: RunPlan, chunks: Vec<String>, w: &mut World) -> Trace {
    let mut trace = Trace { result: Ok(()), combines: Vec::new(), teardowns: 0, outcomes: Vec::new() };
    let (mut c, mut action) = Coordinator::start(plan);
    loop {
        let ev = match action {
            RunAction::Extract(_) => RunEvent::Ran(true),
            RunAction::Split(_) => RunEvent::Listed(Some(chunks.clone())),
            RunAction::Distribute(q) => {
                w.queue = q;
                let outs = distribute(w, c.plan());
                for o in &outs {
                    trace.outcomes.push(HostOutcome {
                        host: o.host.clone(),
                        result: o.result.clone(),
                    });
                }
                RunEvent::HostsDone(outs)
            }
            RunAction::Combine { list, command } => {
                trace.combines.push((list, command));
                RunEvent::Ran(true)
            }
            RunAction::Teardown => {
                trace.teardowns += 1;
                RunEvent::TornDown(true)
            }
            RunAction::Finish(r) => {
                trace.result = r;
                return trace;
            }
        };
        assert!(c.accepts(&ev));
        action = c.step(ev, w.cancelled);
    }
}

fn plan(hosts: &[&str]) -> RunPlan {
    let hosts: Vec<String> = hosts.iter().map(|h| s(h)).collect();
    let options = vec![s("-c:v"), s("libx264")];
    RunPlan::new("in.mkv", "out.mp4", &options, &hosts, Some("30"), "/tmp", false).unwrap()
}

fn chunks(n: usize) -> Vec<String> {
    // Listed in an order other than the split order.
    (0..n).rev().map(|i| format!("/tmp/shepherd_tmp/chunks/chunk_{:03}.mxf", i)).collect()
}

#[test]
fn two_instant_hosts_share_six_units() {
    let mut w = World::new();
    let trace = drive(plan(&["c1", "c2"]), chunks(6), &mut w);
    assert!(trace.result.is_ok());
    let mut ordinals: Vec<usize> = w.pulls.iter().map(|p| p.1).collect();
    ordinals.sort();
    assert_eq!(ordinals, vec![0, 1, 2, 3, 4, 5]);
    assert!(w.pulls.iter().any(|p| p.0 == "c1"));
    assert!(w.pulls.iter().any(|p| p.0 == "c2"));
    let total: usize = trace.outcomes.iter().map(|o| o.result.as_ref().unwrap().len()).sum();
    assert_eq!(total, 6);
    assert_eq!(trace.combines.len(), 1);
    let expected: String = (0..6)
        .map(|i| format!("file '/tmp/shepherd_tmp/encoded/enc_chunk_{:03}.mp4'\n", i))
        .collect();
    assert_eq!(trace.combines[0].0, expected);
    assert_eq!(trace.combines[0].1[7], "/tmp/shepherd_tmp/encoded/files.txt");
    assert_eq!(trace.combines[0].1[9], "/tmp/shepherd_tmp/audio.aac");
    assert_eq!(trace.combines[0].1[14], "out.mp4");
    assert_eq!(trace.teardowns, 1);
}

#[test]
fn one_host_no_units() {
    let mut w = World::new();
    let trace = drive(plan(&["c1"]), Vec::new(), &mut w);
    assert!(trace.result.is_ok());
    assert!(w.pulls.is_empty());
    assert_eq!(trace.outcomes.len(), 1);
    assert_eq!(trace.outcomes[0].result.as_ref().unwrap().len(), 0);
    assert_eq!(trace.combines.len(), 1);
    assert_eq!(trace.combines[0].0, "");
    assert_eq!(trace.combines[0].1[9], "/tmp/shepherd_tmp/audio.aac");
    assert_eq!(trace.teardowns, 1);
}

#[test]
fn cancel_after_second_unit() {
    let mut w = World::new();
    w.cancel_after_pulls = Some(2);
    let trace = drive(plan(&["c1"]), chunks(5), &mut w);
    assert!(trace.result.is_ok());
    let ordinals: Vec<usize> = w.pulls.iter().map(|p| p.1).collect();
    assert_eq!(ordinals, vec![0, 1]);
    let done: Vec<&String> = w.log.iter().map(|l| &l.1).collect();
    assert!(done.iter().any(|l| l.starts_with("up /tmp/shepherd_tmp/chunks/chunk_001.mxf")));
    assert!(done.iter().any(|l| l.starts_with("encode ffmpeg -y -i shepherd_tmp_remote/chunk_001.mxf")));
    assert!(done.iter().any(|l| l.starts_with("down shepherd_tmp_remote/enc_chunk_001.mp4")));
    assert!(!done.iter().any(|l| l.contains("chunk_002")));
    assert!(trace.combines.is_empty());
    assert_eq!(trace.teardowns, 1);
}

#[test]
fn failed_encode_is_fatal() {
    let mut w = World::new();
    w.fail_encode = Some(s("chunk_003"));
    let trace = drive(plan(&["c1"]), chunks(5), &mut w);
    match &trace.result {
        Err(RunError::Host { host, failure }) => {
            assert_eq!(host, "c1");
            assert_eq!(*failure, Failure::Encode);
        }
        other => panic!("expected an encoding failure, got {:?}", other),
    }
    assert!(trace.combines.is_empty());
    assert_eq!(trace.teardowns, 1);
}

#[test]
fn failed_setup_on_one_host() {
    let mut w = World::new();
    w.fail_setup = vec![s("c2")];
    let trace = drive(plan(&["c1", "c2"]), chunks(4), &mut w);
    match &trace.result {
        Err(RunError::Host { host, failure }) => {
            assert_eq!(host, "c2");
            assert_eq!(*failure, Failure::Setup);
        }
        other => panic!("expected a setup failure, got {:?}", other),
    }
    // Both managers ran to their end before the run reported.
    assert_eq!(trace.outcomes.len(), 2);
    assert_eq!(trace.outcomes[0].result.as_ref().unwrap().len(), 4);
    assert!(w.pulls.iter().all(|p| p.0 == "c1"));
    assert!(trace.combines.is_empty());
    assert_eq!(trace.teardowns, 1);
}

#[test]
fn cancelled_during_setup_pulls_nothing() {
    let mut w = World::new();
    w.cancelled = true;
    let trace = drive(plan(&["c1"]), chunks(3), &mut w);
    assert!(trace.result.is_ok());
    assert!(w.pulls.is_empty());
    assert!(trace.combines.is_empty());
    assert_eq!(trace.teardowns, 1);
}

#[test]
fn keep_skips_teardown() {
    let mut w = World::new();
    let hosts = vec![s("c1")];
    let p = RunPlan::new("in.mkv", "out.mp4", &Vec::new(), &hosts, None, "/tmp", true).unwrap();
    let trace = drive(p, chunks(2), &mut w);
    assert!(trace.result.is_ok());
    assert_eq!(trace.teardowns, 0);
    assert_eq!(trace.combines.len(), 1);
}

#[test]
fn slow_host_still_gets_work() {
    // c1 only takes a step every third round; c2 every round. Both pull.
    let mut w = World::new();
    let p = plan(&["c1", "c2"]);
    let mut q = JobQueue::new();
    for i in 0..9usize {
        q.enqueue(shepherd::queue::JobUnit::new(i, format!("/c/chunk_{:03}.mxf", i)));
    }
    q.seal();
    w.queue = q;
    let mut hosts: Vec<Host> = Vec::new();
    for name in &p.hosts {
        let (manager, first) = Manager::start(p.encoded_dir.clone());
        hosts.push(Host {
            name: name.clone(),
            manager,
            next: Some(first),
            encoder: Encoder::new(p.ext.clone(), Vec::new()),
            encoder_result: None,
            outcome: None,
        });
    }
    let mut round = 0;
    while hosts.iter().any(|h| h.outcome.is_none()) {
        for (i, h) in hosts.iter_mut().enumerate() {
            if h.outcome.is_none() && (i == 1 || round % 3 == 0) {
                step_host(&mut w, h);
            }
        }
        round += 1;
    }
    let slow = w.pulls.iter().filter(|p| p.0 == "c1").count();
    let fast = w.pulls.iter().filter(|p| p.0 == "c2").count();
    assert_eq!(slow + fast, 9);
    assert!(slow >= 1);
    assert!(fast > slow);
}

#[test]
fn failed_teardown_is_not_an_error() {
    let hosts = vec![s("c1")];
    let p = RunPlan::new("in.mkv", "out.mp4", &Vec::new(), &hosts, None, "/tmp", false).unwrap();
    let (mut c, first) = Coordinator::start(p);
    assert!(matches!(first, RunAction::Extract(_)));
    assert!(matches!(c.step(RunEvent::Ran(true), false), RunAction::Split(_)));
    assert!(matches!(c.step(RunEvent::Listed(None), false), RunAction::Teardown));
    match c.step(RunEvent::TornDown(false), false) {
        RunAction::Finish(Err(RunError::Split)) => {}
        _ => panic!("the split failure is reported, not the teardown"),
    }
    let (mut d, _) = Coordinator::start(plan(&["c1"]));
    d.step(RunEvent::Ran(true), false);
    d.step(RunEvent::Listed(Some(Vec::new())), false);
    let out = vec![HostOutcome { host: s("c1"), result: Ok(Vec::new()) }];
    assert!(matches!(d.step(RunEvent::HostsDone(out), false), RunAction::Combine { .. }));
    assert!(matches!(d.step(RunEvent::Ran(true), false), RunAction::Teardown));
    assert!(matches!(d.step(RunEvent::TornDown(false), false), RunAction::Finish(Ok(()))));
}

#[test]
fn cancelled_extraction_ends_quietly() {
    let (mut c, _) = Coordinator::start(plan(&["c1"]));
    assert!(matches!(c.step(RunEvent::Ran(false), true), RunAction::Teardown));
    assert!(matches!(c.step(RunEvent::TornDown(true), true), RunAction::Finish(Ok(()))));
    let (mut d, _) = Coordinator::start(plan(&["c1"]));
    assert!(matches!(d.step(RunEvent::Ran(false), false), RunAction::Teardown));
    assert!(matches!(d.step(RunEvent::TornDown(true), false), RunAction::Finish(Err(RunError::Extract))));
}

#[test]
fn split_command_uses_plan() {
    let (mut c, first) = Coordinator::start(plan(&["c1"]));
    match first {
        RunAction::Extract(cmd) => {
            assert_eq!(cmd[3], "in.mkv");
            assert_eq!(cmd[9], "/tmp/shepherd_tmp/audio.aac");
        }
        _ => panic!("a run starts with the audio"),
    }
    match c.step(RunEvent::Ran(true), false) {
        RunAction::Split(cmd) => {
            assert_eq!(cmd[10], "30");
            assert_eq!(cmd[11], "/tmp/shepherd_tmp/chunks/chunk_%03d.mxf");
        }
        _ => panic!("then the split"),
    }
}

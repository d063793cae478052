use shepherd::encoder::{encode_command, Encoder, EncoderAction, EncoderEvent, EncoderPhase, Failure};
use shepherd::local::{
    combine, decimal, extension, extract_audio, file_list, join, parse_length, split_video,
};
use shepherd::manager::{Manager, ManagerAction, ManagerEvent, ManagerPhase, Remote};
use shepherd::naming::{base_name, encoded_name, file_stem, last_index_of, remote_path, REMOTE_DIR};
use shepherd::order::{name_le, sort_names};
use shepherd::queue::{JobQueue, JobUnit, Pull};
use shepherd::run::{aggregate, number_units, HostOutcome, RunError, RunPlan};

fn s(x: &str) -> String {
    x.to_string()
}

fn strings(xs: &[&str]) -> Vec<String> {
    xs.iter().map(|x| s(x)).collect()
}

#[test]
fn queue_hands_out_in_order_then_exhausted() {
    let mut q = JobQueue::new();
    assert!(matches!(q.dequeue(), Pull::Pending));
    q.enqueue(JobUnit::new(0, s("a")));
    q.enqueue(JobUnit::new(1, s("b")));
    q.seal();
    assert!(q.is_sealed());
    assert_eq!(q.len(), 2);
    match q.dequeue() {
        Pull::Unit(u) => assert_eq!((u.ordinal, u.path.as_str()), (0, "a")),
        _ => panic!("expected a unit"),
    }
    match q.dequeue() {
        Pull::Unit(u) => assert_eq!((u.ordinal, u.path.as_str()), (1, "b")),
        _ => panic!("expected a unit"),
    }
    assert_eq!(q.len(), 0);
    assert!(matches!(q.dequeue(), Pull::Exhausted));
    assert!(matches!(q.dequeue(), Pull::Exhausted));
}

#[test]
fn loaded_queue_is_sealed() {
    let mut q = JobQueue::loaded(vec![JobUnit::new(0, s("x"))]);
    assert!(q.is_sealed());
    assert!(matches!(q.dequeue(), Pull::Unit(_)));
    assert!(matches!(q.dequeue(), Pull::Exhausted));
    let mut empty = JobQueue::loaded(Vec::new());
    assert!(matches!(empty.dequeue(), Pull::Exhausted));
}

#[test]
fn lexical_comparison() {
    assert!(name_le("abc", "abd"));
    assert!(!name_le("abd", "abc"));
    assert!(name_le("ab", "abc"));
    assert!(!name_le("abc", "ab"));
    assert!(name_le("", ""));
    assert!(name_le("chunk_009", "chunk_010"));
    assert!(name_le("Z", "a"));
}

#[test]
fn sorting_names() {
    let v = strings(&["enc_chunk_002.mp4", "enc_chunk_000.mp4", "enc_chunk_010.mp4", "enc_chunk_001.mp4"]);
    assert_eq!(
        sort_names(v),
        strings(&["enc_chunk_000.mp4", "enc_chunk_001.mp4", "enc_chunk_002.mp4", "enc_chunk_010.mp4"])
    );
    assert_eq!(sort_names(strings(&["b", "a", "b"])), strings(&["a", "b", "b"]));
    assert_eq!(sort_names(Vec::new()), Vec::<String>::new());
}

#[test]
fn path_components() {
    assert_eq!(last_index_of("a/b/c", '/'), Some(3));
    assert_eq!(last_index_of("abc", '/'), None);
    assert_eq!(base_name("/tmp/shepherd_tmp/chunks/chunk_000.mxf"), "chunk_000.mxf");
    assert_eq!(base_name("plain"), "plain");
    assert_eq!(base_name("dir/"), "");
    assert_eq!(file_stem("chunk_000.mxf"), "chunk_000");
    assert_eq!(file_stem("a.b.c"), "a.b");
    assert_eq!(file_stem(".hidden"), ".hidden");
    assert_eq!(file_stem("noext"), "noext");
}

#[test]
fn encoded_names_and_remote_paths() {
    assert_eq!(encoded_name("/tmp/x/chunks/chunk_007.mxf", "mp4"), "enc_chunk_007.mp4");
    assert_eq!(encoded_name("chunk_1.mxf", "mkv"), "enc_chunk_1.mkv");
    assert_eq!(REMOTE_DIR, "shepherd_tmp_remote");
    assert_eq!(remote_path("enc_chunk_007.mp4"), "shepherd_tmp_remote/enc_chunk_007.mp4");
}

#[test]
fn encoding_command() {
    let cmd = encode_command("/l/chunk_003.mxf", "mp4", &strings(&["-crf", "26"]));
    assert_eq!(
        cmd,
        strings(&[
            "ffmpeg",
            "-y",
            "-i",
            "shepherd_tmp_remote/chunk_003.mxf",
            "-crf",
            "26",
            "shepherd_tmp_remote/enc_chunk_003.mp4"
        ])
    );
    let bare = encode_command("c.mxf", "mp4", &Vec::new());
    assert_eq!(bare.len(), 5);
}

#[test]
fn lengths_and_numbers() {
    assert_eq!(parse_length("60"), Some(60));
    assert_eq!(parse_length("0"), Some(0));
    assert_eq!(parse_length("007"), Some(7));
    assert_eq!(parse_length("18446744073709551615"), Some(u64::MAX));
    assert_eq!(parse_length("18446744073709551616"), None);
    assert_eq!(parse_length(""), None);
    assert_eq!(parse_length("6x"), None);
    assert_eq!(parse_length("-1"), None);
    assert_eq!(decimal(0), "0");
    assert_eq!(decimal(60), "60");
    assert_eq!(decimal(u64::MAX), "18446744073709551615");
}

#[test]
fn output_extension() {
    assert_eq!(extension("out.mp4"), Some(s("mp4")));
    assert_eq!(extension("/a.b/out.tar.gz"), Some(s("gz")));
    assert_eq!(extension("/a.b/out"), None);
    assert_eq!(extension(".hidden"), None);
    assert_eq!(extension("name."), Some(s("")));
}

#[test]
fn local_commands() {
    assert_eq!(join("/tmp", "x"), "/tmp/x");
    assert_eq!(
        extract_audio("in.mkv", "/w/audio.aac"),
        strings(&["ffmpeg", "-y", "-i", "in.mkv", "-vn", "-c:a", "aac", "-b:a", "192k", "/w/audio.aac"])
    );
    assert_eq!(
        split_video("in.mkv", "/w/chunks", 30),
        strings(&[
            "ffmpeg",
            "-y",
            "-i",
            "in.mkv",
            "-an",
            "-c",
            "copy",
            "-f",
            "segment",
            "-segment_time",
            "30",
            "/w/chunks/chunk_%03d.mxf"
        ])
    );
    assert_eq!(
        combine("/w/encoded/files.txt", "/w/audio.aac", "out.mp4"),
        strings(&[
            "ffmpeg",
            "-y",
            "-f",
            "concat",
            "-safe",
            "0",
            "-i",
            "/w/encoded/files.txt",
            "-i",
            "/w/audio.aac",
            "-c",
            "copy",
            "-movflags",
            "+faststart",
            "out.mp4"
        ])
    );
}

#[test]
fn concat_list() {
    assert_eq!(
        file_list("/w/encoded", &strings(&["enc_a.mp4", "enc_b.mp4"])),
        "file '/w/encoded/enc_a.mp4'\nfile '/w/encoded/enc_b.mp4'\n"
    );
    assert_eq!(file_list("/w", &Vec::new()), "");
}

#[test]
fn aggregate_merges_and_sorts() {
    let outs = vec![
        HostOutcome { host: s("c1"), result: Ok(strings(&["enc_chunk_002.mp4", "enc_chunk_003.mp4"])) },
        HostOutcome { host: s("c2"), result: Ok(strings(&["enc_chunk_000.mp4", "enc_chunk_001.mp4"])) },
    ];
    assert_eq!(
        aggregate(&outs).unwrap(),
        strings(&["enc_chunk_000.mp4", "enc_chunk_001.mp4", "enc_chunk_002.mp4", "enc_chunk_003.mp4"])
    );
    // The same records spread differently give the same manifest.
    let other = vec![
        HostOutcome { host: s("c1"), result: Ok(strings(&["enc_chunk_001.mp4"])) },
        HostOutcome {
            host: s("c2"),
            result: Ok(strings(&["enc_chunk_003.mp4", "enc_chunk_000.mp4", "enc_chunk_002.mp4"])),
        },
    ];
    assert_eq!(aggregate(&outs).unwrap(), aggregate(&other).unwrap());
}

#[test]
fn aggregate_reports_first_failure() {
    let outs = vec![
        HostOutcome { host: s("c1"), result: Ok(strings(&["enc_a.mp4"])) },
        HostOutcome { host: s("c2"), result: Err(Failure::Download) },
        HostOutcome { host: s("c3"), result: Err(Failure::Setup) },
    ];
    match aggregate(&outs) {
        Err(RunError::Host { host, failure }) => {
            assert_eq!(host, "c2");
            assert_eq!(failure, Failure::Download);
        }
        other => panic!("expected a host failure, got {:?}", other),
    }
}

#[test]
fn numbering_units() {
    let units = number_units(strings(&["a", "b", "c"]));
    assert_eq!(units.len(), 3);
    assert_eq!((units[2].ordinal, units[2].path.as_str()), (2, "c"));
}

#[test]
fn plan_checks_its_input() {
    let hosts = strings(&["c1"]);
    let none: Vec<String> = Vec::new();
    assert!(matches!(
        RunPlan::new("in", "out.mp4", &none, &hosts, Some("x"), "/t", false),
        Err(RunError::InvalidLength)
    ));
    assert!(matches!(
        RunPlan::new("in", "out", &none, &hosts, None, "/t", false),
        Err(RunError::NoExtension)
    ));
    assert!(matches!(
        RunPlan::new("in", "out.mp4", &none, &none, None, "/t", false),
        Err(RunError::NoHosts)
    ));
    let p = RunPlan::new("in", "out.mkv", &none, &hosts, None, "/home/u", true).unwrap();
    assert_eq!(p.seconds, 60);
    assert_eq!(p.ext, "mkv");
    assert_eq!(p.work_dir, "/home/u/shepherd_tmp");
    assert_eq!(p.audio, "/home/u/shepherd_tmp/audio.aac");
    assert_eq!(p.chunk_dir, "/home/u/shepherd_tmp/chunks");
    assert_eq!(p.encoded_dir, "/home/u/shepherd_tmp/encoded");
    assert_eq!(p.file_list, "/home/u/shepherd_tmp/encoded/files.txt");
    assert!(p.keep);
}

#[test]
fn error_descriptions() {
    let e = RunError::Host { host: s("c7"), failure: Failure::Encode };
    assert_eq!(e.describe(), "Failed encoding on c7");
    assert_eq!(RunError::Combine.describe(), "Failed combining video");
    assert!(matches!(e.duplicate(), RunError::Host { .. }));
}

#[test]
fn encoder_failure_ends_stage_unless_cancelled() {
    let mut e = Encoder::new(s("mp4"), Vec::new());
    assert!(matches!(e.step(EncoderEvent::Received(Some(JobUnit::new(0, s("c_0.mxf")))), false), EncoderAction::Run(_)));
    assert!(matches!(e.step(EncoderEvent::Ran(false), true), EncoderAction::Receive));
    assert_eq!(e.phase(), EncoderPhase::Waiting);
    assert!(matches!(e.step(EncoderEvent::Received(Some(JobUnit::new(1, s("c_1.mxf")))), true), EncoderAction::Run(_)));
    assert!(matches!(e.step(EncoderEvent::Ran(true), true), EncoderAction::Receive));
    match e.step(EncoderEvent::Received(None), true) {
        EncoderAction::Return(Ok(v)) => assert_eq!(v, strings(&["enc_c_1.mp4"])),
        _ => panic!("expected the records"),
    }
    let mut f = Encoder::new(s("mp4"), Vec::new());
    f.step(EncoderEvent::Received(Some(JobUnit::new(0, s("c_0.mxf")))), false);
    assert!(matches!(f.step(EncoderEvent::Ran(false), false), EncoderAction::Return(Err(Failure::Encode))));
    assert_eq!(f.phase(), EncoderPhase::Finished);
    assert!(!f.accepts(&EncoderEvent::Ran(true)));
}

#[test]
fn manager_cleanup_failure_is_ignored() {
    let (mut m, first) = Manager::start(s("/w/encoded"));
    match first {
        ManagerAction::Remote(Remote::Exec(c)) => assert_eq!(c, strings(&["rm", "-r", "shepherd_tmp_remote"])),
        _ => panic!("expected the cleanup"),
    }
    match m.step(ManagerEvent::Status(false), false) {
        ManagerAction::Remote(Remote::Exec(c)) => assert_eq!(c, strings(&["mkdir", "shepherd_tmp_remote"])),
        _ => panic!("expected the setup"),
    }
    assert!(matches!(m.step(ManagerEvent::Status(true), false), ManagerAction::Dequeue));
    assert_eq!(m.phase(), ManagerPhase::AwaitPull);
}

#[test]
fn manager_upload_failure() {
    let (mut m, _) = Manager::start(s("/w/encoded"));
    m.step(ManagerEvent::Status(true), false);
    m.step(ManagerEvent::Status(true), false);
    match m.step(ManagerEvent::Pulled(Pull::Unit(JobUnit::new(0, s("/c/chunk_000.mxf")))), false) {
        ManagerAction::Remote(Remote::CopyTo { local, remote_dir }) => {
            assert_eq!(local, "/c/chunk_000.mxf");
            assert_eq!(remote_dir, "shepherd_tmp_remote");
        }
        _ => panic!("expected the upload"),
    }
    assert!(matches!(m.step(ManagerEvent::Status(false), false), ManagerAction::CloseRelay));
    assert!(matches!(
        m.step(ManagerEvent::EncoderDone(Ok(Vec::new())), false),
        ManagerAction::Finish(Err(Failure::Upload))
    ));
}

#[test]
fn manager_download_failure_and_crash() {
    let (mut m, _) = Manager::start(s("/w/enc"));
    m.step(ManagerEvent::Status(true), false);
    m.step(ManagerEvent::Status(true), false);
    assert!(matches!(m.step(ManagerEvent::Pulled(Pull::Exhausted), false), ManagerAction::CloseRelay));
    match m.step(ManagerEvent::EncoderDone(Ok(strings(&["enc_a.mp4"]))), false) {
        ManagerAction::Remote(Remote::CopyFrom { remote, local_dir }) => {
            assert_eq!(remote, "shepherd_tmp_remote/enc_a.mp4");
            assert_eq!(local_dir, "/w/enc");
        }
        _ => panic!("expected the download"),
    }
    assert!(matches!(m.step(ManagerEvent::Status(false), false), ManagerAction::Finish(Err(Failure::Download))));

    let (mut n, _) = Manager::start(s("/w/enc"));
    n.step(ManagerEvent::Status(true), false);
    n.step(ManagerEvent::Status(true), false);
    n.step(ManagerEvent::Pulled(Pull::Unit(JobUnit::new(0, s("c.mxf")))), false);
    assert!(matches!(n.step(ManagerEvent::Status(true), false), ManagerAction::HandOff(_)));
    assert!(matches!(n.step(ManagerEvent::Accepted(false), false), ManagerAction::CloseRelay));
    assert!(matches!(
        n.step(ManagerEvent::EncoderDone(Err(Failure::Crash)), false),
        ManagerAction::Finish(Err(Failure::Crash))
    ));
}

#[test]
fn manager_pulls_again_only_after_hand_off() {
    let (mut m, _) = Manager::start(s("/w/enc"));
    m.step(ManagerEvent::Status(true), false);
    assert!(matches!(m.step(ManagerEvent::Status(true), false), ManagerAction::Dequeue));
    assert!(matches!(
        m.step(ManagerEvent::Pulled(Pull::Unit(JobUnit::new(0, s("c0.mxf")))), false),
        ManagerAction::Remote(Remote::CopyTo { .. })
    ));
    match m.step(ManagerEvent::Status(true), false) {
        ManagerAction::HandOff(u) => assert_eq!(u.path, "c0.mxf"),
        _ => panic!("the held unit goes to the encoder before any new pull"),
    }
    assert!(!m.accepts(&ManagerEvent::Pulled(Pull::Exhausted)));
    assert!(matches!(m.step(ManagerEvent::Accepted(true), false), ManagerAction::Dequeue));
    // Once cancelled, no new pull.
    assert!(matches!(m.step(ManagerEvent::Pulled(Pull::Pending), true), ManagerAction::CloseRelay));
}

#[test]
fn manager_cancelled_keeps_held_unit() {
    let (mut m, _) = Manager::start(s("/w/enc"));
    m.step(ManagerEvent::Status(true), false);
    m.step(ManagerEvent::Status(true), false);
    m.step(ManagerEvent::Pulled(Pull::Unit(JobUnit::new(4, s("c4.mxf")))), false);
    // The upload failed because the run is being cancelled: not an error.
    match m.step(ManagerEvent::Status(false), true) {
        ManagerAction::HandOff(u) => assert_eq!(u.ordinal, 4),
        _ => panic!("the held unit is still handed over"),
    }
    assert!(matches!(m.step(ManagerEvent::Accepted(true), true), ManagerAction::CloseRelay));
    match m.step(ManagerEvent::EncoderDone(Ok(strings(&["enc_c4.mp4"]))), true) {
        ManagerAction::Remote(Remote::CopyFrom { remote, .. }) => assert_eq!(remote, "shepherd_tmp_remote/enc_c4.mp4"),
        _ => panic!("the encoded chunk is still brought back"),
    }
    match m.step(ManagerEvent::Status(false), true) {
        ManagerAction::Finish(Ok(v)) => assert_eq!(v, strings(&["enc_c4.mp4"])),
        _ => panic!("a failed transfer while cancelling is not an error"),
    }
}

#[test]
fn describing_every_error() {
    assert_eq!(RunError::InvalidLength.describe(), "Invalid chunk length");
    assert_eq!(RunError::NoExtension.describe(), "Unable to find extension");
    assert_eq!(RunError::NoHosts.describe(), "No hosts given");
    assert_eq!(RunError::LocalSetup.describe(), "Failed creating local temporary directory");
    assert_eq!(RunError::Extract.describe(), "Failed extracting audio");
    assert_eq!(RunError::Split.describe(), "Failed splitting video");
    let h = |f| RunError::Host { host: s("h"), failure: f }.describe();
    assert_eq!(h(Failure::Setup), "Failed creating remote temporary directory on h");
    assert_eq!(h(Failure::Upload), "Failed transferring chunk to h");
    assert_eq!(h(Failure::Download), "Failed transferring encoded chunk from h");
    assert_eq!(h(Failure::Crash), "Worker failed on h");
}

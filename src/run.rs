//! The course of a whole run: extract the audio, split the video, distribute
//! the chunks over the hosts, combine the results, and clean up.
use vstd::prelude::*;
use vstd::string::*;
use crate::encoder::Failure;
use crate::local::{
    combine, combine_of, digits_value, extension, extension_of, extract_audio_of, file_list,
    file_list_of, join, join_of, parse_length, split_video, split_video_of, valid_length,
};
use crate::order::{sort_names, sorted_names, views};
use crate::queue::{JobQueue, JobUnit};

verus! {

/// The directory, under the chosen temporary root, that holds a run's files.
pub const WORK_DIR: &'static str = "shepherd_tmp";

/// The encoded audio track, in the working directory.
pub const AUDIO: &'static str = "audio.aac";

/// The chunk length used when none is given.
pub const DEFAULT_LENGTH: &'static str = "60";

/// Why a run failed.
#[derive(Debug)]
pub enum RunError {
    /// The chunk length is not a number of seconds.
    InvalidLength,
    /// The output file has no extension to give the encoded chunks.
    NoExtension,
    /// No host was given.
    NoHosts,
    /// The local working directories could not be prepared.
    LocalSetup,
    /// Extracting the audio failed.
    Extract,
    /// Splitting the video failed.
    Split,
    /// Combining the encoded chunks failed.
    Combine,
    /// The work on `host` failed.
    Host { host: String, failure: Failure },
}

/// A `RunError`, with the host's name as characters.
pub enum RunFault {
    InvalidLength,
    NoExtension,
    NoHosts,
    LocalSetup,
    Extract,
    Split,
    Combine,
    Host(Seq<char>, Failure),
}

impl View for RunError {
    type V = RunFault;

    open spec fn view(&self) -> RunFault {
        match self {
            RunError::InvalidLength => RunFault::InvalidLength,
            RunError::NoExtension => RunFault::NoExtension,
            RunError::NoHosts => RunFault::NoHosts,
            RunError::LocalSetup => RunFault::LocalSetup,
            RunError::Extract => RunFault::Extract,
            RunError::Split => RunFault::Split,
            RunError::Combine => RunFault::Combine,
            RunError::Host { host, failure } => RunFault::Host(host@, *failure),
        }
    }
}

pub open spec fn outcome_view(r: Result<(), RunError>) -> Result<(), RunFault> {
    match r {
        Ok(()) => Ok(()),
        Err(e) => Err(e@),
    }
}

impl RunError {
    /// A copy of the error.
    pub fn duplicate(&self) -> (r: RunError)
        ensures
            r@ == self@,
    {
        match self {
            RunError::InvalidLength => RunError::InvalidLength,
            RunError::NoExtension => RunError::NoExtension,
            RunError::NoHosts => RunError::NoHosts,
            RunError::LocalSetup => RunError::LocalSetup,
            RunError::Extract => RunError::Extract,
            RunError::Split => RunError::Split,
            RunError::Combine => RunError::Combine,
            RunError::Host { host, failure } => RunError::Host { host: host.clone(), failure: *failure },
        }
    }

    /// A description of the error for the user.
    pub fn describe(&self) -> (r: String)
        ensures
            r@ == description_of(self@),
    {
        match self {
            RunError::InvalidLength => String::from_str("Invalid chunk length"),
            RunError::NoExtension => String::from_str("Unable to find extension"),
            RunError::NoHosts => String::from_str("No hosts given"),
            RunError::LocalSetup => String::from_str("Failed creating local temporary directory"),
            RunError::Extract => String::from_str("Failed extracting audio"),
            RunError::Split => String::from_str("Failed splitting video"),
            RunError::Combine => String::from_str("Failed combining video"),
            RunError::Host { host, failure } => {
                let mut s = String::from_str(failure_text(*failure));
                s.append(host.as_str());
                s
            },
        }
    }
}

/// How a failure on a host is announced, before the host's name.
pub open spec fn failure_text_of(f: Failure) -> Seq<char> {
    match f {
        Failure::Setup => "Failed creating remote temporary directory on "@,
        Failure::Upload => "Failed transferring chunk to "@,
        Failure::Encode => "Failed encoding on "@,
        Failure::Download => "Failed transferring encoded chunk from "@,
        Failure::Crash => "Worker failed on "@,
    }
}

/// The message for the user that describes `e`.
pub open spec fn description_of(e: RunFault) -> Seq<char> {
    match e {
        RunFault::InvalidLength => "Invalid chunk length"@,
        RunFault::NoExtension => "Unable to find extension"@,
        RunFault::NoHosts => "No hosts given"@,
        RunFault::LocalSetup => "Failed creating local temporary directory"@,
        RunFault::Extract => "Failed extracting audio"@,
        RunFault::Split => "Failed splitting video"@,
        RunFault::Combine => "Failed combining video"@,
        RunFault::Host(h, f) => failure_text_of(f) + h,
    }
}

fn failure_text(f: Failure) -> (r: &'static str)
    ensures
        r@ == failure_text_of(f),
{
    match f {
        Failure::Setup => "Failed creating remote temporary directory on ",
        Failure::Upload => "Failed transferring chunk to ",
        Failure::Encode => "Failed encoding on ",
        Failure::Download => "Failed transferring encoded chunk from ",
        Failure::Crash => "Worker failed on ",
    }
}

fn copy_outcome(r: &Result<(), RunError>) -> (o: Result<(), RunError>)
    ensures
        outcome_view(o) == outcome_view(*r),
{
    match r {
        Ok(()) => Ok(()),
        Err(e) => Err(e.duplicate()),
    }
}

/// What a host's manager reported at its end.
pub struct HostOutcome {
    pub host: String,
    pub result: Result<Vec<String>, Failure>,
}

pub open spec fn host_outcome_view(o: HostOutcome) -> (Seq<char>, Result<Seq<Seq<char>>, Failure>) {
    (
        o.host@,
        match o.result {
            Ok(v) => Ok(views(v@)),
            Err(f) => Err(f),
        },
    )
}

pub open spec fn outcomes_view(v: Seq<HostOutcome>) -> Seq<(Seq<char>, Result<Seq<Seq<char>>, Failure>)> {
    v.map_values(|o: HostOutcome| host_outcome_view(o))
}

/// The first host, in the order given, whose work failed, with its failure.
pub open spec fn first_failure(outs: Seq<(Seq<char>, Result<Seq<Seq<char>>, Failure>)>) -> Option<
    (Seq<char>, Failure),
>
    decreases outs.len(),
{
    if outs.len() == 0 {
        None
    } else {
        match first_failure(outs.drop_last()) {
            Some(f) => Some(f),
            None => match outs.last().1 {
                Err(f) => Some((outs.last().0, f)),
                Ok(_) => None,
            },
        }
    }
}

/// Every record of every host, host after host.
pub open spec fn all_records(outs: Seq<(Seq<char>, Result<Seq<Seq<char>>, Failure>)>) -> Seq<
    Seq<char>,
>
    decreases outs.len(),
{
    if outs.len() == 0 {
        Seq::empty()
    } else {
        all_records(outs.drop_last()) + match outs.last().1 {
            Ok(v) => v,
            Err(_) => Seq::empty(),
        }
    }
}

/// The names of all encoded chunks, in the order the final video takes them.
pub open spec fn manifest_of(outs: Seq<(Seq<char>, Result<Seq<Seq<char>>, Failure>)>) -> Seq<
    Seq<char>,
> {
    sorted_names(all_records(outs))
}

/// Gathers what the hosts reported: the first failure in host order, or the
/// names of all encoded chunks in lexical order.
pub fn aggregate(outs: &Vec<HostOutcome>) -> (r: Result<Vec<String>, RunError>)
    ensures
        match first_failure(outcomes_view(outs@)) {
            Some((h, f)) => r matches Err(e) && e@ == RunFault::Host(h, f),
            None => r matches Ok(v) && views(v@) == manifest_of(outcomes_view(outs@)),
        },
{
    let mut all: Vec<String> = Vec::new();
    let mut i: usize = 0;
    while i < outs.len()
        invariant
            i <= outs@.len(),
            first_failure(outcomes_view(outs@).take(i as int)) is None,
            views(all@) == all_records(outcomes_view(outs@).take(i as int)),
        decreases outs@.len() - i,
    {
        let ghost prefix = outcomes_view(outs@).take(i as int);
        proof {
            assert(outcomes_view(outs@).take(i + 1).drop_last() =~= prefix);
        }
        match &outs[i].result {
            Err(f) => {
                proof {
                    assert(first_failure(outcomes_view(outs@).take(i + 1)) == Some(
                        (outs@[i as int].host@, *f),
                    ));
                    lemma_first_failure_prefix(outcomes_view(outs@), i + 1);
                }
                return Err(RunError::Host { host: outs[i].host.clone(), failure: *f });
            },
            Ok(v) => {
                let ghost before = all@;
                let mut j: usize = 0;
                while j < v.len()
                    invariant
                        j <= v@.len(),
                        views(all@) == views(before) + views(v@).take(j as int),
                    decreases v@.len() - j,
                {
                    let ghost prev = all@;
                    all.push(v[j].clone());
                    proof {
                        assert(views(all@) =~= views(prev).push(v@[j as int]@));
                        assert(views(v@).take(j + 1) =~= views(v@).take(j as int).push(v@[j as int]@));
                        assert(views(all@) =~= views(before) + views(v@).take(j + 1));
                    }
                    j = j + 1;
                }
                proof {
                    assert(views(v@).take(v@.len() as int) =~= views(v@));
                    assert(outcomes_view(outs@).take(i + 1).last() == host_outcome_view(outs@[i as int]));
                }
            },
        }
        i = i + 1;
    }
    proof {
        assert(outcomes_view(outs@).take(outs@.len() as int) =~= outcomes_view(outs@));
    }
    Ok(sort_names(all))
}

/// A failure found in a prefix of the hosts is the first failure of all.
pub proof fn lemma_first_failure_prefix(outs: Seq<(Seq<char>, Result<Seq<Seq<char>>, Failure>)>, n: int)
    requires
        0 <= n <= outs.len(),
        first_failure(outs.take(n)) is Some,
    ensures
        first_failure(outs) == first_failure(outs.take(n)),
    decreases outs.len() - n,
{
    if n < outs.len() {
        assert(outs.take(n + 1).drop_last() =~= outs.take(n));
        lemma_first_failure_prefix(outs, n + 1);
    } else {
        assert(outs.take(n) =~= outs);
    }
}

/// Everything a run needs to know, fixed before it starts.
pub struct RunPlan {
    pub input: String,
    pub output: String,
    pub options: Vec<String>,
    pub hosts: Vec<String>,
    pub seconds: u64,
    pub keep: bool,
    pub ext: String,
    pub work_dir: String,
    pub audio: String,
    pub chunk_dir: String,
    pub encoded_dir: String,
    pub file_list: String,
}

/// The plan for a run, as the user describes it: `seconds` is the chunk
/// length as written (none for the default) and `tmp_root` the directory
/// under which the run's files are kept.
pub open spec fn plan_of(
    input: Seq<char>,
    output: Seq<char>,
    options: Seq<Seq<char>>,
    hosts: Seq<Seq<char>>,
    seconds: Option<Seq<char>>,
    tmp_root: Seq<char>,
    keep: bool,
    p: RunPlan,
) -> bool {
    let length = match seconds {
        Some(s) => s,
        None => DEFAULT_LENGTH@,
    };
    let work = join_of(tmp_root, WORK_DIR@);
    &&& p.input@ == input
    &&& p.output@ == output
    &&& views(p.options@) == options
    &&& views(p.hosts@) == hosts
    &&& p.seconds as int == digits_value(length)
    &&& p.keep == keep
    &&& extension_of(output) == Some(p.ext@)
    &&& p.work_dir@ == work
    &&& p.audio@ == join_of(work, AUDIO@)
    &&& p.chunk_dir@ == join_of(work, "chunks"@)
    &&& p.encoded_dir@ == join_of(work, "encoded"@)
    &&& p.file_list@ == join_of(join_of(work, "encoded"@), "files.txt"@)
}

fn copy_all(v: &Vec<String>) -> (r: Vec<String>)
    ensures
        views(r@) == views(v@),
{
    let mut r: Vec<String> = Vec::new();
    let mut i: usize = 0;
    while i < v.len()
        invariant
            i <= v@.len(),
            views(r@) == views(v@).take(i as int),
        decreases v@.len() - i,
    {
        r.push(v[i].clone());
        proof {
            assert(views(v@).take(i + 1) =~= views(v@).take(i as int).push(v@[i as int]@));
            assert(views(r@) =~= views(v@).take(i + 1));
        }
        i = i + 1;
    }
    proof {
        assert(views(v@).take(v@.len() as int) =~= views(v@));
    }
    r
}

impl RunPlan {
    /// Checks the user's description of a run and fixes its paths. The
    /// chunk length must be a number, the output must have an extension, and
    /// at least one host must be given, in this order of checking.
    pub fn new(
        input: &str,
        output: &str,
        options: &Vec<String>,
        hosts: &Vec<String>,
        seconds: Option<&str>,
        tmp_root: &str,
        keep: bool,
    ) -> (r: Result<RunPlan, RunError>)
        ensures
            ({
                let length = match seconds {
                    Some(s) => s@,
                    None => DEFAULT_LENGTH@,
                };
                match r {
                    Ok(p) => valid_length(length) && extension_of(output@) is Some && hosts@.len()
                        > 0 && plan_of(
                        input@,
                        output@,
                        views(options@),
                        views(hosts@),
                        match seconds {
                            Some(s) => Some(s@),
                            None => None,
                        },
                        tmp_root@,
                        keep,
                        p,
                    ),
                    Err(e) => if !valid_length(length) {
                        e@ == RunFault::InvalidLength
                    } else if extension_of(output@) is None {
                        e@ == RunFault::NoExtension
                    } else {
                        hosts@.len() == 0 && e@ == RunFault::NoHosts
                    },
                }
            }),
    {
        let length = match seconds {
            Some(s) => s,
            None => DEFAULT_LENGTH,
        };
        let seconds_value = match parse_length(length) {
            Some(n) => n,
            None => {
                return Err(RunError::InvalidLength);
            },
        };
        let ext = match extension(output) {
            Some(e) => e,
            None => {
                return Err(RunError::NoExtension);
            },
        };
        if hosts.len() == 0 {
            return Err(RunError::NoHosts);
        }
        let work_dir = join(tmp_root, WORK_DIR);
        let audio = join(work_dir.as_str(), AUDIO);
        let chunk_dir = join(work_dir.as_str(), "chunks");
        let encoded_dir = join(work_dir.as_str(), "encoded");
        let file_list = join(encoded_dir.as_str(), "files.txt");
        Ok(
            RunPlan {
                input: String::from_str(input),
                output: String::from_str(output),
                options: copy_all(options),
                hosts: copy_all(hosts),
                seconds: seconds_value,
                keep,
                ext,
                work_dir,
                audio,
                chunk_dir,
                encoded_dir,
                file_list,
            },
        )
    }
}

#[derive(Clone, Copy, PartialEq, Eq, Debug, Structural)]
pub enum RunStage {
    /// Extracting the audio.
    Extract,
    /// Splitting the video into chunks.
    Split,
    /// The hosts are encoding the chunks.
    Distribute,
    /// Joining the encoded chunks and the audio.
    Combine,
    /// Removing the working directories.
    Teardown,
    /// The run has reported its result.
    Done,
}

/// What the coordinator learns from its runner.
pub enum RunEvent {
    /// The local command of the current stage ended, successfully or not.
    Ran(bool),
    /// The files the split wrote, or `None` where splitting failed.
    Listed(Option<Vec<String>>),
    /// What every host reported, in the order of the plan's hosts.
    HostsDone(Vec<HostOutcome>),
    /// The working directories were removed, successfully or not.
    TornDown(bool),
}

pub enum RunEventView {
    Ran(bool),
    Listed(Option<Seq<Seq<char>>>),
    HostsDone(Seq<(Seq<char>, Result<Seq<Seq<char>>, Failure>)>),
    TornDown(bool),
}

impl View for RunEvent {
    type V = RunEventView;

    open spec fn view(&self) -> RunEventView {
        match self {
            RunEvent::Ran(ok) => RunEventView::Ran(*ok),
            RunEvent::Listed(Some(v)) => RunEventView::Listed(Some(views(v@))),
            RunEvent::Listed(None) => RunEventView::Listed(None),
            RunEvent::HostsDone(v) => RunEventView::HostsDone(outcomes_view(v@)),
            RunEvent::TornDown(ok) => RunEventView::TornDown(*ok),
        }
    }
}

/// What the coordinator asks its runner to do next.
pub enum RunAction {
    /// Run this command, which extracts the audio.
    Extract(Vec<String>),
    /// Run this command, which splits the video, then list the chunk directory.
    Split(Vec<String>),
    /// Let one manager per host of the plan work through this queue.
    Distribute(JobQueue),
    /// Write `list` to the plan's file list, then run `command`.
    Combine { list: String, command: Vec<String> },
    /// Remove the working directory on every host and the local one.
    Teardown,
    /// Stop with this result.
    Finish(Result<(), RunError>),
}

pub enum RunOrder {
    Extract(Seq<Seq<char>>),
    Split(Seq<Seq<char>>),
    Distribute(Seq<(nat, Seq<char>)>, nat, bool),
    Combine(Seq<char>, Seq<Seq<char>>),
    Teardown,
    Finish(Result<(), RunFault>),
}

/// Ordinals and paths of a list of units.
pub open spec fn unit_pairs(units: Seq<JobUnit>) -> Seq<(nat, Seq<char>)> {
    units.map_values(|u: JobUnit| (u.ordinal as nat, u.path@))
}

/// The names, each with its position.
pub open spec fn numbered(names: Seq<Seq<char>>) -> Seq<(nat, Seq<char>)> {
    Seq::new(names.len(), |i: int| (i as nat, names[i]))
}

impl View for RunAction {
    type V = RunOrder;

    open spec fn view(&self) -> RunOrder {
        match self {
            RunAction::Extract(c) => RunOrder::Extract(views(c@)),
            RunAction::Split(c) => RunOrder::Split(views(c@)),
            RunAction::Distribute(q) => RunOrder::Distribute(unit_pairs(q@.units), q@.next, q@.sealed),
            RunAction::Combine { list, command } => RunOrder::Combine(list@, views(command@)),
            RunAction::Teardown => RunOrder::Teardown,
            RunAction::Finish(r) => RunOrder::Finish(outcome_view(*r)),
        }
    }
}

/// The abstract state of a coordinator: its stage, and the result it will
/// report once the working directories are gone.
pub struct CoordinatorView {
    pub stage: RunStage,
    pub pending: Result<(), RunFault>,
}

/// The first request of a run.
pub open spec fn run_start(plan: RunPlan) -> (CoordinatorView, RunOrder) {
    (
        CoordinatorView { stage: RunStage::Extract, pending: Ok(()) },
        RunOrder::Extract(extract_audio_of(plan.input@, plan.audio@)),
    )
}

/// End the run with `result`: clean up first, unless the plan keeps the
/// working directories.
pub open spec fn conclude(plan: RunPlan, result: Result<(), RunFault>) -> (CoordinatorView, RunOrder) {
    if plan.keep {
        (CoordinatorView { stage: RunStage::Done, pending: result }, RunOrder::Finish(result))
    } else {
        (CoordinatorView { stage: RunStage::Teardown, pending: result }, RunOrder::Teardown)
    }
}

/// The coordinator's reaction to one event; `cancelled` is the cancellation
/// flag as read right after it. Once the run is cancelled no later stage
/// starts and the run ends without error; a local step that fails meanwhile
/// is taken for a casualty of the cancellation.
pub open spec fn run_next(plan: RunPlan, c: CoordinatorView, e: RunEventView, cancelled: bool) -> (
    CoordinatorView,
    RunOrder,
) {
    match e {
        RunEventView::Ran(ok) => if c.stage == RunStage::Extract {
            if cancelled {
                conclude(plan, Ok(()))
            } else if !ok {
                conclude(plan, Err(RunFault::Extract))
            } else {
                (
                    CoordinatorView { stage: RunStage::Split, ..c },
                    RunOrder::Split(split_video_of(plan.input@, plan.chunk_dir@, plan.seconds as nat)),
                )
            }
        } else {
            if ok || cancelled {
                conclude(plan, Ok(()))
            } else {
                conclude(plan, Err(RunFault::Combine))
            }
        },
        RunEventView::Listed(None) => if cancelled {
            conclude(plan, Ok(()))
        } else {
            conclude(plan, Err(RunFault::Split))
        },
        RunEventView::Listed(Some(files)) => if cancelled {
            conclude(plan, Ok(()))
        } else {
            (
                CoordinatorView { stage: RunStage::Distribute, ..c },
                RunOrder::Distribute(numbered(sorted_names(files)), 0, true),
            )
        },
        RunEventView::HostsDone(outs) => match first_failure(outs) {
            Some((h, f)) => conclude(plan, Err(RunFault::Host(h, f))),
            None => if cancelled {
                conclude(plan, Ok(()))
            } else {
                (
                    CoordinatorView { stage: RunStage::Combine, ..c },
                    RunOrder::Combine(
                        file_list_of(plan.encoded_dir@, manifest_of(outs)),
                        combine_of(plan.file_list@, plan.audio@, plan.output@),
                    ),
                )
            },
        },
        RunEventView::TornDown(_) => (
            CoordinatorView { stage: RunStage::Done, ..c },
            RunOrder::Finish(c.pending),
        ),
    }
}

/// Whether a coordinator in `stage` expects `e`.
pub open spec fn run_accepts(stage: RunStage, e: RunEventView) -> bool {
    match e {
        RunEventView::Ran(_) => stage == RunStage::Extract || stage == RunStage::Combine,
        RunEventView::Listed(_) => stage == RunStage::Split,
        RunEventView::HostsDone(_) => stage == RunStage::Distribute,
        RunEventView::TornDown(_) => stage == RunStage::Teardown,
    }
}

/// The units of a run: the chunk files in the given order, numbered from zero.
pub fn number_units(names: Vec<String>) -> (r: Vec<JobUnit>)
    ensures
        unit_pairs(r@) == numbered(views(names@)),
{
    let mut r: Vec<JobUnit> = Vec::new();
    let mut i: usize = 0;
    while i < names.len()
        invariant
            i <= names@.len(),
            unit_pairs(r@) == numbered(views(names@)).take(i as int),
        decreases names@.len() - i,
    {
        let ghost prev = r@;
        r.push(JobUnit::new(i, names[i].clone()));
        proof {
            assert(unit_pairs(r@) =~= unit_pairs(prev).push((i as nat, names@[i as int]@)));
            assert(numbered(views(names@)).take(i + 1) =~= numbered(views(names@)).take(
                i as int,
            ).push((i as nat, names@[i as int]@)));
        }
        i = i + 1;
    }
    proof {
        assert(numbered(views(names@)).take(names@.len() as int) =~= numbered(views(names@)));
    }
    r
}

pub struct Coordinator {
    plan: RunPlan,
    stage: RunStage,
    pending: Result<(), RunError>,
}

impl View for Coordinator {
    type V = CoordinatorView;

    closed spec fn view(&self) -> CoordinatorView {
        CoordinatorView { stage: self.stage, pending: outcome_view(self.pending) }
    }
}

impl Coordinator {
    /// The plan the coordinator follows.
    pub closed spec fn plan_spec(&self) -> RunPlan {
        self.plan
    }

    pub fn plan(&self) -> (r: &RunPlan)
        ensures
            *r == self.plan_spec(),
    {
        &self.plan
    }

    /// A coordinator for `plan`, and its first request.
    pub fn start(plan: RunPlan) -> (r: (Coordinator, RunAction))
        ensures
            r.0.plan_spec() == plan,
            (r.0@, r.1@) == run_start(plan),
    {
        let cmd = crate::local::extract_audio(plan.input.as_str(), plan.audio.as_str());
        (Coordinator { plan, stage: RunStage::Extract, pending: Ok(()) }, RunAction::Extract(cmd))
    }

    pub fn stage(&self) -> (r: RunStage)
        ensures
            r == self@.stage,
    {
        self.stage
    }

    /// Whether the coordinator expects `e` now.
    pub fn accepts(&self, e: &RunEvent) -> (r: bool)
        ensures
            r == run_accepts(self@.stage, e@),
    {
        match e {
            RunEvent::Ran(_) => self.stage == RunStage::Extract || self.stage == RunStage::Combine,
            RunEvent::Listed(_) => self.stage == RunStage::Split,
            RunEvent::HostsDone(_) => self.stage == RunStage::Distribute,
            RunEvent::TornDown(_) => self.stage == RunStage::Teardown,
        }
    }

    fn conclude(&mut self, result: Result<(), RunError>) -> (r: RunAction)
        ensures
            final(self).plan_spec() == old(self).plan_spec(),
            (final(self)@, r@) == conclude(old(self).plan_spec(), outcome_view(result)),
    {
        if self.plan.keep {
            self.stage = RunStage::Done;
            self.pending = copy_outcome(&result);
            RunAction::Finish(result)
        } else {
            self.stage = RunStage::Teardown;
            self.pending = result;
            RunAction::Teardown
        }
    }

    /// Reacts to one event; `cancelled` is the cancellation flag as read right
    /// after it.
    pub fn step(&mut self, e: RunEvent, cancelled: bool) -> (r: RunAction)
        requires
            run_accepts(old(self)@.stage, e@),
        ensures
            final(self).plan_spec() == old(self).plan_spec(),
            (final(self)@, r@) == run_next(old(self).plan_spec(), old(self)@, e@, cancelled),
    {
        match e {
            RunEvent::Ran(ok) => {
                if self.stage == RunStage::Extract {
                    if cancelled {
                        self.conclude(Ok(()))
                    } else if !ok {
                        self.conclude(Err(RunError::Extract))
                    } else {
                        self.stage = RunStage::Split;
                        let cmd = split_video(
                            self.plan.input.as_str(),
                            self.plan.chunk_dir.as_str(),
                            self.plan.seconds,
                        );
                        RunAction::Split(cmd)
                    }
                } else if ok || cancelled {
                    self.conclude(Ok(()))
                } else {
                    self.conclude(Err(RunError::Combine))
                }
            },
            RunEvent::Listed(None) => {
                if cancelled {
                    self.conclude(Ok(()))
                } else {
                    self.conclude(Err(RunError::Split))
                }
            },
            RunEvent::Listed(Some(files)) => {
                if cancelled {
                    self.conclude(Ok(()))
                } else {
                    self.stage = RunStage::Distribute;
                    let units = number_units(sort_names(files));
                    RunAction::Distribute(JobQueue::loaded(units))
                }
            },
            RunEvent::HostsDone(outs) => {
                match aggregate(&outs) {
                    Err(err) => self.conclude(Err(err)),
                    Ok(names) => {
                        if cancelled {
                            self.conclude(Ok(()))
                        } else {
                            self.stage = RunStage::Combine;
                            let list = file_list(self.plan.encoded_dir.as_str(), &names);
                            let command = combine(
                                self.plan.file_list.as_str(),
                                self.plan.audio.as_str(),
                                self.plan.output.as_str(),
                            );
                            RunAction::Combine { list, command }
                        }
                    },
                }
            },
            RunEvent::TornDown(_) => {
                self.stage = RunStage::Done;
                RunAction::Finish(copy_outcome(&self.pending))
            },
        }
    }
}

} // verus!

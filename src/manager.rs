//! The manager of a host: it prepares the host, keeps the host's encoder fed
//! from the global queue, and brings the encoded chunks back.
//!
//! The manager holds at most one unit its encoder has not taken; the relay
//! between them holds none, so a hand-off waits until the encoder is free.
//! A slow host therefore never hoards units that faster hosts could take.
//! The cancellation flag is read after every outside operation: a failure
//! seen while the run is being cancelled is expected and not an error, and
//! once cancelled the manager pulls no new unit, but still hands over the
//! unit it holds and brings back what its encoder finished.
use vstd::prelude::*;
use vstd::string::*;
use crate::encoder::Failure;
use crate::naming::{remote_path, remote_path_of, REMOTE_DIR};
use crate::order::views;
use crate::queue::{JobUnit, Pull};

verus! {

#[derive(Clone, Copy, PartialEq, Eq, Debug, Structural)]
pub enum ManagerPhase {
    /// Waiting for the removal of what an earlier run left on the host.
    AwaitCleanup,
    /// Waiting for the creation of the host's working directory.
    AwaitSetup,
    /// Waiting for a unit from the global queue.
    AwaitPull,
    /// Waiting for a unit to reach the host.
    AwaitUpload,
    /// Waiting for the encoder to take a unit.
    AwaitHandOff,
    /// The relay is closed; waiting for the encoder's result.
    AwaitEncoder,
    /// Waiting for an encoded chunk to come back.
    AwaitDownload,
    /// The manager has reported its result.
    Done,
}

/// A transfer or command on the host.
pub enum Remote {
    /// Run this command on the host.
    Exec(Vec<String>),
    /// Copy the local file `local` into the directory `remote_dir` of the host.
    CopyTo { local: String, remote_dir: String },
    /// Copy the file `remote` of the host into the local directory `local_dir`.
    CopyFrom { remote: String, local_dir: String },
}

pub enum RemoteOrder {
    Exec(Seq<Seq<char>>),
    CopyTo(Seq<char>, Seq<char>),
    CopyFrom(Seq<char>, Seq<char>),
}

impl View for Remote {
    type V = RemoteOrder;

    open spec fn view(&self) -> RemoteOrder {
        match self {
            Remote::Exec(c) => RemoteOrder::Exec(views(c@)),
            Remote::CopyTo { local, remote_dir } => RemoteOrder::CopyTo(local@, remote_dir@),
            Remote::CopyFrom { remote, local_dir } => RemoteOrder::CopyFrom(remote@, local_dir@),
        }
    }
}

/// What the manager learns from its runner.
pub enum ManagerEvent {
    /// The last remote operation ended, successfully or not.
    Status(bool),
    /// The global queue answered.
    Pulled(Pull),
    /// The encoder took the unit (`true`), or has ended and will take no more.
    Accepted(bool),
    /// The encoder stage ended with this result.
    EncoderDone(Result<Vec<String>, Failure>),
}

pub enum ManagerEventView {
    Status(bool),
    Pulled(Pull),
    Accepted(bool),
    EncoderDone(Result<Seq<Seq<char>>, Failure>),
}

impl View for ManagerEvent {
    type V = ManagerEventView;

    open spec fn view(&self) -> ManagerEventView {
        match self {
            ManagerEvent::Status(ok) => ManagerEventView::Status(*ok),
            ManagerEvent::Pulled(p) => ManagerEventView::Pulled(*p),
            ManagerEvent::Accepted(ok) => ManagerEventView::Accepted(*ok),
            ManagerEvent::EncoderDone(Ok(v)) => ManagerEventView::EncoderDone(Ok(views(v@))),
            ManagerEvent::EncoderDone(Err(f)) => ManagerEventView::EncoderDone(Err(*f)),
        }
    }
}

/// What the manager asks its runner to do next.
pub enum ManagerAction {
    /// Perform this on the host and report whether it succeeded.
    Remote(Remote),
    /// Pull from the global queue.
    Dequeue,
    /// Hand this unit to the encoder, waiting until it takes it or has ended.
    HandOff(JobUnit),
    /// Close the relay and wait for the encoder's result.
    CloseRelay,
    /// Stop, with the names of the encoded chunks or the failure.
    Finish(Result<Vec<String>, Failure>),
}

pub enum ManagerOrder {
    Remote(RemoteOrder),
    Dequeue,
    HandOff(JobUnit),
    CloseRelay,
    Finish(Result<Seq<Seq<char>>, Failure>),
}

impl View for ManagerAction {
    type V = ManagerOrder;

    open spec fn view(&self) -> ManagerOrder {
        match self {
            ManagerAction::Remote(r) => ManagerOrder::Remote(r@),
            ManagerAction::Dequeue => ManagerOrder::Dequeue,
            ManagerAction::HandOff(u) => ManagerOrder::HandOff(*u),
            ManagerAction::CloseRelay => ManagerOrder::CloseRelay,
            ManagerAction::Finish(Ok(v)) => ManagerOrder::Finish(Ok(views(v@))),
            ManagerAction::Finish(Err(f)) => ManagerOrder::Finish(Err(*f)),
        }
    }
}

/// The abstract state of a manager. `taken` counts the units pulled from the
/// queue, `handed` those the encoder took; `refused` records that the encoder
/// ended while the manager still held a unit.
pub struct ManagerView {
    pub phase: ManagerPhase,
    pub held: Option<JobUnit>,
    pub taken: nat,
    pub handed: nat,
    pub refused: bool,
    pub failure: Option<Failure>,
    pub encoded: Seq<Seq<char>>,
    pub fetched: nat,
    pub local_dir: Seq<char>,
}

/// The command that removes the working directory of a host.
pub open spec fn cleanup_command_of() -> Seq<Seq<char>> {
    seq!["rm"@, "-r"@, REMOTE_DIR@]
}

/// The command that creates the working directory of a host.
pub open spec fn setup_command_of() -> Seq<Seq<char>> {
    seq!["mkdir"@, REMOTE_DIR@]
}

/// The state in which a manager starts, and its first request.
pub open spec fn manager_start(local_dir: Seq<char>) -> (ManagerView, ManagerOrder) {
    (
        ManagerView {
            phase: ManagerPhase::AwaitCleanup,
            held: None,
            taken: 0,
            handed: 0,
            refused: false,
            failure: None,
            encoded: Seq::empty(),
            fetched: 0,
            local_dir,
        },
        ManagerOrder::Remote(RemoteOrder::Exec(cleanup_command_of())),
    )
}

/// Pull the next unit, unless the run is being cancelled.
pub open spec fn feed(m: ManagerView, cancelled: bool) -> (ManagerView, ManagerOrder) {
    if cancelled {
        (ManagerView { phase: ManagerPhase::AwaitEncoder, ..m }, ManagerOrder::CloseRelay)
    } else {
        (ManagerView { phase: ManagerPhase::AwaitPull, ..m }, ManagerOrder::Dequeue)
    }
}

/// Bring back the next encoded chunk, or finish once all are back.
pub open spec fn fetch(m: ManagerView) -> (ManagerView, ManagerOrder) {
    if m.fetched < m.encoded.len() {
        (
            ManagerView { phase: ManagerPhase::AwaitDownload, ..m },
            ManagerOrder::Remote(
                RemoteOrder::CopyFrom(remote_path_of(m.encoded[m.fetched as int]), m.local_dir),
            ),
        )
    } else {
        (ManagerView { phase: ManagerPhase::Done, ..m }, ManagerOrder::Finish(Ok(m.encoded)))
    }
}

/// Give up after `f`: close the relay first, so that the encoder ends.
pub open spec fn abandon(m: ManagerView, f: Failure) -> (ManagerView, ManagerOrder) {
    (
        ManagerView { phase: ManagerPhase::AwaitEncoder, held: None, failure: Some(f), ..m },
        ManagerOrder::CloseRelay,
    )
}

/// The manager's reaction to one event; `cancelled` is the cancellation flag
/// as read right after the event. A failed remote operation is fatal only
/// while the run is not being cancelled.
pub open spec fn manager_next(m: ManagerView, e: ManagerEventView, cancelled: bool) -> (
    ManagerView,
    ManagerOrder,
) {
    match e {
        ManagerEventView::Status(ok) => match m.phase {
            ManagerPhase::AwaitCleanup => (
                ManagerView { phase: ManagerPhase::AwaitSetup, ..m },
                ManagerOrder::Remote(RemoteOrder::Exec(setup_command_of())),
            ),
            ManagerPhase::AwaitSetup => if ok || cancelled {
                feed(m, cancelled)
            } else {
                abandon(m, Failure::Setup)
            },
            ManagerPhase::AwaitUpload => if ok || cancelled {
                (
                    ManagerView { phase: ManagerPhase::AwaitHandOff, ..m },
                    ManagerOrder::HandOff(m.held.unwrap()),
                )
            } else {
                abandon(m, Failure::Upload)
            },
            _ => if ok || cancelled {
                fetch(ManagerView { fetched: m.fetched + 1, ..m })
            } else {
                (
                    ManagerView {
                        phase: ManagerPhase::Done,
                        failure: Some(Failure::Download),
                        ..m
                    },
                    ManagerOrder::Finish(Err(Failure::Download)),
                )
            },
        },
        ManagerEventView::Pulled(Pull::Unit(u)) => (
            ManagerView {
                phase: ManagerPhase::AwaitUpload,
                held: Some(u),
                taken: m.taken + 1,
                ..m
            },
            ManagerOrder::Remote(RemoteOrder::CopyTo(u.path@, REMOTE_DIR@)),
        ),
        ManagerEventView::Pulled(Pull::Pending) => feed(m, cancelled),
        ManagerEventView::Pulled(Pull::Exhausted) => (
            ManagerView { phase: ManagerPhase::AwaitEncoder, ..m },
            ManagerOrder::CloseRelay,
        ),
        ManagerEventView::Accepted(true) => feed(
            ManagerView { held: None, handed: m.handed + 1, ..m },
            cancelled,
        ),
        ManagerEventView::Accepted(false) => (
            ManagerView { phase: ManagerPhase::AwaitEncoder, held: None, refused: true, ..m },
            ManagerOrder::CloseRelay,
        ),
        ManagerEventView::EncoderDone(r) => match m.failure {
            Some(f) => (ManagerView { phase: ManagerPhase::Done, ..m }, ManagerOrder::Finish(Err(f))),
            None => match r {
                Err(f) => (
                    ManagerView { phase: ManagerPhase::Done, failure: Some(f), ..m },
                    ManagerOrder::Finish(Err(f)),
                ),
                Ok(list) => if m.refused {
                    (
                        ManagerView {
                            phase: ManagerPhase::Done,
                            failure: Some(Failure::Crash),
                            ..m
                        },
                        ManagerOrder::Finish(Err(Failure::Crash)),
                    )
                } else {
                    fetch(ManagerView { encoded: list, fetched: 0, ..m })
                },
            },
        },
    }
}

/// Whether a manager in `phase` expects `e`.
pub open spec fn manager_accepts(phase: ManagerPhase, e: ManagerEventView) -> bool {
    match e {
        ManagerEventView::Status(_) => phase == ManagerPhase::AwaitCleanup || phase
            == ManagerPhase::AwaitSetup || phase == ManagerPhase::AwaitUpload || phase
            == ManagerPhase::AwaitDownload,
        ManagerEventView::Pulled(_) => phase == ManagerPhase::AwaitPull,
        ManagerEventView::Accepted(_) => phase == ManagerPhase::AwaitHandOff,
        ManagerEventView::EncoderDone(_) => phase == ManagerPhase::AwaitEncoder,
    }
}

/// Well-formed manager states: a unit is held exactly while it is uploaded or
/// offered to the encoder, at most one pulled unit has not been taken by the
/// encoder, and a unit is lost only when the encoder refused it.
pub open spec fn manager_wf(m: ManagerView) -> bool {
    &&& (m.held is Some <==> (m.phase == ManagerPhase::AwaitUpload || m.phase
        == ManagerPhase::AwaitHandOff))
    &&& m.handed <= m.taken
    &&& m.taken <= m.handed + 1
    &&& (m.phase == ManagerPhase::AwaitCleanup || m.phase == ManagerPhase::AwaitSetup || m.phase
        == ManagerPhase::AwaitPull) ==> m.taken == m.handed
    &&& m.held is Some ==> m.taken == m.handed + 1
    &&& (m.held is None && m.taken == m.handed + 1) ==> (m.refused || m.failure is Some)
    &&& m.fetched <= m.encoded.len()
    &&& m.phase == ManagerPhase::AwaitDownload ==> m.fetched < m.encoded.len() && !m.refused
    &&& m.failure is Some ==> (m.phase == ManagerPhase::AwaitEncoder || m.phase
        == ManagerPhase::Done)
}

/// Every step keeps a manager well-formed.
pub proof fn lemma_manager_next_wf(m: ManagerView, e: ManagerEventView, cancelled: bool)
    requires
        manager_wf(m),
        manager_accepts(m.phase, e),
    ensures
        manager_wf(manager_next(m, e, cancelled).0),
{
}

pub struct Manager {
    phase: ManagerPhase,
    held: Option<JobUnit>,
    taken: Ghost<nat>,
    handed: Ghost<nat>,
    refused: bool,
    failure: Option<Failure>,
    encoded: Vec<String>,
    fetched: usize,
    local_dir: String,
}

impl View for Manager {
    type V = ManagerView;

    closed spec fn view(&self) -> ManagerView {
        ManagerView {
            phase: self.phase,
            held: self.held,
            taken: self.taken@,
            handed: self.handed@,
            refused: self.refused,
            failure: self.failure,
            encoded: views(self.encoded@),
            fetched: self.fetched as nat,
            local_dir: self.local_dir@,
        }
    }
}

fn exec_command(words: Vec<String>) -> (r: ManagerAction)
    ensures
        r@ == ManagerOrder::Remote(RemoteOrder::Exec(views(words@))),
{
    ManagerAction::Remote(Remote::Exec(words))
}

impl Manager {
    pub open spec fn wf(&self) -> bool {
        manager_wf(self@)
    }

    /// A manager that will bring encoded chunks back into `local_dir`, and
    /// its first request.
    pub fn start(local_dir: String) -> (r: (Manager, ManagerAction))
        ensures
            r.0.wf(),
            (r.0@, r.1@) == manager_start(local_dir@),
    {
        let m = Manager {
            phase: ManagerPhase::AwaitCleanup,
            held: None,
            taken: Ghost(0),
            handed: Ghost(0),
            refused: false,
            failure: None,
            encoded: Vec::new(),
            fetched: 0,
            local_dir,
        };
        let mut c: Vec<String> = Vec::new();
        c.push(String::from_str("rm"));
        c.push(String::from_str("-r"));
        c.push(String::from_str(REMOTE_DIR));
        proof {
            assert(views(c@) =~= cleanup_command_of());
            assert(m@.encoded =~= Seq::<Seq<char>>::empty());
        }
        (m, exec_command(c))
    }

    pub fn phase(&self) -> (r: ManagerPhase)
        ensures
            r == self@.phase,
    {
        self.phase
    }

    /// Whether the manager expects `e` now.
    pub fn accepts(&self, e: &ManagerEvent) -> (r: bool)
        ensures
            r == manager_accepts(self@.phase, e@),
    {
        match e {
            ManagerEvent::Status(_) => self.phase == ManagerPhase::AwaitCleanup || self.phase
                == ManagerPhase::AwaitSetup || self.phase == ManagerPhase::AwaitUpload
                || self.phase == ManagerPhase::AwaitDownload,
            ManagerEvent::Pulled(_) => self.phase == ManagerPhase::AwaitPull,
            ManagerEvent::Accepted(_) => self.phase == ManagerPhase::AwaitHandOff,
            ManagerEvent::EncoderDone(_) => self.phase == ManagerPhase::AwaitEncoder,
        }
    }

    fn feed(&mut self, cancelled: bool) -> (r: ManagerAction)
        ensures
            (final(self)@, r@) == feed(old(self)@, cancelled),
    {
        if cancelled {
            self.phase = ManagerPhase::AwaitEncoder;
            ManagerAction::CloseRelay
        } else {
            self.phase = ManagerPhase::AwaitPull;
            ManagerAction::Dequeue
        }
    }

    fn fetch(&mut self) -> (r: ManagerAction)
        requires
            old(self).fetched <= old(self).encoded.len(),
        ensures
            (final(self)@, r@) == fetch(old(self)@),
    {
        if self.fetched < self.encoded.len() {
            self.phase = ManagerPhase::AwaitDownload;
            let remote = remote_path(self.encoded[self.fetched].as_str());
            ManagerAction::Remote(Remote::CopyFrom { remote, local_dir: self.local_dir.clone() })
        } else {
            self.phase = ManagerPhase::Done;
            let out = self.encoded.clone();
            proof {
                assert(views(out@) =~= views(self.encoded@));
            }
            ManagerAction::Finish(Ok(out))
        }
    }

    fn abandon(&mut self, f: Failure) -> (r: ManagerAction)
        ensures
            (final(self)@, r@) == abandon(old(self)@, f),
    {
        self.phase = ManagerPhase::AwaitEncoder;
        self.held = None;
        self.failure = Some(f);
        ManagerAction::CloseRelay
    }

    fn on_status(&mut self, ok: bool, cancelled: bool) -> (r: ManagerAction)
        requires
            old(self).wf(),
            manager_accepts(old(self)@.phase, ManagerEventView::Status(ok)),
        ensures
            final(self).wf(),
            (final(self)@, r@) == manager_next(old(self)@, ManagerEventView::Status(ok), cancelled),
    {
        if self.phase == ManagerPhase::AwaitCleanup {
            self.phase = ManagerPhase::AwaitSetup;
            let mut c: Vec<String> = Vec::new();
            c.push(String::from_str("mkdir"));
            c.push(String::from_str(REMOTE_DIR));
            proof {
                assert(views(c@) =~= setup_command_of());
            }
            exec_command(c)
        } else if self.phase == ManagerPhase::AwaitSetup {
            if ok || cancelled {
                self.feed(cancelled)
            } else {
                self.abandon(Failure::Setup)
            }
        } else if self.phase == ManagerPhase::AwaitUpload {
            if ok || cancelled {
                self.phase = ManagerPhase::AwaitHandOff;
                match &self.held {
                    Some(u) => ManagerAction::HandOff(u.duplicate()),
                    None => ManagerAction::CloseRelay,
                }
            } else {
                self.abandon(Failure::Upload)
            }
        } else {
            assert(self.phase == ManagerPhase::AwaitDownload);
            let n = self.encoded.len();
            assert(self.fetched < n);
            if ok || cancelled {
                self.fetched = self.fetched + 1;
                self.fetch()
            } else {
                self.phase = ManagerPhase::Done;
                self.failure = Some(Failure::Download);
                ManagerAction::Finish(Err(Failure::Download))
            }
        }
    }

    /// Reacts to one event; `cancelled` is the cancellation flag as read right
    /// after it.
    pub fn step(&mut self, e: ManagerEvent, cancelled: bool) -> (r: ManagerAction)
        requires
            old(self).wf(),
            manager_accepts(old(self)@.phase, e@),
        ensures
            final(self).wf(),
            (final(self)@, r@) == manager_next(old(self)@, e@, cancelled),
    {
        proof {
            lemma_manager_next_wf(old(self)@, e@, cancelled);
        }
        match e {
            ManagerEvent::Status(ok) => self.on_status(ok, cancelled),
            ManagerEvent::Pulled(Pull::Unit(u)) => {
                self.phase = ManagerPhase::AwaitUpload;
                self.taken = Ghost(self.taken@ + 1);
                let local = u.path.clone();
                self.held = Some(u);
                ManagerAction::Remote(
                    Remote::CopyTo { local, remote_dir: String::from_str(REMOTE_DIR) },
                )
            },
            ManagerEvent::Pulled(Pull::Pending) => self.feed(cancelled),
            ManagerEvent::Pulled(Pull::Exhausted) => {
                self.phase = ManagerPhase::AwaitEncoder;
                ManagerAction::CloseRelay
            },
            ManagerEvent::Accepted(taken) => {
                self.held = None;
                if taken {
                    self.handed = Ghost(self.handed@ + 1);
                    self.feed(cancelled)
                } else {
                    self.phase = ManagerPhase::AwaitEncoder;
                    self.refused = true;
                    ManagerAction::CloseRelay
                }
            },
            ManagerEvent::EncoderDone(r) => {
                match self.failure {
                    Some(f) => {
                        self.phase = ManagerPhase::Done;
                        ManagerAction::Finish(Err(f))
                    },
                    None => match r {
                        Err(f) => {
                            self.phase = ManagerPhase::Done;
                            self.failure = Some(f);
                            ManagerAction::Finish(Err(f))
                        },
                        Ok(list) => {
                            if self.refused {
                                self.phase = ManagerPhase::Done;
                                self.failure = Some(Failure::Crash);
                                ManagerAction::Finish(Err(Failure::Crash))
                            } else {
                                self.encoded = list;
                                self.fetched = 0;
                                self.fetch()
                            }
                        },
                    },
                }
            },
        }
    }
}

} // verus!

//! The encoder stage of a host: it encodes, one at a time, the units its
//! manager hands over, and reports the names of the encoded files.
//!
//! A unit that reaches the encoder is encoded even when the run is being
//! cancelled: cancellation stops the pulling of new units, not the work on
//! units already taken. An encoding that fails while the run is being
//! cancelled was most likely ended by the interrupt itself, and is dropped
//! without error.
use vstd::prelude::*;
use vstd::string::*;
use crate::naming::{base_name, base_name_of, encoded_name, encoded_name_of, remote_path, remote_path_of};
use crate::order::views;
use crate::queue::JobUnit;

verus! {

/// Why a host's work failed.
#[derive(Clone, Copy, PartialEq, Eq, Debug, Structural)]
pub enum Failure {
    /// The working directory on the host could not be created.
    Setup,
    /// A chunk could not be copied to the host.
    Upload,
    /// The encoding command failed on the host.
    Encode,
    /// An encoded chunk could not be copied back.
    Download,
    /// The host's encoder stage ended abnormally.
    Crash,
}

#[derive(Clone, Copy, PartialEq, Eq, Debug, Structural)]
pub enum EncoderPhase {
    /// Ready to take the next unit from the relay.
    Waiting,
    /// A unit is being encoded on the host.
    Encoding,
    /// The stage has returned its result.
    Finished,
}

/// What the encoder learns from its runner.
pub enum EncoderEvent {
    /// The relay produced a unit, or was closed by the manager.
    Received(Option<JobUnit>),
    /// The encoding command ended, successfully or not.
    Ran(bool),
}

/// What the encoder asks its runner to do next.
pub enum EncoderAction {
    /// Take the next unit from the relay.
    Receive,
    /// Run this command on the host.
    Run(Vec<String>),
    /// Stop, with the encoded names or the failure.
    Return(Result<Vec<String>, Failure>),
}

pub enum EncoderOrder {
    Receive,
    Run(Seq<Seq<char>>),
    Return(Result<Seq<Seq<char>>, Failure>),
}

impl View for EncoderAction {
    type V = EncoderOrder;

    open spec fn view(&self) -> EncoderOrder {
        match self {
            EncoderAction::Receive => EncoderOrder::Receive,
            EncoderAction::Run(c) => EncoderOrder::Run(views(c@)),
            EncoderAction::Return(Ok(v)) => EncoderOrder::Return(Ok(views(v@))),
            EncoderAction::Return(Err(f)) => EncoderOrder::Return(Err(*f)),
        }
    }
}

/// The abstract state of an encoder stage. `received` lists every unit taken
/// from the relay; `skipped` counts those whose encoding failed while the run
/// was being cancelled, and so left no record.
pub struct EncoderView {
    pub phase: EncoderPhase,
    pub ext: Seq<char>,
    pub options: Seq<Seq<char>>,
    pub records: Seq<Seq<char>>,
    pub current: Seq<char>,
    pub received: Seq<JobUnit>,
    pub skipped: nat,
}

/// The command, run on a host, that encodes the chunk uploaded from `path`.
pub open spec fn encode_command_of(path: Seq<char>, ext: Seq<char>, options: Seq<Seq<char>>) -> Seq<
    Seq<char>,
> {
    seq!["ffmpeg"@, "-y"@, "-i"@, remote_path_of(base_name_of(path))] + options + seq![
        remote_path_of(encoded_name_of(path, ext)),
    ]
}

/// The encoder stage's reaction to one event; `cancelled` is the cancellation
/// flag as read right after the event.
pub open spec fn encoder_next(e: EncoderView, ev: EncoderEvent, cancelled: bool) -> (
    EncoderView,
    EncoderOrder,
) {
    match ev {
        EncoderEvent::Received(Some(u)) => (
            EncoderView {
                phase: EncoderPhase::Encoding,
                current: encoded_name_of(u.path@, e.ext),
                received: e.received.push(u),
                ..e
            },
            EncoderOrder::Run(encode_command_of(u.path@, e.ext, e.options)),
        ),
        EncoderEvent::Received(None) => (
            EncoderView { phase: EncoderPhase::Finished, ..e },
            EncoderOrder::Return(Ok(e.records)),
        ),
        EncoderEvent::Ran(ok) => if ok {
            (
                EncoderView {
                    phase: EncoderPhase::Waiting,
                    records: e.records.push(e.current),
                    ..e
                },
                EncoderOrder::Receive,
            )
        } else if cancelled {
            (
                EncoderView { phase: EncoderPhase::Waiting, skipped: e.skipped + 1, ..e },
                EncoderOrder::Receive,
            )
        } else {
            (
                EncoderView { phase: EncoderPhase::Finished, skipped: e.skipped + 1, ..e },
                EncoderOrder::Return(Err(Failure::Encode)),
            )
        },
    }
}

/// Whether an encoder in `phase` expects `ev`.
pub open spec fn encoder_accepts(phase: EncoderPhase, ev: EncoderEvent) -> bool {
    match ev {
        EncoderEvent::Received(_) => phase == EncoderPhase::Waiting,
        EncoderEvent::Ran(_) => phase == EncoderPhase::Encoding,
    }
}

/// Well-formed encoder states: one record per unit encoded, in the order
/// received, and at most one unit in hand.
pub open spec fn encoder_wf(e: EncoderView) -> bool {
    &&& e.phase == EncoderPhase::Encoding ==> {
        &&& e.received.len() == e.records.len() + e.skipped + 1
        &&& e.current == encoded_name_of(e.received.last().path@, e.ext)
    }
    &&& e.phase != EncoderPhase::Encoding ==> e.received.len() == e.records.len() + e.skipped
    &&& e.skipped == 0 ==> forall|i: int|
        0 <= i < e.records.len() ==> #[trigger] e.records[i] == encoded_name_of(
            e.received[i].path@,
            e.ext,
        )
}

pub struct Encoder {
    phase: EncoderPhase,
    ext: String,
    options: Vec<String>,
    records: Vec<String>,
    current: String,
    received: Ghost<Seq<JobUnit>>,
    skipped: Ghost<nat>,
}

impl View for Encoder {
    type V = EncoderView;

    closed spec fn view(&self) -> EncoderView {
        EncoderView {
            phase: self.phase,
            ext: self.ext@,
            options: views(self.options@),
            records: views(self.records@),
            current: self.current@,
            received: self.received@,
            skipped: self.skipped@,
        }
    }
}

/// The command that encodes the chunk uploaded from `path`.
pub fn encode_command(path: &str, ext: &str, options: &Vec<String>) -> (r: Vec<String>)
    ensures
        views(r@) == encode_command_of(path@, ext@, views(options@)),
{
    let mut r: Vec<String> = Vec::new();
    r.push(String::from_str("ffmpeg"));
    r.push(String::from_str("-y"));
    r.push(String::from_str("-i"));
    let base = base_name(path);
    r.push(remote_path(base.as_str()));
    let ghost head = r@;
    let mut i: usize = 0;
    while i < options.len()
        invariant
            i <= options.len(),
            r@.len() == 4 + i,
            r@.subrange(0, 4) == head,
            views(r@.subrange(4, 4 + i as int)) == views(options@).take(i as int),
        decreases options.len() - i,
    {
        let ghost prev = r@;
        r.push(options[i].clone());
        proof {
            assert(r@.subrange(0, 4) =~= prev.subrange(0, 4));
            assert(r@.subrange(4, 5 + i as int) =~= prev.subrange(4, 4 + i as int).push(
                options@[i as int],
            ));
            assert(views(options@).take(i + 1) =~= views(options@).take(i as int).push(
                options@[i as int]@,
            ));
            assert(views(r@.subrange(4, 5 + i as int)) =~= views(prev.subrange(4, 4 + i as int)).push(
                options@[i as int]@,
            ));
        }
        i = i + 1;
    }
    let name = encoded_name(path, ext);
    r.push(remote_path(name.as_str()));
    proof {
        assert(views(options@).take(options@.len() as int) =~= views(options@));
        assert(views(r@) =~= views(head) + views(r@.subrange(4, 4 + options@.len() as int)) + seq![
            remote_path_of(encoded_name_of(path@, ext@)),
        ]);
        assert(views(r@) =~= encode_command_of(path@, ext@, views(options@)));
    }
    r
}

impl Encoder {
    pub open spec fn wf(&self) -> bool {
        encoder_wf(self@)
    }

    /// A waiting encoder that will name its outputs with the extension `ext`
    /// and pass `options` to the encoding command.
    pub fn new(ext: String, options: Vec<String>) -> (r: Encoder)
        ensures
            r.wf(),
            r@.phase == EncoderPhase::Waiting,
            r@.ext == ext@,
            r@.options == views(options@),
            r@.records.len() == 0,
            r@.received.len() == 0,
            r@.skipped == 0,
    {
        Encoder {
            phase: EncoderPhase::Waiting,
            ext,
            options,
            records: Vec::new(),
            current: String::new(),
            received: Ghost(Seq::empty()),
            skipped: Ghost(0),
        }
    }

    pub fn phase(&self) -> (r: EncoderPhase)
        ensures
            r == self@.phase,
    {
        self.phase
    }

    /// Whether the encoder expects `ev` now.
    pub fn accepts(&self, ev: &EncoderEvent) -> (r: bool)
        ensures
            r == encoder_accepts(self@.phase, *ev),
    {
        match ev {
            EncoderEvent::Received(_) => self.phase == EncoderPhase::Waiting,
            EncoderEvent::Ran(_) => self.phase == EncoderPhase::Encoding,
        }
    }

    /// Reacts to one event; `cancelled` is the cancellation flag as read right
    /// after it.
    pub fn step(&mut self, ev: EncoderEvent, cancelled: bool) -> (r: EncoderAction)
        requires
            old(self).wf(),
            encoder_accepts(old(self)@.phase, ev),
        ensures
            final(self).wf(),
            (final(self)@, r@) == encoder_next(old(self)@, ev, cancelled),
    {
        let ghost pre = self@;
        match ev {
            EncoderEvent::Received(Some(u)) => {
                let cmd = encode_command(u.path.as_str(), self.ext.as_str(), &self.options);
                self.current = encoded_name(u.path.as_str(), self.ext.as_str());
                self.phase = EncoderPhase::Encoding;
                self.received = Ghost(self.received@.push(u));
                proof {
                    assert(self@.received.last() == u);
                    assert forall|i: int| 0 <= i < self@.records.len() implies self@.received[i]
                        == pre.received[i] by {}
                }
                EncoderAction::Run(cmd)
            },
            EncoderEvent::Received(None) => {
                self.phase = EncoderPhase::Finished;
                let out = self.records.clone();
                proof {
                    assert(views(out@) =~= views(self.records@));
                }
                EncoderAction::Return(Ok(out))
            },
            EncoderEvent::Ran(ok) => {
                if ok {
                    let name = self.current.clone();
                    self.records.push(name);
                    self.phase = EncoderPhase::Waiting;
                    proof {
                        assert(views(self.records@) =~= pre.records.push(pre.current));
                    }
                    EncoderAction::Receive
                } else if cancelled {
                    self.phase = EncoderPhase::Waiting;
                    self.skipped = Ghost(self.skipped@ + 1);
                    EncoderAction::Receive
                } else {
                    self.phase = EncoderPhase::Finished;
                    self.skipped = Ghost(self.skipped@ + 1);
                    EncoderAction::Return(Err(Failure::Encode))
                }
            },
        }
    }
}

} // verus!

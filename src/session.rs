use vstd::prelude::*;
use crate::config::{ConfigError, LinkConfig, LinkSettings, settings_match};

verus! {

/// How the bytes reach the device.
#[derive(Clone, Copy, Debug, PartialEq, Eq, Structural)]
pub enum TransferMode {
    /// Every byte of the source is copied to the device as it is.
    Raw,
    /// The source is sent through the XMODEM protocol.
    Framed,
}

/// Where the bytes to send come from.
#[derive(Clone, Debug, PartialEq, Eq)]
pub enum InputSource {
    /// A file, by its path.
    File(String),
    /// The process's standard input.
    StandardInput,
}

/// Picks the byte source: the file at `path` when one is given, standard
/// input otherwise.
pub fn select_source(path: Option<String>) -> (r: InputSource)
    ensures
        match path {
            Some(p) => r == InputSource::File(p),
            None => r == InputSource::StandardInput,
        },
{
    match path {
        Some(p) => InputSource::File(p),
        None => InputSource::StandardInput,
    }
}

/// Why the protocol engine gave up.
#[derive(Clone, Copy, Debug, PartialEq, Eq, Structural)]
pub enum ProtocolFailure {
    /// Reading the source or talking to the device failed.
    Io,
    /// Too many errors happened in one transmission.
    ExhaustedRetries,
    /// The remote end canceled the transmission.
    Canceled,
    /// The remote end sent data that does not fit the transfer state.
    Invalid,
    /// A packet arrived with mismatched sequence numbers.
    SequenceMismatch,
    /// A packet arrived with a wrong checksum.
    Checksum,
}

/// Why the transfer itself failed.
#[derive(Clone, Copy, Debug, PartialEq, Eq, Structural)]
pub enum TransferError {
    /// Reading the source failed.
    SourceReadFailed,
    /// Writing to the device failed.
    SinkWriteFailed,
    /// The protocol engine gave up.
    ProtocolFailed(ProtocolFailure),
    /// More bytes were copied than a `u64` counts.
    CountOverflow,
}

/// Why an invocation ended without a byte count.
#[derive(Clone, Copy, Debug, PartialEq, Eq, Structural)]
pub enum Failure {
    /// The link could not be configured; nothing was sent.
    Config(ConfigError),
    /// The input could not be opened; nothing was sent.
    InputUnavailable,
    /// The transfer started and then failed.
    Transfer(TransferError),
}

/// Where an invocation stands.
#[derive(Clone, Copy, Debug, PartialEq, Eq, Structural)]
pub enum Phase {
    /// Nothing has been done yet.
    Idle,
    /// The device timeout is being applied.
    SettingTimeout,
    /// The line settings are being written to the device.
    ApplyingSettings,
    /// The settings are being read back from the device.
    CheckingSettings,
    /// The byte source is being opened.
    OpeningInput,
    /// Raw copy: the next chunk of the source is being read.
    Reading,
    /// Raw copy: a chunk is being written to the device.
    Writing,
    /// The protocol engine is running.
    Framing,
    /// The transfer succeeded with this many bytes.
    Done(u64),
    /// The invocation failed.
    Failed(Failure),
}

/// What the driver of a session reports back after doing an action.
#[derive(Clone, Debug, PartialEq, Eq)]
pub enum Event {
    /// Start the invocation.
    Begin,
    /// The device took the timeout.
    TimeoutSet,
    /// The device refused the timeout.
    TimeoutRejected,
    /// The settings were written to the device.
    SettingsApplied,
    /// The device refused the baud rate.
    BaudRejected,
    /// The device refused the settings as a whole.
    SettingsRejected,
    /// The device's settings could not be read.
    DeviceUnreachable,
    /// The device reports these settings.
    SettingsReported(LinkSettings),
    /// The byte source is open.
    InputOpened,
    /// The byte source could not be opened.
    InputUnavailable,
    /// These bytes were read from the source; none means end of input.
    Chunk(Vec<u8>),
    /// The end of the source was reached.
    EndOfInput,
    /// Reading the source failed.
    ReadFailed,
    /// The last chunk was written to the device in full.
    Written,
    /// Writing the last chunk failed.
    WriteFailed,
    /// The protocol engine finished, having sent this many bytes.
    ProtocolFinished(u64),
    /// The protocol engine failed.
    ProtocolFailed(ProtocolFailure),
}

/// What the driver of a session is asked to do next.
#[derive(Clone, Debug, PartialEq, Eq)]
pub enum Action {
    /// Set the device timeout to this many seconds.
    SetTimeout(u64),
    /// Read the device's settings, put these values into them and write
    /// them back.
    ApplySettings(LinkConfig),
    /// Read the device's settings and report them.
    ReadSettings,
    /// Open the session's input source.
    OpenInput,
    /// Read the next chunk of the source.
    ReadChunk,
    /// Write all of these bytes to the device.
    Write(Vec<u8>),
    /// Run the protocol engine from the source to the device.
    RunProtocol,
    /// The invocation succeeded with this many bytes sent.
    Finish(u64),
    /// The invocation failed.
    Abort(Failure),
    /// The event did not fit the phase and was ignored; carry on as before.
    Ignore,
}

/// One invocation: configure the link, open the source, transfer.
///
/// The session decides; its driver performs each `Action` and reports
/// the outcome as an `Event` to `step`.
///
/// The link is configured before the source is opened, so a source that
/// cannot be opened leaves the device configured as requested.
#[derive(Clone, Debug)]
pub struct Session {
    pub config: LinkConfig,
    pub mode: TransferMode,
    pub input: InputSource,
    pub phase: Phase,
    /// Bytes confirmed written by the raw copy so far.
    pub copied: u64,
    /// Length of the chunk being written by the raw copy.
    pub pending: u64,
    /// What the device reported when its settings were read back.
    pub reported: Option<LinkSettings>,
}

/// The session after `s` with phase `p` and nothing else changed.
pub open spec fn with_phase(s: Session, p: Phase) -> Session {
    Session { phase: p, ..s }
}

pub open spec fn fail(s: Session, f: Failure) -> (Session, Action) {
    (with_phase(s, Phase::Failed(f)), Action::Abort(f))
}

/// One transition: the session after `e`, and what to do next.
pub open spec fn next(s: Session, e: Event) -> (Session, Action) {
    match s.phase {
        Phase::Done(n) => (s, Action::Finish(n)),
        Phase::Failed(f) => (s, Action::Abort(f)),
        Phase::Idle => match e {
            Event::Begin => (
                with_phase(s, Phase::SettingTimeout),
                Action::SetTimeout(s.config.timeout_secs),
            ),
            _ => (s, Action::Ignore),
        },
        Phase::SettingTimeout => match e {
            Event::TimeoutSet => (
                with_phase(s, Phase::ApplyingSettings),
                Action::ApplySettings(s.config),
            ),
            Event::TimeoutRejected => fail(s, Failure::Config(ConfigError::InvalidTimeout)),
            _ => (s, Action::Ignore),
        },
        Phase::ApplyingSettings => match e {
            Event::SettingsApplied => (with_phase(s, Phase::CheckingSettings), Action::ReadSettings),
            Event::BaudRejected => fail(s, Failure::Config(ConfigError::InvalidBaudRate)),
            Event::SettingsRejected => fail(s, Failure::Config(ConfigError::UnsupportedSettings)),
            Event::DeviceUnreachable => fail(s, Failure::Config(ConfigError::DeviceUnreachable)),
            _ => (s, Action::Ignore),
        },
        Phase::CheckingSettings => match e {
            Event::SettingsReported(r) => if r == s.config.requested() {
                (
                    Session { phase: Phase::OpeningInput, reported: Some(r), ..s },
                    Action::OpenInput,
                )
            } else {
                fail(
                    Session { reported: Some(r), ..s },
                    Failure::Config(ConfigError::UnsupportedSettings),
                )
            },
            Event::DeviceUnreachable => fail(s, Failure::Config(ConfigError::DeviceUnreachable)),
            _ => (s, Action::Ignore),
        },
        Phase::OpeningInput => match e {
            Event::InputOpened => match s.mode {
                TransferMode::Raw => (with_phase(s, Phase::Reading), Action::ReadChunk),
                TransferMode::Framed => (with_phase(s, Phase::Framing), Action::RunProtocol),
            },
            Event::InputUnavailable => fail(s, Failure::InputUnavailable),
            _ => (s, Action::Ignore),
        },
        Phase::Reading => match e {
            Event::Chunk(v) => if v@.len() == 0 {
                (with_phase(s, Phase::Done(s.copied)), Action::Finish(s.copied))
            } else if s.copied + v@.len() > u64::MAX {
                fail(s, Failure::Transfer(TransferError::CountOverflow))
            } else {
                (
                    Session { phase: Phase::Writing, pending: v@.len() as u64, ..s },
                    Action::Write(v),
                )
            },
            Event::EndOfInput => (with_phase(s, Phase::Done(s.copied)), Action::Finish(s.copied)),
            Event::ReadFailed => fail(s, Failure::Transfer(TransferError::SourceReadFailed)),
            _ => (s, Action::Ignore),
        },
        Phase::Writing => match e {
            Event::Written => (
                Session {
                    phase: Phase::Reading,
                    copied: (s.copied + s.pending) as u64,
                    pending: 0,
                    ..s
                },
                Action::ReadChunk,
            ),
            Event::WriteFailed => fail(s, Failure::Transfer(TransferError::SinkWriteFailed)),
            _ => (s, Action::Ignore),
        },
        Phase::Framing => match e {
            Event::ProtocolFinished(n) => (with_phase(s, Phase::Done(n)), Action::Finish(n)),
            Event::ProtocolFailed(why) => fail(
                s,
                Failure::Transfer(TransferError::ProtocolFailed(why)),
            ),
            _ => (s, Action::Ignore),
        },
    }
}

/// Well-formed: the raw copy's pending chunk fits beside what was copied.
pub open spec fn session_wf(s: Session) -> bool {
    s.phase is Writing ==> s.copied + s.pending <= u64::MAX
}

impl Session {
    /// A session that has done nothing yet.
    pub fn new(config: LinkConfig, mode: TransferMode, input: InputSource) -> (r: Session)
        ensures
            r == Session::initial(config, mode, input),
            session_wf(r),
    {
        Session { config, mode, input, phase: Phase::Idle, copied: 0, pending: 0, reported: None }
    }

    pub open spec fn initial(config: LinkConfig, mode: TransferMode, input: InputSource) -> Session {
        Session { config, mode, input, phase: Phase::Idle, copied: 0, pending: 0, reported: None }
    }

    fn abort(&mut self, f: Failure) -> (a: Action)
        ensures
            (*final(self), a) == fail(*old(self), f),
    {
        self.phase = Phase::Failed(f);
        Action::Abort(f)
    }

    /// Takes the outcome of the last action and says what to do next.
    pub fn step(&mut self, e: Event) -> (a: Action)
        requires
            session_wf(*old(self)),
        ensures
            (*final(self), a) == next(*old(self), e),
            session_wf(*final(self)),
    {
        match self.phase {
            Phase::Done(n) => Action::Finish(n),
            Phase::Failed(f) => Action::Abort(f),
            Phase::Idle => match e {
                Event::Begin => {
                    self.phase = Phase::SettingTimeout;
                    Action::SetTimeout(self.config.timeout_secs)
                },
                _ => Action::Ignore,
            },
            Phase::SettingTimeout => match e {
                Event::TimeoutSet => {
                    self.phase = Phase::ApplyingSettings;
                    Action::ApplySettings(self.config)
                },
                Event::TimeoutRejected => self.abort(Failure::Config(ConfigError::InvalidTimeout)),
                _ => Action::Ignore,
            },
            Phase::ApplyingSettings => match e {
                Event::SettingsApplied => {
                    self.phase = Phase::CheckingSettings;
                    Action::ReadSettings
                },
                Event::BaudRejected => self.abort(Failure::Config(ConfigError::InvalidBaudRate)),
                Event::SettingsRejected => self.abort(
                    Failure::Config(ConfigError::UnsupportedSettings),
                ),
                Event::DeviceUnreachable => self.abort(
                    Failure::Config(ConfigError::DeviceUnreachable),
                ),
                _ => Action::Ignore,
            },
            Phase::CheckingSettings => match e {
                Event::SettingsReported(r) => {
                    self.reported = Some(r);
                    if settings_match(&self.config, &r) {
                        self.phase = Phase::OpeningInput;
                        Action::OpenInput
                    } else {
                        self.abort(Failure::Config(ConfigError::UnsupportedSettings))
                    }
                },
                Event::DeviceUnreachable => self.abort(
                    Failure::Config(ConfigError::DeviceUnreachable),
                ),
                _ => Action::Ignore,
            },
            Phase::OpeningInput => match e {
                Event::InputOpened => match self.mode {
                    TransferMode::Raw => {
                        self.phase = Phase::Reading;
                        Action::ReadChunk
                    },
                    TransferMode::Framed => {
                        self.phase = Phase::Framing;
                        Action::RunProtocol
                    },
                },
                Event::InputUnavailable => self.abort(Failure::InputUnavailable),
                _ => Action::Ignore,
            },
            Phase::Reading => match e {
                Event::Chunk(v) => {
                    let len = v.len() as u64;
                    if len == 0 {
                        self.phase = Phase::Done(self.copied);
                        Action::Finish(self.copied)
                    } else if len > u64::MAX - self.copied {
                        self.abort(Failure::Transfer(TransferError::CountOverflow))
                    } else {
                        self.phase = Phase::Writing;
                        self.pending = len;
                        Action::Write(v)
                    }
                },
                Event::EndOfInput => {
                    self.phase = Phase::Done(self.copied);
                    Action::Finish(self.copied)
                },
                Event::ReadFailed => self.abort(Failure::Transfer(TransferError::SourceReadFailed)),
                _ => Action::Ignore,
            },
            Phase::Writing => match e {
                Event::Written => {
                    self.phase = Phase::Reading;
                    self.copied = self.copied + self.pending;
                    self.pending = 0;
                    Action::ReadChunk
                },
                Event::WriteFailed => self.abort(Failure::Transfer(TransferError::SinkWriteFailed)),
                _ => Action::Ignore,
            },
            Phase::Framing => match e {
                Event::ProtocolFinished(n) => {
                    self.phase = Phase::Done(n);
                    Action::Finish(n)
                },
                Event::ProtocolFailed(why) => self.abort(
                    Failure::Transfer(TransferError::ProtocolFailed(why)),
                ),
                _ => Action::Ignore,
            },
        }
    }
}

/// The session after each event of `evs` in turn, and the actions asked
/// for on the way.
pub open spec fn run(s: Session, evs: Seq<Event>) -> (Session, Seq<Action>)
    decreases evs.len(),
{
    if evs.len() == 0 {
        (s, Seq::empty())
    } else {
        let (s1, a) = next(s, evs[0]);
        let (s2, acts) = run(s1, evs.drop_first());
        (s2, seq![a] + acts)
    }
}

/// Whether an action moves bytes towards the device.
pub open spec fn is_transfer(a: Action) -> bool {
    a is Write || a is RunProtocol
}

/// The link has been configured and confirmed: the session is opening its
/// source or beyond.
pub open spec fn configured(s: Session) -> bool {
    match s.phase {
        Phase::OpeningInput | Phase::Reading | Phase::Writing | Phase::Framing | Phase::Done(_) => true,
        Phase::Failed(Failure::InputUnavailable) | Phase::Failed(Failure::Transfer(_)) => true,
        _ => false,
    }
}

/// The source is open and the transfer has begun.
pub open spec fn transferring(s: Session) -> bool {
    match s.phase {
        Phase::Reading | Phase::Writing | Phase::Framing | Phase::Done(_) => true,
        Phase::Failed(Failure::Transfer(_)) => true,
        _ => false,
    }
}

/// A configured session carries the settings the device confirmed, and
/// they are the requested ones.
pub open spec fn confirmed(s: Session) -> bool {
    configured(s) ==> s.reported == Some(s.config.requested())
}

/// The bytes handed to the device by the `Write` actions of `acts`, in order.
pub open spec fn sent(acts: Seq<Action>) -> Seq<u8>
    decreases acts.len(),
{
    if acts.len() == 0 {
        Seq::empty()
    } else {
        let head = match acts[0] {
            Action::Write(v) => v@,
            _ => Seq::empty(),
        };
        head + sent(acts.drop_first())
    }
}

/// The chunks joined end to end.
pub open spec fn concat(cs: Seq<Vec<u8>>) -> Seq<u8>
    decreases cs.len(),
{
    if cs.len() == 0 {
        Seq::empty()
    } else {
        cs[0]@ + concat(cs.drop_first())
    }
}

/// The events of a raw copy from a source that yields `cs` and then ends,
/// into a device that takes every write.
pub open spec fn raw_feed(cs: Seq<Vec<u8>>) -> Seq<Event>
    decreases cs.len(),
{
    if cs.len() == 0 {
        seq![Event::EndOfInput]
    } else {
        seq![Event::Chunk(cs[0]), Event::Written] + raw_feed(cs.drop_first())
    }
}

proof fn lemma_step_facts(s: Session, e: Event)
    requires
        confirmed(s),
    ensures
        confirmed(next(s, e).0),
        next(s, e).0.config == s.config,
        configured(s) ==> configured(next(s, e).0),
        transferring(s) ==> transferring(next(s, e).0),
        is_transfer(next(s, e).1) ==> transferring(next(s, e).0),
{
}

proof fn lemma_run_facts(s: Session, evs: Seq<Event>)
    requires
        confirmed(s),
    ensures
        confirmed(run(s, evs).0),
        run(s, evs).0.config == s.config,
        transferring(s) ==> transferring(run(s, evs).0),
        (exists|i: int| 0 <= i < run(s, evs).1.len() && is_transfer(#[trigger] run(s, evs).1[i]))
            ==> transferring(run(s, evs).0),
    decreases evs.len(),
{
    if evs.len() > 0 {
        let (s1, a) = next(s, evs[0]);
        lemma_step_facts(s, evs[0]);
        lemma_run_facts(s1, evs.drop_first());
        let acts = run(s, evs).1;
        let rest = run(s1, evs.drop_first()).1;
        assert(acts == seq![a] + rest);
        if exists|i: int| 0 <= i < acts.len() && is_transfer(#[trigger] acts[i]) {
            let i = choose|i: int| 0 <= i < acts.len() && is_transfer(#[trigger] acts[i]);
            if i > 0 {
                assert(rest[i - 1] == acts[i]);
            }
        }
    }
}

/// Nothing moves towards the device until the device has confirmed the
/// requested settings: whenever a run of a new session has asked for a
/// transfer, the settings read back from the device are exactly those
/// requested; and a run that ends in a configuration failure never asked
/// for one.
pub proof fn lemma_transfer_only_after_confirmed(
    config: LinkConfig,
    mode: TransferMode,
    input: InputSource,
    evs: Seq<Event>,
)
    ensures
        ({
            let (f, acts) = run(Session::initial(config, mode, input), evs);
            &&& (exists|i: int| 0 <= i < acts.len() && is_transfer(#[trigger] acts[i]))
                ==> f.reported == Some(config.requested())
            &&& (f.phase matches Phase::Failed(Failure::Config(_)))
                ==> forall|i: int| 0 <= i < acts.len() ==> !is_transfer(#[trigger] acts[i])
        }),
{
    lemma_run_facts(Session::initial(config, mode, input), evs);
}

/// A source that cannot be opened ends the invocation before any byte is
/// written: a run of a new session that ends because the input was
/// unavailable never asked for a transfer.
pub proof fn lemma_missing_input_sends_nothing(
    config: LinkConfig,
    mode: TransferMode,
    input: InputSource,
    evs: Seq<Event>,
)
    ensures
        ({
            let (f, acts) = run(Session::initial(config, mode, input), evs);
            f.phase == Phase::Failed(Failure::InputUnavailable)
                ==> forall|i: int| 0 <= i < acts.len() ==> !is_transfer(#[trigger] acts[i])
        }),
{
    lemma_run_facts(Session::initial(config, mode, input), evs);
}

proof fn lemma_failed_stays(s: Session, evs: Seq<Event>)
    requires
        s.phase is Failed,
    ensures
        run(s, evs).0 == s,
        forall|i: int| 0 <= i < run(s, evs).1.len()
            ==> #[trigger] run(s, evs).1[i] == Action::Abort(s.phase->Failed_0),
    decreases evs.len(),
{
    if evs.len() > 0 {
        lemma_failed_stays(s, evs.drop_first());
        let rest = run(s, evs.drop_first()).1;
        assert forall|i: int| 0 <= i < run(s, evs).1.len()
            implies #[trigger] run(s, evs).1[i] == Action::Abort(s.phase->Failed_0) by {
            if i > 0 {
                assert(run(s, evs).1[i] == rest[i - 1]);
            }
        }
    }
}

/// When the device refuses a zero timeout, configuration fails and stays
/// failed: whatever is reported afterwards, the session never starts the
/// protocol engine (so no progress is ever reported) nor writes a byte.
pub proof fn lemma_rejected_timeout_stops(
    config: LinkConfig,
    mode: TransferMode,
    input: InputSource,
    evs: Seq<Event>,
)
    requires
        config.timeout_secs == 0,
    ensures
        ({
            let (f, acts) = run(
                Session::initial(config, mode, input),
                seq![Event::Begin, Event::TimeoutRejected] + evs,
            );
            &&& f.phase == Phase::Failed(Failure::Config(ConfigError::InvalidTimeout))
            &&& forall|i: int| 0 <= i < acts.len() ==> !is_transfer(#[trigger] acts[i])
        }),
{
    let s0 = Session::initial(config, mode, input);
    let all = seq![Event::Begin, Event::TimeoutRejected] + evs;
    let s1 = next(s0, Event::Begin).0;
    let s2 = next(s1, Event::TimeoutRejected).0;
    assert(all.drop_first() =~= seq![Event::TimeoutRejected] + evs);
    assert(all.drop_first().drop_first() =~= evs);
    lemma_failed_stays(s2, evs);
    let rest = run(s2, evs).1;
    let abort = Action::Abort(Failure::Config(ConfigError::InvalidTimeout));
    assert(run(s1, all.drop_first()) == (s2, seq![abort] + rest));
    assert(run(s0, all) == (s2, seq![Action::SetTimeout(0)] + (seq![abort] + rest)));
    let acts = run(s0, all).1;
    assert forall|i: int| 0 <= i < acts.len() implies !is_transfer(#[trigger] acts[i]) by {
        if i >= 2 {
            assert(acts[i] == rest[i - 2]);
        }
    }
}

/// A raw copy of a source that yields the non-empty chunks `cs` into a
/// device that takes every write hands the device exactly the bytes of
/// the source, in order, and finishes with their number added to the
/// count so far.
pub proof fn lemma_raw_copy_delivers_all(s: Session, cs: Seq<Vec<u8>>)
    requires
        s.phase == Phase::Reading,
        forall|i: int| 0 <= i < cs.len() ==> (#[trigger] cs[i])@.len() > 0,
        s.copied + concat(cs).len() <= u64::MAX,
    ensures
        ({
            let (f, acts) = run(s, raw_feed(cs));
            let n = (s.copied + concat(cs).len()) as u64;
            &&& f.phase == Phase::Done(n)
            &&& sent(acts) == concat(cs)
            &&& acts.len() > 0 && acts.last() == Action::Finish(n)
        }),
    decreases cs.len(),
{
    let evs = raw_feed(cs);
    if cs.len() == 0 {
        let n = s.copied;
        assert(evs.drop_first() =~= Seq::<Event>::empty());
        let f = with_phase(s, Phase::Done(n));
        assert(evs[0] == Event::EndOfInput);
        assert(run(f, evs.drop_first()) == (f, Seq::<Action>::empty()));
        assert(run(s, evs) == (f, seq![Action::Finish(n)] + Seq::<Action>::empty()));
        let acts = run(s, evs).1;
        assert(acts =~= seq![Action::Finish(n)]);
        assert(acts.drop_first() =~= Seq::<Action>::empty());
        assert(sent(acts) =~= Seq::<u8>::empty() + sent(acts.drop_first()));
        assert(concat(cs) =~= Seq::<u8>::empty());
    } else {
        let c = cs[0];
        let tail = cs.drop_first();
        assert forall|i: int| 0 <= i < tail.len() implies (#[trigger] tail[i])@.len() > 0 by {
            assert(tail[i] == cs[i + 1]);
        }
        let rest = raw_feed(tail);
        assert(evs.drop_first() =~= seq![Event::Written] + rest);
        assert(evs.drop_first().drop_first() =~= rest);
        let s1 = next(s, Event::Chunk(c)).0;
        let s2 = next(s1, Event::Written).0;
        assert(s2.phase == Phase::Reading);
        assert(s2.copied == s.copied + c@.len());
        lemma_raw_copy_delivers_all(s2, tail);
        let r = run(s2, rest);
        assert(run(s1, evs.drop_first()) == (r.0, seq![Action::ReadChunk] + r.1));
        assert(run(s, evs) == (r.0, seq![Action::Write(c)] + (seq![Action::ReadChunk] + r.1)));
        let acts = run(s, evs).1;
        let racts = r.1;
        assert(acts.drop_first() =~= seq![Action::ReadChunk] + racts);
        assert(acts.drop_first().drop_first() =~= racts);
        assert(sent(acts.drop_first()) =~= Seq::<u8>::empty() + sent(racts));
        assert(sent(acts) =~= c@ + sent(acts.drop_first()));
        assert(acts.last() == racts.last());
    }
}

} // verus!

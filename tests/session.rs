use ttywrite::config::{CharWidth, ConfigError, FlowControl, LinkConfig, LinkSettings, StopBits};
use ttywrite::session::{
    select_source, Action, Event, Failure, InputSource, Phase, ProtocolFailure, Session,
    TransferError,
    TransferMode,
};

fn confirmed_settings(cfg: &LinkConfig) -> LinkSettings {
    LinkSettings {
        baud_rate: Some(cfg.baud_rate),
        char_width: Some(cfg.char_width),
        stop_bits: Some(cfg.stop_bits),
        flow_control: Some(cfg.flow_control),
    }
}

/// Drives a new session up to the point where the source is open.
fn opened(cfg: LinkConfig, mode: TransferMode) -> (Session, Action) {
    let mut s = Session::new(cfg, mode, InputSource::StandardInput);
    assert_eq!(s.step(Event::Begin), Action::SetTimeout(cfg.timeout_secs));
    assert_eq!(s.step(Event::TimeoutSet), Action::ApplySettings(cfg));
    assert_eq!(s.step(Event::SettingsApplied), Action::ReadSettings);
    assert_eq!(s.step(Event::SettingsReported(confirmed_settings(&cfg))), Action::OpenInput);
    let a = s.step(Event::InputOpened);
    (s, a)
}

/// Runs a raw copy of `chunks` into a sink that keeps every write.
fn raw_copy(chunks: &[&[u8]]) -> (Action, Vec<u8>) {
    let (mut s, mut a) = opened(LinkConfig::new(), TransferMode::Raw);
    let mut sink: Vec<u8> = Vec::new();
    for c in chunks {
        assert_eq!(a, Action::ReadChunk);
        a = s.step(Event::Chunk(c.to_vec()));
        match a {
            Action::Write(ref bytes) => sink.extend_from_slice(bytes),
            ref other => panic!("expected a write, got {:?}", other),
        }
        a = s.step(Event::Written);
    }
    assert_eq!(a, Action::ReadChunk);
    (s.step(Event::EndOfInput), sink)
}

#[test]
fn raw_hello_is_copied_whole() {
    let (end, sink) = raw_copy(&[b"HELLO"]);
    assert_eq!(end, Action::Finish(5));
    assert_eq!(sink, b"HELLO".to_vec());
}

#[test]
fn raw_copy_keeps_bytes_in_order_across_chunks() {
    let (end, sink) = raw_copy(&[b"ab", b"c", b"defg", &[0u8, 255u8]]);
    assert_eq!(end, Action::Finish(9));
    assert_eq!(sink, vec![b'a', b'b', b'c', b'd', b'e', b'f', b'g', 0, 255]);
}

#[test]
fn raw_copy_of_empty_source_sends_nothing() {
    let (end, sink) = raw_copy(&[]);
    assert_eq!(end, Action::Finish(0));
    assert!(sink.is_empty());
}

#[test]
fn empty_chunk_ends_raw_copy() {
    let (mut s, _) = opened(LinkConfig::new(), TransferMode::Raw);
    assert_eq!(s.step(Event::Chunk(b"xyz".to_vec())), Action::Write(b"xyz".to_vec()));
    assert_eq!(s.step(Event::Written), Action::ReadChunk);
    assert_eq!(s.step(Event::Chunk(Vec::new())), Action::Finish(3));
    assert_eq!(s.phase, Phase::Done(3));
}

#[test]
fn raw_read_failure_aborts() {
    let (mut s, _) = opened(LinkConfig::new(), TransferMode::Raw);
    let f = Failure::Transfer(TransferError::SourceReadFailed);
    assert_eq!(s.step(Event::ReadFailed), Action::Abort(f));
}

#[test]
fn raw_write_failure_aborts_with_partial_count() {
    let (mut s, _) = opened(LinkConfig::new(), TransferMode::Raw);
    s.step(Event::Chunk(b"ab".to_vec()));
    s.step(Event::Written);
    s.step(Event::Chunk(b"cd".to_vec()));
    let f = Failure::Transfer(TransferError::SinkWriteFailed);
    assert_eq!(s.step(Event::WriteFailed), Action::Abort(f));
    assert_eq!(s.copied, 2);
}

#[test]
fn raw_count_overflow_aborts() {
    let mut s = Session::new(LinkConfig::new(), TransferMode::Raw, InputSource::StandardInput);
    s.phase = Phase::Reading;
    s.copied = u64::MAX - 2;
    let f = Failure::Transfer(TransferError::CountOverflow);
    assert_eq!(s.step(Event::Chunk(vec![1, 2, 3])), Action::Abort(f));
}

#[test]
fn framed_mode_runs_protocol_and_finishes_with_its_count() {
    let (mut s, a) = opened(LinkConfig::new(), TransferMode::Framed);
    assert_eq!(a, Action::RunProtocol);
    assert_eq!(s.step(Event::ProtocolFinished(320)), Action::Finish(320));
    assert_eq!(s.step(Event::Begin), Action::Finish(320));
}

#[test]
fn framed_protocol_failure_is_final() {
    let (mut s, _) = opened(LinkConfig::new(), TransferMode::Framed);
    let f = Failure::Transfer(TransferError::ProtocolFailed(ProtocolFailure::Canceled));
    assert_eq!(s.step(Event::ProtocolFailed(ProtocolFailure::Canceled)), Action::Abort(f));
    assert_eq!(s.step(Event::ProtocolFinished(5)), Action::Abort(f));
}

#[test]
fn missing_input_fails_before_any_write() {
    let cfg = LinkConfig::new();
    let mut s = Session::new(cfg, TransferMode::Raw, InputSource::File("nope.bin".to_string()));
    s.step(Event::Begin);
    s.step(Event::TimeoutSet);
    s.step(Event::SettingsApplied);
    assert_eq!(s.step(Event::SettingsReported(confirmed_settings(&cfg))), Action::OpenInput);
    assert_eq!(s.step(Event::InputUnavailable), Action::Abort(Failure::InputUnavailable));
    for e in [Event::InputOpened, Event::Chunk(b"x".to_vec()), Event::Written] {
        assert_eq!(s.step(e), Action::Abort(Failure::InputUnavailable));
    }
}

#[test]
fn zero_timeout_rejected_stops_everything() {
    let mut cfg = LinkConfig::new();
    cfg.timeout_secs = 0;
    let mut s = Session::new(cfg, TransferMode::Framed, InputSource::StandardInput);
    assert_eq!(s.step(Event::Begin), Action::SetTimeout(0));
    let f = Failure::Config(ConfigError::InvalidTimeout);
    assert_eq!(s.step(Event::TimeoutRejected), Action::Abort(f));
    for e in [Event::TimeoutSet, Event::SettingsApplied, Event::InputOpened, Event::ProtocolFinished(1)] {
        assert_eq!(s.step(e), Action::Abort(f));
    }
}

fn configure_until(ev: Event) -> Action {
    let mut s = Session::new(LinkConfig::new(), TransferMode::Raw, InputSource::StandardInput);
    s.step(Event::Begin);
    s.step(Event::TimeoutSet);
    s.step(ev)
}

#[test]
fn rejected_baud_rate_is_a_config_error() {
    let f = Failure::Config(ConfigError::InvalidBaudRate);
    assert_eq!(configure_until(Event::BaudRejected), Action::Abort(f));
}

#[test]
fn rejected_settings_are_a_config_error() {
    let f = Failure::Config(ConfigError::UnsupportedSettings);
    assert_eq!(configure_until(Event::SettingsRejected), Action::Abort(f));
}

#[test]
fn unreadable_device_is_a_config_error() {
    let f = Failure::Config(ConfigError::DeviceUnreachable);
    assert_eq!(configure_until(Event::DeviceUnreachable), Action::Abort(f));
}

#[test]
fn settings_read_back_must_match_request() {
    let cfg = LinkConfig {
        baud_rate: 9600,
        char_width: CharWidth::Bits7,
        stop_bits: StopBits::Stop2,
        flow_control: FlowControl::FlowHardware,
        timeout_secs: 3,
    };
    let mut s = Session::new(cfg, TransferMode::Raw, InputSource::StandardInput);
    s.step(Event::Begin);
    assert_eq!(s.step(Event::TimeoutSet), Action::ApplySettings(cfg));
    s.step(Event::SettingsApplied);
    let mut other = confirmed_settings(&cfg);
    other.stop_bits = Some(StopBits::Stop1);
    let f = Failure::Config(ConfigError::UnsupportedSettings);
    assert_eq!(s.step(Event::SettingsReported(other)), Action::Abort(f));
    assert_eq!(s.reported, Some(other));
}

#[test]
fn settings_read_back_with_unknown_field_is_refused() {
    let cfg = LinkConfig::new();
    let mut s = Session::new(cfg, TransferMode::Raw, InputSource::StandardInput);
    s.step(Event::Begin);
    s.step(Event::TimeoutSet);
    s.step(Event::SettingsApplied);
    let mut other = confirmed_settings(&cfg);
    other.baud_rate = None;
    let f = Failure::Config(ConfigError::UnsupportedSettings);
    assert_eq!(s.step(Event::SettingsReported(other)), Action::Abort(f));
}

#[test]
fn confirmed_settings_are_recorded() {
    let cfg = LinkConfig::new();
    let (s, _) = opened(cfg, TransferMode::Raw);
    assert_eq!(s.reported, Some(confirmed_settings(&cfg)));
}

#[test]
fn unexpected_event_is_ignored() {
    let mut s = Session::new(LinkConfig::new(), TransferMode::Raw, InputSource::StandardInput);
    assert_eq!(s.step(Event::Written), Action::Ignore);
    assert_eq!(s.phase, Phase::Idle);
    assert_eq!(s.step(Event::Begin), Action::SetTimeout(10));
}

#[test]
fn source_is_file_when_path_given() {
    assert_eq!(select_source(Some("in.bin".to_string())), InputSource::File("in.bin".to_string()));
    assert_eq!(select_source(None), InputSource::StandardInput);
}

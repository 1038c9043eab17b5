use audiomirror::{
    capture_into, choose_device_index, playback_from, ConfigError, DeviceDescriptor, FatalError,
    IoStatus, Route, SampleRing, Session, SessionState, StreamType,
};

fn device(id: u64, channels: u16, sample_rate: u32) -> DeviceDescriptor {
    DeviceDescriptor { id, channels, sample_rate }
}

#[test]
fn same_device_is_refused() {
    let mut s = Session::new();
    let a = device(3, 2, 48000);
    assert_eq!(s.configure_local(a, a), Err(ConfigError::SameDevice { id: 3 }));
    assert_eq!(s.state(), SessionState::Idle);
    assert_eq!(s.route(), None);
}

#[test]
fn local_scenario_matching_devices_flow_unchanged() {
    let mut s = Session::new();
    let a = device(0, 2, 48000);
    let b = device(1, 2, 48000);
    assert_eq!(s.configure_local(a, b), Ok(()));
    assert_eq!(s.state(), SessionState::Configured);
    assert_eq!(s.route(), Some(Route::Local { anchor: a, mirror: b }));
    s.streams_started(true);
    assert_eq!(s.state(), SessionState::Running);

    let captured: Vec<u32> = [0.1f32, 0.2, -0.3, 0.4].iter().map(|x| x.to_bits()).collect();
    let mut ring = SampleRing::new(1024);
    capture_into(&mut ring, &captured, a.channels, b.channels);
    let mut out = vec![0u32; 4];
    assert_eq!(playback_from(&mut ring, &mut out), 4);
    assert_eq!(out, captured);

    s.cancel();
    assert_eq!(s.state(), SessionState::Stopped);
    assert_eq!(s.failure(), None);
}

#[test]
fn local_scenario_rate_mismatch() {
    let mut s = Session::new();
    let r = s.configure_local(device(0, 2, 48000), device(1, 2, 44100));
    assert_eq!(r, Err(ConfigError::RateMismatch { anchor: 48000, mirror: 44100 }));
    assert_eq!(s.state(), SessionState::Idle);
    assert_eq!(s.route(), None);
}

#[test]
fn unusable_devices_are_refused() {
    let mut s = Session::new();
    assert_eq!(
        s.configure_local(device(0, 0, 48000), device(1, 2, 48000)),
        Err(ConfigError::UnusableDevice { id: 0 })
    );
    assert_eq!(
        s.configure_local(device(0, 2, 48000), device(1, 2, 0)),
        Err(ConfigError::UnusableDevice { id: 1 })
    );
    assert_eq!(
        s.configure_network(device(4, 0, 48000), StreamType::Client),
        Err(ConfigError::UnusableDevice { id: 4 })
    );
    assert_eq!(s.state(), SessionState::Idle);
}

#[test]
fn network_mode_checks_only_local_device() {
    let mut s = Session::new();
    let d = device(2, 1, 22050);
    assert_eq!(s.configure_network(d, StreamType::Server), Ok(()));
    assert_eq!(s.state(), SessionState::Configured);
    assert_eq!(s.route(), Some(Route::Network { device: d, role: StreamType::Server }));
}

#[test]
fn failed_start_stops_the_session() {
    let mut s = Session::new();
    s.configure_local(device(0, 2, 48000), device(1, 1, 48000)).unwrap();
    s.streams_started(false);
    assert_eq!(s.state(), SessionState::Stopped);
    assert_eq!(s.failure(), Some(FatalError::StreamStart));
}

#[test]
fn transport_failures_are_fatal_but_would_block_is_not() {
    let mut s = Session::new();
    s.configure_network(device(0, 2, 48000), StreamType::Client).unwrap();
    s.streams_started(true);
    assert!(s.transport_status(IoStatus::WouldBlock));
    assert!(s.transport_status(IoStatus::Done));
    assert_eq!(s.state(), SessionState::Running);
    assert!(!s.transport_status(IoStatus::Failed));
    assert_eq!(s.state(), SessionState::Stopped);
    assert_eq!(s.failure(), Some(FatalError::Transport));
    s.fail(FatalError::Stream);
    assert_eq!(s.failure(), Some(FatalError::Transport));
}

#[test]
fn stream_error_stops_with_cause() {
    let mut s = Session::new();
    s.configure_network(device(0, 2, 48000), StreamType::Server).unwrap();
    s.streams_started(true);
    s.fail(FatalError::Stream);
    assert_eq!(s.state(), SessionState::Stopped);
    assert_eq!(s.failure(), Some(FatalError::Stream));
}

#[test]
fn device_choice_falls_back_to_default() {
    assert_eq!(choose_device_index(Some(2), 4, 0), 2);
    assert_eq!(choose_device_index(Some(4), 4, 1), 1);
    assert_eq!(choose_device_index(None, 4, 3), 3);
}

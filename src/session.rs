use vstd::prelude::*;
use crate::network::StreamType;

verus! {

/// What the session needs to know of an audio device: an identity, its channel
/// count and its sample rate, read once at setup.
#[derive(Debug, Clone, Copy, PartialEq, Eq, Structural)]
pub struct DeviceDescriptor {
    pub id: u64,
    pub channels: u16,
    pub sample_rate: u32,
}

impl DeviceDescriptor {
    /// A device that can carry audio: at least one channel, a positive rate.
    pub open spec fn usable(&self) -> bool {
        self.channels >= 1 && self.sample_rate > 0
    }
}

/// Why a session could not be configured.
#[derive(Debug, Clone, Copy, PartialEq, Eq, Structural)]
pub enum ConfigError {
    /// Both local endpoints are the same device.
    SameDevice { id: u64 },
    /// A device reports no channels or a zero sample rate.
    UnusableDevice { id: u64 },
    /// The two local devices run at different rates; nothing is resampled.
    RateMismatch { anchor: u32, mirror: u32 },
}

/// A failure that ends a running or starting session.
#[derive(Debug, Clone, Copy, PartialEq, Eq, Structural)]
pub enum FatalError {
    /// A stream could not be built or started.
    StreamStart,
    /// A running stream reported an error (a device went away).
    Stream,
    /// The socket failed other than by having no room or no data.
    Transport,
}

#[derive(Debug, Clone, Copy, PartialEq, Eq, Structural)]
pub enum SessionState {
    Idle,
    Configured,
    Running,
    Stopped,
}

/// The endpoints of a configured session.
#[derive(Debug, Clone, Copy, PartialEq, Eq, Structural)]
pub enum Route {
    /// Capture on `anchor`, play on `mirror`.
    Local { anchor: DeviceDescriptor, mirror: DeviceDescriptor },
    /// Send from or play on `device`, as `role` says.
    Network { device: DeviceDescriptor, role: StreamType },
}

/// The outcome of configuring local mode with `anchor` and `mirror`.
pub open spec fn local_check(anchor: DeviceDescriptor, mirror: DeviceDescriptor) -> Result<(), ConfigError> {
    if anchor.id == mirror.id {
        Err(ConfigError::SameDevice { id: anchor.id })
    } else if !anchor.usable() {
        Err(ConfigError::UnusableDevice { id: anchor.id })
    } else if !mirror.usable() {
        Err(ConfigError::UnusableDevice { id: mirror.id })
    } else if anchor.sample_rate != mirror.sample_rate {
        Err(ConfigError::RateMismatch { anchor: anchor.sample_rate, mirror: mirror.sample_rate })
    } else {
        Ok(())
    }
}

/// The outcome of configuring network mode on `device`; the remote rate is
/// checked frame by frame instead.
pub open spec fn network_check(device: DeviceDescriptor) -> Result<(), ConfigError> {
    if !device.usable() {
        Err(ConfigError::UnusableDevice { id: device.id })
    } else {
        Ok(())
    }
}

/// Whether `route` passed its checks.
pub open spec fn route_ok(route: Route) -> bool {
    match route {
        Route::Local { anchor, mirror } => local_check(anchor, mirror) is Ok,
        Route::Network { device, role } => network_check(device) is Ok,
    }
}

/// One run of the router: `Idle`, then `Configured` once the endpoints pass
/// their checks, `Running` once the streams start, and `Stopped` on
/// cancellation or a fatal error. Parameters are fixed once configured.
pub struct Session {
    state: SessionState,
    route: Option<Route>,
    failure: Option<FatalError>,
}

impl Session {
    pub closed spec fn spec_state(&self) -> SessionState {
        self.state
    }

    pub closed spec fn spec_route(&self) -> Option<Route> {
        self.route
    }

    pub closed spec fn spec_failure(&self) -> Option<FatalError> {
        self.failure
    }

    /// Past `Idle` a session holds a route that passed its checks; only a
    /// stopped session records a failure.
    pub closed spec fn wf(&self) -> bool {
        &&& (self.state == SessionState::Idle) == (self.route is None)
        &&& self.route matches Some(r) ==> route_ok(r)
        &&& self.failure is Some ==> self.state == SessionState::Stopped
    }

    /// A session with nothing configured.
    pub fn new() -> (r: Session)
        ensures
            r.wf(),
            r.spec_state() == SessionState::Idle,
            r.spec_route() is None,
            r.spec_failure() is None,
    {
        Session { state: SessionState::Idle, route: None, failure: None }
    }

    pub fn state(&self) -> (r: SessionState)
        ensures
            r == self.spec_state(),
    {
        self.state
    }

    pub fn route(&self) -> (r: Option<Route>)
        ensures
            r == self.spec_route(),
    {
        self.route
    }

    pub fn failure(&self) -> (r: Option<FatalError>)
        ensures
            r == self.spec_failure(),
    {
        self.failure
    }

    /// `Idle -> Configured` for local mode: the two devices must be distinct,
    /// usable, and at the same rate. On failure the session stays `Idle` and
    /// no stream may be started.
    pub fn configure_local(&mut self, anchor: DeviceDescriptor, mirror: DeviceDescriptor) -> (r: Result<(), ConfigError>)
        requires
            old(self).wf(),
            old(self).spec_state() == SessionState::Idle,
        ensures
            final(self).wf(),
            r == local_check(anchor, mirror),
            anchor.id == mirror.id ==> r == Err::<(), ConfigError>(
                ConfigError::SameDevice { id: anchor.id },
            ) && *final(self) == *old(self),
            r is Ok ==> final(self).spec_state() == SessionState::Configured
                && final(self).spec_route() == Some(Route::Local { anchor, mirror }),
            r is Err ==> *final(self) == *old(self),
            final(self).spec_failure() is None,
    {
        if anchor.id == mirror.id {
            return Err(ConfigError::SameDevice { id: anchor.id });
        }
        if anchor.channels == 0 || anchor.sample_rate == 0 {
            return Err(ConfigError::UnusableDevice { id: anchor.id });
        }
        if mirror.channels == 0 || mirror.sample_rate == 0 {
            return Err(ConfigError::UnusableDevice { id: mirror.id });
        }
        if anchor.sample_rate != mirror.sample_rate {
            return Err(
                ConfigError::RateMismatch { anchor: anchor.sample_rate, mirror: mirror.sample_rate },
            );
        }
        self.state = SessionState::Configured;
        self.route = Some(Route::Local { anchor, mirror });
        Ok(())
    }

    /// `Idle -> Configured` for network mode: only the local device is checked.
    pub fn configure_network(&mut self, device: DeviceDescriptor, role: StreamType) -> (r: Result<(), ConfigError>)
        requires
            old(self).wf(),
            old(self).spec_state() == SessionState::Idle,
        ensures
            final(self).wf(),
            r == network_check(device),
            r is Ok ==> final(self).spec_state() == SessionState::Configured
                && final(self).spec_route() == Some(Route::Network { device, role }),
            r is Err ==> *final(self) == *old(self),
            final(self).spec_failure() is None,
    {
        if device.channels == 0 || device.sample_rate == 0 {
            return Err(ConfigError::UnusableDevice { id: device.id });
        }
        self.state = SessionState::Configured;
        self.route = Some(Route::Network { device, role });
        Ok(())
    }

    /// `Configured -> Running` once every stream of the route has started;
    /// `Configured -> Stopped` with `FatalError::StreamStart` if one did not.
    pub fn streams_started(&mut self, all_started: bool)
        requires
            old(self).wf(),
            old(self).spec_state() == SessionState::Configured,
        ensures
            final(self).wf(),
            final(self).spec_route() == old(self).spec_route(),
            all_started ==> final(self).spec_state() == SessionState::Running
                && final(self).spec_failure() is None,
            !all_started ==> final(self).spec_state() == SessionState::Stopped
                && final(self).spec_failure() == Some(FatalError::StreamStart),
    {
        if all_started {
            self.state = SessionState::Running;
        } else {
            self.state = SessionState::Stopped;
            self.failure = Some(FatalError::StreamStart);
        }
    }

    /// `Running -> Stopped` on the cancellation signal; the streams are then
    /// to be stopped. A session already stopped stays as it is.
    pub fn cancel(&mut self)
        requires
            old(self).wf(),
            old(self).spec_state() == SessionState::Running || old(self).spec_state()
                == SessionState::Stopped,
        ensures
            final(self).wf(),
            final(self).spec_state() == SessionState::Stopped,
            final(self).spec_route() == old(self).spec_route(),
            final(self).spec_failure() == old(self).spec_failure(),
    {
        self.state = SessionState::Stopped;
    }

    /// `Running -> Stopped` on a fatal error, which is kept as the cause. Only
    /// the first cause is kept.
    pub fn fail(&mut self, cause: FatalError)
        requires
            old(self).wf(),
            old(self).spec_state() == SessionState::Running || old(self).spec_state()
                == SessionState::Stopped,
        ensures
            final(self).wf(),
            final(self).spec_state() == SessionState::Stopped,
            final(self).spec_route() == old(self).spec_route(),
            final(self).spec_failure() == (if old(self).spec_state() == SessionState::Running {
                Some(cause)
            } else {
                old(self).spec_failure()
            }),
    {
        if self.state == SessionState::Running {
            self.failure = Some(cause);
        }
        self.state = SessionState::Stopped;
    }
}

/// What a socket call of the network transport reported.
#[derive(Debug, Clone, Copy, PartialEq, Eq, Structural)]
pub enum IoStatus {
    /// The datagram went out, or one came in.
    Done,
    /// No room to send or nothing to receive: the frame is skipped.
    WouldBlock,
    /// Any other failure of the socket.
    Failed,
}

impl Session {
    /// Takes note of a socket call made while running: having no room or no
    /// data is part of normal operation, any other failure stops the session
    /// with `FatalError::Transport`. Returns whether the session goes on.
    pub fn transport_status(&mut self, status: IoStatus) -> (go_on: bool)
        requires
            old(self).wf(),
            old(self).spec_state() == SessionState::Running || old(self).spec_state()
                == SessionState::Stopped,
        ensures
            final(self).wf(),
            final(self).spec_route() == old(self).spec_route(),
            status != IoStatus::Failed ==> *final(self) == *old(self),
            status == IoStatus::Failed ==> final(self).spec_state() == SessionState::Stopped
                && final(self).spec_failure() == (if old(self).spec_state()
                == SessionState::Running {
                Some(FatalError::Transport)
            } else {
                old(self).spec_failure()
            }),
            go_on == (final(self).spec_state() == SessionState::Running),
    {
        if status == IoStatus::Failed {
            self.fail(FatalError::Transport);
        }
        self.state == SessionState::Running
    }
}

/// The device that the prompt picks: the index typed, when it names one of
/// the `count` devices; otherwise the default.
pub fn choose_device_index(typed: Option<usize>, count: usize, default_index: usize) -> (r: usize)
    ensures
        r == (match typed {
            Some(i) => if i < count {
                i
            } else {
                default_index
            },
            None => default_index,
        }),
{
    match typed {
        Some(i) => if i < count {
            i
        } else {
            default_index
        },
        None => default_index,
    }
}

} // verus!

//! The engine: what the window asks for, and what it is told.
//!
//! The window never touches a socket, a pipeline or a D-Bus session. It sends commands
//! and shows states. The engine decides what each command means for the session that
//! may be running.

use vstd::prelude::*;

use crate::adaptive::BitrateBounds;
use crate::binary64::Binary64;
use crate::session::config::{ConfigModel, DisplayMode, SessionConfig};
use crate::session::fps::FrameRate;

verus! {

/// How often a second the tablet reports and the controller is fed.
pub const STATS_HZ: u64 = 2;

/// What the window asks the engine to do.
#[derive(Debug, Clone)]
pub enum Command {
    /// Look for a tablet and start streaming.
    Connect,
    /// Tear everything down.
    Disconnect,
    /// Change how large the desktop is drawn.
    SetScale(Binary64),
    /// Switch between extending and mirroring.
    SetMode(DisplayMode),
    /// Change the quality envelope the adaptive controller works within.
    SetBitrateBounds(BitrateBounds),
    /// Start or stop camera passthrough.
    SetCamera { enabled: bool, camera_id: String },
    /// Shut the engine down.
    Shutdown,
}

/// Where the engine currently is. Drives what the window shows.
#[derive(Debug, Clone, PartialEq)]
pub enum State {
    /// Nothing running.
    Idle,
    /// No tablet plugged in, or none can be seen.
    NoTablet,
    /// Tablet present but the user has not accepted the USB-debugging prompt.
    /// Worth its own state because it is the single most common first-run failure
    /// and the fix is entirely in the user's hands.
    Unauthorized { device: String },
    /// Installing the companion app, forwarding ports, negotiating.
    Connecting { step: String },
    /// Running.
    Streaming { device: String, width: u32, height: u32, encoder: String },
    /// Stopped because of an error. Carries something the user can act on.
    Failed { message: String },
}

#[verifier::ext_equal]
pub enum StateModel {
    Idle,
    NoTablet,
    Unauthorized { device: Seq<char> },
    Connecting { step: Seq<char> },
    Streaming { device: Seq<char>, width: u32, height: u32, encoder: Seq<char> },
    Failed { message: Seq<char> },
}

impl View for State {
    type V = StateModel;

    open spec fn view(&self) -> StateModel {
        match self {
            State::Idle => StateModel::Idle,
            State::NoTablet => StateModel::NoTablet,
            State::Unauthorized { device } => StateModel::Unauthorized { device: device@ },
            State::Connecting { step } => StateModel::Connecting { step: step@ },
            State::Streaming { device, width, height, encoder } => StateModel::Streaming {
                device: device@,
                width: *width,
                height: *height,
                encoder: encoder@,
            },
            State::Failed { message } => StateModel::Failed { message: message@ },
        }
    }
}

/// Bytes that were produced in so much time.
#[derive(Debug, Clone, Copy, PartialEq, Eq, Structural)]
pub struct ByteRate {
    pub bytes: u64,
    pub elapsed_ns: u64,
}

/// Live numbers for the statistics panel.
#[derive(Debug, Clone, Copy, PartialEq, Eq, Structural)]
pub struct Stats {
    /// Measured from what was produced, not from what the encoder was asked for.
    pub produced: ByteRate,
    pub fps: Option<FrameRate>,
    pub latency_us: u64,
    pub frames_encoded: u64,
    pub frames_dropped: u64,
    pub decode_queue_depth: u32,
}

#[derive(Debug, Clone)]
pub enum Event {
    State(State),
    Stats(Stats),
    /// Non-fatal; shown as a toast rather than replacing the whole view.
    Warning(String),
}

/// Why a connection could not be made.
#[derive(Debug, Clone)]
pub enum ConnectError {
    /// This device has not granted permission.
    Unauthorized(String),
    NoDevice,
    Other(String),
}

/// The state that a failure amounts to.
pub open spec fn error_state(error: ConnectError) -> StateModel {
    match error {
        ConnectError::Unauthorized(device) => StateModel::Unauthorized { device: device@ },
        ConnectError::NoDevice => StateModel::NoTablet,
        ConnectError::Other(message) => StateModel::Failed { message: message@ },
    }
}

/// Surfaces the two failures the user can actually fix as their own states, rather
/// than burying them in a generic error string.
pub fn state_for_error(error: &ConnectError) -> (state: State)
    ensures
        state@ == error_state(*error),
{
    match error {
        ConnectError::Unauthorized(device) => State::Unauthorized { device: device.clone() },
        ConnectError::NoDevice => State::NoTablet,
        ConnectError::Other(message) => State::Failed { message: message.clone() },
    }
}

/// What a live connection is to the user.
#[derive(Debug, Clone)]
pub struct Streaming {
    pub device: String,
    pub encoder: String,
    pub width: u32,
    pub height: u32,
}

impl Streaming {
    pub open spec fn state(self) -> StateModel {
        StateModel::Streaming {
            device: self.device@,
            width: self.width,
            height: self.height,
            encoder: self.encoder@,
        }
    }

    pub fn streaming_state(&self) -> (state: State)
        ensures
            state@ == self.state(),
    {
        State::Streaming {
            device: self.device.clone(),
            width: self.width,
            height: self.height,
            encoder: self.encoder.clone(),
        }
    }
}

/// What a command means for the running session, in the order of the fields.
#[derive(Debug, Clone)]
pub struct Plan {
    /// The running session is taken down.
    pub shut_down: bool,
    /// A connection is made with the settings as they are now.
    pub connect: bool,
    /// The window is told that nothing is running.
    pub idle: bool,
    /// The running session gets these bounds.
    pub retune: Option<BitrateBounds>,
    /// The running session's camera is switched.
    pub camera: Option<(bool, String)>,
    /// The engine ends.
    pub exit: bool,
}

#[verifier::ext_equal]
pub struct PlanModel {
    pub shut_down: bool,
    pub connect: bool,
    pub idle: bool,
    pub retune: Option<BitrateBounds>,
    pub camera: Option<(bool, Seq<char>)>,
    pub exit: bool,
}

impl View for Plan {
    type V = PlanModel;

    open spec fn view(&self) -> PlanModel {
        PlanModel {
            shut_down: self.shut_down,
            connect: self.connect,
            idle: self.idle,
            retune: self.retune,
            camera: match self.camera {
                Some((enabled, id)) => Some((enabled, id@)),
                None => None,
            },
            exit: self.exit,
        }
    }
}

impl PlanModel {
    pub open spec fn nothing() -> PlanModel {
        PlanModel {
            shut_down: false,
            connect: false,
            idle: false,
            retune: None,
            camera: None,
            exit: false,
        }
    }
}

/// The engine.
#[derive(Debug)]
pub struct Engine {
    config: SessionConfig,
    active: bool,
}

#[verifier::ext_equal]
pub struct EngineModel {
    pub config: ConfigModel,
    /// A session is running.
    pub active: bool,
}

impl View for Engine {
    type V = EngineModel;

    closed spec fn view(&self) -> EngineModel {
        EngineModel { config: self.config@, active: self.active }
    }
}

impl EngineModel {
    /// A session that runs is taken down and started anew.
    pub open spec fn rebuild(self) -> PlanModel {
        PlanModel { shut_down: self.active, connect: self.active, ..PlanModel::nothing() }
    }

    /// What a command means. Scale and mode change the monitor's geometry, so a session
    /// that runs is built anew for them.
    pub open spec fn plan(self, command: Command) -> PlanModel {
        match command {
            Command::Connect => PlanModel { connect: !self.active, ..PlanModel::nothing() },
            Command::Disconnect => PlanModel {
                shut_down: self.active,
                idle: true,
                ..PlanModel::nothing()
            },
            Command::SetScale(_) => self.rebuild(),
            Command::SetMode(_) => self.rebuild(),
            Command::SetBitrateBounds(bounds) => PlanModel {
                retune: if self.active {
                    Some(bounds)
                } else {
                    None
                },
                ..PlanModel::nothing()
            },
            Command::SetCamera { enabled, camera_id } => PlanModel {
                camera: if self.active {
                    Some((enabled, camera_id@))
                } else {
                    None
                },
                ..PlanModel::nothing()
            },
            Command::Shutdown => PlanModel {
                shut_down: self.active,
                exit: true,
                ..PlanModel::nothing()
            },
        }
    }

    /// The settings after a command.
    pub open spec fn configured(self, command: Command) -> ConfigModel {
        match command {
            Command::SetScale(scale) => ConfigModel { scale, ..self.config },
            Command::SetMode(mode) => ConfigModel { mode, ..self.config },
            Command::SetBitrateBounds(bounds) => ConfigModel { bounds, ..self.config },
            Command::SetCamera { enabled, camera_id } => ConfigModel {
                camera_enabled: enabled,
                camera_id: camera_id@,
                ..self.config
            },
            _ => self.config,
        }
    }

    /// The engine once a command was taken in, before a connection that it may ask for
    /// was made.
    pub open spec fn after(self, command: Command) -> EngineModel {
        EngineModel {
            config: self.configured(command),
            active: self.active && !self.plan(command).shut_down,
        }
    }
}

fn nothing() -> (plan: Plan)
    ensures
        plan@ == PlanModel::nothing(),
{
    Plan { shut_down: false, connect: false, idle: false, retune: None, camera: None, exit: false }
}

impl Engine {
    /// An engine that does nothing yet, and says so.
    pub fn new(config: SessionConfig) -> (started: (Engine, State))
        ensures
            started.0@ == (EngineModel { config: config@, active: false }),
            started.1@ == StateModel::Idle,
    {
        (Engine { config, active: false }, State::Idle)
    }

    /// The settings that a connection is made with.
    pub fn config(&self) -> (config: &SessionConfig)
        ensures
            config@ == self@.config,
    {
        &self.config
    }

    /// Whether a session is running.
    pub fn is_active(&self) -> (active: bool)
        ensures
            active == self@.active,
    {
        self.active
    }

    /// Takes in a command.
    pub fn on_command(&mut self, command: Command) -> (plan: Plan)
        ensures
            plan@ == old(self)@.plan(command),
            final(self)@ == old(self)@.after(command),
            differs_by(old(self)@.config, final(self)@.config, command),
            command matches Command::SetScale(scale) ==> final(self)@.config.scale == scale,
            command matches Command::SetMode(mode) ==> final(self)@.config.mode == mode,
            command matches Command::SetBitrateBounds(bounds) ==> final(self)@.config.bounds
                == bounds,
            command matches Command::SetCamera { enabled, camera_id } ==> {
                &&& final(self)@.config.camera_enabled == enabled
                &&& final(self)@.config.camera_id == camera_id@
            },
    {
        let active = self.active;
        let ghost before = self@;
        let mut plan = nothing();
        match command {
            Command::Connect => {
                plan.connect = !active;
            },
            Command::Disconnect => {
                plan.shut_down = active;
                plan.idle = true;
                self.active = false;
            },
            Command::SetScale(scale) => {
                self.config.scale = scale;
                plan.shut_down = active;
                plan.connect = active;
                self.active = false;
            },
            Command::SetMode(mode) => {
                self.config.mode = mode;
                plan.shut_down = active;
                plan.connect = active;
                self.active = false;
            },
            Command::SetBitrateBounds(bounds) => {
                self.config.bounds = bounds;
                if active {
                    plan.retune = Some(bounds);
                }
            },
            Command::SetCamera { enabled, camera_id } => {
                self.config.camera_enabled = enabled;
                if active {
                    plan.camera = Some((enabled, camera_id.clone()));
                }
                self.config.camera_id = camera_id;
            },
            Command::Shutdown => {
                plan.shut_down = active;
                plan.exit = true;
                self.active = false;
            },
        }
        assert(plan@ =~= before.plan(command));
        assert(self@ =~= before.after(command));
        plan
    }

    /// Takes in how a connection went, and says what the window is told.
    pub fn on_connection(&mut self, outcome: Result<Streaming, ConnectError>) -> (state: State)
        ensures
            state@ == match outcome {
                Ok(session) => session.state(),
                Err(e) => error_state(e),
            },
            final(self)@ == (EngineModel { active: outcome is Ok, ..old(self)@ }),
    {
        match outcome {
            Ok(session) => {
                self.active = true;
                session.streaming_state()
            },
            Err(e) => {
                self.active = false;
                state_for_error(&e)
            },
        }
    }
}

/// What the user is told when the camera does not work.
pub fn camera_warning(reason: &str) -> (warning: String)
    ensures
        warning@ == "Camera: "@ + reason@,
{
    let mut warning = String::new();
    warning.append("Camera: ");
    warning.append(reason);
    assert(warning@ =~= "Camera: "@ + reason@);
    warning
}

/// The parts of a running session, as they are taken down.
#[derive(Debug, Clone, Copy, PartialEq, Eq, Structural)]
pub enum Teardown {
    Tasks,
    Pipeline,
    Transport,
    Mutter,
}

/// How a session is taken down. The tasks go first, so that nothing is still pushing
/// frames or injecting input while the session underneath it disappears.
pub fn teardown() -> (steps: Vec<Teardown>)
    ensures
        steps@ == seq![
            Teardown::Tasks,
            Teardown::Pipeline,
            Teardown::Transport,
            Teardown::Mutter,
        ],
{
    vec![Teardown::Tasks, Teardown::Pipeline, Teardown::Transport, Teardown::Mutter]
}

/// There is never more than one session: a connection is only made where none runs, or
/// the one that ran was taken down first.
pub proof fn law_there_is_one_session(engine: EngineModel, command: Command)
    requires
        engine.plan(command).connect,
    ensures
        engine.active ==> engine.plan(command).shut_down,
        !engine.after(command).active,
{
}

/// Only asking for a connection starts a session where none was running.
pub proof fn law_only_connect_starts_a_session(engine: EngineModel, command: Command)
    requires
        !engine.active,
        engine.plan(command).connect,
    ensures
        command is Connect,
{
}

/// Asking for a connection twice changes nothing.
pub proof fn law_connecting_twice_is_harmless(engine: EngineModel)
    requires
        engine.active,
    ensures
        engine.plan(Command::Connect) == PlanModel::nothing(),
        engine.after(Command::Connect) == engine,
{
}

/// Bitrate and camera change without a new session; scale and mode take one.
pub proof fn law_only_geometry_takes_a_new_session(engine: EngineModel, command: Command)
    requires
        engine.active,
        engine.plan(command).shut_down,
        engine.plan(command).connect,
    ensures
        command is SetScale || command is SetMode,
{
}

/// After disconnecting or shutting down no session is left.
pub proof fn law_ending_leaves_no_session(engine: EngineModel, command: Command)
    requires
        command is Disconnect || command is Shutdown,
    ensures
        !engine.after(command).active,
        engine.active ==> engine.plan(command).shut_down,
        command is Disconnect ==> engine.plan(command).idle,
        engine.plan(command).exit == (command is Shutdown),
{
}

impl EngineModel {
    /// The engine after all of these commands, whatever came of the connections.
    pub open spec fn after_all(self, commands: Seq<Command>, connected: Seq<bool>) -> EngineModel
        decreases commands.len(),
    {
        if commands.len() == 0 {
            self
        } else {
            let before = self.after_all(commands.drop_last(), connected);
            let plan = before.plan(commands.last());
            let after = before.after(commands.last());
            if plan.connect {
                EngineModel { active: connected[commands.len() - 1], ..after }
            } else {
                after
            }
        }
    }
}

/// A setting outlasts everything that does not set it again: connections made and
/// lost, and every other command.
pub proof fn law_settings_outlast_sessions(
    engine: EngineModel,
    commands: Seq<Command>,
    connected: Seq<bool>,
)
    ensures
        (forall|i: int| 0 <= i < commands.len() ==> !(#[trigger] commands[i] is SetScale))
            ==> engine.after_all(commands, connected).config.scale == engine.config.scale,
        (forall|i: int| 0 <= i < commands.len() ==> !(#[trigger] commands[i] is SetMode))
            ==> engine.after_all(commands, connected).config.mode == engine.config.mode,
        (forall|i: int| 0 <= i < commands.len() ==> !(#[trigger] commands[i] is SetBitrateBounds))
            ==> engine.after_all(commands, connected).config.bounds == engine.config.bounds,
        (forall|i: int| 0 <= i < commands.len() ==> !(#[trigger] commands[i] is SetCamera))
            ==> engine.after_all(commands, connected).config.camera_enabled
            == engine.config.camera_enabled && engine.after_all(
            commands,
            connected,
        ).config.camera_id == engine.config.camera_id,
    decreases commands.len(),
{
    if commands.len() > 0 {
        let before = commands.drop_last();
        law_settings_outlast_sessions(engine, before, connected);
        assert forall|i: int| 0 <= i < before.len() implies before[i] == commands[i] by {}
        assert(commands.last() == commands[commands.len() - 1]);
    }
}

/// The two settings differ in nothing but what the command sets.
pub open spec fn differs_by(before: ConfigModel, after: ConfigModel, command: Command) -> bool {
    &&& command is SetScale || after.scale == before.scale
    &&& command is SetMode || after.mode == before.mode
    &&& command is SetBitrateBounds || after.bounds == before.bounds
    &&& command is SetCamera || (after.camera_enabled == before.camera_enabled && after.camera_id
        == before.camera_id)
    &&& after.framerate == before.framerate
    &&& after.mirror_source == before.mirror_source
    &&& after.apk_path == before.apk_path
    &&& after.apk_version == before.apk_version
}

/// Whether a session runs or not, what a command sets is what the next connection is made
/// with, and every other setting is as before.
pub proof fn law_a_setter_sets(engine: EngineModel, command: Command)
    ensures
        ({
            let after = engine.after(command).config;
            &&& differs_by(engine.config, after, command)
            &&& (command matches Command::SetScale(scale) ==> after.scale == scale)
            &&& (command matches Command::SetMode(mode) ==> after.mode == mode)
            &&& (command matches Command::SetBitrateBounds(bounds) ==> after.bounds == bounds)
            &&& (command matches Command::SetCamera { enabled, camera_id } ==> after.camera_enabled
                == enabled && after.camera_id == camera_id@)
        }),
{
}

/// A running session is handed new bounds and camera settings as they are and goes on; a
/// new scale or mode takes it down and starts it again, and nothing else does both.
pub proof fn law_a_running_session_gets_what_was_set(engine: EngineModel, command: Command)
    requires
        engine.active,
    ensures
        ({
            let plan = engine.plan(command);
            &&& plan.retune == match command {
                Command::SetBitrateBounds(bounds) => Some(bounds),
                _ => None,
            }
            &&& plan.camera == match command {
                Command::SetCamera { enabled, camera_id } => Some((enabled, camera_id@)),
                _ => None,
            }
            &&& plan.shut_down <==> command is SetScale || command is SetMode || command
                is Disconnect || command is Shutdown
            &&& plan.connect <==> command is SetScale || command is SetMode
            &&& plan.idle <==> command is Disconnect
            &&& plan.exit <==> command is Shutdown
            &&& engine.after(command).active <==> !plan.shut_down
        }),
{
}

/// Where no session runs, a connection is made when one is asked for, and every other
/// command only changes settings, is answered, or ends the engine.
pub proof fn law_without_a_session_only_connecting_acts(engine: EngineModel, command: Command)
    requires
        !engine.active,
    ensures
        ({
            let plan = engine.plan(command);
            &&& plan.connect <==> command is Connect
            &&& plan.idle <==> command is Disconnect
            &&& plan.exit <==> command is Shutdown
            &&& !plan.shut_down && plan.retune is None && plan.camera is None
            &&& !engine.after(command).active
        }),
{
}

/// A tablet that did not grant permission and one that is not there have states of their
/// own; every other failure is told in its own words.
pub proof fn law_failures_are_told_apart(error: ConnectError)
    ensures
        match error {
            ConnectError::Unauthorized(name) => error_state(error) matches
                StateModel::Unauthorized { device } && device == name@,
            ConnectError::NoDevice => error_state(error) is NoTablet,
            ConnectError::Other(words) => error_state(error) matches
                StateModel::Failed { message } && message == words@,
        },
{
}

/// The window is told the device, the encoder and the size of the very session that was
/// opened.
pub proof fn law_a_session_is_told_as_it_is(session: Streaming)
    ensures
        session.state() matches StateModel::Streaming { device, width, height, encoder } && device
            == session.device@ && width == session.width && height == session.height && encoder
            == session.encoder@,
{
}

} // verus!

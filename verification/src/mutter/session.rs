//! Opening and closing a session with mutter.
//!
//! The order of the steps is not obvious from mutter's interfaces. The screen-cast
//! session is linked to a remote-desktop session, which is what makes injected input
//! land on the virtual monitor. The stream's signal is subscribed to before anything
//! starts, or it is missed. And a linked session is started and stopped from the
//! remote-desktop side only.

use vstd::prelude::*;

use crate::binary64::Binary64;
use crate::text::{
    binary, decimal, owned, push_binary, push_decimal, push_signed, signed_decimal,
};

verus! {

/// How long to wait for PipeWire to negotiate the stream, in seconds.
pub const NEGOTIATION_TIMEOUT_S: u64 = 10;

/// The bit for touchscreens in mutter's supported device types.
pub const DEVICE_TYPE_TOUCHSCREEN: u32 = 4;

/// Virtual monitors with pinned modes need this version of the ScreenCast API.
pub const REQUIRED_SCREENCAST_VERSION: i32 = 3;

/// 60, as a refresh rate.
pub const SIXTY: u64 = 0x404e_0000_0000_0000;

/// What keeps a session from opening or working.
#[derive(Debug, Clone)]
pub enum Error {
    DBus(String),
    NoMutter,
    ApiTooOld { found: i32, required: i32 },
    NegotiationTimeout,
    NoTouchSupport(u32),
}

impl Error {
    /// What the user is told.
    pub open spec fn text(self) -> Seq<char> {
        match self {
            Error::DBus(e) => "D-Bus error: "@ + e@,
            Error::NoMutter =>
                "this needs a GNOME/mutter session on the session bus -- is GNOME running?"@,
            Error::ApiTooOld { found, required } => "mutter's ScreenCast API is version "@
                + signed_decimal(found as int)
                + ", but virtual monitors with pinned modes need version "@ + signed_decimal(
                required as int,
            ) + " (GNOME 46+)"@,
            Error::NegotiationTimeout => "PipeWire stream negotiation timed out after "@ + decimal(
                NEGOTIATION_TIMEOUT_S as nat,
            ) + "s -- mutter never emitted PipeWireStreamAdded"@,
            Error::NoTouchSupport(devices) =>
                "mutter reports no touchscreen support (SupportedDeviceTypes = 0b"@ + binary(
                devices as nat,
            ) + ")"@,
        }
    }

    pub fn message(&self) -> (message: String)
        ensures
            message@ == self.text(),
    {
        let mut message = String::new();
        match self {
            Error::DBus(e) => {
                message.append("D-Bus error: ");
                message.append(e.as_str());
            },
            Error::NoMutter => {
                message.append(
                    "this needs a GNOME/mutter session on the session bus -- is GNOME running?",
                );
            },
            Error::ApiTooOld { found, required } => {
                message.append("mutter's ScreenCast API is version ");
                push_signed(&mut message, *found);
                message.append(", but virtual monitors with pinned modes need version ");
                push_signed(&mut message, *required);
                message.append(" (GNOME 46+)");
            },
            Error::NegotiationTimeout => {
                message.append("PipeWire stream negotiation timed out after ");
                push_decimal(&mut message, NEGOTIATION_TIMEOUT_S);
                message.append("s -- mutter never emitted PipeWireStreamAdded");
            },
            Error::NoTouchSupport(devices) => {
                message.append("mutter reports no touchscreen support (SupportedDeviceTypes = 0b");
                push_binary(&mut message, *devices);
                message.append(")");
            },
        }
        assert(message@ =~= self.text());
        message
    }
}

/// How mutter treats the cursor of a screen-cast.
#[derive(Debug, Clone, Copy, PartialEq, Eq, Structural)]
pub enum CursorMode {
    Hidden,
    /// Painted into the frames.
    Embedded,
    /// Described beside the frames.
    Metadata,
}

impl CursorMode {
    /// The number that mutter knows the mode by.
    pub open spec fn number(self) -> u32 {
        match self {
            CursorMode::Hidden => 0,
            CursorMode::Embedded => 1,
            CursorMode::Metadata => 2,
        }
    }

    pub fn to_u32(self) -> (n: u32)
        ensures
            n == self.number(),
    {
        match self {
            CursorMode::Hidden => 0,
            CursorMode::Embedded => 1,
            CursorMode::Metadata => 2,
        }
    }
}

/// What the tablet should show.
#[derive(Debug, Clone, PartialEq, Eq)]
pub enum CaptureSource {
    /// A new monitor with no backing hardware -- the desktop is *extended*.
    Virtual,
    /// An existing physical output, by connector name (e.g. `DP-3`) -- *mirrored*.
    Monitor(String),
}

/// The connector that is mirrored, if one is.
pub open spec fn mirrored(source: CaptureSource) -> Option<Seq<char>> {
    match source {
        CaptureSource::Virtual => None,
        CaptureSource::Monitor(connector) => Some(connector@),
    }
}

#[derive(Debug, Clone)]
pub struct DisplayConfig {
    pub width: u32,
    pub height: u32,
    pub refresh_rate: Binary64,
    pub cursor_mode: CursorMode,
    pub source: CaptureSource,
}

impl Default for DisplayConfig {
    fn default() -> (config: DisplayConfig)
        ensures
            config.width == 1920,
            config.height == 1080,
            config.refresh_rate.bits == SIXTY,
            config.refresh_rate.bits == 0x404e_0000_0000_0000u64,
            config.cursor_mode == CursorMode::Embedded,
            config.source == CaptureSource::Virtual,
    {
        DisplayConfig {
            width: 1920,
            height: 1080,
            refresh_rate: Binary64 { bits: SIXTY },
            cursor_mode: CursorMode::Embedded,
            source: CaptureSource::Virtual,
        }
    }
}

/// How the stream is asked for.
#[derive(Debug, Clone)]
pub enum RecordRequest {
    /// A monitor that behaves as a real one, pinned to one mode.
    RecordVirtual {
        width: u32,
        height: u32,
        refresh_rate: Binary64,
        is_preferred: bool,
        is_platform: bool,
        cursor_mode: u32,
    },
    /// A copy of an existing monitor.
    RecordMonitor { connector: String, cursor_mode: u32 },
}

impl RecordRequest {
    /// The request is the one for this display.
    pub open spec fn asks_for(self, config: DisplayConfig) -> bool {
        match self {
            RecordRequest::RecordVirtual {
                width,
                height,
                refresh_rate,
                is_preferred,
                is_platform,
                cursor_mode,
            } => {
                &&& config.source is Virtual
                &&& width == config.width
                &&& height == config.height
                &&& refresh_rate == config.refresh_rate
                &&& is_preferred
                &&& is_platform
                &&& cursor_mode == config.cursor_mode.number()
            },
            RecordRequest::RecordMonitor { connector, cursor_mode } => {
                &&& mirrored(config.source) == Some(connector@)
                &&& cursor_mode == config.cursor_mode.number()
            },
        }
    }
}

/// How the stream for a display is asked for.
pub fn record_request(config: &DisplayConfig) -> (request: RecordRequest)
    ensures
        request.asks_for(*config),
{
    match &config.source {
        CaptureSource::Virtual => RecordRequest::RecordVirtual {
            width: config.width,
            height: config.height,
            refresh_rate: config.refresh_rate,
            is_preferred: true,
            is_platform: true,
            cursor_mode: config.cursor_mode.to_u32(),
        },
        CaptureSource::Monitor(connector) => RecordRequest::RecordMonitor {
            connector: connector.clone(),
            cursor_mode: config.cursor_mode.to_u32(),
        },
    }
}

/// What has to be done next for a session to open.
#[derive(Debug, Clone, Copy, PartialEq, Eq, Structural)]
pub enum OpenAction {
    ConnectToBus,
    ReachRemoteDesktop,
    ReachScreenCast,
    ReadVersion,
    ReadDeviceTypes,
    CreateRemoteDesktopSession,
    ReachRemoteDesktopSession,
    ReadSessionId,
    /// Linked to the remote-desktop session by its id.
    CreateScreenCastSession,
    ReachScreenCastSession,
    Record,
    ReachStream,
    SubscribeToStream,
    StartRemoteDesktopSession,
    AwaitNode,
    StopRemoteDesktopSession,
    Finished,
    Failed,
}

/// What came of an action.
#[derive(Debug, Clone)]
pub enum Reply {
    Done,
    /// The call failed, for this reason.
    Failed(String),
    Version(i32),
    DeviceTypes(u32),
    SessionId(String),
    /// The path of the stream.
    Stream(String),
    Node(u32),
    /// The signal did not come in time, or its source is gone.
    NoNode,
}

/// A session on its way to being open.
#[derive(Debug)]
pub struct Opening {
    config: DisplayConfig,
    action: OpenAction,
    touch: bool,
    session_id: String,
    stream_path: String,
    node_id: u32,
    error: Option<Error>,
}

#[verifier::ext_equal]
pub struct OpeningModel {
    pub config: DisplayConfig,
    pub action: OpenAction,
    /// Mutter takes touch events.
    pub touch: bool,
    pub session_id: Seq<char>,
    pub stream_path: Seq<char>,
    pub node_id: u32,
    /// What the user is told, where the session did not open.
    pub error: Option<Seq<char>>,
}

impl View for Opening {
    type V = OpeningModel;

    closed spec fn view(&self) -> OpeningModel {
        OpeningModel {
            config: self.config,
            action: self.action,
            touch: self.touch,
            session_id: self.session_id@,
            stream_path: self.stream_path@,
            node_id: self.node_id,
            error: match self.error {
                Some(e) => Some(e.text()),
                None => None,
            },
        }
    }
}

/// The failure that a failed call amounts to: without mutter's two services there is
/// no mutter.
pub open spec fn failure(action: OpenAction, reason: String) -> Error {
    if action == OpenAction::ReachRemoteDesktop || action == OpenAction::ReachScreenCast {
        Error::NoMutter
    } else {
        Error::DBus(reason)
    }
}

/// The failure that a failed call amounts to.
pub fn open_failure(action: OpenAction, reason: String) -> (error: Error)
    ensures
        error == failure(action, reason),
{
    if action == OpenAction::ReachRemoteDesktop || action == OpenAction::ReachScreenCast {
        Error::NoMutter
    } else {
        Error::DBus(reason)
    }
}

impl OpeningModel {
    pub open spec fn fresh(config: DisplayConfig) -> OpeningModel {
        OpeningModel {
            config,
            action: OpenAction::ConnectToBus,
            touch: false,
            session_id: Seq::empty(),
            stream_path: Seq::empty(),
            node_id: 0,
            error: None,
        }
    }

    pub open spec fn doing(self, action: OpenAction) -> OpeningModel {
        OpeningModel { action, ..self }
    }

    pub open spec fn failed(self, error: Seq<char>) -> OpeningModel {
        OpeningModel { action: OpenAction::Failed, error: Some(error), ..self }
    }

    /// The step that follows a plain success.
    pub open spec fn following(action: OpenAction) -> Option<OpenAction> {
        match action {
            OpenAction::ConnectToBus => Some(OpenAction::ReachRemoteDesktop),
            OpenAction::ReachRemoteDesktop => Some(OpenAction::ReachScreenCast),
            OpenAction::ReachScreenCast => Some(OpenAction::ReadVersion),
            OpenAction::CreateRemoteDesktopSession => Some(OpenAction::ReachRemoteDesktopSession),
            OpenAction::ReachRemoteDesktopSession => Some(OpenAction::ReadSessionId),
            OpenAction::CreateScreenCastSession => Some(OpenAction::ReachScreenCastSession),
            OpenAction::ReachScreenCastSession => Some(OpenAction::Record),
            OpenAction::ReachStream => Some(OpenAction::SubscribeToStream),
            OpenAction::SubscribeToStream => Some(OpenAction::StartRemoteDesktopSession),
            OpenAction::StartRemoteDesktopSession => Some(OpenAction::AwaitNode),
            _ => None,
        }
    }

    /// What follows from a reply. A session that timed out is stopped, whatever comes
    /// of that; a reply that does not belong to the action ends in failure.
    pub open spec fn after(self, reply: Reply) -> OpeningModel {
        match (self.action, reply) {
            (OpenAction::Finished, _) => self,
            (OpenAction::Failed, _) => self,
            (OpenAction::StopRemoteDesktopSession, _) => self.failed(
                Error::NegotiationTimeout.text(),
            ),
            (action, Reply::Failed(reason)) => self.failed(failure(action, reason).text()),
            (OpenAction::ReadVersion, Reply::Version(found)) => if found
                < REQUIRED_SCREENCAST_VERSION {
                self.failed(
                    (Error::ApiTooOld { found, required: REQUIRED_SCREENCAST_VERSION }).text(),
                )
            } else {
                self.doing(OpenAction::ReadDeviceTypes)
            },
            (OpenAction::ReadDeviceTypes, Reply::DeviceTypes(devices)) => OpeningModel {
                action: OpenAction::CreateRemoteDesktopSession,
                touch: devices & DEVICE_TYPE_TOUCHSCREEN != 0,
                ..self
            },
            (OpenAction::ReadSessionId, Reply::SessionId(id)) => OpeningModel {
                action: OpenAction::CreateScreenCastSession,
                session_id: id@,
                ..self
            },
            (OpenAction::Record, Reply::Stream(path)) => OpeningModel {
                action: OpenAction::ReachStream,
                stream_path: path@,
                ..self
            },
            (OpenAction::AwaitNode, Reply::Node(node)) => OpeningModel {
                action: OpenAction::Finished,
                node_id: node,
                ..self
            },
            (OpenAction::AwaitNode, Reply::NoNode) => self.doing(
                OpenAction::StopRemoteDesktopSession,
            ),
            (action, Reply::Done) => match OpeningModel::following(action) {
                Some(next) => self.doing(next),
                None => self.failed("D-Bus error: "@ + "unexpected reply"@),
            },
            (_, _) => self.failed("D-Bus error: "@ + "unexpected reply"@),
        }
    }
}

impl Opening {
    pub fn new(config: DisplayConfig) -> (opening: Opening)
        ensures
            opening@ == OpeningModel::fresh(config),
    {
        let opening = Opening {
            config,
            action: OpenAction::ConnectToBus,
            touch: false,
            session_id: String::new(),
            stream_path: String::new(),
            node_id: 0,
            error: None,
        };
        assert(opening@ =~= OpeningModel::fresh(config));
        opening
    }

    /// What has to be done next.
    pub fn action(&self) -> (action: OpenAction)
        ensures
            action == self@.action,
    {
        self.action
    }

    /// The id that links the screen-cast session.
    pub fn session_id(&self) -> (id: &str)
        ensures
            id@ == self@.session_id,
    {
        self.session_id.as_str()
    }

    /// How the stream is asked for.
    pub fn request(&self) -> (request: RecordRequest)
        ensures
            request.asks_for(self@.config),
    {
        record_request(&self.config)
    }

    /// Whether mutter takes touch events.
    pub fn touch(&self) -> (touch: bool)
        ensures
            touch == self@.touch,
    {
        self.touch
    }

    fn fail(&mut self, error: Error)
        ensures
            final(self)@ == old(self)@.failed(error.text()),
    {
        self.action = OpenAction::Failed;
        self.error = Some(error);
        assert(self@ =~= old(self)@.failed(error.text()));
    }

    fn proceed(&mut self, action: OpenAction)
        ensures
            final(self)@ == old(self)@.doing(action),
    {
        self.action = action;
        assert(self@ =~= old(self)@.doing(action));
    }

    fn surprise(&mut self)
        ensures
            final(self)@ == old(self)@.failed("D-Bus error: "@ + "unexpected reply"@),
    {
        self.fail(Error::DBus(owned("unexpected reply")));
    }

    /// Takes in what came of the action.
    pub fn on_reply(&mut self, reply: Reply)
        ensures
            final(self)@ == old(self)@.after(reply),
    {
        let action = self.action;
        let ghost before = self@;
        if action == OpenAction::Finished || action == OpenAction::Failed {
            return ;
        }
        if action == OpenAction::StopRemoteDesktopSession {
            self.fail(Error::NegotiationTimeout);
            return ;
        }
        match reply {
            Reply::Failed(reason) => {
                self.fail(open_failure(action, reason));
            },
            Reply::Version(found) => {
                if action != OpenAction::ReadVersion {
                    self.surprise();
                } else if found < REQUIRED_SCREENCAST_VERSION {
                    self.fail(Error::ApiTooOld { found, required: REQUIRED_SCREENCAST_VERSION });
                } else {
                    self.proceed(OpenAction::ReadDeviceTypes);
                }
            },
            Reply::DeviceTypes(devices) => {
                if action == OpenAction::ReadDeviceTypes {
                    self.touch = devices & DEVICE_TYPE_TOUCHSCREEN != 0;
                    self.action = OpenAction::CreateRemoteDesktopSession;
                } else {
                    self.surprise();
                }
            },
            Reply::SessionId(id) => {
                if action == OpenAction::ReadSessionId {
                    self.session_id = id;
                    self.action = OpenAction::CreateScreenCastSession;
                } else {
                    self.surprise();
                }
            },
            Reply::Stream(path) => {
                if action == OpenAction::Record {
                    self.stream_path = path;
                    self.action = OpenAction::ReachStream;
                } else {
                    self.surprise();
                }
            },
            Reply::Node(node) => {
                if action == OpenAction::AwaitNode {
                    self.node_id = node;
                    self.action = OpenAction::Finished;
                } else {
                    self.surprise();
                }
            },
            Reply::NoNode => {
                if action == OpenAction::AwaitNode {
                    self.proceed(OpenAction::StopRemoteDesktopSession);
                } else {
                    self.surprise();
                }
            },
            Reply::Done => match action {
                OpenAction::ConnectToBus => self.proceed(OpenAction::ReachRemoteDesktop),
                OpenAction::ReachRemoteDesktop => self.proceed(OpenAction::ReachScreenCast),
                OpenAction::ReachScreenCast => self.proceed(OpenAction::ReadVersion),
                OpenAction::CreateRemoteDesktopSession => self.proceed(
                    OpenAction::ReachRemoteDesktopSession,
                ),
                OpenAction::ReachRemoteDesktopSession => self.proceed(OpenAction::ReadSessionId),
                OpenAction::CreateScreenCastSession => self.proceed(
                    OpenAction::ReachScreenCastSession,
                ),
                OpenAction::ReachScreenCastSession => self.proceed(OpenAction::Record),
                OpenAction::ReachStream => self.proceed(OpenAction::SubscribeToStream),
                OpenAction::SubscribeToStream => self.proceed(
                    OpenAction::StartRemoteDesktopSession,
                ),
                OpenAction::StartRemoteDesktopSession => self.proceed(OpenAction::AwaitNode),
                _ => self.surprise(),
            },
        }
        assert(self@ =~= before.after(reply));
    }

    /// The session, once it is open, or why it is not. None, while there is something
    /// left to do.
    pub fn outcome(self) -> (outcome: Option<Result<Session, Error>>)
        ensures
            match outcome {
                None => self@.action != OpenAction::Finished && (self@.action != OpenAction::Failed
                    || self@.error is None),
                Some(Ok(session)) => self@.action == OpenAction::Finished && session.node()
                    == self@.node_id && session.stream() == self@.stream_path && session.display()
                    == self@.config && !session.is_stopped(),
                Some(Err(e)) => self@.action == OpenAction::Failed && self@.error == Some(
                    e.text(),
                ),
            },
    {
        match self.action {
            OpenAction::Finished => Some(
                Ok(
                    Session {
                        stream_path: self.stream_path,
                        node_id: self.node_id,
                        config: self.config,
                        stopped: false,
                    },
                ),
            ),
            OpenAction::Failed => match self.error {
                Some(e) => Some(Err(e)),
                None => None,
            },
            _ => None,
        }
    }
}

/// What is done to close a session.
#[derive(Debug, Clone, Copy, PartialEq, Eq, Structural)]
pub enum CloseAction {
    /// Stops the linked screen-cast session too.
    StopRemoteDesktop,
    StopScreenCast,
}

/// What follows from an attempt to stop a session.
#[derive(Debug, Clone, Copy, PartialEq, Eq, Structural)]
pub enum CloseStep {
    Try(CloseAction),
    /// The monitor is gone.
    Closed,
    /// The last attempt failed, and there is nothing left to try.
    Failed,
}

/// The screen-cast session is stopped only where the remote-desktop session, which
/// stops it too, cannot be: mutter rejects that for a session that is linked.
pub open spec fn close_step(asked: CloseAction, stopped: bool) -> CloseStep {
    if stopped {
        CloseStep::Closed
    } else if asked == CloseAction::StopRemoteDesktop {
        CloseStep::Try(CloseAction::StopScreenCast)
    } else {
        CloseStep::Failed
    }
}

/// Takes in whether an attempt stopped the session.
pub fn closing(asked: CloseAction, stopped: bool) -> (next: CloseStep)
    ensures
        next == close_step(asked, stopped),
{
    if stopped {
        return CloseStep::Closed;
    }
    match asked {
        CloseAction::StopRemoteDesktop => CloseStep::Try(CloseAction::StopScreenCast),
        CloseAction::StopScreenCast => CloseStep::Failed,
    }
}

/// How closing ends, where the two calls stop the session or do not.
pub open spec fn closed_by(remote_desktop: bool, screen_cast: bool) -> CloseStep {
    match close_step(CloseAction::StopRemoteDesktop, remote_desktop) {
        CloseStep::Try(action) => close_step(action, screen_cast),
        step => step,
    }
}

/// Closing ends after two attempts at most. It succeeds if and only if one of the two
/// calls stops the session, and the screen-cast session is left alone where the first
/// one did.
pub proof fn law_closing_ends(remote_desktop: bool, screen_cast: bool)
    ensures
        !(closed_by(remote_desktop, screen_cast) is Try),
        closed_by(remote_desktop, screen_cast) == CloseStep::Closed <==> remote_desktop
            || screen_cast,
        close_step(CloseAction::StopRemoteDesktop, remote_desktop) == CloseStep::Try(
            CloseAction::StopScreenCast,
        ) <==> !remote_desktop,
{
}

/// A live virtual monitor plus its input channel.
#[derive(Debug)]
pub struct Session {
    stream_path: String,
    node_id: u32,
    config: DisplayConfig,
    stopped: bool,
}

impl Session {
    pub closed spec fn node(&self) -> u32 {
        self.node_id
    }

    pub closed spec fn stream(&self) -> Seq<char> {
        self.stream_path@
    }

    pub closed spec fn display(&self) -> DisplayConfig {
        self.config
    }

    pub closed spec fn is_stopped(&self) -> bool {
        self.stopped
    }

    /// PipeWire node id of the screen-cast stream.
    pub fn node_id(&self) -> (node: u32)
        ensures
            node == self.node(),
    {
        self.node_id
    }

    /// Object path of the stream, in the form that input events name it.
    pub fn stream_path(&self) -> (path: &str)
        ensures
            path@ == self.stream(),
    {
        self.stream_path.as_str()
    }

    pub fn config(&self) -> (config: &DisplayConfig)
        ensures
            *config == self.display(),
    {
        &self.config
    }

    /// Marks the session as stopped. What is to be done first, if anything: closing
    /// twice is harmless.
    pub fn close(&mut self) -> (first: Option<CloseAction>)
        ensures
            first == if old(self).is_stopped() {
                None
            } else {
                Some(CloseAction::StopRemoteDesktop)
            },
            final(self).is_stopped(),
            final(self).node() == old(self).node(),
            final(self).stream() == old(self).stream(),
            final(self).display() == old(self).display(),
    {
        let first = if self.stopped {
            None
        } else {
            Some(CloseAction::StopRemoteDesktop)
        };
        self.stopped = true;
        first
    }
}

/// A remote-desktop session with no screen cast attached, for injecting input into the
/// session at large.
#[derive(Debug)]
pub struct InputOnlySession {
    stopped: bool,
}

impl InputOnlySession {
    pub closed spec fn is_stopped(&self) -> bool {
        self.stopped
    }

    /// A session that was started.
    pub fn new() -> (session: InputOnlySession)
        ensures
            !session.is_stopped(),
    {
        InputOnlySession { stopped: false }
    }

    /// Marks the session as stopped. Whether there is anything to stop: closing twice
    /// is harmless.
    pub fn close(&mut self) -> (stop: bool)
        ensures
            stop == !old(self).is_stopped(),
            final(self).is_stopped(),
    {
        let stop = !self.stopped;
        self.stopped = true;
        stop
    }
}

/// A key and the modifiers that are held with it.
#[derive(Debug, Clone)]
pub struct Chord {
    pub modifiers: Vec<u32>,
    pub key: u32,
}

/// A key that goes down or up.
#[derive(Debug, Clone, Copy, PartialEq, Eq, Structural)]
pub struct KeyEvent {
    pub keycode: u32,
    pub pressed: bool,
}

pub open spec fn presses(keys: Seq<u32>) -> Seq<KeyEvent> {
    Seq::new(keys.len(), |i: int| KeyEvent { keycode: keys[i], pressed: true })
}

/// Releases, in the reverse order.
pub open spec fn releases(keys: Seq<u32>) -> Seq<KeyEvent> {
    Seq::new(
        keys.len(),
        |i: int| KeyEvent { keycode: keys[keys.len() - 1 - i], pressed: false },
    )
}

/// Presses the modifiers, taps the key, then releases in reverse order, mirroring how
/// a human lets go of a chord.
pub fn chord_events(chord: &Chord) -> (events: Vec<KeyEvent>)
    ensures
        events@ == presses(chord.modifiers@) + seq![
            KeyEvent { keycode: chord.key, pressed: true },
            KeyEvent { keycode: chord.key, pressed: false },
        ] + releases(chord.modifiers@),
{
    let mut events: Vec<KeyEvent> = Vec::new();
    let total: usize = chord.modifiers.len();
    let ghost keys = chord.modifiers@;
    let mut i: usize = 0;
    while i < total
        invariant
            i <= total,
            total == chord.modifiers@.len(),
            keys == chord.modifiers@,
            events@ == presses(keys).take(i as int),
        decreases total - i,
    {
        events.push(KeyEvent { keycode: chord.modifiers[i], pressed: true });
        assert(presses(keys).take(i + 1) =~= presses(keys).take(i as int).push(
            presses(keys)[i as int],
        ));
        i += 1;
    }
    events.push(KeyEvent { keycode: chord.key, pressed: true });
    events.push(KeyEvent { keycode: chord.key, pressed: false });
    let ghost head = events@;
    let mut left: usize = total;
    assert(head + releases(keys).take(0) =~= head);
    while left > 0
        invariant
            left <= total,
            total == chord.modifiers@.len(),
            keys == chord.modifiers@,
            events@ == head + releases(keys).take(total - left),
        decreases left,
    {
        events.push(KeyEvent { keycode: chord.modifiers[left - 1], pressed: false });
        assert(releases(keys).take(total - left + 1) =~= releases(keys).take(total - left).push(
            releases(keys)[total - left],
        ));
        left -= 1;
    }
    assert(releases(keys).take(total as int) =~= releases(keys));
    assert(presses(keys).take(total as int) =~= presses(keys));
    assert(events@ =~= presses(keys) + seq![
        KeyEvent { keycode: chord.key, pressed: true },
        KeyEvent { keycode: chord.key, pressed: false },
    ] + releases(keys));
    events
}

/// The keys that are down after the first `n` events, in the order in which they went
/// down. None, where a key is released that is not the last one pressed.
pub open spec fn held(events: Seq<KeyEvent>, n: nat) -> Option<Seq<u32>>
    decreases n,
{
    if n == 0 {
        Some(Seq::empty())
    } else {
        let event = events[n - 1];
        match held(events, (n - 1) as nat) {
            None => None,
            Some(keys) => if event.pressed {
                Some(keys.push(event.keycode))
            } else if keys.len() > 0 && keys.last() == event.keycode {
                Some(keys.drop_last())
            } else {
                None
            },
        }
    }
}

/// A chord leaves no key down, and keys go up in the reverse of the order in which
/// they went down.
pub proof fn law_a_chord_leaves_no_key_down(modifiers: Seq<u32>, key: u32)
    ensures
        ({
            let events = presses(modifiers) + seq![
                KeyEvent { keycode: key, pressed: true },
                KeyEvent { keycode: key, pressed: false },
            ] + releases(modifiers);
            held(events, events.len()) == Some(Seq::<u32>::empty())
        }),
{
    let events = presses(modifiers) + seq![
        KeyEvent { keycode: key, pressed: true },
        KeyEvent { keycode: key, pressed: false },
    ] + releases(modifiers);
    let n = modifiers.len();
    lemma_held_while_pressing(events, modifiers, n);
    assert(modifiers.take(n as int) =~= modifiers);
    assert(held(events, n + 1) == Some(modifiers.push(key)));
    assert(modifiers.push(key).drop_last() =~= modifiers);
    lemma_held_while_releasing(events, modifiers, n);
    assert(modifiers.take(0) =~= Seq::empty());
}

proof fn lemma_held_while_pressing(events: Seq<KeyEvent>, keys: Seq<u32>, n: nat)
    requires
        n <= keys.len() <= events.len(),
        forall|i: int| 0 <= i < keys.len() ==> #[trigger] events[i] == presses(keys)[i],
    ensures
        held(events, n) == Some(keys.take(n as int)),
    decreases n,
{
    if n > 0 {
        lemma_held_while_pressing(events, keys, (n - 1) as nat);
        assert(events[n - 1] == presses(keys)[n - 1]);
        assert(keys.take(n as int) =~= keys.take(n - 1).push(keys[n - 1]));
    } else {
        assert(keys.take(0) =~= Seq::empty());
    }
}

proof fn lemma_held_while_releasing(events: Seq<KeyEvent>, keys: Seq<u32>, n: nat)
    requires
        n <= keys.len(),
        events.len() == 2 * keys.len() + 2,
        held(events, keys.len() + 2) == Some(keys),
        forall|i: int|
            0 <= i < keys.len() ==> #[trigger] events[keys.len() + 2 + i] == releases(keys)[i],
    ensures
        held(events, keys.len() + 2 + n) == Some(keys.take(keys.len() - n)),
    decreases n,
{
    let total = keys.len();
    if n > 0 {
        lemma_held_while_releasing(events, keys, (n - 1) as nat);
        assert(events[total + 2 + (n - 1)] == releases(keys)[n - 1]);
        assert(keys.take(total - n + 1).drop_last() =~= keys.take(total - n));
    } else {
        assert(keys.take(total as int) =~= keys);
    }
}

/// Nothing is started before the stream's signal was subscribed to, and the node is
/// awaited only once the session was started.
pub proof fn law_subscription_precedes_the_start(opening: OpeningModel, reply: Reply)
    ensures
        opening.after(reply).action == OpenAction::StartRemoteDesktopSession ==> opening.action
            == OpenAction::SubscribeToStream && reply is Done,
        opening.after(reply).action == OpenAction::AwaitNode ==> opening.action
            == OpenAction::StartRemoteDesktopSession && reply is Done,
        opening.after(reply).action == OpenAction::Finished && opening.action
            != OpenAction::Finished ==> opening.action == OpenAction::AwaitNode && reply is Node,
{
}

/// The screen-cast session is created with the id of the remote-desktop session.
pub proof fn law_the_sessions_are_linked(opening: OpeningModel, reply: Reply)
    ensures
        opening.after(reply).action == OpenAction::CreateScreenCastSession ==> (opening.action
            == OpenAction::ReadSessionId && (reply matches Reply::SessionId(id) && opening.after(
            reply,
        ).session_id == id@)),
{
}

/// A session whose stream never appears is stopped before it is given up.
pub proof fn law_a_timed_out_session_is_stopped(opening: OpeningModel, reply: Reply)
    requires
        opening.action == OpenAction::AwaitNode,
    ensures
        opening.after(Reply::NoNode).action == OpenAction::StopRemoteDesktopSession,
        opening.after(Reply::NoNode).after(reply).error == Some(Error::NegotiationTimeout.text()),
{
}

/// How far the opening has come.
pub open spec fn progress(action: OpenAction) -> nat {
    match action {
        OpenAction::ConnectToBus => 0,
        OpenAction::ReachRemoteDesktop => 1,
        OpenAction::ReachScreenCast => 2,
        OpenAction::ReadVersion => 3,
        OpenAction::ReadDeviceTypes => 4,
        OpenAction::CreateRemoteDesktopSession => 5,
        OpenAction::ReachRemoteDesktopSession => 6,
        OpenAction::ReadSessionId => 7,
        OpenAction::CreateScreenCastSession => 8,
        OpenAction::ReachScreenCastSession => 9,
        OpenAction::Record => 10,
        OpenAction::ReachStream => 11,
        OpenAction::SubscribeToStream => 12,
        OpenAction::StartRemoteDesktopSession => 13,
        OpenAction::AwaitNode => 14,
        OpenAction::StopRemoteDesktopSession => 15,
        OpenAction::Finished => 16,
        OpenAction::Failed => 16,
    }
}

/// Opening a session ends: each reply leads further, until it is open or has failed.
pub proof fn law_opening_ends(opening: OpeningModel, reply: Reply)
    requires
        opening.action != OpenAction::Finished,
        opening.action != OpenAction::Failed,
    ensures
        progress(opening.after(reply).action) > progress(opening.action),
        opening.after(reply).action == OpenAction::Failed ==> opening.after(reply).error is Some,
{
}

/// An extended desktop is a monitor of the wanted mode that behaves as a real one; a
/// mirrored one is a copy of the named monitor. The cursor is hidden, painted into the
/// frames or described beside them as 0, 1 and 2.
pub proof fn law_the_stream_is_asked_for_as_configured(
    request: RecordRequest,
    config: DisplayConfig,
)
    requires
        request.asks_for(config),
    ensures
        ({
            let cursor = match config.cursor_mode {
                CursorMode::Hidden => 0u32,
                CursorMode::Embedded => 1u32,
                CursorMode::Metadata => 2u32,
            };
            match config.source {
                CaptureSource::Virtual => request == (RecordRequest::RecordVirtual {
                    width: config.width,
                    height: config.height,
                    refresh_rate: config.refresh_rate,
                    is_preferred: true,
                    is_platform: true,
                    cursor_mode: cursor,
                }),
                CaptureSource::Monitor(name) => request matches RecordRequest::RecordMonitor {
                    connector,
                    cursor_mode,
                } && connector@ == name@ && cursor_mode == cursor,
            }
        }),
{
}

/// Where every call succeeds the session opens: with the stream and the node that mutter
/// named, linked by the id that it gave, and with touch where it takes touch.
pub proof fn law_a_session_opens(
    config: DisplayConfig,
    version: i32,
    devices: u32,
    id: String,
    path: String,
    node: u32,
)
    requires
        version >= 3,
    ensures
        ({
            let reached = OpeningModel::fresh(config).after(Reply::Done).after(Reply::Done).after(
                Reply::Done,
            );
            let linked = reached.after(Reply::Version(version)).after(
                Reply::DeviceTypes(devices),
            ).after(Reply::Done).after(Reply::Done).after(Reply::SessionId(id));
            let recorded = linked.after(Reply::Done).after(Reply::Done).after(Reply::Stream(path));
            let open = recorded.after(Reply::Done).after(Reply::Done).after(Reply::Done).after(
                Reply::Node(node),
            );
            &&& reached.action == OpenAction::ReadVersion
            &&& linked.action == OpenAction::CreateScreenCastSession
            &&& recorded.action == OpenAction::ReachStream
            &&& open.action == OpenAction::Finished
            &&& open.node_id == node
            &&& open.stream_path == path@
            &&& open.session_id == id@
            &&& open.config == config
            &&& open.touch <==> (devices / 4) % 2 == 1
            &&& open.error is None
        }),
{
    assert((devices & 4 != 0) == ((devices / 4) % 2 == 1)) by (bit_vector);
}

/// A call that succeeds leads to the very next step.
pub proof fn law_a_success_is_one_step(opening: OpeningModel)
    ensures
        opening.after(Reply::Done).action != OpenAction::Failed && opening.action
            != OpenAction::Finished ==> progress(opening.after(Reply::Done).action) == progress(
            opening.action,
        ) + 1,
        ({
            let after = opening.after(Reply::Done);
            &&& after.config == opening.config
            &&& after.touch == opening.touch
            &&& after.session_id == opening.session_id
            &&& after.stream_path == opening.stream_path
            &&& after.node_id == opening.node_id
        }),
{
}

/// Whatever call fails, opening ends with its reason, except that without one of mutter's
/// two services there is no mutter; and mutter before version 3 is too old.
pub proof fn law_a_failed_call_ends_the_opening(opening: OpeningModel, reason: String, found: i32)
    requires
        opening.action != OpenAction::Finished,
        opening.action != OpenAction::Failed,
        opening.action != OpenAction::StopRemoteDesktopSession,
    ensures
        opening.after(Reply::Failed(reason)).action == OpenAction::Failed,
        opening.after(Reply::Failed(reason)).error == Some(
            if opening.action == OpenAction::ReachRemoteDesktop || opening.action
                == OpenAction::ReachScreenCast {
                "this needs a GNOME/mutter session on the session bus -- is GNOME running?"@
            } else {
                "D-Bus error: "@ + reason@
            },
        ),
        opening.action == OpenAction::ReadVersion && found < 3 ==> {
            &&& opening.after(Reply::Version(found)).action == OpenAction::Failed
            &&& opening.after(Reply::Version(found)).error == Some(
                (Error::ApiTooOld { found, required: 3 }).text(),
            )
        },
{
}

/// All the modifiers of a chord are down, in their order, when its key goes down, and the
/// key goes up before any of them.
pub proof fn law_the_modifiers_are_held_with_the_key(modifiers: Seq<u32>, key: u32)
    ensures
        ({
            let events = presses(modifiers) + seq![
                KeyEvent { keycode: key, pressed: true },
                KeyEvent { keycode: key, pressed: false },
            ] + releases(modifiers);
            let n = modifiers.len();
            &&& events.len() == 2 * n + 2
            &&& held(events, n) == Some(modifiers)
            &&& held(events, n + 1) == Some(modifiers.push(key))
            &&& held(events, n + 2) == Some(modifiers)
        }),
{
    let events = presses(modifiers) + seq![
        KeyEvent { keycode: key, pressed: true },
        KeyEvent { keycode: key, pressed: false },
    ] + releases(modifiers);
    let n = modifiers.len();
    lemma_held_while_pressing(events, modifiers, n);
    assert(modifiers.take(n as int) =~= modifiers);
    assert(modifiers.push(key).drop_last() =~= modifiers);
}

} // verus!

//! What the window shows in each state.
//!
//! Failures get first-class treatment. The two most likely first-run problems, no
//! tablet and USB debugging not authorised, can be fixed by the user, so each gets its
//! own page that says which buttons to press.

use vstd::prelude::*;

use crate::session::engine::State;
use crate::text::owned;

verus! {

/// The page that is shown while there is nothing to control.
#[derive(Debug, Clone)]
pub struct StatusPage {
    pub icon: &'static str,
    pub title: &'static str,
    pub description: String,
    /// The label of the button, where there is one.
    pub button: Option<&'static str>,
    pub spinning: bool,
}

/// What the window shows.
#[derive(Debug, Clone)]
pub enum Face {
    Status(StatusPage),
    /// The controls of a running session.
    Running { width: u32, height: u32, encoder: String },
}

/// What the window shows, and the line under its title.
#[derive(Debug, Clone)]
pub struct WindowView {
    pub subtitle: String,
    pub face: Face,
}

pub struct PageModel {
    pub icon: &'static str,
    pub title: &'static str,
    pub description: Seq<char>,
    pub button: Option<&'static str>,
    pub spinning: bool,
}

pub enum FaceModel {
    Status(PageModel),
    Running { width: u32, height: u32, encoder: Seq<char> },
}

pub struct ViewModel {
    pub subtitle: Seq<char>,
    pub face: FaceModel,
}

impl View for WindowView {
    type V = ViewModel;

    open spec fn view(&self) -> ViewModel {
        ViewModel {
            subtitle: self.subtitle@,
            face: match self.face {
                Face::Status(page) => FaceModel::Status(
                    PageModel {
                        icon: page.icon,
                        title: page.title,
                        description: page.description@,
                        button: page.button,
                        spinning: page.spinning,
                    },
                ),
                Face::Running { width, height, encoder } => FaceModel::Running {
                    width,
                    height,
                    encoder: encoder@,
                },
            },
        }
    }
}

/// A page without a spinner.
pub open spec fn page(
    icon: &'static str,
    title: &'static str,
    description: Seq<char>,
    button: &'static str,
) -> FaceModel {
    FaceModel::Status(
        PageModel { icon, title, description, button: Some(button), spinning: false },
    )
}

/// What the window shows in a state.
pub open spec fn shown(state: State) -> ViewModel {
    match state {
        State::Idle => ViewModel {
            subtitle: "Not connected"@,
            face: page(
                "video-display-symbolic",
                "Ready",
                "Turn on Extra Display to start streaming to your tablet."@,
                "Connect",
            ),
        },
        State::NoTablet => ViewModel {
            subtitle: "No tablet"@,
            face: page(
                "phone-disconnected-symbolic",
                "No tablet found",
                "Connect your tablet over USB, then enable USB debugging:\n\n1.  Settings → About tablet → tap “Build number” seven times\n2.  Settings → System → Developer options → USB debugging"@,
                "Check Again",
            ),
        },
        State::Unauthorized { device } => ViewModel {
            subtitle: "Not authorised"@,
            face: page(
                "dialog-password-symbolic",
                "Allow USB debugging",
                device@
                    + " is connected but has not granted permission yet.\n\nUnlock the tablet and tap “Allow” on the USB debugging prompt. Tick “Always allow from this computer” so you are not asked again."@,
                "Try Again",
            ),
        },
        State::Connecting { step } => ViewModel {
            subtitle: "Connecting…"@,
            face: FaceModel::Status(
                PageModel {
                    icon: "content-loading-symbolic",
                    title: "Connecting",
                    description: step@,
                    button: None,
                    spinning: true,
                },
            ),
        },
        State::Streaming { device, width, height, encoder } => ViewModel {
            subtitle: device@,
            face: FaceModel::Running { width, height, encoder: encoder@ },
        },
        State::Failed { message } => ViewModel {
            subtitle: "Error"@,
            face: page("dialog-warning-symbolic", "Something went wrong", message@, "Try Again"),
        },
    }
}

fn status(
    subtitle: &str,
    icon: &'static str,
    title: &'static str,
    description: String,
    button: &'static str,
) -> (view: WindowView)
    ensures
        view@ == (ViewModel {
            subtitle: subtitle@,
            face: page(icon, title, description@, button),
        }),
{
    WindowView {
        subtitle: owned(subtitle),
        face: Face::Status(
            StatusPage { icon, title, description, button: Some(button), spinning: false },
        ),
    }
}

/// What the window shows in a state.
pub fn apply_state(state: &State) -> (view: WindowView)
    ensures
        view@ == shown(*state),
{
    match state {
        State::Idle => status(
            "Not connected",
            "video-display-symbolic",
            "Ready",
            owned("Turn on Extra Display to start streaming to your tablet."),
            "Connect",
        ),
        State::NoTablet => status(
            "No tablet",
            "phone-disconnected-symbolic",
            "No tablet found",
            owned(
                "Connect your tablet over USB, then enable USB debugging:\n\n1.  Settings → About tablet → tap “Build number” seven times\n2.  Settings → System → Developer options → USB debugging",
            ),
            "Check Again",
        ),
        State::Unauthorized { device } => {
            let mut description = owned(device.as_str());
            description.append(
                " is connected but has not granted permission yet.\n\nUnlock the tablet and tap “Allow” on the USB debugging prompt. Tick “Always allow from this computer” so you are not asked again.",
            );
            status(
                "Not authorised",
                "dialog-password-symbolic",
                "Allow USB debugging",
                description,
                "Try Again",
            )
        },
        State::Connecting { step } => WindowView {
            subtitle: owned("Connecting…"),
            face: Face::Status(
                StatusPage {
                    icon: "content-loading-symbolic",
                    title: "Connecting",
                    description: step.clone(),
                    button: None,
                    spinning: true,
                },
            ),
        },
        State::Streaming { device, width, height, encoder } => WindowView {
            subtitle: device.clone(),
            face: Face::Running { width: *width, height: *height, encoder: encoder.clone() },
        },
        State::Failed { message } => status(
            "Error",
            "dialog-warning-symbolic",
            "Something went wrong",
            message.clone(),
            "Try Again",
        ),
    }
}

/// The controls are shown exactly while a session runs, and whenever nothing is under
/// way there is a button to try.
pub proof fn law_there_is_always_a_way_on(state: State)
    ensures
        shown(state).face is Running <==> state is Streaming,
        shown(state).face matches FaceModel::Status(page) ==> (page.button is None <==> state
            is Connecting) && (page.spinning <==> state is Connecting),
{
}

/// The window tells what the state says: the step that is under way, the failure, the
/// tablet that has to be unlocked, or the tablet that streams and how.
pub proof fn law_the_window_tells_the_state(state: State)
    ensures
        match state {
            State::Idle => shown(state).subtitle == "Not connected"@,
            State::NoTablet => shown(state).subtitle == "No tablet"@,
            State::Unauthorized { device } => {
                &&& shown(state).subtitle == "Not authorised"@
                &&& shown(state).face matches FaceModel::Status(page)
                &&& device@.is_prefix_of(page.description)
                &&& page.button == Some("Try Again")
            },
            State::Connecting { step } => {
                &&& shown(state).subtitle == "Connecting…"@
                &&& shown(state).face matches FaceModel::Status(page)
                &&& page.description == step@
            },
            State::Streaming { device, width, height, encoder } => {
                &&& shown(state).subtitle == device@
                &&& shown(state).face == (FaceModel::Running { width, height, encoder: encoder@ })
            },
            State::Failed { message } => {
                &&& shown(state).subtitle == "Error"@
                &&& shown(state).face matches FaceModel::Status(page)
                &&& page.description == message@
                &&& page.button == Some("Try Again")
            },
        },
{
}

} // verus!

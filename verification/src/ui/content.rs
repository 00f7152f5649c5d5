//! The controls of the window and the words on them.

use vstd::prelude::*;

verus! {

/// A row of the window.
#[derive(Debug, Clone, Copy, PartialEq, Eq, Structural)]
pub enum Row {
    DisplaySwitch,
    Mode,
    Scale,
    CameraSwitch,
    Resolution,
    Bitrate,
    FrameRate,
    Latency,
    EncoderName,
}

/// What a row is.
#[derive(Debug, Clone, Copy)]
pub enum RowKind {
    Switch,
    /// One of a list of choices.
    Choice,
    /// A figure, with an icon.
    Figure(&'static str),
}

#[derive(Debug, Clone, Copy)]
pub struct RowPlan {
    pub row: Row,
    pub kind: RowKind,
    pub title: &'static str,
    pub subtitle: &'static str,
}

/// A group of rows.
#[derive(Debug, Clone)]
pub struct GroupPlan {
    pub title: &'static str,
    pub description: Option<&'static str>,
    pub rows: Vec<RowPlan>,
}

#[verifier::ext_equal]
pub struct GroupModel {
    pub title: &'static str,
    pub description: Option<&'static str>,
    pub rows: Seq<RowPlan>,
}

impl DeepView for GroupPlan {
    type V = GroupModel;

    open spec fn deep_view(&self) -> GroupModel {
        GroupModel { title: self.title, description: self.description, rows: self.rows@ }
    }
}

/// A figure that is not known yet.
pub open spec fn unknown_figure(row: Row, title: &'static str, icon: &'static str) -> RowPlan {
    RowPlan { row, kind: RowKind::Figure(icon), title, subtitle: "—" }
}

/// The rows of the window, in their groups.
pub open spec fn groups() -> Seq<GroupModel> {
    seq![
        GroupModel {
            title: "Display",
            description: Some("Use the tablet as an extra monitor"),
            rows: seq![
                RowPlan {
                    row: Row::DisplaySwitch,
                    kind: RowKind::Switch,
                    title: "Extra Display",
                    subtitle: "Stream your desktop to the tablet",
                },
                RowPlan {
                    row: Row::Mode,
                    kind: RowKind::Choice,
                    title: "Mode",
                    subtitle: "Extend adds a new monitor; Mirror copies an existing one",
                },
                RowPlan {
                    row: Row::Scale,
                    kind: RowKind::Choice,
                    title: "Scale",
                    subtitle: "GNOME UI scale on native panel pixels",
                },
            ],
        },
        GroupModel {
            title: "Camera",
            description: Some("Expose the tablet camera to Linux as a normal webcam"),
            rows: seq![
                RowPlan {
                    row: Row::CameraSwitch,
                    kind: RowKind::Switch,
                    title: "Tablet Camera",
                    subtitle: "Appears as “Extraspace Tablet Camera”",
                },
            ],
        },
        GroupModel {
            title: "Statistics",
            description: None,
            rows: seq![
                unknown_figure(Row::Resolution, "Resolution", "video-display-symbolic"),
                unknown_figure(Row::Bitrate, "Bitrate", "network-transmit-symbolic"),
                unknown_figure(Row::FrameRate, "Frame Rate", "preferences-system-time-symbolic"),
                unknown_figure(Row::Latency, "Latency", "network-wireless-symbolic"),
                unknown_figure(Row::EncoderName, "Encoder", "applications-multimedia-symbolic"),
            ],
        },
    ]
}

fn stat_row(row: Row, title: &'static str, icon: &'static str) -> (plan: RowPlan)
    ensures
        plan == unknown_figure(row, title, icon),
{
    RowPlan { row, kind: RowKind::Figure(icon), title, subtitle: "—" }
}

/// What the window is made of.
pub fn build_content() -> (content: Vec<GroupPlan>)
    ensures
        content.deep_view() == groups(),
{
    let display = GroupPlan {
        title: "Display",
        description: Some("Use the tablet as an extra monitor"),
        rows: vec![
            RowPlan {
                row: Row::DisplaySwitch,
                kind: RowKind::Switch,
                title: "Extra Display",
                subtitle: "Stream your desktop to the tablet",
            },
            RowPlan {
                row: Row::Mode,
                kind: RowKind::Choice,
                title: "Mode",
                subtitle: "Extend adds a new monitor; Mirror copies an existing one",
            },
            RowPlan {
                row: Row::Scale,
                kind: RowKind::Choice,
                title: "Scale",
                subtitle: "GNOME UI scale on native panel pixels",
            },
        ],
    };
    let camera = GroupPlan {
        title: "Camera",
        description: Some("Expose the tablet camera to Linux as a normal webcam"),
        rows: vec![
            RowPlan {
                row: Row::CameraSwitch,
                kind: RowKind::Switch,
                title: "Tablet Camera",
                subtitle: "Appears as “Extraspace Tablet Camera”",
            },
        ],
    };
    let statistics = GroupPlan {
        title: "Statistics",
        description: None,
        rows: vec![
            stat_row(Row::Resolution, "Resolution", "video-display-symbolic"),
            stat_row(Row::Bitrate, "Bitrate", "network-transmit-symbolic"),
            stat_row(Row::FrameRate, "Frame Rate", "preferences-system-time-symbolic"),
            stat_row(Row::Latency, "Latency", "network-wireless-symbolic"),
            stat_row(Row::EncoderName, "Encoder", "applications-multimedia-symbolic"),
        ],
    };
    let mut content: Vec<GroupPlan> = Vec::new();
    assert(display.deep_view() =~= groups()[0]);
    assert(camera.deep_view() =~= groups()[1]);
    assert(statistics.deep_view() =~= groups()[2]);
    content.push(display);
    content.push(camera);
    content.push(statistics);
    assert(content.deep_view() =~= groups());
    content
}

/// The choices for the mode, in the order of their numbers.
pub fn mode_labels() -> (labels: Vec<&'static str>)
    ensures
        labels@ == seq!["Extend", "Mirror"],
{
    vec!["Extend", "Mirror"]
}

/// The choices for the scale, in the order of their numbers.
pub fn scale_labels() -> (labels: Vec<&'static str>)
    ensures
        labels@ == seq!["1×", "1.25×", "1.5×", "1.75×", "2×"],
{
    vec!["1×", "1.25×", "1.5×", "1.75×", "2×"]
}

/// The switch of the display comes first, each row stands in its group, and the figures are
/// unknown at first.
pub proof fn law_rows_stand_in_their_groups(i: int)
    ensures
        groups().len() == 3,
        groups()[0].rows.len() == 3,
        groups()[0].rows[0].row == Row::DisplaySwitch && groups()[0].rows[0].kind is Switch,
        groups()[0].rows[1].row == Row::Mode && groups()[0].rows[1].kind is Choice,
        groups()[0].rows[2].row == Row::Scale && groups()[0].rows[2].kind is Choice,
        groups()[1].rows.len() == 1,
        groups()[1].rows[0].row == Row::CameraSwitch && groups()[1].rows[0].kind is Switch,
        groups()[2].rows.len() == 5,
        groups()[2].rows[0].row == Row::Resolution,
        groups()[2].rows[1].row == Row::Bitrate,
        groups()[2].rows[2].row == Row::FrameRate,
        groups()[2].rows[3].row == Row::Latency,
        groups()[2].rows[4].row == Row::EncoderName,
        0 <= i < 5 ==> groups()[2].rows[i].kind is Figure && groups()[2].rows[i].subtitle == "—",
{
}

} // verus!

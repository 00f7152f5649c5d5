//! Mutter's monitor list, and how the virtual monitor is put into its layout.
//!
//! A virtual monitor that no saved layout matches is created disabled. Once it exists
//! mutter is asked to add it to the right of the primary display, with everything else
//! left where it is.

use vstd::arithmetic::power2::pow2;
use vstd::prelude::*;

use crate::binary64::{
    distance, divide_i32, is_nearest_to, law_no_option_is_nearer,
    law_one_of_the_options_is_chosen, law_quotients_are_the_nearest_integers, nearest, nearest_of,
    quotient_within, Binary64, ONE,
};
use crate::text::text_eq;

verus! {

/// The layout mode in which positions are counted in scaled pixels.
pub const LAYOUT_LOGICAL: u32 = 1;

/// A layout that is applied this way lasts for the session.
pub const APPLY_TEMPORARY: u32 = 1;

/// How long to wait between two looks for the virtual monitor, in milliseconds.
pub const VIRTUAL_WAIT_MS: u64 = 50;

/// How often to look for the virtual monitor.
pub const VIRTUAL_WAIT_TRIES: u32 = 20;

/// A property's value, as far as it matters here.
#[derive(Debug, Clone, Copy, PartialEq, Eq, Structural)]
pub enum PropValue {
    Bool(bool),
    U32(u32),
    Other,
}

/// A named property.
#[derive(Debug, Clone)]
pub struct Prop {
    pub name: String,
    pub value: PropValue,
}

/// What identifies a monitor.
#[derive(Debug, Clone)]
pub struct MonitorSpec {
    pub connector: String,
    pub vendor: String,
    pub product: String,
    pub serial: String,
}

/// A mode that a monitor can be driven in.
#[derive(Debug, Clone)]
pub struct Mode {
    pub id: String,
    pub width: i32,
    pub height: i32,
    pub refresh_rate: Binary64,
    pub preferred_scale: Binary64,
    pub supported_scales: Vec<Binary64>,
    pub props: Vec<Prop>,
}

/// A monitor, on or off.
#[derive(Debug, Clone)]
pub struct Monitor {
    pub spec: MonitorSpec,
    pub modes: Vec<Mode>,
    pub props: Vec<Prop>,
}

/// A region of the desktop and the monitors that show it.
#[derive(Debug, Clone)]
pub struct LogicalMonitor {
    pub x: i32,
    pub y: i32,
    pub scale: Binary64,
    pub transform: u32,
    pub primary: bool,
    pub specs: Vec<MonitorSpec>,
}

/// All that mutter says of its monitors.
#[derive(Debug, Clone)]
pub struct CurrentState {
    pub serial: u32,
    pub monitors: Vec<Monitor>,
    pub logical: Vec<LogicalMonitor>,
    pub props: Vec<Prop>,
}

/// The first of the first `n` items that has the property.
pub open spec fn first_of<T>(items: Seq<T>, holds: spec_fn(T) -> bool, n: nat) -> Option<int>
    decreases n,
{
    if n == 0 {
        None
    } else if let Some(i) = first_of(items, holds, (n - 1) as nat) {
        Some(i)
    } else if holds(items[n - 1]) {
        Some(n - 1)
    } else {
        None
    }
}

/// The first item that has the property.
pub open spec fn first<T>(items: Seq<T>, holds: spec_fn(T) -> bool) -> Option<int> {
    first_of(items, holds, items.len())
}

proof fn lemma_first_stays<T>(items: Seq<T>, holds: spec_fn(T) -> bool, m: nat, n: nat)
    requires
        m <= n,
        first_of(items, holds, m) is Some,
    ensures
        first_of(items, holds, n) == first_of(items, holds, m),
    decreases n,
{
    if m < n {
        lemma_first_stays(items, holds, m, (n - 1) as nat);
    }
}

/// The first item that has the property is in range, has it, and no earlier one has.
pub proof fn lemma_first<T>(items: Seq<T>, holds: spec_fn(T) -> bool, n: nat)
    requires
        n <= items.len(),
    ensures
        match first_of(items, holds, n) {
            Some(i) => 0 <= i < n && holds(items[i]) && forall|j: int|
                0 <= j < i ==> !holds(#[trigger] items[j]),
            None => forall|j: int| 0 <= j < n ==> !holds(#[trigger] items[j]),
        },
    decreases n,
{
    if n > 0 {
        lemma_first(items, holds, (n - 1) as nat);
    }
}

/// What a property is called.
pub open spec fn named(name: Seq<char>) -> spec_fn(Prop) -> bool {
    |prop: Prop| prop.name@ == name
}

/// The value of the property of this name.
pub open spec fn prop(props: Seq<Prop>, name: Seq<char>) -> Option<PropValue> {
    match first(props, named(name)) {
        Some(i) => Some(props[i].value),
        None => None,
    }
}

fn find_prop(props: &[Prop], name: &str) -> (value: Option<PropValue>)
    ensures
        value == prop(props@, name@),
{
    let mut i: usize = 0;
    while i < props.len()
        invariant
            i <= props@.len(),
            first_of(props@, named(name@), i as nat) is None,
        decreases props@.len() - i,
    {
        if text_eq(props[i].name.as_str(), name) {
            proof {
                lemma_first_stays(props@, named(name@), (i + 1) as nat, props@.len());
            }
            return Some(props[i].value);
        }
        i += 1;
    }
    None
}

/// The property is there and true.
pub open spec fn is_true(props: Seq<Prop>, name: Seq<char>) -> bool {
    prop(props, name) == Some(PropValue::Bool(true))
}

/// The property's number, where it is one.
pub open spec fn number(props: Seq<Prop>, name: Seq<char>) -> Option<u32> {
    match prop(props, name) {
        Some(PropValue::U32(n)) => Some(n),
        _ => None,
    }
}

pub fn prop_bool(props: &[Prop], name: &str) -> (is: bool)
    ensures
        is == is_true(props@, name@),
{
    match find_prop(props, name) {
        Some(PropValue::Bool(b)) => b,
        _ => false,
    }
}

pub fn prop_u32(props: &[Prop], name: &str) -> (n: Option<u32>)
    ensures
        n == number(props@, name@),
{
    match find_prop(props, name) {
        Some(PropValue::U32(n)) => Some(n),
        _ => None,
    }
}

/// Whether a mode has a flag such as `is-current`.
pub fn mode_flag(mode: &Mode, key: &str) -> (is: bool)
    ensures
        is == is_true(mode.props@, key@),
{
    prop_bool(mode.props.as_slice(), key)
}

/// The monitor has no hardware behind it.
pub open spec fn virtual_spec(spec: MonitorSpec) -> bool {
    spec.vendor@ == "MetaVendor"@
}

pub fn is_virtual(spec: &MonitorSpec) -> (is: bool)
    ensures
        is == virtual_spec(*spec),
{
    text_eq(spec.vendor.as_str(), "MetaVendor")
}

pub open spec fn virtual_monitor() -> spec_fn(Monitor) -> bool {
    |monitor: Monitor| virtual_spec(monitor.spec)
}

pub open spec fn at_connector(connector: Seq<char>) -> spec_fn(Monitor) -> bool {
    |monitor: Monitor| monitor.spec.connector@ == connector
}

pub open spec fn flagged(key: Seq<char>) -> spec_fn(Mode) -> bool {
    |mode: Mode| is_true(mode.props@, key)
}

pub open spec fn specified(connector: Seq<char>) -> spec_fn(MonitorSpec) -> bool {
    |spec: MonitorSpec| spec.connector@ == connector
}

pub open spec fn showing(connector: Seq<char>) -> spec_fn(LogicalMonitor) -> bool {
    |logical: LogicalMonitor| first(logical.specs@, specified(connector)) is Some
}

pub open spec fn is_primary() -> spec_fn(LogicalMonitor) -> bool {
    |logical: LogicalMonitor| logical.primary
}

fn find_virtual(monitors: &[Monitor]) -> (found: Option<usize>)
    ensures
        match found {
            Some(i) => first(monitors@, virtual_monitor()) == Some(i as int) && i < monitors@.len(),
            None => first(monitors@, virtual_monitor()) is None,
        },
{
    let mut i: usize = 0;
    while i < monitors.len()
        invariant
            i <= monitors@.len(),
            first_of(monitors@, virtual_monitor(), i as nat) is None,
        decreases monitors@.len() - i,
    {
        if is_virtual(&monitors[i].spec) {
            proof {
                lemma_first_stays(monitors@, virtual_monitor(), (i + 1) as nat, monitors@.len());
            }
            return Some(i);
        }
        i += 1;
    }
    None
}

fn find_monitor(monitors: &[Monitor], connector: &str) -> (found: Option<usize>)
    ensures
        match found {
            Some(i) => first(monitors@, at_connector(connector@)) == Some(i as int) && i
                < monitors@.len(),
            None => first(monitors@, at_connector(connector@)) is None,
        },
{
    let mut i: usize = 0;
    while i < monitors.len()
        invariant
            i <= monitors@.len(),
            first_of(monitors@, at_connector(connector@), i as nat) is None,
        decreases monitors@.len() - i,
    {
        if text_eq(monitors[i].spec.connector.as_str(), connector) {
            proof {
                lemma_first_stays(
                    monitors@,
                    at_connector(connector@),
                    (i + 1) as nat,
                    monitors@.len(),
                );
            }
            return Some(i);
        }
        i += 1;
    }
    None
}

fn find_mode(modes: &[Mode], key: &str) -> (found: Option<usize>)
    ensures
        match found {
            Some(i) => first(modes@, flagged(key@)) == Some(i as int) && i < modes@.len(),
            None => first(modes@, flagged(key@)) is None,
        },
{
    let mut i: usize = 0;
    while i < modes.len()
        invariant
            i <= modes@.len(),
            first_of(modes@, flagged(key@), i as nat) is None,
        decreases modes@.len() - i,
    {
        if mode_flag(&modes[i], key) {
            proof {
                lemma_first_stays(modes@, flagged(key@), (i + 1) as nat, modes@.len());
            }
            return Some(i);
        }
        i += 1;
    }
    None
}

fn shows(logical: &LogicalMonitor, connector: &str) -> (is: bool)
    ensures
        is == showing(connector@)(*logical),
{
    let mut i: usize = 0;
    while i < logical.specs.len()
        invariant
            i <= logical.specs@.len(),
            first_of(logical.specs@, specified(connector@), i as nat) is None,
        decreases logical.specs@.len() - i,
    {
        if text_eq(logical.specs[i].connector.as_str(), connector) {
            proof {
                lemma_first_stays(
                    logical.specs@,
                    specified(connector@),
                    (i + 1) as nat,
                    logical.specs@.len(),
                );
            }
            return true;
        }
        i += 1;
    }
    false
}

fn find_logical(logical: &[LogicalMonitor], connector: &str) -> (found: Option<usize>)
    ensures
        match found {
            Some(i) => first(logical@, showing(connector@)) == Some(i as int) && i < logical@.len(),
            None => first(logical@, showing(connector@)) is None,
        },
{
    let mut i: usize = 0;
    while i < logical.len()
        invariant
            i <= logical@.len(),
            first_of(logical@, showing(connector@), i as nat) is None,
        decreases logical@.len() - i,
    {
        if shows(&logical[i], connector) {
            proof {
                lemma_first_stays(logical@, showing(connector@), (i + 1) as nat, logical@.len());
            }
            return Some(i);
        }
        i += 1;
    }
    None
}

/// The connectors of all monitors, in mutter's order.
pub fn list_connectors(state: &CurrentState) -> (connectors: Vec<String>)
    ensures
        connectors@.len() == state.monitors@.len(),
        forall|i: int|
            0 <= i < connectors@.len() ==> (#[trigger] connectors@[i])@
                == state.monitors@[i].spec.connector@,
{
    let mut connectors: Vec<String> = Vec::new();
    let mut i: usize = 0;
    while i < state.monitors.len()
        invariant
            i <= state.monitors@.len(),
            connectors@.len() == i,
            forall|j: int|
                0 <= j < i ==> (#[trigger] connectors@[j])@ == state.monitors@[j].spec.connector@,
        decreases state.monitors@.len() - i,
    {
        connectors.push(state.monitors[i].spec.connector.clone());
        i += 1;
    }
    connectors
}

/// The connectors of all monitors; none, where mutter's answer could not be read.
pub fn list_connectors_best_effort(state: Option<&CurrentState>) -> (connectors: Vec<String>)
    ensures
        match state {
            Some(s) => connectors@.len() == s.monitors@.len() && forall|i: int|
                0 <= i < connectors@.len() ==> (#[trigger] connectors@[i])@
                    == s.monitors@[i].spec.connector@,
            None => connectors@.len() == 0,
        },
{
    match state {
        Some(s) => list_connectors(s),
        None => Vec::new(),
    }
}

/// What mutter configured for the virtual monitor.
#[derive(Debug, Clone, Copy, PartialEq, Eq, Structural)]
pub struct VirtualState {
    pub width: u32,
    pub height: u32,
    /// Logical scale of the monitor's layout, i.e. how big the UI actually is.
    pub scale: Binary64,
}

/// A size without its sign, should it have one.
pub open spec fn unsigned(n: i32) -> u32 {
    if n < 0 {
        0
    } else {
        n as u32
    }
}

fn to_unsigned(n: i32) -> (u: u32)
    ensures
        u == unsigned(n),
{
    if n < 0 {
        0
    } else {
        n as u32
    }
}

/// The virtual monitor's current mode and the scale of its layout, which is 1 where it
/// is in none.
pub open spec fn virtual_state(state: CurrentState) -> Option<VirtualState> {
    match first(state.monitors@, virtual_monitor()) {
        None => None,
        Some(m) => {
            let monitor = state.monitors@[m];
            match first(monitor.modes@, flagged("is-current"@)) {
                None => None,
                Some(i) => Some(
                    VirtualState {
                        width: unsigned(monitor.modes@[i].width),
                        height: unsigned(monitor.modes@[i].height),
                        scale: match first(state.logical@, showing(monitor.spec.connector@)) {
                            Some(l) => state.logical@[l].scale,
                            None => Binary64 { bits: ONE },
                        },
                    },
                ),
            }
        },
    }
}

/// Reads back the virtual monitor's current mode and logical scale.
pub fn virtual_monitor_state(state: &CurrentState) -> (found: Option<VirtualState>)
    ensures
        found == virtual_state(*state),
{
    match find_virtual(state.monitors.as_slice()) {
        None => None,
        Some(m) => {
            let monitor = &state.monitors[m];
            match find_mode(monitor.modes.as_slice(), "is-current") {
                None => None,
                Some(i) => {
                    let scale = match find_logical(
                        state.logical.as_slice(),
                        monitor.spec.connector.as_str(),
                    ) {
                        Some(l) => state.logical[l].scale,
                        None => Binary64 { bits: ONE },
                    };
                    Some(
                        VirtualState {
                            width: to_unsigned(monitor.modes[i].width),
                            height: to_unsigned(monitor.modes[i].height),
                            scale,
                        },
                    )
                },
            }
        },
    }
}

/// The supported scale nearest to the wanted one; where none is named, the preferred
/// scale.
pub open spec fn scale_for(mode: Mode, wanted: Binary64) -> Binary64 {
    if mode.supported_scales@.len() == 0 {
        mode.preferred_scale
    } else {
        mode.supported_scales@[nearest_of(
            mode.supported_scales@,
            wanted,
            mode.supported_scales@.len(),
        )]
    }
}

pub fn closest_scale(mode: &Mode, wanted: Binary64) -> (scale: Binary64)
    ensures
        scale == scale_for(*mode, wanted),
{
    if mode.supported_scales.len() == 0 {
        mode.preferred_scale
    } else {
        let i: usize = nearest(mode.supported_scales.as_slice(), wanted);
        mode.supported_scales[i]
    }
}

/// The transforms that turn a monitor by a quarter: 90, 270, and both flipped.
pub open spec fn swaps_axes(transform: u32) -> bool {
    transform == 1 || transform == 3 || transform == 5 || transform == 7
}

pub fn transform_swaps_axes(transform: u32) -> (swaps: bool)
    ensures
        swaps == swaps_axes(transform),
{
    transform == 1 || transform == 3 || transform == 5 || transform == 7
}

/// One dimension in the coordinates of the layout.
pub open spec fn logical_extent(n: i32, scale: Binary64, layout_mode: u32) -> int {
    if layout_mode == LAYOUT_LOGICAL {
        quotient_within(n as int, scale, i32::MIN as int, i32::MAX as int)
    } else {
        n as int
    }
}

/// The size that a mode takes up in the layout.
pub fn logical_size(width: i32, height: i32, scale: Binary64, transform: u32, layout_mode: u32) -> (
    size: (i32, i32))
    ensures
        size.0 == logical_extent(
            if swaps_axes(transform) {
                height
            } else {
                width
            },
            scale,
            layout_mode,
        ),
        size.1 == logical_extent(
            if swaps_axes(transform) {
                width
            } else {
                height
            },
            scale,
            layout_mode,
        ),
{
    let (w, h) = if transform_swaps_axes(transform) {
        (height, width)
    } else {
        (width, height)
    };
    if layout_mode == LAYOUT_LOGICAL {
        (divide_i32(w, scale), divide_i32(h, scale))
    } else {
        (w, h)
    }
}

/// The mode a monitor is in, or else the one it prefers.
pub open spec fn active_mode(modes: Seq<Mode>) -> Option<int> {
    match first(modes, flagged("is-current"@)) {
        Some(i) => Some(i),
        None => first(modes, flagged("is-preferred"@)),
    }
}

/// The active mode, or else the first.
pub open spec fn mode_to_apply(modes: Seq<Mode>) -> Option<int> {
    match active_mode(modes) {
        Some(i) => Some(i),
        None => if modes.len() > 0 {
            Some(0)
        } else {
            None
        },
    }
}

fn find_active_mode(modes: &[Mode]) -> (found: Option<usize>)
    ensures
        match found {
            Some(i) => active_mode(modes@) == Some(i as int) && i < modes@.len(),
            None => active_mode(modes@) is None,
        },
{
    match find_mode(modes, "is-current") {
        Some(i) => Some(i),
        None => find_mode(modes, "is-preferred"),
    }
}

fn find_mode_to_apply(modes: &[Mode]) -> (found: Option<usize>)
    ensures
        match found {
            Some(i) => mode_to_apply(modes@) == Some(i as int) && i < modes@.len(),
            None => mode_to_apply(modes@) is None,
        },
{
    match find_active_mode(modes) {
        Some(i) => Some(i),
        None => if modes.len() > 0 {
            Some(0)
        } else {
            None
        },
    }
}

/// The size of the active mode of the monitor at a connector.
pub open spec fn active_size(monitors: Seq<Monitor>, connector: Seq<char>) -> Option<(i32, i32)> {
    match first(monitors, at_connector(connector)) {
        None => None,
        Some(m) => match active_mode(monitors[m].modes@) {
            None => None,
            Some(i) => Some((monitors[m].modes@[i].width, monitors[m].modes@[i].height)),
        },
    }
}

pub fn current_mode_size(monitors: &[Monitor], connector: &str) -> (size: Option<(i32, i32)>)
    ensures
        size == active_size(monitors@, connector@),
{
    match find_monitor(monitors, connector) {
        None => None,
        Some(m) => {
            let modes = monitors[m].modes.as_slice();
            match find_active_mode(modes) {
                None => None,
                Some(i) => Some((modes[i].width, modes[i].height)),
            }
        },
    }
}

/// The primary region of the desktop, or else the first.
pub open spec fn main_logical(logical: Seq<LogicalMonitor>) -> Option<int> {
    match first(logical, is_primary()) {
        Some(i) => Some(i),
        None => if logical.len() > 0 {
            Some(0)
        } else {
            None
        },
    }
}

fn find_main_logical(logical: &[LogicalMonitor]) -> (found: Option<usize>)
    ensures
        match found {
            Some(i) => main_logical(logical@) == Some(i as int) && i < logical@.len(),
            None => main_logical(logical@) is None,
        },
{
    let mut i: usize = 0;
    while i < logical.len()
        invariant
            i <= logical@.len(),
            first_of(logical@, is_primary(), i as nat) is None,
        decreases logical@.len() - i,
    {
        if logical[i].primary {
            proof {
                lemma_first_stays(logical@, is_primary(), (i + 1) as nat, logical@.len());
            }
            return Some(i);
        }
        i += 1;
    }
    if logical.len() > 0 {
        Some(0)
    } else {
        None
    }
}

/// How wide a region is in the layout. One whose monitor is not known has no width.
pub open spec fn region_width(
    monitors: Seq<Monitor>,
    region: LogicalMonitor,
    layout_mode: u32,
) -> int {
    let connector = if region.specs@.len() > 0 {
        region.specs@[0].connector@
    } else {
        ""@
    };
    let size = match active_size(monitors, connector) {
        Some(size) => size,
        None => (0, 0),
    };
    logical_extent(
        if swaps_axes(region.transform) {
            size.1
        } else {
            size.0
        },
        region.scale,
        layout_mode,
    )
}

/// The place right of the primary region, level with it.
pub open spec fn right_of_primary(
    monitors: Seq<Monitor>,
    logical: Seq<LogicalMonitor>,
    layout_mode: u32,
) -> (i32, i32) {
    match main_logical(logical) {
        None => (0, 0),
        Some(i) => (
            logical[i].x.wrapping_add(region_width(monitors, logical[i], layout_mode) as i32),
            logical[i].y,
        ),
    }
}

pub fn place_right_of_primary(
    monitors: &[Monitor],
    logical: &[LogicalMonitor],
    layout_mode: u32,
) -> (place: (i32, i32))
    ensures
        place == right_of_primary(monitors@, logical@, layout_mode),
{
    match find_main_logical(logical) {
        None => (0, 0),
        Some(i) => {
            let region = &logical[i];
            let size = if region.specs.len() > 0 {
                current_mode_size(monitors, region.specs[0].connector.as_str())
            } else {
                current_mode_size(monitors, "")
            };
            let (mw, mh) = match size {
                Some(size) => size,
                None => (0, 0),
            };
            let (lw, _) = logical_size(mw, mh, region.scale, region.transform, layout_mode);
            (region.x.wrapping_add(lw), region.y)
        },
    }
}

/// A monitor in a layout that is applied.
#[derive(Debug, Clone)]
pub struct AppliedMember {
    pub connector: String,
    pub mode: String,
    pub color_mode: Option<u32>,
    pub rgb_range: Option<u32>,
}

#[verifier::ext_equal]
pub struct MemberModel {
    pub connector: Seq<char>,
    pub mode: Seq<char>,
    pub color_mode: Option<u32>,
    pub rgb_range: Option<u32>,
}

impl DeepView for AppliedMember {
    type V = MemberModel;

    open spec fn deep_view(&self) -> MemberModel {
        MemberModel {
            connector: self.connector@,
            mode: self.mode@,
            color_mode: self.color_mode,
            rgb_range: self.rgb_range,
        }
    }
}

/// A region in a layout that is applied.
#[derive(Debug, Clone)]
pub struct AppliedLogical {
    pub x: i32,
    pub y: i32,
    pub scale: Binary64,
    pub transform: u32,
    pub primary: bool,
    pub members: Vec<AppliedMember>,
}

#[verifier::ext_equal]
pub struct RegionModel {
    pub x: i32,
    pub y: i32,
    pub scale: Binary64,
    pub transform: u32,
    pub primary: bool,
    pub members: Seq<MemberModel>,
}

impl DeepView for AppliedLogical {
    type V = RegionModel;

    open spec fn deep_view(&self) -> RegionModel {
        RegionModel {
            x: self.x,
            y: self.y,
            scale: self.scale,
            transform: self.transform,
            primary: self.primary,
            members: self.members.deep_view(),
        }
    }
}

/// A monitor as it is applied: its mode, and the properties that would otherwise be
/// reset.
pub open spec fn member(monitor: Monitor, connector: Seq<char>, mode: int) -> MemberModel {
    MemberModel {
        connector,
        mode: monitor.modes@[mode].id@,
        color_mode: number(monitor.props@, "color-mode"@),
        rgb_range: number(monitor.props@, "rgb-range"@),
    }
}

fn apply_member(monitor: &Monitor, connector: &String, mode: usize) -> (applied: AppliedMember)
    requires
        mode < monitor.modes@.len(),
    ensures
        applied.deep_view() == member(*monitor, connector@, mode as int),
{
    let props = monitor.props.as_slice();
    AppliedMember {
        connector: connector.clone(),
        mode: monitor.modes[mode].id.clone(),
        color_mode: prop_u32(props, "color-mode"),
        rgb_range: prop_u32(props, "rgb-range"),
    }
}

/// The monitors of a region as they are applied. One that is not known, or has no
/// mode, is left out.
pub open spec fn members(monitors: Seq<Monitor>, specs: Seq<MonitorSpec>, n: nat) -> Seq<MemberModel>
    decreases n,
{
    if n == 0 {
        Seq::empty()
    } else {
        let before = members(monitors, specs, (n - 1) as nat);
        let connector = specs[n - 1].connector@;
        match first(monitors, at_connector(connector)) {
            None => before,
            Some(m) => match mode_to_apply(monitors[m].modes@) {
                None => before,
                Some(i) => before.push(member(monitors[m], connector, i)),
            },
        }
    }
}

fn apply_members(monitors: &[Monitor], specs: &[MonitorSpec]) -> (applied: Vec<AppliedMember>)
    ensures
        applied.deep_view() == members(monitors@, specs@, specs@.len()),
{
    let mut applied: Vec<AppliedMember> = Vec::new();
    let mut i: usize = 0;
    assert(applied.deep_view() =~= Seq::empty());
    while i < specs.len()
        invariant
            i <= specs@.len(),
            applied.deep_view() == members(monitors@, specs@, i as nat),
        decreases specs@.len() - i,
    {
        let ghost before = applied.deep_view();
        if let Some(m) = find_monitor(monitors, specs[i].connector.as_str()) {
            if let Some(mode) = find_mode_to_apply(monitors[m].modes.as_slice()) {
                let next = apply_member(&monitors[m], &specs[i].connector, mode);
                let ghost model = next.deep_view();
                applied.push(next);
                assert(applied.deep_view() =~= before.push(model));
            }
        }
        i += 1;
    }
    applied
}

/// The regions of the desktop as they are applied again. One that would show nothing
/// is left out.
pub open spec fn regions(
    monitors: Seq<Monitor>,
    logical: Seq<LogicalMonitor>,
    n: nat,
) -> Seq<RegionModel>
    decreases n,
{
    if n == 0 {
        Seq::empty()
    } else {
        let before = regions(monitors, logical, (n - 1) as nat);
        let region = logical[n - 1];
        let shown = members(monitors, region.specs@, region.specs@.len());
        if shown.len() == 0 {
            before
        } else {
            before.push(
                RegionModel {
                    x: region.x,
                    y: region.y,
                    scale: region.scale,
                    transform: region.transform,
                    primary: region.primary,
                    members: shown,
                },
            )
        }
    }
}

fn apply_regions(monitors: &[Monitor], logical: &[LogicalMonitor]) -> (applied: Vec<AppliedLogical>)
    ensures
        applied.deep_view() == regions(monitors@, logical@, logical@.len()),
{
    let mut applied: Vec<AppliedLogical> = Vec::new();
    let mut i: usize = 0;
    assert(applied.deep_view() =~= Seq::empty());
    while i < logical.len()
        invariant
            i <= logical@.len(),
            applied.deep_view() == regions(monitors@, logical@, i as nat),
        decreases logical@.len() - i,
    {
        let region = &logical[i];
        let ghost before = applied.deep_view();
        let shown = apply_members(monitors, region.specs.as_slice());
        assert(shown.deep_view().len() == shown@.len());
        if shown.len() > 0 {
            let next = AppliedLogical {
                x: region.x,
                y: region.y,
                scale: region.scale,
                transform: region.transform,
                primary: region.primary,
                members: shown,
            };
            let ghost model = next.deep_view();
            applied.push(next);
            assert(applied.deep_view() =~= before.push(model));
        }
        i += 1;
    }
    applied
}

/// A layout for mutter to apply.
#[derive(Debug, Clone)]
pub struct LayoutPlan {
    pub serial: u32,
    pub logical: Vec<AppliedLogical>,
    /// The layout mode, where mutter takes one.
    pub layout_mode: Option<u32>,
}

#[verifier::ext_equal]
pub struct LayoutModel {
    pub serial: u32,
    pub logical: Seq<RegionModel>,
    pub layout_mode: Option<u32>,
}

impl View for LayoutPlan {
    type V = LayoutModel;

    open spec fn view(&self) -> LayoutModel {
        LayoutModel {
            serial: self.serial,
            logical: self.logical.deep_view(),
            layout_mode: self.layout_mode,
        }
    }
}

/// What there is to do about the virtual monitor.
#[derive(Debug, Clone)]
pub enum EnablePlan {
    /// There is none.
    Absent,
    /// It is in the layout already.
    AlreadyOn,
    /// It has no modes, so that it cannot be turned on.
    NoModes,
    /// It is to be turned on with this layout.
    Apply(LayoutPlan),
}

pub enum EnableModel {
    Absent,
    AlreadyOn,
    NoModes,
    Apply(LayoutModel),
}

impl View for EnablePlan {
    type V = EnableModel;

    open spec fn view(&self) -> EnableModel {
        match self {
            EnablePlan::Absent => EnableModel::Absent,
            EnablePlan::AlreadyOn => EnableModel::AlreadyOn,
            EnablePlan::NoModes => EnableModel::NoModes,
            EnablePlan::Apply(plan) => EnableModel::Apply(plan@),
        }
    }
}

/// The mode that a monitor prefers, or else its first.
pub open spec fn preferred_mode(modes: Seq<Mode>) -> Option<int> {
    match first(modes, flagged("is-preferred"@)) {
        Some(i) => Some(i),
        None => if modes.len() > 0 {
            Some(0)
        } else {
            None
        },
    }
}

/// The layout mode in force.
pub open spec fn layout_mode_of(state: CurrentState) -> u32 {
    match number(state.props@, "layout-mode"@) {
        Some(mode) => mode,
        None => LAYOUT_LOGICAL,
    }
}

/// The region that the virtual monitor gets: right of the primary one, upright, not
/// primary itself.
pub open spec fn virtual_region(
    state: CurrentState,
    monitor: Monitor,
    mode: int,
    wanted: Binary64,
) -> RegionModel {
    let place = right_of_primary(state.monitors@, state.logical@, layout_mode_of(state));
    RegionModel {
        x: place.0,
        y: place.1,
        scale: scale_for(monitor.modes@[mode], wanted),
        transform: 0,
        primary: false,
        members: seq![member(monitor, monitor.spec.connector@, mode)],
    }
}

/// What has to be done for the virtual monitor to be on.
pub open spec fn enabling(state: CurrentState, wanted: Binary64) -> EnableModel {
    match first(state.monitors@, virtual_monitor()) {
        None => EnableModel::Absent,
        Some(m) => {
            let monitor = state.monitors@[m];
            if first(state.logical@, showing(monitor.spec.connector@)) is Some {
                EnableModel::AlreadyOn
            } else {
                match preferred_mode(monitor.modes@) {
                    None => EnableModel::NoModes,
                    Some(i) => EnableModel::Apply(
                        LayoutModel {
                            serial: state.serial,
                            logical: regions(
                                state.monitors@,
                                state.logical@,
                                state.logical@.len(),
                            ).push(virtual_region(state, monitor, i, wanted)),
                            layout_mode: if is_true(
                                state.props@,
                                "supports-changing-layout-mode"@,
                            ) {
                                Some(layout_mode_of(state))
                            } else {
                                None
                            },
                        },
                    ),
                }
            }
        },
    }
}

/// Plans how the virtual monitor is turned on to the right of the primary display.
pub fn enable_virtual_monitor(state: &CurrentState, wanted: Binary64) -> (plan: EnablePlan)
    ensures
        plan@ == enabling(*state, wanted),
{
    let monitors = state.monitors.as_slice();
    let m: usize = match find_virtual(monitors) {
        None => {
            return EnablePlan::Absent;
        },
        Some(m) => m,
    };
    let monitor = &monitors[m];
    if find_logical(state.logical.as_slice(), monitor.spec.connector.as_str()).is_some() {
        return EnablePlan::AlreadyOn;
    }
    let modes = monitor.modes.as_slice();
    let preferred: usize = match find_mode(modes, "is-preferred") {
        Some(i) => i,
        None => {
            if modes.len() == 0 {
                return EnablePlan::NoModes;
            }
            0
        },
    };
    let scale = closest_scale(&modes[preferred], wanted);
    let props = state.props.as_slice();
    let layout_mode: u32 = match prop_u32(props, "layout-mode") {
        Some(mode) => mode,
        None => LAYOUT_LOGICAL,
    };
    let (x, y) = place_right_of_primary(monitors, state.logical.as_slice(), layout_mode);
    let mut applied = apply_regions(monitors, state.logical.as_slice());
    let ghost before = applied.deep_view();
    let mut shown: Vec<AppliedMember> = Vec::new();
    shown.push(apply_member(monitor, &monitor.spec.connector, preferred));
    assert(shown.deep_view() =~= seq![
        member(*monitor, monitor.spec.connector@, preferred as int),
    ]);
    let region = AppliedLogical { x, y, scale, transform: 0, primary: false, members: shown };
    let ghost model = region.deep_view();
    applied.push(region);
    assert(applied.deep_view() =~= before.push(model));
    let plan = LayoutPlan {
        serial: state.serial,
        logical: applied,
        layout_mode: if prop_bool(props, "supports-changing-layout-mode") {
            Some(layout_mode)
        } else {
            None
        },
    };
    EnablePlan::Apply(plan)
}

/// Looking for the virtual monitor after it was asked for.
#[derive(Debug, Clone, Copy, PartialEq, Eq, Structural)]
pub struct VirtualWait {
    pub tries_left: u32,
}

/// What to do after a look.
#[derive(Debug, Clone, Copy, PartialEq, Eq, Structural)]
pub enum WaitStep {
    /// It is there.
    Found,
    /// Wait a moment and look again.
    Again,
    /// It never appeared; the layout is left alone.
    GiveUp,
}

impl VirtualWait {
    /// On stock mutter there is nothing to wait for: applying a layout there races the
    /// screen-cast and ends the user's session.
    pub fn begin(patched: bool) -> (wait: Option<VirtualWait>)
        ensures
            wait == if patched {
                Some(VirtualWait { tries_left: VIRTUAL_WAIT_TRIES })
            } else {
                None
            },
            patched ==> wait == Some(VirtualWait { tries_left: 20 }),
    {
        if patched {
            Some(VirtualWait { tries_left: VIRTUAL_WAIT_TRIES })
        } else {
            None
        }
    }

    pub open spec fn after_look(self) -> VirtualWait {
        VirtualWait { tries_left: (self.tries_left - 1) as u32 }
    }

    pub open spec fn step(self, state: CurrentState) -> WaitStep {
        if first(state.monitors@, virtual_monitor()) is Some {
            WaitStep::Found
        } else if self.tries_left > 1 {
            WaitStep::Again
        } else {
            WaitStep::GiveUp
        }
    }

    /// Decides what follows from a look at the monitor list.
    pub fn look(&mut self, state: &CurrentState) -> (step: WaitStep)
        requires
            old(self).tries_left > 0,
        ensures
            step == old(self).step(*state),
            *final(self) == old(self).after_look(),
    {
        let found = find_virtual(state.monitors.as_slice()).is_some();
        self.tries_left = self.tries_left - 1;
        if found {
            WaitStep::Found
        } else if self.tries_left > 0 {
            WaitStep::Again
        } else {
            WaitStep::GiveUp
        }
    }
}

/// The region is placed and drawn as before.
pub open spec fn unmoved(applied: RegionModel, region: LogicalMonitor) -> bool {
    &&& applied.x == region.x
    &&& applied.y == region.y
    &&& applied.scale == region.scale
    &&& applied.transform == region.transform
    &&& applied.primary == region.primary
}

/// Every region that is applied again is one of the desktop, where and as it was.
proof fn lemma_regions_are_unmoved(
    monitors: Seq<Monitor>,
    logical: Seq<LogicalMonitor>,
    n: nat,
    i: int,
) -> (j: int)
    requires
        n <= logical.len(),
        0 <= i < regions(monitors, logical, n).len(),
    ensures
        0 <= j < n,
        unmoved(regions(monitors, logical, n)[i], logical[j]),
        regions(monitors, logical, n)[i].members == members(
            monitors,
            logical[j].specs@,
            logical[j].specs@.len(),
        ),
    decreases n,
{
    let before = regions(monitors, logical, (n - 1) as nat);
    if i < before.len() {
        lemma_regions_are_unmoved(monitors, logical, (n - 1) as nat, i)
    } else {
        n - 1
    }
}

/// Every region that shows something is applied again.
proof fn lemma_regions_are_kept(
    monitors: Seq<Monitor>,
    logical: Seq<LogicalMonitor>,
    n: nat,
    j: int,
) -> (i: int)
    requires
        n <= logical.len(),
        0 <= j < n,
        members(monitors, logical[j].specs@, logical[j].specs@.len()).len() > 0,
    ensures
        0 <= i < regions(monitors, logical, n).len(),
        unmoved(regions(monitors, logical, n)[i], logical[j]),
    decreases n,
{
    if j < n - 1 {
        lemma_regions_are_kept(monitors, logical, (n - 1) as nat, j)
    } else {
        regions(monitors, logical, (n - 1) as nat).len() as int
    }
}

/// Turning the virtual monitor on moves nothing: every region that shows a monitor
/// stays where and as it was, and the virtual monitor is added behind them.
pub proof fn law_enabling_moves_nothing(state: CurrentState, wanted: Binary64, plan: LayoutModel)
    requires
        enabling(state, wanted) == EnableModel::Apply(plan),
    ensures
        plan.logical.len() > 0,
        forall|i: int|
            0 <= i < plan.logical.len() - 1 ==> exists|j: int|
                0 <= j < state.logical@.len() && unmoved(
                    #[trigger] plan.logical[i],
                    #[trigger] state.logical@[j],
                ),
        forall|j: int|
            0 <= j < state.logical@.len() && members(
                state.monitors@,
                state.logical@[j].specs@,
                state.logical@[j].specs@.len(),
            ).len() > 0 ==> exists|i: int|
                0 <= i < plan.logical.len() - 1 && unmoved(
                    #[trigger] plan.logical[i],
                    #[trigger] state.logical@[j],
                ),
        !plan.logical.last().primary,
{
    let monitors = state.monitors@;
    let logical = state.logical@;
    let kept = regions(monitors, logical, logical.len());
    assert forall|i: int| 0 <= i < plan.logical.len() - 1 implies exists|j: int|
        0 <= j < logical.len() && unmoved(#[trigger] plan.logical[i], #[trigger] logical[j]) by {
        let j = lemma_regions_are_unmoved(monitors, logical, logical.len(), i);
        assert(plan.logical[i] == kept[i]);
        assert(unmoved(plan.logical[i], logical[j]));
    }
    assert forall|j: int|
        0 <= j < logical.len() && members(
            monitors,
            logical[j].specs@,
            logical[j].specs@.len(),
        ).len() > 0 implies exists|i: int|
        0 <= i < plan.logical.len() - 1 && unmoved(
            #[trigger] plan.logical[i],
            #[trigger] logical[j],
        ) by {
        let i = lemma_regions_are_kept(monitors, logical, logical.len(), j);
        assert(plan.logical[i] == kept[i]);
        assert(unmoved(plan.logical[i], logical[j]));
    }
}

/// A monitor that is applied stands among those the region names.
proof fn lemma_members_are_named(
    monitors: Seq<Monitor>,
    specs: Seq<MonitorSpec>,
    n: nat,
    i: int,
) -> (k: int)
    requires
        n <= specs.len(),
        0 <= i < members(monitors, specs, n).len(),
    ensures
        0 <= k < n,
        members(monitors, specs, n)[i].connector == specs[k].connector@,
    decreases n,
{
    let before = members(monitors, specs, (n - 1) as nat);
    if i < before.len() {
        lemma_members_are_named(monitors, specs, (n - 1) as nat, i)
    } else {
        n - 1
    }
}

/// The virtual monitor is shown by the region that is added, and by no other.
pub proof fn law_the_virtual_monitor_is_shown_once(
    state: CurrentState,
    wanted: Binary64,
    plan: LayoutModel,
    i: int,
    k: int,
)
    requires
        enabling(state, wanted) == EnableModel::Apply(plan),
        0 <= i < plan.logical.len(),
        0 <= k < plan.logical[i].members.len(),
    ensures
        ({
            let m = first(state.monitors@, virtual_monitor())->0;
            plan.logical[i].members[k].connector == state.monitors@[m].spec.connector@ <==> i
                == plan.logical.len() - 1
        }),
{
    let monitors = state.monitors@;
    let logical = state.logical@;
    let m = first(monitors, virtual_monitor())->0;
    let connector = monitors[m].spec.connector@;
    if i < plan.logical.len() - 1 {
        let j = lemma_regions_are_unmoved(monitors, logical, logical.len(), i);
        let specs = logical[j].specs@;
        assert(plan.logical[i] == regions(monitors, logical, logical.len())[i]);
        let n = lemma_members_are_named(monitors, specs, specs.len(), k);
        lemma_first(logical, showing(connector), logical.len());
        assert(!showing(connector)(logical[j]));
        lemma_first(specs, specified(connector), specs.len());
        assert(!specified(connector)(specs[n]));
    }
}

/// The scale of the virtual monitor is one that its mode supports, where it names any,
/// and no other one is nearer to the wanted scale.
pub proof fn law_the_scale_is_supported(mode: Mode, wanted: Binary64, i: int)
    requires
        0 <= i < mode.supported_scales@.len(),
        forall|j: int|
            0 <= j < mode.supported_scales@.len() ==> crate::binary64::distance(
                #[trigger] mode.supported_scales@[j],
                wanted,
            ) is Some,
    ensures
        mode.supported_scales@.contains(scale_for(mode, wanted)),
        crate::binary64::distance(scale_for(mode, wanted), wanted)->0 <= crate::binary64::distance(
            mode.supported_scales@[i],
            wanted,
        )->0,
{
    let scales = mode.supported_scales@;
    law_no_option_is_nearer(scales, wanted, scales.len());
}

/// Looking for the virtual monitor ends: each look that asks for another one leaves
/// fewer.
pub proof fn law_waiting_ends(wait: VirtualWait, state: CurrentState)
    requires
        wait.step(state) == WaitStep::Again,
    ensures
        0 < wait.after_look().tries_left < wait.tries_left,
{
}

/// The first property of this name has this value.
pub open spec fn says(props: Seq<Prop>, name: Seq<char>, value: PropValue) -> bool {
    exists|k: int|
        0 <= k < props.len() && (#[trigger] props[k]).name@ == name && props[k].value == value
            && forall|j: int| 0 <= j < k ==> (#[trigger] props[j]).name@ != name
}

/// A property is looked up by its name, and the first one of that name counts.
pub proof fn law_properties_are_looked_up_by_name(
    props: Seq<Prop>,
    name: Seq<char>,
    value: PropValue,
)
    ensures
        prop(props, name) == Some(value) <==> says(props, name, value),
        is_true(props, name) <==> says(props, name, PropValue::Bool(true)),
        value matches PropValue::U32(n) ==> (number(props, name) == Some(n) <==> says(
            props,
            name,
            value,
        )),
{
    lemma_prop(props, name, value);
    lemma_prop(props, name, PropValue::Bool(true));
}

proof fn lemma_prop(props: Seq<Prop>, name: Seq<char>, value: PropValue)
    ensures
        prop(props, name) == Some(value) <==> says(props, name, value),
{
    lemma_first(props, named(name), props.len());
    if prop(props, name) == Some(value) {
        let i = first(props, named(name))->0;
        assert(named(name)(props[i]));
        assert forall|j: int| 0 <= j < i implies (#[trigger] props[j]).name@ != name by {
            assert(!named(name)(props[j]));
        }
        assert(says(props, name, value));
    }
    if says(props, name, value) {
        let k = choose|k: int|
            0 <= k < props.len() && (#[trigger] props[k]).name@ == name && props[k].value == value
                && forall|j: int| 0 <= j < k ==> (#[trigger] props[j]).name@ != name;
        assert(named(name)(props[k]));
        let i = first(props, named(name))->0;
        assert(named(name)(props[i]));
        assert(i == k);
    }
}

/// The mode carries this flag.
pub open spec fn carries(mode: Mode, flag: Seq<char>) -> bool {
    says(mode.props@, flag, PropValue::Bool(true))
}

/// Some mode carries this flag.
pub open spec fn any_carries(modes: Seq<Mode>, flag: Seq<char>) -> bool {
    exists|i: int| 0 <= i < modes.len() && carries(#[trigger] modes[i], flag)
}

/// The mode is the first that carries this flag.
pub open spec fn first_to_carry(modes: Seq<Mode>, flag: Seq<char>, i: int) -> bool {
    &&& 0 <= i < modes.len()
    &&& carries(modes[i], flag)
    &&& forall|j: int| 0 <= j < i ==> !carries(#[trigger] modes[j], flag)
}

proof fn lemma_first_flagged(modes: Seq<Mode>, flag: Seq<char>)
    ensures
        match first(modes, flagged(flag)) {
            Some(i) => first_to_carry(modes, flag, i) && any_carries(modes, flag),
            None => !any_carries(modes, flag),
        },
{
    lemma_first(modes, flagged(flag), modes.len());
    assert forall|i: int| 0 <= i < modes.len() implies flagged(flag)(#[trigger] modes[i])
        == carries(modes[i], flag) by {
        lemma_prop(modes[i].props@, flag, PropValue::Bool(true));
    }
    if let Some(i) = first(modes, flagged(flag)) {
        assert(flagged(flag)(modes[i]));
        assert forall|j: int| 0 <= j < i implies !carries(#[trigger] modes[j], flag) by {
            assert(!flagged(flag)(modes[j]));
        }
        assert(carries(modes[i], flag));
    } else {
        assert forall|i: int| 0 <= i < modes.len() implies !carries(#[trigger] modes[i], flag) by {
            assert(!flagged(flag)(modes[i]));
        }
    }
}

/// The mode that a monitor is in: the current one, and only where none is current the
/// preferred one.
pub open spec fn is_in_mode(modes: Seq<Mode>, i: int) -> bool {
    if any_carries(modes, "is-current"@) {
        first_to_carry(modes, "is-current"@, i)
    } else {
        first_to_carry(modes, "is-preferred"@, i)
    }
}

/// A monitor is taken to be in its current mode; the preferred one is looked at only where
/// no mode is current, and the first only where none is preferred either.
pub proof fn law_the_current_mode_counts(modes: Seq<Mode>)
    ensures
        match active_mode(modes) {
            Some(i) => is_in_mode(modes, i),
            None => !any_carries(modes, "is-current"@) && !any_carries(modes, "is-preferred"@),
        },
        match mode_to_apply(modes) {
            Some(i) => is_in_mode(modes, i) || (!any_carries(modes, "is-current"@) && !any_carries(
                modes,
                "is-preferred"@,
            ) && i == 0 && modes.len() > 0),
            None => modes.len() == 0,
        },
        match preferred_mode(modes) {
            Some(i) => first_to_carry(modes, "is-preferred"@, i) || (!any_carries(
                modes,
                "is-preferred"@,
            ) && i == 0 && modes.len() > 0),
            None => modes.len() == 0,
        },
{
    lemma_first_flagged(modes, "is-current"@);
    lemma_first_flagged(modes, "is-preferred"@);
}

/// The monitor is the first that hangs on this connector.
pub open spec fn hangs_on(monitors: Seq<Monitor>, connector: Seq<char>, m: int) -> bool {
    &&& 0 <= m < monitors.len()
    &&& monitors[m].spec.connector@ == connector
    &&& forall|j: int| 0 <= j < m ==> (#[trigger] monitors[j]).spec.connector@ != connector
}

proof fn lemma_first_at(monitors: Seq<Monitor>, connector: Seq<char>)
    ensures
        match first(monitors, at_connector(connector)) {
            Some(m) => hangs_on(monitors, connector, m),
            None => forall|m: int|
                0 <= m < monitors.len() ==> (#[trigger] monitors[m]).spec.connector@ != connector,
        },
{
    lemma_first(monitors, at_connector(connector), monitors.len());
    if let Some(m) = first(monitors, at_connector(connector)) {
        assert(at_connector(connector)(monitors[m]));
        assert forall|j: int| 0 <= j < m implies (#[trigger] monitors[j]).spec.connector@
            != connector by {
            assert(!at_connector(connector)(monitors[j]));
        }
    } else {
        assert forall|m: int| 0 <= m < monitors.len() implies (
        #[trigger] monitors[m]).spec.connector@ != connector by {
            assert(!at_connector(connector)(monitors[m]));
        }
    }
}

/// The colour properties of a monitor are handed back as it has them.
pub open spec fn keeps_its_colours(applied: MemberModel, monitor: Monitor) -> bool {
    &&& forall|n: u32|
        applied.color_mode == Some(n) <==> #[trigger] says(
            monitor.props@,
            "color-mode"@,
            PropValue::U32(n),
        )
    &&& forall|n: u32|
        applied.rgb_range == Some(n) <==> #[trigger] says(
            monitor.props@,
            "rgb-range"@,
            PropValue::U32(n),
        )
}

/// The monitor is applied again in the mode that it is in, with its colour properties. One
/// that names no mode of its own is given its first.
pub open spec fn stays_as_it_is(applied: MemberModel, monitor: Monitor) -> bool {
    &&& keeps_its_colours(applied, monitor)
    &&& exists|i: int|
        #![trigger monitor.modes@[i]]
        0 <= i < monitor.modes@.len() && applied.mode == monitor.modes@[i].id@ && (is_in_mode(
            monitor.modes@,
            i,
        ) || (i == 0 && !any_carries(monitor.modes@, "is-current"@) && !any_carries(
            monitor.modes@,
            "is-preferred"@,
        )))
}

proof fn lemma_member_keeps_its_colours(monitor: Monitor, connector: Seq<char>, mode: int)
    ensures
        keeps_its_colours(member(monitor, connector, mode), monitor),
{
    let applied = member(monitor, connector, mode);
    assert forall|n: u32|
        applied.color_mode == Some(n) <==> #[trigger] says(
            monitor.props@,
            "color-mode"@,
            PropValue::U32(n),
        ) by {
        lemma_prop(monitor.props@, "color-mode"@, PropValue::U32(n));
    }
    assert forall|n: u32|
        applied.rgb_range == Some(n) <==> #[trigger] says(
            monitor.props@,
            "rgb-range"@,
            PropValue::U32(n),
        ) by {
        lemma_prop(monitor.props@, "rgb-range"@, PropValue::U32(n));
    }
}

proof fn lemma_members_stay(monitors: Seq<Monitor>, specs: Seq<MonitorSpec>, n: nat, i: int) -> (m:
    int)
    requires
        n <= specs.len(),
        0 <= i < members(monitors, specs, n).len(),
    ensures
        hangs_on(monitors, members(monitors, specs, n)[i].connector, m),
        stays_as_it_is(members(monitors, specs, n)[i], monitors[m]),
    decreases n,
{
    let before = members(monitors, specs, (n - 1) as nat);
    if i < before.len() {
        lemma_members_stay(monitors, specs, (n - 1) as nat, i)
    } else {
        let connector = specs[n - 1].connector@;
        lemma_first_at(monitors, connector);
        let m = first(monitors, at_connector(connector))->0;
        law_the_current_mode_counts(monitors[m].modes@);
        let mode = mode_to_apply(monitors[m].modes@)->0;
        lemma_member_keeps_its_colours(monitors[m], connector, mode);
        assert(monitors[m].modes@[mode].id@ == members(monitors, specs, n)[i].mode);
        m
    }
}

/// Turning the virtual monitor on changes no other monitor: each one that is applied again
/// is given the mode it is in and the colour properties it has.
pub proof fn law_enabling_changes_no_monitor(
    state: CurrentState,
    wanted: Binary64,
    plan: LayoutModel,
    i: int,
    k: int,
)
    requires
        enabling(state, wanted) == EnableModel::Apply(plan),
        0 <= i < plan.logical.len() - 1,
        0 <= k < plan.logical[i].members.len(),
    ensures
        exists|m: int|
            #![trigger state.monitors@[m]]
            hangs_on(state.monitors@, plan.logical[i].members[k].connector, m) && stays_as_it_is(
                plan.logical[i].members[k],
                state.monitors@[m],
            ),
{
    let monitors = state.monitors@;
    let logical = state.logical@;
    let j = lemma_regions_are_unmoved(monitors, logical, logical.len(), i);
    assert(plan.logical[i] == regions(monitors, logical, logical.len())[i]);
    let specs = logical[j].specs@;
    let m = lemma_members_stay(monitors, specs, specs.len(), k);
    assert(stays_as_it_is(plan.logical[i].members[k], monitors[m]));
}

proof fn lemma_named_are_members(
    monitors: Seq<Monitor>,
    specs: Seq<MonitorSpec>,
    n: nat,
    s: int,
    m: int,
) -> (k: int)
    requires
        n <= specs.len(),
        0 <= s < n,
        hangs_on(monitors, specs[s].connector@, m),
        monitors[m].modes@.len() > 0,
    ensures
        0 <= k < members(monitors, specs, n).len(),
        members(monitors, specs, n)[k].connector == specs[s].connector@,
    decreases n,
{
    let before = members(monitors, specs, (n - 1) as nat);
    if s < n - 1 {
        lemma_named_are_members(monitors, specs, (n - 1) as nat, s, m)
    } else {
        lemma_first_at(monitors, specs[s].connector@);
        let found = first(monitors, at_connector(specs[s].connector@))->0;
        assert(found == m) by {
            if found < m {
                assert(monitors[found].spec.connector@ != specs[s].connector@);
            } else if m < found {
                assert(monitors[m].spec.connector@ != specs[s].connector@);
            }
        }
        law_the_current_mode_counts(monitors[m].modes@);
        before.len() as int
    }
}

/// Turning the virtual monitor on turns no other one off: every monitor that is known, has
/// a mode and stands in the layout stands in the new one too, in a region that is placed
/// and drawn as before.
pub proof fn law_enabling_turns_nothing_off(
    state: CurrentState,
    wanted: Binary64,
    plan: LayoutModel,
    j: int,
    s: int,
    m: int,
)
    requires
        enabling(state, wanted) == EnableModel::Apply(plan),
        0 <= j < state.logical@.len(),
        0 <= s < state.logical@[j].specs@.len(),
        hangs_on(state.monitors@, state.logical@[j].specs@[s].connector@, m),
        state.monitors@[m].modes@.len() > 0,
    ensures
        exists|i: int, k: int|
            #![trigger plan.logical[i].members[k]]
            0 <= i < plan.logical.len() - 1 && 0 <= k < plan.logical[i].members.len()
                && plan.logical[i].members[k].connector
                == state.logical@[j].specs@[s].connector@ && unmoved(
                plan.logical[i],
                state.logical@[j],
            ),
{
    let monitors = state.monitors@;
    let logical = state.logical@;
    let specs = logical[j].specs@;
    let k = lemma_named_are_members(monitors, specs, specs.len(), s, m);
    let i = lemma_region_with_members(monitors, logical, logical.len(), j);
    assert(plan.logical[i] == regions(monitors, logical, logical.len())[i]);
    assert(plan.logical[i].members[k].connector == specs[s].connector@);
}

proof fn lemma_region_with_members(
    monitors: Seq<Monitor>,
    logical: Seq<LogicalMonitor>,
    n: nat,
    j: int,
) -> (i: int)
    requires
        n <= logical.len(),
        0 <= j < n,
        members(monitors, logical[j].specs@, logical[j].specs@.len()).len() > 0,
    ensures
        0 <= i < regions(monitors, logical, n).len(),
        unmoved(regions(monitors, logical, n)[i], logical[j]),
        regions(monitors, logical, n)[i].members == members(
            monitors,
            logical[j].specs@,
            logical[j].specs@.len(),
        ),
    decreases n,
{
    if j < n - 1 {
        lemma_region_with_members(monitors, logical, (n - 1) as nat, j)
    } else {
        regions(monitors, logical, (n - 1) as nat).len() as int
    }
}

/// The region is the first that is primary, or, where none is, the first of all.
pub open spec fn leads(logical: Seq<LogicalMonitor>, p: int) -> bool {
    &&& 0 <= p < logical.len()
    &&& forall|j: int| 0 <= j < p ==> !(#[trigger] logical[j]).primary
    &&& logical[p].primary || (p == 0 && forall|j: int|
        0 <= j < logical.len() ==> !(#[trigger] logical[j]).primary)
}

proof fn lemma_main_logical(logical: Seq<LogicalMonitor>)
    ensures
        match main_logical(logical) {
            Some(p) => leads(logical, p),
            None => logical.len() == 0,
        },
{
    lemma_first(logical, is_primary(), logical.len());
    if let Some(p) = first(logical, is_primary()) {
        assert(is_primary()(logical[p]));
        assert forall|j: int| 0 <= j < p implies !(#[trigger] logical[j]).primary by {
            assert(!is_primary()(logical[j]));
        }
    } else {
        assert forall|j: int| 0 <= j < logical.len() implies !(#[trigger] logical[j]).primary by {
            assert(!is_primary()(logical[j]));
        }
    }
}

/// How wide a mode stands: a quarter turn swaps its sides.
pub open spec fn standing_width(mode: Mode, transform: u32) -> int {
    if transform < 8 && transform % 2 == 1 {
        mode.height as int
    } else {
        mode.width as int
    }
}

/// The layout counts in scaled pixels: mutter says so, or says nothing.
pub open spec fn counts_scaled(state: CurrentState) -> bool {
    says(state.props@, "layout-mode"@, PropValue::U32(1)) || forall|n: u32|
        !(#[trigger] says(state.props@, "layout-mode"@, PropValue::U32(n)))
}

/// `d` is the width of the mode in the layout: its own, or where the layout counts in
/// scaled pixels that over the scale, to the nearest whole number.
pub open spec fn is_layout_width(
    d: int,
    state: CurrentState,
    region: LogicalMonitor,
    mode: Mode,
) -> bool {
    let width = standing_width(mode, region.transform);
    if counts_scaled(state) {
        d >= 0 && is_nearest_to(d as nat, width as nat, region.scale)
    } else {
        d == width
    }
}

proof fn lemma_layout_mode(state: CurrentState)
    ensures
        layout_mode_of(state) == LAYOUT_LOGICAL <==> counts_scaled(state),
{
    assert forall|n: u32|
        number(state.props@, "layout-mode"@) == Some(n) <==> #[trigger] says(
            state.props@,
            "layout-mode"@,
            PropValue::U32(n),
        ) by {
        lemma_prop(state.props@, "layout-mode"@, PropValue::U32(n));
    }
    if let Some(n) = number(state.props@, "layout-mode"@) {
        assert(says(state.props@, "layout-mode"@, PropValue::U32(n)));
    }
}

/// The virtual monitor is put right next to the primary region and level with it: at its
/// left edge plus the width of the mode that its first monitor is in.
pub proof fn law_the_virtual_monitor_stands_right_of_the_primary(
    state: CurrentState,
    wanted: Binary64,
    plan: LayoutModel,
    p: int,
    m: int,
    n: int,
)
    requires
        enabling(state, wanted) == EnableModel::Apply(plan),
        leads(state.logical@, p),
        state.logical@[p].specs@.len() > 0,
        hangs_on(state.monitors@, state.logical@[p].specs@[0].connector@, m),
        is_in_mode(state.monitors@[m].modes@, n),
        ({
            let region = state.logical@[p];
            let width = standing_width(state.monitors@[m].modes@[n], region.transform);
            &&& width >= 0
            &&& counts_scaled(state) ==> {
                &&& region.scale.is_finite() && !region.scale.is_negative()
                &&& region.scale.units() > 0
                &&& width * pow2(1074) <= i32::MAX * region.scale.units()
            }
        }),
    ensures
        plan.logical.last().y == state.logical@[p].y,
        exists|d: int|
            #[trigger] is_layout_width(
                d,
                state,
                state.logical@[p],
                state.monitors@[m].modes@[n],
            ) && (state.logical@[p].x + d <= i32::MAX ==> plan.logical.last().x
                == state.logical@[p].x + d),
{
    let monitors = state.monitors@;
    let logical = state.logical@;
    let region = logical[p];
    let mode = monitors[m].modes@[n];
    let width = standing_width(mode, region.transform);
    lemma_main_logical(logical);
    let found = main_logical(logical)->0;
    assert(found == p) by {
        if found < p {
            assert(!logical[found].primary);
        } else if p < found {
            assert(!logical[p].primary);
        }
    }
    let connector = region.specs@[0].connector@;
    lemma_first_at(monitors, connector);
    let at = first(monitors, at_connector(connector))->0;
    assert(at == m) by {
        if at < m {
            assert(monitors[at].spec.connector@ != connector);
        } else if m < at {
            assert(monitors[m].spec.connector@ != connector);
        }
    }
    law_the_current_mode_counts(monitors[m].modes@);
    let flag = if any_carries(monitors[m].modes@, "is-current"@) {
        "is-current"@
    } else {
        "is-preferred"@
    };
    assert(first_to_carry(monitors[m].modes@, flag, n));
    assert(any_carries(monitors[m].modes@, flag)) by {
        assert(carries(monitors[m].modes@[n], flag));
    }
    let i = active_mode(monitors[m].modes@)->0;
    assert(i == n) by {
        if i < n {
            assert(!carries(monitors[m].modes@[i], flag));
        } else if n < i {
            assert(!carries(monitors[m].modes@[n], flag));
        }
    }
    lemma_layout_mode(state);
    let layout_mode = layout_mode_of(state);
    let d = region_width(monitors, region, layout_mode);
    assert(swaps_axes(region.transform) <==> region.transform < 8 && region.transform % 2 == 1);
    assert(d == logical_extent(width as i32, region.scale, layout_mode));
    if counts_scaled(state) {
        law_quotients_are_the_nearest_integers(
            width,
            region.scale,
            i32::MIN as int,
            i32::MAX as int,
        );
    }
    assert(is_layout_width(d, state, region, mode));
}

/// The monitor is the first that has no hardware behind it.
pub open spec fn is_the_virtual_one(monitors: Seq<Monitor>, m: int) -> bool {
    &&& 0 <= m < monitors.len()
    &&& monitors[m].spec.vendor@ == "MetaVendor"@
    &&& forall|j: int| 0 <= j < m ==> (#[trigger] monitors[j]).spec.vendor@ != "MetaVendor"@
}

proof fn lemma_first_virtual(monitors: Seq<Monitor>)
    ensures
        match first(monitors, virtual_monitor()) {
            Some(m) => is_the_virtual_one(monitors, m),
            None => forall|m: int|
                0 <= m < monitors.len() ==> (#[trigger] monitors[m]).spec.vendor@ != "MetaVendor"@,
        },
{
    lemma_first(monitors, virtual_monitor(), monitors.len());
    if let Some(m) = first(monitors, virtual_monitor()) {
        assert(virtual_monitor()(monitors[m]));
        assert forall|j: int| 0 <= j < m implies (#[trigger] monitors[j]).spec.vendor@
            != "MetaVendor"@ by {
            assert(!virtual_monitor()(monitors[j]));
        }
    } else {
        assert forall|m: int| 0 <= m < monitors.len() implies (#[trigger] monitors[m]).spec.vendor@
            != "MetaVendor"@ by {
            assert(!virtual_monitor()(monitors[m]));
        }
    }
}

/// The connector stands in the layout.
pub open spec fn in_layout(logical: Seq<LogicalMonitor>, connector: Seq<char>) -> bool {
    exists|j: int, s: int|
        #![trigger logical[j].specs@[s]]
        0 <= j < logical.len() && 0 <= s < logical[j].specs@.len()
            && logical[j].specs@[s].connector@ == connector
}

proof fn lemma_first_showing(logical: Seq<LogicalMonitor>, connector: Seq<char>)
    ensures
        first(logical, showing(connector)) is Some <==> in_layout(logical, connector),
        first(logical, showing(connector)) matches Some(j) ==> 0 <= j < logical.len() && exists|
            s: int,
        |
            0 <= s < logical[j].specs@.len() && (#[trigger] logical[j].specs@[s]).connector@
                == connector,
{
    lemma_first(logical, showing(connector), logical.len());
    if let Some(j) = first(logical, showing(connector)) {
        let specs = logical[j].specs@;
        assert(showing(connector)(logical[j]));
        lemma_first(specs, specified(connector), specs.len());
        let s = first(specs, specified(connector))->0;
        assert(specified(connector)(specs[s]));
        assert(logical[j].specs@[s].connector@ == connector);
    }
    if in_layout(logical, connector) {
        let (j, s) = choose|j: int, s: int|
            #![trigger logical[j].specs@[s]]
            0 <= j < logical.len() && 0 <= s < logical[j].specs@.len()
                && logical[j].specs@[s].connector@ == connector;
        let specs = logical[j].specs@;
        lemma_first(specs, specified(connector), specs.len());
        assert(specified(connector)(specs[s]));
        assert(showing(connector)(logical[j]));
    }
}

/// There is something to turn on exactly where there is a virtual monitor that has a mode
/// and does not stand in the layout yet. The layout is made for the state it was made
/// from, and names its layout mode exactly where mutter takes one.
pub proof fn law_when_there_is_something_to_enable(state: CurrentState, wanted: Binary64)
    ensures
        match enabling(state, wanted) {
            EnableModel::Absent => forall|m: int|
                0 <= m < state.monitors@.len() ==> (#[trigger] state.monitors@[m]).spec.vendor@
                    != "MetaVendor"@,
            EnableModel::AlreadyOn => exists|m: int|
                #[trigger] is_the_virtual_one(state.monitors@, m) && in_layout(
                    state.logical@,
                    state.monitors@[m].spec.connector@,
                ),
            EnableModel::NoModes => exists|m: int|
                #[trigger] is_the_virtual_one(state.monitors@, m) && !in_layout(
                    state.logical@,
                    state.monitors@[m].spec.connector@,
                ) && state.monitors@[m].modes@.len() == 0,
            EnableModel::Apply(plan) => {
                &&& exists|m: int|
                    #[trigger] is_the_virtual_one(state.monitors@, m) && !in_layout(
                        state.logical@,
                        state.monitors@[m].spec.connector@,
                    ) && state.monitors@[m].modes@.len() > 0
                &&& plan.serial == state.serial
                &&& plan.layout_mode is Some <==> says(
                    state.props@,
                    "supports-changing-layout-mode"@,
                    PropValue::Bool(true),
                )
                &&& plan.layout_mode matches Some(mode) ==> (mode == 1 <==> counts_scaled(state))
                    && (mode == 1 || says(state.props@, "layout-mode"@, PropValue::U32(mode)))
            },
        },
{
    lemma_first_virtual(state.monitors@);
    lemma_prop(state.props@, "supports-changing-layout-mode"@, PropValue::Bool(true));
    lemma_layout_mode(state);
    if let Some(m) = first(state.monitors@, virtual_monitor()) {
        lemma_first_showing(state.logical@, state.monitors@[m].spec.connector@);
        law_the_current_mode_counts(state.monitors@[m].modes@);
        assert(is_the_virtual_one(state.monitors@, m));
        if let Some(n) = number(state.props@, "layout-mode"@) {
            lemma_prop(state.props@, "layout-mode"@, PropValue::U32(n));
        }
    }
}

/// The virtual monitor is turned on alone in its region, upright and not as the primary
/// one, in the mode it prefers, at a scale which that mode supports; and of those no other
/// one is nearer to the wanted scale.
pub proof fn law_the_virtual_monitor_gets_what_it_prefers(
    state: CurrentState,
    wanted: Binary64,
    plan: LayoutModel,
    m: int,
)
    requires
        enabling(state, wanted) == EnableModel::Apply(plan),
        is_the_virtual_one(state.monitors@, m),
    ensures
        ({
            let region = plan.logical.last();
            let monitor = state.monitors@[m];
            &&& region.transform == 0 && !region.primary
            &&& region.members.len() == 1
            &&& region.members[0].connector == monitor.spec.connector@
            &&& keeps_its_colours(region.members[0], monitor)
            &&& exists|i: int|
                #![trigger monitor.modes@[i]]
                0 <= i < monitor.modes@.len() && region.members[0].mode == monitor.modes@[i].id@
                    && (first_to_carry(monitor.modes@, "is-preferred"@, i) || (i == 0
                    && !any_carries(monitor.modes@, "is-preferred"@))) && is_scale_for(
                    region.scale,
                    monitor.modes@[i],
                    wanted,
                )
        }),
{
    let monitors = state.monitors@;
    lemma_first_virtual(monitors);
    let found = first(monitors, virtual_monitor())->0;
    assert(found == m) by {
        if found < m {
            assert(monitors[found].spec.vendor@ != "MetaVendor"@);
        } else if m < found {
            assert(monitors[m].spec.vendor@ != "MetaVendor"@);
        }
    }
    let monitor = monitors[m];
    law_the_current_mode_counts(monitor.modes@);
    let i = preferred_mode(monitor.modes@)->0;
    lemma_member_keeps_its_colours(monitor, monitor.spec.connector@, i);
    law_the_nearest_scale_is_taken(monitor.modes@[i], wanted);
    assert(plan.logical.last().members[0].mode == monitor.modes@[i].id@);
}

/// The scale is one that the mode supports, and none of them is nearer to the wanted one;
/// a mode that names none has the scale it prefers.
pub open spec fn is_scale_for(scale: Binary64, mode: Mode, wanted: Binary64) -> bool {
    let scales = mode.supported_scales@;
    &&& scales.len() == 0 ==> scale == mode.preferred_scale
    &&& scales.len() > 0 ==> scales.contains(scale)
    &&& (forall|j: int| 0 <= j < scales.len() ==> distance(#[trigger] scales[j], wanted) is Some)
        ==> forall|j: int|
        0 <= j < scales.len() ==> distance(scale, wanted)->0 <= distance(
            #[trigger] scales[j],
            wanted,
        )->0
}

/// The scale nearest to the wanted one is taken.
pub proof fn law_the_nearest_scale_is_taken(mode: Mode, wanted: Binary64)
    ensures
        is_scale_for(scale_for(mode, wanted), mode, wanted),
{
    let scales = mode.supported_scales@;
    if scales.len() > 0 {
        law_one_of_the_options_is_chosen(scales, wanted, scales.len());
        let i = nearest_of(scales, wanted, scales.len());
        assert(scales[i] == scale_for(mode, wanted));
        if forall|j: int| 0 <= j < scales.len() ==> distance(#[trigger] scales[j], wanted) is Some {
            law_no_option_is_nearer(scales, wanted, scales.len());
        }
    }
}

/// What is read back of the virtual monitor is the mode that is current and the scale of
/// the region it stands in; nothing is read back where it is in no mode.
pub proof fn law_the_virtual_monitor_is_read_back(state: CurrentState, m: int)
    requires
        is_the_virtual_one(state.monitors@, m),
    ensures
        ({
            let monitor = state.monitors@[m];
            let connector = monitor.spec.connector@;
            match virtual_state(state) {
                None => !any_carries(monitor.modes@, "is-current"@),
                Some(found) => {
                    &&& exists|i: int|
                        #[trigger] first_to_carry(monitor.modes@, "is-current"@, i) && (
                        monitor.modes@[i].width >= 0 ==> found.width == monitor.modes@[i].width)
                            && (monitor.modes@[i].height >= 0 ==> found.height
                            == monitor.modes@[i].height)
                    &&& !in_layout(state.logical@, connector) ==> found.scale.bits
                        == 0x3ff0_0000_0000_0000
                    &&& in_layout(state.logical@, connector) ==> exists|j: int, s: int|
                        #![trigger state.logical@[j].specs@[s]]
                        0 <= j < state.logical@.len() && 0 <= s < state.logical@[j].specs@.len()
                            && state.logical@[j].specs@[s].connector@ == connector && found.scale
                            == state.logical@[j].scale
                },
            }
        }),
{
    let monitors = state.monitors@;
    lemma_first_virtual(monitors);
    let found = first(monitors, virtual_monitor())->0;
    assert(found == m) by {
        if found < m {
            assert(monitors[found].spec.vendor@ != "MetaVendor"@);
        } else if m < found {
            assert(monitors[m].spec.vendor@ != "MetaVendor"@);
        }
    }
    lemma_first_flagged(monitors[m].modes@, "is-current"@);
    lemma_first_showing(state.logical@, monitors[m].spec.connector@);
    if let Some(j) = first(state.logical@, showing(monitors[m].spec.connector@)) {
        let s = choose|s: int|
            0 <= s < state.logical@[j].specs@.len() && (
            #[trigger] state.logical@[j].specs@[s]).connector@ == monitors[m].spec.connector@;
        assert(state.logical@[j].specs@[s].connector@ == monitors[m].spec.connector@);
    }
}

/// A dimension in a layout that counts in scaled pixels is the nearest whole number to
/// that dimension over the scale; in any other layout it is that dimension.
pub proof fn law_layouts_count_in_scaled_pixels(n: i32, scale: Binary64, layout_mode: u32)
    requires
        n >= 0,
        scale.is_finite() && !scale.is_negative() && scale.units() > 0,
        n * pow2(1074) <= i32::MAX * scale.units(),
    ensures
        layout_mode == 1 ==> logical_extent(n, scale, layout_mode) >= 0 && is_nearest_to(
            logical_extent(n, scale, layout_mode) as nat,
            n as nat,
            scale,
        ),
        layout_mode != 1 ==> logical_extent(n, scale, layout_mode) == n,
{
    law_quotients_are_the_nearest_integers(n as int, scale, i32::MIN as int, i32::MAX as int);
}

/// Exactly the quarter turns swap the sides: the odd ones of the eight transforms.
pub proof fn law_quarter_turns_swap_the_sides(transform: u32)
    ensures
        swaps_axes(transform) <==> transform < 8 && transform % 2 == 1,
{
}

/// The monitor is found as soon as it is there; as long as it is not, there is another look
/// while any is left.
pub proof fn law_a_look_finds_what_is_there(wait: VirtualWait, state: CurrentState)
    requires
        wait.tries_left > 0,
    ensures
        wait.step(state) == WaitStep::Found <==> exists|m: int|
            is_the_virtual_one(state.monitors@, m),
        wait.step(state) == WaitStep::Again <==> wait.step(state) != WaitStep::Found
            && wait.tries_left >= 2,
        wait.step(state) == WaitStep::GiveUp <==> wait.step(state) != WaitStep::Found
            && wait.tries_left == 1,
        wait.after_look().tries_left == wait.tries_left - 1,
{
    lemma_first_virtual(state.monitors@);
}

} // verus!

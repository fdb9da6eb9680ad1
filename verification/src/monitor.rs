//! Monitors: the connectors of the card that have a display plugged in.
use crate::dpi::{PhysicalPosition, PhysicalSize};
use std::collections::VecDeque;
use vstd::prelude::*;

verus! {

/// Whether a display is plugged into a connector.
#[derive(Debug, Copy, Clone, PartialEq, Eq, Structural)]
pub enum ConnectionState {
    Connected,
    Disconnected,
    Unknown,
}

/// A display mode: its resolution and its vertical refresh rate.
#[derive(Debug, Copy, Clone, PartialEq, Eq)]
pub struct Mode {
    pub size: (u16, u16),
    pub vrefresh: u32,
}

/// What the card tells of a connector.
#[derive(Debug, PartialEq, Eq)]
pub struct ConnectorInfo {
    pub handle: u32,
    pub state: ConnectionState,
    /// Width and height of the display in millimetres.
    pub size: (u32, u32),
    pub modes: Vec<Mode>,
    pub current_encoder: Option<u32>,
}

/// A video mode that a monitor could be switched to.
#[derive(Debug, Copy, Clone, PartialEq, Eq)]
pub struct VideoMode {
    pub size: (u32, u32),
    pub bit_depth: u16,
    pub refresh_rate: u16,
}

/// A monitor, known by its connector.
#[derive(Copy, Clone)]
pub struct MonitorHandle {
    pub handle: u32,
}

/// What is printed of a monitor, in this order.
pub struct MonitorDescription {
    pub name: Option<String>,
    pub native_identifier: u32,
    pub size: PhysicalSize,
    pub position: PhysicalPosition,
    pub hidpi_factor: i32,
}

/// A display is plugged in and has an extent.
pub open spec fn is_available(info: ConnectorInfo) -> bool {
    info.state == ConnectionState::Connected && info.size.0 * info.size.1 > 0
}

/// The area of a plugged-in display is a 32-bit number of square millimetres.
pub open spec fn area_fits(slot: Option<ConnectorInfo>) -> bool {
    slot matches Some(info) ==> info.state == ConnectionState::Connected ==> info.size.0
        * info.size.1 <= u32::MAX
}

/// The monitor at a connector. A connector that could not be read (`None`) has none.
pub open spec fn monitor_at(slot: Option<ConnectorInfo>) -> Option<MonitorHandle> {
    match slot {
        Some(info) => if is_available(info) {
            Some(MonitorHandle { handle: info.handle })
        } else {
            None
        },
        None => None,
    }
}

/// The monitors at `connectors`, in the card's order.
pub open spec fn monitors_of(connectors: Seq<Option<ConnectorInfo>>) -> Seq<MonitorHandle> {
    connectors.filter_map(|slot: Option<ConnectorInfo>| monitor_at(slot))
}

/// Lists the monitors. `connectors` holds what the card tells of each connector, in
/// its own order, and `None` for one that could not be read.
pub fn available_monitors(connectors: &Vec<Option<ConnectorInfo>>) -> (monitors: VecDeque<
    MonitorHandle,
>)
    requires
        forall|i: int| 0 <= i < connectors@.len() ==> area_fits(#[trigger] connectors@[i]),
    ensures
        monitors@ == monitors_of(connectors@),
{
    let mut monitors: VecDeque<MonitorHandle> = VecDeque::new();
    let mut i: usize = 0;
    let ghost f = |slot: Option<ConnectorInfo>| monitor_at(slot);
    assert(connectors@.take(0).filter_map(f) == Seq::<MonitorHandle>::empty());
    while i < connectors.len()
        invariant
            i <= connectors@.len(),
            forall|j: int| 0 <= j < connectors@.len() ==> area_fits(#[trigger] connectors@[j]),
            f == (|slot: Option<ConnectorInfo>| monitor_at(slot)),
            monitors@ == connectors@.take(i as int).filter_map(f),
        decreases connectors@.len() - i,
    {
        proof {
            connectors@.lemma_filter_map_take_succ(f, i as int);
            assert(area_fits(connectors@[i as int]));
        }
        if let Some(info) = &connectors[i] {
            if info.state == ConnectionState::Connected && info.size.0 * info.size.1 > 0 {
                monitors.push_back(MonitorHandle { handle: info.handle });
            }
        }
        i += 1;
    }
    assert(connectors@.take(connectors@.len() as int) == connectors@);
    monitors
}

/// The first monitor, if there is one.
pub fn primary_monitor(connectors: &Vec<Option<ConnectorInfo>>) -> (monitor: Option<MonitorHandle>)
    requires
        forall|i: int| 0 <= i < connectors@.len() ==> area_fits(#[trigger] connectors@[i]),
    ensures
        monitor == (if monitors_of(connectors@).len() > 0 {
            Some(monitors_of(connectors@)[0])
        } else {
            None
        }),
{
    let monitors = available_monitors(connectors);
    if monitors.len() > 0 {
        Some(monitors[0])
    } else {
        None
    }
}

impl MonitorHandle {
    /// A name for people to read, made of what the card calls the connector's type
    /// and state.
    pub fn name(&self, connector_type: &str, connection_state: &str) -> (name: Option<String>)
        ensures
            name is Some,
            name->0@ == "DRM ("@ + connector_type@ + ", "@ + connection_state@ + ")"@,
    {
        let mut name = String::new();
        name.append("DRM (");
        name.append(connector_type);
        name.append(", ");
        name.append(connection_state);
        name.append(")");
        Some(name)
    }

    /// The number by which the card knows the connector.
    pub fn native_identifier(&self) -> (identifier: u32)
        ensures
            identifier == self.handle,
    {
        self.handle
    }

    /// The size of the monitor in pixels: the resolution of `mode`, the mode that its
    /// card is driven in.
    pub fn size(&self, mode: Mode) -> (size: PhysicalSize)
        ensures
            size.width == mode.size.0,
            size.height == mode.size.1,
    {
        PhysicalSize { width: mode.size.0 as u32, height: mode.size.1 as u32 }
    }

    /// The position of the monitor: always the origin.
    pub fn position(&self) -> (position: PhysicalPosition)
        ensures
            position == (PhysicalPosition { x: 0, y: 0 }),
    {
        PhysicalPosition { x: 0, y: 0 }
    }

    /// The scale factor of the monitor: always one.
    pub fn hidpi_factor(&self) -> (factor: i32)
        ensures
            factor == 1,
    {
        1
    }

    /// The modes that the monitor could be switched to: none are offered.
    pub fn video_modes(&self) -> (modes: Vec<VideoMode>)
        ensures
            modes@ == Seq::<VideoMode>::empty(),
    {
        Vec::new()
    }

    /// What is to be printed of the monitor: its name, made of what the card calls the
    /// connector's type and state, its identifier, its size in `mode`, the mode that its
    /// card is driven in, its position and its scale factor.
    pub fn describe(
        &self,
        connector_type: &str,
        connection_state: &str,
        mode: Mode,
    ) -> (description: MonitorDescription)
        ensures
            description.name is Some,
            description.name->0@ == "DRM ("@ + connector_type@ + ", "@ + connection_state@ + ")"@,
            description.native_identifier == self.handle,
            description.size.width == mode.size.0,
            description.size.height == mode.size.1,
            description.position == (PhysicalPosition { x: 0, y: 0 }),
            description.hidpi_factor == 1,
    {
        MonitorDescription {
            name: self.name(connector_type, connection_state),
            native_identifier: self.native_identifier(),
            size: self.size(mode),
            position: self.position(),
            hidpi_factor: self.hidpi_factor(),
        }
    }
}

/// Only connectors that could be read, have a display plugged in and an extent are
/// listed, and every such connector is.
pub proof fn law_monitors_are_the_available(
    connectors: Seq<Option<ConnectorInfo>>,
    monitor: MonitorHandle,
)
    ensures
        monitors_of(connectors).contains(monitor) <==> exists|i: int|
            0 <= i < connectors.len() && #[trigger] monitor_at(connectors[i]) == Some(monitor),
    decreases connectors.len(),
{
    if connectors.len() > 0 {
        let rest = connectors.drop_last();
        let last = connectors.len() - 1;
        law_monitors_are_the_available(rest, monitor);
        let earlier = monitors_of(rest);
        match monitor_at(connectors[last]) {
            Some(newest) => {
                assert(monitors_of(connectors) == earlier.push(newest));
                assert(earlier.push(newest)[earlier.len() as int] == newest);
                if earlier.contains(monitor) {
                    let k = choose|k: int| 0 <= k < earlier.len() && earlier[k] == monitor;
                    assert(earlier.push(newest)[k] == monitor);
                }
            },
            None => {
                assert(monitors_of(connectors) == earlier);
            },
        }
        if earlier.contains(monitor) {
            let i = choose|i: int|
                0 <= i < rest.len() && #[trigger] monitor_at(rest[i]) == Some(monitor);
            assert(monitor_at(connectors[i]) == Some(monitor));
        }
        assert forall|i: int|
            0 <= i < last && #[trigger] monitor_at(connectors[i]) == Some(
                monitor,
            ) implies earlier.contains(monitor) by {
            assert(monitor_at(rest[i]) == Some(monitor));
        }
    }
}

/// The monitors are listed connector by connector, in the card's order: those of two parts
/// of the list are those of the whole. A connector has a monitor exactly where it could be
/// read, a display is plugged in, and that has a width and a height; the monitor is then
/// known by the connector's handle.
pub proof fn law_monitors_go_connector_by_connector(
    a: Seq<Option<ConnectorInfo>>,
    b: Seq<Option<ConnectorInfo>>,
    info: ConnectorInfo,
)
    ensures
        monitors_of(a + b) == monitors_of(a) + monitors_of(b),
        monitors_of(seq![None::<ConnectorInfo>]).len() == 0,
        info.state == ConnectionState::Connected && info.size.0 > 0 && info.size.1 > 0
            ==> monitors_of(seq![Some(info)]).len() == 1 && monitors_of(seq![Some(info)])[0].handle
            == info.handle,
        info.state != ConnectionState::Connected || info.size.0 == 0 || info.size.1 == 0
            ==> monitors_of(seq![Some(info)]).len() == 0,
{
    lemma_monitors_add(a, b);
    let f = |slot: Option<ConnectorInfo>| monitor_at(slot);
    Seq::lemma_filter_map_singleton(None::<ConnectorInfo>, f);
    Seq::lemma_filter_map_singleton(Some(info), f);
    let (w, h) = info.size;
    assert((w > 0 && h > 0) == (w * h > 0)) by (nonlinear_arith)
        requires
            w >= 0,
            h >= 0,
    ;
}

proof fn lemma_monitors_add(a: Seq<Option<ConnectorInfo>>, b: Seq<Option<ConnectorInfo>>)
    ensures
        monitors_of(a + b) == monitors_of(a) + monitors_of(b),
    decreases b.len(),
{
    if b.len() == 0 {
        assert(a + b == a);
        assert(monitors_of(a) + monitors_of(b) == monitors_of(a));
    } else {
        lemma_monitors_add(a, b.drop_last());
        assert((a + b).drop_last() == a + b.drop_last());
    }
}

/// The list that is given is that of the monitors; the first of them is the primary one,
/// and there is one exactly where the list is not empty.
pub proof fn law_primary_monitor_is_listed_first(
    connectors: Vec<Option<ConnectorInfo>>,
    monitors: VecDeque<MonitorHandle>,
    primary: Option<MonitorHandle>,
)
    requires
        call_ensures(available_monitors, (&connectors,), monitors),
        call_ensures(primary_monitor, (&connectors,), primary),
    ensures
        monitors@ == monitors_of(connectors@),
        primary is Some <==> monitors@.len() > 0,
        primary matches Some(monitor) ==> monitor.handle == monitors@[0].handle,
{
}

/// The area of what is plugged in is the only thing asked of a connector.
pub proof fn law_area_must_fit(info: ConnectorInfo)
    ensures
        area_fits(None),
        info.state != ConnectionState::Connected ==> area_fits(Some(info)),
        info.size.0 * info.size.1 <= u32::MAX ==> area_fits(Some(info)),
{
}

/// The name of a monitor shows the type and the state of its connector between fixed
/// signs, and nothing else: monitors with the same type and state have the same name.
pub proof fn law_name_shows_type_and_state(
    one: MonitorHandle,
    other: MonitorHandle,
    connector_type: &str,
    connection_state: &str,
    name: Option<String>,
    other_name: Option<String>,
)
    requires
        call_ensures(MonitorHandle::name, (&one, connector_type, connection_state), name),
        call_ensures(MonitorHandle::name, (&other, connector_type, connection_state), other_name),
    ensures
        name matches Some(name) && other_name matches Some(other_name) && {
            let (t, s) = (connector_type@, connection_state@);
            &&& other_name@ == name@
            &&& name@.len() == t.len() + s.len() + 8
            &&& name@.take(5) == seq!['D', 'R', 'M', ' ', '(']
            &&& name@.skip(5).take(t.len() as int) == t
            &&& name@.skip(5 + t.len() as int).take(2) == seq![',', ' ']
            &&& name@.skip(7 + t.len() as int).take(s.len() as int) == s
            &&& name@.last() == ')'
        },
{
    reveal_strlit("DRM (");
    reveal_strlit(", ");
    reveal_strlit(")");
}

/// A monitor is as large as the mode that its card is driven in, lies at the origin, is
/// not scaled, offers no modes, and is known to the card by its handle.
pub proof fn law_monitor_is_as_large_as_its_mode(
    monitor: MonitorHandle,
    mode: Mode,
    identifier: u32,
    size: PhysicalSize,
    position: PhysicalPosition,
    factor: i32,
    modes: Vec<VideoMode>,
)
    requires
        call_ensures(MonitorHandle::native_identifier, (&monitor,), identifier),
        call_ensures(MonitorHandle::size, (&monitor, mode), size),
        call_ensures(MonitorHandle::position, (&monitor,), position),
        call_ensures(MonitorHandle::hidpi_factor, (&monitor,), factor),
        call_ensures(MonitorHandle::video_modes, (&monitor,), modes),
    ensures
        identifier == monitor.handle,
        size.width == mode.size.0,
        size.height == mode.size.1,
        position.x == 0,
        position.y == 0,
        factor == 1,
        modes@.len() == 0,
{
}

/// What is printed of a monitor is what is read of it.
pub proof fn law_description_is_what_is_read(
    monitor: MonitorHandle,
    connector_type: &str,
    connection_state: &str,
    mode: Mode,
    name: Option<String>,
    identifier: u32,
    size: PhysicalSize,
    position: PhysicalPosition,
    factor: i32,
    description: MonitorDescription,
)
    requires
        call_ensures(MonitorHandle::name, (&monitor, connector_type, connection_state), name),
        call_ensures(MonitorHandle::native_identifier, (&monitor,), identifier),
        call_ensures(MonitorHandle::size, (&monitor, mode), size),
        call_ensures(MonitorHandle::position, (&monitor,), position),
        call_ensures(MonitorHandle::hidpi_factor, (&monitor,), factor),
        call_ensures(
            MonitorHandle::describe,
            (&monitor, connector_type, connection_state, mode),
            description,
        ),
    ensures
        description.name is Some && name is Some,
        description.name->0@ == name->0@,
        description.native_identifier == identifier,
        description.size == size,
        description.position == position,
        description.hidpi_factor == factor,
{
}

} // verus!

//! The choice of the output that windows are shown on: a connector, the mode to drive
//! it in, its encoder and the controller behind that.
use crate::monitor::{ConnectionState, ConnectorInfo, Mode};
use crate::monitor::{is_available, monitor_at, monitors_of};
use vstd::prelude::*;

verus! {

/// What the card tells of an encoder.
#[derive(Debug, Copy, Clone, PartialEq, Eq)]
pub struct EncoderInfo {
    pub handle: u32,
    pub current_crtc: Option<u32>,
}

/// The output that was chosen, as far as the connectors alone settle it.
#[derive(Debug, Copy, Clone, PartialEq, Eq)]
pub struct Output {
    /// Where the connector stands in the card's list, and its handle.
    pub connector_index: usize,
    pub connector: u32,
    /// Where the mode stands in the connector's list, and the mode.
    pub mode_index: usize,
    pub mode: Mode,
    /// The encoder that the connector is attached to.
    pub encoder: u32,
}

/// All that it takes to show a window.
#[derive(Debug, Copy, Clone, PartialEq, Eq)]
pub struct Resources {
    pub connector: u32,
    pub mode: Mode,
    pub encoder: u32,
    pub crtc: u32,
}

/// What the card lacks.
#[derive(Debug, Copy, Clone, PartialEq, Eq)]
pub enum ResourceError {
    /// No connector has a display with an extent.
    NoConnector,
    /// The display offers no mode.
    NoMode,
    /// The connector is attached to no encoder.
    NoEncoder,
    /// The encoder is attached to no controller.
    NoCrtc,
}

/// A display is plugged into the connector and has a width and a height.
pub open spec fn is_usable(slot: Option<ConnectorInfo>) -> bool {
    slot matches Some(info) && info.state == ConnectionState::Connected && info.size.0 > 0
        && info.size.1 > 0
}

/// `i` is the first usable connector.
pub open spec fn is_first_usable(connectors: Seq<Option<ConnectorInfo>>, i: int) -> bool {
    &&& 0 <= i < connectors.len()
    &&& is_usable(connectors[i])
    &&& forall|j: int| 0 <= j < i ==> !is_usable(#[trigger] connectors[j])
}

/// No connector is usable.
pub open spec fn none_usable(connectors: Seq<Option<ConnectorInfo>>) -> bool {
    forall|j: int| 0 <= j < connectors.len() ==> !is_usable(#[trigger] connectors[j])
}

/// The number of pixels of a mode.
pub open spec fn area(mode: Mode) -> int {
    mode.size.0 * mode.size.1
}

/// `a` is to be preferred to `b`: it has more pixels or, with as many, a higher refresh
/// rate.
pub open spec fn outranks(a: Mode, b: Mode) -> bool {
    area(a) > area(b) || (area(a) == area(b) && a.vrefresh > b.vrefresh)
}

/// `i` is the best mode: none outranks it, and it outranks all that stand before it.
pub open spec fn is_best_mode(modes: Seq<Mode>, i: int) -> bool {
    &&& 0 <= i < modes.len()
    &&& forall|j: int| 0 <= j < modes.len() ==> !outranks(#[trigger] modes[j], modes[i])
    &&& forall|j: int| 0 <= j < i ==> outranks(modes[i], #[trigger] modes[j])
}

/// Where the card is to be opened: at the path that was configured, else at that of the
/// first card.
pub fn card_path(configured: Option<String>) -> (path: String)
    ensures
        path@ == (match configured {
            Some(path) => path@,
            None => "/dev/dri/card0"@,
        }),
{
    match configured {
        Some(path) => path,
        None => "/dev/dri/card0".to_owned(),
    }
}

/// Finds the first connector with a display that has an extent.
pub fn find_connector(connectors: &Vec<Option<ConnectorInfo>>) -> (found: Option<usize>)
    ensures
        match found {
            Some(i) => is_first_usable(connectors@, i as int),
            None => none_usable(connectors@),
        },
{
    let mut i: usize = 0;
    while i < connectors.len()
        invariant
            i <= connectors@.len(),
            forall|j: int| 0 <= j < i ==> !is_usable(#[trigger] connectors@[j]),
        decreases connectors@.len() - i,
    {
        if let Some(info) = &connectors[i] {
            if info.state == ConnectionState::Connected && info.size.0 > 0 && info.size.1 > 0 {
                return Some(i);
            }
        }
        i += 1;
    }
    None
}

/// The number of pixels of a mode.
fn pixels(mode: Mode) -> (pixels: u32)
    ensures
        pixels == area(mode),
{
    proof {
        let (w, h) = mode.size;
        assert(w * h <= 0xffff * 0xffff) by (nonlinear_arith)
            requires
                w <= 0xffff,
                h <= 0xffff,
        ;
        assert(0 <= w * h) by (nonlinear_arith)
            requires
                0 <= w,
                0 <= h,
        ;
    }
    mode.size.0 as u32 * mode.size.1 as u32
}

/// Finds the best mode, the first of several that are equally good.
pub fn find_mode(modes: &Vec<Mode>) -> (found: Option<usize>)
    ensures
        match found {
            Some(i) => is_best_mode(modes@, i as int),
            None => modes@.len() == 0,
        },
{
    if modes.len() == 0 {
        return None;
    }
    let mut best: usize = 0;
    let mut i: usize = 1;
    while i < modes.len()
        invariant
            best < i <= modes@.len(),
            forall|j: int| 0 <= j < i ==> !outranks(#[trigger] modes@[j], modes@[best as int]),
            forall|j: int| 0 <= j < best ==> outranks(modes@[best as int], #[trigger] modes@[j]),
        decreases modes@.len() - i,
    {
        let candidate = pixels(modes[i]);
        let champion = pixels(modes[best]);
        if candidate > champion || (candidate == champion && modes[i].vrefresh
            > modes[best].vrefresh) {
            best = i;
        }
        i += 1;
    }
    Some(best)
}

/// `output` is the first usable connector with its best mode and its encoder.
pub open spec fn is_output(connectors: Seq<Option<ConnectorInfo>>, output: Output) -> bool {
    let i = output.connector_index as int;
    &&& is_first_usable(connectors, i)
    &&& connectors[i] matches Some(info) && {
        &&& output.connector == info.handle
        &&& is_best_mode(info.modes@, output.mode_index as int)
        &&& output.mode == info.modes@[output.mode_index as int]
        &&& info.current_encoder == Some(output.encoder)
    }
}

/// Chooses the output. `connectors` holds what the card tells of each connector, in its
/// own order, and `None` for one that could not be read.
pub fn select_output(connectors: &Vec<Option<ConnectorInfo>>) -> (output: Result<
    Output,
    ResourceError,
>)
    ensures
        match output {
            Ok(output) => is_output(connectors@, output),
            Err(ResourceError::NoConnector) => none_usable(connectors@),
            Err(ResourceError::NoMode) => exists|i: int| #[trigger]
                is_first_usable(connectors@, i) && connectors@[i]->0.modes@.len() == 0,
            Err(ResourceError::NoEncoder) => exists|i: int| #[trigger]
                is_first_usable(connectors@, i) && connectors@[i]->0.modes@.len() > 0
                    && connectors@[i]->0.current_encoder is None,
            Err(ResourceError::NoCrtc) => false,
        },
{
    let connector_index: usize = match find_connector(connectors) {
        Some(i) => i,
        None => {
            return Err(ResourceError::NoConnector);
        },
    };
    proof {
        assert(is_first_usable(connectors@, connector_index as int));
    }
    match &connectors[connector_index] {
        Some(info) => {
            let mode_index: usize = match find_mode(&info.modes) {
                Some(i) => i,
                None => {
                    return Err(ResourceError::NoMode);
                },
            };
            match info.current_encoder {
                Some(encoder) => Ok(
                    Output {
                        connector_index,
                        connector: info.handle,
                        mode_index,
                        mode: info.modes[mode_index],
                        encoder,
                    },
                ),
                None => Err(ResourceError::NoEncoder),
            }
        },
        None => Err(ResourceError::NoConnector),
    }
}

/// What windows are shown with, given the chosen output and its encoder.
pub open spec fn completed(output: Output, encoder: EncoderInfo) -> Result<
    Resources,
    ResourceError,
> {
    match encoder.current_crtc {
        Some(crtc) => Ok(
            Resources {
                connector: output.connector,
                mode: output.mode,
                encoder: encoder.handle,
                crtc,
            },
        ),
        None => Err(ResourceError::NoCrtc),
    }
}

/// Completes the chosen output with the controller that its encoder is attached to.
pub fn get_resources(output: Output, encoder: EncoderInfo) -> (resources: Result<
    Resources,
    ResourceError,
>)
    ensures
        resources == completed(output, encoder),
{
    match encoder.current_crtc {
        Some(crtc) => Ok(
            Resources {
                connector: output.connector,
                mode: output.mode,
                encoder: encoder.handle,
                crtc,
            },
        ),
        None => Err(ResourceError::NoCrtc),
    }
}

/// What windows are shown with belongs together: the connector is the first usable one,
/// the mode is the best of its modes, the encoder is the one that it is attached to, and
/// the controller is the one that this encoder is attached to.
pub proof fn law_resources_belong_together(
    connectors: Seq<Option<ConnectorInfo>>,
    output: Output,
    encoder: EncoderInfo,
    resources: Resources,
)
    requires
        is_output(connectors, output),
        encoder.handle == output.encoder,
        completed(output, encoder) == Ok::<Resources, ResourceError>(resources),
    ensures
        ({
            let i = output.connector_index as int;
            let info = connectors[i]->0;
            &&& is_first_usable(connectors, i)
            &&& resources.connector == info.handle
            &&& is_best_mode(info.modes@, output.mode_index as int)
            &&& resources.mode == info.modes@[output.mode_index as int]
            &&& info.modes@.contains(resources.mode)
            &&& info.current_encoder == Some(resources.encoder)
            &&& encoder.current_crtc == Some(resources.crtc)
        }),
{
}

/// The connectors settle the output: there are no two.
pub proof fn law_output_is_unique(connectors: Seq<Option<ConnectorInfo>>, a: Output, b: Output)
    requires
        is_output(connectors, a),
        is_output(connectors, b),
    ensures
        a == b,
{
    let (i, j) = (a.connector_index as int, b.connector_index as int);
    if i < j {
        assert(!is_usable(connectors[i]));
    }
    if j < i {
        assert(!is_usable(connectors[j]));
    }
    let modes = connectors[i]->0.modes@;
    let (m, n) = (a.mode_index as int, b.mode_index as int);
    if m < n {
        assert(outranks(modes[n], modes[m]));
    }
    if n < m {
        assert(outranks(modes[m], modes[n]));
    }
}

/// `order` lists the positions of `modes` as a stable sort leaves them: every position
/// once, no mode behind one that it outranks, and equally good modes as they stood.
pub open spec fn is_sorted_order(modes: Seq<Mode>, order: Seq<int>) -> bool {
    &&& forall|k: int| 0 <= k < order.len() ==> 0 <= #[trigger] order[k] < modes.len()
    &&& forall|i: int| 0 <= i < modes.len() ==> #[trigger] order.contains(i)
    &&& forall|k: int, l: int|
        0 <= k < l < order.len() ==> !outranks(modes[#[trigger] order[l]], modes[#[trigger] order[k]])
            && (outranks(modes[order[k]], modes[order[l]]) || order[k] < order[l])
}

/// The best mode is the first one once the modes are sorted, the best in front, and
/// equally good ones keep their order.
pub proof fn law_best_mode_is_first_when_sorted(modes: Seq<Mode>, order: Seq<int>, best: int)
    requires
        is_sorted_order(modes, order),
        is_best_mode(modes, best),
    ensures
        order[0] == best,
{
    assert(order.contains(best));
    let k = choose|k: int| 0 <= k < order.len() && order[k] == best;
    if k > 0 {
        let head = order[0];
        assert(!outranks(modes[head], modes[best]));
        assert(outranks(modes[head], modes[best]) || head < best);
        assert(outranks(modes[best], modes[head]));
        assert(!outranks(modes[order[k]], modes[order[0]]));
    }
}

/// The monitor that is listed first is the one that windows are shown on: the first
/// usable connector.
pub proof fn law_primary_monitor_shows_the_windows(
    connectors: Seq<Option<ConnectorInfo>>,
    first: int,
)
    requires
        is_first_usable(connectors, first),
    ensures
        monitors_of(connectors).len() > 0,
        monitors_of(connectors)[0].handle == connectors[first]->0.handle,
    decreases connectors.len(),
{
    let last = connectors.len() - 1;
    let rest = connectors.drop_last();
    lemma_usable_is_available(connectors[first]->0);
    if first == last {
        lemma_none_usable_none_listed(rest);
    } else {
        assert(is_first_usable(rest, first));
        law_primary_monitor_shows_the_windows(rest, first);
    }
}

/// A display has an area exactly where it has a width and a height.
proof fn lemma_usable_is_available(info: ConnectorInfo)
    ensures
        is_usable(Some(info)) == is_available(info),
{
    let (w, h) = info.size;
    assert((w > 0 && h > 0) == (w * h > 0)) by (nonlinear_arith)
        requires
            w >= 0,
            h >= 0,
    ;
}

/// Without a usable connector no monitor is listed.
proof fn lemma_none_usable_none_listed(connectors: Seq<Option<ConnectorInfo>>)
    requires
        forall|j: int| 0 <= j < connectors.len() ==> !is_usable(#[trigger] connectors[j]),
    ensures
        monitors_of(connectors).len() == 0,
    decreases connectors.len(),
{
    if connectors.len() > 0 {
        let last = connectors[connectors.len() - 1];
        assert(!is_usable(last));
        if let Some(info) = last {
            lemma_usable_is_available(info);
        }
        assert(monitor_at(last) is None);
        lemma_none_usable_none_listed(connectors.drop_last());
    }
}

/// The card is opened where it was configured to be, and only without a configuration at
/// the path of the first card.
pub proof fn law_configured_path_is_taken(configured: Option<String>, path: String)
    requires
        call_ensures(card_path, (configured,), path),
    ensures
        configured matches Some(configured) ==> path@ == configured@,
        configured is None ==> path@ == seq![
            '/', 'd', 'e', 'v', '/', 'd', 'r', 'i', '/', 'c', 'a', 'r', 'd', '0',
        ],
{
    reveal_strlit("/dev/dri/card0");
}

/// A connector can be used exactly where it could be read, a display is plugged in, and
/// that has a width and a height.
pub proof fn law_usable_connectors(info: ConnectorInfo)
    ensures
        !is_usable(None),
        info.state != ConnectionState::Connected ==> !is_usable(Some(info)),
        info.size.0 == 0 || info.size.1 == 0 ==> !is_usable(Some(info)),
        info.state == ConnectionState::Connected && info.size.0 > 0 && info.size.1 > 0
            ==> is_usable(Some(info)),
{
}

/// The connector that is found can be used and no earlier one can; if any can be used, one
/// is found.
pub proof fn law_first_usable_connector_is_found(
    connectors: &Vec<Option<ConnectorInfo>>,
    found: Option<usize>,
    j: int,
)
    requires
        call_ensures(find_connector, (connectors,), found),
        0 <= j < connectors@.len(),
        connectors@[j] matches Some(info) && info.state == ConnectionState::Connected
            && info.size.0 > 0 && info.size.1 > 0,
    ensures
        found matches Some(i) && i <= j && (connectors@[i as int] matches Some(info) && info.state
            == ConnectionState::Connected && info.size.0 > 0 && info.size.1 > 0),
{
    assert(is_usable(connectors@[j]));
    match found {
        Some(i) => {
            assert(is_first_usable(connectors@, i as int));
        },
        None => {
            assert(none_usable(connectors@));
        },
    }
}

/// Where no display with a width and a height is plugged in, no connector is found.
pub proof fn law_no_display_no_connector(
    connectors: Vec<Option<ConnectorInfo>>,
    found: Option<usize>,
)
    requires
        call_ensures(find_connector, (&connectors,), found),
        forall|j: int|
            0 <= j < connectors@.len() ==> !(#[trigger] connectors@[j] matches Some(info)
                && info.state == ConnectionState::Connected && info.size.0 > 0 && info.size.1 > 0),
    ensures
        found is None,
{
}

/// The mode that is found has as many pixels as any, of those with as many it is refreshed
/// as often as any, and of those refreshed as often it stands first.
pub proof fn law_found_mode_is_the_best(modes: Vec<Mode>, found: Option<usize>, j: int)
    requires
        call_ensures(find_mode, (&modes,), found),
        0 <= j < modes@.len(),
    ensures
        found matches Some(i) && i < modes@.len() && {
            let best = modes@[i as int];
            let other = modes@[j];
            let pixels = best.size.0 * best.size.1;
            let other_pixels = other.size.0 * other.size.1;
            &&& other_pixels <= pixels
            &&& other_pixels == pixels ==> other.vrefresh <= best.vrefresh
            &&& other_pixels == pixels && other.vrefresh == best.vrefresh ==> i <= j
        },
{
    assert(!outranks(modes@[j], modes@[found->0 as int]));
    if j < found->0 {
        assert(outranks(modes@[found->0 as int], modes@[j]));
    }
}

/// Without modes no mode is found.
pub proof fn law_no_modes_no_mode(modes: Vec<Mode>, found: Option<usize>)
    requires
        call_ensures(find_mode, (&modes,), found),
        modes@.len() == 0,
    ensures
        found is None,
{
}

/// The output is settled by the first connector that can be used. It is lacking exactly
/// where that offers no mode, or else is attached to no encoder; otherwise it is that
/// connector, with the mode that is best and the encoder that it is attached to.
pub proof fn law_output_is_that_of_the_first_display(
    connectors: Vec<Option<ConnectorInfo>>,
    output: Result<Output, ResourceError>,
    i: int,
    mode: Option<usize>,
)
    requires
        call_ensures(select_output, (&connectors,), output),
        0 <= i < connectors@.len(),
        connectors@[i] matches Some(info) && info.state == ConnectionState::Connected
            && info.size.0 > 0 && info.size.1 > 0,
        forall|j: int|
            0 <= j < i ==> !(#[trigger] connectors@[j] matches Some(info) && info.state
                == ConnectionState::Connected && info.size.0 > 0 && info.size.1 > 0),
        call_ensures(find_mode, (&connectors@[i]->0.modes,), mode),
    ensures
        ({
            let info = connectors@[i]->0;
            &&& info.modes@.len() == 0 ==> output == Err::<Output, _>(ResourceError::NoMode)
            &&& info.modes@.len() > 0 && info.current_encoder is None ==> output == Err::<
                Output,
                _,
            >(ResourceError::NoEncoder)
            &&& info.modes@.len() > 0 && info.current_encoder is Some ==> (output matches Ok(output)
                && output.connector_index == i && output.connector == info.handle
                && Some(output.mode_index) == mode && output.mode
                == info.modes@[output.mode_index as int] && Some(output.encoder)
                == info.current_encoder)
        }),
{
    assert(is_first_usable(connectors@, i)) by {
        assert(is_usable(connectors@[i]));
    }
    assert forall|k: int| #[trigger] is_first_usable(connectors@, k) implies k == i by {
        if k < i {
            assert(!is_usable(connectors@[k]));
        }
        if i < k {
            assert(!is_usable(connectors@[i]));
        }
    }
    let modes = connectors@[i]->0.modes@;
    if let Ok(output) = output {
        assert(is_first_usable(connectors@, output.connector_index as int));
        let (m, n) = (output.mode_index as int, mode->0 as int);
        if m < n {
            assert(outranks(modes[n], modes[m]));
        }
        if n < m {
            assert(outranks(modes[m], modes[n]));
        }
    }
}

/// Without a display that has a width and a height there is no output.
pub proof fn law_no_display_no_output(
    connectors: Vec<Option<ConnectorInfo>>,
    output: Result<Output, ResourceError>,
)
    requires
        call_ensures(select_output, (&connectors,), output),
        forall|j: int|
            0 <= j < connectors@.len() ==> !(#[trigger] connectors@[j] matches Some(info)
                && info.state == ConnectionState::Connected && info.size.0 > 0 && info.size.1 > 0),
    ensures
        output == Err::<Output, _>(ResourceError::NoConnector),
{
    assert forall|k: int| !(#[trigger] is_first_usable(connectors@, k)) by {
        if is_first_usable(connectors@, k) {
            assert(is_usable(connectors@[k]));
        }
    }
    if let Ok(output) = output {
        assert(is_first_usable(connectors@, output.connector_index as int));
    }
}

/// What windows are shown with is lacking exactly where the encoder is attached to no
/// controller; otherwise it is the output, the encoder and that controller.
pub proof fn law_output_is_completed_by_its_encoder(
    output: Output,
    encoder: EncoderInfo,
    resources: Result<Resources, ResourceError>,
)
    requires
        call_ensures(get_resources, (output, encoder), resources),
    ensures
        resources == completed(output, encoder),
        encoder.current_crtc is None ==> resources == Err::<Resources, _>(ResourceError::NoCrtc),
        encoder.current_crtc is Some ==> (resources matches Ok(resources) && resources.connector
            == output.connector && resources.mode == output.mode && resources.encoder
            == encoder.handle && Some(resources.crtc) == encoder.current_crtc),
{
}

} // verus!

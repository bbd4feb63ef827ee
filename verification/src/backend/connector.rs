//! What a display connector reports, and the two choices made from it: the
//! mode to drive and the hardware pipeline to drive it with.

use vstd::prelude::*;

verus! {

/// One display mode advertised by a connector.
#[derive(Clone, Copy, Debug, PartialEq, Eq, Hash, Structural)]
pub struct ModeInfo {
    /// Visible width in pixels.
    pub width: u16,
    /// Visible height in pixels.
    pub height: u16,
    /// Vertical refresh rate in Hz.
    pub vrefresh: u32,
    /// Whether the hardware marks this mode as preferred.
    pub preferred: bool,
}

/// An encoder: the signal path between a connector and a pipeline.
#[derive(Clone, Copy, Debug, PartialEq, Eq, Hash, Structural)]
pub struct EncoderInfo {
    /// The pipeline that the encoder is bound to at present, if any.
    pub crtc: Option<u32>,
    /// Bit `n` is set when the encoder can be driven by the `n`-th pipeline
    /// of the device's pipeline list.
    pub possible_crtcs: u32,
}

/// The state of one connector, as read from the device.
#[derive(Clone, Debug, PartialEq, Eq)]
pub struct ConnectorInfo {
    /// The connector's handle.
    pub handle: u32,
    /// Whether a display is attached.
    pub connected: bool,
    /// The kind of physical interface, as the kernel numbers it.
    pub interface: u32,
    /// Tells connectors of one interface kind apart.
    pub interface_id: u32,
    /// The physical size of the display in millimetres, where known.
    pub size: Option<(u32, u32)>,
    /// The advertised modes, in the order the hardware lists them.
    pub modes: Vec<ModeInfo>,
    /// The encoder bound to the connector at present, where it could be read.
    pub current_encoder: Option<EncoderInfo>,
    /// The encoders the connector can use that could be read, in order.
    pub encoders: Vec<EncoderInfo>,
}

/// The pipelines of a device, in the order the device lists them.
#[derive(Clone, Debug, PartialEq, Eq)]
pub struct ResourceHandles {
    pub crtcs: Vec<u32>,
}

/// `i` is the position of the first preferred mode.
pub open spec fn is_first_preferred(modes: Seq<ModeInfo>, i: int) -> bool {
    &&& 0 <= i < modes.len()
    &&& modes[i].preferred
    &&& forall|j: int| 0 <= j < i ==> !(#[trigger] modes[j]).preferred
}

/// The mode to drive: the first preferred one, else the first one.
pub open spec fn selected_mode(modes: Seq<ModeInfo>) -> Option<ModeInfo> {
    if exists|i: int| is_first_preferred(modes, i) {
        Some(modes[choose|i: int| is_first_preferred(modes, i)])
    } else if modes.len() > 0 {
        Some(modes[0])
    } else {
        None
    }
}

/// At most one position is that of the first preferred mode.
pub proof fn lemma_first_preferred_unique(modes: Seq<ModeInfo>, i: int, j: int)
    requires
        is_first_preferred(modes, i),
        is_first_preferred(modes, j),
    ensures
        i == j,
{
    if i < j {
        assert(!modes[i].preferred);
    }
    if j < i {
        assert(!modes[j].preferred);
    }
}

/// What `selected_mode` amounts to, case by case.
pub proof fn lemma_selected_mode(modes: Seq<ModeInfo>)
    ensures
        modes.len() == 0 <==> selected_mode(modes) is None,
        forall|i: int| is_first_preferred(modes, i) ==> selected_mode(modes) == Some(modes[i]),
        modes.len() > 0 && (forall|i: int| 0 <= i < modes.len() ==> !(#[trigger] modes[i]).preferred)
            ==> selected_mode(modes) == Some(modes[0]),
        selected_mode(modes) is Some ==> modes.contains(selected_mode(modes).unwrap()),
{
    assert forall|i: int| is_first_preferred(modes, i) implies selected_mode(modes) == Some(
        modes[i],
    ) by {
        let c = choose|c: int| is_first_preferred(modes, c);
        lemma_first_preferred_unique(modes, i, c);
    }
    if exists|i: int| is_first_preferred(modes, i) {
        let c = choose|c: int| is_first_preferred(modes, c);
        assert(modes[c] == selected_mode(modes).unwrap());
    } else if modes.len() > 0 {
        assert(modes[0] == selected_mode(modes).unwrap());
    }
}

/// Selects the mode to drive a connector with: the hardware's preferred mode
/// if it marks one, otherwise the first advertised mode; none if the
/// connector advertises no mode.
pub fn select_mode(modes: &Vec<ModeInfo>) -> (r: Option<ModeInfo>)
    ensures
        r == selected_mode(modes@),
        r is None <==> modes@.len() == 0,
        forall|i: int| is_first_preferred(modes@, i) ==> r == Some(modes@[i]),
        modes@.len() > 0 && (forall|i: int|
            0 <= i < modes@.len() ==> !(#[trigger] modes@[i]).preferred) ==> r == Some(modes@[0]),
{
    let mut i: usize = 0;
    while i < modes.len()
        invariant
            i <= modes.len(),
            forall|j: int| 0 <= j < i ==> !(#[trigger] modes@[j]).preferred,
        decreases modes.len() - i,
    {
        if modes[i].preferred {
            assert(is_first_preferred(modes@, i as int));
            return Some(modes[i]);
        }
        i += 1;
    }
    if modes.len() > 0 {
        Some(modes[0])
    } else {
        None
    }
}

/// The encoder that decides which pipelines fit: the one bound at present,
/// else the first usable one.
pub open spec fn chosen_encoder(connector: &ConnectorInfo) -> Option<EncoderInfo> {
    match connector.current_encoder {
        Some(e) => Some(e),
        None => if connector.encoders@.len() > 0 {
            Some(connector.encoders@[0])
        } else {
            None
        },
    }
}

/// Whether the pipeline at `index` of the pipeline list fits the mask. The
/// mask has one bit for each of the first 32 pipelines; none beyond fits.
pub open spec fn crtc_allowed(mask: u32, index: int) -> bool {
    0 <= index < 32 && (mask >> (index as u32)) & 1 == 1
}

/// The pipeline at `i` fits the mask and no surface has claimed it.
pub open spec fn is_eligible(crtcs: Seq<u32>, mask: u32, claimed: Seq<u32>, i: int) -> bool {
    &&& 0 <= i < crtcs.len()
    &&& crtc_allowed(mask, i)
    &&& !claimed.contains(crtcs[i])
}

/// `i` is the position of the first eligible pipeline.
pub open spec fn is_first_eligible(crtcs: Seq<u32>, mask: u32, claimed: Seq<u32>, i: int) -> bool {
    &&& is_eligible(crtcs, mask, claimed, i)
    &&& forall|j: int| 0 <= j < i ==> !is_eligible(crtcs, mask, claimed, j)
}

/// The pipeline that the connector's present encoder is bound to, where
/// that pipeline belongs to the device and is still free.
pub open spec fn bound_crtc(crtcs: Seq<u32>, claimed: Seq<u32>, connector: &ConnectorInfo) -> Option<
    u32,
> {
    match connector.current_encoder {
        Some(e) => match e.crtc {
            Some(c) => if crtcs.contains(c) && !claimed.contains(c) {
                Some(c)
            } else {
                None
            },
            None => None,
        },
        None => None,
    }
}

/// The pipeline for a connector: the one it is bound to at present if that
/// is still free, else the first pipeline of the device that fits the
/// encoder and is not claimed.
pub open spec fn chosen_crtc(crtcs: Seq<u32>, claimed: Seq<u32>, connector: &ConnectorInfo) -> Option<
    u32,
> {
    match chosen_encoder(connector) {
        None => None,
        Some(enc) => if bound_crtc(crtcs, claimed, connector) is Some {
            bound_crtc(crtcs, claimed, connector)
        } else if exists|i: int| is_first_eligible(crtcs, enc.possible_crtcs, claimed, i) {
            Some(crtcs[choose|i: int| is_first_eligible(crtcs, enc.possible_crtcs, claimed, i)])
        } else {
            None
        },
    }
}

/// At most one position is that of the first eligible pipeline.
pub proof fn lemma_first_eligible_unique(
    crtcs: Seq<u32>,
    mask: u32,
    claimed: Seq<u32>,
    i: int,
    j: int,
)
    requires
        is_first_eligible(crtcs, mask, claimed, i),
        is_first_eligible(crtcs, mask, claimed, j),
    ensures
        i == j,
{
}

/// The chosen pipeline belongs to the device and is claimed by no surface.
pub proof fn lemma_chosen_crtc_is_free(crtcs: Seq<u32>, claimed: Seq<u32>, connector: &ConnectorInfo)
    ensures
        chosen_crtc(crtcs, claimed, connector) matches Some(c) ==> crtcs.contains(c)
            && !claimed.contains(c),
{
    if let Some(enc) = chosen_encoder(connector) {
        if bound_crtc(crtcs, claimed, connector) is Some {
        } else if exists|i: int| is_first_eligible(crtcs, enc.possible_crtcs, claimed, i) {
            let c = choose|i: int| is_first_eligible(crtcs, enc.possible_crtcs, claimed, i);
            assert(crtcs[c] == chosen_crtc(crtcs, claimed, connector).unwrap());
        }
    }
}

/// What is to be done about one connector.
#[derive(Clone, Copy, Debug, PartialEq, Eq, Hash)]
pub enum Verdict {
    /// Nothing is attached: the connector is passed over.
    Skip,
    /// A display is attached but advertises no mode.
    NoMode,
    /// No encoder of the connector could be read.
    NoEncoder,
    /// Every pipeline that fits is claimed already.
    NoCrtc,
    /// A surface is to be created on this pipeline with this mode.
    Create { crtc: u32, mode: ModeInfo },
}

impl Verdict {
    /// Whether negotiation for the connector has failed.
    pub open spec fn is_failure(&self) -> bool {
        self is NoMode || self is NoEncoder || self is NoCrtc
    }

    /// The detail text of the error that a failed negotiation reports.
    pub open spec fn failure_text(&self) -> Seq<char> {
        match self {
            Verdict::NoMode => "no mode found for connector"@,
            Verdict::NoEncoder => "no encoder found"@,
            _ => "no available pipeline"@,
        }
    }
}

/// The verdict on a connector of a device with pipelines `crtcs`, of which
/// `claimed` are taken.
pub open spec fn connector_verdict(crtcs: Seq<u32>, claimed: Seq<u32>, connector: &ConnectorInfo)
    -> Verdict {
    if !connector.connected {
        Verdict::Skip
    } else {
        match selected_mode(connector.modes@) {
            None => Verdict::NoMode,
            Some(mode) => match chosen_encoder(connector) {
                None => Verdict::NoEncoder,
                Some(_) => match chosen_crtc(crtcs, claimed, connector) {
                    None => Verdict::NoCrtc,
                    Some(crtc) => Verdict::Create { crtc, mode },
                },
            },
        }
    }
}

/// Whether the pipeline at `index` of the pipeline list fits the mask.
pub fn crtc_fits(mask: u32, index: usize) -> (b: bool)
    ensures
        b == crtc_allowed(mask, index as int),
{
    index < 32 && (mask >> (index as u32)) & 1 == 1
}

} // verus!

//! The virtual output that clients see.

use vstd::prelude::*;
use crate::control::DisplayParams;
use crate::pixel_scale::PixelScale;

verus! {

/// An event of an output.
pub enum OutputEvent {
    Name(String),
    Description(String),
    /// At the origin, with square pixels of unknown order, and not turned.
    Geometry { width: i32, height: i32, make: String, model: String },
    /// The current and preferred mode, with the refresh rate in millihertz.
    Mode { width: i32, height: i32, refresh: i32 },
    Scale(i32),
    Done,
}

#[verifier::ext_equal]
pub enum OutputEventView {
    Name(Seq<char>),
    Description(Seq<char>),
    Geometry { width: i32, height: i32, make: Seq<char>, model: Seq<char> },
    Mode { width: i32, height: i32, refresh: i32 },
    Scale(i32),
    Done,
}

impl View for OutputEvent {
    type V = OutputEventView;

    open spec fn view(&self) -> OutputEventView {
        match *self {
            OutputEvent::Name(name) => OutputEventView::Name(name@),
            OutputEvent::Description(text) => OutputEventView::Description(text@),
            OutputEvent::Geometry { width, height, make, model } => OutputEventView::Geometry {
                width,
                height,
                make: make@,
                model: model@,
            },
            OutputEvent::Mode { width, height, refresh } => OutputEventView::Mode {
                width,
                height,
                refresh,
            },
            OutputEvent::Scale(scale) => OutputEventView::Scale(scale),
            OutputEvent::Done => OutputEventView::Done,
        }
    }
}

pub open spec fn event_views(events: Seq<OutputEvent>) -> Seq<OutputEventView> {
    events.map_values(|e: OutputEvent| e@)
}

/// The smallest whole number that is no less than a scale, if it can be sent;
/// or else the largest that can be.
pub open spec fn whole_scale(scale: PixelScale) -> i32 {
    let n = scale.0 as int;
    let d = scale.1 as int;
    let up = (n + d - 1) / d;
    if up > i32::MAX {
        i32::MAX
    } else {
        up as i32
    }
}

/// What clients are told of an output. Old clients are not told its name, and
/// very old ones not its scale.
pub open spec fn output_events(version: u32, params: DisplayParams) -> Seq<OutputEventView> {
    (if version >= 4 {
        seq![
            OutputEventView::Name("MM"@),
            OutputEventView::Description("Magic Mirror Virtual Display"@),
        ]
    } else {
        Seq::empty()
    }) + seq![
        OutputEventView::Geometry {
            width: params.width as i32,
            height: params.height as i32,
            make: "Magic Mirror"@,
            model: "Virtual Display"@,
        },
        OutputEventView::Mode {
            width: params.width as i32,
            height: params.height as i32,
            refresh: (params.framerate * 1000) as i32,
        },
    ] + (if version >= 2 {
        seq![OutputEventView::Scale(whole_scale(params.ui_scale)), OutputEventView::Done]
    } else {
        Seq::empty()
    })
}

fn ceil_scale(scale: PixelScale) -> (whole: i32)
    requires
        scale.valid(),
    ensures
        whole == whole_scale(scale),
{
    let n: u64 = scale.0 as u64;
    let d: u64 = scale.1 as u64;
    let up: u64 = (n + d - 1) / d;
    proof {
        vstd::arithmetic::div_mod::lemma_div_pos_is_pos((n + d - 1) as int, d as int);
    }
    if up > i32::MAX as u64 {
        i32::MAX
    } else {
        up as i32
    }
}

/// Describes an output to a client that speaks so recent a version.
pub fn configure_output(version: u32, params: DisplayParams) -> (events: Vec<OutputEvent>)
    requires
        params.framerate * 1000 <= i32::MAX,
        params.ui_scale.valid(),
    ensures
        event_views(events@) == output_events(version, params),
{
    let mut events: Vec<OutputEvent> = Vec::new();
    if version >= 4 {
        events.push(OutputEvent::Name("MM".to_owned()));
        events.push(OutputEvent::Description("Magic Mirror Virtual Display".to_owned()));
    }
    let width: i32 =
        #[verifier::truncate]
        (params.width as i32);
    let height: i32 =
        #[verifier::truncate]
        (params.height as i32);
    events.push(
        OutputEvent::Geometry {
            width,
            height,
            make: "Magic Mirror".to_owned(),
            model: "Virtual Display".to_owned(),
        },
    );
    events.push(OutputEvent::Mode { width, height, refresh: params.framerate as i32 * 1000 });
    if version >= 2 {
        events.push(OutputEvent::Scale(ceil_scale(params.ui_scale)));
        events.push(OutputEvent::Done);
    }
    assert(event_views(events@) =~= output_events(version, params));
    events
}

/// The scale that clients are told is the least whole number that is no less
/// than the scale of the display.
pub proof fn whole_scale_is_least(scale: PixelScale)
    requires
        scale.valid(),
        scale.0 <= i32::MAX,
    ensures
        whole_scale(scale) * scale.1 >= scale.0,
        scale.0 > 0 ==> (whole_scale(scale) - 1) * scale.1 < scale.0,
{
    let n = scale.0 as int;
    let d = scale.1 as int;
    let up = (n + d - 1) / d;
    assert(up * d >= n && (up - 1) * d < n && 0 <= up <= n) by (nonlinear_arith)
        requires
            up == (n + d - 1) / d,
            d > 0,
            n >= 0,
    ;
}

/// Clients are told the size of the display and how often it is refreshed, and,
/// if they are recent enough, its scale and its name.
pub proof fn output_is_described_as_it_is(version: u32, params: DisplayParams)
    requires
        params.width <= i32::MAX,
        params.height <= i32::MAX,
        params.framerate * 1000 <= i32::MAX,
    ensures
        ({
            let events = output_events(version, params);
            let at: int = if version >= 4 {
                2
            } else {
                0
            };
            &&& events[at] matches OutputEventView::Geometry { width, height, .. } && width
                == params.width && height == params.height
            &&& events[at + 1] matches OutputEventView::Mode { width, height, refresh } && width
                == params.width && height == params.height && refresh == params.framerate * 1000
            &&& version >= 2 ==> events[at + 2] == OutputEventView::Scale(
                whole_scale(params.ui_scale),
            ) && events.last() == OutputEventView::Done
            &&& version < 2 ==> events.len() == at + 2
            &&& version >= 4 ==> events[0] == OutputEventView::Name("MM"@) && events[1]
                is Description
        }),
{
}

} // verus!

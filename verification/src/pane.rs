//! The control pane's bookkeeping: which stage rows stay open, what colours
//! their dots, and the texts that summarise a stage's settings.

use vstd::prelude::*;

use crate::audio::source::PortName;
use crate::note::{decimal, decimal_text};
use crate::spectrum::TransformId;

verus! {

/// Which step of the pipeline a stage stands for. It names the colour of the
/// row's dot and the setting the row's summary reads.
#[derive(Debug, Clone, Copy, PartialEq, Eq, Structural)]
pub enum StageId {
    Source,
    Spectrum,
    Transform(TransformId),
    Spiral,
}

impl StageId {
    /// The style class that paints the row's dot, one per kind of stage.
    pub fn dot_class(&self) -> (class: &'static str)
        ensures
            class@ == match *self {
                StageId::Source => "source"@,
                StageId::Spectrum => "analysis"@,
                StageId::Transform(_) => "transform"@,
                StageId::Spiral => "display"@,
            },
    {
        match self {
            StageId::Source => "source",
            StageId::Spectrum => "analysis",
            StageId::Transform(_) => "transform",
            StageId::Spiral => "display",
        }
    }
}

/// The stages `toggle` leaves open, given the ones that were: the toggled
/// stage takes the state it was toggled to, and opening it shuts every other.
pub open spec fn after_toggle(open: Seq<bool>, index: int, now_open: bool) -> Seq<bool> {
    Seq::new(
        open.len(),
        |i: int|
            if i == index {
                now_open
            } else if now_open {
                false
            } else {
                open[i]
            },
    )
}

/// Whether no more than one stage is open.
pub open spec fn at_most_one_open(open: Seq<bool>) -> bool {
    forall|i: int, j: int| 0 <= i < open.len() && 0 <= j < open.len() && open[i] && open[j] ==> i == j
}

/// The stages to shut when the stage at `index` of `stage_count` is toggled:
/// every other one, in order, when it opened; none when it closed.
pub fn stages_to_close(stage_count: usize, index: usize, now_open: bool) -> (close: Vec<usize>)
    requires
        index < stage_count,
    ensures
        now_open ==> close@ == Seq::new((stage_count - 1) as nat, |k: int| if k < index {
            k as usize
        } else {
            (k + 1) as usize
        }),
        !now_open ==> close@.len() == 0,
{
    let mut close: Vec<usize> = Vec::new();
    if !now_open {
        return close;
    }
    let mut other: usize = 0;
    while other < stage_count
        invariant
            index < stage_count,
            other <= stage_count,
            close@.len() == if other <= index {
                other as int
            } else {
                other - 1
            },
            forall|k: int|
                0 <= k < close@.len() ==> close@[k] == if k < index {
                    k as usize
                } else {
                    (k + 1) as usize
                },
        decreases stage_count - other,
    {
        if other != index {
            close.push(other);
        }
        other = other + 1;
    }
    proof {
        assert(close@ =~= Seq::new((stage_count - 1) as nat, |k: int| if k < index {
            k as usize
        } else {
            (k + 1) as usize
        }));
    }
    close
}

/// Toggling one stage never leaves two open: a stage that opens shuts the
/// others, and one that shuts opens nothing.
pub proof fn law_at_most_one_stage_open(open: Seq<bool>, index: int, now_open: bool)
    requires
        at_most_one_open(open),
        0 <= index < open.len(),
    ensures
        at_most_one_open(after_toggle(open, index, now_open)),
        after_toggle(open, index, now_open)[index] == now_open,
{
}

/// The analysis window, in milliseconds, as the stage row and the control
/// both put it.
pub fn window_text(window_ms: u32) -> (text: String)
    ensures
        text@ == decimal(window_ms as int) + " ms"@,
{
    let mut text = decimal_text(window_ms as u64);
    text.append(" ms");
    text
}

/// The update rate, per second, as the stage row and the control both put it.
pub fn rate_text(update_rate: u32) -> (text: String)
    ensures
        text@ == decimal(update_rate as int) + " / sec"@,
{
    let mut text = decimal_text(update_rate as u64);
    text.append(" / sec");
    text
}

/// The harmonic count, as the stage row and the control both put it.
pub fn harmonics_text(harmonics: usize) -> (text: String)
    ensures
        text@ == decimal(harmonics as int) + " harmonics"@,
{
    let mut text = decimal_text(harmonics as u64);
    text.append(" harmonics");
    text
}

/// The caption under the spectrum stage: the grid's resolution and the
/// window that resolves it.
pub fn spectrum_caption_text(samples_per_octave: usize, dft_window_size: usize) -> (text: String)
    ensures
        text@ == decimal(samples_per_octave as int) + " bins / octave · window "@ + decimal(
            dft_window_size as int,
        ),
{
    let mut text = decimal_text(samples_per_octave as u64);
    text.append(" bins / octave · window ");
    let window = decimal_text(dft_window_size as u64);
    text.append(window.as_str());
    text
}

/// The source stage's summary: the port feeding the input, or `None`.
pub fn source_name(connected_input: Option<PortName>) -> (name: String)
    ensures
        name@ == match connected_input {
            Some(port) => port@,
            None => "None"@,
        },
{
    match connected_input {
        Some(port) => port.0,
        None => "None".to_owned(),
    }
}

} // verus!

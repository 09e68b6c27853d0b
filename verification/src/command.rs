//! Commands, and the choices that they leave.
use crate::json::{params_view, Param, ParamView};
use crate::state::{ColorMode, LightStateView, StateUpdate, StateUpdateView};
use vstd::prelude::*;

verus! {

/// Transition effect for commands that support it.
///
/// `Smooth(duration_ms)`: a duration below 30 ms counts as 30 ms, the least that the protocol
/// allows.
#[derive(Debug, Clone, Copy)]
pub enum Transition {
    Sudden,
    Smooth(u32),
}

impl Transition {
    /// The word for the effect.
    pub open spec fn effect_word(self) -> Seq<char> {
        match self {
            Transition::Sudden => "sudden"@,
            Transition::Smooth(_) => "smooth"@,
        }
    }

    /// The duration in milliseconds.
    pub open spec fn duration_ms(self) -> int {
        match self {
            Transition::Sudden => 0,
            Transition::Smooth(d) => if d < 30 {
                30
            } else {
                d as int
            },
        }
    }

    /// The word that the protocol has for the effect.
    pub fn effect(self) -> (r: &'static str)
        ensures
            r@ == self.effect_word(),
            r@ == "sudden"@ <==> self is Sudden,
            r@ == "smooth"@ <==> self is Smooth,
    {
        proof {
            lemma_transition(self);
        }
        match self {
            Transition::Sudden => "sudden",
            Transition::Smooth(_) => "smooth",
        }
    }

    /// The duration in milliseconds.
    pub fn duration(self) -> (r: u32)
        ensures
            r == self.duration_ms(),
            self is Sudden ==> r == 0,
            self matches Transition::Smooth(d) ==> 30 <= r && d <= r && (r == 30 || r == d),
    {
        match self {
            Transition::Sudden => 0,
            Transition::Smooth(d) => if d < 30 {
                30
            } else {
                d
            },
        }
    }
}

/// Direction of a relative adjustment (`set_adjust`).
#[derive(Debug, Clone, Copy)]
pub enum AdjustAction {
    Increase,
    Decrease,
    /// Cycle: after reaching the max value, wrap back to the minimum.
    Circle,
}

impl AdjustAction {
    /// The word for the action.
    pub open spec fn word(self) -> Seq<char> {
        match self {
            AdjustAction::Increase => "increase"@,
            AdjustAction::Decrease => "decrease"@,
            AdjustAction::Circle => "circle"@,
        }
    }

    /// The word that the protocol has for the action.
    pub fn as_str(self) -> (r: &'static str)
        ensures
            r@ == self.word(),
    {
        match self {
            AdjustAction::Increase => "increase",
            AdjustAction::Decrease => "decrease",
            AdjustAction::Circle => "circle",
        }
    }
}

/// Property target for `set_adjust`.
///
/// Note: `Color` only accepts [`AdjustAction::Circle`].
#[derive(Debug, Clone, Copy)]
pub enum AdjustProp {
    Bright,
    Ct,
    Color,
}

impl AdjustProp {
    /// The word for the property.
    pub open spec fn word(self) -> Seq<char> {
        match self {
            AdjustProp::Bright => "bright"@,
            AdjustProp::Ct => "ct"@,
            AdjustProp::Color => "color"@,
        }
    }

    /// The word that the protocol has for the property.
    pub fn as_str(self) -> (r: &'static str)
        ensures
            r@ == self.word(),
    {
        match self {
            AdjustProp::Bright => "bright",
            AdjustProp::Ct => "ct",
            AdjustProp::Color => "color",
        }
    }
}

/// Optional mode to switch into when powering on via `set_power`.
#[derive(Debug, Clone, Copy)]
pub enum PowerMode {
    Normal,
    Ct,
    Rgb,
    Hsv,
    ColorFlow,
    /// Ceiling light only.
    Night,
}

impl PowerMode {
    /// The number of the mode.
    pub open spec fn number(self) -> u8 {
        match self {
            PowerMode::Normal => 0,
            PowerMode::Ct => 1,
            PowerMode::Rgb => 2,
            PowerMode::Hsv => 3,
            PowerMode::ColorFlow => 4,
            PowerMode::Night => 5,
        }
    }

    /// The number that the protocol gives the mode.
    pub fn code(self) -> (r: u8)
        ensures
            r == self.number(),
    {
        match self {
            PowerMode::Normal => 0,
            PowerMode::Ct => 1,
            PowerMode::Rgb => 2,
            PowerMode::Hsv => 3,
            PowerMode::ColorFlow => 4,
            PowerMode::Night => 5,
        }
    }
}

impl PowerMode {
    /// What becomes of the state of a bulb that goes on in this mode. Modes that name neither a
    /// color nor a flow leave open what the bulb shows.
    pub open spec fn on_update(self) -> StateUpdateView {
        match self {
            PowerMode::Normal => StateUpdateView::Power(true),
            PowerMode::Ct => StateUpdateView::OnInMode(ColorMode::ColorTemp),
            PowerMode::Rgb => StateUpdateView::OnInMode(ColorMode::Rgb),
            PowerMode::Hsv => StateUpdateView::OnInMode(ColorMode::Hsv),
            PowerMode::ColorFlow => StateUpdateView::OnFlowing,
            PowerMode::Night => StateUpdateView::Power(true),
        }
    }

    /// What becomes of the state of a bulb that goes on in this mode.
    pub fn update(self) -> (r: StateUpdate)
        ensures
            r@ == self.on_update(),
    {
        match self {
            PowerMode::Normal => StateUpdate::Power(true),
            PowerMode::Ct => StateUpdate::OnInMode(ColorMode::ColorTemp),
            PowerMode::Rgb => StateUpdate::OnInMode(ColorMode::Rgb),
            PowerMode::Hsv => StateUpdate::OnInMode(ColorMode::Hsv),
            PowerMode::ColorFlow => StateUpdate::OnFlowing,
            PowerMode::Night => StateUpdate::Power(true),
        }
    }
}

/// A command: what the bulb is told, and what becomes of the known state once it is sent.
#[derive(Debug)]
pub struct Command {
    pub method: &'static str,
    pub params: Vec<Param>,
    pub update: StateUpdate,
}

/// A command, as contracts speak of it.
#[verifier::ext_equal]
pub struct CommandView {
    pub method: Seq<char>,
    pub params: Seq<ParamView>,
    pub update: StateUpdateView,
}

impl View for Command {
    type V = CommandView;

    open spec fn view(&self) -> CommandView {
        CommandView {
            method: self.method@,
            params: params_view(self.params@),
            update: self.update@,
        }
    }
}

/// A sudden transition takes no time. A smooth one takes the time that it is given, and 30 ms
/// where it is given less. The words for the two differ.
pub proof fn lemma_transition(transition: Transition)
    ensures
        transition.effect_word() == "sudden"@ <==> transition is Sudden,
        transition.effect_word() == "smooth"@ <==> transition is Smooth,
        transition is Sudden ==> transition.duration_ms() == 0,
        transition matches Transition::Smooth(d) ==> {
            &&& d >= 30 ==> transition.duration_ms() == d
            &&& d < 30 ==> transition.duration_ms() == 30
        },
{
    reveal_strlit("sudden");
    reveal_strlit("smooth");
    assert("sudden"@[1] == 'u' && "smooth"@[1] == 'm');
}

/// The longer of two transitions is not sent as the shorter one.
pub proof fn lemma_duration_grows(a: u32, b: u32)
    requires
        a <= b,
    ensures
        Transition::Smooth(a).duration_ms() <= Transition::Smooth(b).duration_ms(),
        30 <= a < b ==> Transition::Smooth(a).duration_ms() < Transition::Smooth(b).duration_ms(),
{
}

/// Each direction and each property of an adjustment has its word, and no two have the same.
pub proof fn lemma_adjust_words(action: AdjustAction, prop: AdjustProp)
    ensures
        action.word() == "increase"@ <==> action is Increase,
        action.word() == "decrease"@ <==> action is Decrease,
        action.word() == "circle"@ <==> action is Circle,
        prop.word() == "bright"@ <==> prop is Bright,
        prop.word() == "ct"@ <==> prop is Ct,
        prop.word() == "color"@ <==> prop is Color,
{
    reveal_strlit("increase");
    reveal_strlit("decrease");
    reveal_strlit("circle");
    reveal_strlit("bright");
    reveal_strlit("ct");
    reveal_strlit("color");
    assert("increase"@[0] == 'i' && "decrease"@[0] == 'd' && "circle"@[0] == 'c');
    assert("bright"@.len() == 6 && "ct"@.len() == 2 && "color"@.len() == 5);
}

/// Each power mode has its number, and no two have the same.
pub proof fn lemma_power_modes(mode: PowerMode)
    ensures
        mode.number() == 0 <==> mode is Normal,
        mode.number() == 1 <==> mode is Ct,
        mode.number() == 2 <==> mode is Rgb,
        mode.number() == 3 <==> mode is Hsv,
        mode.number() == 4 <==> mode is ColorFlow,
        mode.number() == 5 <==> mode is Night,
{
}

/// A bulb that goes on in a mode is on, in the color mode or with the flow that the mode names,
/// and as it was in all else.
pub proof fn lemma_on_in_mode(state: LightStateView, mode: PowerMode)
    ensures
        ({
            let after = state.updated(mode.on_update());
            &&& after.power == Some(true)
            &&& mode is Ct ==> after.color_mode == Some(ColorMode::ColorTemp)
            &&& mode is Rgb ==> after.color_mode == Some(ColorMode::Rgb)
            &&& mode is Hsv ==> after.color_mode == Some(ColorMode::Hsv)
            &&& mode is Normal || mode is ColorFlow || mode is Night ==> after.color_mode
                == state.color_mode
            &&& mode is ColorFlow ==> after.flowing == Some(true)
            &&& !(mode is ColorFlow) ==> after.flowing == state.flowing
            &&& after.brightness == state.brightness && after.ct == state.ct
            &&& after.rgb == state.rgb && after.hue == state.hue && after.sat == state.sat
            &&& after.music_on == state.music_on && after.name == state.name
        }),
{
}

/// What contracts speak of is what a command holds.
pub proof fn lemma_command_fields(command: Command)
    ensures
        command@.method == command.method@,
        command@.params.len() == command.params@.len(),
        forall|i: int|
            0 <= i < command.params@.len() ==> #[trigger] command@.params[i] == command.params@[i]@,
        command@.update == command.update@,
{
}

} // verus!

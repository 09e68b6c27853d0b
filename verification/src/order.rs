//! What a client can be asked to do, what the bulb is then told, and what is then known of it.
use crate::client::{power_update, says_power, says_transition, Writing};
use crate::command::{AdjustAction, AdjustProp, CommandView, PowerMode, Transition};
use crate::error::Result;
use crate::json::ParamView;
use crate::state::{ColorMode, LightStateView, StateUpdateView};
use vstd::prelude::*;
use vstd::utf8::encode_utf8;

verus! {

/// What a client is asked to do.
pub enum Order {
    Toggle,
    DevToggle,
    SetPower(bool, Transition, Option<PowerMode>),
    SetBrightness(u8, Transition),
    SetCt(u16, Transition),
    SetRgb(u32, Transition),
    SetHsv(u16, u8, Transition),
    SetDefault,
    StopCf,
    CronAdd(u32),
    CronDel,
    SetAdjust(AdjustAction, AdjustProp),
    AdjustBright(i8, u32),
    AdjustCt(i8, u32),
    AdjustColor(u32),
    SceneColor(u32, u8),
    SceneHsv(u16, u8, u8),
    SceneCt(u16, u8),
    SceneAutoDelayOff(u8, u32),
    SetMusic(bool, Option<Seq<char>>, Option<u16>),
    SetName(Seq<char>),
}

impl Order {
    /// The protocol allows what is asked for.
    pub open spec fn is_valid(self) -> bool {
        match self {
            Order::SetBrightness(n, _) => 1 <= n <= 100,
            Order::SetCt(ct, _) => 1700 <= ct <= 6500,
            Order::SetRgb(rgb, _) => rgb <= 16_777_215,
            Order::SetHsv(hue, sat, _) => hue <= 359 && sat <= 100,
            Order::CronAdd(minutes) => 1 <= minutes <= 60,
            Order::SetAdjust(action, prop) => prop is Color ==> action is Circle,
            Order::AdjustBright(percentage, _) => -100 <= percentage <= 100,
            Order::AdjustCt(percentage, _) => -100 <= percentage <= 100,
            Order::SceneColor(rgb, n) => rgb <= 16_777_215 && 1 <= n <= 100,
            Order::SceneHsv(hue, sat, n) => hue <= 359 && sat <= 100 && 1 <= n <= 100,
            Order::SceneCt(ct, n) => 1700 <= ct <= 6500 && 1 <= n <= 100,
            Order::SceneAutoDelayOff(n, _) => 1 <= n <= 100,
            Order::SetMusic(enable, host, port) => enable ==> host is Some && port is Some,
            Order::SetName(name) => encode_utf8(name).len() <= 64,
            _ => true,
        }
    }
}

/// `command` does what `order` asks for: it is the method for it, and its parameters are the
/// values that were given, in the places that the protocol has for them.
pub open spec fn fulfils(command: CommandView, order: Order) -> bool {
    let told = command.params;
    match order {
        Order::Toggle => {
            &&& command.method == "toggle"@ && told.len() == 0
            &&& command.update is TogglePower
        },
        Order::DevToggle => {
            &&& command.method == "dev_toggle"@ && told.len() == 0
            &&& command.update is TogglePower
        },
        Order::SetPower(on, transition, mode) => {
            &&& command.method == "set_power"@
            &&& says_power(told, on, transition, mode)
            &&& command.update == power_update(on, mode)
        },
        Order::SetBrightness(n, transition) => {
            &&& command.method == "set_bright"@ && told.len() == 3
            &&& told[0] == ParamView::Int(n as int)
            &&& says_transition(told, 1, transition)
            &&& command.update == StateUpdateView::Brightness(n)
        },
        Order::SetCt(ct, transition) => {
            &&& command.method == "set_ct_abx"@ && told.len() == 3
            &&& told[0] == ParamView::Int(ct as int)
            &&& says_transition(told, 1, transition)
            &&& command.update == StateUpdateView::Ct(ct)
        },
        Order::SetRgb(rgb, transition) => {
            &&& command.method == "set_rgb"@ && told.len() == 3
            &&& told[0] == ParamView::Int(rgb as int)
            &&& says_transition(told, 1, transition)
            &&& command.update == StateUpdateView::Rgb(rgb)
        },
        Order::SetHsv(hue, sat, transition) => {
            &&& command.method == "set_hsv"@ && told.len() == 4
            &&& told[0] == ParamView::Int(hue as int)
            &&& told[1] == ParamView::Int(sat as int)
            &&& says_transition(told, 2, transition)
            &&& command.update == StateUpdateView::Hsv(hue, sat)
        },
        Order::SetDefault => {
            &&& command.method == "set_default"@ && told.len() == 0
            &&& command.update is Nothing
        },
        Order::StopCf => {
            &&& command.method == "stop_cf"@ && told.len() == 0
            &&& command.update == StateUpdateView::Flowing(false)
        },
        Order::CronAdd(minutes) => {
            &&& command.method == "cron_add"@ && told.len() == 2
            &&& told[0] == ParamView::Int(0)
            &&& told[1] == ParamView::Int(minutes as int)
            &&& command.update is Nothing
        },
        Order::CronDel => {
            &&& command.method == "cron_del"@ && told.len() == 1
            &&& told[0] == ParamView::Int(0)
            &&& command.update is Nothing
        },
        Order::SetAdjust(action, prop) => {
            &&& command.method == "set_adjust"@ && told.len() == 2
            &&& action is Increase ==> told[0] == ParamView::Text("increase"@)
            &&& action is Decrease ==> told[0] == ParamView::Text("decrease"@)
            &&& action is Circle ==> told[0] == ParamView::Text("circle"@)
            &&& prop is Bright ==> told[1] == ParamView::Text("bright"@)
            &&& prop is Ct ==> told[1] == ParamView::Text("ct"@)
            &&& prop is Color ==> told[1] == ParamView::Text("color"@)
            &&& command.update is Nothing
        },
        Order::AdjustBright(percentage, duration_ms) => {
            &&& command.method == "adjust_bright"@ && told.len() == 2
            &&& told[0] == ParamView::Int(percentage as int)
            &&& told[1] == ParamView::Int(duration_ms as int)
            &&& command.update is Nothing
        },
        Order::AdjustCt(percentage, duration_ms) => {
            &&& command.method == "adjust_ct"@ && told.len() == 2
            &&& told[0] == ParamView::Int(percentage as int)
            &&& told[1] == ParamView::Int(duration_ms as int)
            &&& command.update is Nothing
        },
        Order::AdjustColor(duration_ms) => {
            &&& command.method == "adjust_color"@ && told.len() == 2
            &&& told[0] == ParamView::Int(0)
            &&& told[1] == ParamView::Int(duration_ms as int)
            &&& command.update is Nothing
        },
        Order::SceneColor(rgb, n) => {
            &&& command.method == "set_scene"@ && told.len() == 3
            &&& told[0] == ParamView::Text("color"@)
            &&& told[1] == ParamView::Int(rgb as int)
            &&& told[2] == ParamView::Int(n as int)
            &&& command.update == StateUpdateView::SceneColor(rgb, n)
        },
        Order::SceneHsv(hue, sat, n) => {
            &&& command.method == "set_scene"@ && told.len() == 4
            &&& told[0] == ParamView::Text("hsv"@)
            &&& told[1] == ParamView::Int(hue as int)
            &&& told[2] == ParamView::Int(sat as int)
            &&& told[3] == ParamView::Int(n as int)
            &&& command.update == StateUpdateView::SceneHsv(hue, sat, n)
        },
        Order::SceneCt(ct, n) => {
            &&& command.method == "set_scene"@ && told.len() == 3
            &&& told[0] == ParamView::Text("ct"@)
            &&& told[1] == ParamView::Int(ct as int)
            &&& told[2] == ParamView::Int(n as int)
            &&& command.update == StateUpdateView::SceneCt(ct, n)
        },
        Order::SceneAutoDelayOff(n, minutes) => {
            &&& command.method == "set_scene"@ && told.len() == 3
            &&& told[0] == ParamView::Text("auto_delay_off"@)
            &&& told[1] == ParamView::Int(n as int)
            &&& told[2] == ParamView::Int(minutes as int)
            &&& command.update == StateUpdateView::OnAt(n)
        },
        Order::SetMusic(enable, host, port) => {
            &&& command.method == "set_music"@
            &&& if enable {
                &&& told.len() == 3
                &&& told[0] == ParamView::Int(1)
                &&& told[1] == ParamView::Text(host->0)
                &&& told[2] == ParamView::Int(port->0 as int)
            } else {
                &&& told.len() == 1
                &&& told[0] == ParamView::Int(0)
            }
            &&& command.update == StateUpdateView::Music(enable)
        },
        Order::SetName(name) => {
            &&& command.method == "set_name"@ && told.len() == 1
            &&& told[0] == ParamView::Text(name)
            &&& command.update == StateUpdateView::Name(name)
        },
    }
}

/// A client answers an order: it begins with a command that fulfils it exactly if the protocol
/// allows it.
pub open spec fn answers(r: Result<Writing>, order: Order) -> bool {
    &&& r is Ok <==> order.is_valid()
    &&& r matches Ok(writing) ==> fulfils(writing@.command, order)
}

/// Two transitions are the same for the bulb: both sudden, or both smooth and equally long,
/// where less than 30 ms is as long as 30 ms.
pub open spec fn same_transition(a: Transition, b: Transition) -> bool {
    match (a, b) {
        (Transition::Sudden, Transition::Sudden) => true,
        (Transition::Smooth(c), Transition::Smooth(d)) => c == d || (c <= 30 && d <= 30),
        _ => false,
    }
}

/// Two orders ask for the same. To stop music mode needs neither a host nor a port.
pub open spec fn same_order(a: Order, b: Order) -> bool {
    match (a, b) {
        (Order::SetPower(on, t, mode), Order::SetPower(o, u, m)) => on == o && mode == m
            && same_transition(t, u),
        (Order::SetBrightness(n, t), Order::SetBrightness(m, u)) => n == m && same_transition(t, u),
        (Order::SetCt(n, t), Order::SetCt(m, u)) => n == m && same_transition(t, u),
        (Order::SetRgb(n, t), Order::SetRgb(m, u)) => n == m && same_transition(t, u),
        (Order::SetHsv(h, s, t), Order::SetHsv(i, r, u)) => h == i && s == r && same_transition(
            t,
            u,
        ),
        (Order::SetMusic(on, h, p), Order::SetMusic(o, i, q)) => on == o && (on ==> h == i && p
            == q),
        _ => a == b,
    }
}

/// The methods of the protocol differ, and so do the words among its parameters.
proof fn lemma_words_differ()
    ensures
        "sudden"@ != "smooth"@,
        "increase"@ != "decrease"@ && "increase"@ != "circle"@ && "decrease"@ != "circle"@,
        "bright"@ != "ct"@ && "bright"@ != "color"@ && "ct"@ != "color"@,
        "hsv"@ != "ct"@ && "hsv"@ != "color"@,
        "auto_delay_off"@ != "hsv"@ && "auto_delay_off"@ != "ct"@ && "auto_delay_off"@ != "color"@,
{
    reveal_strlit("sudden");
    reveal_strlit("smooth");
    reveal_strlit("increase");
    reveal_strlit("decrease");
    reveal_strlit("circle");
    reveal_strlit("bright");
    reveal_strlit("ct");
    reveal_strlit("color");
    reveal_strlit("hsv");
    reveal_strlit("auto_delay_off");
    assert("sudden"@[1] == 'u' && "smooth"@[1] == 'm');
    assert("increase"@[0] == 'i' && "decrease"@[0] == 'd' && "circle"@[0] == 'c');
    assert("bright"@.len() == 6 && "ct"@.len() == 2 && "color"@.len() == 5 && "hsv"@.len() == 3);
    assert("auto_delay_off"@.len() == 14);
}

/// The number of the method that an order goes by.
spec fn method_number(order: Order) -> int {
    match order {
        Order::Toggle => 0,
        Order::DevToggle => 1,
        Order::SetPower(..) => 2,
        Order::SetBrightness(..) => 3,
        Order::SetCt(..) => 4,
        Order::SetRgb(..) => 5,
        Order::SetHsv(..) => 6,
        Order::SetDefault => 7,
        Order::StopCf => 8,
        Order::CronAdd(_) => 9,
        Order::CronDel => 10,
        Order::SetAdjust(..) => 11,
        Order::AdjustBright(..) => 12,
        Order::AdjustCt(..) => 13,
        Order::AdjustColor(_) => 14,
        Order::SetMusic(..) => 15,
        Order::SetName(_) => 16,
        _ => 17,
    }
}

/// The methods by their numbers.
spec fn methods() -> Seq<Seq<char>> {
    seq![
        "toggle"@,
        "dev_toggle"@,
        "set_power"@,
        "set_bright"@,
        "set_ct_abx"@,
        "set_rgb"@,
        "set_hsv"@,
        "set_default"@,
        "stop_cf"@,
        "cron_add"@,
        "cron_del"@,
        "set_adjust"@,
        "adjust_bright"@,
        "adjust_ct"@,
        "adjust_color"@,
        "set_music"@,
        "set_name"@,
        "set_scene"@,
    ]
}

/// No two methods are the same.
proof fn lemma_methods_differ()
    ensures
        methods().no_duplicates(),
{
    reveal_strlit("toggle");
    reveal_strlit("dev_toggle");
    reveal_strlit("set_power");
    reveal_strlit("set_bright");
    reveal_strlit("set_ct_abx");
    reveal_strlit("set_rgb");
    reveal_strlit("set_hsv");
    reveal_strlit("set_default");
    reveal_strlit("stop_cf");
    reveal_strlit("cron_add");
    reveal_strlit("cron_del");
    reveal_strlit("set_adjust");
    reveal_strlit("adjust_bright");
    reveal_strlit("adjust_ct");
    reveal_strlit("adjust_color");
    reveal_strlit("set_music");
    reveal_strlit("set_name");
    reveal_strlit("set_scene");
    assert("toggle"@.len() == 6 && "set_default"@.len() == 11);
    assert("adjust_color"@.len() == 12 && "adjust_bright"@.len() == 13);
    assert("set_rgb"@.len() == 7 && "set_hsv"@.len() == 7 && "stop_cf"@.len() == 7);
    assert("set_rgb"@[4] == 'r' && "set_hsv"@[4] == 'h' && "stop_cf"@[4] == '_');
    assert("cron_add"@.len() == 8 && "cron_del"@.len() == 8 && "set_name"@.len() == 8);
    assert("cron_add"@[6] == 'd' && "cron_del"@[6] == 'e' && "set_name"@[6] == 'm');
    assert("set_power"@.len() == 9 && "adjust_ct"@.len() == 9 && "set_scene"@.len() == 9);
    assert("set_music"@.len() == 9);
    assert("set_power"@[5] == 'o' && "adjust_ct"@[5] == 't' && "set_scene"@[5] == 'c');
    assert("set_music"@[5] == 'u');
    assert("dev_toggle"@.len() == 10 && "set_bright"@.len() == 10 && "set_ct_abx"@.len() == 10);
    assert("set_adjust"@.len() == 10);
    assert("dev_toggle"@[4] == 't' && "set_bright"@[4] == 'b' && "set_ct_abx"@[4] == 'c');
    assert("set_adjust"@[4] == 'a');
}

/// A command goes by the method of its order.
proof fn lemma_method(command: CommandView, order: Order)
    requires
        fulfils(command, order),
    ensures
        command.method == methods()[method_number(order)],
        0 <= method_number(order) < methods().len(),
{
}

/// Different orders are told differently: from what the bulb is told there is no doubt what was
/// asked for.
pub proof fn lemma_told_apart(a: CommandView, b: CommandView, asked: Order, other: Order)
    requires
        asked.is_valid(),
        other.is_valid(),
        fulfils(a, asked),
        fulfils(b, other),
        a.method == b.method,
        a.params == b.params,
    ensures
        same_order(asked, other),
        a.update == b.update,
{
    lemma_words_differ();
    lemma_methods_differ();
    lemma_method(a, asked);
    lemma_method(b, other);
    assert(method_number(asked) == method_number(other));
}

/// What is told is what is then known: the values in the parameters of a command are those that
/// the state holds once the bulb has been sent it, and the rest of the state is as before.
pub proof fn lemma_told_is_known(order: Order, command: CommandView, state: LightStateView)
    requires
        fulfils(command, order),
    ensures
        ({
            let told = command.params;
            let known = state.updated(command.update);
            match order {
                Order::Toggle | Order::DevToggle => known == LightStateView {
                    power: Some(state.power != Some(true)),
                    ..state
                },
                Order::SetPower(..) => {
                    &&& known.power == Some(told[0] == ParamView::Text("on"@))
                    &&& known == LightStateView {
                        power: known.power,
                        color_mode: known.color_mode,
                        flowing: known.flowing,
                        ..state
                    }
                },
                Order::SetBrightness(..) => {
                    &&& known.brightness matches Some(n) && told[0] == ParamView::Int(n as int)
                    &&& known == LightStateView { brightness: known.brightness, ..state }
                },
                Order::SetCt(..) => {
                    &&& known.ct matches Some(ct) && told[0] == ParamView::Int(ct as int)
                    &&& known == LightStateView {
                        ct: known.ct,
                        color_mode: Some(ColorMode::ColorTemp),
                        ..state
                    }
                },
                Order::SetRgb(..) => {
                    &&& known.rgb matches Some(rgb) && told[0] == ParamView::Int(rgb as int)
                    &&& known == LightStateView {
                        rgb: known.rgb,
                        color_mode: Some(ColorMode::Rgb),
                        ..state
                    }
                },
                Order::SetHsv(..) => {
                    &&& known.hue matches Some(hue) && told[0] == ParamView::Int(hue as int)
                    &&& known.sat matches Some(sat) && told[1] == ParamView::Int(sat as int)
                    &&& known == LightStateView {
                        hue: known.hue,
                        sat: known.sat,
                        color_mode: Some(ColorMode::Hsv),
                        ..state
                    }
                },
                Order::StopCf => known == LightStateView { flowing: Some(false), ..state },
                Order::SceneColor(..) => {
                    &&& known.rgb matches Some(rgb) && told[1] == ParamView::Int(rgb as int)
                    &&& known.brightness matches Some(n) && told[2] == ParamView::Int(n as int)
                    &&& known == LightStateView {
                        power: Some(true),
                        rgb: known.rgb,
                        brightness: known.brightness,
                        color_mode: Some(ColorMode::Rgb),
                        ..state
                    }
                },
                Order::SceneHsv(..) => {
                    &&& known.hue matches Some(hue) && told[1] == ParamView::Int(hue as int)
                    &&& known.sat matches Some(sat) && told[2] == ParamView::Int(sat as int)
                    &&& known.brightness matches Some(n) && told[3] == ParamView::Int(n as int)
                    &&& known == LightStateView {
                        power: Some(true),
                        hue: known.hue,
                        sat: known.sat,
                        brightness: known.brightness,
                        color_mode: Some(ColorMode::Hsv),
                        ..state
                    }
                },
                Order::SceneCt(..) => {
                    &&& known.ct matches Some(ct) && told[1] == ParamView::Int(ct as int)
                    &&& known.brightness matches Some(n) && told[2] == ParamView::Int(n as int)
                    &&& known == LightStateView {
                        power: Some(true),
                        ct: known.ct,
                        brightness: known.brightness,
                        color_mode: Some(ColorMode::ColorTemp),
                        ..state
                    }
                },
                Order::SceneAutoDelayOff(..) => {
                    &&& known.brightness matches Some(n) && told[1] == ParamView::Int(n as int)
                    &&& known == LightStateView {
                        power: Some(true),
                        brightness: known.brightness,
                        ..state
                    }
                },
                Order::SetMusic(..) => {
                    &&& known.music_on == Some(told[0] == ParamView::Int(1))
                    &&& known == LightStateView { music_on: known.music_on, ..state }
                },
                Order::SetName(..) => {
                    &&& known.name matches Some(name) && told[0] == ParamView::Text(name)
                    &&& known == LightStateView { name: known.name, ..state }
                },
                _ => known == state,
            }
        }),
{
}

/// What a valid order sets lies in its range.
pub proof fn lemma_valid_in_range(order: Order, command: CommandView)
    requires
        order.is_valid(),
        fulfils(command, order),
    ensures
        command.update.in_range(),
{
}

} // verus!

//! The last known state of a bulb, and what changes it.
use crate::entries::{
    at_most_once, entry_map, find_last, lemma_last_at, lemma_no_value, lemma_order_is_free, lookup,
};
use crate::text::{
    decimal, lemma_decimal_reads_back, lemma_number_is_one, lemma_number_text,
    lemma_value_is_natural, parse_unsigned, same_text, unsigned_value, writes_number,
};
use vstd::prelude::*;

verus! {

/// Current active color mode of the bulb.
#[derive(Debug, Clone, Copy, PartialEq, Eq, Structural)]
pub enum ColorMode {
    Rgb,
    ColorTemp,
    Hsv,
}

impl ColorMode {
    /// The number that the protocol gives a mode.
    pub open spec fn number(self) -> u8 {
        match self {
            ColorMode::Rgb => 1,
            ColorMode::ColorTemp => 2,
            ColorMode::Hsv => 3,
        }
    }

    /// The number that the protocol gives this mode.
    pub fn code(self) -> (code: u8)
        ensures
            code == self.number(),
    {
        match self {
            ColorMode::Rgb => 1,
            ColorMode::ColorTemp => 2,
            ColorMode::Hsv => 3,
        }
    }

    /// The mode that has the number `v`.
    pub open spec fn with_number(v: int) -> Option<ColorMode> {
        if v == 1 {
            Some(ColorMode::Rgb)
        } else if v == 2 {
            Some(ColorMode::ColorTemp)
        } else if v == 3 {
            Some(ColorMode::Hsv)
        } else {
            None
        }
    }
}

impl TryFrom<u8> for ColorMode {
    type Error = ();

    fn try_from(v: u8) -> (r: Result<Self, ()>) {
        match v {
            1 => Ok(ColorMode::Rgb),
            2 => Ok(ColorMode::ColorTemp),
            3 => Ok(ColorMode::Hsv),
            _ => Err(()),
        }
    }
}

impl vstd::std_specs::convert::TryFromSpecImpl<u8> for ColorMode {
    open spec fn obeys_try_from_spec() -> bool {
        true
    }

    open spec fn try_from_spec(v: u8) -> Result<Self, ()> {
        match ColorMode::with_number(v as int) {
            Some(mode) => Ok(mode),
            None => Err(()),
        }
    }
}

/// Last known state of the bulb.
///
/// Fields are `Option` because the bulb may not report all of them depending on the model and
/// the current mode, and because what it reports outside the range of a field counts as unknown.
/// The state is updated with every outgoing command, and with what the bulb reports, including
/// changes made by other apps or by the physical button.
#[derive(Debug)]
pub struct LightState {
    /// `true` = on, `false` = off.
    pub power: Option<bool>,
    /// Brightness percentage 1-100.
    pub brightness: Option<u8>,
    /// Color temperature in Kelvin (1700-6500). Valid when `color_mode` is `ColorTemp`.
    pub ct: Option<u16>,
    /// RGB value 0-16777215. Valid when `color_mode` is `Rgb`.
    pub rgb: Option<u32>,
    /// Hue 0-359. Valid when `color_mode` is `Hsv`.
    pub hue: Option<u16>,
    /// Saturation 0-100. Valid when `color_mode` is `Hsv`.
    pub sat: Option<u8>,
    pub color_mode: Option<ColorMode>,
    /// A color flow is currently running.
    pub flowing: Option<bool>,
    /// Music mode is active (no rate limiting, no property reports).
    pub music_on: Option<bool>,
    /// Name stored on the device.
    pub name: Option<String>,
}

/// A state, as contracts speak of it.
#[verifier::ext_equal]
pub struct LightStateView {
    pub power: Option<bool>,
    pub brightness: Option<u8>,
    pub ct: Option<u16>,
    pub rgb: Option<u32>,
    pub hue: Option<u16>,
    pub sat: Option<u8>,
    pub color_mode: Option<ColorMode>,
    pub flowing: Option<bool>,
    pub music_on: Option<bool>,
    pub name: Option<Seq<char>>,
}

impl View for LightState {
    type V = LightStateView;

    open spec fn view(&self) -> LightStateView {
        LightStateView {
            power: self.power,
            brightness: self.brightness,
            ct: self.ct,
            rgb: self.rgb,
            hue: self.hue,
            sat: self.sat,
            color_mode: self.color_mode,
            flowing: self.flowing,
            music_on: self.music_on,
            name: match self.name {
                Some(name) => Some(name@),
                None => None,
            },
        }
    }
}

/// Property values by name. A value is `None` where the bulb reports something that is no text.
pub type Props = Map<Seq<char>, Option<Seq<char>>>;

/// The names of the properties that make up a state.
pub open spec fn prop_names() -> Seq<Seq<char>> {
    seq![
        "power"@,
        "bright"@,
        "ct"@,
        "rgb"@,
        "hue"@,
        "sat"@,
        "color_mode"@,
        "flowing"@,
        "music_on"@,
        "name"@,
    ]
}

/// What `props` says of the property `key`, if it mentions it. A value that is no text counts
/// as the empty text.
pub open spec fn prop(props: Props, key: Seq<char>) -> Option<Seq<char>> {
    match lookup(props, key) {
        Some(Some(text)) => Some(text),
        Some(None) => Some(Seq::empty()),
        None => None,
    }
}

impl LightStateView {
    /// The state of which nothing is known.
    pub open spec fn unknown() -> LightStateView {
        LightStateView {
            power: None,
            brightness: None,
            ct: None,
            rgb: None,
            hue: None,
            sat: None,
            color_mode: None,
            flowing: None,
            music_on: None,
            name: None,
        }
    }

    /// The state after a report: each property that `props` mentions takes the value that is
    /// read from its text, which is unknown where the text cannot be read or the value is out of
    /// its range, and every other property keeps its value.
    pub open spec fn reported(self, props: Props) -> LightStateView {
        LightStateView {
            power: flag_after(props, "power"@, "on"@, self.power),
            brightness: match number_after(props, "bright"@, 1, 100) {
                Some(Some(n)) => Some(n as u8),
                Some(None) => None,
                None => self.brightness,
            },
            ct: match number_after(props, "ct"@, 1700, 6500) {
                Some(Some(n)) => Some(n as u16),
                Some(None) => None,
                None => self.ct,
            },
            rgb: match number_after(props, "rgb"@, 0, 0xff_ffff) {
                Some(Some(n)) => Some(n as u32),
                Some(None) => None,
                None => self.rgb,
            },
            hue: match number_after(props, "hue"@, 0, 359) {
                Some(Some(n)) => Some(n as u16),
                Some(None) => None,
                None => self.hue,
            },
            sat: match number_after(props, "sat"@, 0, 100) {
                Some(Some(n)) => Some(n as u8),
                Some(None) => None,
                None => self.sat,
            },
            color_mode: match number_after(props, "color_mode"@, 1, 3) {
                Some(Some(n)) => ColorMode::with_number(n),
                Some(None) => None,
                None => self.color_mode,
            },
            flowing: flag_after(props, "flowing"@, "1"@, self.flowing),
            music_on: flag_after(props, "music_on"@, "1"@, self.music_on),
            name: match prop(props, "name"@) {
                Some(name) => Some(name),
                None => self.name,
            },
        }
    }
}

/// A property that is set exactly when its text is `set`, after a report.
pub open spec fn flag_after(
    props: Props,
    key: Seq<char>,
    set: Seq<char>,
    current: Option<bool>,
) -> Option<bool> {
    match prop(props, key) {
        Some(text) => Some(text == set),
        None => current,
    }
}

/// What a report says of a property that is a number from `min` to `max`: `None` where it does
/// not mention it, and `Some(None)` where the text is no such number.
pub open spec fn number_after(props: Props, key: Seq<char>, min: int, max: int) -> Option<
    Option<int>,
> {
    match prop(props, key) {
        Some(text) => match unsigned_value(text, max) {
            Some(n) => if min <= n {
                Some(Some(n))
            } else {
                Some(None)
            },
            None => Some(None),
        },
        None => None,
    }
}

/// The properties that a list reports.
pub open spec fn props_view(props: Seq<(String, Option<String>)>) -> Props {
    entry_map(props_entries(props))
}

/// The entries of a list of properties.
pub open spec fn props_entries(props: Seq<(String, Option<String>)>) -> Seq<
    (Seq<char>, Option<Seq<char>>),
> {
    props.map_values(
        |entry: (String, Option<String>)|
            (
                entry.0@,
                match entry.1 {
                    Some(text) => Some(text@),
                    None => None,
                },
            ),
    )
}

/// The text that `props` gives for the property `key`, if it mentions it.
fn prop_text<'a>(props: &'a Vec<(String, Option<String>)>, key: &str) -> (r: Option<&'a str>)
    ensures
        match r {
            Some(text) => prop(props_view(props@), key@) == Some(text@),
            None => prop(props_view(props@), key@) is None,
        },
{
    match find_last(props, key) {
        Some(i) => {
            proof {
                lemma_last_at(props_entries(props@), key@, i as int);
            }
            match &props[i].1 {
                Some(text) => Some(text.as_str()),
                None => {
                    proof {
                        reveal_strlit("");
                        assert(""@ =~= Seq::<char>::empty());
                    }
                    Some("")
                },
            }
        },
        None => {
            proof {
                lemma_no_value(props_entries(props@), key@);
            }
            None
        },
    }
}

/// A property that is set exactly when its text is `set`, after a report.
fn flag(
    props: &Vec<(String, Option<String>)>,
    key: &str,
    set: &str,
    current: Option<bool>,
) -> (r: Option<bool>)
    ensures
        r == flag_after(props_view(props@), key@, set@, current),
{
    match prop_text(props, key) {
        Some(text) => Some(same_text(text, set)),
        None => current,
    }
}

/// What a report says of a property that is a number from `min` to `max`.
fn number(props: &Vec<(String, Option<String>)>, key: &str, min: u32, max: u32) -> (r: Option<
    Option<u32>,
>)
    ensures
        number_after(props_view(props@), key@, min as int, max as int) == match r {
            Some(Some(n)) => Some(Some(n as int)),
            Some(None) => Some(None),
            None => None,
        },
        r matches Some(Some(n)) ==> min <= n <= max,
{
    match prop_text(props, key) {
        Some(text) => match parse_unsigned(text, max) {
            Some(n) => if min <= n {
                Some(Some(n))
            } else {
                Some(None)
            },
            None => Some(None),
        },
        None => None,
    }
}

impl LightState {
    /// Merges a set of property values into this state, those of a `get_prop` answer or those
    /// of a `props` notification. Properties that are not known here are passed over.
    pub fn apply_props(&mut self, props: &Vec<(String, Option<String>)>)
        ensures
            final(self)@ == old(self)@.reported(props_view(props@)),
            follows_report(old(self)@, final(self)@, props_view(props@)),
    {
        proof {
            lemma_report_reads(self@, props_view(props@));
        }
        self.power = flag(props, "power", "on", self.power);
        self.brightness = match number(props, "bright", 1, 100) {
            Some(Some(n)) => Some(n as u8),
            Some(None) => None,
            None => self.brightness,
        };
        self.ct = match number(props, "ct", 1700, 6500) {
            Some(Some(n)) => Some(n as u16),
            Some(None) => None,
            None => self.ct,
        };
        self.rgb = match number(props, "rgb", 0, 0xff_ffff) {
            Some(n) => n,
            None => self.rgb,
        };
        self.hue = match number(props, "hue", 0, 359) {
            Some(Some(n)) => Some(n as u16),
            Some(None) => None,
            None => self.hue,
        };
        self.sat = match number(props, "sat", 0, 100) {
            Some(Some(n)) => Some(n as u8),
            Some(None) => None,
            None => self.sat,
        };
        self.color_mode = match number(props, "color_mode", 1, 3) {
            Some(Some(n)) => ColorMode::try_from(n as u8).ok(),
            Some(None) => None,
            None => self.color_mode,
        };
        self.flowing = flag(props, "flowing", "1", self.flowing);
        self.music_on = flag(props, "music_on", "1", self.music_on);
        if let Some(name) = prop_text(props, "name") {
            self.name = Some(name.to_owned());
        }
    }
}

impl Default for LightState {
    fn default() -> (r: Self)
        ensures
            r@ == LightStateView::unknown(),
    {
        LightState {
            power: None,
            brightness: None,
            ct: None,
            rgb: None,
            hue: None,
            sat: None,
            color_mode: None,
            flowing: None,
            music_on: None,
            name: None,
        }
    }
}

impl Clone for LightState {
    fn clone(&self) -> (r: Self)
        ensures
            r@ == self@,
    {
        LightState {
            power: self.power,
            brightness: self.brightness,
            ct: self.ct,
            rgb: self.rgb,
            hue: self.hue,
            sat: self.sat,
            color_mode: self.color_mode,
            flowing: self.flowing,
            music_on: self.music_on,
            name: match &self.name {
                Some(name) => Some(name.clone()),
                None => None,
            },
        }
    }
}

/// What becomes of the state once the bulb has been sent a command.
#[derive(Debug)]
pub enum StateUpdate {
    /// No new value is known: the command is about nothing that the state holds, or the bulb
    /// alone knows by how much a value changes.
    Nothing,
    TogglePower,
    Power(bool),
    /// On, and in this mode.
    OnInMode(ColorMode),
    /// On, with a color flow running.
    OnFlowing,
    /// On, at this brightness.
    OnAt(u8),
    Brightness(u8),
    Ct(u16),
    Rgb(u32),
    Hsv(u16, u8),
    /// On, with this color temperature and brightness.
    SceneCt(u16, u8),
    /// On, with this color and brightness.
    SceneColor(u32, u8),
    /// On, with this hue, saturation and brightness.
    SceneHsv(u16, u8, u8),
    Flowing(bool),
    Music(bool),
    Name(String),
}

/// An update, as contracts speak of it.
pub enum StateUpdateView {
    Nothing,
    TogglePower,
    Power(bool),
    /// On, and in this mode.
    OnInMode(ColorMode),
    /// On, with a color flow running.
    OnFlowing,
    /// On, at this brightness.
    OnAt(u8),
    Brightness(u8),
    Ct(u16),
    Rgb(u32),
    Hsv(u16, u8),
    /// On, with this color temperature and brightness.
    SceneCt(u16, u8),
    /// On, with this color and brightness.
    SceneColor(u32, u8),
    /// On, with this hue, saturation and brightness.
    SceneHsv(u16, u8, u8),
    Flowing(bool),
    Music(bool),
    Name(Seq<char>),
}

impl View for StateUpdate {
    type V = StateUpdateView;

    open spec fn view(&self) -> StateUpdateView {
        match self {
            StateUpdate::Nothing => StateUpdateView::Nothing,
            StateUpdate::TogglePower => StateUpdateView::TogglePower,
            StateUpdate::Power(on) => StateUpdateView::Power(*on),
            StateUpdate::OnInMode(mode) => StateUpdateView::OnInMode(*mode),
            StateUpdate::OnFlowing => StateUpdateView::OnFlowing,
            StateUpdate::OnAt(n) => StateUpdateView::OnAt(*n),
            StateUpdate::Brightness(n) => StateUpdateView::Brightness(*n),
            StateUpdate::Ct(n) => StateUpdateView::Ct(*n),
            StateUpdate::Rgb(n) => StateUpdateView::Rgb(*n),
            StateUpdate::Hsv(hue, sat) => StateUpdateView::Hsv(*hue, *sat),
            StateUpdate::SceneCt(ct, n) => StateUpdateView::SceneCt(*ct, *n),
            StateUpdate::SceneColor(rgb, n) => StateUpdateView::SceneColor(*rgb, *n),
            StateUpdate::SceneHsv(hue, sat, n) => StateUpdateView::SceneHsv(*hue, *sat, *n),
            StateUpdate::Flowing(flowing) => StateUpdateView::Flowing(*flowing),
            StateUpdate::Music(on) => StateUpdateView::Music(*on),
            StateUpdate::Name(name) => StateUpdateView::Name(name@),
        }
    }
}

impl StateUpdateView {
    /// The values that are set lie in the ranges that the protocol gives them.
    pub open spec fn in_range(self) -> bool {
        match self {
            StateUpdateView::OnAt(n) => 1 <= n <= 100,
            StateUpdateView::Brightness(n) => 1 <= n <= 100,
            StateUpdateView::Ct(n) => 1700 <= n <= 6500,
            StateUpdateView::Rgb(n) => n <= 0xff_ffff,
            StateUpdateView::Hsv(hue, sat) => hue <= 359 && sat <= 100,
            StateUpdateView::SceneCt(ct, n) => 1700 <= ct <= 6500 && 1 <= n <= 100,
            StateUpdateView::SceneColor(rgb, n) => rgb <= 0xff_ffff && 1 <= n <= 100,
            StateUpdateView::SceneHsv(hue, sat, n) => hue <= 359 && sat <= 100 && 1 <= n <= 100,
            _ => true,
        }
    }
}

impl LightStateView {
    /// The state after an update. Power that is not known toggles as if it were off.
    pub open spec fn updated(self, update: StateUpdateView) -> LightStateView {
        match update {
            StateUpdateView::Nothing => self,
            StateUpdateView::TogglePower => LightStateView {
                power: Some(self.power != Some(true)),
                ..self
            },
            StateUpdateView::Power(on) => LightStateView { power: Some(on), ..self },
            StateUpdateView::OnInMode(mode) => LightStateView {
                power: Some(true),
                color_mode: Some(mode),
                ..self
            },
            StateUpdateView::OnFlowing => LightStateView {
                power: Some(true),
                flowing: Some(true),
                ..self
            },
            StateUpdateView::OnAt(n) => LightStateView {
                power: Some(true),
                brightness: Some(n),
                ..self
            },
            StateUpdateView::Brightness(n) => LightStateView { brightness: Some(n), ..self },
            StateUpdateView::Ct(n) => LightStateView {
                ct: Some(n),
                color_mode: Some(ColorMode::ColorTemp),
                ..self
            },
            StateUpdateView::Rgb(n) => LightStateView {
                rgb: Some(n),
                color_mode: Some(ColorMode::Rgb),
                ..self
            },
            StateUpdateView::Hsv(hue, sat) => LightStateView {
                hue: Some(hue),
                sat: Some(sat),
                color_mode: Some(ColorMode::Hsv),
                ..self
            },
            StateUpdateView::SceneCt(ct, n) => LightStateView {
                power: Some(true),
                brightness: Some(n),
                ct: Some(ct),
                color_mode: Some(ColorMode::ColorTemp),
                ..self
            },
            StateUpdateView::SceneColor(rgb, n) => LightStateView {
                power: Some(true),
                brightness: Some(n),
                rgb: Some(rgb),
                color_mode: Some(ColorMode::Rgb),
                ..self
            },
            StateUpdateView::SceneHsv(hue, sat, n) => LightStateView {
                power: Some(true),
                brightness: Some(n),
                hue: Some(hue),
                sat: Some(sat),
                color_mode: Some(ColorMode::Hsv),
                ..self
            },
            StateUpdateView::Flowing(flowing) => LightStateView { flowing: Some(flowing), ..self },
            StateUpdateView::Music(on) => LightStateView { music_on: Some(on), ..self },
            StateUpdateView::Name(name) => LightStateView { name: Some(name), ..self },
        }
    }

    /// The values that are known lie in the ranges that the protocol gives them.
    pub open spec fn in_range(self) -> bool {
        &&& self.brightness matches Some(n) ==> 1 <= n <= 100
        &&& self.ct matches Some(n) ==> 1700 <= n <= 6500
        &&& self.rgb matches Some(n) ==> n <= 0xff_ffff
        &&& self.hue matches Some(n) ==> n <= 359
        &&& self.sat matches Some(n) ==> n <= 100
    }
}

impl LightState {
    /// Brings the state up to date with a command that the bulb has been sent.
    pub fn apply_update(&mut self, update: StateUpdate)
        ensures
            final(self)@ == old(self)@.updated(update@),
    {
        match update {
            StateUpdate::Nothing => {},
            StateUpdate::TogglePower => {
                self.power = Some(!self.power.unwrap_or(false));
            },
            StateUpdate::Power(on) => {
                self.power = Some(on);
            },
            StateUpdate::OnInMode(mode) => {
                self.power = Some(true);
                self.color_mode = Some(mode);
            },
            StateUpdate::OnFlowing => {
                self.power = Some(true);
                self.flowing = Some(true);
            },
            StateUpdate::OnAt(n) => {
                self.power = Some(true);
                self.brightness = Some(n);
            },
            StateUpdate::Brightness(n) => {
                self.brightness = Some(n);
            },
            StateUpdate::Ct(n) => {
                self.ct = Some(n);
                self.color_mode = Some(ColorMode::ColorTemp);
            },
            StateUpdate::Rgb(n) => {
                self.rgb = Some(n);
                self.color_mode = Some(ColorMode::Rgb);
            },
            StateUpdate::Hsv(hue, sat) => {
                self.hue = Some(hue);
                self.sat = Some(sat);
                self.color_mode = Some(ColorMode::Hsv);
            },
            StateUpdate::SceneCt(ct, n) => {
                self.power = Some(true);
                self.brightness = Some(n);
                self.ct = Some(ct);
                self.color_mode = Some(ColorMode::ColorTemp);
            },
            StateUpdate::SceneColor(rgb, n) => {
                self.power = Some(true);
                self.brightness = Some(n);
                self.rgb = Some(rgb);
                self.color_mode = Some(ColorMode::Rgb);
            },
            StateUpdate::SceneHsv(hue, sat, n) => {
                self.power = Some(true);
                self.brightness = Some(n);
                self.hue = Some(hue);
                self.sat = Some(sat);
                self.color_mode = Some(ColorMode::Hsv);
            },
            StateUpdate::Flowing(flowing) => {
                self.flowing = Some(flowing);
            },
            StateUpdate::Music(on) => {
                self.music_on = Some(on);
            },
            StateUpdate::Name(name) => {
                self.name = Some(name);
            },
        }
    }
}

/// The numbers of the color modes tell them apart, and they are the only numbers that name one.
pub proof fn lemma_color_mode_numbers(mode: ColorMode, v: int)
    ensures
        ColorMode::with_number(mode.number() as int) == Some(mode),
        ColorMode::with_number(v) == Some(mode) <==> v == mode.number(),
{
}

/// Toggling twice gives back a power state that was known.
pub proof fn lemma_toggle_twice(state: LightStateView)
    requires
        state.power is Some,
    ensures
        state.updated(StateUpdateView::TogglePower).updated(StateUpdateView::TogglePower) == state,
{
}

/// A state whose values lie in their ranges stays so, whatever commands are sent.
pub proof fn lemma_update_keeps_range(state: LightStateView, update: StateUpdateView)
    requires
        state.in_range(),
        update.in_range(),
    ensures
        state.updated(update).in_range(),
{
}

/// A state whose values lie in their ranges stays so, whatever the bulb reports.
pub proof fn lemma_report_keeps_range(state: LightStateView, props: Props)
    requires
        state.in_range(),
    ensures
        state.reported(props).in_range(),
{
}

/// The order in which a report mentions properties does not matter, unless it mentions one of
/// those that make up a state twice.
pub proof fn lemma_report_order(
    state: LightStateView,
    a: Seq<(Seq<char>, Option<Seq<char>>)>,
    b: Seq<(Seq<char>, Option<Seq<char>>)>,
)
    requires
        forall|k: int|
            0 <= k < prop_names().len() ==> at_most_once(a, #[trigger] prop_names()[k]),
        a.to_multiset() == b.to_multiset(),
    ensures
        state.reported(entry_map(a)) == state.reported(entry_map(b)),
{
    let names = prop_names();
    assert forall|k: int| 0 <= k < names.len() implies prop(entry_map(a), #[trigger] names[k])
        == prop(entry_map(b), names[k]) by {
        lemma_order_is_free(a, b, names[k]);
    }
    assert(names[0] == "power"@ && names[1] == "bright"@ && names[2] == "ct"@ && names[3] == "rgb"@
        && names[4] == "hue"@ && names[5] == "sat"@ && names[6] == "color_mode"@ && names[7]
        == "flowing"@ && names[8] == "music_on"@ && names[9] == "name"@);
}

/// A report that comes twice changes nothing the second time.
pub proof fn lemma_report_twice(state: LightStateView, props: Props)
    ensures
        state.reported(props).reported(props) == state.reported(props),
{
}

/// Where two reports mention the same property, the later one counts: reporting one after the
/// other is reporting both at once, with the values of the later one preferred.
pub proof fn lemma_report_later_counts(state: LightStateView, first: Props, second: Props)
    ensures
        state.reported(first).reported(second) == state.reported(
            first.union_prefer_right(second),
        ),
{
}

/// One property with its value.
pub open spec fn one_prop(key: Seq<char>, value: Seq<char>) -> Props {
    Map::empty().insert(key, Some(value))
}

/// One property with a number for its value.
pub open spec fn number_prop(key: Seq<char>, n: int) -> Props {
    one_prop(key, decimal(n as nat))
}

/// The report of power.
pub open spec fn power_prop(on: bool) -> Props {
    one_prop(
        "power"@,
        if on {
            "on"@
        } else {
            "off"@
        },
    )
}

/// The report of the color mode.
pub open spec fn mode_prop(mode: ColorMode) -> Props {
    number_prop("color_mode"@, mode.number() as int)
}

/// The report of a property that is set or not.
pub open spec fn flag_prop(key: Seq<char>, set: bool) -> Props {
    one_prop(
        key,
        if set {
            "1"@
        } else {
            "0"@
        },
    )
}

/// The report of a bulb that is on, at a brightness.
pub open spec fn on_at_props(n: u8) -> Props {
    power_prop(true).union_prefer_right(number_prop("bright"@, n as int))
}

/// The report of a color temperature, which is then the color mode.
pub open spec fn ct_props(ct: u16) -> Props {
    number_prop("ct"@, ct as int).union_prefer_right(mode_prop(ColorMode::ColorTemp))
}

/// The report of an RGB color, which is then the color mode.
pub open spec fn rgb_props(rgb: u32) -> Props {
    number_prop("rgb"@, rgb as int).union_prefer_right(mode_prop(ColorMode::Rgb))
}

/// The report of an HSV color, which is then the color mode.
pub open spec fn hsv_props(hue: u16, sat: u8) -> Props {
    number_prop("hue"@, hue as int).union_prefer_right(
        number_prop("sat"@, sat as int),
    ).union_prefer_right(mode_prop(ColorMode::Hsv))
}

/// The report that a bulb in state `state` gives of an update: the properties that get a known
/// value, with these values.
pub open spec fn report_of(state: LightStateView, update: StateUpdateView) -> Props {
    match update {
        StateUpdateView::Nothing => Map::empty(),
        StateUpdateView::TogglePower => power_prop(state.power != Some(true)),
        StateUpdateView::Power(on) => power_prop(on),
        StateUpdateView::OnInMode(mode) => power_prop(true).union_prefer_right(mode_prop(mode)),
        StateUpdateView::OnFlowing => power_prop(true).union_prefer_right(
            flag_prop("flowing"@, true),
        ),
        StateUpdateView::OnAt(n) => on_at_props(n),
        StateUpdateView::Brightness(n) => number_prop("bright"@, n as int),
        StateUpdateView::Ct(ct) => ct_props(ct),
        StateUpdateView::Rgb(rgb) => rgb_props(rgb),
        StateUpdateView::Hsv(hue, sat) => hsv_props(hue, sat),
        StateUpdateView::SceneCt(ct, n) => on_at_props(n).union_prefer_right(ct_props(ct)),
        StateUpdateView::SceneColor(rgb, n) => on_at_props(n).union_prefer_right(rgb_props(rgb)),
        StateUpdateView::SceneHsv(hue, sat, n) => on_at_props(n).union_prefer_right(
            hsv_props(hue, sat),
        ),
        StateUpdateView::Flowing(flowing) => flag_prop("flowing"@, flowing),
        StateUpdateView::Music(on) => flag_prop("music_on"@, on),
        StateUpdateView::Name(name) => one_prop("name"@, name),
    }
}

/// The names of the properties differ, and so do the words for their values.
pub(crate) proof fn lemma_prop_names()
    ensures
        prop_names().no_duplicates(),
        "on"@ != "off"@,
        "0"@ != "1"@,
{
    reveal_strlit("power");
    reveal_strlit("bright");
    reveal_strlit("ct");
    reveal_strlit("rgb");
    reveal_strlit("hue");
    reveal_strlit("sat");
    reveal_strlit("color_mode");
    reveal_strlit("flowing");
    reveal_strlit("music_on");
    reveal_strlit("name");
    reveal_strlit("on");
    reveal_strlit("off");
    assert("power"@.len() == 5 && "bright"@.len() == 6 && "ct"@.len() == 2);
    assert("rgb"@[0] == 'r' && "hue"@[0] == 'h' && "sat"@[0] == 's');
    assert("rgb"@.len() == 3 && "hue"@.len() == 3 && "sat"@.len() == 3);
    assert("color_mode"@.len() == 10 && "flowing"@.len() == 7);
    assert("music_on"@.len() == 8 && "name"@.len() == 4);
    reveal_strlit("0");
    reveal_strlit("1");
    assert("on"@.len() == 2 && "off"@.len() == 3);
    assert("0"@[0] == '0' && "1"@[0] == '1');
}

/// [`lemma_prop_names`], with the names spelled out.
proof fn lemma_prop_name_list()
    ensures
        forall|i: int, j: int|
            0 <= i < 10 && 0 <= j < 10 && i != j ==> #[trigger] prop_names()[i]
                != #[trigger] prop_names()[j],
        prop_names()[0] == "power"@,
        prop_names()[1] == "bright"@,
        prop_names()[2] == "ct"@,
        prop_names()[3] == "rgb"@,
        prop_names()[4] == "hue"@,
        prop_names()[5] == "sat"@,
        prop_names()[6] == "color_mode"@,
        prop_names()[7] == "flowing"@,
        prop_names()[8] == "music_on"@,
        prop_names()[9] == "name"@,
        "on"@ != "off"@,
        "0"@ != "1"@,
{
    lemma_prop_names();
}

/// [`lemma_update_is_as_reported`], for a scene with a color temperature.
proof fn lemma_ct_scene(state: LightStateView, ct: u16, n: u8)
    requires
        StateUpdateView::SceneCt(ct, n).in_range(),
    ensures
        state.reported(report_of(state, StateUpdateView::SceneCt(ct, n))) == state.updated(
            StateUpdateView::SceneCt(ct, n),
        ),
{
    lemma_prop_name_list();
    lemma_decimal_reads_back(n as nat, 100);
    lemma_decimal_reads_back(ct as nat, 6500);
    lemma_decimal_reads_back(2, 3);
}

/// [`lemma_update_is_as_reported`], for a scene with an RGB color.
proof fn lemma_color_scene(state: LightStateView, rgb: u32, n: u8)
    requires
        StateUpdateView::SceneColor(rgb, n).in_range(),
    ensures
        state.reported(report_of(state, StateUpdateView::SceneColor(rgb, n))) == state.updated(
            StateUpdateView::SceneColor(rgb, n),
        ),
{
    lemma_prop_name_list();
    lemma_decimal_reads_back(n as nat, 100);
    lemma_decimal_reads_back(rgb as nat, 0xff_ffff);
    lemma_decimal_reads_back(1, 3);
}

/// [`lemma_update_is_as_reported`], for a scene with an HSV color.
proof fn lemma_hsv_scene(state: LightStateView, hue: u16, sat: u8, n: u8)
    requires
        StateUpdateView::SceneHsv(hue, sat, n).in_range(),
    ensures
        state.reported(report_of(state, StateUpdateView::SceneHsv(hue, sat, n))) == state.updated(
            StateUpdateView::SceneHsv(hue, sat, n),
        ),
{
    lemma_prop_name_list();
    lemma_decimal_reads_back(n as nat, 100);
    lemma_decimal_reads_back(hue as nat, 359);
    lemma_decimal_reads_back(sat as nat, 100);
    lemma_decimal_reads_back(3, 3);
}

/// [`lemma_update_is_as_reported`], for updates that are no scenes.
proof fn lemma_simple_update(state: LightStateView, update: StateUpdateView)
    requires
        update.in_range(),
        !(update is SceneCt || update is SceneColor || update is SceneHsv),
    ensures
        state.reported(report_of(state, update)) == state.updated(update),
{
    lemma_prop_name_list();
    match update {
        StateUpdateView::OnInMode(mode) => {
            lemma_decimal_reads_back(mode.number() as nat, 3);
        },
        StateUpdateView::OnAt(n) => {
            lemma_decimal_reads_back(n as nat, 100);
        },
        StateUpdateView::Brightness(n) => {
            lemma_decimal_reads_back(n as nat, 100);
        },
        StateUpdateView::Ct(ct) => {
            lemma_decimal_reads_back(ct as nat, 6500);
            lemma_decimal_reads_back(2, 3);
        },
        StateUpdateView::Rgb(rgb) => {
            lemma_decimal_reads_back(rgb as nat, 0xff_ffff);
            lemma_decimal_reads_back(1, 3);
        },
        StateUpdateView::Hsv(hue, sat) => {
            lemma_decimal_reads_back(hue as nat, 359);
            lemma_decimal_reads_back(sat as nat, 100);
            lemma_decimal_reads_back(3, 3);
        },
        _ => {},
    }
}

/// The state that is assumed once a command is sent is the state that the bulb reports when it
/// has carried the command out.
pub proof fn lemma_update_is_as_reported(state: LightStateView, update: StateUpdateView)
    requires
        update.in_range(),
    ensures
        state.reported(report_of(state, update)) == state.updated(update),
{
    match update {
        StateUpdateView::SceneCt(ct, n) => lemma_ct_scene(state, ct, n),
        StateUpdateView::SceneColor(rgb, n) => lemma_color_scene(state, rgb, n),
        StateUpdateView::SceneHsv(hue, sat, n) => lemma_hsv_scene(state, hue, sat, n),
        _ => lemma_simple_update(state, update),
    }
}

/// `known` is the number from `min` to `max` that `text` writes; nothing is known exactly if it
/// writes none of these.
pub open spec fn tells_number(known: Option<int>, text: Seq<char>, min: int, max: int) -> bool {
    match known {
        Some(n) => min <= n <= max && writes_number(text, n as nat),
        None => forall|n: nat| min <= n <= max ==> !#[trigger] writes_number(text, n),
    }
}

/// A property that is a number from `min` to `max` goes from `before` to `after` with a report.
pub open spec fn number_follows(
    before: Option<int>,
    after: Option<int>,
    props: Props,
    key: Seq<char>,
    min: int,
    max: int,
) -> bool {
    if !props.contains_key(key) {
        after == before
    } else {
        match props[key] {
            Some(text) => tells_number(after, text, min, max),
            None => after is None,
        }
    }
}

/// A property that is set or not goes from `before` to `after` with a report.
pub open spec fn flag_follows(
    before: Option<bool>,
    after: Option<bool>,
    props: Props,
    key: Seq<char>,
    set: Seq<char>,
) -> bool {
    if !props.contains_key(key) {
        after == before
    } else {
        after == Some(props[key] == Some(set))
    }
}

/// A byte, as a number.
pub open spec fn byte_number(n: Option<u8>) -> Option<int> {
    match n {
        Some(n) => Some(n as int),
        None => None,
    }
}

/// Two bytes, as a number.
pub open spec fn short_number(n: Option<u16>) -> Option<int> {
    match n {
        Some(n) => Some(n as int),
        None => None,
    }
}

/// Four bytes, as a number.
pub open spec fn word_number(n: Option<u32>) -> Option<int> {
    match n {
        Some(n) => Some(n as int),
        None => None,
    }
}

/// A color mode, as its number.
pub open spec fn mode_number(mode: Option<ColorMode>) -> Option<int> {
    match mode {
        Some(ColorMode::Rgb) => Some(1),
        Some(ColorMode::ColorTemp) => Some(2),
        Some(ColorMode::Hsv) => Some(3),
        None => None,
    }
}

/// `after` is what `before` becomes with the report `props`: each property that is mentioned is
/// what its own text says, and each other one stays.
pub open spec fn follows_report(
    before: LightStateView,
    after: LightStateView,
    props: Props,
) -> bool {
    &&& flag_follows(before.power, after.power, props, "power"@, "on"@)
    &&& number_follows(
        byte_number(before.brightness),
        byte_number(after.brightness),
        props,
        "bright"@,
        1,
        100,
    )
    &&& number_follows(short_number(before.ct), short_number(after.ct), props, "ct"@, 1700, 6500)
    &&& number_follows(
        word_number(before.rgb),
        word_number(after.rgb),
        props,
        "rgb"@,
        0,
        16_777_215,
    )
    &&& number_follows(short_number(before.hue), short_number(after.hue), props, "hue"@, 0, 359)
    &&& number_follows(byte_number(before.sat), byte_number(after.sat), props, "sat"@, 0, 100)
    &&& number_follows(
        mode_number(before.color_mode),
        mode_number(after.color_mode),
        props,
        "color_mode"@,
        1,
        3,
    )
    &&& flag_follows(before.flowing, after.flowing, props, "flowing"@, "1"@)
    &&& flag_follows(before.music_on, after.music_on, props, "music_on"@, "1"@)
    &&& if !props.contains_key("name"@) {
        after.name == before.name
    } else {
        match props["name"@] {
            Some(text) => after.name == Some(text),
            None => after.name == Some(Seq::<char>::empty()),
        }
    }
}

/// What is read from a text is the number that it writes, if that lies in its range.
pub(crate) proof fn lemma_tells_number(text: Seq<char>, min: int, max: int)
    requires
        0 <= min,
    ensures
        tells_number(
            match unsigned_value(text, max) {
                Some(n) => if min <= n {
                    Some(n)
                } else {
                    None
                },
                None => None,
            },
            text,
            min,
            max,
        ),
{
    if let Some(n) = unsigned_value(text, max) {
        lemma_value_is_natural(text, max);
        lemma_number_text(text, max, n as nat);
    }
    assert forall|n: nat| min <= n <= max && #[trigger] writes_number(text, n) implies
        unsigned_value(text, max) == Some(n as int) by {
        lemma_number_text(text, max, n);
    }
}

/// A report sets each property that it mentions to what its own text says, whatever else it
/// mentions, and leaves each property that it does not mention.
pub proof fn lemma_report_reads(state: LightStateView, props: Props)
    ensures
        follows_report(state, state.reported(props), props),
{
    assert("on"@.len() == 2) by {
        reveal_strlit("on");
    }
    assert("1"@.len() == 1) by {
        reveal_strlit("1");
    }
    if props.contains_key("bright"@) && props["bright"@] is Some {
        lemma_tells_number(props["bright"@]->0, 1, 100);
    }
    if props.contains_key("ct"@) && props["ct"@] is Some {
        lemma_tells_number(props["ct"@]->0, 1700, 6500);
    }
    if props.contains_key("rgb"@) && props["rgb"@] is Some {
        lemma_tells_number(props["rgb"@]->0, 0, 16_777_215);
    }
    if props.contains_key("hue"@) && props["hue"@] is Some {
        lemma_tells_number(props["hue"@]->0, 0, 359);
    }
    if props.contains_key("sat"@) && props["sat"@] is Some {
        lemma_tells_number(props["sat"@]->0, 0, 100);
    }
    if props.contains_key("color_mode"@) && props["color_mode"@] is Some {
        lemma_tells_number(props["color_mode"@]->0, 1, 3);
    }
}

/// A report that follows from a state fixes the state after it: no two states do.
pub proof fn lemma_report_decides(
    before: LightStateView,
    a: LightStateView,
    b: LightStateView,
    props: Props,
)
    requires
        follows_report(before, a, props),
        follows_report(before, b, props),
    ensures
        a == b,
{
    lemma_same_number(
        byte_number(before.brightness),
        byte_number(a.brightness),
        byte_number(b.brightness),
        props,
        "bright"@,
        1,
        100,
    );
    lemma_same_number(
        short_number(before.ct),
        short_number(a.ct),
        short_number(b.ct),
        props,
        "ct"@,
        1700,
        6500,
    );
    lemma_same_number(
        word_number(before.rgb),
        word_number(a.rgb),
        word_number(b.rgb),
        props,
        "rgb"@,
        0,
        16_777_215,
    );
    lemma_same_number(
        short_number(before.hue),
        short_number(a.hue),
        short_number(b.hue),
        props,
        "hue"@,
        0,
        359,
    );
    lemma_same_number(
        byte_number(before.sat),
        byte_number(a.sat),
        byte_number(b.sat),
        props,
        "sat"@,
        0,
        100,
    );
    lemma_same_number(
        mode_number(before.color_mode),
        mode_number(a.color_mode),
        mode_number(b.color_mode),
        props,
        "color_mode"@,
        1,
        3,
    );
}

/// [`lemma_report_decides`], for one number.
proof fn lemma_same_number(
    before: Option<int>,
    a: Option<int>,
    b: Option<int>,
    props: Props,
    key: Seq<char>,
    min: int,
    max: int,
)
    requires
        0 <= min,
        number_follows(before, a, props, key, min, max),
        number_follows(before, b, props, key, min, max),
    ensures
        a == b,
{
    if props.contains_key(key) && props[key] is Some {
        let text = props[key]->0;
        match (a, b) {
            (Some(m), Some(n)) => lemma_number_is_one(text, m as nat, n as nat),
            (Some(m), None) => assert(writes_number(text, m as nat)),
            (None, Some(n)) => assert(writes_number(text, n as nat)),
            (None, None) => {},
        }
    }
}

/// What a command sets, field by field: each field is set by the updates that are about it, to
/// the value that they carry, and left by all others.
pub proof fn lemma_update_sets(state: LightStateView, update: StateUpdateView)
    ensures
        state.updated(update).power == match update {
            StateUpdateView::Power(on) => Some(on),
            StateUpdateView::TogglePower => match state.power {
                Some(on) => Some(!on),
                None => Some(true),
            },
            StateUpdateView::OnInMode(_) | StateUpdateView::OnFlowing | StateUpdateView::OnAt(
                _,
            ) => Some(true),
            StateUpdateView::SceneCt(..) | StateUpdateView::SceneColor(
                ..,
            ) | StateUpdateView::SceneHsv(..) => Some(true),
            _ => state.power,
        },
        state.updated(update).brightness == match update {
            StateUpdateView::Brightness(n) => Some(n),
            StateUpdateView::OnAt(n) => Some(n),
            StateUpdateView::SceneCt(_, n) => Some(n),
            StateUpdateView::SceneColor(_, n) => Some(n),
            StateUpdateView::SceneHsv(_, _, n) => Some(n),
            _ => state.brightness,
        },
        state.updated(update).ct == match update {
            StateUpdateView::Ct(n) => Some(n),
            StateUpdateView::SceneCt(n, _) => Some(n),
            _ => state.ct,
        },
        state.updated(update).rgb == match update {
            StateUpdateView::Rgb(n) => Some(n),
            StateUpdateView::SceneColor(n, _) => Some(n),
            _ => state.rgb,
        },
        state.updated(update).hue == match update {
            StateUpdateView::Hsv(n, _) => Some(n),
            StateUpdateView::SceneHsv(n, _, _) => Some(n),
            _ => state.hue,
        },
        state.updated(update).sat == match update {
            StateUpdateView::Hsv(_, n) => Some(n),
            StateUpdateView::SceneHsv(_, n, _) => Some(n),
            _ => state.sat,
        },
        state.updated(update).color_mode == match update {
            StateUpdateView::OnInMode(mode) => Some(mode),
            StateUpdateView::Ct(_) | StateUpdateView::SceneCt(..) => Some(ColorMode::ColorTemp),
            StateUpdateView::Rgb(_) | StateUpdateView::SceneColor(..) => Some(ColorMode::Rgb),
            StateUpdateView::Hsv(..) | StateUpdateView::SceneHsv(..) => Some(ColorMode::Hsv),
            _ => state.color_mode,
        },
        state.updated(update).flowing == match update {
            StateUpdateView::Flowing(flowing) => Some(flowing),
            StateUpdateView::OnFlowing => Some(true),
            _ => state.flowing,
        },
        state.updated(update).music_on == match update {
            StateUpdateView::Music(on) => Some(on),
            _ => state.music_on,
        },
        state.updated(update).name == match update {
            StateUpdateView::Name(name) => Some(name),
            _ => state.name,
        },
{
}

/// What the ranges are, for a state and for what a command sets.
pub proof fn lemma_ranges(state: LightStateView, update: StateUpdateView)
    requires
        state.in_range(),
        update.in_range(),
    ensures
        state.brightness matches Some(n) ==> 1 <= n <= 100,
        state.ct matches Some(n) ==> 1700 <= n <= 6500,
        state.rgb matches Some(n) ==> n <= 16_777_215,
        state.hue matches Some(n) ==> n <= 359,
        state.sat matches Some(n) ==> n <= 100,
        LightStateView::unknown().updated(update).in_range(),
{
}

/// The numbers that the protocol gives the color modes.
pub proof fn lemma_mode_numbers(mode: ColorMode)
    ensures
        Some(mode.number() as int) == mode_number(Some(mode)),
{
}

/// What contracts speak of is what the fields of a state hold.
pub proof fn lemma_state_fields(state: LightState)
    ensures
        state@.power == state.power,
        state@.brightness == state.brightness,
        state@.ct == state.ct,
        state@.rgb == state.rgb,
        state@.hue == state.hue,
        state@.sat == state.sat,
        state@.color_mode == state.color_mode,
        state@.flowing == state.flowing,
        state@.music_on == state.music_on,
        match state.name {
            Some(name) => state@.name == Some(name@),
            None => state@.name is None,
        },
{
}

/// The state of which nothing is known knows nothing.
pub proof fn lemma_unknown()
    ensures
        ({
            let state = LightStateView::unknown();
            &&& state.power is None && state.brightness is None && state.ct is None
            &&& state.rgb is None && state.hue is None && state.sat is None
            &&& state.color_mode is None && state.flowing is None && state.music_on is None
            &&& state.name is None
        }),
{
}

/// What contracts speak of is what an update holds.
pub proof fn lemma_update_fields(update: StateUpdate)
    ensures
        match update {
            StateUpdate::Nothing => update@ is Nothing,
            StateUpdate::TogglePower => update@ is TogglePower,
            StateUpdate::Power(on) => update@ == StateUpdateView::Power(on),
            StateUpdate::OnInMode(mode) => update@ == StateUpdateView::OnInMode(mode),
            StateUpdate::OnFlowing => update@ is OnFlowing,
            StateUpdate::OnAt(n) => update@ == StateUpdateView::OnAt(n),
            StateUpdate::Brightness(n) => update@ == StateUpdateView::Brightness(n),
            StateUpdate::Ct(ct) => update@ == StateUpdateView::Ct(ct),
            StateUpdate::Rgb(rgb) => update@ == StateUpdateView::Rgb(rgb),
            StateUpdate::Hsv(hue, sat) => update@ == StateUpdateView::Hsv(hue, sat),
            StateUpdate::SceneCt(ct, n) => update@ == StateUpdateView::SceneCt(ct, n),
            StateUpdate::SceneColor(rgb, n) => update@ == StateUpdateView::SceneColor(rgb, n),
            StateUpdate::SceneHsv(h, s, n) => update@ == StateUpdateView::SceneHsv(h, s, n),
            StateUpdate::Flowing(flowing) => update@ == StateUpdateView::Flowing(flowing),
            StateUpdate::Music(on) => update@ == StateUpdateView::Music(on),
            StateUpdate::Name(name) => update@ == StateUpdateView::Name(name@),
        },
{
}

/// The entries of a list of properties are its pairs, in order.
pub proof fn lemma_props_fields(props: Seq<(String, Option<String>)>, i: int)
    requires
        0 <= i < props.len(),
    ensures
        props_entries(props).len() == props.len(),
        props_entries(props)[i].0 == props[i].0@,
        match props[i].1 {
            Some(text) => props_entries(props)[i].1 == Some(text@),
            None => props_entries(props)[i].1 is None,
        },
        (forall|j: int| i < j < props.len() ==> (#[trigger] props[j]).0@ != props[i].0@)
            ==> props_view(props).contains_key(props[i].0@) && props_view(props)[props[i].0@]
            == props_entries(props)[i].1,
{
    if forall|j: int| i < j < props.len() ==> (#[trigger] props[j]).0@ != props[i].0@ {
        assert forall|j: int| i < j < props_entries(props).len() implies (
        #[trigger] props_entries(props)[j]).0 != props[i].0@ by {
            assert(props[j].0@ != props[i].0@);
        }
        lemma_last_at(props_entries(props), props[i].0@, i);
    }
}

} // verus!

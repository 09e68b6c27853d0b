//! The client of one bulb: its commands, and what it learns from the bulb.
use crate::command::{
    lemma_transition, AdjustAction, AdjustProp, Command, CommandView, PowerMode, Transition,
};
use crate::discovery::DeviceAddr;
use crate::entries::{entry_map, lemma_last_at, lemma_last_entry_counts, lemma_no_entry, lookup};
use crate::error::{Result, YeelightError};
use crate::json::{encoded_json, params_json, params_view, parsed_json, Json, Param, ParamView};
use crate::message::{Message, MessageView};
use crate::order::{answers, Order};
use crate::state::{
    byte_number, follows_report, lemma_prop_names, lemma_report_keeps_range, lemma_report_reads,
    mode_number, prop, prop_names, props_entries, props_view, short_number, tells_number,
    word_number, ColorMode, LightState, LightStateView, Props, StateUpdate, StateUpdateView,
};
use crate::text::{
    decimal, lemma_decimal_reads_back, opt_str_view, same_text, slices_view, strings_view,
};
use crate::wire::{
    command_json, lemma_line_reads_back, line_end, line_text, lines_after, on_one_line,
    write_command,
};
use vstd::prelude::*;
use vstd::utf8::encode_utf8;

verus! {

/// A client for a single Yeelight bulb.
///
/// It decides what is sent to the bulb and keeps the last known state of it. Sending and
/// receiving are left to the owner of the connection: each command is a [`Writing`] that the
/// owner carries out, and [`YeelightClient::written`] takes what came of it.
#[derive(Debug)]
pub struct YeelightClient {
    addr: DeviceAddr,
    state: LightState,
    cmd_id: u32,
}

/// A client, as contracts speak of it.
#[verifier::ext_equal]
pub struct ClientView {
    pub addr: DeviceAddr,
    pub state: LightStateView,
    /// The id that the next line gets.
    pub cmd_id: u32,
}

impl YeelightClient {
    /// The known values lie in the ranges that the protocol gives them.
    #[verifier::type_invariant]
    closed spec fn wf(self) -> bool {
        self.state@.in_range()
    }
}

impl View for YeelightClient {
    type V = ClientView;

    closed spec fn view(&self) -> ClientView {
        ClientView { addr: self.addr, state: self.state@, cmd_id: self.cmd_id }
    }
}

/// The id after `id`. Ids start again from 0 after the last one.
pub open spec fn id_after(id: u32) -> u32 {
    if id == u32::MAX {
        0
    } else {
        (id + 1) as u32
    }
}

impl ClientView {
    /// The client once it has given a line an id.
    pub open spec fn with_next_id(self) -> ClientView {
        ClientView { cmd_id: id_after(self.cmd_id), ..self }
    }

    /// The client once it has given `k` lines their ids.
    pub open spec fn after_lines(self, k: nat) -> ClientView
        decreases k,
    {
        if k == 0 {
            self
        } else {
            self.after_lines((k - 1) as nat).with_next_id()
        }
    }

    /// The client once it has been told whether the line of a command was written.
    pub open spec fn after_write(self, command: CommandView, written: bool) -> ClientView {
        if written {
            ClientView { state: self.state.updated(command.update), ..self }
        } else {
            self
        }
    }
}

/// A line that is to be written to the bulb.
#[derive(Debug)]
pub struct Writing {
    command: Command,
    line: String,
    first: bool,
}

/// A line that is to be written, as contracts speak of it.
pub struct WritingView {
    pub command: CommandView,
    pub line: Seq<char>,
    /// It is the first attempt at the command.
    pub first: bool,
}

impl View for Writing {
    type V = WritingView;

    closed spec fn view(&self) -> WritingView {
        WritingView { command: self.command@, line: self.line@, first: self.first }
    }
}

impl Writing {
    /// What the command sets lies in its range.
    #[verifier::type_invariant]
    closed spec fn wf(self) -> bool {
        self.command@.update.in_range()
    }

    /// The line, with its line end.
    pub fn line(&self) -> (r: &str)
        ensures
            r@ == self@.line,
    {
        self.line.as_str()
    }
}

/// A command that waits for the connection to be made anew.
#[derive(Debug)]
pub struct Reconnecting {
    command: Command,
}

impl View for Reconnecting {
    type V = CommandView;

    closed spec fn view(&self) -> CommandView {
        self.command@
    }
}

impl Reconnecting {
    /// What the command sets lies in its range.
    #[verifier::type_invariant]
    closed spec fn wf(self) -> bool {
        self.command@.update.in_range()
    }
}

/// What follows on writing a line.
pub enum Written {
    /// The command is done with.
    Done(Result<()>),
    /// Make the connection anew, and go on with [`YeelightClient::reconnected`].
    Reconnect(Reconnecting),
}

/// `line` carries the command `command` under the id `id`, and nothing else: it is one line,
/// and a document that says just this id, this method and these parameters.
pub open spec fn carries(line: Seq<char>, id: u32, command: CommandView) -> bool {
    let document = command_json(id, command.method, command.params);
    let text = encoded_json(document);
    &&& line == text + line_end()
    &&& on_one_line(text)
    &&& parsed_json(text) == Some(document)
}

/// A client in `before` has begun with `command`: the line that carries it, under the next id,
/// is to be written. Nothing else has changed, and what the command sets lies in its range.
pub open spec fn begun(
    before: ClientView,
    after: ClientView,
    r: Result<Writing>,
    command: CommandView,
) -> bool {
    &&& r matches Ok(writing) && {
        &&& writing@.command == command
        &&& writing@.first
        &&& carries(writing@.line, before.cmd_id, command)
    }
    &&& command.update.in_range()
    &&& after == before.with_next_id()
}

/// A client in `before` has refused a parameter, for the reason given. Nothing is to be
/// written, and nothing has changed.
pub open spec fn refused(
    before: ClientView,
    after: ClientView,
    r: Result<Writing>,
    reason: Seq<char>,
) -> bool {
    &&& r matches Err(e) && e.refuses(reason)
    &&& after == before
}

/// A command after which no new value of the state is known.
pub open spec fn plain(method: Seq<char>, params: Seq<ParamView>) -> CommandView {
    CommandView { method, params, update: StateUpdateView::Nothing }
}

/// The parameters of `set_power`.
pub open spec fn power_params(on: bool, transition: Transition, mode: Option<PowerMode>) -> Seq<
    ParamView,
> {
    let power = ParamView::Text(
        if on {
            "on"@
        } else {
            "off"@
        },
    );
    let params = seq![power] + transition_params(transition);
    match mode {
        Some(mode) => params.push(ParamView::Int(mode.number() as int)),
        None => params,
    }
}

/// What becomes of the state with `set_power`. The mode is the one to switch into when the power
/// goes on, and matters then alone.
pub open spec fn power_update(on: bool, mode: Option<PowerMode>) -> StateUpdateView {
    match mode {
        Some(mode) => if on {
            mode.on_update()
        } else {
            StateUpdateView::Power(false)
        },
        None => StateUpdateView::Power(on),
    }
}

/// The parameters that say how a change takes place.
pub open spec fn transition_params(transition: Transition) -> Seq<ParamView> {
    seq![
        ParamView::Text(transition.effect_word()),
        ParamView::Int(transition.duration_ms()),
    ]
}

/// The parameters of `set_music`, which has a host and a port if it starts music mode.
pub open spec fn music_params(enable: bool, host: Option<&str>, port: Option<u16>) -> Seq<
    ParamView,
> {
    if enable {
        seq![
            ParamView::Int(1),
            ParamView::Text(host->0@),
            ParamView::Int(port->0 as int),
        ]
    } else {
        seq![ParamView::Int(0)]
    }
}

/// Adds the parameters that say how a change takes place.
fn push_transition(params: &mut Vec<Param>, transition: Transition)
    ensures
        params_view(final(params)@) == params_view(old(params)@) + transition_params(transition),
{
    let ghost before = params@;
    params.push(Param::Text(transition.effect().to_owned()));
    params.push(Param::Int(transition.duration() as i64));
    assert(params_view(params@) =~= params_view(before) + transition_params(transition));
}

/// The parameters of the request for the properties of a bulb: all their names.
pub open spec fn name_params() -> Seq<ParamView> {
    prop_names().map_values(|name: Seq<char>| ParamView::Text(name))
}

/// The properties that the results of the request for them report: the first result is that of
/// the first name, and so on as far as both go.
pub open spec fn results_props(results: Seq<Seq<char>>) -> Seq<(Seq<char>, Option<Seq<char>>)> {
    Seq::new(
        if results.len() < prop_names().len() {
            results.len()
        } else {
            prop_names().len()
        },
        |i: int| (prop_names()[i], Some(results[i])),
    )
}

impl MessageView {
    /// The state that an answer to the request for the properties reports. An answer without
    /// results, such as an error, reports nothing.
    pub open spec fn initial_state(self) -> LightStateView {
        match self.result {
            Some(results) => LightStateView::unknown().reported(entry_map(results_props(results))),
            None => LightStateView::unknown(),
        }
    }
}

impl LightStateView {
    /// Nothing of the state is unknown.
    pub open spec fn is_known(self) -> bool {
        &&& self.power is Some
        &&& self.brightness is Some
        &&& self.ct is Some
        &&& self.rgb is Some
        &&& self.hue is Some
        &&& self.sat is Some
        &&& self.color_mode is Some
        &&& self.flowing is Some
        &&& self.music_on is Some
        &&& self.name is Some
    }

    /// The results with which a bulb reports this state, if nothing of it is unknown.
    pub open spec fn results(self) -> Seq<Seq<char>> {
        seq![
            if self.power == Some(true) { "on"@ } else { "off"@ },
            decimal(self.brightness->0 as nat),
            decimal(self.ct->0 as nat),
            decimal(self.rgb->0 as nat),
            decimal(self.hue->0 as nat),
            decimal(self.sat->0 as nat),
            decimal(self.color_mode->0.number() as nat),
            if self.flowing == Some(true) { "1"@ } else { "0"@ },
            if self.music_on == Some(true) { "1"@ } else { "0"@ },
            self.name->0,
        ]
    }

    /// The state after a message: a `props` notification reports properties, and any other
    /// message changes nothing.
    pub open spec fn notified(self, message: MessageView) -> LightStateView {
        match (message.method, message.params) {
            (Some(method), Some(props)) => if method == "props"@ {
                self.reported(props)
            } else {
                self
            },
            _ => self,
        }
    }
}

/// The names of the properties, in the order in which they are asked for.
fn init_props() -> (r: Vec<&'static str>)
    ensures
        slices_view(r@) == prop_names(),
{
    let names = vec![
        "power",
        "bright",
        "ct",
        "rgb",
        "hue",
        "sat",
        "color_mode",
        "flowing",
        "music_on",
        "name",
    ];
    assert(slices_view(names@) =~= prop_names());
    names
}

/// The state that an answer to the request for the properties reports.
pub fn initial_state(answer: &Message) -> (r: LightState)
    ensures
        r@ == answer@.initial_state(),
{
    let mut state = LightState::default();
    let results = match &answer.result {
        Some(results) => results,
        None => return state,
    };
    let names = init_props();
    let ghost expected = results_props(strings_view(results@));
    let mut props: Vec<(String, Option<String>)> = Vec::new();
    let mut i: usize = 0;
    while i < names.len() && i < results.len()
        invariant
            i <= names@.len(),
            i <= results@.len(),
            slices_view(names@) == prop_names(),
            expected == results_props(strings_view(results@)),
            props_entries(props@) == expected.take(i as int),
        decreases names.len() - i,
    {
        let ghost before = props@;
        props.push((names[i].to_owned(), Some(results[i].clone())));
        proof {
            assert(slices_view(names@)[i as int] == names@[i as int]@);
            assert(props_entries(props@) =~= props_entries(before).push(expected[i as int]));
            assert(expected.take(i + 1) =~= expected.take(i as int).push(expected[i as int]));
        }
        i = i + 1;
    }
    assert(slices_view(names@).len() == names@.len());
    assert(expected.take(i as int) =~= expected);
    state.apply_props(&props);
    state
}

impl YeelightClient {
    /// The address to connect to, which is the first one that a name resolves to.
    pub fn resolve(first: Option<DeviceAddr>) -> (r: Result<DeviceAddr>)
        ensures
            match first {
                Some(addr) => r == Ok::<DeviceAddr, YeelightError>(addr),
                None => r matches Err(e) && e.refuses("could not resolve address"@),
            },
    {
        match first {
            Some(addr) => Ok(addr),
            None => Err(YeelightError::InvalidParam("could not resolve address")),
        }
    }

    /// The line that asks a bulb for its properties. It is the first line of a connection, and
    /// has the id 1.
    pub fn init_request() -> (r: Result<String>)
        ensures
            r matches Ok(line) && carries(line@, 1, plain("get_prop"@, name_params())),
    {
        let names = init_props();
        let mut params: Vec<Param> = Vec::new();
        for i in 0..names.len()
            invariant
                slices_view(names@) == prop_names(),
                params_view(params@) == name_params().take(i as int),
        {
            let ghost before = params@;
            params.push(Param::Text(names[i].to_owned()));
            proof {
                assert(slices_view(names@)[i as int] == names@[i as int]@);
                assert(params_view(params@) =~= params_view(before).push(name_params()[i as int]));
                assert(name_params().take(i + 1) =~= name_params().take(i as int).push(
                    name_params()[i as int],
                ));
            }
        }
        assert(slices_view(names@).len() == names@.len());
        assert(name_params().take(names@.len() as int) =~= name_params());
        match write_command(1, "get_prop", &params) {
            Ok(line) => Ok(line),
            Err(e) => Err(YeelightError::Json(e)),
        }
    }

    /// The state that a bulb reports in answer to [`YeelightClient::init_request`].
    pub fn fetch_state_sync(line: &str) -> (r: Result<LightState>)
        ensures
            match parsed_json(line@) {
                Some(json) => r matches Ok(state) && state@ == json.message().initial_state(),
                None => r matches Err(e) && e matches YeelightError::Protocol(text) && text@
                    == "bad get_prop response: "@ + line@,
            },
    {
        match Message::parse(line) {
            Ok(answer) => Ok(initial_state(&answer)),
            Err(_) => Err(
                YeelightError::Protocol("bad get_prop response: ".to_owned().concat(line)),
            ),
        }
    }

    /// The client of the bulb at `addr`, which has answered `line` to
    /// [`YeelightClient::init_request`]. Its state is known as far as the answer reports it, and
    /// its commands have ids from 2 on.
    pub fn connect(addr: DeviceAddr, line: &str) -> (r: Result<YeelightClient>)
        ensures
            match parsed_json(line@) {
                Some(json) => r matches Ok(client) && client@ == (ClientView {
                    addr,
                    state: json.message().initial_state(),
                    cmd_id: 2,
                }),
                None => r matches Err(e) && e matches YeelightError::Protocol(text) && text@
                    == "bad get_prop response: "@ + line@,
            },
    {
        match YeelightClient::fetch_state_sync(line) {
            Ok(state) => {
                proof {
                    lemma_initial_state_in_range(parsed_json(line@)->0.message());
                }
                Ok(YeelightClient { addr, state, cmd_id: 2 })
            },
            Err(e) => Err(e),
        }
    }

    /// The address of the bulb.
    pub fn addr(&self) -> (r: DeviceAddr)
        ensures
            r == self@.addr,
    {
        self.addr
    }

    /// Snapshot of the last known bulb state.
    pub fn state(&self) -> (r: LightState)
        ensures
            r@ == self@.state,
            r@.in_range(),
    {
        proof {
            use_type_invariant(self);
        }
        self.state.clone()
    }

    /// Takes what a message says of the state of the bulb.
    pub fn handle_message(&mut self, message: &Message)
        ensures
            final(self)@ == (ClientView {
                state: old(self)@.state.notified(message@),
                ..old(self)@
            }),
            message@.method == Some("props"@) ==> (message@.params matches Some(props)
                ==> follows_report(old(self)@.state, final(self)@.state, props)),
    {
        proof {
            lemma_notified_reads(self@.state, message@);
        }
        if let Some(method) = &message.method {
            if same_text(method.as_str(), "props") {
                if let Some(props) = &message.params {
                    proof {
                        use_type_invariant(&*self);
                        lemma_report_keeps_range(self.state@, props_view(props@));
                    }
                    let mut state = LightState::default();
                    std::mem::swap(&mut state, &mut self.state);
                    state.apply_props(props);
                    self.state = state;
                }
            }
        }
    }

    /// Takes a line that the bulb has sent. Only a `props` notification changes anything.
    pub fn handle_notification(&mut self, line: &str)
        ensures
            final(self)@ == (ClientView {
                state: match parsed_json(line@) {
                    Some(json) => if line@.len() == 0 {
                        old(self)@.state
                    } else {
                        old(self)@.state.notified(json.message())
                    },
                    None => old(self)@.state,
                },
                ..old(self)@
            }),
    {
        if line.is_empty() {
            return;
        }
        if let Ok(message) = Message::parse(line) {
            self.handle_message(&message);
        }
    }

    /// Hands out the next id. Ids count up, and start again from 0 after the last one.
    pub fn next_id(&mut self) -> (id: u32)
        ensures
            id == old(self)@.cmd_id,
            final(self)@ == old(self)@.with_next_id(),
    {
        proof {
            use_type_invariant(&*self);
        }
        let id = self.cmd_id;
        self.cmd_id = if id == u32::MAX {
            0
        } else {
            id + 1
        };
        id
    }

    /// Writes a command as a line, under the next id.
    fn send(&mut self, command: Command, first: bool) -> (r: Result<Writing>)
        requires
            command@.update.in_range(),
        ensures
            r matches Ok(writing) && {
                &&& writing@.command == command@
                &&& writing@.first == first
                &&& carries(writing@.line, old(self)@.cmd_id, command@)
            },
            final(self)@ == old(self)@.with_next_id(),
    {
        let id = self.next_id();
        match write_command(id, command.method, &command.params) {
            Ok(line) => Ok(Writing { command, line, first }),
            Err(e) => Err(YeelightError::Json(e)),
        }
    }

    fn begin(
        &mut self,
        method: &'static str,
        params: Vec<Param>,
        update: StateUpdate,
    ) -> (r: Result<Writing>)
        requires
            update@.in_range(),
        ensures
            begun(
                old(self)@,
                final(self)@,
                r,
                CommandView { method: method@, params: params_view(params@), update: update@ },
            ),
    {
        self.send(Command { method, params, update }, true)
    }

    /// Takes what came of writing a line. A command that is written is done, and the known state
    /// is brought up to date. A first attempt that fails asks for a new connection; a second one
    /// fails for good.
    pub fn written(
        &mut self,
        writing: Writing,
        outcome: std::result::Result<(), std::io::Error>,
    ) -> (r: Written)
        ensures
            final(self)@ == old(self)@.after_write(writing@.command, outcome is Ok),
            match outcome {
                Ok(_) => r == Written::Done(Ok(())),
                Err(e) => if writing@.first {
                    r matches Written::Reconnect(again) && again@ == writing@.command
                } else {
                    r == Written::Done(Err(YeelightError::Io(e)))
                },
            },
    {
        proof {
            use_type_invariant(&*self);
            use_type_invariant(&writing);
        }
        match outcome {
            Ok(_) => {
                let mut state = LightState::default();
                std::mem::swap(&mut state, &mut self.state);
                state.apply_update(writing.command.update);
                self.state = state;
                Written::Done(Ok(()))
            },
            Err(e) => if writing.first {
                Written::Reconnect(Reconnecting { command: writing.command })
            } else {
                Written::Done(Err(YeelightError::Io(e)))
            },
        }
    }

    /// Takes what came of making the connection anew. If it was made, the command is written
    /// once more, under an id of its own.
    pub fn reconnected(
        &mut self,
        again: Reconnecting,
        outcome: std::result::Result<(), std::io::Error>,
    ) -> (r: Result<Writing>)
        ensures
            match outcome {
                Ok(_) => {
                    &&& r matches Ok(writing) && {
                        &&& writing@.command == again@
                        &&& !writing@.first
                        &&& carries(writing@.line, old(self)@.cmd_id, again@)
                    }
                    &&& final(self)@ == old(self)@.with_next_id()
                },
                Err(e) => {
                    &&& r == Err::<Writing, YeelightError>(YeelightError::Io(e))
                    &&& final(self)@ == old(self)@
                },
            },
    {
        proof {
            use_type_invariant(&again);
        }
        match outcome {
            Ok(_) => self.send(again.command, false),
            Err(e) => Err(YeelightError::Io(e)),
        }
    }

    /// Toggle the bulb on/off without needing to know the current state.
    pub fn toggle(&mut self) -> (r: Result<Writing>)
        ensures
            answers(r, Order::Toggle),
            begun(
                old(self)@,
                final(self)@,
                r,
                CommandView {
                    method: "toggle"@,
                    params: Seq::empty(),
                    update: StateUpdateView::TogglePower,
                },
            ),
    {
        let params: Vec<Param> = Vec::new();
        assert(params_view(params@) =~= Seq::empty());
        self.begin("toggle", params, StateUpdate::TogglePower)
    }

    /// Toggle main light and background light simultaneously.
    pub fn dev_toggle(&mut self) -> (r: Result<Writing>)
        ensures
            answers(r, Order::DevToggle),
            begun(
                old(self)@,
                final(self)@,
                r,
                CommandView {
                    method: "dev_toggle"@,
                    params: Seq::empty(),
                    update: StateUpdateView::TogglePower,
                },
            ),
    {
        let params: Vec<Param> = Vec::new();
        assert(params_view(params@) =~= Seq::empty());
        self.begin("dev_toggle", params, StateUpdate::TogglePower)
    }

    /// Turn the bulb on or off.
    ///
    /// `mode` optionally switches the bulb into a specific color mode on power-on.
    pub fn set_power(&mut self, on: bool, transition: Transition, mode: Option<PowerMode>) -> (r:
        Result<Writing>)
        ensures
            answers(r, Order::SetPower(on, transition, mode)),
            begun(
                old(self)@,
                final(self)@,
                r,
                CommandView {
                    method: "set_power"@,
                    params: power_params(on, transition, mode),
                    update: power_update(on, mode),
                },
            ),
            r matches Ok(writing) && says_power(writing@.command.params, on, transition, mode),
            old(self)@.state.updated(power_update(on, mode)).power == Some(on),
    {
        proof {
            lemma_power_params(self@.state, on, transition, mode);
        }
        let power = if on {
            "on"
        } else {
            "off"
        };
        let mut params: Vec<Param> = vec![Param::Text(power.to_owned())];
        assert(params_view(params@) =~= seq![ParamView::Text(power@)]);
        push_transition(&mut params, transition);
        let mut update = StateUpdate::Power(on);
        if let Some(mode) = mode {
            let ghost before = params@;
            params.push(Param::Int(mode.code() as i64));
            assert(params_view(params@) =~= params_view(before).push(
                ParamView::Int(mode.number() as int),
            ));
            if on {
                update = mode.update();
            }
        }
        self.begin("set_power", params, update)
    }

    /// Set brightness (1-100 %).
    pub fn set_brightness(
        &mut self,
        brightness: u8,
        transition: Transition,
    ) -> (r: Result<Writing>)
        ensures
            answers(r, Order::SetBrightness(brightness, transition)),
            if brightness < 1 || brightness > 100 {
                refused(old(self)@, final(self)@, r, "brightness must be 1–100"@)
            } else {
                begun(
                    old(self)@,
                    final(self)@,
                    r,
                    CommandView {
                        method: "set_bright"@,
                        params: seq![ParamView::Int(brightness as int)] + transition_params(
                            transition,
                        ),
                        update: StateUpdateView::Brightness(brightness),
                    },
                )
            },
    {
        if brightness < 1 || brightness > 100 {
            return Err(YeelightError::InvalidParam("brightness must be 1–100"));
        }
        let mut params: Vec<Param> = vec![Param::Int(brightness as i64)];
        assert(params_view(params@) =~= seq![ParamView::Int(brightness as int)]);
        push_transition(&mut params, transition);
        self.begin("set_bright", params, StateUpdate::Brightness(brightness))
    }

    /// Set color temperature in Kelvin (1700-6500 K).
    ///
    /// Only accepted while the bulb is on.
    pub fn set_ct(&mut self, ct: u16, transition: Transition) -> (r: Result<Writing>)
        ensures
            answers(r, Order::SetCt(ct, transition)),
            if ct < 1700 || ct > 6500 {
                refused(old(self)@, final(self)@, r, "ct must be 1700–6500 K"@)
            } else {
                begun(
                    old(self)@,
                    final(self)@,
                    r,
                    CommandView {
                        method: "set_ct_abx"@,
                        params: seq![ParamView::Int(ct as int)] + transition_params(transition),
                        update: StateUpdateView::Ct(ct),
                    },
                )
            },
    {
        if ct < 1700 || ct > 6500 {
            return Err(YeelightError::InvalidParam("ct must be 1700–6500 K"));
        }
        let mut params: Vec<Param> = vec![Param::Int(ct as i64)];
        assert(params_view(params@) =~= seq![ParamView::Int(ct as int)]);
        push_transition(&mut params, transition);
        self.begin("set_ct_abx", params, StateUpdate::Ct(ct))
    }

    /// Set RGB color (0-16777215, `0x000000`-`0xFFFFFF`).
    ///
    /// Only accepted while the bulb is on.
    pub fn set_rgb(&mut self, rgb: u32, transition: Transition) -> (r: Result<Writing>)
        ensures
            answers(r, Order::SetRgb(rgb, transition)),
            if rgb > 0xff_ffff {
                refused(old(self)@, final(self)@, r, "rgb must be 0–16_777_215"@)
            } else {
                begun(
                    old(self)@,
                    final(self)@,
                    r,
                    CommandView {
                        method: "set_rgb"@,
                        params: seq![ParamView::Int(rgb as int)] + transition_params(transition),
                        update: StateUpdateView::Rgb(rgb),
                    },
                )
            },
    {
        if rgb > 0xff_ffff {
            return Err(YeelightError::InvalidParam("rgb must be 0–16_777_215"));
        }
        let mut params: Vec<Param> = vec![Param::Int(rgb as i64)];
        assert(params_view(params@) =~= seq![ParamView::Int(rgb as int)]);
        push_transition(&mut params, transition);
        self.begin("set_rgb", params, StateUpdate::Rgb(rgb))
    }

    /// Set HSV color. `hue`: 0-359, `sat`: 0-100.
    ///
    /// Only accepted while the bulb is on.
    pub fn set_hsv(&mut self, hue: u16, sat: u8, transition: Transition) -> (r: Result<Writing>)
        ensures
            answers(r, Order::SetHsv(hue, sat, transition)),
            if hue > 359 {
                refused(old(self)@, final(self)@, r, "hue must be 0–359"@)
            } else if sat > 100 {
                refused(old(self)@, final(self)@, r, "sat must be 0–100"@)
            } else {
                begun(
                    old(self)@,
                    final(self)@,
                    r,
                    CommandView {
                        method: "set_hsv"@,
                        params: seq![
                            ParamView::Int(hue as int),
                            ParamView::Int(sat as int),
                        ] + transition_params(transition),
                        update: StateUpdateView::Hsv(hue, sat),
                    },
                )
            },
    {
        if hue > 359 {
            return Err(YeelightError::InvalidParam("hue must be 0–359"));
        }
        if sat > 100 {
            return Err(YeelightError::InvalidParam("sat must be 0–100"));
        }
        let mut params: Vec<Param> = vec![Param::Int(hue as i64), Param::Int(sat as i64)];
        assert(params_view(params@) =~= seq![
            ParamView::Int(hue as int),
            ParamView::Int(sat as int),
        ]);
        push_transition(&mut params, transition);
        self.begin("set_hsv", params, StateUpdate::Hsv(hue, sat))
    }

    /// Persist the current state as the power-on default.
    ///
    /// Only accepted while the bulb is on.
    pub fn set_default(&mut self) -> (r: Result<Writing>)
        ensures
            answers(r, Order::SetDefault),
            begun(
                old(self)@,
                final(self)@,
                r,
                plain("set_default"@, Seq::empty()),
            ),
    {
        let params: Vec<Param> = Vec::new();
        assert(params_view(params@) =~= Seq::empty());
        self.begin("set_default", params, StateUpdate::Nothing)
    }

    /// Stop a running color flow.
    pub fn stop_cf(&mut self) -> (r: Result<Writing>)
        ensures
            answers(r, Order::StopCf),
            begun(
                old(self)@,
                final(self)@,
                r,
                CommandView {
                    method: "stop_cf"@,
                    params: Seq::empty(),
                    update: StateUpdateView::Flowing(false),
                },
            ),
    {
        let params: Vec<Param> = Vec::new();
        assert(params_view(params@) =~= Seq::empty());
        self.begin("stop_cf", params, StateUpdate::Flowing(false))
    }

    /// Start a sleep timer: power off after `minutes` (1-60).
    ///
    /// Only accepted while the bulb is on.
    pub fn cron_add(&mut self, minutes: u32) -> (r: Result<Writing>)
        ensures
            answers(r, Order::CronAdd(minutes)),
            if minutes == 0 || minutes > 60 {
                refused(old(self)@, final(self)@, r, "minutes must be 1–60"@)
            } else {
                begun(
                    old(self)@,
                    final(self)@,
                    r,
                    plain("cron_add"@, seq![ParamView::Int(0), ParamView::Int(minutes as int)]),
                )
            },
    {
        if minutes == 0 || minutes > 60 {
            return Err(YeelightError::InvalidParam("minutes must be 1–60"));
        }
        // Type 0 is power-off, the only type that the protocol defines.
        let params: Vec<Param> = vec![Param::Int(0), Param::Int(minutes as i64)];
        assert(params_view(params@) =~= seq![ParamView::Int(0), ParamView::Int(minutes as int)]);
        self.begin("cron_add", params, StateUpdate::Nothing)
    }

    /// Cancel the active sleep timer.
    pub fn cron_del(&mut self) -> (r: Result<Writing>)
        ensures
            answers(r, Order::CronDel),
            begun(
                old(self)@,
                final(self)@,
                r,
                plain("cron_del"@, seq![ParamView::Int(0)]),
            ),
    {
        let params: Vec<Param> = vec![Param::Int(0)];
        assert(params_view(params@) =~= seq![ParamView::Int(0)]);
        self.begin("cron_del", params, StateUpdate::Nothing)
    }

    /// Adjust a property by a relative step without knowing the current value.
    ///
    /// `Color` only accepts [`AdjustAction::Circle`].
    pub fn set_adjust(&mut self, action: AdjustAction, prop: AdjustProp) -> (r: Result<Writing>)
        ensures
            answers(r, Order::SetAdjust(action, prop)),
            if prop is Color && !(action is Circle) {
                refused(
                    old(self)@,
                    final(self)@,
                    r,
                    "AdjustProp::Color only supports AdjustAction::Circle"@,
                )
            } else {
                begun(
                    old(self)@,
                    final(self)@,
                    r,
                    plain(
                        "set_adjust"@,
                        seq![ParamView::Text(action.word()), ParamView::Text(prop.word())],
                    ),
                )
            },
    {
        if matches!(prop, AdjustProp::Color) && !matches!(action, AdjustAction::Circle) {
            return Err(
                YeelightError::InvalidParam("AdjustProp::Color only supports AdjustAction::Circle"),
            );
        }
        let params: Vec<Param> = vec![
            Param::Text(action.as_str().to_owned()),
            Param::Text(prop.as_str().to_owned()),
        ];
        assert(params_view(params@) =~= seq![
            ParamView::Text(action.word()),
            ParamView::Text(prop.word()),
        ]);
        self.begin("set_adjust", params, StateUpdate::Nothing)
    }

    /// Adjust brightness by `percentage` (-100 to 100) over `duration_ms`.
    pub fn adjust_bright(&mut self, percentage: i8, duration_ms: u32) -> (r: Result<Writing>)
        ensures
            answers(r, Order::AdjustBright(percentage, duration_ms)),
            if percentage < -100 || percentage > 100 {
                refused(old(self)@, final(self)@, r, "percentage must be -100–100"@)
            } else {
                begun(
                    old(self)@,
                    final(self)@,
                    r,
                    plain(
                        "adjust_bright"@,
                        seq![
                            ParamView::Int(percentage as int),
                            ParamView::Int(duration_ms as int),
                        ],
                    ),
                )
            },
    {
        if percentage < -100 || percentage > 100 {
            return Err(YeelightError::InvalidParam("percentage must be -100–100"));
        }
        let params: Vec<Param> = vec![
            Param::Int(percentage as i64),
            Param::Int(duration_ms as i64),
        ];
        assert(params_view(params@) =~= seq![
            ParamView::Int(percentage as int),
            ParamView::Int(duration_ms as int),
        ]);
        self.begin("adjust_bright", params, StateUpdate::Nothing)
    }

    /// Adjust color temperature by `percentage` (-100 to 100) over `duration_ms`.
    pub fn adjust_ct(&mut self, percentage: i8, duration_ms: u32) -> (r: Result<Writing>)
        ensures
            answers(r, Order::AdjustCt(percentage, duration_ms)),
            if percentage < -100 || percentage > 100 {
                refused(old(self)@, final(self)@, r, "percentage must be -100–100"@)
            } else {
                begun(
                    old(self)@,
                    final(self)@,
                    r,
                    plain(
                        "adjust_ct"@,
                        seq![
                            ParamView::Int(percentage as int),
                            ParamView::Int(duration_ms as int),
                        ],
                    ),
                )
            },
    {
        if percentage < -100 || percentage > 100 {
            return Err(YeelightError::InvalidParam("percentage must be -100–100"));
        }
        let params: Vec<Param> = vec![
            Param::Int(percentage as i64),
            Param::Int(duration_ms as i64),
        ];
        assert(params_view(params@) =~= seq![
            ParamView::Int(percentage as int),
            ParamView::Int(duration_ms as int),
        ]);
        self.begin("adjust_ct", params, StateUpdate::Nothing)
    }

    /// Cycle the color over `duration_ms`.
    ///
    /// Note: the percentage step is defined internally by the bulb and cannot be set; only the
    /// duration is configurable.
    pub fn adjust_color(&mut self, duration_ms: u32) -> (r: Result<Writing>)
        ensures
            answers(r, Order::AdjustColor(duration_ms)),
            begun(
                old(self)@,
                final(self)@,
                r,
                plain(
                    "adjust_color"@,
                    seq![ParamView::Int(0), ParamView::Int(duration_ms as int)],
                ),
            ),
    {
        let params: Vec<Param> = vec![Param::Int(0), Param::Int(duration_ms as i64)];
        assert(params_view(params@) =~= seq![
            ParamView::Int(0),
            ParamView::Int(duration_ms as int),
        ]);
        self.begin("adjust_color", params, StateUpdate::Nothing)
    }

    /// Directly set a solid RGB color + brightness (works even when off).
    pub fn scene_color(&mut self, rgb: u32, brightness: u8) -> (r: Result<Writing>)
        ensures
            answers(r, Order::SceneColor(rgb, brightness)),
            if rgb > 0xff_ffff {
                refused(old(self)@, final(self)@, r, "rgb must be 0–16_777_215"@)
            } else if brightness < 1 || brightness > 100 {
                refused(old(self)@, final(self)@, r, "brightness must be 1–100"@)
            } else {
                begun(
                    old(self)@,
                    final(self)@,
                    r,
                    CommandView {
                        method: "set_scene"@,
                        params: seq![
                            ParamView::Text("color"@),
                            ParamView::Int(rgb as int),
                            ParamView::Int(brightness as int),
                        ],
                        update: StateUpdateView::SceneColor(rgb, brightness),
                    },
                )
            },
    {
        if rgb > 0xff_ffff {
            return Err(YeelightError::InvalidParam("rgb must be 0–16_777_215"));
        }
        if brightness < 1 || brightness > 100 {
            return Err(YeelightError::InvalidParam("brightness must be 1–100"));
        }
        let params: Vec<Param> = vec![
            Param::Text("color".to_owned()),
            Param::Int(rgb as i64),
            Param::Int(brightness as i64),
        ];
        assert(params_view(params@) =~= seq![
            ParamView::Text("color"@),
            ParamView::Int(rgb as int),
            ParamView::Int(brightness as int),
        ]);
        self.begin("set_scene", params, StateUpdate::SceneColor(rgb, brightness))
    }

    /// Directly set an HSV color + brightness (works even when off).
    pub fn scene_hsv(&mut self, hue: u16, sat: u8, brightness: u8) -> (r: Result<Writing>)
        ensures
            answers(r, Order::SceneHsv(hue, sat, brightness)),
            if hue > 359 {
                refused(old(self)@, final(self)@, r, "hue must be 0–359"@)
            } else if sat > 100 {
                refused(old(self)@, final(self)@, r, "sat must be 0–100"@)
            } else if brightness < 1 || brightness > 100 {
                refused(old(self)@, final(self)@, r, "brightness must be 1–100"@)
            } else {
                begun(
                    old(self)@,
                    final(self)@,
                    r,
                    CommandView {
                        method: "set_scene"@,
                        params: seq![
                            ParamView::Text("hsv"@),
                            ParamView::Int(hue as int),
                            ParamView::Int(sat as int),
                            ParamView::Int(brightness as int),
                        ],
                        update: StateUpdateView::SceneHsv(hue, sat, brightness),
                    },
                )
            },
    {
        if hue > 359 {
            return Err(YeelightError::InvalidParam("hue must be 0–359"));
        }
        if sat > 100 {
            return Err(YeelightError::InvalidParam("sat must be 0–100"));
        }
        if brightness < 1 || brightness > 100 {
            return Err(YeelightError::InvalidParam("brightness must be 1–100"));
        }
        let params: Vec<Param> = vec![
            Param::Text("hsv".to_owned()),
            Param::Int(hue as i64),
            Param::Int(sat as i64),
            Param::Int(brightness as i64),
        ];
        assert(params_view(params@) =~= seq![
            ParamView::Text("hsv"@),
            ParamView::Int(hue as int),
            ParamView::Int(sat as int),
            ParamView::Int(brightness as int),
        ]);
        self.begin("set_scene", params, StateUpdate::SceneHsv(hue, sat, brightness))
    }

    /// Directly set a color temperature + brightness (works even when off).
    pub fn scene_ct(&mut self, ct: u16, brightness: u8) -> (r: Result<Writing>)
        ensures
            answers(r, Order::SceneCt(ct, brightness)),
            if ct < 1700 || ct > 6500 {
                refused(old(self)@, final(self)@, r, "ct must be 1700–6500 K"@)
            } else if brightness < 1 || brightness > 100 {
                refused(old(self)@, final(self)@, r, "brightness must be 1–100"@)
            } else {
                begun(
                    old(self)@,
                    final(self)@,
                    r,
                    CommandView {
                        method: "set_scene"@,
                        params: seq![
                            ParamView::Text("ct"@),
                            ParamView::Int(ct as int),
                            ParamView::Int(brightness as int),
                        ],
                        update: StateUpdateView::SceneCt(ct, brightness),
                    },
                )
            },
    {
        if ct < 1700 || ct > 6500 {
            return Err(YeelightError::InvalidParam("ct must be 1700–6500 K"));
        }
        if brightness < 1 || brightness > 100 {
            return Err(YeelightError::InvalidParam("brightness must be 1–100"));
        }
        let params: Vec<Param> = vec![
            Param::Text("ct".to_owned()),
            Param::Int(ct as i64),
            Param::Int(brightness as i64),
        ];
        assert(params_view(params@) =~= seq![
            ParamView::Text("ct"@),
            ParamView::Int(ct as int),
            ParamView::Int(brightness as int),
        ]);
        self.begin("set_scene", params, StateUpdate::SceneCt(ct, brightness))
    }

    /// Turn on at `brightness`% then auto-off after `minutes` (works even when off).
    pub fn scene_auto_delay_off(&mut self, brightness: u8, minutes: u32) -> (r: Result<Writing>)
        ensures
            answers(r, Order::SceneAutoDelayOff(brightness, minutes)),
            if brightness < 1 || brightness > 100 {
                refused(old(self)@, final(self)@, r, "brightness must be 1–100"@)
            } else {
                begun(
                    old(self)@,
                    final(self)@,
                    r,
                    CommandView {
                        method: "set_scene"@,
                        params: seq![
                            ParamView::Text("auto_delay_off"@),
                            ParamView::Int(brightness as int),
                            ParamView::Int(minutes as int),
                        ],
                        update: StateUpdateView::OnAt(brightness),
                    },
                )
            },
    {
        if brightness < 1 || brightness > 100 {
            return Err(YeelightError::InvalidParam("brightness must be 1–100"));
        }
        let params: Vec<Param> = vec![
            Param::Text("auto_delay_off".to_owned()),
            Param::Int(brightness as i64),
            Param::Int(minutes as i64),
        ];
        assert(params_view(params@) =~= seq![
            ParamView::Text("auto_delay_off"@),
            ParamView::Int(brightness as int),
            ParamView::Int(minutes as int),
        ]);
        self.begin("set_scene", params, StateUpdate::OnAt(brightness))
    }

    /// Start or stop music mode.
    ///
    /// In music mode the bulb connects back to **your** TCP server at (`host`, `port`), rate
    /// limits are lifted, and no properties are reported. You must open the TCP server before
    /// calling this.
    pub fn set_music(&mut self, enable: bool, host: Option<&str>, port: Option<u16>) -> (r: Result<
        Writing,
    >)
        ensures
            answers(r, Order::SetMusic(enable, opt_str_view(host), port)),
            if enable && host is None {
                refused(old(self)@, final(self)@, r, "host required when enabling music mode"@)
            } else if enable && port is None {
                refused(old(self)@, final(self)@, r, "port required when enabling music mode"@)
            } else {
                begun(
                    old(self)@,
                    final(self)@,
                    r,
                    CommandView {
                        method: "set_music"@,
                        params: music_params(enable, host, port),
                        update: StateUpdateView::Music(enable),
                    },
                )
            },
    {
        let params: Vec<Param> = if enable {
            let host = match host {
                Some(host) => host,
                None => return Err(
                    YeelightError::InvalidParam("host required when enabling music mode"),
                ),
            };
            let port = match port {
                Some(port) => port,
                None => return Err(
                    YeelightError::InvalidParam("port required when enabling music mode"),
                ),
            };
            vec![Param::Int(1), Param::Text(host.to_owned()), Param::Int(port as i64)]
        } else {
            vec![Param::Int(0)]
        };
        assert(params_view(params@) =~= music_params(enable, host, port));
        self.begin("set_music", params, StateUpdate::Music(enable))
    }

    /// Set the device name (stored in persistent memory, max 64 bytes).
    pub fn set_name(&mut self, name: &str) -> (r: Result<Writing>)
        ensures
            answers(r, Order::SetName(name@)),
            if encode_utf8(name@).len() > 64 {
                refused(old(self)@, final(self)@, r, "name must be ≤ 64 bytes"@)
            } else {
                begun(
                    old(self)@,
                    final(self)@,
                    r,
                    CommandView {
                        method: "set_name"@,
                        params: seq![ParamView::Text(name@)],
                        update: StateUpdateView::Name(name@),
                    },
                )
            },
    {
        if name.as_bytes().len() > 64 {
            return Err(YeelightError::InvalidParam("name must be ≤ 64 bytes"));
        }
        let params: Vec<Param> = vec![Param::Text(name.to_owned())];
        assert(params_view(params@) =~= seq![ParamView::Text(name@)]);
        self.begin("set_name", params, StateUpdate::Name(name.to_owned()))
    }
}

/// What the bulb reads is the command: the bytes of the line make one line and leave nothing
/// over, and the document on it has this id, this method and these parameters.
pub proof fn lemma_command_arrives(line: Seq<char>, id: u32, command: CommandView)
    requires
        carries(line, id, command),
    ensures
        ({
            let (lines, rest) = lines_after(Seq::empty(), encode_utf8(line));
            &&& lines.len() == 1
            &&& rest.len() == 0
            &&& parsed_json(line_text(lines[0])) matches Some(document)
            &&& document.member("id"@) == ParamView::Int(id as int).json()
            &&& document.member("method"@) == Json::Text(command.method)
            &&& document.member("params"@) == params_json(command.params)
            &&& document.members() matches Some(members)
            &&& members.dom() == set!["id"@, "method"@, "params"@]
        }),
        line.len() >= 2,
        line[line.len() - 2] == '\r',
        line[line.len() - 1] == '\n',
{
    let text = encoded_json(command_json(id, command.method, command.params));
    lemma_line_reads_back(text);
    reveal_strlit("id");
    reveal_strlit("method");
    reveal_strlit("params");
    assert("id"@.len() == 2 && "method"@.len() == 6 && "params"@.len() == 6);
    assert("method"@[0] == 'm' && "params"@[0] == 'p');
    let members = command_json(id, command.method, command.params)->Object_0;
    assert(members.dom() =~= set!["id"@, "method"@, "params"@]);
}

/// The id of the line that follows `n` lines after one with the id `first`.
pub open spec fn nth_id(first: u32, n: nat) -> u32
    decreases n,
{
    if n == 0 {
        first
    } else {
        id_after(nth_id(first, (n - 1) as nat))
    }
}

/// Ids count up, and start again from 0 after the last one.
pub proof fn lemma_nth_id(first: u32, n: nat)
    ensures
        nth_id(first, n) == (first + n) % 0x1_0000_0000,
    decreases n,
{
    if n > 0 {
        lemma_nth_id(first, (n - 1) as nat);
    }
}

/// Handing out ids changes nothing but the next id.
pub proof fn lemma_after_lines(client: ClientView, k: nat)
    ensures
        client.after_lines(k) == (ClientView { cmd_id: nth_id(client.cmd_id, k), ..client }),
    decreases k,
{
    if k > 0 {
        lemma_after_lines(client, (k - 1) as nat);
    }
}

/// The ids of a connection: connecting leaves the next id at 2, and after `k` ids have been
/// handed out the next one is `k + 2`, which is none of those.
pub proof fn lemma_kth_id(client: ClientView, k: nat)
    requires
        client.cmd_id == 2,
        k < 0x1_0000_0000 - 2,
    ensures
        client.after_lines(k).cmd_id == k + 2,
        forall|j: nat| j < k ==> (#[trigger] client.after_lines(j)).cmd_id
            != client.after_lines(k).cmd_id,
{
    lemma_after_lines(client, k);
    lemma_nth_id(2, k);
    assert forall|j: nat| j < k implies (#[trigger] client.after_lines(j)).cmd_id
        != client.after_lines(k).cmd_id by {
        lemma_after_lines(client, j);
        lemma_ids_differ(2, j, k);
    }
}

/// Of as many lines as there are ids, no two have the same one.
pub proof fn lemma_ids_differ(first: u32, i: nat, j: nat)
    requires
        i < j < i + 0x1_0000_0000,
    ensures
        nth_id(first, i) != nth_id(first, j),
{
    lemma_nth_id(first, i);
    lemma_nth_id(first, j);
}

/// What becomes of a client that carries out a command, and whether it succeeds: `first` and
/// `second` say whether the first and the second attempt at writing its line succeed, and
/// `reconnected` whether the connection is made anew in between.
pub open spec fn carried_out(
    before: ClientView,
    command: CommandView,
    first: bool,
    reconnected: bool,
    second: bool,
) -> (ClientView, bool) {
    let once = before.with_next_id().after_write(command, first);
    if first {
        (once, true)
    } else if reconnected {
        (once.with_next_id().after_write(command, second), second)
    } else {
        (once, false)
    }
}

/// A lost connection does not show if it can be made anew: a command succeeds exactly if one of
/// its two attempts does. Then the known state is brought up to date, once; if it fails, the
/// known state stays as it was. Each attempt uses up one id.
pub proof fn lemma_carried_out(
    before: ClientView,
    command: CommandView,
    first: bool,
    reconnected: bool,
    second: bool,
)
    ensures
        ({
            let (after, done) = carried_out(before, command, first, reconnected, second);
            let attempts: nat = if !first && reconnected {
                2
            } else {
                1
            };
            &&& done == (first || (reconnected && second))
            &&& after == ClientView {
                addr: before.addr,
                state: if done {
                    before.state.updated(command.update)
                } else {
                    before.state
                },
                cmd_id: nth_id(before.cmd_id, attempts),
            }
        }),
{
    reveal_with_fuel(nth_id, 3);
}

/// What is known after connecting lies in its range, whatever the bulb answers.
pub proof fn lemma_initial_state_in_range(answer: MessageView)
    ensures
        answer.initial_state().in_range(),
{
    if let Some(results) = answer.result {
        lemma_report_keeps_range(
            LightStateView::unknown(),
            entry_map(results_props(results)),
        );
    }
}

/// What is known stays in its range, whatever the bulb sends.
pub proof fn lemma_notified_keeps_range(state: LightStateView, message: MessageView)
    requires
        state.in_range(),
    ensures
        state.notified(message).in_range(),
{
    if let Some(props) = message.params {
        lemma_report_keeps_range(state, props);
    }
}

/// Each result of the request for the properties is that of the property asked for in the same
/// place.
pub proof fn lemma_result_of_prop(results: Seq<Seq<char>>, i: int)
    requires
        0 <= i < results.len(),
        i < prop_names().len(),
    ensures
        prop(entry_map(results_props(results)), prop_names()[i]) == Some(results[i]),
{
    lemma_prop_names();
    lemma_last_at(results_props(results), prop_names()[i], i);
}

/// The state that is known after connecting is the state of the bulb, if the bulb reports all
/// of it.
pub proof fn lemma_state_is_populated(state: LightStateView, answer: MessageView)
    requires
        state.is_known(),
        state.in_range(),
        answer.result == Some(state.results()),
    ensures
        answer.initial_state() == state,
{
    let results = state.results();
    let names = prop_names();
    assert(names[0] == "power"@ && names[1] == "bright"@ && names[2] == "ct"@ && names[3] == "rgb"@
        && names[4] == "hue"@ && names[5] == "sat"@ && names[6] == "color_mode"@ && names[7]
        == "flowing"@ && names[8] == "music_on"@ && names[9] == "name"@);
    assert forall|i: int| 0 <= i < 10 implies prop(
        entry_map(results_props(results)),
        #[trigger] names[i],
    ) == Some(results[i]) by {
        lemma_result_of_prop(results, i);
    }
    lemma_prop_names();
    lemma_decimal_reads_back(state.brightness->0 as nat, 100);
    lemma_decimal_reads_back(state.ct->0 as nat, 6500);
    lemma_decimal_reads_back(state.rgb->0 as nat, 0xff_ffff);
    lemma_decimal_reads_back(state.hue->0 as nat, 359);
    lemma_decimal_reads_back(state.sat->0 as nat, 100);
    lemma_decimal_reads_back(state.color_mode->0.number() as nat, 3);
}

/// A list of parameters goes on, from place `at`, with how a change takes place: a sudden one
/// with no duration, and a smooth one with the duration that was asked for, or with 30 ms where
/// that is less.
pub open spec fn says_transition(params: Seq<ParamView>, at: int, transition: Transition) -> bool {
    match transition {
        Transition::Sudden => {
            &&& params[at] == ParamView::Text("sudden"@)
            &&& params[at + 1] == ParamView::Int(0)
        },
        Transition::Smooth(d) => {
            &&& params[at] == ParamView::Text("smooth"@)
            &&& d >= 30 ==> params[at + 1] == ParamView::Int(d as int)
            &&& d < 30 ==> params[at + 1] == ParamView::Int(30)
        },
    }
}

/// What is said of a transition is two parameters, wherever they stand.
pub proof fn lemma_transition_params(before: Seq<ParamView>, transition: Transition)
    ensures
        ({
            let params = before + transition_params(transition);
            &&& params.len() == before.len() + 2
            &&& forall|i: int| 0 <= i < before.len() ==> #[trigger] params[i] == before[i]
            &&& says_transition(params, before.len() as int, transition)
        }),
{
    lemma_transition(transition);
}

/// What `set_power` says: on or off, how, and the number of the mode exactly if there is one.
pub open spec fn says_power(
    params: Seq<ParamView>,
    on: bool,
    transition: Transition,
    mode: Option<PowerMode>,
) -> bool {
    &&& params[0] == ParamView::Text("on"@) <==> on
    &&& params[0] == ParamView::Text("off"@) <==> !on
    &&& says_transition(params, 1, transition)
    &&& match mode {
        None => params.len() == 3,
        Some(mode) => {
            &&& params.len() == 4
            &&& mode is Normal ==> params[3] == ParamView::Int(0)
            &&& mode is Ct ==> params[3] == ParamView::Int(1)
            &&& mode is Rgb ==> params[3] == ParamView::Int(2)
            &&& mode is Hsv ==> params[3] == ParamView::Int(3)
            &&& mode is ColorFlow ==> params[3] == ParamView::Int(4)
            &&& mode is Night ==> params[3] == ParamView::Int(5)
        },
    }
}

/// The power that `set_power` says is the one that was asked for, whatever the transition and
/// the mode, and it is the one that the known state then holds. The mode counts for the known
/// state when the power goes on.
pub proof fn lemma_power_params(
    state: LightStateView,
    on: bool,
    transition: Transition,
    mode: Option<PowerMode>,
)
    ensures
        says_power(power_params(on, transition, mode), on, transition, mode),
        ({
            let after = state.updated(power_update(on, mode));
            &&& after.power == Some(on)
            &&& power_params(on, transition, mode)[0] == ParamView::Text("on"@) <==> after.power
                == Some(true)
            &&& after.color_mode == match mode {
                Some(PowerMode::Ct) => if on {
                    Some(ColorMode::ColorTemp)
                } else {
                    state.color_mode
                },
                Some(PowerMode::Rgb) => if on {
                    Some(ColorMode::Rgb)
                } else {
                    state.color_mode
                },
                Some(PowerMode::Hsv) => if on {
                    Some(ColorMode::Hsv)
                } else {
                    state.color_mode
                },
                _ => state.color_mode,
            }
            &&& after.flowing == if on && mode == Some(PowerMode::ColorFlow) {
                Some(true)
            } else {
                state.flowing
            }
            &&& after.brightness == state.brightness && after.ct == state.ct
            &&& after.rgb == state.rgb && after.hue == state.hue && after.sat == state.sat
            &&& after.music_on == state.music_on && after.name == state.name
        }),
        power_update(on, mode).in_range(),
{
    lemma_prop_names();
    lemma_transition(transition);
}

/// What `set_music` says: 1 with the host and the port to start, and 0 alone to stop.
pub proof fn lemma_music_params(enable: bool, host: Option<&str>, port: Option<u16>)
    ensures
        ({
            let params = music_params(enable, host, port);
            if enable {
                &&& params.len() == 3
                &&& params[0] == ParamView::Int(1)
                &&& host matches Some(host) ==> params[1] == ParamView::Text(host@)
                &&& port matches Some(port) ==> params[2] == ParamView::Int(port as int)
            } else {
                &&& params.len() == 1
                &&& params[0] == ParamView::Int(0)
            }
        }),
{
}

/// A plain command has its method and its parameters, and leaves the known state as it is.
pub proof fn lemma_plain(method: Seq<char>, params: Seq<ParamView>, state: LightStateView)
    ensures
        plain(method, params).method == method,
        plain(method, params).params == params,
        state.updated(plain(method, params).update) == state,
{
}

/// What it is to have begun with a command: there is a line to be written, it is the first
/// attempt, the bulb reads from it this command under the next id, and of the client nothing has
/// changed but this id.
pub proof fn lemma_begun(
    before: ClientView,
    after: ClientView,
    r: Result<Writing>,
    command: CommandView,
)
    requires
        begun(before, after, r, command),
    ensures
        r is Ok,
        r->Ok_0@.command == command,
        r->Ok_0@.first,
        ({
            let (lines, rest) = lines_after(Seq::empty(), encode_utf8(r->Ok_0@.line));
            &&& lines.len() == 1 && rest.len() == 0
            &&& parsed_json(line_text(lines[0])) matches Some(document)
            &&& document.member("id"@) == ParamView::Int(before.cmd_id as int).json()
            &&& document.member("method"@) == Json::Text(command.method)
            &&& document.member("params"@) == params_json(command.params)
        }),
        after.addr == before.addr,
        after.state == before.state,
        after.cmd_id == (before.cmd_id + 1) % 0x1_0000_0000,
{
    lemma_command_arrives(r->Ok_0@.line, before.cmd_id, command);
}

/// What it is to have refused a parameter: there is an error that says why and nothing to be
/// written, and nothing of the client has changed.
pub proof fn lemma_refused(
    before: ClientView,
    after: ClientView,
    r: Result<Writing>,
    reason: Seq<char>,
)
    requires
        refused(before, after, r, reason),
    ensures
        r matches Err(YeelightError::InvalidParam(text)) && text@ == reason,
        after.addr == before.addr,
        after.state == before.state,
        after.cmd_id == before.cmd_id,
{
}

/// All ten properties are asked for by name, each once.
pub proof fn lemma_name_params()
    ensures
        name_params().len() == 10,
        name_params()[0] == ParamView::Text("power"@),
        name_params()[1] == ParamView::Text("bright"@),
        name_params()[2] == ParamView::Text("ct"@),
        name_params()[3] == ParamView::Text("rgb"@),
        name_params()[4] == ParamView::Text("hue"@),
        name_params()[5] == ParamView::Text("sat"@),
        name_params()[6] == ParamView::Text("color_mode"@),
        name_params()[7] == ParamView::Text("flowing"@),
        name_params()[8] == ParamView::Text("music_on"@),
        name_params()[9] == ParamView::Text("name"@),
{
}

/// What `results` says, in place `i`, of a number from `min` to `max`; nothing where it is too
/// short.
pub open spec fn result_tells(
    known: Option<int>,
    results: Seq<Seq<char>>,
    i: int,
    min: int,
    max: int,
) -> bool {
    if i < results.len() {
        tells_number(known, results[i], min, max)
    } else {
        known is None
    }
}

/// What `results` says, in place `i`, of a property that is set if its text is `set`; nothing
/// where it is too short.
pub open spec fn result_flag(
    known: Option<bool>,
    results: Seq<Seq<char>>,
    i: int,
    set: Seq<char>,
) -> bool {
    known == if i < results.len() {
        Some(results[i] == set)
    } else {
        None
    }
}

/// Each property of the state after connecting is what its own result says, whatever the other
/// results are. A property without a result is unknown.
pub proof fn lemma_each_result_counts(answer: MessageView, results: Seq<Seq<char>>)
    requires
        answer.result == Some(results),
    ensures
        ({
            let state = answer.initial_state();
            &&& result_flag(state.power, results, 0, "on"@)
            &&& result_tells(byte_number(state.brightness), results, 1, 1, 100)
            &&& result_tells(short_number(state.ct), results, 2, 1700, 6500)
            &&& result_tells(word_number(state.rgb), results, 3, 0, 16_777_215)
            &&& result_tells(short_number(state.hue), results, 4, 0, 359)
            &&& result_tells(byte_number(state.sat), results, 5, 0, 100)
            &&& result_tells(mode_number(state.color_mode), results, 6, 1, 3)
            &&& result_flag(state.flowing, results, 7, "1"@)
            &&& result_flag(state.music_on, results, 8, "1"@)
            &&& state.name == if 9 < results.len() {
                Some(results[9])
            } else {
                None
            }
        }),
{
    let props = entry_map(results_props(results));
    let names = prop_names();
    lemma_prop_names();
    assert(names[0] == "power"@ && names[1] == "bright"@ && names[2] == "ct"@ && names[3] == "rgb"@
        && names[4] == "hue"@ && names[5] == "sat"@ && names[6] == "color_mode"@ && names[7]
        == "flowing"@ && names[8] == "music_on"@ && names[9] == "name"@);
    assert forall|i: int| 0 <= i < 10 implies {
        &&& props.contains_key(#[trigger] names[i]) <==> i < results.len()
        &&& i < results.len() ==> props[names[i]] == Some(results[i])
    } by {
        if i < results.len() {
            lemma_last_entry_counts(results_props(results), names[i], i);
        } else {
            lemma_no_entry(results_props(results), names[i]);
        }
    }
    lemma_report_reads(LightStateView::unknown(), props);
}

/// An answer without results leaves everything unknown.
pub proof fn lemma_no_results(answer: MessageView)
    requires
        answer.result is None,
    ensures
        answer.initial_state() == LightStateView::unknown(),
{
}

/// A `props` message with an object sets every property that the object mentions to what its
/// text says, and leaves every other one. Any other message changes nothing.
pub proof fn lemma_notified_reads(state: LightStateView, message: MessageView)
    ensures
        message.method == Some("props"@) && message.params is Some ==> follows_report(
            state,
            state.notified(message),
            message.params->0,
        ),
        message.method != Some("props"@) || message.params is None ==> state.notified(message)
            == state,
{
    if let Some(props) = message.params {
        lemma_report_reads(state, props);
    }
}

/// `props`, with the value of one more property if it is known.
pub open spec fn with_prop(props: Props, key: Seq<char>, value: Option<Seq<char>>) -> Props {
    match value {
        Some(text) => props.insert(key, Some(text)),
        None => props,
    }
}

/// A number, as the bulb writes it.
pub open spec fn number_text(n: Option<int>) -> Option<Seq<char>> {
    match n {
        Some(n) => Some(decimal(n as nat)),
        None => None,
    }
}

/// Whether a property is set, as the bulb writes it.
pub open spec fn flag_text(set: Option<bool>, yes: Seq<char>, no: Seq<char>) -> Option<Seq<char>> {
    match set {
        Some(true) => Some(yes),
        Some(false) => Some(no),
        None => None,
    }
}

/// The properties with which a bulb reports what is known of a state.
pub open spec fn written_out(state: LightStateView) -> Props {
    let props = with_prop(Map::empty(), "power"@, flag_text(state.power, "on"@, "off"@));
    let props = with_prop(props, "bright"@, number_text(byte_number(state.brightness)));
    let props = with_prop(props, "ct"@, number_text(short_number(state.ct)));
    let props = with_prop(props, "rgb"@, number_text(word_number(state.rgb)));
    let props = with_prop(props, "hue"@, number_text(short_number(state.hue)));
    let props = with_prop(props, "sat"@, number_text(byte_number(state.sat)));
    let props = with_prop(props, "color_mode"@, number_text(mode_number(state.color_mode)));
    let props = with_prop(props, "flowing"@, flag_text(state.flowing, "1"@, "0"@));
    let props = with_prop(props, "music_on"@, flag_text(state.music_on, "1"@, "0"@));
    with_prop(props, "name"@, state.name)
}

/// A value that is told, or else the one from before.
pub open spec fn told_or<T>(told: Option<T>, before: Option<T>) -> Option<T> {
    match told {
        Some(value) => Some(value),
        None => before,
    }
}

/// What is told for each property of `written_out`.
proof fn lemma_written_out(told: LightStateView)
    ensures
        ({
            let props = written_out(told);
            &&& lookup(props, "power"@) == in_props(flag_text(told.power, "on"@, "off"@))
            &&& lookup(props, "bright"@) == in_props(number_text(byte_number(told.brightness)))
            &&& lookup(props, "ct"@) == in_props(number_text(short_number(told.ct)))
            &&& lookup(props, "rgb"@) == in_props(number_text(word_number(told.rgb)))
            &&& lookup(props, "hue"@) == in_props(number_text(short_number(told.hue)))
            &&& lookup(props, "sat"@) == in_props(number_text(byte_number(told.sat)))
            &&& lookup(props, "color_mode"@) == in_props(number_text(mode_number(told.color_mode)))
            &&& lookup(props, "flowing"@) == in_props(flag_text(told.flowing, "1"@, "0"@))
            &&& lookup(props, "music_on"@) == in_props(flag_text(told.music_on, "1"@, "0"@))
            &&& lookup(props, "name"@) == in_props(told.name)
        }),
{
    lemma_prop_names();
    let names = prop_names();
    assert(names[0] == "power"@ && names[1] == "bright"@ && names[2] == "ct"@ && names[3] == "rgb"@
        && names[4] == "hue"@ && names[5] == "sat"@ && names[6] == "color_mode"@ && names[7]
        == "flowing"@ && names[8] == "music_on"@ && names[9] == "name"@);
}

/// A text that is told, as a property.
pub open spec fn in_props(text: Option<Seq<char>>) -> Option<Option<Seq<char>>> {
    match text {
        Some(text) => Some(Some(text)),
        None => None,
    }
}

/// A bulb that reports what is known of a state is known to be in that state, and for what it
/// does not report the state is as before.
pub proof fn lemma_told_state(before: LightStateView, told: LightStateView)
    requires
        told.in_range(),
    ensures
        before.notified(
            MessageView {
                method: Some("props"@),
                params: Some(written_out(told)),
                result: None,
            },
        ) == (LightStateView {
            power: told_or(told.power, before.power),
            brightness: told_or(told.brightness, before.brightness),
            ct: told_or(told.ct, before.ct),
            rgb: told_or(told.rgb, before.rgb),
            hue: told_or(told.hue, before.hue),
            sat: told_or(told.sat, before.sat),
            color_mode: told_or(told.color_mode, before.color_mode),
            flowing: told_or(told.flowing, before.flowing),
            music_on: told_or(told.music_on, before.music_on),
            name: told_or(told.name, before.name),
        }),
{
    lemma_prop_names();
    lemma_written_out(told);
    if let Some(n) = told.brightness {
        lemma_decimal_reads_back(n as nat, 100);
    }
    if let Some(n) = told.ct {
        lemma_decimal_reads_back(n as nat, 6500);
    }
    if let Some(n) = told.rgb {
        lemma_decimal_reads_back(n as nat, 0xff_ffff);
    }
    if let Some(n) = told.hue {
        lemma_decimal_reads_back(n as nat, 359);
    }
    if let Some(n) = told.sat {
        lemma_decimal_reads_back(n as nat, 100);
    }
    if let Some(mode) = told.color_mode {
        lemma_decimal_reads_back(mode.number() as nat, 3);
    }
}

} // verus!

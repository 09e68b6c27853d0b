use sakura::client::{initial_state, Writing, Written};
use sakura::discovery::DeviceAddr;
use sakura::message::Message;
use sakura::{
    AdjustAction, AdjustProp, ColorMode, PowerMode, Result, Transition, YeelightClient,
    YeelightError,
};
use std::io::{Error, ErrorKind};

const ADDR: DeviceAddr = DeviceAddr::V4 { ipv4: 0xc0a8_01ab, port: 55443 };

fn client() -> YeelightClient {
    YeelightClient::connect(ADDR, "{\"id\":1,\"result\":[]}").unwrap()
}

fn lost() -> std::result::Result<(), Error> {
    Err(Error::from(ErrorKind::BrokenPipe))
}

fn line(w: &Result<Writing>) -> String {
    w.as_ref().unwrap().line().strip_suffix("\r\n").unwrap().to_string()
}

fn reason(w: Result<Writing>) -> &'static str {
    match w {
        Err(YeelightError::InvalidParam(text)) => text,
        _ => panic!("not refused"),
    }
}

fn done(c: &mut YeelightClient, w: Result<Writing>) {
    assert!(matches!(c.written(w.unwrap(), Ok(())), Written::Done(Ok(()))));
}

fn sent(params: &str) -> String {
    format!("{{\"id\":2,\"method\":{params}}}")
}

#[test]
fn the_properties_are_asked_for_first() {
    assert_eq!(
        YeelightClient::init_request().unwrap(),
        "{\"id\":1,\"method\":\"get_prop\",\"params\":[\"power\",\"bright\",\"ct\",\"rgb\",\"hue\",\
         \"sat\",\"color_mode\",\"flowing\",\"music_on\",\"name\"]}\r\n",
    );
}

#[test]
fn the_state_is_known_on_connecting() {
    let line = "{\"id\":1,\"result\":[\"on\",\"100\",\"4000\",\"16711680\",\"300\",\"50\",\"3\",\"1\",\"0\",\"desk\"]}";
    let c = YeelightClient::connect(ADDR, line).unwrap();
    let s = c.state();
    assert_eq!(s.power, Some(true));
    assert_eq!(s.brightness, Some(100));
    assert_eq!(s.ct, Some(4000));
    assert_eq!(s.rgb, Some(16_711_680));
    assert_eq!(s.hue, Some(300));
    assert_eq!(s.sat, Some(50));
    assert_eq!(s.color_mode, Some(ColorMode::Hsv));
    assert_eq!(s.flowing, Some(true));
    assert_eq!(s.music_on, Some(false));
    assert_eq!(s.name.as_deref(), Some("desk"));
    assert_eq!(c.addr(), ADDR);
}

#[test]
fn results_that_are_no_text_are_understood() {
    let c = YeelightClient::connect(ADDR, "{\"result\":[\"off\",7,1700,null,true]}").unwrap();
    let s = c.state();
    assert_eq!(s.power, Some(false));
    assert_eq!(s.brightness, Some(7));
    assert_eq!(s.ct, Some(1700));
    assert_eq!(s.rgb, None);
    assert_eq!(s.hue, None);
    assert_eq!(s.name, None);
}

#[test]
fn more_results_than_properties_are_passed_over() {
    let results = vec!["on".to_string(); 12];
    let answer = Message { method: None, params: None, result: Some(results) };
    let s = initial_state(&answer);
    assert_eq!(s.power, Some(true));
    assert_eq!(s.flowing, Some(false));
    assert_eq!(s.name.as_deref(), Some("on"));
}

#[test]
fn an_error_as_answer_leaves_the_state_unknown() {
    let line = "{\"id\":1,\"error\":{\"code\":-1,\"message\":\"unsupported method\"}}";
    let c = YeelightClient::connect(ADDR, line).unwrap();
    assert_eq!(format!("{:?}", c.state()), format!("{:?}", sakura::LightState::default()));
}

#[test]
fn an_answer_that_is_no_json_is_a_protocol_error() {
    match YeelightClient::connect(ADDR, "hello") {
        Err(YeelightError::Protocol(text)) => assert_eq!(text, "bad get_prop response: hello"),
        _ => panic!("not refused"),
    }
    assert!(matches!(YeelightClient::fetch_state_sync(""), Err(YeelightError::Protocol(_))));
}

#[test]
fn an_address_must_be_found() {
    assert_eq!(YeelightClient::resolve(Some(ADDR)).unwrap(), ADDR);
    assert!(matches!(
        YeelightClient::resolve(None),
        Err(YeelightError::InvalidParam("could not resolve address"))
    ));
}

#[test]
fn every_command_has_its_line() {
    let sudden = Transition::Sudden;
    let smooth = Transition::Smooth(500);
    assert_eq!(line(&client().toggle()), sent("\"toggle\",\"params\":[]"));
    assert_eq!(line(&client().dev_toggle()), sent("\"dev_toggle\",\"params\":[]"));
    assert_eq!(line(&client().set_power(true, smooth, None)), sent("\"set_power\",\"params\":[\"on\",\"smooth\",500]"));
    assert_eq!(
        line(&client().set_power(false, sudden, Some(PowerMode::Night))),
        sent("\"set_power\",\"params\":[\"off\",\"sudden\",0,5]"),
    );
    assert_eq!(line(&client().set_brightness(100, sudden)), sent("\"set_bright\",\"params\":[100,\"sudden\",0]"));
    assert_eq!(line(&client().set_ct(6500, smooth)), sent("\"set_ct_abx\",\"params\":[6500,\"smooth\",500]"));
    assert_eq!(line(&client().set_rgb(0xff2200, smooth)), sent("\"set_rgb\",\"params\":[16720384,\"smooth\",500]"));
    assert_eq!(line(&client().set_hsv(359, 100, sudden)), sent("\"set_hsv\",\"params\":[359,100,\"sudden\",0]"));
    assert_eq!(line(&client().set_default()), sent("\"set_default\",\"params\":[]"));
    assert_eq!(line(&client().stop_cf()), sent("\"stop_cf\",\"params\":[]"));
    assert_eq!(line(&client().cron_add(60)), sent("\"cron_add\",\"params\":[0,60]"));
    assert_eq!(line(&client().cron_del()), sent("\"cron_del\",\"params\":[0]"));
    assert_eq!(
        line(&client().set_adjust(AdjustAction::Increase, AdjustProp::Bright)),
        sent("\"set_adjust\",\"params\":[\"increase\",\"bright\"]"),
    );
    assert_eq!(
        line(&client().set_adjust(AdjustAction::Decrease, AdjustProp::Ct)),
        sent("\"set_adjust\",\"params\":[\"decrease\",\"ct\"]"),
    );
    assert_eq!(
        line(&client().set_adjust(AdjustAction::Circle, AdjustProp::Color)),
        sent("\"set_adjust\",\"params\":[\"circle\",\"color\"]"),
    );
    assert_eq!(line(&client().adjust_bright(-100, 30)), sent("\"adjust_bright\",\"params\":[-100,30]"));
    assert_eq!(line(&client().adjust_ct(100, 0)), sent("\"adjust_ct\",\"params\":[100,0]"));
    assert_eq!(line(&client().adjust_color(u32::MAX)), sent("\"adjust_color\",\"params\":[0,4294967295]"));
    assert_eq!(line(&client().scene_color(0xffffff, 1)), sent("\"set_scene\",\"params\":[\"color\",16777215,1]"));
    assert_eq!(line(&client().scene_hsv(0, 0, 50)), sent("\"set_scene\",\"params\":[\"hsv\",0,0,50]"));
    assert_eq!(line(&client().scene_ct(1700, 100)), sent("\"set_scene\",\"params\":[\"ct\",1700,100]"));
    assert_eq!(line(&client().scene_auto_delay_off(50, 0)), sent("\"set_scene\",\"params\":[\"auto_delay_off\",50,0]"));
    assert_eq!(
        line(&client().set_music(true, Some("192.168.1.2"), Some(54321))),
        sent("\"set_music\",\"params\":[1,\"192.168.1.2\",54321]"),
    );
    assert_eq!(line(&client().set_music(false, None, None)), sent("\"set_music\",\"params\":[0]"));
    assert_eq!(line(&client().set_name("desk")), sent("\"set_name\",\"params\":[\"desk\"]"));
}

#[test]
fn parameters_out_of_range_are_refused() {
    let t = Transition::Sudden;
    assert_eq!(reason(client().set_brightness(0, t)), "brightness must be 1–100");
    assert_eq!(reason(client().set_brightness(101, t)), "brightness must be 1–100");
    assert_eq!(reason(client().set_ct(1699, t)), "ct must be 1700–6500 K");
    assert_eq!(reason(client().set_ct(6501, t)), "ct must be 1700–6500 K");
    assert_eq!(reason(client().set_rgb(0x100_0000, t)), "rgb must be 0–16_777_215");
    assert_eq!(reason(client().set_hsv(360, 101, t)), "hue must be 0–359");
    assert_eq!(reason(client().set_hsv(0, 101, t)), "sat must be 0–100");
    assert_eq!(reason(client().cron_add(0)), "minutes must be 1–60");
    assert_eq!(reason(client().cron_add(61)), "minutes must be 1–60");
    for action in [AdjustAction::Increase, AdjustAction::Decrease] {
        assert_eq!(
            reason(client().set_adjust(action, AdjustProp::Color)),
            "AdjustProp::Color only supports AdjustAction::Circle",
        );
    }
    assert_eq!(reason(client().adjust_bright(-101, 0)), "percentage must be -100–100");
    assert_eq!(reason(client().adjust_ct(101, 0)), "percentage must be -100–100");
    assert_eq!(reason(client().scene_color(0x100_0000, 0)), "rgb must be 0–16_777_215");
    assert_eq!(reason(client().scene_color(0, 0)), "brightness must be 1–100");
    assert_eq!(reason(client().scene_hsv(360, 0, 1)), "hue must be 0–359");
    assert_eq!(reason(client().scene_hsv(0, 101, 1)), "sat must be 0–100");
    assert_eq!(reason(client().scene_hsv(0, 0, 101)), "brightness must be 1–100");
    assert_eq!(reason(client().scene_ct(0, 1)), "ct must be 1700–6500 K");
    assert_eq!(reason(client().scene_ct(1700, 0)), "brightness must be 1–100");
    assert_eq!(reason(client().scene_auto_delay_off(0, 1)), "brightness must be 1–100");
    assert_eq!(reason(client().set_music(true, None, None)), "host required when enabling music mode");
    assert_eq!(reason(client().set_music(true, Some("h"), None)), "port required when enabling music mode");
    assert_eq!(reason(client().set_name(&"x".repeat(65))), "name must be ≤ 64 bytes");
    assert_eq!(reason(client().set_name(&"é".repeat(33))), "name must be ≤ 64 bytes");
    assert!(client().set_name(&"é".repeat(32)).is_ok());
}

#[test]
fn a_refused_command_changes_nothing() {
    let mut c = client();
    let _ = c.set_brightness(0, Transition::Sudden);
    let _ = c.set_name(&"x".repeat(65));
    assert_eq!(c.state().brightness, None);
    assert_eq!(line(&c.cron_del()), sent("\"cron_del\",\"params\":[0]"));
}

#[test]
fn a_short_transition_takes_thirty_milliseconds() {
    assert_eq!(Transition::Smooth(0).duration(), 30);
    assert_eq!(Transition::Smooth(29).duration(), 30);
    assert_eq!(Transition::Smooth(30).duration(), 30);
    assert_eq!(Transition::Smooth(31).duration(), 31);
    assert_eq!(Transition::Smooth(u32::MAX).duration(), u32::MAX);
    assert_eq!(Transition::Sudden.duration(), 0);
    assert_eq!(Transition::Sudden.effect(), "sudden");
    assert_eq!(Transition::Smooth(1).effect(), "smooth");
}

#[test]
fn power_modes_are_numbered_from_zero() {
    let modes = [
        PowerMode::Normal,
        PowerMode::Ct,
        PowerMode::Rgb,
        PowerMode::Hsv,
        PowerMode::ColorFlow,
        PowerMode::Night,
    ];
    for (i, mode) in modes.into_iter().enumerate() {
        assert_eq!(mode.code() as usize, i);
    }
}

#[test]
fn a_command_that_is_written_updates_the_state() {
    let mut c = client();
    let t = Transition::Sudden;
    let w = c.toggle();
    assert_eq!(c.state().power, None);
    done(&mut c, w);
    assert_eq!(c.state().power, Some(true));
    let w = c.set_power(false, t, None);
    done(&mut c, w);
    assert_eq!(c.state().power, Some(false));
    let w = c.set_brightness(40, t);
    done(&mut c, w);
    assert_eq!(c.state().brightness, Some(40));
    let w = c.set_ct(3000, t);
    done(&mut c, w);
    assert_eq!((c.state().ct, c.state().color_mode), (Some(3000), Some(ColorMode::ColorTemp)));
    let w = c.set_rgb(1, t);
    done(&mut c, w);
    assert_eq!((c.state().rgb, c.state().color_mode), (Some(1), Some(ColorMode::Rgb)));
    let w = c.set_hsv(9, 8, t);
    done(&mut c, w);
    assert_eq!((c.state().hue, c.state().sat), (Some(9), Some(8)));
    assert_eq!(c.state().color_mode, Some(ColorMode::Hsv));
    let w = c.set_name("lamp");
    done(&mut c, w);
    assert_eq!(c.state().name.as_deref(), Some("lamp"));
}

#[test]
fn a_scene_sets_the_light_and_switches_it_on() {
    let mut c = client();
    let w = c.set_power(false, Transition::Sudden, None);
    done(&mut c, w);
    let w = c.scene_color(0x12_3456, 7);
    assert_eq!(c.state().power, Some(false));
    done(&mut c, w);
    let s = c.state();
    assert_eq!((s.power, s.brightness, s.rgb), (Some(true), Some(7), Some(0x12_3456)));
    assert_eq!(s.color_mode, Some(ColorMode::Rgb));
    let w = c.scene_hsv(300, 50, 8);
    done(&mut c, w);
    let s = c.state();
    assert_eq!((s.brightness, s.hue, s.sat), (Some(8), Some(300), Some(50)));
    assert_eq!((s.color_mode, s.rgb), (Some(ColorMode::Hsv), Some(0x12_3456)));
    let w = c.scene_ct(2700, 9);
    done(&mut c, w);
    let s = c.state();
    assert_eq!((s.brightness, s.ct), (Some(9), Some(2700)));
    assert_eq!(s.color_mode, Some(ColorMode::ColorTemp));
}

#[test]
fn a_delayed_switch_off_switches_on_first() {
    let mut c = client();
    let w = c.scene_auto_delay_off(60, 5);
    done(&mut c, w);
    assert_eq!((c.state().power, c.state().brightness), (Some(true), Some(60)));
    assert_eq!(c.state().color_mode, None);
}

#[test]
fn music_mode_and_color_flow_are_known() {
    let mut c = client();
    let w = c.set_music(true, Some("10.0.0.1"), Some(1));
    done(&mut c, w);
    assert_eq!(c.state().music_on, Some(true));
    let w = c.set_music(false, None, None);
    done(&mut c, w);
    assert_eq!(c.state().music_on, Some(false));
    c.handle_notification("{\"method\":\"props\",\"params\":{\"flowing\":\"1\"}}");
    assert_eq!(c.state().flowing, Some(true));
    let w = c.stop_cf();
    done(&mut c, w);
    assert_eq!(c.state().flowing, Some(false));
}

#[test]
fn toggling_both_lights_toggles_the_power() {
    let mut c = client();
    for on in [true, false, true] {
        let w = c.dev_toggle();
        done(&mut c, w);
        assert_eq!(c.state().power, Some(on));
    }
}

#[test]
fn power_on_switches_into_a_mode() {
    let t = Transition::Sudden;
    for (mode, color_mode) in [
        (PowerMode::Ct, Some(ColorMode::ColorTemp)),
        (PowerMode::Rgb, Some(ColorMode::Rgb)),
        (PowerMode::Hsv, Some(ColorMode::Hsv)),
        (PowerMode::Normal, None),
        (PowerMode::ColorFlow, None),
        (PowerMode::Night, None),
    ] {
        let flowing = matches!(mode, PowerMode::ColorFlow).then_some(true);
        let mut c = client();
        let w = c.set_power(false, t, Some(mode));
        done(&mut c, w);
        assert_eq!((c.state().power, c.state().color_mode), (Some(false), None));
        assert_eq!(c.state().flowing, None);
        let w = c.set_power(true, t, Some(mode));
        done(&mut c, w);
        assert_eq!((c.state().power, c.state().color_mode), (Some(true), color_mode));
        assert_eq!(c.state().flowing, flowing);
    }
}

#[test]
fn what_only_the_bulb_knows_stays_as_it_was() {
    let mut c = client();
    let w = c.scene_color(1, 2);
    done(&mut c, w);
    let before = format!("{:?}", c.state());
    let w = c.adjust_bright(10, 30);
    done(&mut c, w);
    let w = c.adjust_ct(10, 30);
    done(&mut c, w);
    let w = c.adjust_color(30);
    done(&mut c, w);
    let w = c.set_adjust(AdjustAction::Circle, AdjustProp::Color);
    done(&mut c, w);
    let w = c.set_default();
    done(&mut c, w);
    let w = c.cron_add(1);
    done(&mut c, w);
    let w = c.cron_del();
    done(&mut c, w);
    assert_eq!(format!("{:?}", c.state()), before);
}

#[test]
fn what_is_reported_out_of_range_is_unknown() {
    let line = "{\"result\":[\"on\",\"0\",\"1699\",\"16777216\",\"360\",\"101\",\"4\"]}";
    let c = YeelightClient::connect(ADDR, line).unwrap();
    let s = c.state();
    assert_eq!((s.power, s.brightness, s.ct), (Some(true), None, None));
    assert_eq!((s.rgb, s.hue, s.sat), (None, None, None));
    assert_eq!(s.color_mode, None);
}

#[test]
fn a_lost_connection_is_made_anew_once() {
    let mut c = client();
    let w = c.toggle().unwrap();
    let again = match c.written(w, lost()) {
        Written::Reconnect(again) => again,
        _ => panic!("no second attempt"),
    };
    let w = c.reconnected(again, Ok(()));
    assert_eq!(line(&w), "{\"id\":3,\"method\":\"toggle\",\"params\":[]}");
    assert_eq!(c.state().power, None);
    match c.written(w.unwrap(), lost()) {
        Written::Done(Err(YeelightError::Io(e))) => assert_eq!(e.kind(), ErrorKind::BrokenPipe),
        _ => panic!("more than two attempts"),
    }
    assert_eq!(c.state().power, None);
}

#[test]
fn a_second_attempt_that_succeeds_updates_the_state() {
    let mut c = client();
    let w = c.set_name("desk").unwrap();
    if let Written::Reconnect(again) = c.written(w, lost()) {
        let w = c.reconnected(again, Ok(()));
        assert_eq!(line(&w), "{\"id\":3,\"method\":\"set_name\",\"params\":[\"desk\"]}");
        done(&mut c, w);
    }
    assert_eq!(c.state().name.as_deref(), Some("desk"));
}

#[test]
fn a_connection_that_cannot_be_made_anew_is_an_error() {
    let mut c = client();
    let w = c.set_brightness(5, Transition::Sudden).unwrap();
    if let Written::Reconnect(again) = c.written(w, lost()) {
        let r = c.reconnected(again, Err(Error::from(ErrorKind::ConnectionRefused)));
        assert!(matches!(r, Err(YeelightError::Io(e)) if e.kind() == ErrorKind::ConnectionRefused));
    }
    assert_eq!(c.state().brightness, None);
    assert_eq!(line(&c.cron_del()), "{\"id\":3,\"method\":\"cron_del\",\"params\":[0]}");
}

#[test]
fn ids_count_up_from_two() {
    let mut c = client();
    for id in 2..50u32 {
        assert_eq!(line(&c.toggle()), format!("{{\"id\":{id},\"method\":\"toggle\",\"params\":[]}}"));
    }
}

#[test]
fn each_id_is_handed_out_once() {
    let mut c = client();
    for k in 0..100 {
        assert_eq!(c.next_id(), k + 2);
    }
    assert_eq!(line(&c.toggle()), "{\"id\":102,\"method\":\"toggle\",\"params\":[]}");
    assert_eq!(c.next_id(), 103);
}

#[test]
fn a_notification_updates_the_state() {
    let mut c = client();
    c.handle_notification("{\"method\":\"props\",\"params\":{\"power\":\"on\", \"bright\": \"10\"}}");
    assert_eq!(c.state().power, Some(true));
    assert_eq!(c.state().brightness, Some(10));
    c.handle_notification("{\"method\":\"props\",\"params\":{\"bright\":10}}");
    assert_eq!(c.state().brightness, None);
    assert_eq!(c.state().power, Some(true));
}

#[test]
fn other_lines_change_nothing() {
    let mut c = client();
    c.handle_notification("{\"method\":\"props\",\"params\":{\"power\":\"on\"}}");
    let before = format!("{:?}", c.state());
    let lines = [
        "",
        "nonsense",
        "{\"id\":2,\"result\":[\"ok\"]}",
        "{\"method\":\"prop\",\"params\":{\"power\":\"off\"}}",
        "{\"method\":\"props\",\"params\":[\"power\",\"off\"]}",
        "{\"method\":\"props\"}",
        "{\"params\":{\"power\":\"off\"}}",
        "[]",
    ];
    for l in lines {
        c.handle_notification(l);
        assert_eq!(format!("{:?}", c.state()), before);
    }
}

#[test]
fn errors_say_what_went_wrong() {
    let e = YeelightError::from(Error::new(ErrorKind::Other, "cable cut"));
    assert_eq!(e.message(), "IO error: cable cut");
    let json = serde_json::from_str::<serde_json::Value>("{").unwrap_err();
    let detail = json.to_string();
    assert_eq!(YeelightError::from(json).message(), format!("JSON error: {detail}"));
    let e = YeelightError::InvalidParam("hue must be 0–359");
    assert_eq!(e.message(), "Invalid parameter: hue must be 0–359");
    let e = YeelightError::Protocol("no".to_string());
    assert_eq!(e.message(), "Protocol error: no");
}

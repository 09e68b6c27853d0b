use sakura::state::StateUpdate;
use sakura::{ColorMode, LightState};

fn props(list: &[(&str, &str)]) -> Vec<(String, Option<String>)> {
    list.iter().map(|(k, v)| (k.to_string(), Some(v.to_string()))).collect()
}

fn all(state: &LightState) -> String {
    format!("{state:?}")
}

#[test]
fn color_modes_have_the_numbers_one_to_three() {
    assert_eq!(ColorMode::try_from(0), Err(()));
    assert_eq!(ColorMode::try_from(1), Ok(ColorMode::Rgb));
    assert_eq!(ColorMode::try_from(2), Ok(ColorMode::ColorTemp));
    assert_eq!(ColorMode::try_from(3), Ok(ColorMode::Hsv));
    for v in 4..=255u8 {
        assert_eq!(ColorMode::try_from(v), Err(()));
    }
    for mode in [ColorMode::Rgb, ColorMode::ColorTemp, ColorMode::Hsv] {
        assert_eq!(ColorMode::try_from(mode.code()), Ok(mode));
    }
}

#[test]
fn nothing_is_known_at_first() {
    let s = LightState::default();
    assert_eq!(s.power, None);
    assert_eq!(s.brightness, None);
    assert_eq!(s.ct, None);
    assert_eq!(s.rgb, None);
    assert_eq!(s.hue, None);
    assert_eq!(s.sat, None);
    assert_eq!(s.color_mode, None);
    assert_eq!(s.flowing, None);
    assert_eq!(s.music_on, None);
    assert_eq!(s.name, None);
}

#[test]
fn a_report_sets_every_property() {
    let mut s = LightState::default();
    s.apply_props(&props(&[
        ("power", "on"),
        ("bright", "80"),
        ("ct", "4000"),
        ("rgb", "16711680"),
        ("hue", "359"),
        ("sat", "100"),
        ("color_mode", "2"),
        ("flowing", "0"),
        ("music_on", "1"),
        ("name", "desk"),
    ]));
    assert_eq!(s.power, Some(true));
    assert_eq!(s.brightness, Some(80));
    assert_eq!(s.ct, Some(4000));
    assert_eq!(s.rgb, Some(16_711_680));
    assert_eq!(s.hue, Some(359));
    assert_eq!(s.sat, Some(100));
    assert_eq!(s.color_mode, Some(ColorMode::ColorTemp));
    assert_eq!(s.flowing, Some(false));
    assert_eq!(s.music_on, Some(true));
    assert_eq!(s.name.as_deref(), Some("desk"));
}

#[test]
fn what_is_not_reported_stays() {
    let mut s = LightState::default();
    s.apply_props(&props(&[("power", "on"), ("bright", "80"), ("name", "desk")]));
    s.apply_props(&props(&[("bright", "10"), ("delayoff", "5")]));
    assert_eq!(s.power, Some(true));
    assert_eq!(s.brightness, Some(10));
    assert_eq!(s.name.as_deref(), Some("desk"));
    assert_eq!(s.ct, None);
}

#[test]
fn what_cannot_be_read_becomes_unknown() {
    let mut s = LightState::default();
    s.apply_props(&props(&[
        ("power", "on"),
        ("bright", "80"),
        ("ct", "4000"),
        ("color_mode", "1"),
        ("flowing", "1"),
        ("name", "desk"),
    ]));
    s.apply_props(&props(&[
        ("power", "ON"),
        ("bright", "256"),
        ("ct", "x"),
        ("color_mode", "4"),
        ("flowing", "true"),
    ]));
    assert_eq!(s.power, Some(false));
    assert_eq!(s.brightness, None);
    assert_eq!(s.ct, None);
    assert_eq!(s.color_mode, None);
    assert_eq!(s.flowing, Some(false));
    assert_eq!(s.name.as_deref(), Some("desk"));
}

#[test]
fn what_is_out_of_range_becomes_unknown() {
    for (key, least, most, below, above) in [
        ("bright", "1", "100", "0", "101"),
        ("bright", "1", "100", "00", "200"),
        ("ct", "1700", "6500", "1699", "6501"),
        ("rgb", "0", "16777215", "-1", "16777216"),
        ("hue", "0", "359", "-1", "360"),
        ("sat", "0", "100", "-1", "101"),
    ] {
        for (value, known) in [(least, true), (below, false), (most, true), (above, false)] {
            let mut s = LightState::default();
            s.apply_props(&props(&[(key, most), (key, value)]));
            let number = match key {
                "bright" => s.brightness.map(u32::from),
                "ct" => s.ct.map(u32::from),
                "rgb" => s.rgb,
                "hue" => s.hue.map(u32::from),
                _ => s.sat.map(u32::from),
            };
            assert_eq!(number, if known { value.parse().ok() } else { None });
        }
    }
}

#[test]
fn a_value_that_is_no_text_counts_as_empty() {
    let mut s = LightState::default();
    s.apply_props(&props(&[("power", "on"), ("bright", "80"), ("name", "desk")]));
    s.apply_props(&vec![
        ("power".to_string(), None),
        ("bright".to_string(), None),
        ("name".to_string(), None),
    ]);
    assert_eq!(s.power, Some(false));
    assert_eq!(s.brightness, None);
    assert_eq!(s.name.as_deref(), Some(""));
}

#[test]
fn the_order_of_a_report_does_not_matter() {
    let mut a = LightState::default();
    let mut b = LightState::default();
    a.apply_props(&props(&[("bright", "1"), ("ct", "1700"), ("power", "off")]));
    b.apply_props(&props(&[("power", "off"), ("bright", "1"), ("ct", "1700")]));
    assert_eq!(all(&a), all(&b));
}

#[test]
fn a_report_that_comes_twice_changes_nothing_more() {
    let report = props(&[("bright", "7"), ("color_mode", "9"), ("name", "x")]);
    let mut a = LightState::default();
    a.apply_props(&report);
    let once = all(&a);
    a.apply_props(&report);
    assert_eq!(all(&a), once);
}

#[test]
fn the_later_report_counts() {
    let mut a = LightState::default();
    a.apply_props(&props(&[("bright", "7"), ("power", "on")]));
    a.apply_props(&props(&[("bright", "8")]));
    let mut b = LightState::default();
    b.apply_props(&props(&[("bright", "7"), ("power", "on"), ("bright", "8")]));
    assert_eq!(all(&a), all(&b));
    assert_eq!(a.brightness, Some(8));
}

#[test]
fn toggling_twice_gives_the_power_back() {
    for on in [false, true] {
        let mut s = LightState::default();
        s.apply_update(StateUpdate::Power(on));
        s.apply_update(StateUpdate::TogglePower);
        assert_eq!(s.power, Some(!on));
        s.apply_update(StateUpdate::TogglePower);
        assert_eq!(s.power, Some(on));
    }
    let mut s = LightState::default();
    s.apply_update(StateUpdate::TogglePower);
    assert_eq!(s.power, Some(true));
}

#[test]
fn an_update_is_as_reported() {
    let pairs = [
        (StateUpdate::Power(true), props(&[("power", "on")])),
        (StateUpdate::Power(false), props(&[("power", "off")])),
        (StateUpdate::Brightness(40), props(&[("bright", "40")])),
        (StateUpdate::Ct(1700), props(&[("ct", "1700"), ("color_mode", "2")])),
        (StateUpdate::Rgb(0xff_ffff), props(&[("rgb", "16777215"), ("color_mode", "1")])),
        (StateUpdate::Hsv(359, 0), props(&[("hue", "359"), ("sat", "0"), ("color_mode", "3")])),
        (StateUpdate::OnInMode(ColorMode::Hsv), props(&[("power", "on"), ("color_mode", "3")])),
        (StateUpdate::OnFlowing, props(&[("power", "on"), ("flowing", "1")])),
        (StateUpdate::OnAt(5), props(&[("power", "on"), ("bright", "5")])),
        (
            StateUpdate::SceneCt(6500, 1),
            props(&[("power", "on"), ("bright", "1"), ("ct", "6500"), ("color_mode", "2")]),
        ),
        (
            StateUpdate::SceneColor(0, 100),
            props(&[("power", "on"), ("bright", "100"), ("rgb", "0"), ("color_mode", "1")]),
        ),
        (
            StateUpdate::SceneHsv(1, 2, 3),
            props(&[
                ("power", "on"),
                ("bright", "3"),
                ("hue", "1"),
                ("sat", "2"),
                ("color_mode", "3"),
            ]),
        ),
        (StateUpdate::Flowing(false), props(&[("flowing", "0")])),
        (StateUpdate::Music(true), props(&[("music_on", "1")])),
        (StateUpdate::Name("lamp".to_string()), props(&[("name", "lamp")])),
        (StateUpdate::Nothing, props(&[])),
    ];
    for (update, report) in pairs {
        let mut a = LightState::default();
        let mut b = LightState::default();
        a.apply_update(update);
        b.apply_props(&report);
        assert_eq!(all(&a), all(&b));
    }
}

#[test]
fn a_snapshot_is_a_copy() {
    let mut s = LightState::default();
    s.apply_props(&props(&[("name", "desk"), ("bright", "3")]));
    let copy = s.clone();
    s.apply_update(StateUpdate::Brightness(4));
    assert_eq!(copy.brightness, Some(3));
    assert_eq!(copy.name.as_deref(), Some("desk"));
}

use gauge_cluster::config::{
    AreaSize, Colors, Config, Gauge as GaugeConfig, GaugeDataType, GaugeType, Rgb, StartPoint,
};
use gauge_cluster::gauge::dial::Dial;
use gauge_cluster::gauge::textgauge::TextGauge;
use gauge_cluster::gauge::{Colour, Digits, Gauge, Shape};
use gauge_cluster::geometry::{Point, Rect, Size};
use gauge_cluster::registry::{ConfigError, GaugeSetup, Problem, Registry};
use gauge_cluster::scalar::{Scalar, UNIT};

fn dial_config(frame_id: u32, slot_id: u8, data_type: GaugeDataType) -> GaugeConfig {
    GaugeConfig {
        frame_id,
        slot_id,
        gauge: GaugeType::Dial,
        data_type,
        title: String::from("Oil"),
        unit: String::from("bar"),
        min_value: Some(Scalar::whole(0)),
        max_value: Some(Scalar::whole(100)),
        indicators: Some(vec![Scalar::whole(80)]),
        digits: 0,
        point: StartPoint { x: 0, y: 0 },
        size: AreaSize {
            width: 128,
            height: 128,
        },
    }
}

fn text_config(frame_id: u32, slot_id: u8, data_type: GaugeDataType) -> GaugeConfig {
    GaugeConfig {
        frame_id,
        slot_id,
        gauge: GaugeType::TextGauge,
        data_type,
        title: String::from("IAT"),
        unit: String::from("C"),
        min_value: None,
        max_value: None,
        indicators: None,
        digits: 1,
        point: StartPoint { x: 128, y: 0 },
        size: AreaSize {
            width: 100,
            height: 20,
        },
    }
}

fn config(slot_size: u8, gauges: Vec<GaugeConfig>) -> Config {
    Config {
        interface: String::from("vcan0"),
        slot_size,
        width: 256,
        height: 128,
        gauges,
        colors: None,
    }
}

fn shown(registry: &Registry, position: usize) -> Scalar {
    match &registry.setup(position).gauge {
        Gauge::Dial(dial) => dial.current_value,
        Gauge::TextGauge(textgauge) => textgauge.value,
    }
}

#[test]
fn one_dial_follows_its_message() {
    let cluster = config(2, vec![dial_config(100, 1, GaugeDataType::U16)]);
    let mut registry = Registry::build(&cluster).unwrap();
    assert_eq!(shown(&registry, 0), Scalar::whole(0));
    let failed = registry.dispatch(100, &[0x00, 0x32, 0, 0, 0, 0, 0, 0]);
    assert_eq!(failed, Some(0));
    assert_eq!(shown(&registry, 0), Scalar::Finite(50 * UNIT));
    match &registry.setup(0).gauge {
        Gauge::Dial(dial) => {
            assert_eq!(dial.sweep(), Scalar::Finite(135 * UNIT));
            match &dial.draw()[0] {
                Shape::Arc { sweep, .. } => assert_eq!(*sweep, Scalar::Finite(-135 * UNIT)),
                other => panic!("not an arc: {:?}", other),
            }
        }
        Gauge::TextGauge(_) => panic!("not a dial"),
    }
}

#[test]
fn an_empty_configuration_gives_an_empty_registry() {
    let mut registry = Registry::build(&config(2, Vec::new())).unwrap();
    assert_eq!(registry.len(), 0);
    assert!(registry.lookup(0).is_none());
    assert_eq!(registry.dispatch(0, &[1, 2]), None);
    assert!(registry.draw().is_empty());
}

#[test]
fn gauges_keep_the_order_of_the_configuration() {
    let cluster = config(
        2,
        vec![
            dial_config(7, 1, GaugeDataType::U16),
            text_config(9, 1, GaugeDataType::U8),
            text_config(7, 2, GaugeDataType::I16),
            dial_config(9, 3, GaugeDataType::F16),
            text_config(7, 4, GaugeDataType::B8),
        ],
    );
    let registry = Registry::build(&cluster).unwrap();
    assert_eq!(registry.len(), 5);
    assert_eq!(registry.lookup(7), Some(&vec![0, 2, 4]));
    assert_eq!(registry.lookup(9), Some(&vec![1, 3]));
    assert_eq!(registry.lookup(8), None);
    for position in 0..5 {
        assert_eq!(
            registry.setup(position).frame_id,
            cluster.gauges[position].frame_id
        );
        assert_eq!(
            registry.setup(position).data_type,
            cluster.gauges[position].data_type
        );
    }
}

#[test]
fn slots_start_where_the_slot_width_puts_them() {
    let cluster = config(
        3,
        vec![
            text_config(1, 1, GaugeDataType::U8),
            text_config(1, 2, GaugeDataType::U8),
            text_config(1, 255, GaugeDataType::U8),
        ],
    );
    let registry = Registry::build(&cluster).unwrap();
    assert_eq!(registry.setup(0).slot_start, 0);
    assert_eq!(registry.setup(1).slot_start, 3);
    assert_eq!(registry.setup(2).slot_start, 762);
    let widest = config(255, vec![text_config(1, 255, GaugeDataType::U8)]);
    assert_eq!(Registry::build(&widest).unwrap().setup(0).slot_start, 64770);
}

#[test]
fn a_message_reaches_all_its_gauges_and_no_others() {
    let cluster = config(
        2,
        vec![
            text_config(7, 1, GaugeDataType::U16),
            text_config(9, 1, GaugeDataType::U16),
            text_config(7, 2, GaugeDataType::I16),
            text_config(7, 3, GaugeDataType::F16),
            text_config(7, 4, GaugeDataType::I8),
        ],
    );
    let mut registry = Registry::build(&cluster).unwrap();
    let failed = registry.dispatch(7, &[0x01, 0x00, 0xFF, 0xFF, 0x3C, 0x00, 0x80, 0x00]);
    assert_eq!(failed, Some(0));
    assert_eq!(shown(&registry, 0), Scalar::whole(256));
    assert_eq!(shown(&registry, 1), Scalar::whole(0));
    assert_eq!(shown(&registry, 2), Scalar::whole(-1));
    assert_eq!(shown(&registry, 3), Scalar::whole(1));
    assert_eq!(shown(&registry, 4), Scalar::whole(-128));
}

#[test]
fn a_message_that_feeds_no_gauge_is_ignored() {
    let cluster = config(2, vec![dial_config(100, 1, GaugeDataType::U16)]);
    let mut registry = Registry::build(&cluster).unwrap();
    let before = registry.setup(0).clone();
    assert_eq!(registry.dispatch(101, &[0x00, 0x32]), None);
    assert_eq!(*registry.setup(0), before);
}

#[test]
fn a_slot_outside_the_payload_leaves_its_gauge_alone() {
    let cluster = config(
        2,
        vec![
            text_config(7, 1, GaugeDataType::U16),
            text_config(7, 4, GaugeDataType::U16),
            text_config(7, 5, GaugeDataType::U16),
            text_config(7, 2, GaugeDataType::U16),
        ],
    );
    let mut registry = Registry::build(&cluster).unwrap();
    assert_eq!(registry.dispatch(7, &[0, 1, 0, 2, 0, 3, 0, 4]), Some(1));
    assert_eq!(shown(&registry, 0), Scalar::whole(1));
    assert_eq!(shown(&registry, 1), Scalar::whole(4));
    assert_eq!(shown(&registry, 2), Scalar::whole(0));
    assert_eq!(shown(&registry, 3), Scalar::whole(2));
    // A short frame reaches the gauges whose slots it still holds.
    assert_eq!(registry.dispatch(7, &[0, 9, 0]), Some(3));
    assert_eq!(shown(&registry, 0), Scalar::whole(9));
    assert_eq!(shown(&registry, 1), Scalar::whole(4));
    assert_eq!(shown(&registry, 2), Scalar::whole(0));
    assert_eq!(shown(&registry, 3), Scalar::whole(2));
    assert_eq!(registry.dispatch(7, &[]), Some(4));
}

#[test]
fn a_later_message_replaces_the_value() {
    let cluster = config(1, vec![text_config(3, 2, GaugeDataType::I8)]);
    let mut registry = Registry::build(&cluster).unwrap();
    registry.dispatch(3, &[0, 5]);
    assert_eq!(shown(&registry, 0), Scalar::whole(5));
    registry.dispatch(3, &[0, 0xFB]);
    assert_eq!(shown(&registry, 0), Scalar::whole(-5));
}

#[test]
fn a_dial_is_built_as_configured() {
    let mut wanted = dial_config(100, 1, GaugeDataType::U16);
    wanted.min_value = Some(Scalar::whole(-40));
    wanted.max_value = Some(Scalar::whole(150));
    wanted.indicators = Some(vec![Scalar::whole(90), Scalar::whole(120)]);
    wanted.digits = 2;
    wanted.point = StartPoint { x: 64, y: 8 };
    let cluster = config(2, vec![wanted]);
    let registry = Registry::build(&cluster).unwrap();
    let bounding = Rect {
        top_left: Point { x: 64, y: 8 },
        size: Size {
            width: 128,
            height: 128,
        },
    };
    let expected = Dial::new(
        "Oil",
        Scalar::whole(-40),
        Scalar::whole(150),
        Scalar::whole(-40),
        Digits::Two,
        bounding,
        &[Scalar::whole(90), Scalar::whole(120)],
        &cluster,
    );
    assert_eq!(registry.setup(0).gauge, Gauge::Dial(expected));
}

#[test]
fn a_text_gauge_is_built_as_configured() {
    let cluster = config(2, vec![text_config(5, 1, GaugeDataType::U8)]);
    let registry = Registry::build(&cluster).unwrap();
    let bounding = Rect {
        top_left: Point { x: 128, y: 0 },
        size: Size {
            width: 100,
            height: 20,
        },
    };
    let expected = TextGauge::new(
        "IAT",
        "C",
        Scalar::Finite(0),
        Digits::Single,
        bounding,
        &cluster,
    );
    assert_eq!(registry.setup(0).gauge, Gauge::TextGauge(expected));
}

#[test]
fn gauges_take_the_primary_colour_of_the_configuration() {
    let mut cluster = config(
        2,
        vec![
            dial_config(1, 1, GaugeDataType::U8),
            text_config(1, 2, GaugeDataType::U8),
        ],
    );
    cluster.colors = Some(Colors {
        primary: Rgb { r: 1, g: 2, b: 3 },
        background: Rgb { r: 4, g: 5, b: 6 },
    });
    let registry = Registry::build(&cluster).unwrap();
    let primary = Colour::Rgb(Rgb { r: 1, g: 2, b: 3 });
    match &registry.setup(0).gauge {
        Gauge::Dial(dial) => assert_eq!(dial.colour, primary),
        Gauge::TextGauge(_) => panic!("not a dial"),
    }
    match &registry.setup(1).gauge {
        Gauge::TextGauge(textgauge) => assert_eq!(textgauge.colour, primary),
        Gauge::Dial(_) => panic!("not a text gauge"),
    }
}

#[test]
fn a_slot_index_of_zero_is_refused() {
    let cluster = config(
        2,
        vec![
            text_config(1, 1, GaugeDataType::U8),
            text_config(1, 0, GaugeDataType::U8),
        ],
    );
    assert_eq!(
        Registry::build(&cluster).err(),
        Some(ConfigError {
            gauge: 1,
            problem: Problem::SlotIndex
        })
    );
}

#[test]
fn a_dial_without_a_range_is_refused() {
    let mut no_min = dial_config(1, 1, GaugeDataType::U8);
    no_min.min_value = None;
    assert_eq!(
        Registry::build(&config(2, vec![no_min])).err(),
        Some(ConfigError {
            gauge: 0,
            problem: Problem::MissingRange
        })
    );
    let mut no_max = dial_config(1, 1, GaugeDataType::U8);
    no_max.max_value = None;
    assert_eq!(
        Registry::build(&config(2, vec![text_config(1, 1, GaugeDataType::U8), no_max])).err(),
        Some(ConfigError {
            gauge: 1,
            problem: Problem::MissingRange
        })
    );
}

#[test]
fn a_dial_without_indicators_is_refused_and_one_with_none_is_not() {
    let mut missing = dial_config(1, 1, GaugeDataType::U8);
    missing.indicators = None;
    assert_eq!(
        Registry::build(&config(2, vec![missing])).err(),
        Some(ConfigError {
            gauge: 0,
            problem: Problem::MissingIndicators
        })
    );
    let mut empty = dial_config(1, 1, GaugeDataType::U8);
    empty.indicators = Some(Vec::new());
    assert!(Registry::build(&config(2, vec![empty])).is_ok());
}

#[test]
fn a_gauge_that_does_not_fit_is_refused() {
    let mut dial = dial_config(1, 1, GaugeDataType::U8);
    dial.point = StartPoint { x: i32::MAX, y: 0 };
    assert_eq!(
        Registry::build(&config(2, vec![dial])).err(),
        Some(ConfigError {
            gauge: 0,
            problem: Problem::OutOfBounds
        })
    );
    let mut text = text_config(1, 1, GaugeDataType::U8);
    text.size = AreaSize {
        width: u32::MAX,
        height: 1,
    };
    assert_eq!(
        Registry::build(&config(2, vec![text])).err(),
        Some(ConfigError {
            gauge: 0,
            problem: Problem::OutOfBounds
        })
    );
}

#[test]
fn the_first_problem_is_the_one_reported() {
    let mut no_range = dial_config(1, 0, GaugeDataType::U8);
    no_range.min_value = None;
    no_range.indicators = None;
    no_range.point = StartPoint { x: i32::MAX, y: 0 };
    // Of one gauge, the slot index comes first, then the range.
    assert_eq!(
        Registry::build(&config(2, vec![no_range.clone()])).err(),
        Some(ConfigError {
            gauge: 0,
            problem: Problem::SlotIndex
        })
    );
    no_range.slot_id = 1;
    assert_eq!(
        Registry::build(&config(2, vec![no_range.clone()])).err(),
        Some(ConfigError {
            gauge: 0,
            problem: Problem::MissingRange
        })
    );
    no_range.min_value = Some(Scalar::whole(0));
    assert_eq!(
        Registry::build(&config(2, vec![no_range.clone()])).err(),
        Some(ConfigError {
            gauge: 0,
            problem: Problem::MissingIndicators
        })
    );
    // Of several gauges, the first that has one.
    let cluster = config(
        2,
        vec![
            text_config(1, 1, GaugeDataType::U8),
            text_config(1, 0, GaugeDataType::U8),
            no_range,
        ],
    );
    assert_eq!(
        Registry::build(&cluster).err(),
        Some(ConfigError {
            gauge: 1,
            problem: Problem::SlotIndex
        })
    );
}

#[test]
fn a_text_gauge_needs_no_range() {
    let mut text = text_config(1, 1, GaugeDataType::U8);
    text.min_value = None;
    text.max_value = None;
    text.indicators = None;
    assert!(Registry::build(&config(2, vec![text])).is_ok());
}

#[test]
fn the_registry_draws_every_gauge_in_order() {
    let cluster = config(
        2,
        vec![
            dial_config(7, 1, GaugeDataType::U16),
            text_config(9, 1, GaugeDataType::U8),
            text_config(7, 2, GaugeDataType::I16),
        ],
    );
    let mut registry = Registry::build(&cluster).unwrap();
    registry.dispatch(7, &[0, 25, 0xFF, 0xFE]);
    let mut expected = Vec::new();
    for position in 0..registry.len() {
        expected.extend(registry.setup(position).gauge.draw());
    }
    let shapes = registry.draw();
    assert_eq!(shapes, expected);
    match &shapes[0] {
        Shape::Arc { sweep, .. } => assert_eq!(*sweep, Scalar::Finite(-(270 * UNIT) / 4)),
        other => panic!("not an arc: {:?}", other),
    }
    match &shapes[shapes.len() - 2] {
        Shape::Text { text, .. } => assert_eq!(text, "-2.0 C"),
        other => panic!("not a text: {:?}", other),
    }
}

#[test]
fn a_setup_binds_a_gauge_to_its_slot() {
    let cluster = config(2, Vec::new());
    let wanted = text_config(42, 3, GaugeDataType::I16);
    let gauge = Gauge::TextGauge(TextGauge::new(
        "IAT",
        "C",
        Scalar::whole(0),
        Digits::Single,
        Rect {
            top_left: Point { x: 128, y: 0 },
            size: Size {
                width: 100,
                height: 20,
            },
        },
        &cluster,
    ));
    let setup = GaugeSetup::new(gauge.clone(), &wanted, 2);
    assert_eq!(
        setup,
        GaugeSetup {
            gauge,
            frame_id: 42,
            slot_start: 4,
            data_type: GaugeDataType::I16,
        }
    );
}

use gauge_cluster::config::{
    AreaSize, Config, Gauge as GaugeConfig, GaugeDataType, GaugeType, StartPoint,
};
use gauge_cluster::gauge::Gauge;
use gauge_cluster::registry::Registry;
use gauge_cluster::scalar::Scalar;
use gauge_cluster::scheduler::{Action, Event, FrameScheduler, Phase, MILLISECOND};

fn cluster() -> Registry {
    let config = Config {
        interface: String::from("vcan0"),
        slot_size: 2,
        width: 256,
        height: 128,
        gauges: vec![GaugeConfig {
            frame_id: 100,
            slot_id: 1,
            gauge: GaugeType::Dial,
            data_type: GaugeDataType::U16,
            title: String::from("Oil"),
            unit: String::new(),
            min_value: Some(Scalar::whole(0)),
            max_value: Some(Scalar::whole(100)),
            indicators: Some(Vec::new()),
            digits: 0,
            point: StartPoint { x: 0, y: 0 },
            size: AreaSize {
                width: 128,
                height: 128,
            },
        }],
        colors: None,
    };
    Registry::build(&config).unwrap()
}

fn shown(registry: &Registry) -> Scalar {
    match &registry.setup(0).gauge {
        Gauge::Dial(dial) => dial.current_value,
        Gauge::TextGauge(textgauge) => textgauge.value,
    }
}

#[test]
fn thirty_frames_a_second_are_thirty_three_milliseconds() {
    let scheduler = FrameScheduler::new(30);
    assert_eq!(scheduler.period_ns, 33 * MILLISECOND);
    assert_eq!(scheduler.phase, Phase::Drawing);
}

#[test]
fn frame_periods_are_whole_milliseconds() {
    assert_eq!(FrameScheduler::new(1).period_ns, 1000 * MILLISECOND);
    assert_eq!(FrameScheduler::new(60).period_ns, 16 * MILLISECOND);
    assert_eq!(FrameScheduler::new(1000).period_ns, MILLISECOND);
    assert_eq!(FrameScheduler::new(1001).period_ns, 0);
    assert_eq!(FrameScheduler::new(u32::MAX).period_ns, 0);
}

#[test]
fn the_budget_is_what_is_left_of_the_frame() {
    let scheduler = FrameScheduler::new(30);
    assert_eq!(scheduler.budget(0), Some(33 * MILLISECOND));
    assert_eq!(scheduler.budget(MILLISECOND), Some(32 * MILLISECOND));
    assert_eq!(scheduler.budget(12_345_678), Some(20_654_322));
    assert_eq!(scheduler.budget(32 * MILLISECOND), Some(MILLISECOND));
}

#[test]
fn less_than_a_millisecond_is_no_budget() {
    let scheduler = FrameScheduler::new(30);
    assert_eq!(scheduler.budget(32 * MILLISECOND + 1), None);
    assert_eq!(scheduler.budget(33 * MILLISECOND - 1), None);
    assert_eq!(scheduler.budget(33 * MILLISECOND), None);
    assert_eq!(scheduler.budget(33 * MILLISECOND + 1), None);
    assert_eq!(scheduler.budget(u64::MAX), None);
    assert_eq!(FrameScheduler::new(2000).budget(0), None);
}

#[test]
fn after_drawing_the_scheduler_reads() {
    let mut registry = cluster();
    let mut scheduler = FrameScheduler::new(30);
    let action = scheduler.step(
        &mut registry,
        Event::Drawn {
            quit: false,
            elapsed_ns: 2 * MILLISECOND,
        },
    );
    assert_eq!(
        action,
        Action::Read {
            timeout_ns: 31 * MILLISECOND
        }
    );
    assert_eq!(scheduler.phase, Phase::Draining);
    assert_eq!(scheduler.period_ns, 33 * MILLISECOND);
}

#[test]
fn a_slow_draw_leaves_no_time_to_read() {
    let mut registry = cluster();
    let mut scheduler = FrameScheduler::new(30);
    let action = scheduler.step(
        &mut registry,
        Event::Drawn {
            quit: false,
            elapsed_ns: 40 * MILLISECOND,
        },
    );
    assert_eq!(action, Action::Draw);
    assert_eq!(scheduler.phase, Phase::Drawing);
}

#[test]
fn a_request_to_quit_stops_the_scheduler_for_good() {
    let mut registry = cluster();
    let mut scheduler = FrameScheduler::new(30);
    let action = scheduler.step(
        &mut registry,
        Event::Drawn {
            quit: true,
            elapsed_ns: 0,
        },
    );
    assert_eq!(action, Action::Stop);
    assert_eq!(scheduler.phase, Phase::Stopped);
    let events = [
        Event::Drawn {
            quit: false,
            elapsed_ns: 0,
        },
        Event::Silence { elapsed_ns: 0 },
        Event::Message {
            id: 100,
            payload: vec![0, 50],
            elapsed_ns: 0,
        },
    ];
    for event in events {
        assert_eq!(scheduler.step(&mut registry, event), Action::Stop);
        assert_eq!(scheduler.phase, Phase::Stopped);
    }
    assert_eq!(shown(&registry), Scalar::whole(0));
}

#[test]
fn a_message_reaches_its_gauge_and_the_drain_goes_on() {
    let mut registry = cluster();
    let mut scheduler = FrameScheduler::new(30);
    scheduler.step(
        &mut registry,
        Event::Drawn {
            quit: false,
            elapsed_ns: MILLISECOND,
        },
    );
    let action = scheduler.step(
        &mut registry,
        Event::Message {
            id: 100,
            payload: vec![0x00, 0x32, 0, 0, 0, 0, 0, 0],
            elapsed_ns: 5 * MILLISECOND,
        },
    );
    assert_eq!(
        action,
        Action::Read {
            timeout_ns: 28 * MILLISECOND
        }
    );
    assert_eq!(scheduler.phase, Phase::Draining);
    assert_eq!(shown(&registry), Scalar::whole(50));
}

#[test]
fn the_last_message_of_a_frame_is_still_delivered() {
    let mut registry = cluster();
    let mut scheduler = FrameScheduler::new(30);
    scheduler.step(
        &mut registry,
        Event::Drawn {
            quit: false,
            elapsed_ns: MILLISECOND,
        },
    );
    let action = scheduler.step(
        &mut registry,
        Event::Message {
            id: 100,
            payload: vec![0x00, 0x07],
            elapsed_ns: 33 * MILLISECOND,
        },
    );
    assert_eq!(action, Action::Draw);
    assert_eq!(scheduler.phase, Phase::Drawing);
    assert_eq!(shown(&registry), Scalar::whole(7));
}

#[test]
fn messages_for_nobody_and_short_messages_keep_the_drain_going() {
    let mut registry = cluster();
    let mut scheduler = FrameScheduler::new(30);
    scheduler.step(
        &mut registry,
        Event::Drawn {
            quit: false,
            elapsed_ns: 0,
        },
    );
    let unbound = scheduler.step(
        &mut registry,
        Event::Message {
            id: 101,
            payload: vec![0, 50],
            elapsed_ns: MILLISECOND,
        },
    );
    assert_eq!(
        unbound,
        Action::Read {
            timeout_ns: 32 * MILLISECOND
        }
    );
    let short = scheduler.step(
        &mut registry,
        Event::Message {
            id: 100,
            payload: vec![50],
            elapsed_ns: 2 * MILLISECOND,
        },
    );
    assert_eq!(
        short,
        Action::Read {
            timeout_ns: 31 * MILLISECOND
        }
    );
    assert_eq!(shown(&registry), Scalar::whole(0));
}

#[test]
fn reads_that_always_time_out_end_the_drain_with_the_frame() {
    let mut registry = cluster();
    let mut scheduler = FrameScheduler::new(30);
    let mut frames = 0;
    let mut reads = 0;
    let mut clock_ns: u64 = 0;
    let mut frame_start_ns: u64 = 0;
    let mut frame_starts = Vec::new();
    let mut action = Action::Draw;
    while frames < 5 {
        let event = match action {
            Action::Draw => {
                frames += 1;
                frame_start_ns = clock_ns;
                frame_starts.push(clock_ns);
                // Drawing takes three milliseconds.
                clock_ns += 3 * MILLISECOND;
                Event::Drawn {
                    quit: false,
                    elapsed_ns: clock_ns - frame_start_ns,
                }
            }
            Action::Read { timeout_ns } => {
                reads += 1;
                assert!(timeout_ns >= MILLISECOND);
                assert!(clock_ns - frame_start_ns + timeout_ns <= 33 * MILLISECOND);
                // Nothing arrives: the read returns when its time is up.
                clock_ns += timeout_ns;
                Event::Silence {
                    elapsed_ns: clock_ns - frame_start_ns,
                }
            }
            Action::Stop => panic!("nobody asked to quit"),
        };
        action = scheduler.step(&mut registry, event);
    }
    assert_eq!(reads, 4);
    assert_eq!(
        frame_starts,
        vec![
            0,
            33 * MILLISECOND,
            66 * MILLISECOND,
            99 * MILLISECOND,
            132 * MILLISECOND
        ]
    );
}

#[test]
fn reads_that_fail_at_once_are_retried_until_the_frame_ends() {
    let mut registry = cluster();
    let mut scheduler = FrameScheduler::new(30);
    let mut elapsed_ns = 0;
    let mut action = scheduler.step(
        &mut registry,
        Event::Drawn {
            quit: false,
            elapsed_ns,
        },
    );
    let mut reads = 0;
    while let Action::Read { timeout_ns } = action {
        assert_eq!(timeout_ns, 33 * MILLISECOND - elapsed_ns);
        reads += 1;
        // Each failed read costs a quarter of a millisecond.
        elapsed_ns += MILLISECOND / 4;
        action = scheduler.step(&mut registry, Event::Silence { elapsed_ns });
    }
    assert_eq!(action, Action::Draw);
    // The last read starts with just a millisecond left.
    assert_eq!(reads, 32 * 4 + 1);
}

//! The command registry: parsing, execution, state machines, the pipe
//! supervisor and the mixer model.

use ravenbar::command::{
    Command, CommandObject, CommandSharedState, ConfigError, RawValue, new_command,
};
use ravenbar::command::state::StateSingleton;
use ravenbar::command::alsa::{ALSASingleton, VolumeChange};
use ravenbar::command::sysinfo::{
    MemoryInfoValue, NetCounters, NetInfoTime, NetInfoType, NetInfoValue, format_memory,
    format_net, net_value,
};

fn object(kind: &str) -> CommandObject {
    CommandObject {
        kind: Some(kind.to_string()),
        core: None,
        network: None,
        mountpoint: None,
        card: None,
        volume: None,
        state_machine: None,
        state: None,
        traverse: None,
    }
}

fn text(s: &str) -> RawValue {
    RawValue::Text(s.to_string())
}

#[test]
fn command_text_forms() {
    let mut state = CommandSharedState::new();
    match new_command(&text("  #hello")).unwrap() {
        c @ Command::Literal(_) => assert_eq!(c.execute(&mut state), "hello"),
        _ => panic!("expected a literal"),
    }
    match new_command(&text("|tail -f log")).unwrap() {
        Command::Pipe(p) => assert_eq!(p.0, "tail -f log"),
        _ => panic!("expected a pipe"),
    }
    match new_command(&text("echo hi")).unwrap() {
        Command::Shell(s) => assert_eq!(s.0, "echo hi"),
        _ => panic!("expected a shell command"),
    }
    match new_command(&text("   ")).unwrap() {
        c @ Command::Empty(_) => assert_eq!(c.execute(&mut state), ""),
        _ => panic!("expected the empty command"),
    }
}

#[test]
fn command_list_concatenates() {
    let mut state = CommandSharedState::new();
    let v = RawValue::List(vec![text("#ab"), text(""), text("#cd")]);
    let c = new_command(&v).unwrap();
    assert_eq!(c.execute(&mut state), "abcd");
}

#[test]
fn command_objects() {
    match new_command(&RawValue::Object(object("cpu_usage"))).unwrap() {
        Command::CpuUsage(_) => {},
        _ => panic!("expected a cpu usage command"),
    }
    let mut o = object("state_next");
    o.state_machine = Some("power".to_string());
    match new_command(&RawValue::Object(o)).unwrap() {
        Command::StateNext(n) => {
            assert_eq!(n.0, "power");
            assert_eq!(n.1, 1);
        },
        _ => panic!("expected a state next command"),
    }
    let err: Result<Command, ConfigError> = new_command(&RawValue::Object(object("warp_drive")));
    assert!(err.is_err());
    // A state command without a machine is a configuration error.
    assert!(new_command(&RawValue::Object(object("state_next"))).is_err());
}

#[test]
fn shell_commands_run() {
    let mut state = CommandSharedState::new();
    let c = new_command(&text("echo A")).unwrap();
    assert_eq!(c.execute(&mut state), "A\n");
}

#[test]
fn shell_warnings_are_collected() {
    let mut state = CommandSharedState::new();
    let ok = new_command(&text("true")).unwrap();
    ok.execute(&mut state);
    assert!(state.warnings.is_empty());
    let failing = new_command(&text("exit 3")).unwrap();
    failing.execute(&mut state);
    assert_eq!(state.warnings.len(), 1);
    assert_eq!(state.warnings[0].command, "exit 3");
    assert_eq!(state.warnings[0].code, 3);
    let noisy = new_command(&text("echo oops 1>&2")).unwrap();
    noisy.execute(&mut state);
    assert_eq!(state.warnings.len(), 2);
    assert!(state.warnings[1].stderr.contains("oops"));
}

#[test]
fn state_machine_next_and_set() {
    let mut states = StateSingleton::new();
    states.initialize(vec![(
        "power".to_string(),
        vec!["on".to_string(), "off".to_string(), "standby".to_string()],
    )]);
    let power = "power".to_string();
    assert_eq!(states.get(&power), 0);
    assert_eq!(states.get_state_id(&power, &"standby".to_string()), Some(2));
    assert_eq!(states.get_state_id(&power, &"warp".to_string()), None);
    assert_eq!(states.get(&"unknown".to_string()), -1);

    states.next(&power, 1);
    assert_eq!(states.get(&power), 1);
    states.next(&power, 2);
    assert_eq!(states.get(&power), 0);
    // A negative traverse leaves the truncated remainder's sign, as the
    // original arithmetic does.
    states.next(&power, -1);
    assert_eq!(states.get(&power), -1);
    states.set(&power, &"standby".to_string());
    assert_eq!(states.get(&power), 2);
    // Unknown names change nothing.
    states.set(&power, &"warp".to_string());
    assert_eq!(states.get(&power), 2);
    states.next(&"unknown".to_string(), 1);
    assert_eq!(states.get(&power), 2);
}

#[test]
fn state_commands_through_execute() {
    let mut state = CommandSharedState::new();
    state.states.initialize(vec![(
        "mode".to_string(),
        vec!["a".to_string(), "b".to_string()],
    )]);
    let mut o = object("state_next");
    o.state_machine = Some("mode".to_string());
    let next = new_command(&RawValue::Object(o)).unwrap();
    assert_eq!(next.execute(&mut state), "");
    assert_eq!(state.states.get(&"mode".to_string()), 1);
    let mut o = object("state_set");
    o.state_machine = Some("mode".to_string());
    o.state = Some("a".to_string());
    let set = new_command(&RawValue::Object(o)).unwrap();
    assert_eq!(set.execute(&mut state), "");
    assert_eq!(state.states.get(&"mode".to_string()), 0);
}

#[test]
fn pipe_respawns_exactly_once() {
    let mut state = CommandSharedState::new();
    let cmd = "producer".to_string();
    let pipe = new_command(&text("|producer")).unwrap();

    // First evaluation: nothing started yet, one respawn is requested.
    let out = pipe.execute(&mut state);
    assert_eq!(out, "");
    let plans = state.pipes.take_spawn_requests();
    assert_eq!(plans.len(), 1);
    assert_eq!(plans[0].cmd, cmd);
    assert!(plans[0].spawn_new);
    assert!(!plans[0].kill_old_child);
    assert!(!plans[0].join_old_reader);
    assert!(state.pipes.take_spawn_requests().is_empty());

    // The driver spawned the process and its reader.
    state.pipes.report_spawned(&cmd, true);
    state.pipes.report_line(&cmd, "hello".to_string());
    assert_eq!(pipe.execute(&mut state), "hello");
    assert!(state.pipes.take_spawn_requests().is_empty());
    // The line did not change since: no update signal.
    assert!(!pipe.updated(&mut state));

    // The process exited: the next evaluation requests exactly one
    // respawn, whose plan kills the stale child and joins the old reader
    // before the new spawn.
    state.pipes.report_exit(&cmd);
    assert_eq!(pipe.execute(&mut state), "hello");
    let plans = state.pipes.take_spawn_requests();
    assert_eq!(plans.len(), 1);
    assert!(plans[0].spawn_new);
    assert!(plans[0].kill_old_child);
    assert!(plans[0].join_old_reader);
    assert!(state.pipes.take_spawn_requests().is_empty());
}

#[test]
fn pipe_updated_signals_line_change() {
    let mut state = CommandSharedState::new();
    let cmd = "p".to_string();
    let pipe = new_command(&text("|p")).unwrap();
    pipe.execute(&mut state);
    state.pipes.report_spawned(&cmd, true);
    state.pipes.report_line(&cmd, "one".to_string());
    assert!(pipe.updated(&mut state));
    assert!(!pipe.updated(&mut state));
    state.pipes.report_line(&cmd, "two".to_string());
    assert!(pipe.updated(&mut state));
}

#[test]
fn volume_change_parsing() {
    assert_eq!(VolumeChange::new(&"+5%".to_string()), VolumeChange::Percent(true, 5000));
    assert_eq!(VolumeChange::new(&"-2.5%".to_string()), VolumeChange::Percent(true, -2500));
    assert_eq!(VolumeChange::new(&"40%".to_string()), VolumeChange::Percent(false, 40000));
    assert_eq!(VolumeChange::new(&"oops".to_string()), VolumeChange::Percent(false, 0));
    assert_eq!(VolumeChange::new(&"%".to_string()), VolumeChange::Percent(false, 0));
}

#[test]
fn mixer_model() {
    let mut mixer = ALSASingleton::new();
    let card: Option<String> = None;
    // Nothing reported yet: unreachable.
    assert_eq!(mixer.get_volume_percent(&card), "ERR");
    mixer.report_volumes("default".to_string(), Some((50, 0, 100)));
    assert_eq!(mixer.get_volume_percent(&card), "50%");
    assert!(mixer.has_volume_changed(&card));
    assert!(!mixer.has_volume_changed(&card));

    // A relative change of +10% from 50 out of [0, 100].
    mixer.set_volume_percent(&card, &VolumeChange::Percent(true, 10_000));
    let sets = mixer.take_pending_sets();
    assert_eq!(sets, vec![("default".to_string(), 60)]);
    // An absolute set beyond the range clamps to the maximum.
    mixer.set_volume_percent(&card, &VolumeChange::Percent(false, 150_000));
    assert_eq!(mixer.take_pending_sets(), vec![("default".to_string(), 100)]);
}

#[test]
fn memory_formatting() {
    assert_eq!(
        format_memory(&MemoryInfoValue::Total, 0, 2 * 1024 * 1024 * 1024),
        "2.00GiB"
    );
    assert_eq!(format_memory(&MemoryInfoValue::Usage, 1536, 4096), "1.50KiB");
    assert_eq!(format_memory(&MemoryInfoValue::Free, 1024, 2048), "1024.00B");
    assert_eq!(format_memory(&MemoryInfoValue::Percent, 1, 2), "50%");
    assert_eq!(format_memory(&MemoryInfoValue::Percent, 0, 0), "ERR");
    // Free saturates rather than wrapping when usage exceeds the total.
    assert_eq!(format_memory(&MemoryInfoValue::Free, 10, 5), "0.00B");
}

fn counters(name: &str, received: u64, transmitted: u64) -> NetCounters {
    NetCounters {
        name: name.to_string(),
        received,
        transmitted,
        packets_received: 3,
        packets_transmitted: 4,
        errors_received: 0,
        errors_transmitted: 0,
        total_received: 1000,
        total_transmitted: 2000,
        total_packets_received: 30,
        total_packets_transmitted: 40,
        total_errors_received: 0,
        total_errors_transmitted: 0,
    }
}

#[test]
fn net_aggregation() {
    let cs = vec![counters("eth0", 100, 200), counters("wlan0", 10, 20)];
    // Summed over all interfaces.
    assert_eq!(
        net_value(&cs, &None, &NetInfoType::Download, &NetInfoTime::Since, &NetInfoValue::Bytes, 0),
        Some(110)
    );
    // One interface only.
    assert_eq!(
        net_value(
            &cs,
            &Some("wlan0".to_string()),
            &NetInfoType::Upload,
            &NetInfoTime::Since,
            &NetInfoValue::Bytes,
            0,
        ),
        Some(20)
    );
    // Bits count eight to the byte; a rate scales by the sampled span.
    assert_eq!(
        net_value(
            &cs,
            &Some("eth0".to_string()),
            &NetInfoType::Download,
            &NetInfoTime::PerSecond,
            &NetInfoValue::Bits,
            500,
        ),
        Some(1600)
    );
    // Lifetime totals.
    assert_eq!(
        net_value(&cs, &None, &NetInfoType::Upload, &NetInfoTime::Total, &NetInfoValue::Bytes, 0),
        Some(4000)
    );
    // No interface matches.
    assert_eq!(
        net_value(
            &cs,
            &Some("missing".to_string()),
            &NetInfoType::Download,
            &NetInfoTime::Since,
            &NetInfoValue::Bytes,
            0,
        ),
        None
    );
}

#[test]
fn net_formatting() {
    assert_eq!(format_net(1600, &NetInfoTime::PerSecond, &NetInfoValue::Bits), "1.60Kbps");
    assert_eq!(format_net(2048, &NetInfoTime::PerSecond, &NetInfoValue::Bytes), "2.00KiB/s");
    assert_eq!(format_net(30, &NetInfoTime::Total, &NetInfoValue::Packets), "30.00");
    assert_eq!(format_net(5, &NetInfoTime::PerSecond, &NetInfoValue::Errors), "5.00/s");
}

use melody_visualizer::audio::ports::{
    connection_touches_input, port_list_edits, record_port_registration, RetiredPorts,
};
use melody_visualizer::audio::ring::{
    latest_window, OverrunReport, SampleAdmission, WindowRead, SAMPLE_BYTES,
};
use melody_visualizer::audio::source::{
    ConnectionChanged, Event, PortName, PortsChanged, SampleRateChanged, ServerShutdown,
    SourceType,
};

fn listed(names: &[&str]) -> Vec<String> {
    names.iter().map(|name| name.to_string()).collect()
}

fn names(ports: Vec<PortName>) -> Vec<String> {
    ports.into_iter().map(|port| port.0).collect()
}

fn ports(names: &[&str]) -> Vec<PortName> {
    names.iter().map(|name| PortName(name.to_string())).collect()
}

#[test]
fn a_retired_port_is_hidden_while_jack_still_lists_it() {
    let mut retired = RetiredPorts::default();
    retired.retire("tone:output1".to_string());

    assert_eq!(
        names(retired.subtract(listed(&["system:capture_1", "tone:output1"]))),
        ["system:capture_1"],
        "the port is gone from the list the moment JACK says it was unregistered",
    );
}

#[test]
fn a_retired_port_is_forgotten_once_jack_stops_listing_it() {
    let mut retired = RetiredPorts::default();
    retired.retire("tone:output1".to_string());
    retired.subtract(listed(&["system:capture_1", "tone:output1"]));

    // JACK's copy of the graph catches up.
    assert_eq!(
        names(retired.subtract(listed(&["system:capture_1"]))),
        ["system:capture_1"],
    );
    // So a port registered later under the same name is listed again.
    assert_eq!(
        names(retired.subtract(listed(&["system:capture_1", "tone:output1"]))),
        ["system:capture_1", "tone:output1"],
    );
}

#[test]
fn a_port_registered_again_under_its_old_name_comes_back() {
    let mut retired = RetiredPorts::default();
    retired.retire("tone:output1".to_string());
    retired.restore("tone:output1");

    assert_eq!(
        names(retired.subtract(listed(&["system:capture_1", "tone:output1"]))),
        ["system:capture_1", "tone:output1"],
        "a name JACK registered again is listed even before its removal settles",
    );
}

#[test]
fn retiring_a_name_twice_holds_it_once() {
    let mut retired = RetiredPorts::new();
    retired.retire("a:out".to_string());
    retired.retire("a:out".to_string());
    retired.retire("b:out".to_string());
    assert_eq!(retired.names(), ["a:out", "b:out"]);
    retired.restore("a:out");
    assert_eq!(retired.names(), ["b:out"]);
}

#[test]
fn notification_handler_retires_an_unregistered_port() {
    let mut retired = RetiredPorts::default();

    assert!(record_port_registration(&mut retired, Some("tone:output1".to_string()), false));

    assert_eq!(
        names(retired.subtract(vec!["tone:output1".to_string()])),
        Vec::<String>::new(),
        "an unregistered port is hidden from the moment JACK announces it",
    );
}

#[test]
fn a_registration_restores_and_an_unnamed_port_changes_nothing() {
    let mut retired = RetiredPorts::default();
    record_port_registration(&mut retired, Some("tone:output1".to_string()), false);
    assert!(!record_port_registration(&mut retired, None, false));
    assert_eq!(retired.names(), ["tone:output1"]);
    assert!(record_port_registration(&mut retired, Some("tone:output1".to_string()), true));
    assert!(retired.names().is_empty());
}

#[test]
fn notification_handler_forwards_only_its_own_connections() {
    let input = "Melody Visualizer:input".to_string();
    let tone = Some("tone:output1".to_string());
    let touching = [
        connection_touches_input(&tone, &Some(input.clone()), &input),
        connection_touches_input(&Some(input.clone()), &tone, &input),
        connection_touches_input(&tone, &Some("system:playback_1".to_string()), &input),
        connection_touches_input(&tone, &None, &input),
    ];
    assert_eq!(
        touching.iter().filter(|&&touches| touches).count(),
        3,
        "a connection is reported when it names the input port, or a port \
         JACK could not name — but not when it is between two other clients",
    );
    assert!(!touching[2]);
}

#[test]
fn the_port_list_keeps_its_rows_and_appends_new_ports() {
    let shown = ports(&["a:out", "b:out", "c:out", "d:out"]);
    let offered = ports(&["c:out", "e:out", "a:out", "f:out"]);

    let edits = port_list_edits(&shown, &offered);

    assert_eq!(edits.removals, [3, 1], "highest position first");
    assert_eq!(names(edits.appends.clone()), ["e:out", "f:out"]);

    let mut list = shown.clone();
    for position in &edits.removals {
        list.remove(*position);
    }
    list.extend(edits.appends);
    assert_eq!(names(list), ["a:out", "c:out", "e:out", "f:out"]);
}

#[test]
fn an_unchanged_port_list_needs_no_edits() {
    let shown = ports(&["a:out", "b:out"]);
    let edits = port_list_edits(&shown, &shown);
    assert!(edits.removals.is_empty());
    assert!(edits.appends.is_empty());
}

#[test]
fn port_names_read_back_as_given() {
    let port = PortName::from("system:capture_1".to_string());
    assert_eq!(port.as_str(), "system:capture_1");
    assert_eq!(port.to_string(), "system:capture_1");
    assert_eq!(SourceType::Audio.to_string(), "Audio");
    assert_eq!(SourceType::MIDI.to_string(), "MIDI");
}

#[test]
fn events_wrap_the_event_they_carry() {
    let event = Event::from(SampleRateChanged(48_000));
    assert_eq!(event, Event::SampleRateChanged(SampleRateChanged(48_000)));
    assert_eq!(Event::from(PortsChanged), Event::PortsChanged(PortsChanged));
    assert_eq!(
        Event::from(ConnectionChanged),
        Event::ConnectionChanged(ConnectionChanged)
    );
    let shutdown = ServerShutdown {
        reason: "gone".to_string(),
    };
    assert_eq!(
        Event::from(shutdown.clone()),
        Event::ServerShutdown(shutdown)
    );
}

#[test]
fn only_whole_samples_are_taken_and_the_rest_counted() {
    // A ring with 66 bytes free takes 16 whole samples; the two bytes left
    // are too few for a seventeenth, so the rest are dropped and counted.
    let mut space = 66;
    let mut admission = SampleAdmission::new();
    let mut written = 0;
    for _sample in 0..19 {
        if admission.take_sample(space) {
            space -= SAMPLE_BYTES;
            written += 1;
        }
    }
    assert_eq!(written, 16);
    assert_eq!(space, 2, "the bytes too few to hold a sample are left unwritten");
    assert_eq!(
        admission.dropped_count(),
        3,
        "only the samples that did not fit are counted as overruns",
    );
}

#[test]
fn overruns_are_reported_once_each() {
    let mut report = OverrunReport::new();
    assert_eq!(report.report(0), None);
    assert_eq!(report.report(5), Some(5));
    assert_eq!(report.report(5), None, "the same drops are not reported again");
    assert_eq!(report.report(12), Some(7));
}

#[test]
fn the_reader_takes_the_newest_whole_window() {
    // A full window and more: skip to the last 2048 samples.
    assert_eq!(
        latest_window(4 * 3000, 2048),
        WindowRead { skip_bytes: 4 * 952, samples: 2048 },
    );
    // Less than a window: read what there is.
    assert_eq!(latest_window(4 * 100, 2048), WindowRead { skip_bytes: 0, samples: 100 });
    // A partial sample at the end is neither read nor skipped past.
    assert_eq!(latest_window(4 * 10 + 3, 8), WindowRead { skip_bytes: 8, samples: 8 });
    assert_eq!(latest_window(0, 8), WindowRead { skip_bytes: 0, samples: 0 });
}

#[test]
fn a_batch_writes_its_first_samples_in_order_and_drops_the_rest() {
    // 63 bytes free: fifteen whole samples, three bytes left over.
    let mut space = 63;
    let mut admission = SampleAdmission::new();
    let mut written = Vec::new();
    for index in 0..20 {
        if admission.take_sample(space) {
            space -= SAMPLE_BYTES;
            written.push(index);
        }
    }
    assert_eq!(written, (0..15).collect::<Vec<_>>());
    assert_eq!(space, 3);
    assert_eq!(admission.dropped_count(), 5);
}

use ios_device_list::{
    device_list, parse_device_list, CapturedOutput, Detection, Device, DeviceInfo,
    DeviceListError, Event, Invocation, Target,
};

fn announcement(identifier: &str, name: &str, arch: &str, model: &str) -> Event {
    Event::DeviceDetected(DeviceInfo {
        device_identifier: identifier.to_string(),
        device_name: name.to_string(),
        model_arch: arch.to_string(),
        model_name: model.to_string(),
    })
}

fn completed(stdout: &[u8]) -> Invocation {
    Invocation::Completed(CapturedOutput {
        stdout: stdout.to_vec(),
        stderr: Vec::new(),
    })
}

fn failed(stdout: &[u8], stderr: &[u8]) -> Invocation {
    Invocation::Failed(CapturedOutput {
        stdout: stdout.to_vec(),
        stderr: stderr.to_vec(),
    })
}

#[test]
fn duplicate_announcements_collapse_to_one_record() {
    let events = vec![
        announcement("A1", "Phone", "arm64", "iPhone12,3"),
        Event::Other,
        announcement("A1", "Phone", "arm64", "iPhone12,3"),
    ];
    let collection = parse_device_list(&events).unwrap();
    assert_eq!(collection.len(), 1);
    let device = collection.get(0);
    assert_eq!(device.identifier, "A1");
    assert_eq!(device.name, "Phone");
    assert_eq!(device.model_name, "iPhone12,3");
    assert_eq!(device.target, Target::Aarch64);
}

#[test]
fn distinct_announcements_each_get_a_record() {
    let events = vec![
        announcement("A1", "Phone", "arm64", "iPhone12,3"),
        announcement("B2", "Tablet", "arm64", "iPad8,1"),
        announcement("S1", "Sim", "x86_64", "iPhone12,3"),
    ];
    let collection = parse_device_list(&events).unwrap();
    assert_eq!(collection.len(), 3);
    assert_eq!(collection.get(0).identifier, "A1");
    assert_eq!(collection.get(1).identifier, "B2");
    assert_eq!(collection.get(2).identifier, "S1");
    assert_eq!(collection.get(2).target, Target::X86_64);
}

#[test]
fn announcements_differing_in_one_field_stay_distinct() {
    let events = vec![
        announcement("A1", "Phone", "arm64", "iPhone12,3"),
        announcement("A1", "Phone", "arm64", "iPhone12,5"),
    ];
    let collection = parse_device_list(&events).unwrap();
    assert_eq!(collection.len(), 2);
}

#[test]
fn no_events_yield_empty_collection() {
    let events = vec![Event::Other, Event::Other];
    let collection = parse_device_list(&events).unwrap();
    assert_eq!(collection.len(), 0);
}

#[test]
fn unknown_arch_fails_with_that_string() {
    let events = vec![announcement("A1", "Phone", "mips-unsupported", "m")];
    match parse_device_list(&events) {
        Err(DeviceListError::ArchInvalid(arch)) => assert_eq!(arch, "mips-unsupported"),
        _ => panic!("expected ArchInvalid"),
    }
}

#[test]
fn unknown_arch_aborts_the_whole_call() {
    let events = vec![
        announcement("A1", "Phone", "arm64", "iPhone12,3"),
        announcement("B2", "Old", "armv7", "iPhone4,1"),
        announcement("C3", "Phone", "arm64", "iPhone12,3"),
    ];
    assert!(matches!(
        parse_device_list(&events),
        Err(DeviceListError::ArchInvalid(_))
    ));
}

#[test]
fn error_carries_the_earliest_unknown_arch() {
    let events = vec![
        announcement("A1", "Phone", "armv7", "iPhone4,1"),
        announcement("B2", "Phone", "mips-unsupported", "m"),
    ];
    match parse_device_list(&events) {
        Err(DeviceListError::ArchInvalid(arch)) => assert_eq!(arch, "armv7"),
        _ => panic!("expected ArchInvalid"),
    }
}

#[test]
fn repeated_parsing_is_deterministic() {
    let make_events = || {
        vec![
            announcement("B2", "Tablet", "x86_64", "iPad8,1"),
            announcement("A1", "Phone", "arm64", "iPhone12,3"),
            Event::Other,
            announcement("B2", "Tablet", "x86_64", "iPad8,1"),
        ]
    };
    let first = parse_device_list(&make_events()).unwrap();
    let second = parse_device_list(&make_events()).unwrap();
    assert_eq!(first.len(), second.len());
    for i in 0..first.len() {
        assert!(first.get(i) == second.get(i));
    }
    assert_eq!(first.get(0).identifier, "B2");
    assert_eq!(first.get(1).identifier, "A1");
}

#[test]
fn device_equality_is_by_full_field_set() {
    let a = Device {
        identifier: "A1".to_string(),
        name: "Phone".to_string(),
        model_name: "iPhone12,3".to_string(),
        target: Target::Aarch64,
    };
    let b = Device {
        identifier: "A1".to_string(),
        name: "Phone".to_string(),
        model_name: "iPhone12,3".to_string(),
        target: Target::Aarch64,
    };
    let c = Device {
        identifier: "A1".to_string(),
        name: "Phone".to_string(),
        model_name: "iPhone12,3".to_string(),
        target: Target::X86_64,
    };
    assert!(a == b);
    assert!(a != c);
}

#[test]
fn target_registry_is_closed() {
    assert_eq!(Target::for_arch("arm64"), Some(Target::Aarch64));
    assert_eq!(Target::for_arch("x86_64"), Some(Target::X86_64));
    assert_eq!(Target::for_arch("armv7"), None);
    assert_eq!(Target::for_arch(""), None);
    assert_eq!(Target::for_arch("ARM64"), None);
}

#[test]
fn completed_run_hands_decoded_text_on() {
    let outcome = completed("h\u{00e9}llo".as_bytes());
    match device_list(outcome) {
        Ok(Detection::ParseEvents(text)) => assert_eq!(text, "h\u{00e9}llo"),
        _ => panic!("expected ParseEvents"),
    }
}

#[test]
fn invalid_utf8_fails_and_produces_no_collection() {
    let outcome = completed(&[b'{', 0xff, 0xfe]);
    match device_list(outcome) {
        Err(DeviceListError::InvalidUtf8(failure)) => assert_eq!(failure.valid_up_to, 1),
        _ => panic!("expected InvalidUtf8"),
    }
}

#[test]
fn failed_run_with_silent_streams_is_zero_devices() {
    match device_list(failed(b"", b"")) {
        Ok(Detection::NoDevices(collection)) => assert_eq!(collection.len(), 0),
        _ => panic!("expected NoDevices"),
    }
}

#[test]
fn failed_run_with_stderr_is_a_detection_failure() {
    match device_list(failed(b"", b"boom")) {
        Err(DeviceListError::DetectionFailed(diag)) => {
            assert_eq!(diag.stdout, b"");
            assert_eq!(diag.stderr, b"boom");
        }
        _ => panic!("expected DetectionFailed"),
    }
}

#[test]
fn failed_run_with_stdout_is_a_detection_failure() {
    match device_list(failed(b"partial", b"")) {
        Err(DeviceListError::DetectionFailed(diag)) => {
            assert_eq!(diag.stdout, b"partial");
            assert_eq!(diag.stderr, b"");
        }
        _ => panic!("expected DetectionFailed"),
    }
}

#[test]
fn reports_share_a_headline_and_name_the_failure() {
    let arch_report = DeviceListError::ArchInvalid("armv6".to_string()).report();
    assert_eq!(arch_report.msg, "Failed to detect connected iOS devices");
    assert_eq!(arch_report.details, "\"armv6\" isn't a valid target arch.");

    let utf8_report =
        match device_list(completed(&[0xff])) {
            Err(err) => err.report(),
            Ok(_) => panic!("expected an error"),
        };
    assert_eq!(utf8_report.msg, "Failed to detect connected iOS devices");
    assert_eq!(utf8_report.details, "Device info contained invalid UTF-8");

    let detection_report = match device_list(failed(b"", b"boom")) {
        Err(err) => err.report(),
        Ok(_) => panic!("expected an error"),
    };
    assert_eq!(
        detection_report.details,
        "Failed to request device list from `ios-deploy`"
    );
}

#[test]
fn only_announcement_events_carry_device_info() {
    let event = announcement("A1", "Phone", "arm64", "iPhone12,3");
    let info = event.device_info().expect("an announcement carries its info");
    assert_eq!(info.device_identifier, "A1");
    assert_eq!(info.model_arch, "arm64");
    assert!(Event::Other.device_info().is_none());
}

//! Device events, the registry scan, the notification queue, the tracker,
//! registry data decoding, and identifier parsing.

use msft_runtime::device::plug_events;
use msft_runtime::device::PlugEvent;
use msft_runtime::device::scan;
use msft_runtime::device::scan_for;
use msft_runtime::device::DeviceNotificationData;
use msft_runtime::device::HubPoll;
use msft_runtime::device::ScanError;
use msft_runtime::device::TrackerStep;
use msft_runtime::device::Tracking;
use msft_runtime::device::TrackingError;
use msft_runtime::device::UsbVidPid;
use msft_runtime::guid::Guid;
use msft_runtime::hkey::RegistryData;
use msft_runtime::hkey::REG_DWORD;
use msft_runtime::hkey::REG_DWORD_BIG_ENDIAN;
use msft_runtime::hkey::REG_SZ;
use msft_runtime::message::DeviceEvent;
use msft_runtime::message::DeviceEventData;
use msft_runtime::message::DeviceEventType;


const DESCRIPTOR_2FE3_0001: &str = "\\\\?\\USB#VID_2FE3&PID_0001";
const DESCRIPTOR_2FE3_0002: &str = "\\\\?\\USB#VID_2FE3&PID_0002";

#[test]
fn vidpid_renders_uppercase_hex() {
    let ids = UsbVidPid::new(0x2FE3, 0x0001);
    assert_eq!("2FE3", ids.vid());
    assert_eq!("0001", ids.pid());
    assert!(ids.matches("2FE3", "0001"));
    assert!(!ids.matches("2FE3", "0002"));
    assert!(!ids.matches("2fe3", "0001"));
}

#[test]
fn vidpid_from_hex_parses_both_cases() {
    let ids = UsbVidPid::from_hex("2fe3", "0001").unwrap();
    assert_eq!(UsbVidPid::new(0x2FE3, 0x0001), ids);
    assert!(UsbVidPid::from_hex("xyz", "0001").is_none());
    assert!(UsbVidPid::from_hex("12345", "0001").is_none());
    assert!(UsbVidPid::from_hex("", "0001").is_none());
}

#[test]
fn descriptor_parses_at_fixed_positions() {
    let ids = UsbVidPid::parse_descriptor(DESCRIPTOR_2FE3_0001).unwrap();
    assert_eq!(UsbVidPid::new(0x2FE3, 0x0001), ids);
    match UsbVidPid::parse_descriptor("too short") {
        Err(ScanError::InvalidRegistryData(d)) => assert_eq!("too short", d),
        _ => panic!("expected invalid registry data"),
    }
}

#[test]
fn scan_filters_by_connected_ports() {
    let connected = vec!["COM4".to_string()];
    let devices = vec![
        ("COM4".to_string(), DESCRIPTOR_2FE3_0001.to_string()),
        ("COM9".to_string(), DESCRIPTOR_2FE3_0002.to_string()),
    ];
    let map = scan(&connected, &devices).unwrap();
    assert_eq!(1, map.len());
    assert_eq!("COM4", map[0].0);
    assert_eq!(UsbVidPid::new(0x2FE3, 0x0001), map[0].1);
}

#[test]
fn scan_for_missing_port() {
    let connected = vec!["COM4".to_string()];
    let devices = vec![("COM4".to_string(), DESCRIPTOR_2FE3_0001.to_string())];
    let ids = scan_for(&"COM4".to_string(), &connected, &devices).unwrap();
    assert_eq!(UsbVidPid::new(0x2FE3, 0x0001), ids);
    match scan_for(&"COM7".to_string(), &connected, &devices) {
        Err(ScanError::ComPortMissingFromRegistry(p)) => assert_eq!("COM7", p),
        _ => panic!("expected a missing port"),
    }
}

#[test]
fn event_codes_parse_to_event_types() {
    assert_eq!(
        Some(DeviceEventType::Arrival),
        DeviceEventType::from_code(0x8000)
    );
    assert_eq!(
        Some(DeviceEventType::RemoveComplete),
        DeviceEventType::from_code(0x8004)
    );
    assert_eq!(None, DeviceEventType::from_code(0x1234));
    let ev = DeviceEvent::try_parse(0x8000, Some("COM4".to_string())).unwrap();
    assert_eq!(DeviceEventType::Arrival, ev.ty);
    assert!(DeviceEvent::try_parse(0x8000, None).is_none());
}

#[test]
fn plug_events_keep_arrivals_and_removals() {
    let plug = plug_events(DeviceEvent {
        ty: DeviceEventType::Arrival,
        data: DeviceEventData::Port("COM4".to_string()),
    });
    assert_eq!(Some(PlugEvent::Plug("COM4".to_string())), plug);
    let unplug = plug_events(DeviceEvent {
        ty: DeviceEventType::RemoveComplete,
        data: DeviceEventData::Port("COM4".to_string()),
    });
    assert_eq!(Some(PlugEvent::Unplug("COM4".to_string())), unplug);
    let other = plug_events(DeviceEvent {
        ty: DeviceEventType::QueryRemove,
        data: DeviceEventData::Port("COM4".to_string()),
    });
    assert_eq!(None, other);
}

#[test]
fn hub_queue_orders_events_and_ends_on_sentinel() {
    let mut hub = DeviceNotificationData::new();
    hub.seed_arrivals(vec!["COM4".to_string()]);
    hub.try_wake_with(Some(DeviceEvent {
        ty: DeviceEventType::RemoveComplete,
        data: DeviceEventData::Port("COM4".to_string()),
    }));
    hub.try_wake_with(None);
    match hub.poll_next() {
        HubPoll::Event(ev) => assert_eq!(DeviceEventType::Arrival, ev.ty),
        _ => panic!("expected the seeded arrival"),
    }
    match hub.poll_next() {
        HubPoll::Event(ev) => assert_eq!(DeviceEventType::RemoveComplete, ev.ty),
        _ => panic!("expected the removal"),
    }
    assert!(matches!(hub.poll_next(), HubPoll::Ended));
    assert!(matches!(hub.poll_next(), HubPoll::Pending));
}

#[test]
fn device_plug_unplug_tracking() {
    // Filter one identifier pair.  A matching plug emits a tracked port;
    // its later unplug resolves that port's channel; a plug with other
    // identifiers emits nothing.
    let filter = UsbVidPid::from_hex("2FE3", "0001").unwrap();
    let mut tracker = Tracking::new(vec![filter]);

    let step = tracker.on_plug(
        "COM4".to_string(),
        Ok(UsbVidPid::new(0x2FE3, 0x0001)),
    );
    let token = match step {
        TrackerStep::Emit(emitted) => {
            assert_eq!("COM4", emitted.port);
            assert_eq!(UsbVidPid::new(0x2FE3, 0x0001), emitted.ids);
            emitted.unplug_token
        }
        _ => panic!("expected a tracked port"),
    };

    match tracker.on_unplug(&"COM4".to_string()) {
        TrackerStep::SignalUnplug(t) => assert_eq!(token, t),
        _ => panic!("expected the unplug signal"),
    }
    // A second unplug of the same port resolves nothing.
    assert!(matches!(
        tracker.on_unplug(&"COM4".to_string()),
        TrackerStep::Ignore
    ));

    // Different identifiers: the tracker emits nothing.
    assert!(matches!(
        tracker.on_plug("COM7".to_string(), Ok(UsbVidPid::new(0x2FE3, 0x0002))),
        TrackerStep::Ignore
    ));
    assert!(matches!(
        tracker.on_unplug(&"COM7".to_string()),
        TrackerStep::Ignore
    ));

    assert!(matches!(tracker.on_end(), TrackerStep::End));
}

#[test]
fn tracker_replugged_port_replaces_its_entry() {
    // Plugging a port that is already tracked supersedes the old entry: the
    // later unplug resolves the channel of the newest plug.
    let ids = UsbVidPid::new(0x2FE3, 0x0001);
    let mut tracker = Tracking::new(vec![ids]);
    let first = match tracker.on_plug("COM4".to_string(), Ok(ids)) {
        TrackerStep::Emit(emitted) => emitted.unplug_token,
        _ => panic!("expected a tracked port"),
    };
    let second = match tracker.on_plug("COM4".to_string(), Ok(ids)) {
        TrackerStep::Emit(emitted) => emitted.unplug_token,
        _ => panic!("expected a tracked port"),
    };
    assert_ne!(first, second);
    match tracker.on_unplug(&"COM4".to_string()) {
        TrackerStep::SignalUnplug(t) => assert_eq!(second, t),
        _ => panic!("expected the unplug signal"),
    }
    assert!(matches!(
        tracker.on_unplug(&"COM4".to_string()),
        TrackerStep::Ignore
    ));
}

#[test]
fn tracker_reports_scan_failures() {
    let mut tracker = Tracking::new(vec![UsbVidPid::new(1, 2)]);
    let step = tracker.on_plug(
        "COM4".to_string(),
        Err(ScanError::Io(5)),
    );
    assert_eq!(
        TrackerStep::Fail(TrackingError::Scan(ScanError::Io(5))),
        step
    );
}

#[test]
fn registry_data_decodes_numbers() {
    let le = RegistryData::from_data(REG_DWORD, vec![0x78, 0x56, 0x34, 0x12]);
    assert_eq!(Ok(0x12345678), le.try_into_u32().map_err(|_| ()));
    let be = RegistryData::from_data(REG_DWORD_BIG_ENDIAN, vec![0x12, 0x34, 0x56, 0x78]);
    assert_eq!(Ok(0x12345678), be.try_into_u32().map_err(|_| ()));
    let wrong = RegistryData::from_data(REG_SZ, vec![1, 2, 3, 4]);
    let err = wrong.try_into_u32().unwrap_err();
    let back = err.into_registry_data();
    assert_eq!(REG_SZ, back.ty);
    assert_eq!(vec![1, 2, 3, 4], back.data);
    let q = RegistryData::from_data(REG_DWORD, vec![8, 7, 6, 5, 4, 3, 2, 1]);
    assert_eq!(Ok(0x0102030405060708), q.try_into_u64().map_err(|_| ()));
}

#[test]
fn service_test_guid_from_str() {
    let ok = Guid::new("a9214533-3f5f-475b-8140-cb96b289270b");
    assert!(ok.is_ok());
    let fail = Guid::new("foo");
    assert!(fail.is_err());
}

#[test]
fn guid_fields_from_canonical_text() {
    let g = Guid::new("A9214533-3F5F-475B-8140-CB96B289270B").unwrap();
    assert_eq!(0xA9214533, g.data1);
    assert_eq!(0x3F5F, g.data2);
    assert_eq!(0x475B, g.data3);
    assert_eq!([0x81, 0x40, 0xCB, 0x96, 0xB2, 0x89, 0x27, 0x0B], g.data4);
}

use sandoitchi_bridge_service::tracking::client::{parse_tracking_client_type, TrackingClientType};
use sandoitchi_bridge_service::tracking::vtubestudio::{
    KeepAlive, VTubeStudioTrackingClient, KEEP_ALIVE_MILLISECONDS, RECEIVE_TIMEOUT_SECONDS,
};
use sandoitchi_bridge_service::ui::UIConfig;
use sandoitchi_bridge_service::utils::{
    get_current_timestamp, get_current_timestamp_ms, milliseconds_counted, seconds_counted,
};

#[test]
fn names_of_the_sources() {
    for word in ["vts", "VTS", "vtubestudio", "VTubeStudio", "VtUbEsTuDiO"] {
        assert_eq!(parse_tracking_client_type(word), Ok(TrackingClientType::VTubeStudio));
    }
    for word in ["ifm", "IFM", "ifacialmocap", "iFacialMocap"] {
        assert_eq!(parse_tracking_client_type(word), Ok(TrackingClientType::IFacialMocap));
    }
}

#[test]
fn other_words_are_turned_down_with_a_message() {
    for word in ["", "vts ", "vtube", "facial", "İfm"] {
        assert_eq!(
            parse_tracking_client_type(word),
            Err(format!("Invalid tracking client type: {}", word))
        );
    }
}

#[test]
fn sources_as_shown() {
    assert_eq!(TrackingClientType::VTubeStudio.to_string(), "VTubeStudio");
    assert_eq!(TrackingClientType::IFacialMocap.to_string(), "iFacialMocap");
    assert_eq!(TrackingClientType::default(), TrackingClientType::VTubeStudio);
}

#[test]
fn the_keep_alive_request() {
    let request = VTubeStudioTrackingClient::keep_alive_request(50123);
    assert_eq!(request.message_type, "iOSTrackingDataRequest");
    assert_eq!(request.sent_by, "SandoitchiBridge");
    assert_eq!(request.send_for_seconds, 10);
    assert_eq!(request.ports, vec![50123]);
    assert_eq!(
        VTubeStudioTrackingClient::service_address("192.168.1.20"),
        "192.168.1.20:21412"
    );
    assert_eq!(RECEIVE_TIMEOUT_SECONDS, 2);
}

#[test]
fn the_first_request_is_due_at_once() {
    let mut schedule = KeepAlive::new();
    assert!(schedule.poll(0));
    let mut schedule = KeepAlive::new();
    assert!(schedule.poll(123_456));
}

#[test]
fn one_request_a_period() {
    let mut schedule = KeepAlive::new();
    assert!(schedule.poll(5000));
    assert!(!schedule.poll(5000));
    assert!(!schedule.poll(5001));
    assert!(!schedule.poll(5999));
    assert!(schedule.poll(6000));
    assert!(!schedule.poll(6999));
    assert_eq!(KEEP_ALIVE_MILLISECONDS, 1000);
}

#[test]
fn a_missed_request_is_sent_late_and_once() {
    let mut schedule = KeepAlive::new();
    assert!(schedule.poll(1000));
    // Three periods went by unnoticed: one request, and the next a period
    // after it.
    assert!(schedule.poll(4500));
    assert!(!schedule.poll(4501));
    assert!(!schedule.poll(5499));
    assert!(schedule.poll(5500));
}

#[test]
fn a_clock_that_steps_back_sends_nothing() {
    let mut schedule = KeepAlive::new();
    assert!(schedule.poll(1000));
    assert!(!schedule.poll(10));
    assert!(schedule.poll(u64::MAX));
    assert!(!schedule.poll(u64::MAX));
}

#[test]
fn the_clock_reads_the_same_time_in_both_units() {
    let before = get_current_timestamp();
    let millis = get_current_timestamp_ms();
    let after = get_current_timestamp();
    assert!(before > 1_600_000_000);
    assert!(millis / 1000 >= before as u128);
    assert!(millis / 1000 <= after as u128);
}

#[test]
fn what_the_front_end_remembers() {
    let remembered = UIConfig {
        transform_path: Some("cfg.json".to_string()),
        ip: Some("10.0.0.2".to_string()),
        tracking_client_type: Some(TrackingClientType::IFacialMocap),
        face_search_timeout: Some(3000),
    };
    assert_eq!(remembered.clone(), remembered);
}

#[test]
fn a_clock_before_the_epoch_counts_zero() {
    assert_eq!(seconds_counted(None), 0);
    assert_eq!(seconds_counted(Some(1_700_000_000)), 1_700_000_000);
    assert_eq!(seconds_counted(Some(0)), 0);
    assert_eq!(milliseconds_counted(None), 0);
    assert_eq!(milliseconds_counted(Some(1_700_000_000_123)), 1_700_000_000_123);
    assert_eq!(milliseconds_counted(Some(u128::MAX)), u128::MAX);
}

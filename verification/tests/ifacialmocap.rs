use sandoitchi_bridge_service::tracking::ifacialmocap::{
    capitalize_first_letter, decode_frame, get_coordinate_values, parse_tracking_string,
    FrameError, IFacialMocapTrackingClinet, FACE_STATUS_KEY, HANDSHAKE, HANDSHAKE_PORT,
    RESERVED_PREFIX, STREAM_PORT,
};
use sandoitchi_bridge_service::tracking::response::{Cords, Numeral, Shape};

const SAMPLE: &str = "___iFacialMocaptrackingStatus-1|mouthSmile_R-0|eyeLookOut_L-12|browDown_L-5|=head#-21.488958,-6.038993,-6.6019735,-0.030653415,-0.10287084,-0.6584072|rightEye#6.0297494,2.4403017,0.25649446|leftEye#6.034903,-1.6660363,-0.17520478|";

fn written(text: &str) -> Numeral {
    Numeral::Decimal(text.to_string())
}

fn percent(name: &str, value: i16) -> Shape<Numeral> {
    Shape { k: name.to_string(), v: Numeral::Percent(value) }
}

fn eye(name: &str, text: &str) -> Shape<Numeral> {
    Shape { k: name.to_string(), v: written(text) }
}

fn with_status(status: &str) -> String {
    format!("{}=head#1,2,3,4,5,6|rightEye#7,8,9|leftEye#10,11,12|", status)
}

fn with_coordinates(coordinates: &str) -> String {
    format!("___iFacialMocaptrackingStatus-1|jawOpen-3|={}", coordinates)
}

#[test]
fn constants_of_the_source() {
    assert_eq!(IFacialMocapTrackingClinet::handshake_address("10.0.0.7"), "10.0.0.7:49983");
    assert_eq!(HANDSHAKE, "iFacialMocap_UDPTCP_sahuasouryya9218sauhuiayeta91555dy3719");
    assert_eq!(HANDSHAKE_PORT, 49983);
    assert_eq!(STREAM_PORT, 49986);
    assert_eq!(FACE_STATUS_KEY, "___iFacialMocaptrackingStatus");
    assert_eq!(RESERVED_PREFIX, "___");
}

#[test]
fn a_whole_frame() {
    let frame = parse_tracking_string(SAMPLE, 1_700_000_000).unwrap();
    assert_eq!(frame.timestamp, 1_700_000_000);
    assert_eq!(frame.hotkey, 0);
    assert!(frame.face_found);
    assert_eq!(
        frame.rotation,
        Cords { x: written("-6.038993"), y: written("-21.488958"), z: written("-6.6019735") }
    );
    assert_eq!(
        frame.position,
        Cords { x: written("-0.030653415"), y: written("-0.10287084"), z: written("-0.6584072") }
    );
    assert_eq!(
        frame.eye_left,
        Cords { x: written("6.034903"), y: written("-1.6660363"), z: written("-0.17520478") }
    );
    assert_eq!(
        frame.blend_shapes,
        vec![
            percent("MouthSmileRight", 0),
            percent("EyeLookOutLeft", 12),
            percent("BrowDownLeft", 5),
            eye("RightEyeX", "6.0297494"),
            eye("RightEyeY", "2.4403017"),
            eye("RightEyeZ", "0.25649446"),
            eye("LeftEyeX", "6.034903"),
            eye("LeftEyeY", "-1.6660363"),
            eye("LeftEyeZ", "6.034903"),
        ]
    );
}

#[test]
fn eye_open_left_at_eighty() {
    let frame =
        parse_tracking_string(&with_status("___iFacialMocaptrackingStatus-1|EyeOpen_L-80|"), 0)
            .unwrap();
    assert_eq!(frame.blend_shapes[0], percent("EyeOpenLeft", 80));
}

#[test]
fn keys_are_capitalized_and_sides_written_out() {
    let frame = parse_tracking_string(
        &with_status("___iFacialMocaptrackingStatus-1|eyeBlink_R-1|jawOpen-2|a_L_x-3|_L-4|ßeta-5|"),
        0,
    )
    .unwrap();
    let names: Vec<&str> = frame.blend_shapes[..5].iter().map(|s| s.k.as_str()).collect();
    assert_eq!(names, vec!["EyeBlinkRight", "JawOpen", "A_L_x", "Left", "SSeta"]);
}

#[test]
fn face_flag_is_one_or_not() {
    for (value, expected) in [("1", true), ("0", false), ("2", false), ("+1", true), ("01", true)] {
        let status = format!("___iFacialMocaptrackingStatus-{}|", value);
        let frame = parse_tracking_string(&with_status(&status), 0).unwrap();
        assert_eq!(frame.face_found, expected, "status value {:?}", value);
    }
}

#[test]
fn reserved_keys_are_no_blend_shapes() {
    let frame = parse_tracking_string(
        &with_status("___iFacialMocaptrackingStatus-1|___other-3|__two-4|"),
        0,
    )
    .unwrap();
    assert_eq!(frame.blend_shapes.len(), 7);
    assert_eq!(frame.blend_shapes[0], percent("__two", 4));
}

#[test]
fn a_later_value_replaces_an_earlier_one_in_place() {
    let frame = parse_tracking_string(
        &with_status("___iFacialMocaptrackingStatus-0|a-1|b-2|a-3|___iFacialMocaptrackingStatus-1|"),
        0,
    )
    .unwrap();
    assert!(frame.face_found);
    assert_eq!(frame.blend_shapes[..2], [percent("A", 3), percent("B", 2)]);
}

#[test]
fn items_that_are_no_pairs_are_skipped() {
    let frame = parse_tracking_string(
        &with_status("___iFacialMocaptrackingStatus-1||novalue|a-b-c|x-1|"),
        0,
    )
    .unwrap();
    assert_eq!(frame.blend_shapes.len(), 7);
    assert_eq!(frame.blend_shapes[0], percent("X", 1));
}

#[test]
fn white_space_around_the_sections_is_ignored() {
    let payload =
        "___iFacialMocaptrackingStatus-1|a-5 \n=\t head#1,2,3,4,5,6|rightEye#7,8,9|leftEye#10,11,12\r\n";
    let frame = parse_tracking_string(payload, 0).unwrap();
    assert_eq!(frame.blend_shapes[0], percent("A", 5));
    assert_eq!(frame.eye_left.z, written("12"));
}

#[test]
fn a_payload_needs_exactly_two_sections() {
    assert_eq!(parse_tracking_string("", 0), Err(FrameError::Sections));
    assert_eq!(
        parse_tracking_string("___iFacialMocaptrackingStatus-1|a-1|", 0),
        Err(FrameError::Sections)
    );
    assert_eq!(
        parse_tracking_string(&format!("{}=", with_status("___iFacialMocaptrackingStatus-1|")), 0),
        Err(FrameError::Sections)
    );
}

#[test]
fn a_status_value_must_be_a_small_number() {
    for bad in ["a-x|", "a-|", "a-1.5|", "a-40000|", "a- 1|", "a-1 |b-2|"] {
        let status = format!("___iFacialMocaptrackingStatus-1|{}", bad);
        assert_eq!(
            parse_tracking_string(&with_status(&status), 0),
            Err(FrameError::StatusValue),
            "status {:?}",
            bad
        );
    }
}

#[test]
fn coordinates_must_be_complete() {
    let cases = [
        "",
        "head#1,2,3,4,5,6",
        "head#1,2,3,4,5,6|rightEye#7,8,9",
        "head|rightEye#7,8,9|leftEye#10,11,12",
        "head#1,2,3,4,5|rightEye#7,8,9|leftEye#10,11,12",
        "head#1,2,3,4,5,6|rightEye#7,8|leftEye#10,11,12",
        "head#1,2,3,4,5,6|rightEye#7,8,9|leftEye#10,11",
        "head#1,2,3,4,5,x|rightEye#7,8,9|leftEye#10,11,12",
        "head#1,2,3,4,5,6,|rightEye#7,8,9|leftEye#10,11,12",
        "head#1,2,3,4,5,6,seven|rightEye#7,8,9|leftEye#10,11,12",
        "head#1,2,3,4,5,6|rightEye#7,8,9|leftEye#10, 11,12",
        "head#|rightEye#7,8,9|leftEye#10,11,12",
    ];
    for coordinates in cases {
        assert_eq!(
            parse_tracking_string(&with_coordinates(coordinates), 0),
            Err(FrameError::Coordinates),
            "coordinates {:?}",
            coordinates
        );
    }
}

#[test]
fn surplus_numbers_and_groups_are_ignored() {
    let frame = parse_tracking_string(
        &with_coordinates("head#1,2,3,4,5,6,7#junk|rightEye#7,8,9,1e3|leftEye#10,11,12,inf|more|"),
        0,
    )
    .unwrap();
    assert_eq!(frame.position.z, written("6"));
    assert!(frame.face_found);
}

#[test]
fn the_face_status_is_required() {
    assert_eq!(
        parse_tracking_string(&with_status("jawOpen-3|"), 0),
        Err(FrameError::FaceStatus)
    );
    assert_eq!(parse_tracking_string(&with_status(""), 0), Err(FrameError::FaceStatus));
}

#[test]
fn errors_come_in_a_fixed_order() {
    // A bad status value outranks bad coordinates, which outrank a missing
    // face status.
    assert_eq!(parse_tracking_string("a-x|=head", 0), Err(FrameError::StatusValue));
    assert_eq!(parse_tracking_string("a-1|=head", 0), Err(FrameError::Coordinates));
}

#[test]
fn bytes_that_are_no_text_are_turned_down() {
    assert_eq!(decode_frame(&[0x5f, 0xff, 0x3d], 0), Err(FrameError::Encoding));
    assert_eq!(decode_frame(SAMPLE.as_bytes(), 9), parse_tracking_string(SAMPLE, 9));
}

#[test]
fn every_accepted_number_can_be_read_as_a_float() {
    let frame = parse_tracking_string(
        &with_coordinates("head#-1,+2.5,.5,5.,1e3,-1E-3|rightEye#inf,-Infinity,NaN|leftEye#0,00,-0|"),
        0,
    )
    .unwrap();
    let mut all = vec![
        frame.rotation.x, frame.rotation.y, frame.rotation.z, frame.position.x,
        frame.position.y, frame.position.z, frame.eye_left.x, frame.eye_left.y, frame.eye_left.z,
    ];
    all.extend(frame.blend_shapes.into_iter().map(|shape| shape.v));
    for numeral in all {
        match numeral {
            Numeral::Decimal(text) => assert!(text.parse::<f64>().is_ok(), "{:?}", text),
            Numeral::Percent(p) => assert_eq!(p, 3),
        }
    }
}

#[test]
fn first_letter_in_upper_case() {
    assert_eq!(capitalize_first_letter(""), "");
    assert_eq!(capitalize_first_letter("a"), "A");
    assert_eq!(capitalize_first_letter("eyeOpen_L"), "EyeOpen_L");
    assert_eq!(capitalize_first_letter("EyeOpen_L"), "EyeOpen_L");
    assert_eq!(capitalize_first_letter("___x"), "___x");
    assert_eq!(capitalize_first_letter("ßa"), "SSa");
    assert_eq!(capitalize_first_letter("éa"), "Éa");
    assert_eq!(capitalize_first_letter("1a"), "1a");
}

#[test]
fn one_coordinate_group() {
    assert_eq!(
        get_coordinate_values("head#1,-2.5,3e1"),
        Ok(("head".to_string(), vec!["1".to_string(), "-2.5".to_string(), "3e1".to_string()]))
    );
    assert_eq!(
        get_coordinate_values("#1#2#3"),
        Ok((String::new(), vec!["1".to_string()]))
    );
    assert_eq!(get_coordinate_values("head"), Err(FrameError::Coordinates));
    assert_eq!(get_coordinate_values(""), Err(FrameError::Coordinates));
    assert_eq!(get_coordinate_values("head#"), Err(FrameError::Coordinates));
    assert_eq!(get_coordinate_values("head#1,,2"), Err(FrameError::Coordinates));
    assert_eq!(get_coordinate_values("head#one"), Err(FrameError::Coordinates));
}

use orbitbuild::beacon::{Beacon, BeaconError};

#[test]
fn beacons_are_prefixed_base64url() {
    assert_eq!(Beacon::new(vec![]).to_string(), "orbit-v1-");
    assert_eq!(Beacon::new(vec![0xfb]).to_string(), "orbit-v1--w");
    assert_eq!(Beacon::new(vec![0xff, 0xfe]).to_string(), "orbit-v1-__4");
    assert_eq!(Beacon::new(vec![1, 2, 3]).to_string(), "orbit-v1-AQID");
}

#[test]
fn beacons_are_read_back() {
    for length in 0..70u8 {
        let payload: Vec<u8> = (0..length).map(|i| i.wrapping_mul(37) ^ length).collect();
        let beacon = Beacon::new(payload.clone());
        let read = Beacon::parse(&beacon.to_string(), true).unwrap();
        assert_eq!(read, beacon);
        assert_eq!(read.payload(), &payload[..]);
        assert_eq!(read.clone().to_string(), beacon.to_string());
    }
}

#[test]
fn other_texts_are_no_beacons() {
    assert_eq!(Beacon::parse("orbit-v2-AQID", true), Err(BeaconError::MissingPrefix));
    assert_eq!(Beacon::parse("", true), Err(BeaconError::MissingPrefix));
    assert_eq!(Beacon::parse(" orbit-v1-AQID", true), Err(BeaconError::MissingPrefix));
    assert_eq!(Beacon::parse("orbit-v1-AQI=", true), Err(BeaconError::InvalidEncoding));
    assert_eq!(Beacon::parse("orbit-v1-A", true), Err(BeaconError::InvalidEncoding));
    assert_eq!(Beacon::parse("orbit-v1-AR", true), Err(BeaconError::InvalidEncoding));
    assert_eq!(Beacon::parse("orbit-v1-+/+/", true), Err(BeaconError::InvalidEncoding));
    assert_eq!(Beacon::parse("orbit-v1-é", true), Err(BeaconError::InvalidEncoding));
    assert_eq!(BeaconError::MissingPrefix.to_string(), "beacon must start with 'orbit-v1-'");
    assert_eq!(BeaconError::InvalidEncoding.to_string(), "beacon is not valid base64url");
    assert_eq!(BeaconError::TooLong.to_string(), "beacon is too long");
}

#[test]
fn beacons_hold_a_ticket() {
    assert_eq!(Beacon::decode("orbit-v1-AQID"), Ok(vec![1, 2, 3]));
    assert_eq!(Beacon::decode("orbit-v1-"), Ok(vec![]));
    assert_eq!(Beacon::decode("orbit-v1-A"), Err(BeaconError::InvalidEncoding));
    assert_eq!(Beacon::decode("AQID"), Err(BeaconError::MissingPrefix));
    assert_eq!(Beacon::parse("orbit-v1-AQID", false), Err(BeaconError::InvalidTicket));
    assert_eq!(Beacon::parse("orbit-v1-A", false), Err(BeaconError::InvalidEncoding));
    assert_eq!(Beacon::parse("AQID", false), Err(BeaconError::MissingPrefix));
    assert_eq!(BeaconError::InvalidTicket.to_string(), "beacon holds no document ticket");
}

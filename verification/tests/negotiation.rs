use p2p_rt::p2p::dispatch;
use p2p_rt::p2p::parse_negotiate;
use p2p_rt::p2p::Negotiate;
use p2p_rt::p2p::P2pError;
use p2p_rt::p2p::Service;
use p2p_rt::p2p::ServiceName;

#[test]
fn negotiate_frame_is_compact_msgpack() {
    let msg = Negotiate::new(ServiceName::new("echo".to_owned()));
    let bytes = msg.encode().unwrap();
    // One-element array holding a four-byte string: not the raw name.
    assert_eq!(bytes, vec![0x91, 0xa4, b'e', b'c', b'h', b'o']);
}

#[test]
fn negotiate_round_trip() {
    let msg = Negotiate::new(ServiceName::new("rpc.call".to_owned()));
    let bytes = msg.encode().unwrap();
    let back = parse_negotiate(&bytes).unwrap();
    assert_eq!(back.0, "rpc.call");
}

#[test]
fn oversized_service_name_is_an_encode_error() {
    let msg = Negotiate::new(ServiceName::new("x".repeat(0x10_0000 + 1)));
    assert_eq!(msg.encode().unwrap_err(), P2pError::Encode);
}

#[test]
fn garbage_frame_is_a_decode_error() {
    let err = parse_negotiate(&[0xc1, 0xff, 0x00]).unwrap_err();
    assert_eq!(err, P2pError::Decode);
}

#[test]
fn dispatch_finds_the_registered_handler() {
    let table: Service<u32> = Service::new()
        .add_service(ServiceName::new("echo".to_owned()), 1)
        .add_service(ServiceName::new("time".to_owned()), 2);
    let frame = Negotiate::new(ServiceName::new("echo".to_owned())).encode().unwrap();
    assert_eq!(dispatch(&table, &frame).ok().copied(), Some(1));
}

#[test]
fn reregistering_a_name_replaces_its_handler() {
    let table: Service<u32> = Service::new()
        .add_service(ServiceName::new("echo".to_owned()), 1)
        .add_service(ServiceName::new("echo".to_owned()), 9);
    let frame = Negotiate::new(ServiceName::new("echo".to_owned())).encode().unwrap();
    assert_eq!(dispatch(&table, &frame).ok().copied(), Some(9));
}

#[test]
fn unknown_service_is_dropped_without_error() {
    let table: Service<u32> = Service::new().add_service(ServiceName::new("echo".to_owned()), 1);
    let frame = Negotiate::new(ServiceName::new("nope".to_owned())).encode().unwrap();
    // The stream is simply dropped: no handler, and no error frame to send.
    assert_eq!(dispatch(&table, &frame).err(), Some(P2pError::NoHandler));
}

#[test]
fn echo_service_end_to_end_in_the_model() {
    fn echo(frame: Vec<u8>) -> Vec<u8> {
        frame
    }
    // The responder registers "echo", which copies frames back.
    let table: Service<fn(Vec<u8>) -> Vec<u8>> =
        Service::new().add_service(ServiceName::new("echo".to_owned()), echo);
    // The opener's first frame negotiates "echo"; the responder dispatches
    // it and the handler returns the payload unchanged.
    let first_frame = Negotiate::new(ServiceName::new("echo".to_owned())).encode().unwrap();
    let handler = *dispatch(&table, &first_frame).unwrap();
    let payload = vec![0x81u8, 0xa3, b'm', b's', b'g', 0xa2, b'h', b'i'];
    assert_eq!(handler(payload.clone()), payload);
}

#[test]
fn undecodable_first_frame_aborts_only_that_stream() {
    let table: Service<u32> = Service::new().add_service(ServiceName::new("echo".to_owned()), 1);
    assert_eq!(dispatch(&table, &[0x00, 0x01]).err(), Some(P2pError::Decode));
    // The table is untouched: the next well-formed stream still dispatches.
    let frame = Negotiate::new(ServiceName::new("echo".to_owned())).encode().unwrap();
    assert_eq!(dispatch(&table, &frame).ok().copied(), Some(1));
}

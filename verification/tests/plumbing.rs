//! Tests of the messaging plumbing: transport messages, routers, the
//! credentials registry and the GitHub SSH authentication flow.

use ockam::command::AppError;
use ockam::door::DoorController;
use ockam::entity_id::EntityIdentifier;
use ockam::github::{
    CredentialsRegistryRequest, CredentialsRegistryResponse, CredentialsRegistryWorker,
    GithubError, GithubSshAccessControl, GithubSshAuth, GithubSshVerifier,
    GithubSshVerifierRequest, GithubSshVerifierResponse,
};
use ockam::ping_pong::{Ping, Pong};
use ockam::router::{RouteMessage, RouteableAddress, Router, RouterError, RouterMessage};
use ockam::routing::{Address, ProtocolId, Route, TransportMessage};
use ockam::tcp_router::{RouteTransportMessage, TcpMessageRouter, TcpWorkerMessage};
use ockam::vault::StubVault;

fn addr(s: &str) -> Address {
    Address::from_string(&s.to_string())
}

#[test]
fn transport_message_v1() {
    let mut onward = Route::new();
    onward.addrs.push(addr("next"));
    let msg = TransportMessage::v1(onward.clone(), b"payload".to_vec());
    assert_eq!(msg.version, 1);
    assert_eq!(msg.onward_route, onward);
    assert!(msg.return_route.addrs.is_empty());
    assert_eq!(msg.protocol, ProtocolId::none());
    assert_eq!(msg.payload, b"payload".to_vec());

    let msg = TransportMessage::v1_protocol(
        onward.clone(),
        b"payload".to_vec(),
        ProtocolId::new("stream".to_string()),
    );
    assert_eq!(msg.version, 1);
    assert_eq!(msg.protocol, ProtocolId::new("stream".to_string()));
}

#[test]
fn router_pops_the_next_hop() {
    let mut m = RouterMessage::new();
    m.onward_address(RouteableAddress::Local(b"w1".to_vec()));
    m.onward_address(RouteableAddress::Local(b"w2".to_vec()));
    m.payload = b"hi".to_vec();

    let (hop, rest) = Router::route(RouteMessage::Route(m, Some(addr("sender")))).unwrap();
    assert_eq!(hop.address, b"w1".to_vec());
    assert_eq!(rest.onward_route.addrs.len(), 1);
    assert_eq!(rest.onward_route.addrs[0].address, b"w2".to_vec());
    assert_eq!(rest.return_route.addrs.len(), 1);
    assert_eq!(rest.return_route.addrs[0].address, b"sender".to_vec());
    assert_eq!(rest.payload, b"hi".to_vec());
}

#[test]
fn router_rejects_an_empty_route() {
    let m = RouterMessage::new();
    assert_eq!(
        Router::route(RouteMessage::Route(m, None)),
        Err(RouterError::NoRoute)
    );
}

#[test]
fn tcp_router_registry() {
    let mut router = TcpMessageRouter::new();
    router.register(addr("10.0.0.1:4000")).unwrap();
    // The same key cannot be taken twice.
    assert_eq!(
        router.register(addr("10.0.0.1:4000")),
        Err(RouterError::KeyInUse)
    );
    // Another key is fine.
    router.register(addr("10.0.0.2:4000")).unwrap();
}

#[test]
fn tcp_router_routes_to_the_registered_worker() {
    let mut router = TcpMessageRouter::new();
    router.register(addr("10.0.0.1:4000")).unwrap();

    let mut m = RouterMessage::new();
    m.onward_address(RouteableAddress::Local(b"10.0.0.1:4000".to_vec()));
    m.payload = b"data".to_vec();
    let (worker, order) = router
        .route_transport(RouteTransportMessage::Route(m))
        .unwrap();
    assert_eq!(worker.inner, b"10.0.0.1:4000".to_vec());
    let TcpWorkerMessage::SendMessage(rest) = order else {
        panic!("the router orders a send first");
    };
    assert!(rest.onward_route.addrs.is_empty());
    assert_eq!(rest.payload, b"data".to_vec());

    let mut unknown = RouterMessage::new();
    unknown.onward_address(RouteableAddress::Local(b"10.9.9.9:1".to_vec()));
    assert_eq!(
        router.route_transport(RouteTransportMessage::Route(unknown)),
        Err(RouterError::NoSuchKey)
    );

    // A message with no onward hops has nowhere to go.
    assert_eq!(
        router.route_transport(RouteTransportMessage::Route(RouterMessage::new())),
        Err(RouterError::NoRoute)
    );
}

#[test]
fn credentials_registry_records_and_answers() {
    let mut registry = CredentialsRegistryWorker::default();
    let alice = EntityIdentifier::new("P-alice".to_string());
    let bob = EntityIdentifier::new("P-bob".to_string());

    let res = registry.handle(CredentialsRegistryRequest::AddCredential {
        identifier: alice.clone(),
        gh_nicknames: vec!["alice-gh".to_string()],
    });
    assert_eq!(res, CredentialsRegistryResponse::AddCredential);

    let res = registry.handle(CredentialsRegistryRequest::CheckCredential {
        identifier: alice.clone(),
        gh_nickname: "alice-gh".to_string(),
    });
    assert_eq!(res, CredentialsRegistryResponse::CheckCredential(true));

    let res = registry.handle(CredentialsRegistryRequest::CheckCredential {
        identifier: alice,
        gh_nickname: "someone-else".to_string(),
    });
    assert_eq!(res, CredentialsRegistryResponse::CheckCredential(false));

    let res = registry.handle(CredentialsRegistryRequest::CheckCredential {
        identifier: bob,
        gh_nickname: "alice-gh".to_string(),
    });
    assert_eq!(res, CredentialsRegistryResponse::CheckCredential(false));
}

#[test]
fn github_ssh_flow_end_to_end() {
    // The entity presents a credential: a proof signed over the
    // authentication hash.
    let mut auth = GithubSshAuth::new(StubVault::new());
    let request = auth
        .make_presentation("alice-gh".to_string(), b"alice-key")
        .unwrap();
    let GithubSshVerifierRequest::Verify { nickname, proof } = request;

    // The verifier fetched alice's published key (the stub vault equates
    // public and secret keys) and checks the proof.
    let mut verifier = GithubSshVerifier::new(addr("registry"), StubVault::new());
    let alice = EntityIdentifier::new("P-alice".to_string());
    let (registry_request, response) = verifier
        .process(alice.clone(), nickname, b"alice-key", &proof)
        .unwrap();
    assert_eq!(response, GithubSshVerifierResponse::Verify(true));
    assert!(GithubSshAuth::<StubVault>::take_verify_response(response));

    // The registry records what the verifier found.
    let mut registry = CredentialsRegistryWorker::default();
    registry.handle(registry_request);

    // Access control for "alice-gh" now lets alice's messages through.
    let control = GithubSshAccessControl::new("alice-gh".to_string(), addr("registry"));
    let lookup = control.check_request(alice);
    let answer = registry.handle(lookup);
    assert!(GithubSshAccessControl::interpret_response(answer));

    // And the door controller opens the door on a good credential only.
    assert!(DoorController::process(true).is_some());
    assert!(DoorController::process(false).is_none());
}

#[test]
fn github_ssh_flow_rejects_a_wrong_key() {
    let mut auth = GithubSshAuth::new(StubVault::new());
    let request = auth
        .make_presentation("mallory-gh".to_string(), b"mallory-key")
        .unwrap();
    let GithubSshVerifierRequest::Verify { nickname, proof } = request;

    // The published key for the claimed nickname is someone else's.
    let mut verifier = GithubSshVerifier::new(addr("registry"), StubVault::new());
    let mallory = EntityIdentifier::new("P-mallory".to_string());
    let (_registry_request, response) = verifier
        .process(mallory, nickname, b"alice-key", &proof)
        .unwrap();
    assert_eq!(response, GithubSshVerifierResponse::Verify(false));
}

#[test]
fn ping_pong_rounds() {
    let mut ping = Ping::default();
    // Round 0 comes back: answer 1.
    assert_eq!(ping.process(0), Some(1));
    // A replay of an old round is ignored.
    assert_eq!(ping.process(0), None);
    // The echo of round 1 moves the counter on.
    assert_eq!(ping.process(1), Some(2));

    // Pong echoes whatever it is sent.
    assert_eq!(Pong::process("41".to_string()), "41".to_string());
}

#[test]
fn error_reporting() {
    assert_eq!(AppError::Unknown.message(), "unknown error");
    assert_eq!(AppError::InvalidCommand.message(), "invalid command");
    assert_eq!(AppError::InvalidArgument.message(), "invalid command");

    let err = GithubError::HttpError.to_error();
    assert_eq!(err.code(), 22001);
    assert_eq!(err.domain().as_str(), "OCKAM_GITHUB");
}

#[test]
fn addresses_and_identifiers() {
    let a = addr("w1");
    let b = addr("w1");
    let c = addr("w2");
    assert!(a.equals(&b));
    assert!(!a.equals(&c));
    assert_eq!(a.to_vec(), b"w1".to_vec());
    assert!(a.duplicate().equals(&a));

    let alice = EntityIdentifier::new("P-alice".to_string());
    assert!(alice.equals(&alice.duplicate()));
    assert!(!alice.equals(&EntityIdentifier::new("P-bob".to_string())));
}

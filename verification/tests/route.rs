//! The three-worker routing walk-through, driven through the router's
//! verified transition function by a small in-process bus.

use std::collections::VecDeque;

use ockam::router::{
    RouteMessage, RouteableAddress, Router, RouterError, RouterMessage,
};
use ockam::routing::Address;

pub struct MyWorker {
    pub address: String,
    pub router: String,
    pub first: bool,
    pub text: String,
    pub count: usize,
    pub is_first: bool,
}

/// What a worker asks the bus to do with the message it handled.
enum Action {
    Send(String, RouteMessage),
    Stop,
}

impl MyWorker {
    fn handle_message(&mut self, mut msg: RouterMessage) -> Action {
        println!("{}", String::from_utf8(msg.payload.clone()).unwrap());
        if msg.onward_route.addrs.is_empty() {
            if self.count > 0 && self.is_first {
                return Action::Stop;
            } else {
                msg.onward_route = msg.return_route.clone();
                msg.return_route.addrs.truncate(0);
            }
        }
        let mut p = msg.payload.clone();
        p.append(&mut self.text.clone().as_bytes().to_vec());
        msg.payload = p;
        self.count += 1;
        let address = Address::from_string(&self.address);
        Action::Send(
            self.router.clone(),
            RouteMessage::Route(msg, Some(address)),
        )
    }
}

#[test]
fn route() {
    let mut w1 = MyWorker {
        address: String::from("w1"),
        router: String::from("router"),
        first: false,
        text: "1".to_string(),
        count: 0,
        is_first: true,
    };
    let mut w2 = MyWorker {
        address: String::from("w2"),
        router: String::from("router"),
        first: false,
        text: "2".to_string(),
        count: 0,
        is_first: false,
    };
    let mut w3 = MyWorker {
        address: String::from("w3"),
        router: String::from("router"),
        first: false,
        text: "3".to_string(),
        count: 0,
        is_first: false,
    };

    let mut m = RouterMessage::new();
    m.onward_address(RouteableAddress::Local(b"w1".to_vec()));
    m.onward_address(RouteableAddress::Local(b"w2".to_vec()));
    m.onward_address(RouteableAddress::Local(b"w3".to_vec()));
    m.payload = b"0".to_vec();

    let mut queue: VecDeque<(String, RouteMessage)> = VecDeque::new();
    queue.push_back((String::from("router"), RouteMessage::Route(m, None)));

    let mut steps = 0usize;
    while let Some((dest, route_msg)) = queue.pop_front() {
        steps += 1;
        assert!(steps < 1000, "the walk-through should settle");
        assert_eq!(dest, "router");
        let (hop, worker_msg) = match Router::route(route_msg) {
            Ok(delivery) => delivery,
            Err(RouterError::NoRoute) => break,
            Err(e) => panic!("unexpected routing error: {:?}", e),
        };
        let worker_addr = String::from_utf8(hop.address.clone()).unwrap();
        let worker = match worker_addr.as_str() {
            "w1" => &mut w1,
            "w2" => &mut w2,
            "w3" => &mut w3,
            other => panic!("no worker at {}", other),
        };
        match worker.handle_message(worker_msg) {
            Action::Send(to, msg) => queue.push_back((to, msg)),
            Action::Stop => break,
        }
    }

    // Every worker took part before the first worker stopped the node.
    assert!(w1.count > 0 && w2.count > 0 && w3.count > 0);
}

use std::cell::RefCell;
use std::collections::VecDeque;
use std::rc::Rc;

use apiary_core::codec::decode_directive;
use apiary_core::module::{Error, Network};
use apiary_core::{Directive, Module, NodeId, PatchState};

fn id(name: &str) -> NodeId {
    NodeId::from_bytes(name.as_bytes()).unwrap()
}

struct Bus {
    queues: Vec<VecDeque<Vec<u8>>>,
    connects: Vec<Vec<(usize, [u8; 4], i64)>>,
    sent: Vec<Vec<Vec<u8>>>,
    can_send: Vec<bool>,
    addrs: Vec<[u8; 4]>,
}

impl Bus {
    fn new(nodes: usize) -> Bus {
        Bus {
            queues: vec![VecDeque::new(); nodes],
            connects: vec![Vec::new(); nodes],
            sent: vec![Vec::new(); nodes],
            can_send: vec![true; nodes],
            addrs: vec![[239, 0, 0, 1]; nodes],
        }
    }
}

struct BusNet {
    bus: Rc<RefCell<Bus>>,
    me: usize,
}

impl Network for BusNet {
    fn poll(&mut self, _time: i64) -> Result<bool, Error> {
        Ok(true)
    }
    fn can_send(&mut self) -> bool {
        self.bus.borrow().can_send[self.me]
    }
    fn recv_directive(&mut self) -> Result<Vec<u8>, Error> {
        match self.bus.borrow_mut().queues[self.me].pop_front() {
            Some(bytes) => Ok(bytes),
            None => Err(Error::NoData),
        }
    }
    fn send_directive(&mut self, buf: &[u8]) -> Result<(), Error> {
        let mut bus = self.bus.borrow_mut();
        for q in 0..bus.queues.len() {
            if q != self.me {
                bus.queues[q].push_back(buf.to_vec());
            }
        }
        let me = self.me;
        bus.sent[me].push(buf.to_vec());
        Ok(())
    }
    fn jack_connect(&mut self, jack: usize, addr: [u8; 4], time: i64) -> Result<(), Error> {
        self.bus.borrow_mut().connects[self.me].push((jack, addr, time));
        Ok(())
    }
    fn jack_recv(&mut self, _jack: usize) -> Result<Vec<u8>, Error> {
        Err(Error::NoData)
    }
    fn jack_send(&mut self, _jack: usize, _buf: &[u8]) -> Result<(), Error> {
        Ok(())
    }
    fn jack_addr(&mut self, _jack: usize) -> Result<[u8; 4], Error> {
        Ok(self.bus.borrow().addrs[self.me])
    }
    fn jack_disconnect(&mut self, _jack: usize, _time: i64) -> Result<(), Error> {
        Ok(())
    }
}

#[test]
fn simple_connect() {
    let bus = Rc::new(RefCell::new(Bus::new(2)));
    bus.borrow_mut().addrs[0] = [239, 1, 2, 3];
    let mut a: Module<BusNet, 1, 1> =
        Module::new(BusNet { bus: bus.clone(), me: 0 }, id("node-a"), 7, 0, 0);
    let mut b: Module<BusNet, 1, 1> =
        Module::new(BusNet { bus: bus.clone(), me: 1 }, id("node-b"), 3, 0, 140);

    let a_out = a.add_output_jack().unwrap();
    let b_in = b.add_input_jack().unwrap();
    a.set_output_patch_enabled(a_out, true).unwrap();
    b.set_input_patch_enabled(b_in, true).unwrap();

    let mut a_state = PatchState::Idle;
    let mut b_state = PatchState::Idle;
    let mut b_input_hue = 0u16;
    for step in 1..=60 {
        let t = step * 10;
        let ua = a.poll(t, 0, |x| x).unwrap();
        let ub = b.poll(t, 140, |x| x).unwrap();
        a_state = ua.get_patch_state();
        b_state = ub.get_patch_state();
        b_input_hue = ub.get_input_color(b_in).hue;
    }
    assert_eq!(a_state, PatchState::PatchToggled);
    assert_eq!(b_state, PatchState::PatchToggled);
    // The connected input jack adopted the output's display color.
    assert_eq!(b_input_hue, 7);

    // Node B, the instructed input holder, joined A's multicast group.
    let connects = bus.borrow().connects[1].clone();
    assert!(!connects.is_empty());
    assert!(connects.iter().any(|(jack, addr, _)| *jack == 0 && *addr == [239, 1, 2, 3]));
    // Node A, the output holder, connected nothing.
    assert!(bus.borrow().connects[0].is_empty());
}

#[test]
fn partition_resets_leadership() {
    let bus = Rc::new(RefCell::new(Bus::new(1)));
    let mut a: Module<BusNet, 1, 1> =
        Module::new(BusNet { bus: bus.clone(), me: 0 }, id("loner"), 7, 0, 0);

    // Run until the lone node has won its own election and sent a heartbeat.
    let mut t = 0;
    let mut seen_heartbeat = false;
    while !seen_heartbeat {
        t += 10;
        assert!(t < 2000, "no heartbeat before the link failed");
        a.poll(t, 0, |x| x).unwrap();
        let drained: Vec<Vec<u8>> = bus.borrow_mut().sent[0].drain(..).collect();
        for bytes in drained {
            if let Some(Directive::Heartbeat(_)) = decode_directive(&bytes) {
                seen_heartbeat = true;
            }
        }
    }

    // The link goes down for several ticks; the node must abandon its role.
    bus.borrow_mut().can_send[0] = false;
    let mut last_down = t;
    for _ in 0..5 {
        t += 10;
        last_down = t;
        a.poll(t, 0, |x| x).unwrap();
    }
    bus.borrow_mut().can_send[0] = true;

    // On recovery the node is a follower again: nothing is sent until a
    // fresh election timeout, drawn from the configured interval, fires,
    // and the first thing sent is a vote request, not a heartbeat.
    let mut first_send: Option<(i64, Directive)> = None;
    while first_send.is_none() {
        t += 10;
        assert!(t < last_down + 2000, "node went silent after recovery");
        a.poll(t, 0, |x| x).unwrap();
        let drained: Vec<Vec<u8>> = bus.borrow_mut().sent[0].drain(..).collect();
        for bytes in drained {
            if first_send.is_none() {
                first_send = Some((t, decode_directive(&bytes).unwrap()));
            }
        }
    }
    let (t_first, directive) = first_send.unwrap();
    assert!(t_first > last_down + 150);
    assert!(t_first <= last_down + 300 + 10);
    assert!(matches!(directive, Directive::RequestVote(_)));
}

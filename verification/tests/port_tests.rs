use smolshim::port::{PortAssigner, Stack, DYNAMIC_PORT_COUNT, DYNAMIC_PORT_MAX, DYNAMIC_PORT_MIN};

#[test]
fn allocate_port() {
    let mut p = PortAssigner::new();
    if let Some(port) = p.get_ephemeral_port() {
        println!("{}", port);
        p.return_port(port);
    } else {
        println!("none");
    }
    assert_eq!(p.get_ephemeral_port(), Some(49152));
}

#[test]
fn get_last_port() {
    let mut p = PortAssigner::new();
    let mut port = p.get_ephemeral_port();
    while port != None {
        port = p.get_ephemeral_port();
    }
    port = p.get_ephemeral_port(); // returns None
    assert_eq!(port, None);
}

#[test]
fn fresh_assigner_hands_out_the_dynamic_range_in_ascending_order() {
    let mut p = PortAssigner::new();
    for k in 0..DYNAMIC_PORT_COUNT {
        assert_eq!(p.get_ephemeral_port(), Some(DYNAMIC_PORT_MIN + k as u16));
    }
    assert_eq!(p.get_ephemeral_port(), None);
    assert_eq!(p.get_ephemeral_port(), None);
}

#[test]
fn last_port_handed_out_is_the_top_of_the_range() {
    let mut p = PortAssigner::new();
    let mut last = None;
    while let Some(port) = p.get_ephemeral_port() {
        last = Some(port);
    }
    assert_eq!(last, Some(DYNAMIC_PORT_MAX));
}

#[test]
fn returned_port_is_handed_out_next() {
    let mut p = PortAssigner::new();
    assert_eq!(p.get_ephemeral_port(), Some(49152));
    assert_eq!(p.get_ephemeral_port(), Some(49153));
    p.return_port(49152);
    assert_eq!(p.get_ephemeral_port(), Some(49152));
    assert_eq!(p.get_ephemeral_port(), Some(49154));
}

#[test]
fn any_returned_port_is_handed_out_even_outside_the_range() {
    let mut p = PortAssigner::new();
    p.return_port(80);
    p.return_port(443);
    assert_eq!(p.get_ephemeral_port(), Some(443));
    assert_eq!(p.get_ephemeral_port(), Some(80));
    assert_eq!(p.get_ephemeral_port(), Some(49152));
}

#[test]
fn returning_to_an_exhausted_assigner_makes_a_port_available() {
    let mut p = PortAssigner::new();
    while p.get_ephemeral_port().is_some() {}
    assert_eq!(p.get_ephemeral_port(), None);
    p.return_port(50000);
    assert_eq!(p.get_ephemeral_port(), Some(50000));
    assert_eq!(p.get_ephemeral_port(), None);
}

#[test]
fn stack_is_last_in_first_out() {
    let mut s = Stack::new();
    assert_eq!(s.pop(), Some(49152));
    s.push(1);
    s.push(2);
    assert_eq!(s.pop(), Some(2));
    assert_eq!(s.pop(), Some(1));
    assert_eq!(s.pop(), Some(49153));
}

#[test]
fn stack_holds_each_dynamic_port_once() {
    let mut s = Stack::new();
    let mut seen = vec![false; 65536];
    let mut count = 0usize;
    while let Some(port) = s.pop() {
        assert!(port >= DYNAMIC_PORT_MIN);
        assert!(!seen[port as usize]);
        seen[port as usize] = true;
        count += 1;
    }
    assert_eq!(count, DYNAMIC_PORT_COUNT);
    assert_eq!(s.pop(), None);
}

#[test]
fn ports_out_and_held_partition_the_range() {
    let mut p = PortAssigner::new();
    let a = p.get_ephemeral_port().unwrap();
    let b = p.get_ephemeral_port().unwrap();
    p.return_port(a);
    let mut seen = vec![false; 65536];
    seen[b as usize] = true;
    let mut count = 1usize;
    while let Some(port) = p.get_ephemeral_port() {
        assert!(!seen[port as usize]);
        seen[port as usize] = true;
        count += 1;
    }
    assert_eq!(count, DYNAMIC_PORT_COUNT);
}

#[test]
fn takes_then_give_backs_never_hand_out_a_held_port() {
    let mut p = PortAssigner::new();
    let mut held: Vec<u16> = Vec::new();
    for round in 0..200u32 {
        if round % 3 == 2 {
            let q = held.remove((round as usize * 7) % held.len());
            p.return_port(q);
        } else {
            let q = p.get_ephemeral_port().unwrap();
            assert!(q >= DYNAMIC_PORT_MIN);
            assert!(!held.contains(&q));
            held.push(q);
        }
    }
}

use singularity_world::server::hub::{Hub, SEND_BUFFER_SIZE};

#[test]
fn hub_takes_clients_up_to_its_cap() {
    let mut h: Hub<&str> = Hub::new(2);
    assert!(h.register(1, "a"));
    assert!(h.register(2, "b"));
    assert!(!h.register(3, "c"));
    assert_eq!(h.len(), 2);
    assert_eq!(h.handles(), vec![&"a", &"b"]);
    assert_eq!(SEND_BUFFER_SIZE, 256);
}

#[test]
fn unregister_removes_every_slot_of_the_id() {
    let mut h: Hub<u32> = Hub::new(4);
    assert!(h.register(7, 10));
    assert!(h.register(8, 20));
    assert!(h.register(7, 30));
    h.unregister(7);
    assert_eq!(h.len(), 1);
    assert_eq!(h.handles(), vec![&20]);
    assert!(h.register(9, 40));
    h.unregister(5);
    assert_eq!(h.handles(), vec![&20, &40]);
}

#[test]
fn zero_cap_hub_refuses_everyone() {
    let mut h: Hub<u8> = Hub::new(0);
    assert!(!h.register(1, 1));
    assert_eq!(h.len(), 0);
}

use wrr_proxy::socket_address::SocketAddress;
use wrr_proxy::weight::Weight;

fn slot(weight: usize) -> Weight {
    Weight::new(
        SocketAddress::new(String::from("10.0.0.1"), String::from("80")).unwrap(),
        weight,
    )
}

#[test]
fn slot_hands_out_its_backend_as_often_as_its_weight() {
    let mut s = slot(3);
    assert_eq!(s.get_weight(), 3);
    assert_eq!(s.get_served(), 0);
    for i in 1..=3 {
        assert_eq!(s.next_request().map(|a| a.get()), Some(String::from("10.0.0.1:80")));
        assert_eq!(s.get_served(), i);
    }
    assert!(s.next_request().is_none());
    assert_eq!(s.get_served(), 0);
    assert!(s.next_request().is_some());
    assert_eq!(s.get_served(), 1);
}

#[test]
fn slot_of_weight_zero_never_hands_out_anything() {
    let mut s = slot(0);
    for _ in 0..5 {
        assert!(s.next_request().is_none());
        assert_eq!(s.get_served(), 0);
    }
}

#[test]
fn slot_keeps_its_backend() {
    let s = slot(1);
    assert_eq!(s.get_socket_address().get(), "10.0.0.1:80");
}

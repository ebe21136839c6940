use room_egress::egress::{Egress, SERVER_URL};

#[test]
fn an_egress_remembers_its_room() {
    let e = Egress::new("c9987fa0-c21f-4fba-b2b9-332694120498".to_string());
    assert_eq!(e.room(), "c9987fa0-c21f-4fba-b2b9-332694120498");
}

#[test]
fn guest_tokens_are_asked_for_by_room() {
    let e = Egress::new("abc".to_string());
    assert_eq!(e.guest_auth_url(), "https://nostrnests.com/api/v1/nests/abc/guest");
    let e = Egress::new(String::new());
    assert_eq!(e.guest_auth_url(), "https://nostrnests.com/api/v1/nests//guest");
    assert_eq!(SERVER_URL, "wss://nostrnests.com");
}

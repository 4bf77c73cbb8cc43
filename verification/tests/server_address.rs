use terraps::server::Server;

#[test]
fn server_keeps_its_fields() {
    let s = Server::new("0.0.0.0".to_string(), 8443);
    assert_eq!(s.ip, "0.0.0.0".to_string());
    assert_eq!(s.port, 8443);
}

#[test]
fn server_renders_its_address() {
    let s = Server::new("127.0.0.1".to_string(), 8080);
    assert_eq!(s.get_address(), "127.0.0.1:8080".to_string());
}

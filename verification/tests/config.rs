use pingora_gateway::config::{service_plan, Certificate, Config, Protocol, ServerPort};

fn port(number: i32, protocol: Protocol, cert: Option<Certificate>) -> ServerPort {
    ServerPort { port: number, name: None, protocol, cert }
}

fn cert() -> Certificate {
    Certificate { crt: "/keys/server.crt".to_string(), key: "/keys/key.pem".to_string() }
}

fn config() -> Config {
    Config {
        name: "gw".to_string(),
        upgrade: true,
        daemon: false,
        nocapture: true,
        test: false,
        conf: "/etc/gateway/config.yaml".to_string(),
        ports: vec![
            port(80, Protocol::HTTP, None),
            port(443, Protocol::HTTPS, Some(cert())),
            port(8080, Protocol::TCP, None),
            port(8443, Protocol::TLS, Some(cert())),
            port(53, Protocol::UDP, None),
        ],
    }
}

#[test]
fn addr_listens_on_every_interface() {
    assert_eq!(port(80, Protocol::HTTP, None).addr(), "0.0.0.0:80");
    assert_eq!(port(8443, Protocol::TLS, None).addr(), "0.0.0.0:8443");
    assert_eq!(port(0, Protocol::HTTP, None).addr(), "0.0.0.0:0");
}

#[test]
fn addr_of_extreme_ports() {
    assert_eq!(port(-1, Protocol::HTTP, None).addr(), "0.0.0.0:-1");
    assert_eq!(port(i32::MAX, Protocol::HTTP, None).addr(), "0.0.0.0:2147483647");
    assert_eq!(port(i32::MIN, Protocol::HTTP, None).addr(), "0.0.0.0:-2147483648");
}

#[test]
fn protocol_names() {
    assert_eq!(Protocol::TLS.to_string(), "TLS");
    assert_eq!(Protocol::HTTPS.to_string(), "HTTPS");
    assert_eq!(Protocol::HTTP.to_string(), "HTTP");
    assert_eq!(Protocol::TCP.to_string(), "TCP");
    assert_eq!(Protocol::UDP.to_string(), "UDP");
}

#[test]
fn server_opt_copies_the_flags() {
    let c = config();
    let opt = c.pingora_server_opt();
    assert!(opt.upgrade);
    assert!(!opt.daemon);
    assert!(opt.nocapture);
    assert!(!opt.test);
    assert_eq!(opt.conf, Some("/etc/gateway/config.yaml".to_string()));
}

#[test]
fn ports_are_the_configured_ones_in_order() {
    let c = config();
    let ports = c.ports();
    assert_eq!(ports.len(), 5);
    let numbers: Vec<i32> = ports.iter().map(|p| p.port).collect();
    assert_eq!(numbers, vec![80, 443, 8080, 8443, 53]);
    assert!(ports[1].protocol == Protocol::HTTPS);
    assert_eq!(ports[1].cert.as_ref().map(|c| c.crt.clone()), Some("/keys/server.crt".to_string()));
    assert!(ports[0].cert.is_none());
}

#[test]
fn plain_http_port_is_served_over_tcp() {
    let plan = service_plan(&port(80, Protocol::HTTP, None));
    assert_eq!(plan.addr, "0.0.0.0:80");
    assert!(plan.tls.is_none());
}

#[test]
fn https_port_with_certificate_is_served_over_tls() {
    let plan = service_plan(&port(443, Protocol::HTTPS, Some(cert())));
    assert_eq!(plan.addr, "0.0.0.0:443");
    let tls = plan.tls.expect("a certificate");
    assert_eq!(tls.crt, "/keys/server.crt");
    assert_eq!(tls.key, "/keys/key.pem");
}

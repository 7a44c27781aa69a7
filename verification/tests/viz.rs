use go2_runner::viz::{check_viz_port, socket_addr_of, Listening};

#[test]
fn addresses_are_found_in_endpoints() {
    assert_eq!(socket_addr_of("tcp/127.0.0.1:7447").as_deref(), Some("127.0.0.1:7447"));
    assert_eq!(socket_addr_of("127.0.0.1:7447").as_deref(), Some("127.0.0.1:7447"));
    assert_eq!(socket_addr_of("tcp/localhost:1?rel=0").as_deref(), Some("localhost:1"));
    assert_eq!(socket_addr_of("tcp/localhost:1#iface=lo").as_deref(), Some("localhost:1"));
    assert_eq!(socket_addr_of("unixsock-stream//tmp/x"), None);
    assert_eq!(socket_addr_of("tcp/a/b:1").as_deref(), Some("a/b:1"));
    assert_eq!(socket_addr_of("tcp/a?b:1"), None);
    assert_eq!(socket_addr_of(""), None);
}

#[test]
fn a_free_port_passes() {
    assert!(check_viz_port("tcp/127.0.0.1:7447", |_: &String| Listening::Free).is_ok());
}

#[test]
fn other_failures_are_left_to_the_publisher() {
    assert!(check_viz_port("tcp/127.0.0.1:7447", |_: &String| Listening::Failed).is_ok());
}

#[test]
fn an_endpoint_without_a_port_is_not_tried() {
    assert!(check_viz_port("unixsock-stream/x", |_: &String| Listening::InUse).is_ok());
}

#[test]
fn only_tcp_is_judged() {
    for endpoint in ["udp/127.0.0.1:7447", "tls/127.0.0.1:7447", "/127.0.0.1:7447", "TCP/h:1"] {
        assert!(check_viz_port(endpoint, |_: &String| Listening::InUse).is_ok(), "{endpoint}");
    }
    for endpoint in ["tcp/127.0.0.1:7447", "127.0.0.1:7447"] {
        assert!(check_viz_port(endpoint, |_: &String| Listening::InUse).is_err(), "{endpoint}");
    }
}

fn busy(endpoint: &str) -> String {
    match check_viz_port(endpoint, |_: &String| Listening::InUse) {
        Ok(()) => panic!("passed"),
        Err(e) => e,
    }
}

#[test]
fn a_held_port_is_explained() {
    let (endpoint, addr, port, next_port) = ("tcp/127.0.0.1:7447", "127.0.0.1:7447", "7447", 7448);
    let expected = format!(
        "viz の待ち受け {endpoint} は既に使われています（{addr}）。\n\
         go2-run 側が listen する側なので、このポートは空いている必要があります。\n\
         よくある原因: (1) ROS 2 の rmw_zenoh ルータ rmw_zenohd が 7447 を使っている\n\
         （zenoh ルータの既定ポート。ROS 2 を使うなら止めずに別番号へ逃げる）、\n\
         (2) 前回の go2-run がまだ生きている、(3) articara の Live feed を Connect では\n\
         なく Listen にしている。\n\
         誰が掴んでいるか:  ss -tlnp | grep {port}    （または lsof -i :{port}）\n\
         別ポートで逃げる:  GO2_VIZ_ENDPOINT=tcp/127.0.0.1:{next_port} ./scripts/policy_sim.sh …\n\
         （articara 側の endpoint も同じ番号に合わせる）"
    );
    assert_eq!(busy(endpoint), expected);
}

#[test]
fn the_next_port_saturates_and_has_a_fallback() {
    assert!(busy("tcp/h:65535").contains("tcp/127.0.0.1:65535 "));
    assert!(busy("tcp/h:http").contains("tcp/127.0.0.1:7448 "));
    assert!(busy("tcp/h:65536").contains("tcp/127.0.0.1:7448 "));
}

#[test]
fn the_address_is_what_is_tried() {
    let r = check_viz_port("tcp/h:1?x", |a: &String| {
        if a == "h:1" { Listening::InUse } else { Listening::Free }
    });
    assert!(r.is_err());
}

use tunvpn::config::{Args, Endpoint, Interface, Mode};
use tunvpn::{run, Role};

fn interface() -> Interface {
    Interface { ifname: String::from("tun0"), ifaddr: 0x0A000001, netmask: 24 }
}

#[test]
fn client_mode_dials_the_remote_endpoint() {
    let remote = Endpoint { addr: 0xC0A80101, port: 5555 };
    let plan = run(Args { interface: interface(), mode: Mode::Client { remote } });
    assert_eq!(plan.role, Role::Client);
    assert_eq!(plan.endpoint, remote);
    assert_eq!(plan.interface.ifname, "tun0");
    assert_eq!(plan.interface.ifaddr, 0x0A000001);
    assert_eq!(plan.interface.netmask, 24);
}

#[test]
fn server_mode_binds_the_local_endpoint() {
    let local = Endpoint { addr: 0, port: 5555 };
    let plan = run(Args { interface: interface(), mode: Mode::Server { local } });
    assert_eq!(plan.role, Role::Server);
    assert_eq!(plan.endpoint, local);
    assert_eq!(plan.interface.netmask, 24);
}

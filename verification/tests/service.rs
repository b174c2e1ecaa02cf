use nodemgr::node::{Chain, Node};
use nodemgr::profile::Profile;
use nodemgr::service::{service_unit, unit_enabled, Invocation, Step};

fn node(name: &str, path: &str) -> Node {
    Node { name: name.to_string(), path: path.to_string(), chain: Chain::Testnet }
}

fn expect_invocation(step: &Step, query: bool, program: &str, args: &[&str]) {
    let inv: &Invocation = match (step, query) {
        (Step::Query(i), true) => i,
        (Step::Run(i), false) => i,
        _ => panic!("unexpected step {:?}", step),
    };
    assert_eq!(inv.program, program);
    assert_eq!(inv.args, args.iter().map(|a| a.to_string()).collect::<Vec<_>>());
}

#[test]
fn unit_names() {
    let n = node("alpha", "/data/alpha");
    assert_eq!(n.service_name(), "selendra.alpha.service");
    assert_eq!(n.service_file(Profile::Debug), "selendra.alpha.service");
    assert_eq!(n.service_file(Profile::Release), "/etc/systemd/system/selendra.alpha.service");
}

#[test]
fn unit_text_exact() {
    let expected = "[Unit]\nDescription=Selendra@My Node\nAfter=network.target\nDocumentation=https://github.com/selendra/selendra\n\n[Service]\nExecStart=/usr/bin/selendra --base-path /srv/db --chain testnet --port 30333 --rpc-port 9934 --ws-port 9944 --prometheus-port 9616 --rpc-methods Unsafe --rpc-cors all --pruning archive --validator --name \"My Node\" --bootnodes /ip4/157.245.56.213/tcp/30333/p2p/12D3KooWDLR899Spcx4xJ3U8cZttv9zjzJoey3HKaTZiNqwojZJB\nRestart=always\nRestartSec=120\n\n[Install]\nWantedBy=multi-user.target\n";
    assert_eq!(service_unit("My Node", "/srv/db", "testnet"), expected);
}

#[test]
fn gen_service_uses_title_case() {
    let n = node("my_node", "/srv/db");
    assert_eq!(n.gen_service(), service_unit("My Node", "/srv/db", "testnet"));
}

#[test]
fn gen_service_file_target() {
    let n = node("my_node", "/srv/db");
    let w = n.gen_service_file(Profile::Release);
    assert_eq!(w.path, "/etc/systemd/system/selendra.my_node.service");
    assert_eq!(w.contents, n.gen_service());
}

#[test]
fn enabled_answer() {
    assert!(unit_enabled(true, "enabled"));
    assert!(!unit_enabled(true, "enabled\n"));
    assert!(!unit_enabled(true, "disabled"));
    assert!(!unit_enabled(false, "enabled"));
}

#[test]
fn enable_steps() {
    let n = node("alpha", "/data");
    let steps = n.enable_service(Profile::Debug);
    assert_eq!(steps.len(), 3);
    expect_invocation(&steps[0], true, "systemctl", &["is-enable", "selendra.alpha.service"]);
    match &steps[1] {
        Step::WriteOrReport(w) => {
            assert_eq!(w.path, "selendra.alpha.service");
            assert_eq!(w.contents, n.gen_service());
        }
        s => panic!("unexpected step {:?}", s),
    }
    expect_invocation(&steps[2], false, "sudo", &["systemctl", "enable", "--now", "selendra.alpha.service"]);
}

#[test]
fn disable_steps() {
    let n = node("alpha", "/data");
    let steps = n.disable_service(Profile::Release);
    assert_eq!(steps.len(), 3);
    expect_invocation(&steps[0], true, "systemctl", &["is-enable", "selendra.alpha.service"]);
    expect_invocation(&steps[1], false, "sudo", &["systemctl", "disable", "--now", "selendra.alpha.service"]);
    expect_invocation(&steps[2], false, "sudo", &["rm", "-rf", "--now", "/etc/systemd/system/selendra.alpha.service"]);
}

#[test]
fn disable_removes_what_enable_wrote() {
    let n = node("gamma", "/g");
    for profile in [Profile::Debug, Profile::Release] {
        let on = n.enable_service(profile);
        let off = n.disable_service(profile);
        let written = match &on[1] {
            Step::WriteOrReport(w) => w.path.clone(),
            s => panic!("unexpected step {:?}", s),
        };
        match &off[2] {
            Step::Run(i) => assert_eq!(i.args.last().unwrap(), &written),
            s => panic!("unexpected step {:?}", s),
        }
        match (&on[2], &off[1]) {
            (Step::Run(a), Step::Run(b)) => assert_eq!(a.args.last(), b.args.last()),
            s => panic!("unexpected steps {:?}", s),
        }
    }
}

#[test]
fn is_enabled_command_shape() {
    let i = node("beta", "/b").is_enabled_command();
    assert_eq!(i.program, "systemctl");
    assert_eq!(i.args, vec!["is-enable".to_string(), "selendra.beta.service".to_string()]);
}

#[test]
fn unit_passes_the_chain() {
    let mut main = node("my_node", "/srv/db");
    main.chain = Chain::Mainnet;
    let test = node("my_node", "/srv/db");
    let mut custom = node("my_node", "/srv/db");
    custom.chain = Chain::Custom("/etc/spec.json".to_string());
    assert!(main.gen_service().contains(" --chain mainnet --port 30333 "));
    assert!(test.gen_service().contains(" --chain testnet --port 30333 "));
    assert!(custom.gen_service().contains(" --chain testnet --port 30333 "));
    assert_ne!(main.gen_service(), test.gen_service());
}

#[test]
fn chain_option_values() {
    assert_eq!(Chain::Mainnet.cli_value(), "mainnet");
    assert_eq!(Chain::Testnet.cli_value(), "testnet");
    assert_eq!(Chain::Custom("x.json".to_string()).cli_value(), "testnet");
    assert_eq!(Chain::Custom(String::new()).cli_value(), "testnet");
}

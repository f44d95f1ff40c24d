use porter::addr::Addr;
use porter::addr::Block;
use porter::config::Config;
use porter::config::ConfigError;
use porter::config::Selector;
use porter::config::validate;

const LOCALHOST: Addr = Addr::V4(0x7f00_0001);

fn block_10_0_0_0_30() -> Block {
    Block::new(Addr::V4(0x0a00_0000), 30).unwrap()
}

#[test]
fn rejects_address_and_block_together() {
    let cfg = Config {
        addr: Some(LOCALHOST),
        block: Some(block_10_0_0_0_30()),
        port_start: 1,
        port_end: 1024,
    };
    assert_eq!(validate(&cfg), Err(ConfigError::AddressAndBlock));
}

#[test]
fn rejects_neither_address_nor_block() {
    let cfg = Config { addr: None, block: None, port_start: 1, port_end: 1024 };
    assert_eq!(validate(&cfg), Err(ConfigError::NoTarget));
}

#[test]
fn rejects_port_start_zero() {
    let cfg = Config { addr: Some(LOCALHOST), block: None, port_start: 0, port_end: 1024 };
    assert_eq!(validate(&cfg), Err(ConfigError::PortStartZero));
}

#[test]
fn rejects_inverted_port_range() {
    let cfg = Config { addr: Some(LOCALHOST), block: None, port_start: 90, port_end: 80 };
    assert_eq!(validate(&cfg), Err(ConfigError::EmptyRange));
}

#[test]
fn accepts_single_address() {
    let cfg = Config { addr: Some(LOCALHOST), block: None, port_start: 80, port_end: 443 };
    let t = validate(&cfg).unwrap();
    assert_eq!(t.sel, Selector::One(LOCALHOST));
    assert_eq!(t.port_start, 80);
    assert_eq!(t.port_end, 443);
}

#[test]
fn accepts_block() {
    let b = block_10_0_0_0_30();
    let cfg = Config { addr: None, block: Some(b), port_start: 1, port_end: 1 };
    let t = validate(&cfg).unwrap();
    assert_eq!(t.sel, Selector::Net(b));
}

#[test]
fn accepts_one_port_range_at_the_top() {
    let cfg = Config { addr: Some(LOCALHOST), block: None, port_start: 65535, port_end: 65535 };
    assert!(validate(&cfg).is_ok());
}

#[test]
fn error_messages_name_the_constraint() {
    assert_eq!(
        ConfigError::AddressAndBlock.message().as_str(),
        "give either a single address or a block, not both"
    );
    assert_eq!(ConfigError::NoTarget.message().as_str(), "give a single address or a block");
    assert_eq!(
        ConfigError::PortStartZero.message().as_str(),
        "the port range must start at 1 or above"
    );
    assert_eq!(
        ConfigError::EmptyRange.message().as_str(),
        "the port range must not start after it ends"
    );
}

#[test]
fn block_rejects_prefix_too_long() {
    assert!(Block::new(Addr::V4(0), 33).is_none());
    assert!(Block::new(Addr::V6(0), 129).is_none());
}

#[test]
fn block_rejects_host_bits_set() {
    assert!(Block::new(Addr::V4(0x0a00_0001), 30).is_none());
    assert!(Block::new(Addr::V6(1), 126).is_none());
}

#[test]
fn block_accepts_aligned_base() {
    assert!(Block::new(Addr::V4(0x0a00_0000), 30).is_some());
    assert!(Block::new(Addr::V4(0x7f00_0001), 32).is_some());
    assert!(Block::new(Addr::V4(0), 0).is_some());
    assert!(Block::new(Addr::V6(0), 0).is_some());
    assert!(Block::new(Addr::V6(0xffff_fffc), 126).is_some());
}

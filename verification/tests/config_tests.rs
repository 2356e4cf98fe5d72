use nukedns::Config;

#[test]
fn default_config_binds_one_target_on_standard_port() {
    let c = Config::default();
    assert_eq!(c.host.len(), 1);
    assert_eq!(c.host[0].port, 53);
    assert_eq!(c.host[0].address, "0.0.0.0");
}

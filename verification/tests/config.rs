use luminaire::config::Config;

#[test]
fn test_default_values() {
    let config = Config::default();
    assert_eq!(config.ip_address, "");
    assert_eq!(config.brightness, -1);
    assert_eq!(config.temperature, -1);
}

use nazonazo::settings::Config;

#[test]
fn enabling_and_disabling_channels() {
    let mut c = Config::new();
    assert!(!c.is_enabled(7));
    assert!(c.enable(7));
    assert!(c.enable(9));
    assert!(!c.enable(7));
    assert_eq!(c.channel.enabled, vec![7, 9]);
    assert!(c.is_enabled(9));
    c.disable(7);
    assert_eq!(c.channel.enabled, vec![9]);
    assert!(!c.is_enabled(7));
    c.disable(42);
    assert_eq!(c.channel.enabled, vec![9]);
    let d = Config::default();
    assert!(d.channel.enabled.is_empty());
}

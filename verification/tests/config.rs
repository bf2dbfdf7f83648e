use pollkeeper::config::{Config, Infos};
use pollkeeper::request::{help, init};
use pollkeeper::store::{decrypt_base64_to_string, encrypt_str_to_base64};

fn config() -> Config {
    Config {
        token: "SECRET-REDACTED".to_string(),
        id: 1,
        key: "magickey".to_string(),
        shards: 1,
        db: "./db".to_string(),
        infos: Infos { name: "pollkeeper".to_string(), prefix: "~".to_string() },
    }
}

#[test]
fn records_are_sealed_under_the_configured_key() {
    let c = config();
    let sealed = encrypt_str_to_base64(&c.key, &"text".to_string());
    assert_eq!(decrypt_base64_to_string(&c.key, &sealed), "text");
}

#[test]
fn help_begins_with_the_configured_prefix() {
    let c = config();
    assert!(help(&init(), &c.infos.prefix).starts_with("~vote\n\nOptions:\n"));
}

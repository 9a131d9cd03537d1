use cracktorio_bot::log_reader::{log_source, LogSource};
use cracktorio_bot::Config;

fn config(file: Option<&str>, ns: Option<&str>, labels: Option<&str>) -> Config {
    Config {
        state_file_path: "/tmp/cracktorio-bot".to_string(),
        telegram_token: "t".to_string(),
        telegram_chat_id: 1,
        factorio_rcon_host: "localhost:27015".to_string(),
        factorio_rcon_password: "p".to_string(),
        factorio_log_file: file.map(|s| s.to_string()),
        factorio_kube_namespace: ns.map(|s| s.to_string()),
        factorio_kube_labels: labels.map(|s| s.to_string()),
        experimental: false,
        fff: false,
        retry: false,
    }
}

#[test]
fn log_file_comes_first() {
    match log_source(&config(Some("/var/log/console.log"), Some("ns"), None)) {
        LogSource::File(f) => assert_eq!(f, "/var/log/console.log"),
        _ => panic!("expected the file"),
    }
}

#[test]
fn kube_namespace_with_labels() {
    match log_source(&config(None, Some("games"), Some("app=factorio"))) {
        LogSource::Kube { namespace, labels } => {
            assert_eq!(namespace, "games");
            assert_eq!(labels, Some("app=factorio".to_string()));
        }
        _ => panic!("expected kubernetes"),
    }
}

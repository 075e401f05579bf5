use netchat::config::get_config;

const CONFIG_TEXT: &str = "\
[server]
host = \"127.0.0.1\"
port = 2052
online_mode = false
api_key = \"\"
protect_server = true
server_password = \"12345678\"

[web]
enable = true
host = \"127.0.0.1\"
port = 2053
authentication = true
username = \"admin\"
password = \"admin\"
";

#[test]
fn test_config() {
    let config = get_config(CONFIG_TEXT).unwrap();
    assert_eq!(config.server.host, "127.0.0.1");
    assert_eq!(config.server.port, 2052);
    assert_eq!(config.server.online_mode, false);
    assert_eq!(config.server.api_key, "");
    assert_eq!(config.server.protect_server, true);
    assert_eq!(config.server.server_password, "12345678");

    assert_eq!(config.web.enable, true);
    assert_eq!(config.web.host, "127.0.0.1");
    assert_eq!(config.web.port, 2053);
    assert_eq!(config.web.authentication, true);
    assert_eq!(config.web.username, "admin");
    assert_eq!(config.web.password, "admin");
}

#[test]
fn test_config_rejects_bad_toml() {
    assert!(get_config("this is [not toml").is_err());
}

#[test]
fn test_config_rejects_missing_field() {
    let text = CONFIG_TEXT.replace("online_mode = false\n", "");
    assert!(get_config(&text).is_err());
}

#[test]
fn test_config_rejects_missing_table() {
    let text = "[server]\nhost = \"h\"\n";
    assert!(get_config(text).is_err());
}

#[test]
fn test_config_rejects_port_out_of_range() {
    let text = CONFIG_TEXT.replace("port = 2052", "port = 65536");
    assert!(get_config(&text).is_err());
    let negative = CONFIG_TEXT.replace("port = 2052", "port = -1");
    assert!(get_config(&negative).is_err());
}

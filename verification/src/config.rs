//! Server configuration: the settings structures and the verified assembly
//! of a configuration from parsed TOML text.

use vstd::prelude::*;

verus! {

/// Settings of the TCP chat server.
pub struct ServerConfig {
    pub host: String,
    pub port: u16,
    pub online_mode: bool,
    pub api_key: String,
    pub protect_server: bool,
    pub server_password: String,
}

/// Abstract value of a [`ServerConfig`].
pub struct ServerConfigView {
    pub host: Seq<char>,
    pub port: u16,
    pub online_mode: bool,
    pub api_key: Seq<char>,
    pub protect_server: bool,
    pub server_password: Seq<char>,
}

impl View for ServerConfig {
    type V = ServerConfigView;

    open spec fn view(&self) -> ServerConfigView {
        ServerConfigView {
            host: self.host@,
            port: self.port,
            online_mode: self.online_mode,
            api_key: self.api_key@,
            protect_server: self.protect_server,
            server_password: self.server_password@,
        }
    }
}

/// Settings of the read-only web dashboard.
pub struct WebConfig {
    pub enable: bool,
    pub host: String,
    pub port: u16,
    pub authentication: bool,
    pub username: String,
    pub password: String,
}

/// Abstract value of a [`WebConfig`].
pub struct WebConfigView {
    pub enable: bool,
    pub host: Seq<char>,
    pub port: u16,
    pub authentication: bool,
    pub username: Seq<char>,
    pub password: Seq<char>,
}

impl View for WebConfig {
    type V = WebConfigView;

    open spec fn view(&self) -> WebConfigView {
        WebConfigView {
            enable: self.enable,
            host: self.host@,
            port: self.port,
            authentication: self.authentication,
            username: self.username@,
            password: self.password@,
        }
    }
}

/// The whole configuration.
pub struct Config {
    pub server: ServerConfig,
    pub web: WebConfig,
}

/// Abstract value of a [`Config`].
pub struct ConfigView {
    pub server: ServerConfigView,
    pub web: WebConfigView,
}

impl View for Config {
    type V = ConfigView;

    open spec fn view(&self) -> ConfigView {
        ConfigView { server: self.server@, web: self.web@ }
    }
}

/// What the `server` table of TOML text holds: its `host`, `port`,
/// `online_mode`, `api_key`, `protect_server` and `server_password`
/// fields, each absent when missing or of another type — or the parse
/// error. A function of the text alone; toml computes it.
pub uninterp spec fn server_fields_of(s: Seq<char>) -> Result<
    (
        Option<Seq<char>>,
        Option<i64>,
        Option<bool>,
        Option<Seq<char>>,
        Option<bool>,
        Option<Seq<char>>,
    ),
    Seq<char>,
>;

/// What the `web` table of TOML text holds: its `enable`, `host`,
/// `port`, `authentication`, `username` and `password` fields, each
/// absent when missing or of another type — or the parse error. A
/// function of the text alone; toml computes it.
pub uninterp spec fn web_fields_of(s: Seq<char>) -> Result<
    (
        Option<bool>,
        Option<Seq<char>>,
        Option<i64>,
        Option<bool>,
        Option<Seq<char>>,
        Option<Seq<char>>,
    ),
    Seq<char>,
>;

/// Relies on toml::from_str, toml::Value::get, as_str, as_integer and
/// as_bool: parses TOML text and reads the fields of its `server`
/// table, or reports the parse error as text. The result depends on the
/// text alone and carries the name [`server_fields_of`].
#[verifier::external_body]
fn parse_server_fields(text: &str) -> (r: Result<
    (Option<String>, Option<i64>, Option<bool>, Option<String>, Option<bool>, Option<String>),
    String,
>)
    ensures
        r is Ok <==> server_fields_of(text@) is Ok,
        r is Ok ==> (
            r->Ok_0.0.deep_view(),
            r->Ok_0.1,
            r->Ok_0.2,
            r->Ok_0.3.deep_view(),
            r->Ok_0.4,
            r->Ok_0.5.deep_view(),
        ) == server_fields_of(text@)->Ok_0,
        r is Err ==> r->Err_0@ == server_fields_of(text@)->Err_0,
{
    let root: toml::Value = match toml::from_str(text) {
        Ok(v) => v,
        Err(e) => {
            return Err(e.to_string());
        },
    };
    let t = root.get("server");
    let gets = |k: &str| t.and_then(|v| v.get(k)).and_then(|v| v.as_str()).map(|x| x.to_string());
    let geti = |k: &str| t.and_then(|v| v.get(k)).and_then(|v| v.as_integer());
    let getb = |k: &str| t.and_then(|v| v.get(k)).and_then(|v| v.as_bool());
    Ok((gets("host"), geti("port"), getb("online_mode"), gets("api_key"), getb("protect_server"), gets("server_password")))
}

/// Relies on toml::from_str, toml::Value::get, as_str, as_integer and
/// as_bool: parses TOML text and reads the fields of its `web` table,
/// or reports the parse error as text. The result depends on the text
/// alone and carries the name [`web_fields_of`].
#[verifier::external_body]
fn parse_web_fields(text: &str) -> (r: Result<
    (Option<bool>, Option<String>, Option<i64>, Option<bool>, Option<String>, Option<String>),
    String,
>)
    ensures
        r is Ok <==> web_fields_of(text@) is Ok,
        r is Ok ==> (
            r->Ok_0.0,
            r->Ok_0.1.deep_view(),
            r->Ok_0.2,
            r->Ok_0.3,
            r->Ok_0.4.deep_view(),
            r->Ok_0.5.deep_view(),
        ) == web_fields_of(text@)->Ok_0,
        r is Err ==> r->Err_0@ == web_fields_of(text@)->Err_0,
{
    let root: toml::Value = match toml::from_str(text) {
        Ok(v) => v,
        Err(e) => {
            return Err(e.to_string());
        },
    };
    let t = root.get("web");
    let gets = |k: &str| t.and_then(|v| v.get(k)).and_then(|v| v.as_str()).map(|x| x.to_string());
    let geti = |k: &str| t.and_then(|v| v.get(k)).and_then(|v| v.as_integer());
    let getb = |k: &str| t.and_then(|v| v.get(k)).and_then(|v| v.as_bool());
    Ok((getb("enable"), gets("host"), geti("port"), getb("authentication"), gets("username"), gets("password")))
}

/// Builds the TCP server settings from the fields read out of the `server`
/// table. Every field must be present, and the port must fit a `u16`.
pub fn build_server_config(
    host: Option<String>,
    port: Option<i64>,
    online_mode: Option<bool>,
    api_key: Option<String>,
    protect_server: Option<bool>,
    server_password: Option<String>,
) -> (r: Result<ServerConfig, String>)
    ensures
        r is Ok <==> {
            &&& host is Some
            &&& port is Some && 0 <= port->0 <= u16::MAX
            &&& online_mode is Some
            &&& api_key is Some
            &&& protect_server is Some
            &&& server_password is Some
        },
        r is Ok ==> r->Ok_0@ == (ServerConfigView {
            host: host->0@,
            port: port->0 as u16,
            online_mode: online_mode->0,
            api_key: api_key->0@,
            protect_server: protect_server->0,
            server_password: server_password->0@,
        }),
{
    let host = match host {
        Some(h) => h,
        None => {
            return Err(String::from_str("missing server.host"));
        },
    };
    let port: u16 = match port {
        Some(p) => {
            if p < 0 || p > 65535 {
                return Err(String::from_str("server.port out of range"));
            }
            p as u16
        },
        None => {
            return Err(String::from_str("missing server.port"));
        },
    };
    let online_mode = match online_mode {
        Some(b) => b,
        None => {
            return Err(String::from_str("missing server.online_mode"));
        },
    };
    let api_key = match api_key {
        Some(k) => k,
        None => {
            return Err(String::from_str("missing server.api_key"));
        },
    };
    let protect_server = match protect_server {
        Some(b) => b,
        None => {
            return Err(String::from_str("missing server.protect_server"));
        },
    };
    let server_password = match server_password {
        Some(p) => p,
        None => {
            return Err(String::from_str("missing server.server_password"));
        },
    };
    Ok(ServerConfig { host, port, online_mode, api_key, protect_server, server_password })
}

/// Builds the web dashboard settings from the fields read out of the `web`
/// table. Every field must be present, and the port must fit a `u16`.
pub fn build_web_config(
    enable: Option<bool>,
    host: Option<String>,
    port: Option<i64>,
    authentication: Option<bool>,
    username: Option<String>,
    password: Option<String>,
) -> (r: Result<WebConfig, String>)
    ensures
        r is Ok <==> {
            &&& enable is Some
            &&& host is Some
            &&& port is Some && 0 <= port->0 <= u16::MAX
            &&& authentication is Some
            &&& username is Some
            &&& password is Some
        },
        r is Ok ==> r->Ok_0@ == (WebConfigView {
            enable: enable->0,
            host: host->0@,
            port: port->0 as u16,
            authentication: authentication->0,
            username: username->0@,
            password: password->0@,
        }),
{
    let enable = match enable {
        Some(b) => b,
        None => {
            return Err(String::from_str("missing web.enable"));
        },
    };
    let host = match host {
        Some(h) => h,
        None => {
            return Err(String::from_str("missing web.host"));
        },
    };
    let port: u16 = match port {
        Some(p) => {
            if p < 0 || p > 65535 {
                return Err(String::from_str("web.port out of range"));
            }
            p as u16
        },
        None => {
            return Err(String::from_str("missing web.port"));
        },
    };
    let authentication = match authentication {
        Some(b) => b,
        None => {
            return Err(String::from_str("missing web.authentication"));
        },
    };
    let username = match username {
        Some(u) => u,
        None => {
            return Err(String::from_str("missing web.username"));
        },
    };
    let password = match password {
        Some(p) => p,
        None => {
            return Err(String::from_str("missing web.password"));
        },
    };
    Ok(WebConfig { enable, host, port, authentication, username, password })
}

/// Every server field is present and the port fits a `u16`.
pub open spec fn spec_server_fields_ok(
    f: (
        Option<Seq<char>>,
        Option<i64>,
        Option<bool>,
        Option<Seq<char>>,
        Option<bool>,
        Option<Seq<char>>,
    ),
) -> bool {
    &&& f.0 is Some
    &&& f.1 is Some && 0 <= f.1->0 <= u16::MAX
    &&& f.2 is Some
    &&& f.3 is Some
    &&& f.4 is Some
    &&& f.5 is Some
}

/// The server settings the fields assemble to.
pub open spec fn spec_server_config_of(
    f: (
        Option<Seq<char>>,
        Option<i64>,
        Option<bool>,
        Option<Seq<char>>,
        Option<bool>,
        Option<Seq<char>>,
    ),
) -> ServerConfigView {
    ServerConfigView {
        host: f.0->0,
        port: f.1->0 as u16,
        online_mode: f.2->0,
        api_key: f.3->0,
        protect_server: f.4->0,
        server_password: f.5->0,
    }
}

/// Every web field is present and the port fits a `u16`.
pub open spec fn spec_web_fields_ok(
    f: (
        Option<bool>,
        Option<Seq<char>>,
        Option<i64>,
        Option<bool>,
        Option<Seq<char>>,
        Option<Seq<char>>,
    ),
) -> bool {
    &&& f.0 is Some
    &&& f.1 is Some
    &&& f.2 is Some && 0 <= f.2->0 <= u16::MAX
    &&& f.3 is Some
    &&& f.4 is Some
    &&& f.5 is Some
}

/// The web settings the fields assemble to.
pub open spec fn spec_web_config_of(
    f: (
        Option<bool>,
        Option<Seq<char>>,
        Option<i64>,
        Option<bool>,
        Option<Seq<char>>,
        Option<Seq<char>>,
    ),
) -> WebConfigView {
    WebConfigView {
        enable: f.0->0,
        host: f.1->0,
        port: f.2->0 as u16,
        authentication: f.3->0,
        username: f.4->0,
        password: f.5->0,
    }
}

/// The text parses and both tables hold every required field, the ports
/// in `u16` range.
pub open spec fn spec_config_ok(text: Seq<char>) -> bool {
    &&& server_fields_of(text) is Ok
    &&& web_fields_of(text) is Ok
    &&& spec_server_fields_ok(server_fields_of(text)->Ok_0)
    &&& spec_web_fields_ok(web_fields_of(text)->Ok_0)
}

/// The configuration the text stands for, when [`spec_config_ok`] holds.
pub open spec fn spec_config_of(text: Seq<char>) -> ConfigView {
    ConfigView {
        server: spec_server_config_of(server_fields_of(text)->Ok_0),
        web: spec_web_config_of(web_fields_of(text)->Ok_0),
    }
}

/// Parses configuration text in TOML form. Returns the configuration
/// exactly when the text parses and both the `server` and the `web`
/// table hold every required field, the ports in `u16` range; otherwise
/// an error message.
pub fn get_config(contents: &str) -> (r: Result<Config, String>)
    ensures
        r is Ok <==> spec_config_ok(contents@),
        r is Ok ==> r->Ok_0@ == spec_config_of(contents@),
{
    let server_fields = match parse_server_fields(contents) {
        Ok(f) => f,
        Err(e) => {
            return Err(e);
        },
    };
    let web_fields = match parse_web_fields(contents) {
        Ok(f) => f,
        Err(e) => {
            return Err(e);
        },
    };
    let (s_host, s_port, s_online, s_key, s_protect, s_pass) = server_fields;
    let (w_enable, w_host, w_port, w_auth, w_user, w_pass) = web_fields;
    let server = match build_server_config(s_host, s_port, s_online, s_key, s_protect, s_pass) {
        Ok(s) => s,
        Err(e) => {
            return Err(e);
        },
    };
    let web = match build_web_config(w_enable, w_host, w_port, w_auth, w_user, w_pass) {
        Ok(w) => w,
        Err(e) => {
            return Err(e);
        },
    };
    Ok(Config { server, web })
}

} // verus!

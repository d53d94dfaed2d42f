//! The configuration.

use dissimkl::config::{
    config_dir_in, config_from_values, credentials_path, credentials_path_in, entered_client_id,
    entered_optional, get_config_dir, load_config, reloaded, save_config, startup, Config,
    ConfigError, Startup,
};

fn full() -> Config {
    Config {
        simkl_client_id: "abc123".to_string(),
        simkl_access_token: Some("tok=en:1".to_string()),
        discord_app_id_shows: Some("123456789012345678".to_string()),
        discord_app_id_movies: None,
        discord_app_id_anime: Some("3".to_string()),
        poll_interval_secs: 30,
        session_window_hours: u64::MAX,
    }
}

fn same(a: &Config, b: &Config) -> bool {
    format!("{a:?}") == format!("{b:?}")
}

#[test]
fn defaults() {
    let c = Config::default();
    assert_eq!(c.simkl_client_id, "");
    assert_eq!(c.simkl_access_token, None);
    assert_eq!(c.poll_interval_secs, 15);
    assert_eq!(c.session_window_hours, 4);
    assert!(!c.is_complete());
}

#[test]
fn completeness_needs_id_and_token() {
    let mut c = full();
    assert!(c.is_complete());
    c.simkl_access_token = None;
    assert!(!c.is_complete());
    c.simkl_access_token = Some(String::new());
    assert!(c.is_complete());
    c.simkl_client_id = String::new();
    assert!(!c.is_complete());
}

#[test]
fn application_by_kind() {
    let c = full();
    assert_eq!(c.discord_app_id("shows"), Some("123456789012345678"));
    assert_eq!(c.discord_app_id("movies"), None);
    assert_eq!(c.discord_app_id("anime"), Some("3"));
    assert_eq!(c.discord_app_id("books"), None);
}

#[test]
fn content_of_the_file() {
    assert_eq!(
        save_config(&full()),
        "[simkl]\nclient_id = abc123\naccess_token = tok=en:1\n\n[discord]\n\
         app_id_shows = 123456789012345678\napp_id_movies = \napp_id_anime = 3\n\n[settings]\n\
         poll_interval_secs = 30\nsession_window_hours = 18446744073709551615\n"
    );
}

#[test]
fn saved_config_reads_back() {
    assert!(same(&load_config(&save_config(&full())).unwrap(), &full()));
    let mut blank = full();
    blank.simkl_access_token = Some(String::new());
    let read = load_config(&save_config(&blank)).unwrap();
    assert_eq!(read.simkl_access_token, None);
}

#[test]
fn documented_file_is_read() {
    let content = "[simkl]\nclient_id = YOUR_SIMKL_CLIENT_ID\n\
        access_token = YOUR_SIMKL_ACCESS_TOKEN\n\n[discord]\n\
        app_id_shows  = 123456789012345678\napp_id_movies = 123456789012345679\n\
        app_id_anime  = 123456789012345680\n\n[settings]\n\
        ; How often (in seconds) to check Simkl for activity changes\npoll_interval_secs = 15\n\
        ; Sessions older than this many hours are ignored\nsession_window_hours = 4\n";
    let c = load_config(content).unwrap();
    assert_eq!(c.simkl_client_id, "YOUR_SIMKL_CLIENT_ID");
    assert_eq!(c.simkl_access_token.as_deref(), Some("YOUR_SIMKL_ACCESS_TOKEN"));
    assert_eq!(c.discord_app_id("shows"), Some("123456789012345678"));
    assert_eq!(c.discord_app_id("movies"), Some("123456789012345679"));
    assert_eq!(c.discord_app_id("anime"), Some("123456789012345680"));
    assert_eq!((c.poll_interval_secs, c.session_window_hours), (15, 4));
}

#[test]
fn missing_settings_get_defaults() {
    let c = load_config("[simkl]\nclient_id = x\n[settings]\npoll_interval_secs = soon\n").unwrap();
    assert_eq!((c.poll_interval_secs, c.session_window_hours), (15, 4));
    assert_eq!(c.simkl_access_token, None);
}

#[test]
fn errors_of_loading() {
    for content in ["", "[simkl]\nclient_id =\n", "[discord]\nclient_id = x\n"] {
        let e = load_config(content).unwrap_err();
        assert!(matches!(e, ConfigError::MissingClientId));
        assert_eq!(e.message(), "Missing [simkl] client_id in credentials.ini");
    }
    let e = load_config("[simkl\nclient_id = x\n").unwrap_err();
    assert!(matches!(e, ConfigError::Malformed(_)));
    assert!(e.message().starts_with("Failed to parse credentials.ini: "));
    assert_eq!(
        ConfigError::NotFound("/x".to_string()).message(),
        "Config file not found at /x"
    );
}

#[test]
fn values_in_order() {
    let text = |s: &str| Some(s.to_string());
    let c = config_from_values(&vec![
        text("id"), text(""), text("s"), None, text("a"), text("7"), text("-7"),
    ])
    .unwrap();
    assert_eq!(c.simkl_client_id, "id");
    assert_eq!(c.simkl_access_token, None);
    assert_eq!(c.discord_app_id("shows"), Some("s"));
    assert_eq!(c.discord_app_id("movies"), None);
    assert_eq!(c.discord_app_id("anime"), Some("a"));
    assert_eq!((c.poll_interval_secs, c.session_window_hours), (7, 4));
    let none = vec![text(""), None, None, None, None, None, None];
    assert!(matches!(config_from_values(&none), Err(ConfigError::MissingClientId)));
}

#[test]
fn place_of_the_file() {
    let base = std::path::PathBuf::from("/home/me/.config");
    let dir = config_dir_in(Some(base.clone())).unwrap();
    assert_eq!((dir.base, dir.names), (base.clone(), vec!["dissimkl".to_string()]));
    let path = credentials_path_in(Some(base.clone())).unwrap();
    assert_eq!(path.base, base);
    assert_eq!(path.names, vec!["dissimkl".to_string(), "credentials.ini".to_string()]);
    let e = credentials_path_in(None).unwrap_err();
    assert_eq!(e.message(), "Cannot find config directory");
    assert!(matches!(config_dir_in(None), Err(ConfigError::NoConfigDirectory)));
    if let (Ok(dir), Ok(path)) = (get_config_dir(), credentials_path()) {
        assert_eq!(dir.base, path.base);
        assert_eq!(dir.names, vec!["dissimkl".to_string()]);
        assert_eq!(path.names.len(), 2);
    }
}

#[test]
fn ways_to_start() {
    assert!(matches!(startup(Ok(full())), Startup::Run(_)));
    let mut c = full();
    c.simkl_access_token = None;
    let Startup::Authorize(c) = startup(Ok(c)) else { panic!("no token") };
    let c = c.authorized("new".to_string());
    assert!(c.is_complete());
    assert_eq!(c.simkl_access_token.as_deref(), Some("new"));
    assert_eq!(c.simkl_client_id, "abc123");
    assert!(matches!(startup(Err(ConfigError::MissingClientId)), Startup::Setup));
}

#[test]
fn reloading_keeps_a_working_config() {
    let mut new = full();
    new.poll_interval_secs = 99;
    assert_eq!(reloaded(full(), Ok(new.clone())).poll_interval_secs, 99);
    // A file without a token changes the rest and keeps the token.
    new.simkl_access_token = None;
    new.session_window_hours = 7;
    new.discord_app_id_movies = Some("555".to_string());
    let kept = reloaded(full(), Ok(new));
    assert_eq!(kept.poll_interval_secs, 99);
    assert_eq!(kept.session_window_hours, 7);
    assert_eq!(kept.discord_app_id_movies.as_deref(), Some("555"));
    assert_eq!(kept.simkl_access_token, full().simkl_access_token);
    assert!(kept.is_complete());
    let mut other = full();
    other.simkl_access_token = Some("other".to_string());
    assert_eq!(reloaded(full(), Ok(other)).simkl_access_token.as_deref(), Some("other"));
    assert_eq!(reloaded(full(), Err(ConfigError::MissingClientId)).poll_interval_secs, 30);
}

#[test]
fn answers_of_the_user() {
    assert_eq!(entered_client_id(" id \n").unwrap(), "id");
    let e = entered_client_id(" \n").unwrap_err();
    assert_eq!(e.message(), "client_id cannot be empty");
    assert_eq!(entered_optional("\n"), None);
    assert_eq!(entered_optional(" 12 \r\n").as_deref(), Some("12"));
    let c = Config::from_setup(
        "id".to_string(),
        "tok".to_string(),
        Some("1".to_string()),
        None,
        Some("3".to_string()),
    );
    assert!(c.is_complete());
    assert_eq!(c.discord_app_id("shows"), Some("1"));
    assert_eq!(c.discord_app_id("movies"), None);
    assert_eq!(c.discord_app_id("anime"), Some("3"));
    assert_eq!((c.poll_interval_secs, c.session_window_hours), (15, 4));
}

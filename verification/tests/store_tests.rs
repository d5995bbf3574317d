use devstrap::compiler::Configuration;
use devstrap::store::{config_file_name, load, save, StoreError};

fn sample() -> Configuration {
    Configuration {
        repos_dir: String::from("/home/dev/sources"),
        repos: vec!["core-server".to_string(), "search-service".to_string()],
        profiles: vec!["search".to_string()],
        setup_database: true,
        su_password: String::from("password"),
        password: String::from("password"),
    }
}

#[test]
fn round_trip_reproduces_the_configuration() {
    let c = sample();
    let text = save(&c);
    let back = load(text.as_str()).unwrap();
    assert_eq!(back, c);
}

#[test]
fn round_trip_of_the_empty_no_database_case() {
    let c = Configuration {
        repos_dir: String::from("/srv/work"),
        repos: Vec::new(),
        profiles: Vec::new(),
        setup_database: false,
        su_password: String::new(),
        password: String::new(),
    };
    let text = save(&c);
    let back = load(text.as_str()).unwrap();
    assert_eq!(back, c);
}

#[test]
fn round_trip_with_characters_that_need_escaping() {
    let c = Configuration {
        repos_dir: String::from("/home/dev/my \"odd\" dir"),
        repos: vec!["core-server".to_string()],
        profiles: Vec::new(),
        setup_database: true,
        su_password: String::from("pa\"ss\\word"),
        password: String::from("\\\\server\\share"),
    };
    let text = save(&c);
    let back = load(text.as_str()).unwrap();
    assert_eq!(back, c);
}

#[test]
fn saved_form_is_the_documented_text() {
    let c = Configuration {
        repos_dir: String::from("/tmp/sources"),
        repos: vec!["core-server".to_string()],
        profiles: Vec::new(),
        setup_database: true,
        su_password: String::from("password"),
        password: String::from("password"),
    };
    let expected = "repos_dir = \"/tmp/sources\"\nrepos = [\"core-server\"]\nprofiles = []\nsetup_database = true\nsu_password = \"password\"\npassword = \"password\"\n";
    assert_eq!(save(&c), expected);
}

#[test]
fn corrupt_content_is_surfaced_not_defaulted() {
    assert_eq!(load("this is not a configuration"), Err(StoreError::Corrupt));
    assert_eq!(load(""), Err(StoreError::Corrupt));
    let mut truncated = save(&sample());
    truncated.truncate(truncated.len() / 2);
    assert_eq!(load(truncated.as_str()), Err(StoreError::Corrupt));
}

#[test]
fn trailing_garbage_is_corrupt() {
    let mut text = save(&sample());
    text.push_str("extra = true\n");
    assert_eq!(load(text.as_str()), Err(StoreError::Corrupt));
}

#[test]
fn saved_form_is_valid_toml() {
    let text = save(&sample());
    let table: toml::Table = text.parse().unwrap();
    assert_eq!(table["repos_dir"].as_str(), Some("/home/dev/sources"));
    let repos: Vec<&str> =
        table["repos"].as_array().unwrap().iter().filter_map(|v| v.as_str()).collect();
    assert_eq!(repos, vec!["core-server", "search-service"]);
    let profiles: Vec<&str> =
        table["profiles"].as_array().unwrap().iter().filter_map(|v| v.as_str()).collect();
    assert_eq!(profiles, vec!["search"]);
    assert_eq!(table["setup_database"].as_bool(), Some(true));
    assert_eq!(table["su_password"].as_str(), Some("password"));
    assert_eq!(table["password"].as_str(), Some("password"));
}

#[test]
fn config_file_is_a_dotfile() {
    assert_eq!(config_file_name(), ".devstrap");
}

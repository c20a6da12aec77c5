use place_downloader::config::ConfigManager;
use place_downloader::menus::{
    AccountMenu, AccountMenuChoice, AddAccountChoice, MainMenu, MainMenuChoice, RemovalChoice,
};
use place_downloader::models::{Account, AccountToken, AppConfig, Token};

fn sample_config() -> AppConfig {
    AppConfig::new(vec![
        Account::with_credentials("alice".to_string(), "pw1".to_string()),
        Account::with_token("bob".to_string(), "jwt-b".to_string()),
        Account::with_credentials("carol".to_string(), "pw3".to_string()),
    ])
}

#[test]
fn account_constructors_set_their_fields() {
    let a = Account::with_credentials("alice".to_string(), "secret\n".to_string());
    assert_eq!(a.username, "alice");
    assert_eq!(a.password.as_deref(), Some("secret\n"));
    assert!(a.jwt_token.is_none());
    let b = Account::with_token("bob".to_string(), "eyJ".to_string());
    assert_eq!(b.username, "bob");
    assert!(b.password.is_none());
    assert_eq!(b.jwt_token.as_deref(), Some("eyJ"));
}

#[test]
fn token_and_account_token_hold_their_parts() {
    let t = Token::new("session".to_string(), "jwt".to_string());
    assert_eq!(t.reddit_session, "session");
    assert_eq!(t.jwt_token, "jwt");
    let _ = AccountToken::new("alice".to_string(), "jwt".to_string());
}

#[test]
fn new_empty_config_has_no_accounts() {
    assert!(AppConfig::new_empty().accounts.is_empty());
    assert_eq!(sample_config().accounts.len(), 3);
}

#[test]
fn find_account_returns_first_with_that_name() {
    let config = sample_config().with_account(Account::with_token("alice".to_string(), "x".to_string()));
    let found = config.find_account(&"alice".to_string()).unwrap();
    assert_eq!(found.password.as_deref(), Some("pw1"));
    assert!(config.find_account(&"dave".to_string()).is_none());
    assert!(config.find_account(&"alice\n".to_string()).is_none());
}

#[test]
fn added_account_is_found_and_removing_it_restores_the_config() {
    let config = sample_config();
    let added = config.with_account(Account::with_credentials("dave".to_string(), "pw4".to_string()));
    assert_eq!(added.accounts.len(), 4);
    assert_eq!(added.accounts[3].username, "dave");
    assert_eq!(added.find_account(&"dave".to_string()).unwrap().password.as_deref(), Some("pw4"));
    let removed = added.without_account(3);
    let names: Vec<&str> = removed.accounts.iter().map(|a| a.username.as_str()).collect();
    assert_eq!(names, vec!["alice", "bob", "carol"]);
}

#[test]
fn without_account_keeps_the_order_of_the_others() {
    let removed = sample_config().without_account(0);
    let names: Vec<&str> = removed.accounts.iter().map(|a| a.username.as_str()).collect();
    assert_eq!(names, vec!["bob", "carol"]);
}

#[test]
fn logins_due_lists_accounts_with_password_and_no_jwt() {
    let mut config = sample_config();
    config.accounts.push(Account {
        username: "erin".to_string(),
        password: Some("pw5".to_string()),
        jwt_token: Some("jwt-e".to_string()),
    });
    let due = config.logins_due();
    assert_eq!(
        due,
        vec![
            ("alice".to_string(), "pw1".to_string()),
            ("carol".to_string(), "pw3".to_string())
        ]
    );
    assert!(AppConfig::new_empty().logins_due().is_empty());
}

#[test]
fn main_menu_reads_trimmed_numbers() {
    assert_eq!(MainMenu::choice("1\n"), MainMenuChoice::AccountManagement);
    assert_eq!(MainMenu::choice("  2 \r\n"), MainMenuChoice::StartDownloader);
    assert_eq!(MainMenu::choice("+3"), MainMenuChoice::Exit);
    assert_eq!(MainMenu::choice("003\n"), MainMenuChoice::Exit);
    assert_eq!(MainMenu::choice("4\n"), MainMenuChoice::InvalidOption);
    assert_eq!(MainMenu::choice("0"), MainMenuChoice::InvalidOption);
    assert_eq!(MainMenu::choice("4294967295"), MainMenuChoice::InvalidOption);
    assert_eq!(MainMenu::choice("4294967296"), MainMenuChoice::InvalidInput);
    assert_eq!(MainMenu::choice("-1"), MainMenuChoice::InvalidInput);
    assert_eq!(MainMenu::choice("+"), MainMenuChoice::InvalidInput);
    assert_eq!(MainMenu::choice("1 2"), MainMenuChoice::InvalidInput);
    assert_eq!(MainMenu::choice("\n"), MainMenuChoice::InvalidInput);
    assert_eq!(MainMenu::choice("one"), MainMenuChoice::InvalidInput);
    assert_eq!(MainMenu::choice("\u{3000}1\u{a0}"), MainMenuChoice::AccountManagement);
}

#[test]
fn account_menus_map_their_entries() {
    assert_eq!(AccountMenu::choice("1\n"), AccountMenuChoice::AddAccount);
    assert_eq!(AccountMenu::choice("2\n"), AccountMenuChoice::EditAccount);
    assert_eq!(AccountMenu::choice("3\n"), AccountMenuChoice::RemoveAccount);
    assert_eq!(AccountMenu::choice("4\n"), AccountMenuChoice::Back);
    assert_eq!(AccountMenu::choice("5\n"), AccountMenuChoice::InvalidOption);
    assert_eq!(AccountMenu::choice("x\n"), AccountMenuChoice::InvalidInput);
    assert_eq!(AccountMenu::add_account_choice("1\n"), AddAccountChoice::WithCredentials);
    assert_eq!(AccountMenu::add_account_choice("2\n"), AddAccountChoice::WithToken);
    assert_eq!(AccountMenu::add_account_choice("3\n"), AddAccountChoice::Back);
    assert_eq!(AccountMenu::add_account_choice("9\n"), AddAccountChoice::InvalidOption);
    assert_eq!(AccountMenu::add_account_choice(""), AddAccountChoice::InvalidInput);
    AccountMenu::edit_account();
}

#[test]
fn removal_menu_numbers_accounts_from_one_then_back() {
    assert_eq!(AccountMenu::removal_selection(" 2\n"), Some(2));
    assert_eq!(AccountMenu::removal_selection("18446744073709551615"), Some(usize::MAX));
    assert_eq!(AccountMenu::removal_selection("18446744073709551616"), None);
    assert_eq!(AccountMenu::removal_selection("two"), None);
    assert_eq!(AccountMenu::removal_choice(Some(1), 3), RemovalChoice::Remove(0));
    assert_eq!(AccountMenu::removal_choice(Some(3), 3), RemovalChoice::Remove(2));
    assert_eq!(AccountMenu::removal_choice(Some(4), 3), RemovalChoice::Back);
    assert_eq!(AccountMenu::removal_choice(Some(5), 3), RemovalChoice::OutOfBounds);
    assert_eq!(AccountMenu::removal_choice(None, 3), RemovalChoice::InvalidInput);
    assert_eq!(AccountMenu::removal_choice(Some(1), 0), RemovalChoice::Back);
}

#[test]
fn config_paths_join_like_path_join() {
    assert_eq!(
        ConfigManager::config_dir_for(Some("/home/u/.config".to_string())),
        "/home/u/.config/rplaceDownloader"
    );
    assert_eq!(
        ConfigManager::config_dir_for(Some("/home/u/.config/".to_string())),
        "/home/u/.config/rplaceDownloader"
    );
    assert_eq!(ConfigManager::config_dir_for(None), "/rplaceDownloader");
    assert_eq!(
        ConfigManager::config_file_in("/home/u/.config/rplaceDownloader"),
        "/home/u/.config/rplaceDownloader/config.json"
    );
    assert_eq!(ConfigManager::config_file_in(""), "config.json");
    assert_eq!(place_downloader::config::join("/a", "/b"), "/b");
    let expected = std::path::Path::new("/x/y").join("config.json").display().to_string();
    assert_eq!(ConfigManager::config_file_in("/x/y"), expected);
}

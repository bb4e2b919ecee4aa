use reversed_front::account_manager::{
    add_account, delete_account, find_account, get_accounts, get_active_account,
    set_active_account, Account, AccountBook,
};
use reversed_front::config_manager::{
    choose_config, choose_resource_base, get_config_file, get_hidden_config_dir, is_global_field,
    set_resource_base_path, settings_key, ConfigSource, DirectoryFacts, DEFAULT_FACTION_FILTER,
};

fn account(name: &str) -> Option<Account> {
    Some(Account { account: name.to_string(), password: Some("secret".to_string()) })
}

fn book(names: &[&str], active: Option<u64>) -> AccountBook {
    AccountBook {
        accounts: names.iter().map(|name| account(name)).collect(),
        active_account_index: active,
    }
}

fn names(book: &AccountBook) -> Vec<Option<String>> {
    book.accounts.iter().map(|entry| entry.as_ref().map(|a| a.account.clone())).collect()
}

fn facts(path: &str, bundled: bool, assets: bool) -> DirectoryFacts {
    DirectoryFacts {
        path: path.to_string(),
        bundled_assets: if bundled { Some(format!("{}/_up_/assets", path)) } else { None },
        assets: if assets { Some(format!("{}/assets", path)) } else { None },
    }
}

#[test]
fn the_first_base_path_stays() {
    let mut slot = None;
    set_resource_base_path(&mut slot, "/first".to_string());
    assert_eq!(slot.as_deref(), Some("/first"));
    set_resource_base_path(&mut slot, "/second".to_string());
    assert_eq!(slot.as_deref(), Some("/first"));
}

#[test]
fn each_target_has_its_directory() {
    assert_eq!(get_hidden_config_dir("/app/assets", "passionfruit", '/'), "/app/assets/passionfruit");
    assert_eq!(get_hidden_config_dir("/app/assets", "root", '/'), "/app/assets");
    assert_eq!(get_hidden_config_dir("/app/assets", "data", '/'), "/app/assets/mod/data");
    assert_eq!(get_hidden_config_dir("/app/assets", "anything", '/'), "/app/assets/mod/data");
    assert_eq!(get_hidden_config_dir("/app/assets", "", '/'), "/app/assets/mod/data");
    assert_eq!(get_hidden_config_dir("/app/assets/", "passionfruit", '/'), "/app/assets/passionfruit");
    assert_eq!(get_hidden_config_dir("C:\\app", "data", '\\'), "C:\\app\\mod\\data");
}

#[test]
fn the_config_file_lies_in_the_data_directory() {
    assert_eq!(get_config_file("/app/assets", '/'), "/app/assets/mod/data/config.json");
    assert_eq!(get_config_file("C:\\app", '\\'), "C:\\app\\mod\\data\\config.json");
    assert_eq!(get_config_file("", '/'), "mod/data/config.json");
}

#[test]
fn a_configured_base_comes_first() {
    let ancestors = vec![facts("/opt/app", true, true)];
    assert_eq!(choose_resource_base(&Some("/configured".to_string()), &ancestors), "/configured");
}

#[test]
fn bundled_assets_come_before_plain_ones() {
    let ancestors = vec![facts("/opt/app", true, true), facts("/opt", false, true)];
    assert_eq!(choose_resource_base(&None, &ancestors), "/opt/app/_up_/assets");
    let ancestors = vec![facts("/opt/app", false, true), facts("/opt", true, true)];
    assert_eq!(choose_resource_base(&None, &ancestors), "/opt/app/assets");
}

#[test]
fn the_nearest_assets_directory_on_the_way_up_is_taken() {
    let ancestors = vec![
        facts("/opt/app/bin", false, false),
        facts("/opt/app", false, true),
        facts("/opt", false, true),
        facts("/", false, false),
    ];
    assert_eq!(choose_resource_base(&None, &ancestors), "/opt/app/assets");
    let ancestors = vec![facts("/opt/app/bin", false, false), facts("/opt/app", true, false)];
    assert_eq!(choose_resource_base(&None, &ancestors), "/opt/app");
}

#[test]
fn without_assets_anywhere_the_topmost_directory_is_taken() {
    let ancestors =
        vec![facts("/opt/app", false, false), facts("/opt", false, false), facts("/", false, false)];
    assert_eq!(choose_resource_base(&None, &ancestors), "/");
    assert_eq!(choose_resource_base(&None, &Vec::new()), ".");
}

#[test]
fn reports_show_all_factions_by_default() {
    assert_eq!(DEFAULT_FACTION_FILTER, "全部");
}

#[test]
fn the_stored_configuration_is_the_only_candidate_where_it_exists() {
    assert_eq!(choose_config(true, true, true, true), ConfigSource::Stored);
    assert_eq!(choose_config(true, true, false, false), ConfigSource::Stored);
    assert_eq!(choose_config(true, false, true, true), ConfigSource::Empty);
    assert_eq!(choose_config(true, false, false, false), ConfigSource::Empty);
}

#[test]
fn the_fallback_counts_only_without_a_stored_configuration() {
    assert_eq!(choose_config(false, false, true, true), ConfigSource::Fallback);
    assert_eq!(choose_config(false, true, true, true), ConfigSource::Fallback);
    assert_eq!(choose_config(false, false, true, false), ConfigSource::Empty);
    assert_eq!(choose_config(false, false, false, true), ConfigSource::Empty);
    assert_eq!(choose_config(false, false, false, false), ConfigSource::Empty);
}

#[test]
fn settings_fields_have_their_keys() {
    assert_eq!(settings_key("bgm"), Some("bgm_volume"));
    assert_eq!(settings_key("se"), Some("se_volume"));
    assert_eq!(settings_key("se147Muted"), Some("se147_muted"));
    assert_eq!(settings_key("report_faction_filter"), Some("report_faction_filter"));
    assert_eq!(settings_key("target_account"), None);
    assert_eq!(settings_key("bgm_volume"), None);
    assert_eq!(settings_key("BGM"), None);
    assert_eq!(settings_key(""), None);
}

#[test]
fn global_fields_are_those_with_a_value_but_the_target() {
    assert!(is_global_field("accounts", false));
    assert!(is_global_field("active_account_index", false));
    assert!(!is_global_field("accounts", true));
    assert!(!is_global_field("target_account", false));
    assert!(!is_global_field("target_account", true));
}

#[test]
fn accounts_are_found_by_name() {
    let book = book(&["ann", "bob", "ann"], None);
    assert_eq!(find_account(&book.accounts, "ann"), Some(0));
    assert_eq!(find_account(&book.accounts, "bob"), Some(1));
    assert_eq!(find_account(&book.accounts, "Bob"), None);
    assert_eq!(find_account(&book.accounts, ""), None);
    let mut odd = book;
    odd.accounts.insert(0, None);
    assert_eq!(find_account(&odd.accounts, "ann"), Some(1));
}

#[test]
fn a_missing_or_stale_active_index_is_repaired() {
    let mut missing = book(&["ann", "bob"], None);
    assert!(get_accounts(&mut missing));
    assert_eq!(missing.active_account_index, Some(0));
    assert_eq!(missing.accounts.len(), 2);

    let mut stale = book(&["ann", "bob"], Some(2));
    assert!(get_accounts(&mut stale));
    assert_eq!(stale.active_account_index, Some(0));

    let mut huge = book(&["ann"], Some(u64::MAX));
    assert!(get_accounts(&mut huge));
    assert_eq!(huge.active_account_index, Some(0));
}

#[test]
fn a_valid_active_index_is_left_alone() {
    let mut good = book(&["ann", "bob"], Some(1));
    assert!(!get_accounts(&mut good));
    assert_eq!(good.active_account_index, Some(1));
    let mut first = book(&["ann"], Some(0));
    assert!(!get_accounts(&mut first));
    assert_eq!(first.active_account_index, Some(0));
}

#[test]
fn an_empty_book_is_left_alone() {
    let mut empty = book(&[], None);
    assert!(!get_accounts(&mut empty));
    assert_eq!(empty.active_account_index, None);
    let mut stale = book(&[], Some(3));
    assert!(!get_accounts(&mut stale));
    assert_eq!(stale.active_account_index, Some(3));
}

#[test]
fn a_new_account_is_added_at_the_end() {
    let mut accounts = book(&["ann"], Some(0));
    assert!(add_account(&mut accounts, account("bob")));
    assert_eq!(names(&accounts), vec![Some("ann".to_string()), Some("bob".to_string())]);
    assert_eq!(accounts.active_account_index, Some(0));
}

#[test]
fn an_account_of_a_known_name_is_refused() {
    let mut accounts = book(&["ann", "bob"], None);
    assert!(!add_account(&mut accounts, account("bob")));
    assert_eq!(accounts.accounts.len(), 2);
    assert!(add_account(&mut accounts, account("Bob")));
    assert_eq!(accounts.accounts.len(), 3);
}

#[test]
fn an_entry_without_name_is_always_added() {
    let mut accounts = book(&["ann"], None);
    assert!(add_account(&mut accounts, None));
    assert!(add_account(&mut accounts, None));
    assert_eq!(names(&accounts), vec![Some("ann".to_string()), None, None]);
}

#[test]
fn deleting_moves_the_active_index_along() {
    let mut accounts = book(&["ann", "bob", "cat"], Some(2));
    assert!(delete_account(&mut accounts, 1));
    assert_eq!(names(&accounts), vec![Some("ann".to_string()), Some("cat".to_string())]);
    assert_eq!(accounts.active_account_index, Some(1));

    let mut accounts = book(&["ann", "bob", "cat"], Some(1));
    assert!(delete_account(&mut accounts, 1));
    assert_eq!(accounts.active_account_index, Some(0));

    let mut accounts = book(&["ann", "bob", "cat"], Some(0));
    assert!(delete_account(&mut accounts, 2));
    assert_eq!(accounts.active_account_index, Some(0));

    let mut accounts = book(&["ann", "bob", "cat"], Some(0));
    assert!(delete_account(&mut accounts, 0));
    assert_eq!(names(&accounts), vec![Some("bob".to_string()), Some("cat".to_string())]);
    assert_eq!(accounts.active_account_index, Some(0));

    let mut accounts = book(&["ann", "bob"], None);
    assert!(delete_account(&mut accounts, 0));
    assert_eq!(accounts.active_account_index, None);

    let mut accounts = book(&["ann", "bob", "cat"], Some(1));
    assert!(delete_account(&mut accounts, 2));
    assert_eq!(accounts.active_account_index, Some(1));
}

#[test]
fn deleting_past_the_end_changes_nothing() {
    let mut accounts = book(&["ann", "bob"], Some(1));
    assert!(!delete_account(&mut accounts, 2));
    assert_eq!(accounts.accounts.len(), 2);
    assert_eq!(accounts.active_account_index, Some(1));
    let mut empty = book(&[], None);
    assert!(!delete_account(&mut empty, 0));
}

#[test]
fn only_an_existing_account_can_be_made_active() {
    let mut accounts = book(&["ann", "bob"], None);
    assert!(set_active_account(&mut accounts, 1));
    assert_eq!(accounts.active_account_index, Some(1));
    assert!(!set_active_account(&mut accounts, 2));
    assert_eq!(accounts.active_account_index, Some(1));
    assert!(set_active_account(&mut accounts, 0));
    assert_eq!(accounts.active_account_index, Some(0));
}

#[test]
fn the_active_account_is_the_stated_one_or_the_first() {
    assert_eq!(get_active_account(&book(&["ann", "bob"], Some(1))), Some(1));
    assert_eq!(get_active_account(&book(&["ann", "bob"], None)), Some(0));
    assert_eq!(get_active_account(&book(&["ann", "bob"], Some(2))), None);
    assert_eq!(get_active_account(&book(&[], None)), None);
    assert_eq!(get_active_account(&book(&["ann"], Some(u64::MAX))), None);
}

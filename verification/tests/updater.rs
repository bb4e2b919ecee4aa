use reversed_front::probe::Sibling;
use reversed_front::updater::{
    assemble_offer, check_cloud, check_update, choose_filename, cleanup_old_installers, cloud_url,
    download_url_of, extract_version_from_filename, installer_file_name, installer_name_from,
    installer_opener, is_newer, parse_content_disposition, parse_version, CloudError, CloudHead,
    Platform, UpdateInfo,
};

fn offer(version: &str) -> UpdateInfo {
    UpdateInfo {
        version: version.to_string(),
        download_url: "https://cloud.example/s/abc/download".to_string(),
        filename: format!("ReversedFront_v{}.exe", version),
        has_update: false,
    }
}

fn entry(name: &str, path: &str) -> Sibling {
    Sibling { name: Some(name.to_string()), path: path.to_string() }
}

#[test]
fn versions_split_into_numbers() {
    assert_eq!(parse_version("2.11.2"), vec![2, 11, 2]);
    assert_eq!(parse_version("10"), vec![10]);
    assert_eq!(parse_version(""), Vec::<u32>::new());
    assert_eq!(parse_version("."), Vec::<u32>::new());
    assert_eq!(parse_version("1..2"), vec![1, 2]);
    assert_eq!(parse_version("1.beta.3"), vec![1, 3]);
    assert_eq!(parse_version("v2.5"), vec![5]);
    assert_eq!(parse_version("+7.08"), vec![7, 8]);
    assert_eq!(parse_version("4294967295.4294967296"), vec![4294967295]);
    assert_eq!(parse_version("1. 2"), vec![1]);
}

#[test]
fn parts_are_compared_as_numbers() {
    assert!(is_newer("2.10", "2.9"));
    assert!(!is_newer("2.9", "2.10"));
    assert!(is_newer("3.0", "2.99.99"));
    assert!(!is_newer("1.9.9", "2.0"));
    assert!(is_newer("2.11.2", "2.11.1"));
}

#[test]
fn equal_versions_are_not_newer() {
    assert!(!is_newer("2.11", "2.11"));
    assert!(!is_newer("2.011", "2.11"));
    assert!(!is_newer("", ""));
}

#[test]
fn with_equal_shared_parts_the_longer_version_is_newer() {
    assert!(is_newer("2.11.1", "2.11"));
    assert!(!is_newer("2.11", "2.11.1"));
    assert!(is_newer("2.11.0", "2.11"));
    assert!(is_newer("1", ""));
    assert!(!is_newer("", "1"));
}

#[test]
fn parts_that_are_no_numbers_do_not_count() {
    assert!(is_newer("1.x.5", "1.4"));
    assert!(is_newer("v2.11", "2.10"));
    assert!(!is_newer("beta", "0"));
}

#[test]
fn versions_are_read_from_file_names() {
    assert_eq!(
        extract_version_from_filename("ReversedFront_Setup_v2.10.exe"),
        Some("2.10".to_string())
    );
    assert_eq!(
        extract_version_from_filename("ReversedFront_v2.11.2.exe"),
        Some("2.11.2".to_string())
    );
    assert_eq!(extract_version_from_filename("tool_v1.2.3.4-beta"), Some("1.2.3.4".to_string()));
    assert_eq!(extract_version_from_filename("dev_v1_v2.3.zip"), Some("2.3".to_string()));
}

#[test]
fn file_names_without_a_dotted_version_have_none() {
    assert_eq!(extract_version_from_filename("setup.exe"), None);
    assert_eq!(extract_version_from_filename("ReversedFront_v2"), None);
    assert_eq!(extract_version_from_filename("ReversedFront_v2.exe"), None);
    assert_eq!(extract_version_from_filename("ReversedFront_2.11.exe"), None);
    assert_eq!(extract_version_from_filename(""), None);
}

#[test]
fn the_quoted_file_name_is_read_from_the_header() {
    assert_eq!(
        parse_content_disposition("attachment; filename=\"ReversedFront_v2.11.2.exe\""),
        Ok("ReversedFront_v2.11.2.exe".to_string())
    );
    assert_eq!(
        parse_content_disposition(
            "attachment; filename*=UTF-8''other.exe; filename=\"quoted name.exe\""
        ),
        Ok("quoted name.exe".to_string())
    );
}

#[test]
fn the_encoded_file_name_is_decoded() {
    assert_eq!(
        parse_content_disposition("attachment; filename*=UTF-8''Reversed%20Front_v2.0.exe"),
        Ok("Reversed Front_v2.0.exe".to_string())
    );
    assert_eq!(
        parse_content_disposition("attachment; filename*=UTF-8''%E9%80%86_v1.2.exe; size=3"),
        Ok("逆_v1.2.exe".to_string())
    );
}

#[test]
fn headers_without_a_usable_file_name_are_errors() {
    assert_eq!(parse_content_disposition("attachment"), Err(CloudError::MissingFilename));
    assert_eq!(parse_content_disposition(""), Err(CloudError::MissingFilename));
    assert_eq!(
        parse_content_disposition("attachment; filename=\"\""),
        Err(CloudError::MissingFilename)
    );
    assert_eq!(
        parse_content_disposition("attachment; filename*=UTF-8''%FF%FE"),
        Err(CloudError::UndecodableFilename)
    );
}

#[test]
fn file_names_are_chosen_quoted_first() {
    assert_eq!(choose_filename(Some("a".to_string()), None), Ok("a".to_string()));
    assert_eq!(
        choose_filename(Some("a".to_string()), Some(Some("b".to_string()))),
        Ok("a".to_string())
    );
    assert_eq!(choose_filename(None, Some(Some("b".to_string()))), Ok("b".to_string()));
    assert_eq!(choose_filename(None, Some(None)), Err(CloudError::UndecodableFilename));
    assert_eq!(choose_filename(None, None), Err(CloudError::MissingFilename));
    assert_eq!(choose_filename(Some(String::new()), None), Err(CloudError::MissingFilename));
    assert_eq!(choose_filename(None, Some(Some(String::new()))), Err(CloudError::MissingFilename));
}

#[test]
fn download_urls_end_in_download() {
    assert_eq!(download_url_of("https://cloud.example/s/abc"), "https://cloud.example/s/abc/download");
    assert_eq!(download_url_of("https://cloud.example/s/abc/"), "https://cloud.example/s/abc/download");
    assert_eq!(
        download_url_of("https://cloud.example/s/abc///"),
        "https://cloud.example/s/abc/download"
    );
    assert_eq!(download_url_of(""), "/download");
    assert_eq!(download_url_of("///"), "/download");
}

#[test]
fn a_good_answer_is_an_offer() {
    let head = CloudHead {
        status: 200,
        content_disposition: Some(
            "attachment; filename=\"ReversedFront_Setup_v2.12.exe\"".to_string(),
        ),
    };
    let info = check_cloud("https://cloud.example/s/abc/", &head).unwrap();
    assert_eq!(info.version, "2.12");
    assert_eq!(info.download_url, "https://cloud.example/s/abc/download");
    assert_eq!(info.filename, "ReversedFront_Setup_v2.12.exe");
    assert!(!info.has_update);
}

#[test]
fn a_bad_answer_is_no_offer() {
    let share = "https://cloud.example/s/abc";
    let head = CloudHead { status: 404, content_disposition: None };
    assert_eq!(check_cloud(share, &head).unwrap_err(), CloudError::Status(404));
    let head = CloudHead {
        status: 500,
        content_disposition: Some("attachment; filename=\"a_v1.2.exe\"".to_string()),
    };
    assert_eq!(check_cloud(share, &head).unwrap_err(), CloudError::Status(500));
    let head = CloudHead { status: 200, content_disposition: None };
    assert_eq!(check_cloud(share, &head).unwrap_err(), CloudError::MissingContentDisposition);
    let head = CloudHead { status: 200, content_disposition: Some("inline".to_string()) };
    assert_eq!(check_cloud(share, &head).unwrap_err(), CloudError::MissingFilename);
    let head = CloudHead {
        status: 204,
        content_disposition: Some("attachment; filename=\"setup.exe\"".to_string()),
    };
    assert_eq!(check_cloud(share, &head).unwrap_err(), CloudError::MissingVersion);
    let head = CloudHead {
        status: 200,
        content_disposition: Some("attachment; filename*=UTF-8''%FF".to_string()),
    };
    assert_eq!(check_cloud(share, &head).unwrap_err(), CloudError::UndecodableFilename);
}

#[test]
fn offers_are_assembled_from_their_parts() {
    let info = assemble_offer(
        "https://cloud.example/s/abc",
        200,
        Some(Ok("file.bin".to_string())),
        Some("9.9".to_string()),
    )
    .unwrap();
    assert_eq!(info.version, "9.9");
    assert_eq!(info.filename, "file.bin");
    assert_eq!(info.download_url, "https://cloud.example/s/abc/download");
    assert_eq!(
        assemble_offer("s", 301, Some(Ok("f".to_string())), Some("1.0".to_string())).unwrap_err(),
        CloudError::Status(301)
    );
    assert_eq!(
        assemble_offer("s", 200, Some(Ok("f".to_string())), None).unwrap_err(),
        CloudError::MissingVersion
    );
}

#[test]
fn a_newer_offer_is_an_update() {
    let report = check_update("2.11.1", Some(offer("2.11.2")));
    assert!(report.has_update);
    assert_eq!(report.version, "2.11.2");
    assert_eq!(report.download_url, "https://cloud.example/s/abc/download");
    assert_eq!(report.filename, "ReversedFront_v2.11.2.exe");
}

#[test]
fn an_offer_that_is_not_newer_is_no_update() {
    for offered in ["2.11.1", "2.11", "2.9.9", "1.0"] {
        let report = check_update("2.11.1", Some(offer(offered)));
        assert!(!report.has_update);
        assert_eq!(report.version, "2.11.1");
        assert_eq!(report.download_url, "");
        assert_eq!(report.filename, "");
    }
}

#[test]
fn no_offer_is_no_update() {
    let report = check_update("2.11.1", None);
    assert!(!report.has_update);
    assert_eq!(report.version, "2.11.1");
    assert_eq!(report.download_url, "");
    assert_eq!(report.filename, "");
}

#[test]
fn old_installers_are_picked_for_deletion() {
    let entries = vec![
        entry("ReversedFront.exe", "/app/ReversedFront.exe"),
        entry("ReversedFront_v2.10.exe", "/app/ReversedFront_v2.10.exe"),
        entry("readme.txt", "/app/readme.txt"),
        Sibling { name: None, path: "/app/odd".to_string() },
        entry("ReversedFront_v2.11.2", "/app/ReversedFront_v2.11.2"),
        entry("reversedfront_v1.0.exe", "/app/reversedfront_v1.0.exe"),
        entry("ReversedFront_v", "/app/ReversedFront_v"),
    ];
    assert_eq!(
        cleanup_old_installers("/app/ReversedFront.exe", &entries),
        vec![
            "/app/ReversedFront_v2.10.exe".to_string(),
            "/app/ReversedFront_v2.11.2".to_string(),
            "/app/ReversedFront_v".to_string(),
        ]
    );
}

#[test]
fn the_running_program_is_never_deleted() {
    let entries = vec![
        entry("ReversedFront_v2.11.exe", "/app/ReversedFront_v2.11.exe"),
        entry("ReversedFront_v2.10.exe", "/app/ReversedFront_v2.10.exe"),
    ];
    assert_eq!(
        cleanup_old_installers("/app/ReversedFront_v2.11.exe", &entries),
        vec!["/app/ReversedFront_v2.10.exe".to_string()]
    );
    assert_eq!(cleanup_old_installers("/app/x", &Vec::new()), Vec::<String>::new());
}

#[test]
fn installers_are_stored_under_a_uniform_name() {
    assert_eq!(installer_file_name("ReversedFront_Setup_v2.10.exe"), "ReversedFront_v2.10.exe");
    assert_eq!(installer_file_name("tool_v1.2.AppImage"), "ReversedFront_v1.2.AppImage");
    assert_eq!(installer_file_name("ReversedFront_v2.11.2"), "ReversedFront_v2.11.2.2");
    assert_eq!(installer_file_name("setup.exe"), "setup.exe");
    assert_eq!(installer_file_name("no version"), "no version");
}

#[test]
fn installer_names_are_built_from_version_and_extension() {
    assert_eq!(
        installer_name_from("x", Some("3.1".to_string()), Some("dmg".to_string())),
        "ReversedFront_v3.1.dmg"
    );
    assert_eq!(installer_name_from("x", Some("3.1".to_string()), None), "ReversedFront_v3.1");
    assert_eq!(
        installer_name_from("x", Some("3.1".to_string()), Some(String::new())),
        "ReversedFront_v3.1"
    );
    assert_eq!(installer_name_from("x.bin", None, Some("bin".to_string())), "x.bin");
}

#[test]
fn each_platform_has_its_share_and_its_opener() {
    assert_eq!(cloud_url(Platform::Windows), "https://cloud.vtbmoyu.com/s/JKo6TTSGaiGFAts");
    assert_eq!(cloud_url(Platform::Linux), "https://cloud.vtbmoyu.com/s/6H6TS3BqmLzBHBP");
    assert_eq!(cloud_url(Platform::MacOs), "https://cloud.vtbmoyu.com/s/KpR9YqwJgE4tZmy");
    assert_eq!(installer_opener(Platform::Windows), None);
    assert_eq!(installer_opener(Platform::MacOs), Some("open"));
    assert_eq!(installer_opener(Platform::Linux), Some("xdg-open"));
}

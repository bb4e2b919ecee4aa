use reversed_front::commands::check_resource_exists;
use reversed_front::fetch::{FetchError, ResourceResponse};
use reversed_front::gateway::{
    content_type, namespaced_key, passionfruit_key, reply_to, reply_with, resource_key, route,
    ContentTable, Reply, Route, ADDRESS, PORT,
};
use reversed_front::probe::PathProbe;
use reversed_front::resource_manager::ResourceManager;

fn found(abs_path: &str, data: &[u8]) -> Result<ResourceResponse, FetchError> {
    Ok(ResourceResponse {
        data: data.to_vec(),
        local_path: "key".to_string(),
        abs_path: abs_path.to_string(),
    })
}

fn probe(exists: bool) -> PathProbe {
    PathProbe { exists, canonical: None, file_name: None, siblings: None }
}

#[test]
fn the_surface_listens_on_loopback_at_its_fixed_port() {
    assert_eq!(ADDRESS, [127, 0, 0, 1]);
    assert_eq!(PORT, 8765);
}

#[test]
fn the_status_route_comes_before_the_catch_all() {
    assert!(matches!(route("/status"), Route::Status));
    assert!(matches!(route("/status/"), Route::Status));
    assert!(matches!(route("/status/anything"), Route::Status));
    assert!(matches!(route("status"), Route::Status));
}

#[test]
fn the_namespace_route_hands_on_the_tail() {
    match route("/passionfruit/sprites/a%20b.png") {
        Route::Passionfruit { tail } => assert_eq!(tail, "sprites/a%20b.png"),
        other => panic!("wrong route {:?}", other),
    }
    match route("/passionfruit") {
        Route::Passionfruit { tail } => assert_eq!(tail, ""),
        other => panic!("wrong route {:?}", other),
    }
    match route("/passionfruit/") {
        Route::Passionfruit { tail } => assert_eq!(tail, ""),
        other => panic!("wrong route {:?}", other),
    }
    match route("/passionfruit//a") {
        Route::Passionfruit { tail } => assert_eq!(tail, "/a"),
        other => panic!("wrong route {:?}", other),
    }
}

#[test]
fn every_other_path_is_a_resource() {
    match route("/index.html") {
        Route::Resource { tail } => assert_eq!(tail, "index.html"),
        other => panic!("wrong route {:?}", other),
    }
    match route("/") {
        Route::Resource { tail } => assert_eq!(tail, ""),
        other => panic!("wrong route {:?}", other),
    }
    match route("/statusx/y") {
        Route::Resource { tail } => assert_eq!(tail, "statusx/y"),
        other => panic!("wrong route {:?}", other),
    }
    match route("/static/passionfruit/a.png") {
        Route::Resource { tail } => assert_eq!(tail, "static/passionfruit/a.png"),
        other => panic!("wrong route {:?}", other),
    }
    match route("/Status") {
        Route::Resource { tail } => assert_eq!(tail, "Status"),
        other => panic!("wrong route {:?}", other),
    }
}

#[test]
fn namespace_keys_are_decoded() {
    assert_eq!(passionfruit_key("sprites/a.png"), "passionfruit/sprites/a.png");
    assert_eq!(passionfruit_key("sprites/a%20b.png"), "passionfruit/sprites/a b.png");
    assert_eq!(passionfruit_key("%E5%9C%96.png"), "passionfruit/圖.png");
    assert_eq!(passionfruit_key("a+b"), "passionfruit/a+b");
    assert_eq!(passionfruit_key("100%"), "passionfruit/100%");
    assert_eq!(passionfruit_key(""), "passionfruit/");
}

#[test]
fn a_tail_that_is_no_utf8_counts_as_empty() {
    assert_eq!(passionfruit_key("bad%FFname"), "passionfruit/");
    assert_eq!(namespaced_key(None), "passionfruit/");
    assert_eq!(namespaced_key(Some("x/y".to_string())), "passionfruit/x/y");
}

#[test]
fn the_root_is_the_start_page() {
    assert_eq!(resource_key(""), "index.html");
    assert_eq!(resource_key("/"), "index.html");
    assert_eq!(resource_key("app.js"), "app.js");
    assert_eq!(resource_key("//"), "//");
}

#[test]
fn media_content_types() {
    let table = ContentTable::Media;
    assert_eq!(content_type(table, Some("png")), "image/png");
    assert_eq!(content_type(table, Some("jpg")), "image/jpeg");
    assert_eq!(content_type(table, Some("jpeg")), "image/jpeg");
    assert_eq!(content_type(table, Some("gif")), "image/gif");
    assert_eq!(content_type(table, Some("mp4")), "video/mp4");
    assert_eq!(content_type(table, Some("webm")), "video/webm");
    assert_eq!(content_type(table, Some("mp3")), "audio/mpeg");
    assert_eq!(content_type(table, Some("wav")), "audio/wav");
    assert_eq!(content_type(table, Some("html")), "application/octet-stream");
    assert_eq!(content_type(table, Some("json")), "application/octet-stream");
    assert_eq!(content_type(table, Some("PNG")), "application/octet-stream");
    assert_eq!(content_type(table, Some("")), "application/octet-stream");
    assert_eq!(content_type(table, None), "application/octet-stream");
}

#[test]
fn page_content_types_extend_the_media_ones() {
    let table = ContentTable::Page;
    assert_eq!(content_type(table, Some("html")), "text/html; charset=utf-8");
    assert_eq!(content_type(table, Some("js")), "application/javascript; charset=utf-8");
    assert_eq!(content_type(table, Some("css")), "text/css; charset=utf-8");
    assert_eq!(content_type(table, Some("json")), "application/json");
    assert_eq!(content_type(table, Some("yaml")), "text/yaml");
    assert_eq!(content_type(table, Some("yml")), "text/yaml");
    assert_eq!(content_type(table, Some("svg")), "image/svg+xml");
    assert_eq!(content_type(table, Some("ico")), "image/x-icon");
    assert_eq!(content_type(table, Some("png")), "image/png");
    assert_eq!(content_type(table, Some("wav")), "audio/wav");
    assert_eq!(content_type(table, Some("exe")), "application/octet-stream");
    assert_eq!(content_type(table, None), "application/octet-stream");
}

#[test]
fn a_served_resource_is_sent_with_its_type() {
    let reply = reply_to(ContentTable::Media, found("/base/passionfruit/a.png", b"img"));
    assert_eq!(reply.status, 200);
    assert_eq!(reply.content_type.as_deref(), Some("image/png"));
    assert_eq!(reply.cache_control, None);
    assert_eq!(reply.body, b"img");

    let reply = reply_to(ContentTable::Media, found("/base/passionfruit/a.tar.mp3", b"snd"));
    assert_eq!(reply.content_type.as_deref(), Some("audio/mpeg"));

    let reply = reply_to(ContentTable::Media, found("/base/passionfruit/noext", b""));
    assert_eq!(reply.status, 200);
    assert_eq!(reply.content_type.as_deref(), Some("application/octet-stream"));

    let reply = reply_to(ContentTable::Media, found("/base/dir.png/file", b""));
    assert_eq!(reply.content_type.as_deref(), Some("application/octet-stream"));
}

#[test]
fn the_type_goes_by_the_name_on_disk() {
    let reply = reply_to(ContentTable::Media, found("/base/icons/FOO.PNG", b"img"));
    assert_eq!(reply.content_type.as_deref(), Some("application/octet-stream"));
}

#[test]
fn pages_are_sent_uncached() {
    let reply = reply_to(ContentTable::Page, found("/web/index.html", b"<html>"));
    assert_eq!(reply.status, 200);
    assert_eq!(reply.content_type.as_deref(), Some("text/html; charset=utf-8"));
    assert_eq!(reply.cache_control.as_deref(), Some("no-cache"));
    assert_eq!(reply.body, b"<html>");
}

#[test]
fn failures_map_to_their_status() {
    for table in [ContentTable::Media, ContentTable::Page] {
        let cases = [
            (FetchError::NormalizationImpossible, 404u16),
            (FetchError::UpstreamStatus(404), 502),
            (FetchError::UpstreamStatus(500), 502),
            (FetchError::Network, 502),
            (FetchError::Io, 502),
        ];
        for (error, status) in cases {
            let reply = reply_to(table, Err(error));
            assert_eq!(reply.status, status);
            assert_eq!(reply.content_type, None);
            assert_eq!(reply.cache_control, None);
            assert!(reply.body.is_empty());
        }
    }
}

#[test]
fn reply_with_takes_the_extension_as_given() {
    let reply = reply_with(ContentTable::Media, found("/base/whatever.bin", b"x"), Some("gif"));
    assert_eq!(reply.content_type.as_deref(), Some("image/gif"));
    let reply = reply_with(ContentTable::Media, Err(FetchError::Io), Some("gif"));
    assert_eq!(reply.status, 502);
    assert_eq!(reply.content_type, None);
}

#[test]
fn a_reply_that_cannot_be_built_is_an_internal_error() {
    let reply = Reply::internal_error();
    assert_eq!(reply.status, 500);
    assert_eq!(reply.content_type, None);
    assert!(reply.body.is_empty());
    assert_eq!(Reply::empty(404).status, 404);
}

#[test]
fn a_download_is_expected_only_for_absent_namespace_resources() {
    let mut manager = ResourceManager::with_cpus("/base".to_string(), '/', 2);

    let check = check_resource_exists(&mut manager, "passionfruit/a.png".to_string(), &probe(false));
    assert!(!check.exists);
    assert!(check.downloading);
    assert_eq!(check.path, "passionfruit/a.png");
    assert_eq!(check.abs_path, None);

    let check =
        check_resource_exists(&mut manager, "assets/passionfruit/a.png".to_string(), &probe(false));
    assert!(!check.exists);
    assert!(check.downloading);

    let check = check_resource_exists(&mut manager, "/passionfruit/a.png".to_string(), &probe(false));
    assert!(!check.exists);
    assert!(!check.downloading);

    let check = check_resource_exists(&mut manager, "static/a.png".to_string(), &probe(false));
    assert!(!check.exists);
    assert!(!check.downloading);

    let check = check_resource_exists(&mut manager, "passionfruit/a.png".to_string(), &probe(true));
    assert!(check.exists);
    assert!(!check.downloading);
    assert_eq!(check.path, "passionfruit/a.png");
    assert_eq!(check.abs_path.as_deref(), Some("/base/passionfruit/a.png"));

    let check =
        check_resource_exists(&mut manager, "assets/passionfruit/a.png".to_string(), &probe(false));
    assert!(check.exists);
    assert!(!check.downloading);
    assert_eq!(check.abs_path.as_deref(), Some("/base/passionfruit/a.png"));
}

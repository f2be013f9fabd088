use rubyshd::context::{
    data_key_for_path, document_of_answer, extension_of, file_of_answer,
    get_sorted_posts_for_protocol, is_later,
    page_metadata_for_matter, page_metadata_for_file, parse_data_document,
    partial_name_for_path, relative_stem_of, ttl_for_path, uri_path_of_page, CacheEntry,
    CachedFile,
    DataCache, DataReadErr, FileCache, PageMetadata, Timestamp, MAX_DATA_CACHE_ENTRIES,
    MAX_DATA_CACHE_TTL_MS, MAX_FS_CACHE_ENTRIES, MAX_FS_CACHE_LONG_TTL_MS,
    MAX_FS_CACHE_SHORT_TTL_MS,
};
use rubyshd::json::{Json, Member};
use rubyshd::protocol::Protocol;

fn obj(members: Vec<(&str, Json)>) -> Json {
    Json::Object(
        members.into_iter().map(|(k, v)| Member { key: k.to_string(), value: v }).collect(),
    )
}

fn text(t: &str) -> Json {
    Json::String(t.to_string())
}

fn at(seconds: i64) -> Timestamp {
    Timestamp { seconds, nanos: 0 }
}

fn file(data: &[u8], modified: Option<Timestamp>) -> CachedFile {
    CachedFile::new(data.to_vec(), None, modified)
}

#[test]
fn the_limits_are_what_they_are() {
    assert_eq!(MAX_FS_CACHE_ENTRIES, 512);
    assert_eq!(MAX_FS_CACHE_LONG_TTL_MS, 14_400_000);
    assert_eq!(MAX_FS_CACHE_SHORT_TTL_MS, 10_000);
    assert_eq!(MAX_DATA_CACHE_ENTRIES, 512);
    assert_eq!(MAX_DATA_CACHE_TTL_MS, 10_000);
}

#[test]
fn the_extension_follows_the_last_dot_of_the_last_component() {
    assert_eq!(extension_of("/a/b/page.md.hbs"), Some("hbs".to_string()));
    assert_eq!(extension_of("logo.png"), Some("png".to_string()));
    assert_eq!(extension_of("/a/b/page"), None);
    assert_eq!(extension_of("/a.d/page"), None);
    assert_eq!(extension_of("/a/.hidden"), None);
    assert_eq!(extension_of("/a/.hidden.json"), Some("json".to_string()));
    assert_eq!(extension_of("/a/page."), Some("".to_string()));
    assert_eq!(extension_of(""), None);
}

#[test]
fn content_under_edit_is_cached_for_a_short_time() {
    for path in ["/p/a.hbs", "/p/a.html", "/p/a.gmi", "/p/a.md", "/p/a.json", "/p/a.md.hbs"] {
        assert_eq!(ttl_for_path(path), 10_000);
    }
    for path in ["/p/a.png", "/p/a", "/p/a.htm", "/p/.hbs", "/p/a.HBS", "/p/a.hbs/b", "/p/a.txt"] {
        assert_eq!(ttl_for_path(path), 14_400_000);
    }
}

#[test]
fn a_stored_file_comes_back_byte_for_byte() {
    let mut cache = FileCache::new();
    assert_eq!(cache.lookup("/srv/public/a.png"), None);
    let stored = CachedFile::new(vec![0, 159, 146, 150, 255], Some(at(1)), Some(at(2)));
    assert!(cache.store("/srv/public/a.png", &stored));
    let hit = cache.lookup("/srv/public/a.png").unwrap();
    assert_eq!(hit, stored);
    assert_eq!(hit.data(), &vec![0, 159, 146, 150, 255]);
    assert_eq!(hit.created(), Some(at(1)));
    assert_eq!(hit.modified(), Some(at(2)));
    assert_eq!(cache.lookup("/srv/public/b.png"), None);
}

#[test]
fn a_file_stored_again_replaces_the_one_before() {
    let mut cache = FileCache::new();
    assert!(cache.store("/srv/public/a.hbs", &file(b"one", None)));
    assert!(cache.store("/srv/public/a.hbs", &file(b"two", None)));
    assert_eq!(cache.lookup("/srv/public/a.hbs"), Some(file(b"two", None)));
}

#[test]
fn the_file_cache_holds_no_more_than_its_limit() {
    let mut cache = FileCache::new();
    let count = MAX_FS_CACHE_ENTRIES + 88;
    for i in 0..count {
        assert!(cache.store(&format!("/srv/public/{}.png", i), &file(&[1], None)));
    }
    let mut held = 0;
    for i in 0..count {
        if cache.lookup(&format!("/srv/public/{}.png", i)).is_some() {
            held += 1;
        }
    }
    assert!(held <= MAX_FS_CACHE_ENTRIES);
    assert!(cache.lookup(&format!("/srv/public/{}.png", count - 1)).is_some());
}

#[test]
fn a_stored_document_comes_back_unchanged() {
    let mut cache = DataCache::new();
    assert_eq!(cache.lookup("/srv/data/site.json"), None);
    let doc = obj(vec![("name", text("Example")), ("n", Json::Number("3".to_string()))]);
    assert!(cache.store("/srv/data/site.json", &doc));
    assert_eq!(cache.lookup("/srv/data/site.json"), Some(doc));
    assert_eq!(cache.lookup("/srv/data/other.json"), None);
}

#[test]
fn a_data_file_is_parsed_as_json() {
    assert_eq!(parse_data_document(b"{\"a\": [true]}"), Ok(obj(vec![("a", Json::Array(vec![Json::Bool(true)]))])));
    assert_eq!(parse_data_document(b"{\"a\": "), Err(DataReadErr::JsonError));
    assert_eq!(parse_data_document(b"\xff{}"), Err(DataReadErr::Utf8Error));
}

#[test]
fn data_and_partials_are_named_by_their_path_below_the_root() {
    assert_eq!(data_key_for_path("/srv/data/site.json", "/srv/data"), Some("site".to_string()));
    assert_eq!(data_key_for_path("/srv/data/a/b.json", "/srv/data"), Some("a/b".to_string()));
    assert_eq!(data_key_for_path("/srv/data/site.yaml", "/srv/data"), None);
    assert_eq!(data_key_for_path("/srv/other/site.json", "/srv/data"), None);
    assert_eq!(data_key_for_path("/srv/data.json", "/srv/data"), None);
    assert_eq!(data_key_for_path("/srv/data/.json", "/srv/data"), Some("".to_string()));
    assert_eq!(partial_name_for_path("/srv/partials/nav.gmi.hbs", "/srv/partials"), Some("nav.gmi".to_string()));
    assert_eq!(partial_name_for_path("/srv/partials/nav.gmi", "/srv/partials"), None);
    assert_eq!(relative_stem_of("/r/x.hbs", "/r", "/x.hbs"), None);
}

#[test]
fn the_url_path_of_a_page_is_its_stem_below_the_root() {
    assert_eq!(uri_path_of_page("/pub/blog/first", "/pub"), Some("/blog/first".to_string()));
    assert_eq!(uri_path_of_page("/pub/blog/index", "/pub"), Some("/blog".to_string()));
    assert_eq!(uri_path_of_page("/pub/index", "/pub"), Some("/".to_string()));
    assert_eq!(uri_path_of_page("/pub/reindex", "/pub"), Some("/reindex".to_string()));
    assert_eq!(uri_path_of_page("/elsewhere/x", "/pub"), None);
    assert_eq!(uri_path_of_page("", "/pub"), None);
}

#[test]
fn a_markdown_page_is_listed_under_both_protocols() {
    let source = b"---\ntitle: First post\ndescription: About it\ndate: 2024-01-02T03:04:05+01:00\npost: true\n---\nbody";
    let pages = page_metadata_for_file("/pub/blog/first.md.hbs", "/pub", &file(source, Some(at(7))), at(9));
    let entry = |protocol| PageMetadata {
        path: "/blog/first".to_string(),
        protocol,
        title: "First post".to_string(),
        description: Some("About it".to_string()),
        date: at(1_704_161_045),
        is_post: true,
    };
    assert_eq!(pages, vec![entry(Protocol::Https), entry(Protocol::Gemini)]);
}

#[test]
fn a_page_is_listed_under_the_protocol_of_its_extension() {
    let source = b"---\ntitle: Home\n---\nbody";
    let pages = page_metadata_for_file("/pub/index.html.hbs", "/pub", &file(source, Some(at(7))), at(9));
    assert_eq!(
        pages,
        vec![PageMetadata {
            path: "/".to_string(),
            protocol: Protocol::Https,
            title: "Home".to_string(),
            description: None,
            date: at(7),
            is_post: false,
        }]
    );
    let pages = page_metadata_for_file("/pub/blog/index.gmi.hbs", "/pub", &file(source, None), at(9));
    assert_eq!(
        pages,
        vec![PageMetadata {
            path: "/blog".to_string(),
            protocol: Protocol::Gemini,
            title: "Home".to_string(),
            description: None,
            date: at(9),
            is_post: false,
        }]
    );
}

#[test]
fn a_page_without_a_title_or_with_a_bad_date_gets_the_defaults() {
    let source = b"---\ndate: yesterday\npost: maybe\ntitle: 5\n---\nbody";
    let pages = page_metadata_for_file("/pub/a.gmi.hbs", "/pub", &file(source, Some(at(7))), at(9));
    assert_eq!(
        pages,
        vec![PageMetadata {
            path: "/a".to_string(),
            protocol: Protocol::Gemini,
            title: "Untitled page".to_string(),
            description: None,
            date: at(7),
            is_post: false,
        }]
    );
}

#[test]
fn what_is_unlisted_or_no_page_is_not_listed() {
    let listed = b"---\ntitle: x\n---\nbody";
    let unlisted = b"---\ntitle: x\nunlisted: true\n---\nbody";
    let none: Vec<PageMetadata> = vec![];
    assert_eq!(page_metadata_for_file("/pub/a.md.hbs", "/pub", &file(unlisted, None), at(9)), none);
    assert_eq!(page_metadata_for_file("/pub/a.md.hbs", "/pub", &file(b"no front matter", None), at(9)), none);
    assert_eq!(page_metadata_for_file("/pub/a.md.hbs", "/pub", &file(b"---\n- a\n- b\n---\nx", None), at(9)), none);
    assert_eq!(page_metadata_for_file("/pub/a.md.hbs", "/pub", &file(b"\xff", None), at(9)), none);
    assert_eq!(page_metadata_for_file("/pub/a.md", "/pub", &file(listed, None), at(9)), none);
    assert_eq!(page_metadata_for_file("/pub/index.hbs", "/pub", &file(listed, None), at(9)), none);
    assert_eq!(page_metadata_for_file("/other/a.md.hbs", "/pub", &file(listed, None), at(9)), none);
    assert_eq!(page_metadata_for_file("/pub/a.md.hbs", "/pub", &file(listed, None), at(9)).len(), 2);
}

#[test]
fn a_page_entry_is_a_document_with_its_date_as_text() {
    let page = PageMetadata {
        path: "/blog/first".to_string(),
        protocol: Protocol::Gemini,
        title: "First".to_string(),
        description: None,
        date: at(1_704_161_045),
        is_post: true,
    };
    let doc = page.to_json();
    assert_eq!(doc.get("path"), Some(&text("/blog/first")));
    assert_eq!(doc.get("protocol"), Some(&text("Gemini")));
    assert_eq!(doc.get("title"), Some(&text("First")));
    assert_eq!(doc.get("description"), Some(&Json::Null));
    assert_eq!(doc.get("date"), Some(&text("2024-01-02T02:04:05Z")));
    assert_eq!(doc.get("is_post"), Some(&Json::Bool(true)));
}

fn page(path: &str, protocol: Protocol, seconds: i64) -> PageMetadata {
    PageMetadata {
        path: path.to_string(),
        protocol,
        title: path.to_string(),
        description: None,
        date: at(seconds),
        is_post: true,
    }
}

#[test]
fn the_listing_has_the_pages_of_the_protocol_newest_first() {
    let pages = vec![
        page("/old", Protocol::Gemini, 10),
        page("/web", Protocol::Https, 50),
        page("/new", Protocol::Gemini, 30),
        page("/same-a", Protocol::Gemini, 20),
        page("/same-b", Protocol::Gemini, 20),
        page("/newest", Protocol::Gemini, 40),
    ];
    let listing = get_sorted_posts_for_protocol(&pages, Protocol::Gemini);
    let paths: Vec<&str> = listing.iter().map(|p| p.path.as_str()).collect();
    assert_eq!(paths, vec!["/newest", "/new", "/same-a", "/same-b", "/old"]);
    let listing = get_sorted_posts_for_protocol(&pages, Protocol::Https);
    assert_eq!(listing, vec![page("/web", Protocol::Https, 50)]);
    assert_eq!(get_sorted_posts_for_protocol(&vec![], Protocol::Https), vec![]);
}

#[test]
fn instants_are_compared_by_seconds_then_nanoseconds() {
    assert!(is_later(at(2), at(1)));
    assert!(!is_later(at(1), at(2)));
    assert!(!is_later(at(1), at(1)));
    assert!(is_later(Timestamp { seconds: 1, nanos: 2 }, Timestamp { seconds: 1, nanos: 1 }));
    assert!(is_later(Timestamp { seconds: -1, nanos: 0 }, Timestamp { seconds: -2, nanos: 999 }));
}

#[test]
fn the_front_matter_decides_what_a_page_is_listed_as() {
    let matter = obj(vec![
        ("title", text("Nested")),
        ("post", Json::Bool(true)),
        ("date", text("1970-01-01T00:00:42Z")),
        ("unlisted", Json::Bool(false)),
    ]);
    let pages = page_metadata_for_matter("/pub/a/b.gmi.hbs", "/pub", &matter, Some(at(7)), at(9));
    assert_eq!(
        pages,
        vec![PageMetadata {
            path: "/a/b".to_string(),
            protocol: Protocol::Gemini,
            title: "Nested".to_string(),
            description: None,
            date: at(42),
            is_post: true,
        }]
    );
    let none: Vec<PageMetadata> = vec![];
    let unlisted = obj(vec![("unlisted", Json::Bool(true))]);
    assert_eq!(page_metadata_for_matter("/pub/a.gmi.hbs", "/pub", &unlisted, None, at(9)), none);
    assert_eq!(page_metadata_for_matter("/pub/a.gmi.hbs", "/pub", &text("x"), None, at(9)), none);
    assert_eq!(page_metadata_for_matter("/pub/a.txt.hbs", "/pub", &matter, None, at(9)), none);
}

#[test]
fn the_answer_of_a_store_is_made_into_what_a_lookup_gives() {
    let held_file = CacheEntry::File(file(b"bytes", Some(at(3))));
    let held_doc = CacheEntry::Data(obj(vec![("a", text("b"))]));
    assert_eq!(file_of_answer(Some(&held_file)), Some(file(b"bytes", Some(at(3)))));
    assert_eq!(file_of_answer(Some(&held_doc)), None);
    assert_eq!(file_of_answer(None), None);
    assert_eq!(document_of_answer(Some(&held_doc)), Some(obj(vec![("a", text("b"))])));
    assert_eq!(document_of_answer(Some(&held_file)), None);
    assert_eq!(document_of_answer(None), None);
}

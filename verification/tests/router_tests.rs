use handlebars::{
    Context, Decorator, Handlebars, Helper, HelperResult, JsonRender, Output, RenderContext,
    RenderError, RenderErrorReason,
};
use rubyshd::config::{Config, ConfigProbes, PathProbe};
use rubyshd::context::{CachedFile, Timestamp};
use rubyshd::files::FileProbe;
use rubyshd::json::{Json, Member};
use rubyshd::protocol::{Protocol, RequestUrl};
use rubyshd::request::Request;
use rubyshd::response::{Response, Status};
use rubyshd::router::{
    candidates_for_path, candidates_for_status, markup_of_path, route_request, Action, Answer,
    Candidate, Resolution,
};
use rubyshd::templates::{render_template, Markup};
use rubyshd::tls::ClientCertificateDetails;

fn dir_probe(path: &str) -> PathProbe {
    PathProbe { is_file: false, is_dir: true, canonical: Some(path.to_string()) }
}

fn file_probe(path: &str) -> PathProbe {
    PathProbe { is_file: true, is_dir: false, canonical: Some(path.to_string()) }
}

fn config() -> Config {
    let probes = ConfigProbes {
        public_root: dir_probe("/pub"),
        partials: dir_probe("/partials"),
        data: dir_probe("/data"),
        errdocs: dir_probe("/err"),
        tls_client_ca_certificate_pem: file_probe("/tls/ca.pem"),
        tls_server_certificate_pem: file_probe("/tls/cert.pem"),
        tls_server_private_key_pem: file_probe("/tls/key.pem"),
    };
    Config::new(&probes, 2048, "127.0.0.1:4443", "localhost").unwrap()
}

fn request(scheme: &str, path: &str) -> Request {
    Request::new(
        "192.0.2.7:50000",
        RequestUrl { scheme: scheme.to_string(), path: path.to_string() },
        ClientCertificateDetails::new_anonymous(),
        Json::new_object(),
        vec![],
        "linux",
    )
}

/// A file system in memory: directories, and files with their bytes. A file
/// without bytes cannot be read.
struct Disk {
    dirs: Vec<&'static str>,
    files: Vec<(&'static str, Option<&'static [u8]>)>,
}

impl Disk {
    fn canonical(&self, path: &str) -> Option<String> {
        let mut parts: Vec<&str> = vec![];
        for part in path.split('/') {
            match part {
                "" | "." => {}
                ".." => {
                    parts.pop();
                }
                other => parts.push(other),
            }
        }
        let resolved = format!("/{}", parts.join("/"));
        if self.is_dir(&resolved) || self.is_file(&resolved) {
            Some(resolved)
        } else {
            None
        }
    }

    fn is_dir(&self, canonical: &str) -> bool {
        self.dirs.iter().any(|d| *d == canonical)
    }

    fn is_file(&self, canonical: &str) -> bool {
        self.files.iter().any(|(f, _)| *f == canonical)
    }

    fn read(&self, canonical: &str) -> Option<CachedFile> {
        let bytes = self.files.iter().find(|(f, _)| *f == canonical)?.1?;
        Some(CachedFile::new(
            bytes.to_vec(),
            Some(Timestamp { seconds: 0, nanos: 0 }),
            Some(Timestamp { seconds: 60, nanos: 0 }),
        ))
    }
}

fn print_control(
    _: &Helper,
    _: &Handlebars,
    _: &Context,
    rc: &mut RenderContext,
    out: &mut dyn Output,
) -> HelperResult {
    if let Some(context) = rc.context() {
        out.write(&context.data().to_string())?;
    }
    Ok(())
}

fn set_status(
    d: &Decorator,
    _: &Handlebars,
    ctx: &Context,
    rc: &mut RenderContext,
) -> Result<(), RenderError> {
    let param = d.param(0).ok_or(RenderErrorReason::ParamNotFoundForIndex("status", 0))?;
    let mut new_ctx = match rc.context() {
        Some(rc_ctx) => rc_ctx.as_ref().clone(),
        None => ctx.clone(),
    };
    if let Some(m) = new_ctx.data_mut().as_object_mut() {
        m.insert("status".to_string(), handlebars::to_json(param.value().render()));
    }
    rc.set_context(new_ctx);
    Ok(())
}

fn engine() -> Handlebars<'static> {
    let mut engine = Handlebars::new();
    engine.register_helper("private-context-serialize", Box::new(print_control));
    engine.register_decorator("status", Box::new(set_status));
    engine
}

/// Runs a resolution to its response; tells what was done on the way.
fn drive(start: (Resolution, Action), disk: &Disk) -> (Response, Vec<String>, Resolution) {
    let engine = engine();
    let (mut resolution, mut action) = start;
    let mut log: Vec<String> = vec![];
    for _ in 0..100 {
        let answer = match action {
            Action::Respond(response) => {
                assert!(resolution.is_finished());
                return (response, log, resolution);
            }
            Action::Stat(path) => {
                log.push(format!("stat {}", path));
                let is_dir = disk.canonical(&path).map(|c| disk.is_dir(&c)).unwrap_or(false);
                Answer::Stat(is_dir)
            }
            Action::Probe(path) => {
                log.push(format!("probe {}", path));
                let canonical = disk.canonical(&path);
                let is_file = canonical.as_ref().map(|c| disk.is_file(c)).unwrap_or(false);
                Answer::Probed(FileProbe { canonical, is_file })
            }
            Action::Read(path) => {
                log.push(format!("read {}", path));
                Answer::Read(disk.read(&path))
            }
            Action::Render(source) => {
                log.push("render".to_string());
                let context = resolution.request().template_context();
                Answer::Rendered(render_template(&engine, context, &source))
            }
        };
        assert!(!resolution.is_finished());
        let next = resolution.step(answer);
        resolution = next.0;
        action = next.1;
    }
    panic!("the resolution does not end");
}

fn paths(candidates: &[Candidate]) -> Vec<(String, bool)> {
    candidates.iter().map(|c| (c.path.clone(), c.markdown)).collect()
}

fn plain(path: &str) -> (String, bool) {
    (path.to_string(), false)
}

#[test]
fn a_directory_is_looked_for_its_index() {
    let expected = vec![plain("/pub/blog/index.hbs"), plain("/pub/blog/index.gmi")];
    assert_eq!(paths(&candidates_for_path("/pub/blog", true, Protocol::Gemini)), expected);
    assert_eq!(paths(&candidates_for_path("/pub/blog/", true, Protocol::Gemini)), expected);
    let expected =
        vec![plain("/pub/index.hbs"), plain("/pub/index.html"), plain("/pub/index.htm")];
    assert_eq!(paths(&candidates_for_path("/pub/", true, Protocol::Https)), expected);
}

#[test]
fn a_file_is_looked_for_as_named_then_with_extensions_then_as_markdown() {
    assert_eq!(
        paths(&candidates_for_path("/pub/about", false, Protocol::Https)),
        vec![
            plain("/pub/about"),
            plain("/pub/about.html"),
            plain("/pub/about.htm"),
            ("/pub/about.md".to_string(), true),
        ]
    );
    assert_eq!(
        paths(&candidates_for_path("/pub/about.gmi", false, Protocol::Gemini)),
        vec![
            plain("/pub/about.gmi"),
            plain("/pub/about.gmi.gmi"),
            ("/pub/about.md".to_string(), true),
        ]
    );
    assert_eq!(
        paths(&candidates_for_path("/pub/about.md", false, Protocol::Gemini)),
        vec![plain("/pub/about.md.gmi"), ("/pub/about.md".to_string(), true)]
    );
    assert_eq!(
        paths(&candidates_for_path("/pub/a.htm.html", false, Protocol::Gemini)),
        vec![
            plain("/pub/a.htm.html"),
            plain("/pub/a.htm.html.gmi"),
            ("/pub/a.md".to_string(), true),
        ]
    );
}

#[test]
fn an_error_document_is_looked_for_under_the_token_of_its_status() {
    assert_eq!(
        paths(&candidates_for_status("/err", Status::NotFound, Protocol::Https)),
        vec![plain("/err/not_found.html"), plain("/err/not_found.htm")]
    );
    assert_eq!(
        paths(&candidates_for_status("/err", Status::RateLimit, Protocol::Gemini)),
        vec![plain("/err/rate_limited.gmi")]
    );
}

#[test]
fn the_extension_of_the_path_sets_the_markup() {
    assert_eq!(markup_of_path("/pub/a.md", Markup::Gemtext), Markup::Markdown);
    assert_eq!(markup_of_path("/pub/a.gmi", Markup::Html), Markup::Gemtext);
    assert_eq!(markup_of_path("/pub/a.html", Markup::Gemtext), Markup::Html);
    assert_eq!(markup_of_path("/pub/a.htm", Markup::Gemtext), Markup::Html);
    assert_eq!(markup_of_path("/pub/a", Markup::Gemtext), Markup::Gemtext);
    assert_eq!(markup_of_path("/pub/a.png", Markup::Html), Markup::Html);
}

#[test]
fn a_static_file_is_served_as_it_is() {
    let disk = Disk { dirs: vec!["/pub"], files: vec![("/pub/logo.png", Some(b"\x89PNG"))] };
    let (response, log, _) = drive(route_request(request("https", "/logo.png"), &config()), &disk);
    assert_eq!(*response.status(), Status::Success);
    assert_eq!(response.media_type(), "image/png");
    assert_eq!(response.body(), b"\x89PNG");
    assert!(response.cacheable());
    assert_eq!(log, vec!["stat /pub/logo.png", "probe /pub/logo.png", "read /pub/logo.png"]);
}

#[test]
fn a_directory_resolves_to_its_index_with_and_without_slash() {
    let disk = Disk {
        dirs: vec!["/pub", "/pub/blog"],
        files: vec![("/pub/blog/index.hbs", Some(b"---\ntitle: Blog\n---\nWelcome to {{meta.title}} at {{path}}"))],
    };
    let (with_slash, log, _) = drive(route_request(request("gemini", "/blog/"), &config()), &disk);
    assert_eq!(*with_slash.status(), Status::Success);
    assert_eq!(with_slash.body(), b"Welcome to Blog at /blog/");
    assert_eq!(with_slash.media_type(), "text/gemini");
    assert!(!with_slash.cacheable());
    assert_eq!(log, vec!["stat /pub/blog/", "probe /pub/blog/index.hbs", "read /pub/blog/index.hbs", "render"]);
    let (without, log, _) = drive(route_request(request("gemini", "/blog"), &config()), &disk);
    assert_eq!(*without.status(), Status::Success);
    assert_eq!(without.body(), b"Welcome to Blog at /blog");
    assert_eq!(log, vec!["stat /pub/blog", "probe /pub/blog/index.hbs", "read /pub/blog/index.hbs", "render"]);
}

#[test]
fn the_extensions_of_the_protocol_are_tried_in_their_order() {
    let disk = Disk {
        dirs: vec!["/pub"],
        files: vec![("/pub/about.htm", Some(b"<p>htm</p>")), ("/pub/about.gmi", Some(b"gmi"))],
    };
    let (response, log, _) = drive(route_request(request("https", "/about"), &config()), &disk);
    assert_eq!(response.body(), b"<p>htm</p>");
    assert_eq!(
        log,
        vec![
            "stat /pub/about",
            "probe /pub/about",
            "probe /pub/about.hbs",
            "probe /pub/about.html",
            "probe /pub/about.html.hbs",
            "probe /pub/about.htm",
            "read /pub/about.htm",
        ]
    );
    let (response, _, _) = drive(route_request(request("gemini", "/about"), &config()), &disk);
    assert_eq!(response.body(), b"gmi");
}

#[test]
fn the_exact_file_goes_before_its_template_and_its_extensions() {
    let disk = Disk {
        dirs: vec!["/pub"],
        files: vec![
            ("/pub/page", Some(b"exact")),
            ("/pub/page.hbs", Some(b"template")),
            ("/pub/page.gmi", Some(b"extension")),
        ],
    };
    let (response, _, _) = drive(route_request(request("gemini", "/page"), &config()), &disk);
    assert_eq!(response.body(), b"exact");
}

#[test]
fn a_path_that_leaves_the_public_root_is_refused_and_never_read() {
    let disk = Disk { dirs: vec!["/pub", "/etc"], files: vec![("/etc/passwd", Some(b"root:x:0:0"))] };
    let start = route_request(request("gemini", "/secret/../../etc/passwd"), &config());
    let (response, log, _) = drive(start, &disk);
    assert_eq!(*response.status(), Status::OtherClientError);
    assert_eq!(response.body(), b"Other client error");
    assert_eq!(response.media_type(), "text/plain");
    assert!(!log.iter().any(|line| line.starts_with("read")));
    assert_eq!(
        log,
        vec![
            "stat /pub/secret/../../etc/passwd",
            "probe /pub/secret/../../etc/passwd",
            "probe /err/other_client_error.gmi",
            "probe /err/other_client_error.gmi.hbs",
        ]
    );
}

#[test]
fn what_is_not_found_gets_the_error_document() {
    let disk = Disk {
        dirs: vec!["/pub", "/err"],
        files: vec![("/err/not_found.html.hbs", Some(b"<h1>No {{path}}</h1>"))],
    };
    let (response, log, _) = drive(route_request(request("https", "/missing"), &config()), &disk);
    assert_eq!(*response.status(), Status::NotFound);
    assert_eq!(response.body(), b"<h1>No /missing</h1>");
    assert_eq!(response.media_type(), "text/html; charset=utf-8");
    assert!(!response.cacheable());
    assert_eq!(log.last().unwrap(), "render");
    assert!(log.contains(&"probe /pub/missing.md.hbs".to_string()));
}

#[test]
fn without_an_error_document_the_status_is_sent_as_plain_text() {
    let disk = Disk { dirs: vec!["/pub", "/err"], files: vec![] };
    let (response, log, _) = drive(route_request(request("https", "/missing"), &config()), &disk);
    assert_eq!(*response.status(), Status::NotFound);
    assert_eq!(response.body(), b"Not found");
    assert_eq!(response.media_type(), "text/plain");
    assert_eq!(
        &log[log.len() - 4..],
        &[
            "probe /err/not_found.html",
            "probe /err/not_found.html.hbs",
            "probe /err/not_found.htm",
            "probe /err/not_found.htm.hbs",
        ]
    );
}

#[test]
fn a_file_that_cannot_be_read_is_unauthorized() {
    let disk = Disk {
        dirs: vec!["/pub", "/err"],
        files: vec![("/pub/secret.txt", None), ("/err/unauthorized.gmi", Some(b"# Keep out\n"))],
    };
    let (response, log, _) = drive(route_request(request("gemini", "/secret.txt"), &config()), &disk);
    assert_eq!(*response.status(), Status::Unauthorized);
    assert_eq!(response.body(), b"# Keep out\n");
    assert!(!response.cacheable());
    assert_eq!(
        log,
        vec![
            "stat /pub/secret.txt",
            "probe /pub/secret.txt",
            "read /pub/secret.txt",
            "probe /err/unauthorized.gmi",
            "read /err/unauthorized.gmi",
        ]
    );
}

#[test]
fn an_error_document_that_fails_does_not_ask_for_another() {
    let disk = Disk {
        dirs: vec!["/pub", "/err"],
        files: vec![
            ("/err/not_found.gmi.hbs", Some(b"{{#if}}")),
            ("/err/other_server_error.gmi", Some(b"never used")),
        ],
    };
    let (response, log, _) = drive(route_request(request("gemini", "/missing"), &config()), &disk);
    assert_eq!(*response.status(), Status::NotFound);
    assert_eq!(response.body(), b"Not found");
    assert!(!log.iter().any(|line| line.contains("other_server_error")));
}

#[test]
fn a_template_that_is_not_utf8_is_a_server_error() {
    let disk = Disk { dirs: vec!["/pub", "/err"], files: vec![("/pub/page.hbs", Some(b"\xff\xfe"))] };
    let (response, _, _) = drive(route_request(request("gemini", "/page"), &config()), &disk);
    assert_eq!(*response.status(), Status::OtherServerError);
    assert_eq!(response.body(), b"Other server error");
}

#[test]
fn markdown_is_converted_for_the_protocol_and_rendered() {
    let disk = Disk {
        dirs: vec!["/pub"],
        files: vec![("/pub/page.md", Some(b"# Title\n\nSome *text* for {{path}}\n"))],
    };
    let (response, log, _) = drive(route_request(request("https", "/page"), &config()), &disk);
    assert_eq!(*response.status(), Status::Success);
    assert_eq!(response.media_type(), "text/html; charset=utf-8");
    assert_eq!(
        String::from_utf8(response.body().to_vec()).unwrap(),
        "<h1>Title</h1>\n<p>Some <em>text</em> for /page</p>\n"
    );
    assert_eq!(log.last().unwrap(), "render");
    let (response, _, _) = drive(route_request(request("gemini", "/page"), &config()), &disk);
    assert_eq!(response.media_type(), "text/gemini");
    assert_eq!(
        String::from_utf8(response.body().to_vec()).unwrap(),
        "# Title\n\nSome _text_ for /page\n"
    );
    let (response, _, _) = drive(route_request(request("gemini", "/page.md"), &config()), &disk);
    assert_eq!(response.media_type(), "text/markdown; charset=utf-8");
    assert_eq!(
        String::from_utf8(response.body().to_vec()).unwrap(),
        "# Title\n\nSome *text* for /page.md\n"
    );
}

#[test]
fn markdown_that_cannot_be_converted_is_a_server_error() {
    let disk = Disk { dirs: vec!["/pub"], files: vec![("/pub/page.md", Some(b"a <b>bold</b> line\n"))] };
    let (response, _, _) = drive(route_request(request("gemini", "/page"), &config()), &disk);
    assert_eq!(*response.status(), Status::OtherServerError);
    assert_eq!(response.body(), b"Other server error");
}

#[test]
fn a_status_from_the_front_matter_decides_whatever_the_body_is() {
    let disk = Disk {
        dirs: vec!["/pub"],
        files: vec![(
            "/pub/post.md.hbs",
            Some(b"---\nstatus: not_found\n---\n\\{{*status meta.status}}\n# Gone for good\n"),
        )],
    };
    let (response, _, resolution) = drive(route_request(request("gemini", "/post"), &config()), &disk);
    assert_eq!(*response.status(), Status::NotFound);
    assert!(String::from_utf8(response.body().to_vec()).unwrap().contains("# Gone for good"));
    let meta = &resolution.request().template_context().meta;
    assert_eq!(meta.get("status"), Some(&Json::String("not_found".to_string())));
    assert_eq!(meta.get("created_at"), Some(&Json::String("1970-01-01T00:00:00Z".to_string())));
    assert_eq!(meta.get("updated_at"), Some(&Json::String("1970-01-01T00:01:00Z".to_string())));
}

#[test]
fn the_response_for_a_status_is_its_error_document() {
    let disk = Disk {
        dirs: vec!["/pub", "/err"],
        files: vec![("/err/request_too_large.htm", Some(b"<p>too large</p>"))],
    };
    let start =
        Response::new_for_request_and_status(request("https", "/"), &config(), Status::RequestTooLarge);
    let (response, log, _) = drive(start, &disk);
    assert_eq!(*response.status(), Status::RequestTooLarge);
    assert_eq!(response.body(), b"<p>too large</p>");
    assert_eq!(response.media_type(), "text/html");
    assert!(!response.cacheable());
    assert_eq!(
        log,
        vec![
            "probe /err/request_too_large.html",
            "probe /err/request_too_large.html.hbs",
            "probe /err/request_too_large.htm",
            "read /err/request_too_large.htm",
        ]
    );
}

#[test]
fn an_answer_to_another_question_ends_the_resolution() {
    let (resolution, action) = route_request(request("gemini", "/page"), &config());
    assert!(matches!(action, Action::Stat(_)));
    let (resolution, action) = resolution.step(Answer::Rendered(Some("x".to_string())));
    assert!(resolution.is_finished());
    match action {
        Action::Respond(response) => {
            assert_eq!(*response.status(), Status::OtherServerError);
            assert_eq!(response.body(), b"Other server error");
        }
        other => panic!("unexpected action {:?}", other),
    }
}

#[test]
fn the_request_keeps_who_asked_for_what() {
    let disk = Disk { dirs: vec!["/pub"], files: vec![("/pub/a.gmi", Some(b"x"))] };
    let (_, _, resolution) = drive(route_request(request("gemini", "/a.gmi"), &config()), &disk);
    let r = resolution.request();
    assert_eq!(r.peer_addr(), "192.0.2.7:50000");
    assert_eq!(r.path(), "/a.gmi");
    assert_eq!(r.protocol(), Protocol::Gemini);
    assert!(r.client_certificate_details().is_anonymous());
    assert_eq!(r.template_context().markup, Markup::Gemtext);
    assert_eq!(r.template_context().common_name, "anonymous");
    assert!(r.template_context().is_gemini);
    assert!(!r.template_context().is_https);
    assert!(r.template_context().is_anonymous);
    assert!(!r.template_context().is_authenticated);
}

#[test]
fn a_request_that_climbs_is_answered_with_the_error_document_of_a_client_error() {
    let disk = Disk {
        dirs: vec!["/pub", "/err", "/etc"],
        files: vec![
            ("/etc/passwd", Some(b"root:x:0:0")),
            ("/err/other_client_error.gmi", Some(b"# No\n")),
        ],
    };
    let failure = Protocol::parse_req_buf(
        "localhost",
        b"gemini://example.org/secret/../../etc/passwd\r\n",
    )
    .unwrap_err();
    assert_eq!(failure.status(), Status::OtherClientError);
    let start =
        Response::new_for_request_and_status(request("gemini", "/"), &config(), failure.status());
    let (response, log, _) = drive(start, &disk);
    assert_eq!(*response.status(), Status::OtherClientError);
    assert_eq!(response.body(), b"# No\n");
    assert_eq!(log, vec!["probe /err/other_client_error.gmi", "read /err/other_client_error.gmi"]);
    assert_eq!(failure.protocol().write_response(&response), b"59 Bad Request\r\n".to_vec());
}

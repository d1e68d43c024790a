use liveserve_rs::content_type::content_type;
use liveserve_rs::response::{Response, Status};
use liveserve_rs::server::{
    accept_request, serve_file, serve_static_file, spa_file_handler, Exchange,
};

const WS_SCRIPT: &str = "<script>InjectedScript()</script>";
const TEMP_DIR: &str = "/tmp";

fn read_text(files: &[(&str, &[u8])], path: &str) -> Result<String, String> {
    match read_bytes(files, path) {
        Ok(bytes) => String::from_utf8(bytes).map_err(|_| "InvalidData".to_string()),
        Err(error) => Err(error),
    }
}

fn read_bytes(files: &[(&str, &[u8])], path: &str) -> Result<Vec<u8>, String> {
    for (name, bytes) in files {
        if *name == path {
            return Ok(bytes.to_vec());
        }
    }
    Err("NotFound".to_string())
}

fn serve_path(files: &[(&str, &[u8])], path: &str) -> Response {
    drive(files, Exchange::ReadText { path: path.to_string() }).0
}

fn request(files: &[(&str, &[u8])], uri_path: &str, spa_entry: Option<&str>) -> (Response, usize) {
    drive(files, accept_request(TEMP_DIR, uri_path, spa_entry))
}

fn drive(files: &[(&str, &[u8])], start: Exchange) -> (Response, usize) {
    let mut next = start;
    let mut steps: usize = 0;
    loop {
        next = match next {
            Exchange::CheckFile { path, fallback } => {
                let is_file = read_bytes(files, &path).is_ok();
                spa_file_handler(path, fallback, is_file)
            }
            Exchange::ReadText { path } => {
                let read = read_text(files, &path);
                serve_file(path, read, WS_SCRIPT)
            }
            Exchange::ReadBytes { path } => {
                let read = read_bytes(files, &path);
                Exchange::Respond { response: serve_static_file(&path, read) }
            }
            Exchange::Respond { response } => return (response, steps),
        };
        steps += 1;
    }
}

fn body(response: &Response) -> &str {
    std::str::from_utf8(&response.body).unwrap()
}

#[test]
fn test_serve_file_injects_ws_script_for_html() {
    let file_content = "<html><body>Hello, world!</body></html>";
    let files: [(&str, &[u8]); 1] = [("/tmp/test_file.html", file_content.as_bytes())];
    let response = serve_path(&files, "/tmp/test_file.html");
    assert_eq!(response.status, Status::Success);
    assert!(body(&response).contains(WS_SCRIPT));
    assert_eq!(response.content_type, Some("text/html; charset=utf-8".to_string()));
    assert_eq!(
        body(&response),
        "<html><body>Hello, world!</body></html><script>InjectedScript()</script>"
    );
}

#[test]
fn test_serve_file_non_html_does_not_inject_ws_script() {
    let file_content = "Plain text content";
    let files: [(&str, &[u8]); 1] = [("/tmp/test_file.txt", file_content.as_bytes())];
    let response = serve_path(&files, "/tmp/test_file.txt");
    assert_eq!(response.status, Status::Success);
    assert_eq!(body(&response), file_content);
    assert_eq!(response.content_type, Some("text/plain".to_string()));
}

#[test]
fn test_serve_file_returns_error_for_missing_file() {
    let response = serve_path(&[], "/tmp/nonexistent_file.html");
    assert_eq!(response.status, Status::InternalServerError);
    assert_eq!(response.content_type, None);
    assert_eq!(body(&response), "Error reading file: NotFound");
}

#[test]
fn test_spa_file_handler_serves_existing_file() {
    let file_content = "<html><body>SPA Content</body></html>";
    let files: [(&str, &[u8]); 1] = [("/tmp/spa_test.html", file_content.as_bytes())];
    let (response, steps) = request(&files, "/spa_test.html", None);
    assert_eq!(response.status, Status::Success);
    assert!(body(&response).contains(WS_SCRIPT));
    assert_eq!(steps, 2);
}

#[test]
fn test_spa_file_handler_returns_not_found_for_missing_file() {
    let (response, steps) = request(&[], "/nonexistent.html", None);
    assert_eq!(response.status, Status::NotFound);
    assert_eq!(response.content_type, None);
    assert_eq!(body(&response), "File not found");
    assert_eq!(steps, 1);

    let (response, steps) = request(&[], "/nonexistent.html", Some("index.html"));
    assert_eq!(response.status, Status::NotFound);
    assert_eq!(steps, 2);
}

#[test]
fn entry_file_stands_in_for_missing_files() {
    let files: [(&str, &[u8]); 2] = [
        ("/tmp/index.html", b"<p>entry</p>"),
        ("/tmp/app.js", b"run()"),
    ];
    let (response, steps) = request(&files, "/users/7", Some("index.html"));
    assert_eq!(response.status, Status::Success);
    assert_eq!(body(&response), "<p>entry</p><script>InjectedScript()</script>");
    assert_eq!(steps, 3);

    let (response, steps) = request(&files, "/app.js", Some("index.html"));
    assert_eq!(body(&response), "run()");
    assert_eq!(response.content_type, Some("text/javascript".to_string()));
    assert_eq!(steps, 3);

    let (response, steps) = request(&files, "/users/7", Some("app.js"));
    assert_eq!(body(&response), "run()");
    assert_eq!(steps, 4);
}

#[test]
fn binary_files_are_served_under_their_type() {
    let files: [(&str, &[u8]); 1] = [("/tmp/logo.png", &[0x89, 0x50, 0x4e, 0x47])];
    let (response, steps) = request(&files, "/logo.png", None);
    assert_eq!(response.status, Status::Success);
    assert_eq!(response.body, vec![0x89, 0x50, 0x4e, 0x47]);
    assert_eq!(response.content_type, Some("image/png".to_string()));
    assert_eq!(steps, 3);
}

#[test]
fn html_files_have_to_be_text() {
    let files: [(&str, &[u8]); 1] = [("/tmp/page.html", &[0xff])];
    let (response, _) = request(&files, "/page.html", None);
    assert_eq!(response.status, Status::InternalServerError);
    assert_eq!(body(&response), "Error reading file: InvalidData");
}

#[test]
fn requests_do_not_leave_the_root() {
    let files: [(&str, &[u8]); 4] = [
        ("/srv/www/secret.txt", b"top"),
        ("/srv/www/public/../secret.txt", b"top"),
        ("/srv/www/public/a/../../secret.txt", b"top"),
        ("/srv/www/public/..a/b..", b"inside"),
    ];
    for uri_path in ["/../secret.txt", "//../secret.txt", "/a/../../secret.txt", "/.."] {
        let start = accept_request("/srv/www/public", uri_path, Some("..a/b.."));
        let (response, steps) = drive(&files, start);
        assert_eq!(response.status, Status::NotFound);
        assert_eq!(body(&response), "File not found");
        assert_eq!(steps, 0);
    }
    let (response, _) = drive(&files, accept_request("/srv/www/public", "/..a/b..", None));
    assert_eq!(body(&response), "inside");
    let files: [(&str, &[u8]); 1] = [("/srv/www/public/css/../b.txt", b"b")];
    let (response, _) = drive(&files, accept_request("/srv/www/public", "/css/../b.txt", None));
    assert_eq!(response.status, Status::Success);
    assert_eq!(body(&response), "b");
    match accept_request("/srv/www/public", "/css/../b.txt", None) {
        Exchange::CheckFile { path, fallback } => {
            assert!(matches!(
                spa_file_handler(path.clone(), fallback, true),
                Exchange::ReadText { .. }
            ));
            let response = serve_static_file(&path, Err("PermissionDenied".to_string()));
            assert_eq!(response.status, Status::InternalServerError);
            assert_eq!(body(&response), "Error reading file: PermissionDenied");
        }
        _ => panic!("the file lies in the root"),
    }
    let start = accept_request("/srv/www/public", "/none", Some("../secret.txt"));
    assert_eq!(drive(&files, start).0.status, Status::NotFound);
}

#[test]
fn entry_file_lies_in_the_root() {
    let files: [(&str, &[u8]); 2] = [
        ("/index.html", b"outside"),
        ("/tmp/index.html", b"inside"),
    ];
    let (response, _) = request(&files, "/none", Some("/index.html"));
    assert_eq!(body(&response), "inside<script>InjectedScript()</script>");
}

#[test]
fn second_read_may_fail() {
    let response = serve_static_file("/tmp/a.txt", Err("PermissionDenied".to_string()));
    assert_eq!(response.status, Status::InternalServerError);
    assert_eq!(body(&response), "Error reading file: PermissionDenied");
}

#[test]
fn static_bytes_are_served_as_they_are() {
    let response = serve_static_file("img/a.png", Ok(vec![0xff, 0, 1]));
    assert_eq!(response.status, Status::Success);
    assert_eq!(response.content_type, Some("image/png".to_string()));
    assert_eq!(response.body, vec![0xff, 0, 1]);
}

#[test]
fn page_text_is_encoded_before_the_script() {
    let response = Response::page("h\u{e9}".to_string(), "<s>");
    assert_eq!(response.body, vec![0x68, 0xc3, 0xa9, 0x3c, 0x73, 0x3e]);
}

#[test]
fn status_numbers() {
    assert_eq!(Status::Success.code(), 200);
    assert_eq!(Status::NotFound.code(), 404);
    assert_eq!(Status::InternalServerError.code(), 500);
}

#[test]
fn content_types_follow_the_extension() {
    assert_eq!(content_type("site/style.css"), "text/css");
    assert_eq!(content_type("other/dir/more.min.css"), "text/css");
    assert_eq!(content_type("PAGE.HTML"), "text/html");
    assert_eq!(content_type("data.json"), "application/json");
    assert_eq!(content_type("logo.svg"), "image/svg+xml");
    assert_eq!(content_type("Makefile"), "application/octet-stream");
    assert_eq!(content_type(".html"), "application/octet-stream");
    assert_eq!(content_type("name."), "application/octet-stream");
    assert_eq!(content_type("a.nosuchextension"), "application/octet-stream");
    for path in ["a/b.js", "x.tar.gz", "x", "a.wasm/", "a.b/c", "../..", "t.TXT"] {
        let guessed = mime_guess::from_path(path).first_or_octet_stream().to_string();
        assert_eq!(content_type(path), guessed);
    }
}

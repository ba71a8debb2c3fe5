use fileid_store::fileid::dispatch;
use fileid_store::http::{cache_control_line, file_headers, parse_header_line, route_http, ContentType, HttpPlan};
use fileid_store::request::FileIdError;

fn file(r: Result<HttpPlan, FileIdError>) -> (String, usize, ContentType) {
    match r {
        Ok(HttpPlan::File { path, length, content_type }) => (path, length, content_type),
        _ => panic!("expected a file"),
    }
}

fn message(r: Result<HttpPlan, FileIdError>) -> &'static str {
    match r {
        Ok(HttpPlan::Message(m)) => m,
        _ => panic!("expected a message"),
    }
}

#[test]
fn http_serves_an_issued_id() {
    let a = dispatch([0, 0, 0, 70], 3);
    let url = format!("/{}", a.fid);
    assert_eq!(file(route_http(&url)), ("data/6/12276111653151681929".to_string(), 3, ContentType::Binary));
}

#[test]
fn http_content_types() {
    let d = "12276111653151681929";
    let cases = [
        ("jpg", ContentType::Jpg),
        ("txt", ContentType::Text),
        ("png", ContentType::Png),
        ("html", ContentType::Html),
        ("htm", ContentType::Html),
        ("xhtml", ContentType::Html),
        ("xml", ContentType::Xml),
        ("tsd", ContentType::Xml),
        ("xsd", ContentType::Xml),
        ("gif", ContentType::Binary),
        ("JPG", ContentType::Binary),
    ];
    for (ext, ct) in cases {
        let url = format!("///fileid/70/3/{}.{}", d, ext);
        assert_eq!(file(route_http(&url)), (format!("data/6/{}", d), 3, ct));
    }
    let two_dots = format!("/fileid/70/3/{}.tar.gz", d);
    assert_eq!(file(route_http(&two_dots)), (format!("data/6/{}", d), 3, ContentType::Binary));
}

#[test]
fn http_messages() {
    assert_eq!(message(route_http("/")), "Error file id!");
    assert_eq!(message(route_http("/index.html")), "Error file id!");
    assert_eq!(message(route_http("/fileid/70/3/1.jpg")), "Error file id check_hash!");
}

#[test]
fn http_errors() {
    assert!(matches!(route_http("/fileid"), Err(FileIdError::MissingField)));
    assert!(matches!(route_http("/fileid/a/1/2"), Err(FileIdError::BadIndex)));
    assert!(matches!(route_http("/fileid/1/a/2"), Err(FileIdError::BadLength)));
    assert!(matches!(route_http("/fileid/1/2"), Err(FileIdError::MissingField)));
}

#[test]
fn header_lines_parse() {
    for ct in [ContentType::Jpg, ContentType::Text, ContentType::Png, ContentType::Html, ContentType::Xml, ContentType::Binary] {
        let h = parse_header_line(ct.header_line()).expect("accepted");
        assert_eq!(h.field.to_string(), "Content-Type");
    }
    assert_eq!(ContentType::Jpg.header_line(), "Content-Type: image/jpg");
    assert_eq!(ContentType::Binary.header_line(), "Content-Type: application/octet-stream");
    let c = parse_header_line(cache_control_line()).expect("accepted");
    assert_eq!(c.value.as_str(), "no-cache");
    let (a, b) = file_headers(ContentType::Html);
    assert_eq!(a.value.as_str(), "text/html");
    assert_eq!(b.field.to_string(), "cache-control");
}

#[test]
fn header_parser_refusals() {
    assert!(parse_header_line("no colon here").is_none());
    assert!(parse_header_line("Bad Field: x").is_none());
    assert!(parse_header_line("X-Ok:  spaced  ").is_some());
}

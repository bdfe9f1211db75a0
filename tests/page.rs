use spy_cam::{index_html, templated};

const HEAD: &str = "\n<!DOCTYPE html>\n<html>\n    <head>\n        <meta charset=\"utf-8\">\n        <title>InfDyn Sense web server</title>\n    </head>\n    <body>\n        ";
const TAIL: &str = "\n    </body>\n</html>\n";

#[test]
fn templated_wraps_content() {
    let page = templated("abc");
    assert_eq!(page, format!("{}abc{}", HEAD, TAIL));
}

#[test]
fn templated_empty_content() {
    assert_eq!(templated(""), format!("{}{}", HEAD, TAIL));
}

#[test]
fn index_page_greets() {
    let page = index_html();
    assert!(page.contains("Hello from Esp Spy Cam!"));
    assert_eq!(page, format!("{}Hello from Esp Spy Cam!{}", HEAD, TAIL));
}

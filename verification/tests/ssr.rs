use htip::ssr::inflate;
use htip::ssr::inflate_page;
use htip::ssr::is_bot;

#[test]
fn ssr_test_basic_inflation() {
    let template = "<div><!--SLOT_0--></div>";
    let result = inflate(template, &[("SLOT_0".to_string(), "Hello World".to_string())]);
    assert_eq!(result, "<div>Hello World</div>");
}

#[test]
fn ssr_test_multiple_slots() {
    let template = "<div><!--SLOT_0--> and <!--SLOT_1--></div>";
    let result = inflate(
        template,
        &[
            ("SLOT_0".to_string(), "Hello".to_string()),
            ("SLOT_1".to_string(), "World".to_string()),
        ],
    );
    assert_eq!(result, "<div>Hello and World</div>");
}

#[test]
fn ssr_test_bot_detection() {
    assert!(is_bot("Mozilla/5.0 (compatible; Googlebot/2.1)"));
    assert!(is_bot("Mozilla/5.0 (compatible; bingbot/2.0)"));
    assert!(!is_bot("Mozilla/5.0 (Windows NT 10.0; Win64; x64) Chrome/91.0"));
}

#[test]
fn ssr_page_inflation() {
    let html = inflate_page(
        "<h1><!--SLOT_0--></h1>",
        &[("SLOT_0".to_string(), "Welcome".to_string())],
        "My Page",
        &[("description".to_string(), "Test page".to_string())],
    );
    assert!(html.contains("<!DOCTYPE html>"));
    assert!(html.contains("<title>My Page</title>"));
    assert!(html.contains("<h1>Welcome</h1>"));
    assert!(html.contains("description"));
}

use fileshare::template::{get_template, parse_template, replace_all};

#[test]
fn replace_all_occurrences() {
    assert_eq!(replace_all("a{{x}}b{{x}}", "{{x}}", "Z"), "aZbZ");
    assert_eq!(replace_all("aaaa", "aa", "b"), "bb");
    assert_eq!(replace_all("aaa", "aa", "b"), "ba");
    assert_eq!(replace_all("", "x", "y"), "");
    assert_eq!(replace_all("xyz", "q", "r"), "xyz");
}

#[test]
fn template_fills_arguments_and_frame() {
    let frame = "<title>{{title}}</title><main>{{content}}</main>";
    let args = vec![
        (String::from("name"), String::from("report.pdf")),
        (String::from("size"), String::from("14 B")),
    ];
    let page = parse_template(frame, "<p>{{name}} ({{size}}) {{name}}</p>", "Upload done", &args);
    assert_eq!(
        page,
        "<title>Upload done</title><main><p>report.pdf (14 B) report.pdf</p></main>"
    );
}

#[test]
fn template_lookup() {
    let templates = vec![
        (String::from("app.html"), String::from("A")),
        (String::from("home.html"), String::from("H")),
        (String::from("app.html"), String::from("B")),
    ];
    assert_eq!(get_template(&templates, "app.html"), Some("A"));
    assert_eq!(get_template(&templates, "home.html"), Some("H"));
    assert_eq!(get_template(&templates, "nothing.html"), None);
}

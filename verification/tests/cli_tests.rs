use cbnb_node::cli::{create_content, create_content_from, dir_listing, dir_listing_from, manage_content, ManageAction};

fn strings(v: &[&str]) -> Vec<String> {
    v.iter().map(|s| s.to_string()).collect()
}

#[test]
fn listing_from_quoted_texts() {
    let d = strings(&["\"f\""]);
    let f = strings(&["\"f/a.py\"", "\"f/b\""]);
    let c = strings(&["\"x\"", "\"y\""]);
    assert_eq!(
        dir_listing_from(&d, &f, &c),
        " \"dirs\" : [\"f\"] , \"file_name\" : [\"f/a.py\", \"f/b\"] , \"files\" : {  \"f/a.py\" : \"x\" , \"f/b\" : \"y\"  } "
    );
    assert_eq!(
        dir_listing_from(&strings(&[]), &strings(&[]), &strings(&[])),
        " \"dirs\" : [] , \"file_name\" : [] , \"files\" : {  } "
    );
}

#[test]
fn listing_matches_format() {
    let dirs = strings(&["fn", "fn/lib"]);
    let files = strings(&["fn/main.py", "fn/lib/q\"uote.txt"]);
    let contents = strings(&["print('hi')\n", "tab\there"]);
    let mut all: Vec<String> = Vec::new();
    for (i, c) in files.iter().zip(contents.iter()) {
        all.push(format!(" {:?} : {:?} ", i, c.as_str()));
    }
    let expected = format!(
        " {} , {} , {} ",
        format!("\"dirs\" : {:?}", dirs),
        format!("\"file_name\" : {:?}", files),
        format!("\"files\" : {{ {} }}", all.join(","))
    );
    assert_eq!(dir_listing(&dirs, &files, &contents), expected);
}

#[test]
fn create_request_content() {
    assert_eq!(
        create_content_from("\"py\"", "\"main\"", "L"),
        "{ \"msg_type\": \"MANAGE\" , \"action\": \"create\",\"lang\": \"py\", \"prototype\": \"main\", L }"
    );
    let expected = format!(
        "{{ \"msg_type\": \"MANAGE\" , \"action\": \"create\",\"lang\": {:?}, \"prototype\": {:?}, {} }}",
        "python", "def f(\"x\")", " listing "
    );
    assert_eq!(create_content("python", "def f(\"x\")", " listing "), expected);
}

#[test]
fn management_contents() {
    assert_eq!(manage_content(ManageAction::Update, Some("7")), "{\"msg_type\":\"MANAGE\"}");
    assert_eq!(
        manage_content(ManageAction::Delete, Some("fn-1")),
        "{\"action\":\"delete\",\"id\":\"fn-1\",\"msg_type\":\"MANAGE\"}"
    );
    assert_eq!(
        manage_content(ManageAction::Publish, None),
        "{\"action\":\"publish\",\"id\":null,\"msg_type\":\"MANAGE\"}"
    );
    assert_eq!(
        manage_content(ManageAction::Publish, Some("a\"b")),
        "{\"action\":\"publish\",\"id\":\"a\\\"b\",\"msg_type\":\"MANAGE\"}"
    );
}

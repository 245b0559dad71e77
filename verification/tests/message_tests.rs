use cbnb_node::json::quote_json;
use cbnb_node::message::{Message, MsgType, NodeMessage};

#[test]
fn node_message_fields() {
    let m = NodeMessage::new(MsgType::UPDATE_SYSTAT, "x".to_string());
    assert_eq!(m.uuid, "Node_uuid");
    assert_eq!(m.msg_type, MsgType::UPDATE_SYSTAT);
    assert_eq!(m.content, "x");
    assert_eq!(MsgType::REGISTER.name(), "REGISTER");
    assert_eq!(MsgType::UPDATE_SYSTAT.name(), "UPDATE_SYSTAT");
}

#[test]
fn update_message_text() {
    assert_eq!(
        NodeMessage::update("{}"),
        "{\"Node\":{\"uuid\":\"Node_uuid\",\"msg_type\":\"UPDATE_SYSTAT\",\"content\":\"{}\"}}"
    );
    assert_eq!(
        NodeMessage::register(""),
        "{\"Node\":{\"uuid\":\"Node_uuid\",\"msg_type\":\"REGISTER\",\"content\":\"\"}}"
    );
}

#[test]
fn message_to_json() {
    let m = Message::Node(NodeMessage {
        uuid: "n\"1".to_string(),
        msg_type: MsgType::REGISTER,
        content: "c".to_string(),
    });
    assert_eq!(
        m.to_json(),
        "{\"Node\":{\"uuid\":\"n\\\"1\",\"msg_type\":\"REGISTER\",\"content\":\"c\"}}"
    );
}

#[test]
fn json_string_escapes() {
    assert_eq!(quote_json("plain"), "\"plain\"");
    assert_eq!(quote_json("a\"b\\c"), "\"a\\\"b\\\\c\"");
    assert_eq!(quote_json("\u{8}\t\n\u{c}\r"), "\"\\b\\t\\n\\f\\r\"");
    assert_eq!(quote_json("\u{1}\u{1f}\u{7f}"), "\"\\u0001\\u001f\u{7f}\"");
    assert_eq!(quote_json("é/€"), "\"é/€\"");
}

#[test]
fn messages_decode_to_their_report() {
    for report in ["{\"uptime\":\"1.0\"}", "a\"b\\c\n\u{1}é", ""].iter() {
        for (msg, kind) in [(NodeMessage::register(report), "REGISTER"), (NodeMessage::update(report), "UPDATE_SYSTAT")].iter() {
            let v: serde_json::Value = serde_json::from_str(msg).unwrap();
            assert_eq!(v.as_object().unwrap().len(), 1);
            assert_eq!(v["Node"]["uuid"], "Node_uuid");
            assert_eq!(v["Node"]["msg_type"], *kind);
            assert_eq!(v["Node"]["content"].as_str().unwrap(), *report);
        }
    }
    assert_ne!(NodeMessage::register("a"), NodeMessage::register("b"));
}

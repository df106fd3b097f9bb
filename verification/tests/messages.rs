use i_seek_you::message::read_message;
use i_seek_you::types::ClientMessage;

#[test]
fn read_message_maps_each_field() {
    let m = read_message(r#"{"type":"sign","id":"0001","name":"N","emoji":"E","password":true,"pk":"K"}"#);
    assert_eq!(
        m,
        Some(ClientMessage {
            kind: "sign".to_string(),
            id: Some("0001".to_string()),
            name: Some("N".to_string()),
            emoji: Some("E".to_string()),
            password_flag: Some(true),
            password_text: None,
            pk: Some("K".to_string()),
            json: r#"{"emoji":"E","id":"0001","name":"N","password":true,"pk":"K","type":"sign"}"#
                .to_string(),
        })
    );
}

#[test]
fn read_message_password_as_text() {
    let m = read_message(r#"{"type":"call","id":"0002","password":"pw"}"#).unwrap();
    assert_eq!(m.password_text, Some("pw".to_string()));
    assert_eq!(m.password_flag, None);
    assert_eq!(m.name, None);
    assert_eq!(m.emoji, None);
    assert_eq!(m.pk, None);
}

#[test]
fn read_message_needs_a_string_type() {
    assert_eq!(read_message("not json"), None);
    assert_eq!(read_message(r#"{"id":"0001"}"#), None);
    assert_eq!(read_message(r#"{"type":1}"#), None);
    assert_eq!(read_message(r#"["type"]"#), None);
    assert!(read_message(r#"{"type":""}"#).is_some());
}

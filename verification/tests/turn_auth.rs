use i_seek_you::auth::{AuthError, MyAuthHandler};
use i_seek_you::configs::get_configs;

#[test]
fn configs_of_the_deployed_server() {
    let c = get_configs();
    assert_eq!(c.public_ip, "81.68.166.119");
    assert_eq!(c.port, 3478);
    assert_eq!(c.realm, "i-seek-you.dist.run");
    assert_eq!(c.username, "webrtc");
    assert_eq!(c.password, "webrtc");
}

#[test]
fn configured_user_gets_md5_key() {
    let h = MyAuthHandler::from_configs(&get_configs());
    let key = h.auth_handle("webrtc", "i-seek-you.dist.run").unwrap();
    assert_eq!(
        key,
        vec![203, 200, 112, 85, 77, 190, 12, 252, 168, 33, 82, 141, 73, 58, 163, 83]
    );
}

#[test]
fn realm_plays_no_part() {
    let h = MyAuthHandler::from_configs(&get_configs());
    assert_eq!(
        h.auth_handle("webrtc", "other.realm").unwrap(),
        h.auth_handle("webrtc", "i-seek-you.dist.run").unwrap()
    );
}

#[test]
fn unknown_user_is_refused() {
    let h = MyAuthHandler::from_configs(&get_configs());
    assert!(matches!(h.auth_handle("alice", "i-seek-you.dist.run"), Err(AuthError::UnknownUser)));
    assert!(matches!(h.auth_handle("", "i-seek-you.dist.run"), Err(AuthError::UnknownUser)));
    assert!(matches!(MyAuthHandler::new().auth_handle("webrtc", "x"), Err(AuthError::UnknownUser)));
}

#[test]
fn insert_replaces_key() {
    let mut h = MyAuthHandler::new();
    h.insert("bob".to_string(), vec![1, 2]);
    h.insert("carol".to_string(), vec![3]);
    h.insert("bob".to_string(), vec![9]);
    assert_eq!(h.auth_handle("bob", "r").unwrap(), vec![9]);
    assert_eq!(h.auth_handle("carol", "r").unwrap(), vec![3]);
}

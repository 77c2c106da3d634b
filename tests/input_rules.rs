use torchat::error::AppError;
use torchat::requests::{default_limit, payload_id, CreateRoomRequest, EditMessageRequest, PaginationQuery, RegisterRequest};
use torchat::store::{MessageType, RoomType};
use torchat::upload::{check_size, is_allowed_mime, sanitize_extension, stored_file_name, upload_file};
use torchat::validation::{parse_message_type, parse_room_type, validate_max_members, validate_username};

fn register(name: &str, email: Option<&str>, password: &str) -> RegisterRequest {
    RegisterRequest {
        username: name.to_string(),
        email: email.map(|e| e.to_string()),
        password: password.to_string(),
        display_name: None,
        public_key: None,
    }
}

#[test]
fn username_length_bounds() {
    assert_eq!(validate_username("ab"), Err(AppError::Validation));
    assert_eq!(validate_username("abc"), Ok(()));
    assert_eq!(validate_username(&"a".repeat(50)), Ok(()));
    assert_eq!(validate_username(&"a".repeat(51)), Err(AppError::Validation));
    assert_eq!(validate_username("bad name"), Err(AppError::Validation));
    assert_eq!(validate_username("under_score9"), Ok(()));
}

#[test]
fn register_request_rules() {
    assert_eq!(register("alice", None, "correcthorsebattery").validate(), Ok(()));
    assert_eq!(register("al", None, "correcthorsebattery").validate(), Err(AppError::Validation));
    assert_eq!(register("alice", None, "short").validate(), Err(AppError::Validation));
    assert_eq!(register("alice", Some("a@b.org"), "correcthorsebattery").validate(), Ok(()));
    assert_eq!(register("alice", Some("no-at-sign"), "correcthorsebattery").validate(), Err(AppError::Validation));
}

#[test]
fn max_members_validation() {
    assert_eq!(validate_max_members(Some(1)), Err(AppError::Validation));
    assert_eq!(validate_max_members(Some(2)), Ok(2));
    assert_eq!(validate_max_members(Some(1000)), Ok(1000));
    assert_eq!(validate_max_members(Some(1001)), Err(AppError::Validation));
    assert_eq!(validate_max_members(None), Ok(100));
    let req = CreateRoomRequest {
        name: "R".to_string(),
        description: None,
        room_type: Some("public".to_string()),
        max_members: Some(1001),
        is_public: None,
        avatar: None,
    };
    assert_eq!(req.validate(), Err(AppError::Validation));
}

#[test]
fn type_names() {
    assert_eq!(parse_room_type("public"), Ok(RoomType::Public));
    assert_eq!(parse_room_type("private"), Ok(RoomType::Private));
    assert_eq!(parse_room_type("secret"), Err(AppError::Validation));
    assert_eq!(parse_message_type(&None), Ok(MessageType::Text));
    assert_eq!(parse_message_type(&Some("video".to_string())), Ok(MessageType::Video));
    assert_eq!(parse_message_type(&Some("gif".to_string())), Err(AppError::Validation));
}

#[test]
fn upload_size_boundary() {
    assert_eq!(check_size(1073741824, 1073741824), Ok(()));
    assert_eq!(check_size(1073741825, 1073741824), Err(AppError::Upload));
    let png = "image/png".to_string();
    assert!(upload_file(&png, "a.png", 100, 100, 1, 2).is_ok());
    assert_eq!(upload_file(&png, "a.png", 101, 100, 1, 2), Err(AppError::Upload));
}

#[test]
fn upload_types_and_names() {
    assert!(is_allowed_mime(&"application/pdf".to_string()));
    assert!(!is_allowed_mime(&"application/x-sh".to_string()));
    assert_eq!(upload_file(&"text/html".to_string(), "a.html", 1, 100, 1, 2), Err(AppError::Upload));
    let name = upload_file(&"image/png".to_string(), "cat.PNG", 1, 100, 1700000000000, 0xab).unwrap();
    assert_eq!(name, "1700000000000-00000000-0000-0000-0000-0000000000ab.PNG");
    let name = upload_file(&"text/plain".to_string(), "README", 1, 100, 7, 1).unwrap();
    assert_eq!(name, "7-00000000-0000-0000-0000-000000000001.bin");
    assert_eq!(upload_file(&"text/plain".to_string(), "x.t/xt", 1, 100, 7, 1).unwrap(), "7-00000000-0000-0000-0000-000000000001.bin");
    assert_eq!(upload_file(&"text/plain".to_string(), "x.t-t", 1, 100, 7, 1), Err(AppError::Upload));
    assert_eq!(upload_file(&"text/plain".to_string(), "../../etc/passwd.txt", 1, 100, 7, 1).unwrap(), "7-00000000-0000-0000-0000-000000000001.txt");
}

#[test]
fn extension_rule() {
    assert_eq!(sanitize_extension(None), Ok("bin".to_string()));
    assert_eq!(sanitize_extension(Some(String::new())), Ok("bin".to_string()));
    assert_eq!(sanitize_extension(Some("abcdefghijkl".to_string())), Ok("abcdefghij".to_string()));
    assert_eq!(sanitize_extension(Some("p$p".to_string())), Err(AppError::Upload));
    let n = stored_file_name(3, 0, &"jpg".to_string());
    assert!(!n.contains('/'));
}

#[test]
fn pages_and_ids() {
    assert_eq!(default_limit(), 50);
    assert_eq!(PaginationQuery { limit: -5, offset: -1 }.bounds(), (0, 0));
    assert_eq!(PaginationQuery { limit: 10_000, offset: 3 }.bounds(), (200, 3));
    assert_eq!(payload_id(&"00000000-0000-0000-0000-00000000002a".to_string()), Ok(42));
    assert_eq!(payload_id(&"room-1".to_string()), Err(AppError::BadRequest));
    assert_eq!(EditMessageRequest { encrypted_content: String::new() }.validate(), Err(AppError::Validation));
}

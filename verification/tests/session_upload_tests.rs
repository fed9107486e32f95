use vision_gateway::session::{next_session_num, session_num_of};
use vision_gateway::upload::{extension_for, upload_filename};

#[test]
fn session_number_is_read_from_a_matching_name() {
    assert_eq!(session_num_of("010125-1200-3.log", "010125-1200"), Some(3));
    assert_eq!(session_num_of("010125-1200-17.log", "010125-1200"), Some(17));
}

#[test]
fn session_number_rejects_other_names() {
    assert_eq!(session_num_of("020125-1200-3.log", "010125-1200"), None);
    assert_eq!(session_num_of("010125-1200-3.txt", "010125-1200"), None);
    assert_eq!(session_num_of("010125-1200-x.log", "010125-1200"), None);
    assert_eq!(session_num_of("010125-1200-.log", "010125-1200"), None);
    assert_eq!(session_num_of("010125-1200", "010125-1200"), None);
    assert_eq!(session_num_of("", "010125-1200"), None);
}

#[test]
fn session_number_overflowing_u32_is_ignored() {
    assert_eq!(session_num_of("p-4294967295.log", "p"), Some(4294967295));
    assert_eq!(session_num_of("p-4294967296.log", "p"), None);
}

#[test]
fn next_session_is_one_past_the_largest_match() {
    let names = vec![
        "010125-1200-1.log".to_string(),
        "010125-1200-4.log".to_string(),
        "010125-1159-9.log".to_string(),
        "notes.txt".to_string(),
    ];
    assert_eq!(next_session_num(&names, "010125-1200"), 5);
}

#[test]
fn next_session_starts_at_one() {
    assert_eq!(next_session_num(&Vec::new(), "010125-1200"), 1);
    let names = vec!["README.md".to_string()];
    assert_eq!(next_session_num(&names, "010125-1200"), 1);
}

#[test]
fn extension_follows_the_content_type() {
    assert_eq!(extension_for("image/png"), "png");
    assert_eq!(extension_for("image/jpeg"), "jpg");
    assert_eq!(extension_for("image/jpg"), "jpg");
    assert_eq!(extension_for("image/gif"), "gif");
    assert_eq!(extension_for("application/octet-stream"), "bin");
    assert_eq!(extension_for(""), "bin");
}

#[test]
fn upload_filename_embeds_timestamp_and_extension() {
    assert_eq!(upload_filename(1234, "png"), "upload_1234.png");
    assert_eq!(upload_filename(0, "bin"), "upload_0.bin");
    assert_eq!(
        upload_filename(18446744073709551615, "jpg"),
        "upload_18446744073709551615.jpg"
    );
}

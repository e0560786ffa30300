use rubox::session::{sort_newest_first, with_id_counter, Role, Session, SessionError};

fn sample(n: usize) -> Session {
    let mut s = Session::start("gemma".to_string(), 700, "19102026_120000", 1000);
    for i in 0..n {
        let role = if i % 2 == 0 { Role::User } else { Role::Assistant };
        let tokens = if i % 2 == 0 { None } else { Some(10 + i as u32) };
        s.add_message_at(role, format!("message {}", i + 1), tokens, 2000 + i as i64);
    }
    s
}

#[test]
fn start_names_session_after_stamp() {
    let s = Session::start("gemma".to_string(), 700, "19102026_120000", 5);
    assert_eq!(s.metadata.id, "session_19102026_120000");
    assert_eq!(s.metadata.created_at, 5);
    assert_eq!(s.metadata.message_count, 0);
    assert_eq!(s.metadata.next_message_id, 1);
    assert!(s.messages.is_empty());
}

#[test]
fn new_session_id_has_prefix_and_stamp() {
    let s = Session::new("lfm".to_string(), 500);
    assert!(s.metadata.id.starts_with("session_"));
    assert_eq!(s.metadata.id.len(), "session_".len() + "DDMMYYYY_HHMMSS".len());
    assert!(s.metadata.created_at > 0);
}

#[test]
fn add_message_numbers_from_one_and_counts_tokens() {
    let s = sample(3);
    let ids: Vec<usize> = s.messages.iter().map(|m| m.id).collect();
    assert_eq!(ids, vec![1, 2, 3]);
    assert_eq!(s.metadata.message_count, 3);
    assert_eq!(s.metadata.total_tokens, 11);
    assert_eq!(s.metadata.last_modified, 2002);
}

#[test]
fn deleting_second_of_three_keeps_third_id() {
    let mut s = sample(3);
    assert_eq!(s.delete_message_at(2, 9000), Ok(()));
    assert_eq!(s.messages.len(), 2);
    assert_eq!(s.messages[1].id, 3);
    let third = s.get_message(3).expect("message 3 is still there");
    assert_eq!(third.content, "message 3");
    assert!(s.get_message(2).is_none());
    assert_eq!(s.metadata.total_tokens, 0);
    s.add_message_at(Role::User, "after".to_string(), None, 9001);
    assert_eq!(s.messages.last().unwrap().id, 4);
}

#[test]
fn deleting_last_message_does_not_reuse_its_id() {
    let mut s = sample(3);
    s.delete_message(3).unwrap();
    s.add_message(Role::User, "again".to_string(), None);
    assert_eq!(s.messages.last().unwrap().id, 4);
}

#[test]
fn deleting_unknown_id_changes_nothing() {
    let mut s = sample(2);
    let before = s.metadata.last_modified;
    assert_eq!(s.delete_message_at(7, 99), Err(SessionError::NoSuchMessage(7)));
    assert_eq!(s.messages.len(), 2);
    assert_eq!(s.metadata.last_modified, before);
}

#[test]
fn clear_all_empties_but_keeps_counter() {
    let mut s = sample(5);
    s.clear_all_at(7777);
    assert_eq!(s.metadata.message_count, 0);
    assert_eq!(s.metadata.total_tokens, 0);
    assert_eq!(s.metadata.next_message_id, 6);
    assert_eq!(s.metadata.last_modified, 7777);
}

#[test]
fn rename_keeps_date_and_time_and_replaces_label() {
    let mut s = sample(1);
    s.rename_at("first_try".to_string(), 3);
    assert_eq!(s.metadata.id, "session_19102026_120000_first_try");
    assert_eq!(s.metadata.label.as_deref(), Some("first_try"));
    s.rename("second".to_string());
    assert_eq!(s.metadata.id, "session_19102026_120000_second");
}

#[test]
fn rename_of_short_id_appends_label() {
    let mut s = Session::start("m".to_string(), 0, "x", 0);
    s.rename_at("lbl".to_string(), 1);
    assert_eq!(s.metadata.id, "session_x_lbl");
}

#[test]
fn round_trip_through_parts() {
    let s = sample(4);
    let (md, ms) = s.to_parts();
    let back = Session::restore(md, ms).ok().expect("consistent parts");
    assert_eq!(back.metadata.id, s.metadata.id);
    assert_eq!(back.metadata.total_tokens, s.metadata.total_tokens);
    assert_eq!(back.messages.len(), 4);
    for (a, b) in back.messages.iter().zip(s.messages.iter()) {
        assert_eq!(a.id, b.id);
        assert_eq!(a.content, b.content);
        assert_eq!(a.role, b.role);
        assert_eq!(a.tokens, b.tokens);
        assert_eq!(a.timestamp, b.timestamp);
    }
}

#[test]
fn restore_rejects_wrong_counters() {
    let s = sample(3);
    let (mut md, ms) = s.to_parts();
    md.total_tokens += 1;
    assert!(matches!(Session::restore(md, ms), Err(SessionError::Inconsistent)));
    let (mut md2, ms2) = s.to_parts();
    md2.message_count = 2;
    assert!(matches!(Session::restore(md2, ms2), Err(SessionError::Inconsistent)));
    let (mut md3, ms3) = s.to_parts();
    md3.next_message_id = 3;
    assert!(matches!(Session::restore(md3, ms3), Err(SessionError::Inconsistent)));
}

#[test]
fn storage_paths() {
    let s = sample(0);
    assert_eq!(s.metadata_path("Chat/sessions"), "Chat/sessions/session_19102026_120000/metadata.json");
    assert_eq!(s.messages_path("Chat/sessions"), "Chat/sessions/session_19102026_120000/messages.json");
}

#[test]
fn sessions_newest_first() {
    let mut v = Vec::new();
    for (i, t) in [5i64, 9, 1, 9, 3].iter().enumerate() {
        let mut s = Session::start("m".to_string(), 0, &format!("{}", i), 0);
        s.metadata.last_modified = *t;
        v.push(s.to_parts().0);
    }
    let r = sort_newest_first(v);
    let times: Vec<i64> = r.iter().map(|m| m.last_modified).collect();
    assert_eq!(times, vec![9, 9, 5, 3, 1]);
}

#[test]
fn room_check() {
    let mut s = sample(1);
    assert!(s.has_room(Some(5)));
    s.metadata.total_tokens = u64::MAX - 1;
    assert!(!s.has_room(Some(5)));
    assert!(s.has_room(None));
}

#[test]
fn role_names() {
    assert_eq!(Role::User.name(), "user");
    assert_eq!(Role::Assistant.name(), "assistant");
}

#[test]
fn stamp_never_moves_back() {
    let mut s = sample(5);
    let before = s.metadata.last_modified;
    s.clear_all_at(before - 500);
    assert_eq!(s.metadata.message_count, 0);
    assert_eq!(s.metadata.last_modified, before);
}

#[test]
fn role_names_read_back() {
    assert_eq!(Role::from_name("user"), Some(Role::User));
    assert_eq!(Role::from_name("assistant"), Some(Role::Assistant));
    assert_eq!(Role::from_name("system"), None);
    assert_eq!(Role::from_name("User"), None);
}

#[test]
fn id_counter_rebuilt_for_old_records() {
    let mut s = sample(3);
    s.delete_message_at(3, 3000).unwrap();
    let (mut md, ms) = s.to_parts();
    assert_eq!(with_id_counter(md.duplicate(), &ms).next_message_id, 4);
    md.next_message_id = 0;
    let fixed = with_id_counter(md, &ms);
    assert_eq!(fixed.next_message_id, 3);
    let back = Session::restore(fixed, ms).expect("consistent once the counter is rebuilt");
    assert_eq!(back.messages.len(), 2);
    let (mut empty_md, none) = Session::start("m".to_string(), 0, "01012026_000000", 1).to_parts();
    empty_md.next_message_id = 0;
    assert_eq!(with_id_counter(empty_md, &none).next_message_id, 1);
}

use slopos_shell::lock_client::{
    keysym_to_char, lock_client_password, LockEntry, LockKey, LockKeyOutcome,
};

fn typed(entry: &mut LockEntry, keysyms: &str) {
    for c in keysyms.chars() {
        entry.press_key(LockKey::Other { utf8: None, keysym: c as u32 });
    }
}

#[test]
fn lock_client_password_sources() {
    assert_eq!(lock_client_password(Some("env"), Some("lock_password=conf\n")), "env");
    assert_eq!(lock_client_password(Some(""), None), "");
    assert_eq!(lock_client_password(None, Some("x=1\nlock_password= conf \n")), "conf");
    // The first lock_password line decides, even when its value is empty.
    assert_eq!(
        lock_client_password(None, Some("lock_password=\nlock_password=later\n")),
        "slopos-i"
    );
    assert_eq!(lock_client_password(None, None), "slopos-i");
}

#[test]
fn only_the_expected_password_unlocks() {
    let mut entry = LockEntry::new("abc".to_string());
    typed(&mut entry, "abd");
    assert_eq!(entry.press_key(LockKey::Enter), LockKeyOutcome::Rejected);
    assert_eq!(entry.entered(), "");
    typed(&mut entry, "abx");
    assert_eq!(entry.press_key(LockKey::Backspace), LockKeyOutcome::Edited);
    typed(&mut entry, "c");
    assert_eq!(entry.entered(), "abc");
    assert_eq!(entry.press_key(LockKey::Enter), LockKeyOutcome::Unlock);
}

#[test]
fn key_text_wins_over_keysym_unless_control() {
    let mut entry = LockEntry::new("é".to_string());
    assert_eq!(
        entry.press_key(LockKey::Other { utf8: Some("é".to_string()), keysym: 0xe9 }),
        LockKeyOutcome::Edited
    );
    assert_eq!(entry.entered(), "é");
    assert_eq!(
        entry.press_key(LockKey::Other { utf8: Some("\u{7}".to_string()), keysym: 0xff1b }),
        LockKeyOutcome::Ignored
    );
    assert_eq!(entry.press_key(LockKey::Backspace), LockKeyOutcome::Edited);
    assert_eq!(entry.press_key(LockKey::Backspace), LockKeyOutcome::Edited);
    assert_eq!(entry.entered(), "");
    assert_eq!(keysym_to_char(0x41), Some('A'));
    assert_eq!(keysym_to_char(0x7f), None);
}

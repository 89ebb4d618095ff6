//! The session-lock client's password entry: which password unlocks, and
//! what each key press does to the typed text. Drawing the lock surface
//! and talking to the compositor are the client program's part.
use vstd::prelude::*;

use crate::text::{chars_to_string, lines, split_lines, starts_with, starts_with_str, str_chars, trim, trim_chars, views};

verus! {

/// The password used when none is configured.
pub open spec fn default_lock_password() -> Seq<char> {
    "slopos-i"@
}

/// The value of the first `lock_password=` line, trimmed (whatever it is).
pub open spec fn first_lock_password_line(ls: Seq<Seq<char>>) -> Option<Seq<char>>
    decreases ls.len(),
{
    if ls.len() == 0 {
        None
    } else if starts_with(ls[0], "lock_password="@) {
        Some(trim(ls[0].skip(14)))
    } else {
        first_lock_password_line(ls.drop_first())
    }
}

/// The password the lock client expects: the `SLOPOS_LOCK_PASSWORD` value
/// as set (even empty), else the first `lock_password=` line of the
/// settings text when its value is not empty, else the default.
pub open spec fn lock_client_password_of(env_value: Option<Seq<char>>, conf_text: Option<Seq<char>>) -> Seq<char> {
    match env_value {
        Some(v) => v,
        None => match conf_text {
            Some(t) => match first_lock_password_line(lines(t)) {
                Some(p) => if p.len() > 0 {
                    p
                } else {
                    default_lock_password()
                },
                None => default_lock_password(),
            },
            None => default_lock_password(),
        },
    }
}

/// Choose the lock client's password from the environment value and the
/// settings file text, each as read (`None` when unset or unreadable).
pub fn lock_client_password(env_value: Option<&str>, conf_text: Option<&str>) -> (r: String)
    ensures
        r@ == lock_client_password_of(crate::opt_view(env_value), crate::opt_view(conf_text)),
{
    if let Some(v) = env_value {
        return crate::text::owned(v);
    }
    let found: Option<Vec<char>> = match conf_text {
        None => None,
        Some(c) => {
            let ls = split_lines(&str_chars(c));
            let ghost all = lines(c@);
            let mut i: usize = 0;
            let mut hit: Option<Vec<char>> = None;
            assert(all.skip(0) =~= all);
            while i < ls.len() && hit.is_none()
                invariant
                    i <= ls@.len(),
                    views(ls@) == all,
                    hit is None ==> first_lock_password_line(all) == first_lock_password_line(
                        all.skip(i as int),
                    ),
                    hit matches Some(h) ==> first_lock_password_line(all) == Some(h@),
                decreases ls@.len() - i,
            {
                let line = &ls[i];
                assert(all.skip(i as int)[0] == line@);
                assert(all.skip(i as int).drop_first() =~= all.skip(i + 1));
                proof {
                    reveal_strlit("lock_password=");
                }
                if starts_with_str(line, "lock_password=") {
                    let v = trim_chars(&crate::text::slice_chars(line, 14, line.len()));
                    assert(line@.skip(14) =~= line@.subrange(14, line@.len() as int));
                    hit = Some(v);
                }
                i = i + 1;
            }
            if hit.is_none() {
                assert(all.skip(i as int) =~= Seq::<Seq<char>>::empty());
            }
            hit
        },
    };
    match found {
        Some(p) => if p.len() > 0 {
            chars_to_string(&p)
        } else {
            crate::text::owned("slopos-i")
        },
        None => crate::text::owned("slopos-i"),
    }
}

/// `char::is_control`: the C0 and C1 control characters and DEL.
pub open spec fn is_control(c: char) -> bool {
    (c as u32) <= 0x1f || (0x7f <= (c as u32) && (c as u32) <= 0x9f)
}

/// Every character of `t` is a control character (true of empty text).
pub open spec fn all_control(t: Seq<char>) -> bool {
    forall|i: int| 0 <= i < t.len() ==> is_control(#[trigger] t[i])
}

/// The printable ASCII character of a keysym (`0x20..=0x7e`), if any.
pub open spec fn keysym_char(keysym: u32) -> Option<char> {
    if 0x20 <= keysym && keysym <= 0x7e {
        Some(keysym as char)
    } else {
        None
    }
}

/// The character a keysym types, when it is printable ASCII.
pub fn keysym_to_char(keysym: u32) -> (r: Option<char>)
    ensures
        r == keysym_char(keysym),
{
    if 0x20 <= keysym && keysym <= 0x7e {
        let b = keysym as u8;
        Some(b as char)
    } else {
        None
    }
}

/// A key press on the lock screen.
#[derive(Debug)]
pub enum LockKey {
    /// Return or keypad Enter.
    Enter,
    /// BackSpace.
    Backspace,
    /// Any other key: the text it produced, if any, and its keysym.
    Other { utf8: Option<String>, keysym: u32 },
}

/// What a key press did.
#[derive(Debug, Clone, Copy, PartialEq, Eq, Structural)]
pub enum LockKeyOutcome {
    /// The typed password matched: unlock the session.
    Unlock,
    /// The typed password did not match; the entry was cleared.
    Rejected,
    /// The typed text changed (repaint).
    Edited,
    /// Nothing happened.
    Ignored,
}

/// The typed text after a key press, and what the press did: Enter
/// unlocks on an exact match and clears the entry otherwise; BackSpace
/// drops the last character; a key that produced text other than control
/// characters types that text, otherwise a printable keysym types its
/// character.
pub open spec fn entry_after(entered: Seq<char>, expected: Seq<char>, key: LockKey) -> (Seq<char>, LockKeyOutcome) {
    match key {
        LockKey::Enter => if entered == expected {
            (entered, LockKeyOutcome::Unlock)
        } else {
            (Seq::empty(), LockKeyOutcome::Rejected)
        },
        LockKey::Backspace => (if entered.len() > 0 {
            entered.drop_last()
        } else {
            entered
        }, LockKeyOutcome::Edited),
        LockKey::Other { utf8, keysym } => if utf8 is Some && !all_control(utf8->0@) {
            (entered + utf8->0@, LockKeyOutcome::Edited)
        } else {
            match keysym_char(keysym) {
                Some(c) => (entered.push(c), LockKeyOutcome::Edited),
                None => (entered, LockKeyOutcome::Ignored),
            }
        },
    }
}

/// The lock screen's password entry.
#[derive(Debug)]
pub struct LockEntry {
    entered: Vec<char>,
    expected: String,
}

impl LockEntry {
    /// The typed text.
    pub closed spec fn typed(&self) -> Seq<char> {
        self.entered@
    }

    /// The password that unlocks.
    pub closed spec fn expected_password(&self) -> Seq<char> {
        self.expected@
    }

    /// Nothing typed yet.
    pub fn new(expected: String) -> (r: Self)
        ensures
            r.typed() == Seq::<char>::empty(),
            r.expected_password() == expected@,
    {
        LockEntry { entered: Vec::new(), expected }
    }

    /// The typed text.
    pub fn entered(&self) -> (r: String)
        ensures
            r@ == self.typed(),
    {
        chars_to_string(&self.entered)
    }

    /// Apply a key press.
    pub fn press_key(&mut self, key: LockKey) -> (r: LockKeyOutcome)
        ensures
            (final(self).typed(), r) == entry_after(old(self).typed(), old(self).expected_password(), key),
            final(self).expected_password() == old(self).expected_password(),
    {
        match key {
            LockKey::Enter => {
                let exp = str_chars(self.expected.as_str());
                if crate::text::chars_eq(&self.entered, &exp) {
                    LockKeyOutcome::Unlock
                } else {
                    self.entered = Vec::new();
                    LockKeyOutcome::Rejected
                }
            },
            LockKey::Backspace => {
                if self.entered.len() > 0 {
                    let ghost before = self.entered@;
                    self.entered.pop();
                    assert(self.entered@ =~= before.drop_last());
                }
                LockKeyOutcome::Edited
            },
            LockKey::Other { utf8, keysym } => {
                let mut typed_text = false;
                if let Some(t) = &utf8 {
                    let tv = str_chars(t.as_str());
                    let mut all = true;
                    let mut i: usize = 0;
                    while i < tv.len()
                        invariant
                            i <= tv@.len(),
                            all == (forall|j: int| 0 <= j < i ==> is_control(#[trigger] tv@[j])),
                        decreases tv@.len() - i,
                    {
                        let u = tv[i] as u32;
                        if !(u <= 0x1f || (0x7f <= u && u <= 0x9f)) {
                            all = false;
                        }
                        i = i + 1;
                    }
                    if !all {
                        crate::text::push_chars(&mut self.entered, &tv);
                        typed_text = true;
                    }
                }
                if typed_text {
                    LockKeyOutcome::Edited
                } else {
                    match keysym_to_char(keysym) {
                        Some(c) => {
                            self.entered.push(c);
                            LockKeyOutcome::Edited
                        },
                        None => LockKeyOutcome::Ignored,
                    }
                }
            },
        }
    }
}

/// A printable key typed and then erased leaves the entry as it was.
pub proof fn law_type_then_backspace_restores(entered: Seq<char>, expected: Seq<char>, keysym: u32)
    requires
        keysym_char(keysym) is Some,
    ensures
        entry_after(
            entry_after(entered, expected, LockKey::Other { utf8: None, keysym }).0,
            expected,
            LockKey::Backspace,
        ).0 == entered,
{
    assert(entered.push(keysym_char(keysym)->0).drop_last() =~= entered);
}

/// Enter unlocks exactly when the typed text is the expected password, and
/// a rejected attempt leaves nothing typed.
pub proof fn law_enter_unlocks_only_on_match(entered: Seq<char>, expected: Seq<char>)
    ensures
        (entry_after(entered, expected, LockKey::Enter).1 == LockKeyOutcome::Unlock) == (entered
            == expected),
        entry_after(entered, expected, LockKey::Enter).1 == LockKeyOutcome::Rejected
            ==> entry_after(entered, expected, LockKey::Enter).0.len() == 0,
{
}

} // verus!

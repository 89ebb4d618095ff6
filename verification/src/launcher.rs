//! Search palette decisions: which index snapshot to keep, the palette's
//! size, row and status texts, and the command line that launches a result.
use vstd::prelude::*;

use std::sync::Arc;

use crate::app_finder::{AppModel, DesktopApp};
use crate::text::{
    chars_to_string, dec, ends_with, ends_with_str, lower, lower_chars, owned, push_chars,
    push_decimal, push_str_chars, str_chars, str_is_empty, string_views,
};

verus! {

/// A new application index snapshot, numbered in the order it was made.
pub struct AppIndexUpdate {
    pub seq: u64,
    pub apps: Arc<Vec<DesktopApp>>,
}

/// The snapshot the palette searches.
pub struct AppIndexState {
    pub apps: Arc<Vec<DesktopApp>>,
    pub last_seq: u64,
}

impl AppIndexState {
    /// No applications yet, sequence 0.
    pub fn new() -> (r: Self)
        ensures
            r.last_seq == 0,
            r.apps@.len() == 0,
    {
        AppIndexState { apps: Arc::new(Vec::new()), last_seq: 0 }
    }

    /// Keep a snapshot only when it is newer than the current one; true
    /// when it was kept.
    pub fn update(&mut self, update: AppIndexUpdate) -> (r: bool)
        ensures
            r == (update.seq > old(self).last_seq),
            r ==> final(self).last_seq == update.seq && final(self).apps == update.apps,
            !r ==> final(self).last_seq == old(self).last_seq && final(self).apps == old(self).apps,
    {
        if update.seq > self.last_seq {
            self.last_seq = update.seq;
            self.apps = update.apps;
            true
        } else {
            false
        }
    }
}

impl Default for AppIndexState {
    fn default() -> (r: Self)
        ensures
            r.last_seq == 0,
            r.apps@.len() == 0,
    {
        AppIndexState::new()
    }
}

/// `x` clamped into `lo..=hi`.
pub open spec fn clamp_int(x: int, lo: int, hi: int) -> int {
    if x < lo {
        lo
    } else if x > hi {
        hi
    } else {
        x
    }
}

/// Palette size for a screen: 55% of each side, the width kept within
/// 560..=920 and the height within 450..=760.
pub fn adaptive_window_size(screen_width: i32, screen_height: i32) -> (r: (i32, i32))
    requires
        screen_width * 55 <= i32::MAX,
        screen_height * 55 <= i32::MAX,
        screen_width * 55 >= i32::MIN,
        screen_height * 55 >= i32::MIN,
    ensures
        screen_width >= 0 ==> r.0 == clamp_int(screen_width * 55 / 100, 560, 920),
        screen_width < 0 ==> r.0 == 560,
        screen_height >= 0 ==> r.1 == clamp_int(screen_height * 55 / 100, 450, 760),
        screen_height < 0 ==> r.1 == 450,
{
    let w = if screen_width < 0 {
        560
    } else {
        let x = screen_width * 55 / 100;
        if x < 560 {
            560
        } else if x > 920 {
            920
        } else {
            x
        }
    };
    let h = if screen_height < 0 {
        450
    } else {
        let y = screen_height * 55 / 100;
        if y < 450 {
            450
        } else if y > 760 {
            760
        } else {
            y
        }
    };
    (w, h)
}

/// Program names routed through the browser wrapper (ASCII case ignored,
/// matched at the end of the program path).
pub open spec fn is_browser_program(p: Seq<char>) -> bool {
    let l = lower(p);
    ||| ends_with(l, "firefox"@)
    ||| ends_with(l, "firefox-esr"@)
    ||| ends_with(l, "chromium"@)
    ||| ends_with(l, "chromium-browser"@)
    ||| ends_with(l, "chrome"@)
    ||| ends_with(l, "google-chrome"@)
    ||| ends_with(l, "brave"@)
    ||| ends_with(l, "brave-browser"@)
    ||| ends_with(l, "epiphany"@)
}

/// Whether a program is a web browser the session wraps.
pub fn is_browser_command(program: &str) -> (r: bool)
    ensures
        r == is_browser_program(program@),
{
    let p = str_chars(program);
    let l = lower_chars(&p);
    ends_with_str(&l, "firefox") || ends_with_str(&l, "firefox-esr") || ends_with_str(
        &l,
        "chromium",
    ) || ends_with_str(&l, "chromium-browser") || ends_with_str(&l, "chrome") || ends_with_str(
        &l,
        "google-chrome",
    ) || ends_with_str(&l, "brave") || ends_with_str(&l, "brave-browser") || ends_with_str(
        &l,
        "epiphany",
    )
}

/// Accessible name of a result row: the name, with ` — comment` when it
/// has one.
pub fn accessible_row_name(app: &DesktopApp) -> (r: String)
    ensures
        r@ == if app.comment@.len() == 0 {
            app.name@
        } else {
            app.name@ + " — "@ + app.comment@
        },
{
    if str_is_empty(app.comment.as_str()) {
        return owned(app.name.as_str());
    }
    let mut v = str_chars(app.name.as_str());
    push_str_chars(&mut v, " — ");
    let c = str_chars(app.comment.as_str());
    push_chars(&mut v, &c);
    chars_to_string(&v)
}

/// Status line under the results.
pub fn matching_status_text(count: usize) -> (r: String)
    ensures
        r@ == dec(count as nat) + " matching applications"@,
{
    let mut v: Vec<char> = Vec::new();
    push_decimal(&mut v, count as u64);
    push_str_chars(&mut v, " matching applications");
    chars_to_string(&v)
}

/// The command line that launches `app`, given where the lookups found the
/// terminals and the browser wrapper: a terminal application runs under the
/// first terminal found (`-e` then its arguments), a browser through the
/// wrapper (with the browser's arguments), anything else as it is. `None`
/// for an application without a program.
pub open spec fn launch_argv_of(
    app: AppModel,
    xfce4_terminal: Option<Seq<char>>,
    xterm: Option<Seq<char>>,
    browser_wrapper: Option<Seq<char>>,
) -> Option<Seq<Seq<char>>> {
    if app.argv.len() == 0 {
        None
    } else {
        let program = app.argv[0];
        let args = app.argv.skip(1);
        let terminal = if xfce4_terminal is Some {
            xfce4_terminal
        } else {
            xterm
        };
        if app.terminal && terminal is Some {
            Some(seq![terminal->Some_0, "-e"@, program] + args)
        } else if is_browser_program(program) && browser_wrapper is Some {
            Some(seq![browser_wrapper->Some_0] + args)
        } else {
            Some(app.argv)
        }
    }
}

/// Command line for launching an application (program first).
pub fn launch_argv(
    app: &DesktopApp,
    xfce4_terminal: Option<&str>,
    xterm: Option<&str>,
    browser_wrapper: Option<&str>,
) -> (r: Option<Vec<String>>)
    ensures
        match r {
            Some(v) => launch_argv_of(
                app@,
                match xfce4_terminal {
                    Some(t) => Some(t@),
                    None => None,
                },
                match xterm {
                    Some(t) => Some(t@),
                    None => None,
                },
                match browser_wrapper {
                    Some(t) => Some(t@),
                    None => None,
                },
            ) == Some(string_views(v@)),
            None => app.argv@.len() == 0,
        },
{
    if app.argv.len() == 0 {
        return None;
    }
    let program = app.argv[0].as_str();
    let mut out: Vec<String> = Vec::new();
    let terminal = match xfce4_terminal {
        Some(t) => Some(t),
        None => xterm,
    };
    let mut rest_from: usize = 1;
    if app.terminal && terminal.is_some() {
        out.push(owned(terminal.unwrap()));
        out.push(owned("-e"));
        out.push(owned(program));
    } else if is_browser_command(program) && browser_wrapper.is_some() {
        out.push(owned(browser_wrapper.unwrap()));
    } else {
        rest_from = 0;
    }
    let ghost head = string_views(out@);
    let mut i: usize = rest_from;
    while i < app.argv.len()
        invariant
            rest_from <= i <= app.argv@.len(),
            string_views(out@) == head + string_views(app.argv@).subrange(rest_from as int, i as int),
        decreases app.argv@.len() - i,
    {
        let ghost before = string_views(out@);
        out.push(app.argv[i].clone());
        assert(string_views(out@) =~= before.push(app.argv@[i as int]@));
        assert(string_views(app.argv@).subrange(rest_from as int, i + 1) =~= string_views(
            app.argv@,
        ).subrange(rest_from as int, i as int).push(app.argv@[i as int]@));
        i = i + 1;
    }
    proof {
        let av = string_views(app.argv@);
        assert(av.skip(1) =~= av.subrange(1, av.len() as int));
        assert(av =~= av.subrange(0, av.len() as int));
    }
    Some(out)
}

/// The text an application's role is read from: id, name and program,
/// space-separated, ASCII-lowercased.
pub open spec fn role_haystack(app: AppModel) -> Seq<char> {
    let command = if app.argv.len() > 0 {
        app.argv[0]
    } else {
        Seq::empty()
    };
    lower(app.id + " "@ + app.name + " "@ + command)
}

/// `h` contains one of the words.
pub open spec fn mentions_any(h: Seq<char>, words: Seq<Seq<char>>) -> bool {
    exists|i: int| 0 <= i < words.len() && crate::text::contains_seq(h, #[trigger] words[i])
}

/// The themed icon file for an application's role, by the first matching
/// group of words: files, terminal, text editor, browser, games, settings,
/// software.
pub open spec fn role_icon_of(app: AppModel) -> Option<Seq<char>> {
    let h = role_haystack(app);
    if mentions_any(h, seq!["file"@, "pcmanfm"@, "thunar"@]) {
        Some("folder.svg"@)
    } else if mentions_any(h, seq!["term"@, "xterm"@]) {
        Some("terminal.svg"@)
    } else if mentions_any(h, seq!["text"@, "gedit"@, "mousepad"@]) {
        Some("textedit.svg"@)
    } else if mentions_any(h, seq!["browser"@, "firefox"@, "chrome"@]) {
        Some("browser.svg"@)
    } else if mentions_any(h, seq!["game"@, "doom"@, "supertux"@]) {
        Some("game.svg"@)
    } else if mentions_any(h, seq!["settings"@, "control"@]) {
        Some("settings.svg"@)
    } else if mentions_any(h, seq!["software"@, "package"@, "catalogue"@]) {
        Some("software.svg"@)
    } else {
        None
    }
}

fn mentions_any_exec(h: &[char], words: &[&str]) -> (r: bool)
    ensures
        r == mentions_any(h@, Seq::new(words@.len(), |i: int| words@[i]@)),
{
    let ghost ws = Seq::new(words@.len(), |i: int| words@[i]@);
    let mut i: usize = 0;
    while i < words.len()
        invariant
            i <= words@.len(),
            ws == Seq::new(words@.len(), |i: int| words@[i]@),
            forall|j: int| 0 <= j < i ==> !crate::text::contains_seq(h@, #[trigger] ws[j]),
        decreases words@.len() - i,
    {
        if crate::text::contains_str(h, words[i]) {
            assert(crate::text::contains_seq(h@, ws[i as int]));
            return true;
        }
        i = i + 1;
    }
    false
}

/// The themed icon file for an application's role (see [`role_icon_of`]).
pub fn role_icon_file(app: &DesktopApp) -> (r: Option<&'static str>)
    ensures
        match r {
            Some(f) => role_icon_of(app@) == Some(f@),
            None => role_icon_of(app@) is None,
        },
{
    let mut v = str_chars(app.id.as_str());
    push_str_chars(&mut v, " ");
    push_str_chars(&mut v, app.name.as_str());
    push_str_chars(&mut v, " ");
    if app.argv.len() > 0 {
        push_str_chars(&mut v, app.argv[0].as_str());
    }
    proof {
        let command = if app@.argv.len() > 0 {
            app@.argv[0]
        } else {
            Seq::empty()
        };
        assert(app.argv@.len() == app@.argv.len());
        if app.argv@.len() > 0 {
            assert(app@.argv[0] == app.argv@[0]@);
        }
        assert(v@ =~= app@.id + " "@ + app@.name + " "@ + command);
    }
    let h = lower_chars(&v);
    let hit = mentions_any_exec(&h, &["file", "pcmanfm", "thunar"]);
    proof {
        assert(Seq::new(3, |i: int| ["file", "pcmanfm", "thunar"]@[i]@) =~= seq!["file"@, "pcmanfm"@, "thunar"@]);
    }
    if hit {
        return Some("folder.svg");
    }
    let hit = mentions_any_exec(&h, &["term", "xterm"]);
    proof {
        assert(Seq::new(2, |i: int| ["term", "xterm"]@[i]@) =~= seq!["term"@, "xterm"@]);
    }
    if hit {
        return Some("terminal.svg");
    }
    let hit = mentions_any_exec(&h, &["text", "gedit", "mousepad"]);
    proof {
        assert(Seq::new(3, |i: int| ["text", "gedit", "mousepad"]@[i]@) =~= seq!["text"@, "gedit"@, "mousepad"@]);
    }
    if hit {
        return Some("textedit.svg");
    }
    let hit = mentions_any_exec(&h, &["browser", "firefox", "chrome"]);
    proof {
        assert(Seq::new(3, |i: int| ["browser", "firefox", "chrome"]@[i]@) =~= seq!["browser"@, "firefox"@, "chrome"@]);
    }
    if hit {
        return Some("browser.svg");
    }
    let hit = mentions_any_exec(&h, &["game", "doom", "supertux"]);
    proof {
        assert(Seq::new(3, |i: int| ["game", "doom", "supertux"]@[i]@) =~= seq!["game"@, "doom"@, "supertux"@]);
    }
    if hit {
        return Some("game.svg");
    }
    let hit = mentions_any_exec(&h, &["settings", "control"]);
    proof {
        assert(Seq::new(2, |i: int| ["settings", "control"]@[i]@) =~= seq!["settings"@, "control"@]);
    }
    if hit {
        return Some("settings.svg");
    }
    let hit = mentions_any_exec(&h, &["software", "package", "catalogue"]);
    proof {
        assert(Seq::new(3, |i: int| ["software", "package", "catalogue"]@[i]@) =~= seq!["software"@, "package"@, "catalogue"@]);
    }
    if hit {
        return Some("software.svg");
    }
    None
}

/// The row selected after an arrow key moves the selection by `direction`
/// among `rows` rows: from the selected row (the first when none is), kept
/// within the list; no row when the list is empty.
pub fn next_selection_index(selected: Option<usize>, rows: usize, direction: isize) -> (r: Option<
    usize,
>)
    requires
        rows <= isize::MAX,
        ({
            let cur = match selected {
                Some(c) => c as int,
                None => 0,
            };
            isize::MIN <= cur + direction <= isize::MAX && cur <= isize::MAX
        }),
    ensures
        rows == 0 ==> r is None,
        rows > 0 ==> r == Some(
            clamp_int(
                match selected {
                    Some(c) => c as int,
                    None => 0,
                } + direction,
                0,
                rows - 1,
            ) as usize,
        ),
{
    if rows == 0 {
        return None;
    }
    let current: isize = match selected {
        Some(c) => c as isize,
        None => 0,
    };
    let moved = current + direction;
    let last = (rows - 1) as isize;
    let next = if moved < 0 {
        0
    } else if moved > last {
        last
    } else {
        moved
    };
    Some(next as usize)
}

} // verus!

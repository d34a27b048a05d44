use vstd::prelude::*;
use vstd::string::*;
use crate::library::{CharacterLibrary, CharacterView, paths_unique};
use crate::paths::opt_view;
use crate::text::str_equal;

verus! {

pub open spec fn key_prefix() -> Seq<char> {
    seq!['c', 'h', 'a', 'r', 'a', 'c', 't', 'e', 'r', ':']
}

/// The identity of a character's overlay window: a function of its path alone.
pub open spec fn session_key_spec(path: Seq<char>) -> Seq<char> {
    key_prefix() + path
}

/// The key from which a character's window identity is hashed.
pub fn session_key(path: &str) -> (r: String)
    ensures
        r@ == session_key_spec(path@),
{
    proof {
        reveal_strlit("character:");
    }
    let mut r = String::from_str("character:");
    r.append(path);
    assert(r@ =~= session_key_spec(path@));
    r
}

/// Presentation state of one enabled character.
pub struct Session {
    pub key: String,
    pub path: String,
    pub show_settings: bool,
}

pub struct SessionView {
    pub key: Seq<char>,
    pub path: Seq<char>,
    pub show_settings: bool,
}

impl View for Session {
    type V = SessionView;

    open spec fn view(&self) -> SessionView {
        SessionView { key: self.key@, path: self.path@, show_settings: self.show_settings }
    }
}

/// State of the main control surface and of the character windows.
pub struct Shell {
    pub main_visible: bool,
    pub allow_main_close: bool,
    pub active_character: Option<String>,
    pub sessions: Vec<Session>,
}

pub struct ShellView {
    pub main_visible: bool,
    pub allow_main_close: bool,
    pub active: Option<Seq<char>>,
    pub sessions: Seq<SessionView>,
}

impl View for Shell {
    type V = ShellView;

    open spec fn view(&self) -> ShellView {
        ShellView {
            main_visible: self.main_visible,
            allow_main_close: self.allow_main_close,
            active: opt_view(self.active_character),
            sessions: self.sessions@.map_values(|s: Session| s@),
        }
    }
}

/// Sessions are keyed by path: one per path, each under the key its path gives.
pub open spec fn sessions_wf(ss: Seq<SessionView>) -> bool {
    &&& forall|i: int, j: int|
        0 <= i < ss.len() && 0 <= j < ss.len() && i != j ==> #[trigger] ss[i].path
            != #[trigger] ss[j].path
    &&& forall|i: int| 0 <= i < ss.len() ==> #[trigger] ss[i].key == session_key_spec(ss[i].path)
}

/// The position of the session for `path` from position `i` on, or -1.
pub open spec fn find_from(ss: Seq<SessionView>, path: Seq<char>, i: int) -> int
    decreases ss.len() - i,
{
    if i < 0 || i >= ss.len() {
        -1
    } else if ss[i].path == path {
        i
    } else {
        find_from(ss, path, i + 1)
    }
}

pub open spec fn find_session_spec(ss: Seq<SessionView>, path: Seq<char>) -> int {
    find_from(ss, path, 0)
}

pub open spec fn new_session(path: Seq<char>, show_settings: bool) -> SessionView {
    SessionView { key: session_key_spec(path), path, show_settings }
}

/// Sessions after a character's window is opened: unchanged where one exists.
pub open spec fn open_spec(ss: Seq<SessionView>, path: Seq<char>) -> Seq<SessionView> {
    if find_session_spec(ss, path) >= 0 {
        ss
    } else {
        ss.push(new_session(path, false))
    }
}

/// Sessions after a character's window is closed.
pub open spec fn close_spec(ss: Seq<SessionView>, path: Seq<char>) -> Seq<SessionView> {
    let i = find_session_spec(ss, path);
    if i >= 0 {
        ss.remove(i)
    } else {
        ss
    }
}

/// Sessions after the settings panel of a character is flipped (a session is made where none exists).
pub open spec fn toggle_settings_spec(ss: Seq<SessionView>, path: Seq<char>) -> Seq<SessionView> {
    let i = find_session_spec(ss, path);
    if i >= 0 {
        ss.update(i, SessionView { show_settings: !ss[i].show_settings, ..ss[i] })
    } else {
        ss.push(new_session(path, true))
    }
}

/// The active character after the window of `path` is closed.
pub open spec fn active_after_close(active: Option<Seq<char>>, path: Seq<char>) -> Option<Seq<char>> {
    if active == Some(path) {
        None
    } else {
        active
    }
}

proof fn lemma_find_from_bounds(ss: Seq<SessionView>, path: Seq<char>, i: int)
    ensures
        -1 <= find_from(ss, path, i) < ss.len(),
        find_from(ss, path, i) >= 0 ==> ss[find_from(ss, path, i)].path == path && find_from(ss, path, i) >= i,
        find_from(ss, path, i) < 0 && 0 <= i ==> forall|k: int| i <= k < ss.len() ==> #[trigger] ss[k].path != path,
    decreases ss.len() - i,
{
    if 0 <= i < ss.len() && ss[i].path != path {
        lemma_find_from_bounds(ss, path, i + 1);
    }
}

/// Facts about session lookup used by the callers below.
pub proof fn lemma_find_session(ss: Seq<SessionView>, path: Seq<char>)
    ensures
        -1 <= find_session_spec(ss, path) < ss.len(),
        find_session_spec(ss, path) >= 0 ==> ss[find_session_spec(ss, path)].path == path,
        find_session_spec(ss, path) < 0 ==> forall|k: int| 0 <= k < ss.len() ==> #[trigger] ss[k].path != path,
{
    lemma_find_from_bounds(ss, path, 0);
}

impl Shell {
    pub open spec fn wf(&self) -> bool {
        sessions_wf(self@.sessions)
    }

    /// The start state: main surface shown, closing it hides it, nothing active, no windows.
    pub fn new() -> (r: Self)
        ensures
            r@.main_visible,
            !r@.allow_main_close,
            r@.active is None,
            r@.sessions.len() == 0,
            r.wf(),
    {
        Shell { main_visible: true, allow_main_close: false, active_character: None, sessions: Vec::new() }
    }

    /// The position of the session for `path`, if there is one.
    pub fn find_session(&self, path: &str) -> (r: Option<usize>)
        ensures
            match r {
                Some(i) => i as int == find_session_spec(self@.sessions, path@),
                None => find_session_spec(self@.sessions, path@) == -1,
            },
    {
        let mut i: usize = 0;
        while i < self.sessions.len()
            invariant
                i <= self.sessions@.len(),
                self@.sessions.len() == self.sessions@.len(),
                find_session_spec(self@.sessions, path@) == find_from(self@.sessions, path@, i as int),
            decreases self.sessions.len() - i,
        {
            if str_equal(self.sessions[i].path.as_str(), path) {
                return Some(i);
            }
            i = i + 1;
        }
        None
    }

    /// Whether the settings panel of the character at `path` is open.
    pub fn show_settings(&self, path: &str) -> (r: bool)
        ensures
            r == (find_session_spec(self@.sessions, path@) >= 0 && self@.sessions[find_session_spec(
                self@.sessions,
                path@,
            )].show_settings),
    {
        proof {
            lemma_find_session(self@.sessions, path@);
        }
        match self.find_session(path) {
            Some(i) => self.sessions[i].show_settings,
            None => false,
        }
    }

    /// Makes sure the character at `path` has a session.
    pub fn open_session(&mut self, path: &str)
        ensures
            final(self)@ == (ShellView { sessions: open_spec(old(self)@.sessions, path@), ..old(self)@ }),
            old(self).wf() ==> final(self).wf(),
    {
        proof {
            lemma_find_session(self@.sessions, path@);
        }
        match self.find_session(path) {
            Some(_) => {},
            None => {
                let ghost before = self@.sessions;
                self.sessions.push(Session { key: session_key(path), path: path.to_owned(), show_settings: false });
                assert(self@.sessions =~= before.push(new_session(path@, false)));
            },
        }
    }

    /// Drops the session of the character at `path`; it stops being the active one.
    pub fn close_session(&mut self, path: &str)
        ensures
            final(self)@ == (ShellView {
                sessions: close_spec(old(self)@.sessions, path@),
                active: active_after_close(old(self)@.active, path@),
                ..old(self)@
            }),
            old(self).wf() ==> final(self).wf(),
    {
        proof {
            lemma_find_session(self@.sessions, path@);
        }
        match self.find_session(path) {
            Some(i) => {
                let ghost before = self@.sessions;
                self.sessions.remove(i);
                assert(self@.sessions =~= before.remove(i as int));
                proof {
                    if sessions_wf(before) {
                        assert forall|a: int, b: int|
                            0 <= a < self@.sessions.len() && 0 <= b < self@.sessions.len() && a != b implies #[trigger] self@.sessions[a].path
                                != #[trigger] self@.sessions[b].path by {
                            let a0 = if a < i { a } else { a + 1 };
                            let b0 = if b < i { b } else { b + 1 };
                            assert(self@.sessions[a] == before[a0]);
                            assert(self@.sessions[b] == before[b0]);
                        }
                        assert forall|a: int| 0 <= a < self@.sessions.len() implies #[trigger] self@.sessions[a].key
                            == session_key_spec(self@.sessions[a].path) by {
                            let a0 = if a < i { a } else { a + 1 };
                            assert(self@.sessions[a] == before[a0]);
                        }
                    }
                }
            },
            None => {},
        }
        let clear = match &self.active_character {
            Some(a) => str_equal(a.as_str(), path),
            None => false,
        };
        if clear {
            self.active_character = None;
        }
    }

    /// Flips the settings panel of the character at `path`.
    pub fn toggle_settings(&mut self, path: &str)
        ensures
            final(self)@ == (ShellView { sessions: toggle_settings_spec(old(self)@.sessions, path@), ..old(self)@ }),
            old(self).wf() ==> final(self).wf(),
    {
        proof {
            lemma_find_session(self@.sessions, path@);
        }
        match self.find_session(path) {
            Some(i) => {
                let ghost before = self@.sessions;
                let flipped = !self.sessions[i].show_settings;
                self.sessions[i].show_settings = flipped;
                assert(self@.sessions =~= before.update(
                    i as int,
                    SessionView { show_settings: !before[i as int].show_settings, ..before[i as int] },
                ));
            },
            None => {
                let ghost before = self@.sessions;
                self.sessions.push(Session { key: session_key(path), path: path.to_owned(), show_settings: true });
                assert(self@.sessions =~= before.push(new_session(path@, true)));
            },
        }
    }

    /// Makes the character at `path` the one that keyboard gestures address.
    pub fn activate(&mut self, path: &str)
        ensures
            final(self)@ == (ShellView { active: Some(path@), ..old(self)@ }),
            old(self).wf() ==> final(self).wf(),
    {
        self.active_character = Some(path.to_owned());
    }

    /// A request to close the main surface. Returns whether the application may quit;
    /// where it may not, the main surface is hidden instead.
    pub fn main_close_requested(&mut self) -> (r: bool)
        ensures
            r == old(self)@.allow_main_close,
            final(self)@ == (ShellView { main_visible: old(self)@.main_visible && r, ..old(self)@ }),
            old(self).wf() ==> final(self).wf(),
    {
        if self.allow_main_close {
            true
        } else {
            self.main_visible = false;
            false
        }
    }

    /// The explicit exit action: from now on closing the main surface quits.
    pub fn exit_requested(&mut self)
        ensures
            final(self)@ == (ShellView { allow_main_close: true, ..old(self)@ }),
            old(self).wf() ==> final(self).wf(),
    {
        self.allow_main_close = true;
    }

    /// Shows the main surface where it was hidden and hides it where it was shown.
    /// Returns whether it is now shown (and then should receive focus).
    pub fn toggle_main(&mut self) -> (r: bool)
        ensures
            r == !old(self)@.main_visible,
            final(self)@ == (ShellView { main_visible: r, ..old(self)@ }),
            old(self).wf() ==> final(self).wf(),
    {
        self.main_visible = !self.main_visible;
        self.main_visible
    }
}

proof fn lemma_find_from_push(ss: Seq<SessionView>, x: SessionView, i: int)
    requires
        0 <= i <= ss.len(),
        forall|k: int| i <= k < ss.len() ==> #[trigger] ss[k].path != x.path,
    ensures
        find_from(ss.push(x), x.path, i) == ss.len(),
    decreases ss.len() - i,
{
    if i < ss.len() {
        assert(ss.push(x)[i] == ss[i]);
        lemma_find_from_bounds(ss, x.path, i);
        lemma_find_from_push(ss, x, i + 1);
    }
}

/// Opening keeps sessions keyed by path, and leaves one for `path` under the key its path gives.
pub proof fn lemma_open_spec(ss: Seq<SessionView>, path: Seq<char>)
    requires
        sessions_wf(ss),
    ensures
        sessions_wf(open_spec(ss, path)),
        find_session_spec(open_spec(ss, path), path) >= 0,
        open_spec(ss, path)[find_session_spec(open_spec(ss, path), path)].key == session_key_spec(path),
{
    lemma_find_session(ss, path);
    if find_session_spec(ss, path) < 0 {
        let r = ss.push(new_session(path, false));
        lemma_find_from_push(ss, new_session(path, false), 0);
        assert forall|i: int, j: int|
            0 <= i < r.len() && 0 <= j < r.len() && i != j implies #[trigger] r[i].path
                != #[trigger] r[j].path by {
            if i == ss.len() {
                assert(r[j] == ss[j]);
            } else if j == ss.len() {
                assert(r[i] == ss[i]);
            } else {
                assert(r[i] == ss[i] && r[j] == ss[j]);
            }
        }
        assert forall|i: int| 0 <= i < r.len() implies #[trigger] r[i].key == session_key_spec(r[i].path) by {
            if i < ss.len() {
                assert(r[i] == ss[i]);
            }
        }
    }
}

/// Closing keeps sessions keyed by path.
pub proof fn lemma_close_spec(ss: Seq<SessionView>, path: Seq<char>)
    requires
        sessions_wf(ss),
    ensures
        sessions_wf(close_spec(ss, path)),
{
    lemma_find_session(ss, path);
    let i = find_session_spec(ss, path);
    if i >= 0 {
        let r = ss.remove(i);
        assert forall|a: int, b: int|
            0 <= a < r.len() && 0 <= b < r.len() && a != b implies #[trigger] r[a].path
                != #[trigger] r[b].path by {
            let a0 = if a < i { a } else { a + 1 };
            let b0 = if b < i { b } else { b + 1 };
            assert(r[a] == ss[a0]);
            assert(r[b] == ss[b0]);
        }
        assert forall|a: int| 0 <= a < r.len() implies #[trigger] r[a].key == session_key_spec(r[a].path) by {
            let a0 = if a < i { a } else { a + 1 };
            assert(r[a] == ss[a0]);
        }
    }
}

/// Library and shell after the list entry `index` is switched on or off.
pub open spec fn toggle_spec(cs: Seq<CharacterView>, sh: ShellView, index: int) -> (Seq<CharacterView>, ShellView) {
    if index < 0 || index >= cs.len() {
        (cs, sh)
    } else {
        let on = !cs[index].enabled;
        let p = cs[index].path;
        let cs2 = cs.update(index, CharacterView { enabled: on, ..cs[index] });
        if on {
            (cs2, ShellView { sessions: open_spec(sh.sessions, p), ..sh })
        } else {
            (cs2, ShellView {
                sessions: close_spec(sh.sessions, p),
                active: active_after_close(sh.active, p),
                ..sh
            })
        }
    }
}

/// Switches the list entry `index` on or off, opening or closing its window.
/// Returns whether the library changed (and must be written out).
pub fn toggle_character(lib: &mut CharacterLibrary, shell: &mut Shell, index: usize) -> (r: bool)
    ensures
        r == (index < old(lib)@.len()),
        (final(lib)@, final(shell)@) == toggle_spec(old(lib)@, old(shell)@, index as int),
        old(lib).wf() ==> final(lib).wf(),
        old(shell).wf() ==> final(shell).wf(),
{
    if index >= lib.characters.len() {
        return false;
    }
    let on = !lib.characters[index].enabled;
    let path = lib.characters[index].path.clone();
    lib.set_enabled(index, on);
    if on {
        shell.open_session(path.as_str());
    } else {
        shell.close_session(path.as_str());
    }
    true
}

/// Removes the list entry `index` and its window. Returns whether the library changed.
pub fn remove_entry(lib: &mut CharacterLibrary, shell: &mut Shell, index: usize) -> (r: bool)
    ensures
        r == (index < old(lib)@.len()),
        r ==> final(lib)@ == old(lib)@.remove(index as int) && final(shell)@ == (ShellView {
            sessions: close_spec(old(shell)@.sessions, old(lib)@[index as int].path),
            active: active_after_close(old(shell)@.active, old(lib)@[index as int].path),
            ..old(shell)@
        }),
        !r ==> final(lib)@ == old(lib)@ && final(shell)@ == old(shell)@,
        old(lib).wf() ==> final(lib).wf(),
        old(shell).wf() ==> final(shell).wf(),
{
    if index >= lib.characters.len() {
        return false;
    }
    let path = lib.characters[index].path.clone();
    lib.remove_character(index);
    shell.close_session(path.as_str());
    true
}

/// The user closed the window of entry `index` directly: the entry is switched off
/// and its session dropped. Returns whether the library changed.
pub fn window_closed(lib: &mut CharacterLibrary, shell: &mut Shell, index: usize) -> (r: bool)
    ensures
        r == (index < old(lib)@.len()),
        r ==> final(lib)@ == old(lib)@.update(
            index as int,
            CharacterView { enabled: false, ..old(lib)@[index as int] },
        ) && final(shell)@ == (ShellView {
            sessions: close_spec(old(shell)@.sessions, old(lib)@[index as int].path),
            active: active_after_close(old(shell)@.active, old(lib)@[index as int].path),
            ..old(shell)@
        }),
        !r ==> final(lib)@ == old(lib)@ && final(shell)@ == old(shell)@,
        old(lib).wf() ==> final(lib).wf(),
        old(shell).wf() ==> final(shell).wf(),
{
    if index >= lib.characters.len() {
        return false;
    }
    let path = lib.characters[index].path.clone();
    lib.set_enabled(index, false);
    shell.close_session(path.as_str());
    true
}

/// After a file was added: where an entry with exactly `path` exists, it is switched
/// on, given a window and made active. Returns whether the library changed.
pub fn enable_added(lib: &mut CharacterLibrary, shell: &mut Shell, path: &str) -> (r: bool)
    ensures
        r == crate::library::contains_path(old(lib)@, path@),
        r ==> exists|i: int|
            0 <= i < old(lib)@.len() && old(lib)@[i].path == path@ && final(lib)@ == old(lib)@.update(
                i,
                CharacterView { enabled: true, ..old(lib)@[i] },
            ),
        r ==> final(shell)@ == (ShellView {
            sessions: open_spec(old(shell)@.sessions, path@),
            active: Some(path@),
            ..old(shell)@
        }),
        !r ==> final(lib)@ == old(lib)@ && final(shell)@ == old(shell)@,
        old(lib).wf() ==> final(lib).wf(),
        old(shell).wf() ==> final(shell).wf(),
{
    match lib.index_by_path(path) {
        Some(i) => {
            lib.set_enabled(i, true);
            shell.open_session(path);
            shell.activate(path);
            true
        },
        None => false,
    }
}

/// The positions of the enabled entries, in library order: the windows to show this frame.
pub fn enabled_indices(lib: &CharacterLibrary) -> (r: Vec<usize>)
    ensures
        forall|k: int| 0 <= k < r@.len() ==> #[trigger] r@[k] < lib@.len() && lib@[r@[k] as int].enabled,
        forall|k: int, l: int| 0 <= k < l < r@.len() ==> #[trigger] r@[k] < #[trigger] r@[l],
        forall|i: int| 0 <= i < lib@.len() && #[trigger] lib@[i].enabled ==> r@.contains(i as usize),
{
    let mut r: Vec<usize> = Vec::new();
    let mut i: usize = 0;
    while i < lib.characters.len()
        invariant
            i <= lib@.len(),
            lib@.len() == lib.characters@.len(),
            forall|k: int| 0 <= k < r@.len() ==> #[trigger] r@[k] < i && lib@[r@[k] as int].enabled,
            forall|k: int, l: int| 0 <= k < l < r@.len() ==> #[trigger] r@[k] < #[trigger] r@[l],
            forall|j: int| 0 <= j < i && #[trigger] lib@[j].enabled ==> r@.contains(j as usize),
        decreases lib.characters.len() - i,
    {
        if lib.characters[i].enabled {
            let ghost before = r@;
            r.push(i);
            assert forall|j: int| 0 <= j < i + 1 && #[trigger] lib@[j].enabled implies r@.contains(j as usize) by {
                if j < i {
                    let k = choose|k: int| 0 <= k < before.len() && before[k] == j as usize;
                    assert(r@[k] == j as usize);
                } else {
                    assert(r@[before.len() as int] == i);
                }
            }
        }
        i = i + 1;
    }
    r
}

/// Switching an entry on, off, and on again gives its window the same identity
/// both times it is on: the key that its path alone determines.
pub proof fn lemma_reenable_same_identity(cs: Seq<CharacterView>, sh: ShellView, index: int)
    requires
        0 <= index < cs.len(),
        !cs[index].enabled,
        sessions_wf(sh.sessions),
    ensures
        ({
            let p = cs[index].path;
            let (c1, s1) = toggle_spec(cs, sh, index);
            let (c2, s2) = toggle_spec(c1, s1, index);
            let (c3, s3) = toggle_spec(c2, s2, index);
            &&& c1[index].enabled && !c2[index].enabled && c3[index].enabled
            &&& find_session_spec(s1.sessions, p) >= 0
            &&& find_session_spec(s3.sessions, p) >= 0
            &&& s1.sessions[find_session_spec(s1.sessions, p)].key == session_key_spec(p)
            &&& s3.sessions[find_session_spec(s3.sessions, p)].key == s1.sessions[find_session_spec(
                s1.sessions,
                p,
            )].key
        }),
{
    let p = cs[index].path;
    let (c1, s1) = toggle_spec(cs, sh, index);
    lemma_open_spec(sh.sessions, p);
    let (c2, s2) = toggle_spec(c1, s1, index);
    assert(c1[index].path == p);
    lemma_close_spec(s1.sessions, p);
    let (c3, s3) = toggle_spec(c2, s2, index);
    assert(c2[index].path == p);
    lemma_open_spec(s2.sessions, p);
}

} // verus!

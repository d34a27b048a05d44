use vstd::prelude::*;
use vstd::string::*;
use crate::media::{accepts_path, has_media_extension_of, is_apng_path, needs_conversion};
use crate::paths::{file_stem, file_stem_of, opt_view};
use crate::text::str_equal;

verus! {

/// Bit pattern of the `f32` value `1.0`, the default scale.
pub const SCALE_ONE: u32 = 0x3f80_0000;

/// A screen point, each coordinate held as the bit pattern of an `f32`.
#[derive(Clone, Copy, PartialEq, Eq, Structural, Debug)]
pub struct WindowPoint {
    pub x: u32,
    pub y: u32,
}

/// One library entry.
#[derive(Debug, Clone)]
pub struct Character {
    pub name: String,
    /// Path of the playable media file; unique within a library.
    pub path: String,
    pub enabled: bool,
    /// Frames per second; `0` keeps the media's own timing.
    pub speed: i64,
    /// Bit pattern of the `f32` multiplier of the base render size.
    pub scale: u32,
    pub window_pos: Option<WindowPoint>,
    pub window_size: Option<WindowPoint>,
}

pub struct CharacterView {
    pub name: Seq<char>,
    pub path: Seq<char>,
    pub enabled: bool,
    pub speed: i64,
    pub scale: u32,
    pub window_pos: Option<WindowPoint>,
    pub window_size: Option<WindowPoint>,
}

impl View for Character {
    type V = CharacterView;

    open spec fn view(&self) -> CharacterView {
        CharacterView {
            name: self.name@,
            path: self.path@,
            enabled: self.enabled,
            speed: self.speed,
            scale: self.scale,
            window_pos: self.window_pos,
            window_size: self.window_size,
        }
    }
}

/// Ordered collection of characters; the order is the display order.
#[derive(Debug, Clone)]
pub struct CharacterLibrary {
    pub characters: Vec<Character>,
}

impl Default for CharacterLibrary {
    /// The empty library.
    fn default() -> (r: Self)
        ensures
            r@ == Seq::<CharacterView>::empty(),
    {
        CharacterLibrary::new()
    }
}

impl View for CharacterLibrary {
    type V = Seq<CharacterView>;

    open spec fn view(&self) -> Seq<CharacterView> {
        self.characters@.map_values(|c: Character| c@)
    }
}

/// No two entries share a path.
pub open spec fn paths_unique(cs: Seq<CharacterView>) -> bool {
    forall|i: int, j: int|
        0 <= i < cs.len() && 0 <= j < cs.len() && i != j ==> #[trigger] cs[i].path
            != #[trigger] cs[j].path
}

pub open spec fn contains_path(cs: Seq<CharacterView>, path: Seq<char>) -> bool {
    exists|i: int| 0 <= i < cs.len() && #[trigger] cs[i].path == path
}

/// A freshly added entry: disabled, native speed, scale one, never placed.
pub open spec fn new_character(name: Seq<char>, path: Seq<char>) -> CharacterView {
    CharacterView {
        name,
        path,
        enabled: false,
        speed: 0,
        scale: SCALE_ONE,
        window_pos: None,
        window_size: None,
    }
}

/// The library after adding `path` under `name`: unchanged where the extension is
/// not playable or the path is already present, else the new entry at the end.
pub open spec fn add_named_spec(cs: Seq<CharacterView>, path: Seq<char>, name: Seq<char>) -> Seq<
    CharacterView,
> {
    if !accepts_path(path) || contains_path(cs, path) {
        cs
    } else {
        cs.push(new_character(name, path))
    }
}

pub open spec fn unknown_name() -> Seq<char> {
    seq!['U', 'n', 'k', 'n', 'o', 'w', 'n']
}

/// The display name derived from a file stem.
pub open spec fn display_name(stem: Option<Seq<char>>) -> Seq<char> {
    match stem {
        Some(s) => s,
        None => unknown_name(),
    }
}

/// The path that is stored for a picked file: the converted file where an animated
/// PNG was converted, else the picked path itself.
pub open spec fn stored_path(path: Seq<char>, converted: Option<Seq<char>>) -> Seq<char> {
    if is_apng_path(path) && converted is Some {
        converted->0
    } else {
        path
    }
}

/// The library after adding a picked file, given the outcome of its conversion.
pub open spec fn add_spec(cs: Seq<CharacterView>, path: Seq<char>, converted: Option<Seq<char>>) -> Seq<
    CharacterView,
> {
    if !accepts_path(path) {
        cs
    } else {
        let p = stored_path(path, converted);
        add_named_spec(cs, p, display_name(file_stem_of(p)))
    }
}

/// The display name for a file stem, with a placeholder where there is none.
pub fn name_from_stem(stem: Option<String>) -> (r: String)
    ensures
        r@ == display_name(opt_view(stem)),
{
    match stem {
        Some(s) => s,
        None => {
            proof {
                reveal_strlit("Unknown");
            }
            let r = String::from_str("Unknown");
            assert(r@ =~= unknown_name());
            r
        },
    }
}

/// The path to store for a picked file, given the outcome of its conversion
/// (which only counts for an animated PNG).
pub fn resolve_stored_path(path: &str, converted: Option<String>) -> (r: String)
    ensures
        r@ == stored_path(path@, opt_view(converted)),
{
    if needs_conversion(path) {
        match converted {
            Some(c) => c,
            None => path.to_owned(),
        }
    } else {
        path.to_owned()
    }
}

impl CharacterLibrary {
    pub open spec fn wf(&self) -> bool {
        paths_unique(self@)
    }

    pub fn new() -> (r: Self)
        ensures
            r@ == Seq::<CharacterView>::empty(),
            r.wf(),
    {
        let r = CharacterLibrary { characters: Vec::new() };
        assert(r@ =~= Seq::<CharacterView>::empty());
        r
    }

    pub fn len(&self) -> (r: usize)
        ensures
            r == self@.len(),
    {
        self.characters.len()
    }

    /// The position of the entry whose path is exactly `path`.
    pub fn index_by_path(&self, path: &str) -> (r: Option<usize>)
        ensures
            match r {
                Some(i) => i < self@.len() && self@[i as int].path == path@ && forall|j: int|
                    0 <= j < i ==> #[trigger] self@[j].path != path@,
                None => !contains_path(self@, path@),
            },
    {
        let mut i: usize = 0;
        while i < self.characters.len()
            invariant
                i <= self@.len(),
                self@.len() == self.characters@.len(),
                forall|j: int| 0 <= j < i ==> #[trigger] self@[j].path != path@,
            decreases self.characters.len() - i,
        {
            if str_equal(self.characters[i].path.as_str(), path) {
                return Some(i);
            }
            i = i + 1;
        }
        None
    }

    /// Adds `path` under the given name; no conversion is attempted. Returns whether
    /// an entry was added (and the library must be written out).
    pub fn add_named_character(&mut self, path: &str, name: &str) -> (r: bool)
        ensures
            final(self)@ == add_named_spec(old(self)@, path@, name@),
            r == (final(self)@ != old(self)@),
            old(self).wf() ==> final(self).wf(),
    {
        if !has_media_extension_of(path) {
            return false;
        }
        match self.index_by_path(path) {
            Some(_) => false,
            None => {
                let c = Character {
                    name: name.to_owned(),
                    path: path.to_owned(),
                    enabled: false,
                    speed: 0,
                    scale: SCALE_ONE,
                    window_pos: None,
                    window_size: None,
                };
                let ghost before = self@;
                self.characters.push(c);
                assert(self@ =~= before.push(new_character(name@, path@)));
                assert(self@.len() != before.len());
                true
            },
        }
    }

    /// Adds a picked file. `converted` is the outcome of converting it where it is an
    /// animated PNG; where that failed, the original path is stored. The name is the
    /// file stem of the stored path. Returns whether an entry was added.
    pub fn add_character(&mut self, path: &str, converted: Option<String>) -> (r: bool)
        ensures
            final(self)@ == add_spec(old(self)@, path@, opt_view(converted)),
            r == (final(self)@ != old(self)@),
            old(self).wf() ==> final(self).wf(),
    {
        if !has_media_extension_of(path) {
            return false;
        }
        let stored = resolve_stored_path(path, converted);
        let name = name_from_stem(file_stem(stored.as_str()));
        self.add_named_character(stored.as_str(), name.as_str())
    }

    /// Removes the entry at `index`; out of range, nothing changes.
    pub fn remove_character(&mut self, index: usize) -> (r: bool)
        ensures
            r == (index < old(self)@.len()),
            r ==> final(self)@ == old(self)@.remove(index as int),
            !r ==> final(self)@ == old(self)@,
            old(self).wf() ==> final(self).wf(),
    {
        if index < self.characters.len() {
            let ghost before = self@;
            self.characters.remove(index);
            assert(self@ =~= before.remove(index as int));
            proof {
                if paths_unique(before) {
                    assert forall|i: int, j: int|
                        0 <= i < self@.len() && 0 <= j < self@.len() && i != j implies #[trigger] self@[i].path
                            != #[trigger] self@[j].path by {
                        let i0 = if i < index { i } else { i + 1 };
                        let j0 = if j < index { j } else { j + 1 };
                        assert(self@[i] == before[i0]);
                        assert(self@[j] == before[j0]);
                    }
                }
            }
            true
        } else {
            false
        }
    }

    /// Turns the entry at `index` on or off; out of range, nothing changes.
    pub fn set_enabled(&mut self, index: usize, enabled: bool) -> (r: bool)
        ensures
            r == (index < old(self)@.len()),
            r ==> final(self)@ == old(self)@.update(
                index as int,
                CharacterView { enabled, ..old(self)@[index as int] },
            ),
            !r ==> final(self)@ == old(self)@,
            old(self).wf() ==> final(self).wf(),
    {
        if index < self.characters.len() {
            let ghost before = self@;
            self.characters[index].enabled = enabled;
            proof {
                self.lemma_updated(before, index as int);
            }
            true
        } else {
            false
        }
    }

    /// Sets the playback speed and the scale (an `f32` bit pattern) of the entry at
    /// `index`; out of range, nothing changes.
    pub fn update_settings(&mut self, index: usize, speed: i64, scale: u32) -> (r: bool)
        ensures
            r == (index < old(self)@.len()),
            r ==> final(self)@ == old(self)@.update(
                index as int,
                CharacterView { speed, scale, ..old(self)@[index as int] },
            ),
            !r ==> final(self)@ == old(self)@,
            old(self).wf() ==> final(self).wf(),
    {
        if index < self.characters.len() {
            let ghost before = self@;
            self.characters[index].speed = speed;
            self.characters[index].scale = scale;
            proof {
                self.lemma_updated(before, index as int);
            }
            true
        } else {
            false
        }
    }

    /// Stores the window position of the entry at `index`; out of range, nothing changes.
    pub fn update_position(&mut self, index: usize, pos: WindowPoint) -> (r: bool)
        ensures
            r == (index < old(self)@.len()),
            r ==> final(self)@ == old(self)@.update(
                index as int,
                CharacterView { window_pos: Some(pos), ..old(self)@[index as int] },
            ),
            !r ==> final(self)@ == old(self)@,
            old(self).wf() ==> final(self).wf(),
    {
        if index < self.characters.len() {
            let ghost before = self@;
            self.characters[index].window_pos = Some(pos);
            proof {
                self.lemma_updated(before, index as int);
            }
            true
        } else {
            false
        }
    }

    /// Stores an observed window position only where it differs from the stored one.
    /// Returns whether it was stored (and the library must be written out).
    pub fn record_position(&mut self, index: usize, observed: WindowPoint) -> (r: bool)
        ensures
            final(self)@ == record_position_spec(old(self)@, index as int, observed),
            r == position_write_needed(old(self)@, index as int, observed),
            old(self).wf() ==> final(self).wf(),
    {
        if index < self.characters.len() {
            let differs = match self.characters[index].window_pos {
                Some(p) => p != observed,
                None => true,
            };
            if differs {
                return self.update_position(index, observed);
            }
        }
        false
    }

    /// After a change of fields other than the path at `index`, the paths and the
    /// rest of the entries are as before.
    proof fn lemma_updated(&self, before: Seq<CharacterView>, index: int)
        requires
            0 <= index < before.len(),
            self@.len() == before.len(),
            self@[index].path == before[index].path,
            forall|k: int| 0 <= k < before.len() && k != index ==> #[trigger] self@[k] == before[k],
        ensures
            paths_unique(before) ==> paths_unique(self@),
    {
        assert forall|k: int| 0 <= k < before.len() implies #[trigger] self@[k].path == before[k].path by {
            if k != index {
                assert(self@[k] == before[k]);
            }
        }
    }
}

/// Whether an observed position must be written: the index is in range and the
/// stored position is unset or different.
pub open spec fn position_write_needed(cs: Seq<CharacterView>, index: int, observed: WindowPoint) -> bool {
    0 <= index < cs.len() && cs[index].window_pos != Some(observed)
}

/// The library after one observation of a window position.
pub open spec fn record_position_spec(cs: Seq<CharacterView>, index: int, observed: WindowPoint) -> Seq<
    CharacterView,
> {
    if position_write_needed(cs, index, observed) {
        cs.update(index, CharacterView { window_pos: Some(observed), ..cs[index] })
    } else {
        cs
    }
}

/// One add request, as the library sees it.
pub enum AddRequest {
    /// `add_named_character(path, name)`.
    Named { path: Seq<char>, name: Seq<char> },
    /// `add_character(path, converted)`.
    Picked { path: Seq<char>, converted: Option<Seq<char>> },
}

pub open spec fn apply_add(cs: Seq<CharacterView>, req: AddRequest) -> Seq<CharacterView> {
    match req {
        AddRequest::Named { path, name } => add_named_spec(cs, path, name),
        AddRequest::Picked { path, converted } => add_spec(cs, path, converted),
    }
}

/// The library after a sequence of add requests, in order.
pub open spec fn apply_adds(cs: Seq<CharacterView>, reqs: Seq<AddRequest>) -> Seq<CharacterView>
    decreases reqs.len(),
{
    if reqs.len() == 0 {
        cs
    } else {
        apply_add(apply_adds(cs, reqs.drop_last()), reqs.last())
    }
}

proof fn lemma_add_named_keeps_paths_unique(cs: Seq<CharacterView>, path: Seq<char>, name: Seq<char>)
    requires
        paths_unique(cs),
    ensures
        paths_unique(add_named_spec(cs, path, name)),
{
    if accepts_path(path) && !contains_path(cs, path) {
        let r = cs.push(new_character(name, path));
        assert forall|i: int, j: int|
            0 <= i < r.len() && 0 <= j < r.len() && i != j implies #[trigger] r[i].path
                != #[trigger] r[j].path by {
            if i == cs.len() {
                assert(r[j] == cs[j]);
            } else if j == cs.len() {
                assert(r[i] == cs[i]);
            } else {
                assert(r[i] == cs[i] && r[j] == cs[j]);
            }
        }
    }
}

/// Whatever sequence of add requests is applied to a library whose paths are
/// unique, no two entries of the result share a path.
pub proof fn lemma_adds_keep_paths_unique(start: Seq<CharacterView>, reqs: Seq<AddRequest>)
    requires
        paths_unique(start),
    ensures
        paths_unique(apply_adds(start, reqs)),
    decreases reqs.len(),
{
    if reqs.len() > 0 {
        lemma_adds_keep_paths_unique(start, reqs.drop_last());
        let before = apply_adds(start, reqs.drop_last());
        match reqs.last() {
            AddRequest::Named { path, name } => {
                lemma_add_named_keeps_paths_unique(before, path, name);
            },
            AddRequest::Picked { path, converted } => {
                if accepts_path(path) {
                    let p = stored_path(path, converted);
                    lemma_add_named_keeps_paths_unique(before, p, display_name(file_stem_of(p)));
                }
            },
        }
    }
}

/// Where an animated PNG could not be converted, adding it still adds an entry,
/// stored under the original path (unless that path is already present).
pub proof fn lemma_failed_conversion_keeps_original(cs: Seq<CharacterView>, path: Seq<char>)
    requires
        accepts_path(path),
        is_apng_path(path),
        !contains_path(cs, path),
    ensures
        add_spec(cs, path, None) == cs.push(new_character(display_name(file_stem_of(path)), path)),
        add_spec(cs, path, None).last().path == path,
{
}

/// The library after the same position has been observed `frames` times in a row.
pub open spec fn after_observations(cs: Seq<CharacterView>, index: int, observed: WindowPoint, frames: nat) -> Seq<
    CharacterView,
>
    decreases frames,
{
    if frames == 0 {
        cs
    } else {
        record_position_spec(after_observations(cs, index, observed, (frames - 1) as nat), index, observed)
    }
}

/// How many of those observations wrote the position.
pub open spec fn writes_over(cs: Seq<CharacterView>, index: int, observed: WindowPoint, frames: nat) -> nat
    decreases frames,
{
    if frames == 0 {
        0
    } else {
        let before = after_observations(cs, index, observed, (frames - 1) as nat);
        writes_over(cs, index, observed, (frames - 1) as nat) + if position_write_needed(
            before,
            index,
            observed,
        ) {
            1nat
        } else {
            0nat
        }
    }
}

proof fn lemma_observations_settle(cs: Seq<CharacterView>, index: int, observed: WindowPoint, frames: nat)
    requires
        frames >= 1,
    ensures
        after_observations(cs, index, observed, frames) == after_observations(cs, index, observed, 1),
        !position_write_needed(after_observations(cs, index, observed, frames), index, observed),
    decreases frames,
{
    if frames > 1 {
        lemma_observations_settle(cs, index, observed, (frames - 1) as nat);
    }
    assert(after_observations(cs, index, observed, 0) == cs);
}

/// Observing an unchanged window position on any number of consecutive frames
/// writes it at most once.
pub proof fn lemma_unchanged_position_written_at_most_once(
    cs: Seq<CharacterView>,
    index: int,
    observed: WindowPoint,
    frames: nat,
)
    ensures
        writes_over(cs, index, observed, frames) <= 1,
    decreases frames,
{
    if frames > 1 {
        lemma_unchanged_position_written_at_most_once(cs, index, observed, (frames - 1) as nat);
        lemma_observations_settle(cs, index, observed, (frames - 1) as nat);
        lemma_unchanged_position_first_write(cs, index, observed, (frames - 1) as nat);
    }
    if frames == 1 {
        assert(writes_over(cs, index, observed, 0) == 0);
    }
}

proof fn lemma_unchanged_position_first_write(cs: Seq<CharacterView>, index: int, observed: WindowPoint, frames: nat)
    requires
        frames >= 1,
    ensures
        writes_over(cs, index, observed, frames) == writes_over(cs, index, observed, 1),
    decreases frames,
{
    if frames > 1 {
        lemma_unchanged_position_first_write(cs, index, observed, (frames - 1) as nat);
        lemma_observations_settle(cs, index, observed, (frames - 1) as nat);
    }
}

} // verus!

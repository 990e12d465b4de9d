//! The state of the theme manager: the current theme and the presets, and the
//! steps that change them. The state is held in memory; whoever keeps it on disk
//! loads it, takes a step here, and writes back what the step made of it.

use crate::error::ChromashError;
use crate::options::chars_opt;
use crate::text::{chars_of, letter_or_digit, same_chars, string_of};
use crate::theme::{CurrentTheme, CurrentThemeView, PresetMetadata, PresetView};
use vstd::prelude::*;
use vstd::string::StringExecFns;

verus! {

/// What the place of a preset holds.
#[derive(Debug, Clone)]
pub enum Record {
    /// A preset that reads back well.
    Valid(PresetMetadata),
    /// Data that does not read back as a preset; the text says why.
    Corrupt(String),
    /// Data that cannot be read at all; the text says why.
    Unreadable(String),
    /// Nothing.
    Missing,
}

/// What the place of a preset holds, as plain values.
pub enum RecordView {
    Valid(PresetView),
    Corrupt(Seq<char>),
    Unreadable(Seq<char>),
    Missing,
}

impl View for Record {
    type V = RecordView;

    open spec fn view(&self) -> RecordView {
        match self {
            Record::Valid(p) => RecordView::Valid(p@),
            Record::Corrupt(why) => RecordView::Corrupt(why@),
            Record::Unreadable(why) => RecordView::Unreadable(why@),
            Record::Missing => RecordView::Missing,
        }
    }
}

/// The place of one preset: the name it is filed under, and what is there.
#[derive(Debug, Clone)]
pub struct PresetEntry {
    /// The sanitized name that the preset is filed under.
    pub dir: String,
    /// What the place holds.
    pub record: Record,
}

/// The place of one preset, as plain values.
pub struct EntryView {
    pub dir: Seq<char>,
    pub record: RecordView,
}

impl View for PresetEntry {
    type V = EntryView;

    open spec fn view(&self) -> EntryView {
        EntryView { dir: self.dir@, record: self.record@ }
    }
}

/// The theme manager: at most one current theme, and the presets.
#[derive(Debug, Clone)]
pub struct ChromashApi {
    /// The theme that was applied last, if any was.
    pub current: Option<CurrentTheme>,
    /// The places of the presets, in the order in which they were found.
    pub presets: Vec<PresetEntry>,
}

/// The theme manager as plain values.
pub struct ApiView {
    pub current: Option<CurrentThemeView>,
    pub presets: Seq<EntryView>,
}

/// The current theme as plain values, if there is one.
pub open spec fn current_view(current: Option<CurrentTheme>) -> Option<CurrentThemeView> {
    match current {
        Some(theme) => Some(theme@),
        None => None,
    }
}

/// The places as plain values.
pub open spec fn entry_views(entries: Seq<PresetEntry>) -> Seq<EntryView> {
    entries.map_values(|e: PresetEntry| e@)
}

/// The presets as plain values.
pub open spec fn preset_views(presets: Seq<PresetMetadata>) -> Seq<PresetView> {
    presets.map_values(|p: PresetMetadata| p@)
}

impl View for ChromashApi {
    type V = ApiView;

    open spec fn view(&self) -> ApiView {
        ApiView { current: current_view(self.current), presets: entry_views(self.presets@) }
    }
}

/// Whether a character of a name is kept when the name is sanitized.
pub open spec fn kept(c: char) -> bool {
    letter_or_digit(c) || c == '_' || c == '-' || c == ' '
}

/// The name that a preset is filed under: the letters, digits, underscores and
/// hyphens of its display name, with an underscore for each space, and nothing else.
pub open spec fn sanitized(name: Seq<char>) -> Seq<char> {
    name.filter(|c: char| kept(c)).map_values(|c: char| if c == ' ' { '_' } else { c })
}

/// Whether a preset is filed under the name.
pub open spec fn has_dir(presets: Seq<EntryView>, dir: Seq<char>) -> bool {
    exists|i: int| 0 <= i < presets.len() && (#[trigger] presets[i]).dir == dir
}

/// The places without those filed under the name.
pub open spec fn without_dir(presets: Seq<EntryView>, dir: Seq<char>) -> Seq<EntryView> {
    presets.filter(|e: EntryView| e.dir != dir)
}

/// The sorted presets with one more put in its place: behind every preset that was
/// modified no earlier than it.
pub open spec fn placed(sorted: Seq<PresetView>, p: PresetView) -> Seq<PresetView>
    decreases sorted.len(),
{
    if sorted.len() == 0 {
        seq![p]
    } else if sorted.last().modified >= p.modified {
        sorted.push(p)
    } else {
        placed(sorted.drop_last(), p).push(sorted.last())
    }
}

/// The presets that read back well, the most recently modified first; presets
/// modified at the same time stay in the order in which they were found.
pub open spec fn listing(presets: Seq<EntryView>) -> Seq<PresetView>
    decreases presets.len(),
{
    if presets.len() == 0 {
        Seq::empty()
    } else {
        let rest = listing(presets.drop_last());
        match presets.last().record {
            RecordView::Valid(p) => placed(rest, p),
            _ => rest,
        }
    }
}

/// The presets that read back well, in the order in which they were found.
pub open spec fn valid_presets(presets: Seq<EntryView>) -> Seq<PresetView>
    decreases presets.len(),
{
    if presets.len() == 0 {
        Seq::empty()
    } else {
        let rest = valid_presets(presets.drop_last());
        match presets.last().record {
            RecordView::Valid(p) => rest.push(p),
            _ => rest,
        }
    }
}

/// Whether the presets go from the most recently modified to the least.
pub open spec fn newest_first(presets: Seq<PresetView>) -> bool {
    forall|i: int, j: int|
        0 <= i < j < presets.len() ==> presets[i].modified >= presets[j].modified
}

/// Putting a preset in its place splits the sorted presets in two around it.
pub proof fn lemma_placed_at(sorted: Seq<PresetView>, p: PresetView, at: int)
    requires
        0 <= at <= sorted.len(),
        at > 0 ==> sorted[at - 1].modified >= p.modified,
        forall|k: int| at <= k < sorted.len() ==> sorted[k].modified < p.modified,
    ensures
        placed(sorted, p) == sorted.insert(at, p),
    decreases sorted.len() - at,
{
    if sorted.len() == 0 {
        assert(sorted.insert(at, p) =~= seq![p]);
    } else if at == sorted.len() {
        assert(sorted.insert(at, p) =~= sorted.push(p));
    } else {
        lemma_placed_at(sorted.drop_last(), p, at);
        assert(sorted.drop_last().insert(at, p).push(sorted.last()) =~= sorted.insert(at, p));
    }
}

/// Putting a preset in its place keeps the order, adds one, and leaves the others.
pub proof fn lemma_placed(sorted: Seq<PresetView>, p: PresetView)
    requires
        newest_first(sorted),
    ensures
        newest_first(placed(sorted, p)),
        placed(sorted, p).len() == sorted.len() + 1,
        placed(sorted, p).to_multiset() == sorted.to_multiset().insert(p),
    decreases sorted.len(),
{
    broadcast use vstd::seq_lib::group_to_multiset_ensures;

    if sorted.len() == 0 {
        assert(seq![p] =~= Seq::<PresetView>::empty().push(p));
        assert(sorted =~= Seq::<PresetView>::empty());
    } else if sorted.last().modified >= p.modified {
    } else {
        let rest = sorted.drop_last();
        let last = sorted.last();
        assert(newest_first(rest));
        lemma_placed(rest, p);
        let inner = placed(rest, p);
        assert(sorted =~= rest.push(last));
        assert forall|k: int| 0 <= k < inner.len() implies (#[trigger] inner[k]).modified
            >= last.modified by {
            assert(inner.to_multiset().count(inner[k]) > 0);
            if inner[k] != p {
                assert(rest.to_multiset().count(inner[k]) > 0);
                assert(rest.contains(inner[k]));
                let w = choose|w: int| 0 <= w < rest.len() && rest[w] == inner[k];
                assert(sorted[w] == rest[w]);
            }
        }
        assert(inner.push(last).to_multiset() =~= sorted.to_multiset().insert(p));
    }
}

/// The listing goes from the most recently modified preset to the least, and
/// holds the presets that read back well, each as often as it was found: no more
/// and no fewer.
pub proof fn lemma_listing(presets: Seq<EntryView>)
    ensures
        newest_first(listing(presets)),
        listing(presets).to_multiset() == valid_presets(presets).to_multiset(),
        listing(presets).len() == valid_presets(presets).len(),
    decreases presets.len(),
{
    broadcast use vstd::seq_lib::group_to_multiset_ensures;

    if presets.len() > 0 {
        lemma_listing(presets.drop_last());
        match presets.last().record {
            RecordView::Valid(p) => {
                lemma_placed(listing(presets.drop_last()), p);
            },
            _ => {},
        }
    }
}

impl Record {
    /// A copy of the record.
    pub fn duplicate(&self) -> (copy: Record)
        ensures
            copy@ == self@,
    {
        match self {
            Record::Valid(p) => Record::Valid(p.duplicate()),
            Record::Corrupt(why) => Record::Corrupt(why.clone()),
            Record::Unreadable(why) => Record::Unreadable(why.clone()),
            Record::Missing => Record::Missing,
        }
    }
}

impl PresetEntry {
    /// A copy of the place.
    pub fn duplicate(&self) -> (copy: PresetEntry)
        ensures
            copy@ == self@,
    {
        PresetEntry { dir: self.dir.clone(), record: self.record.duplicate() }
    }
}

/// Whether two strings hold the same characters.
fn same_text(a: &str, b: &str) -> (same: bool)
    ensures
        same == (a@ == b@),
{
    same_chars(&chars_of(a), &chars_of(b))
}

/// The words of the error for a name that no preset is filed under.
pub open spec fn no_directory(name: Seq<char>) -> Seq<char> {
    "Preset directory for: "@ + name
}

impl ChromashApi {
    /// A theme manager with no current theme and no preset.
    pub fn new() -> (api: ChromashApi)
        ensures
            api@.current is None,
            api@.presets == Seq::<EntryView>::empty(),
    {
        let api = ChromashApi { current: None, presets: Vec::new() };
        proof {
            assert(api@.presets =~= Seq::<EntryView>::empty());
        }
        api
    }

    /// The theme that was applied last, if any was.
    pub fn load_current_theme(&self) -> (theme: Option<CurrentTheme>)
        ensures
            current_view(theme) == self@.current,
    {
        match &self.current {
            Some(theme) => Some(theme.duplicate()),
            None => None,
        }
    }

    /// The name that a preset with the given display name is filed under.
    pub fn sanitize_name(&self, name: &str) -> (dir: String)
        ensures
            dir@ == sanitized(name@),
    {
        let v = chars_of(name);
        let mut out: Vec<char> = Vec::new();
        let mut i: usize = 0;
        proof {
            reveal(Seq::filter);
            assert(v@.take(0) =~= Seq::<char>::empty());
            assert(sanitized(v@.take(0)) =~= Seq::<char>::empty());
        }
        while i < v.len()
            invariant
                i <= v.len(),
                out@ == sanitized(v@.take(i as int)),
            decreases v.len() - i,
        {
            let c: char = v[i];
            proof {
                assert(v@.take(i as int + 1) =~= v@.take(i as int).push(c));
                lemma_sanitized_push(v@.take(i as int), c);
            }
            if c == ' ' {
                out.push('_');
            } else if c.is_alphanumeric() || c == '_' || c == '-' {
                out.push(c);
            }
            i += 1;
        }
        proof {
            assert(v@.take(v.len() as int) =~= v@);
        }
        string_of(&out)
    }

    /// Whether a preset is filed under the name.
    pub fn has_preset_dir(&self, dir: &str) -> (found: bool)
        ensures
            found == has_dir(self@.presets, dir@),
    {
        let mut i: usize = 0;
        while i < self.presets.len()
            invariant
                i <= self.presets.len(),
                forall|k: int| 0 <= k < i ==> (#[trigger] self@.presets[k]).dir != dir@,
            decreases self.presets.len() - i,
        {
            if same_text(self.presets[i].dir.as_str(), dir) {
                proof {
                    assert(self@.presets[i as int].dir == dir@);
                }
                return true;
            }
            i += 1;
        }
        false
    }

    /// The presets that read back well, the most recently modified first.
    pub fn list_presets(&self) -> (presets: Vec<PresetMetadata>)
        ensures
            preset_views(presets@) == listing(self@.presets),
            newest_first(preset_views(presets@)),
            presets.len() == valid_presets(self@.presets).len(),
            preset_views(presets@).to_multiset() == valid_presets(self@.presets).to_multiset(),
    {
        let mut presets: Vec<PresetMetadata> = Vec::new();
        let mut i: usize = 0;
        proof {
            assert(self@.presets.take(0) =~= Seq::<EntryView>::empty());
            assert(preset_views(presets@) =~= Seq::<PresetView>::empty());
        }
        while i < self.presets.len()
            invariant
                i <= self.presets.len(),
                preset_views(presets@) == listing(self@.presets.take(i as int)),
            decreases self.presets.len() - i,
        {
            proof {
                assert(self@.presets.take(i as int + 1).drop_last() =~= self@.presets.take(
                    i as int,
                ));
                assert(self@.presets.take(i as int + 1).last() == self.presets@[i as int]@);
                lemma_listing(self@.presets.take(i as int));
            }
            match &self.presets[i].record {
                Record::Valid(p) => {
                    let ghost before = preset_views(presets@);
                    let mut at: usize = presets.len();
                    while at > 0 && presets[at - 1].modified < p.modified
                        invariant
                            at <= presets.len(),
                            forall|k: int|
                                at <= k < presets.len() ==> presets@[k].modified < p.modified,
                        decreases at,
                    {
                        at -= 1;
                    }
                    proof {
                        assert forall|k: int| at <= k < before.len() implies before[k].modified
                            < p@.modified by {
                            assert(before[k] == presets@[k]@);
                        }
                        if at > 0 {
                            assert(before[at - 1] == presets@[at - 1]@);
                        }
                        lemma_placed_at(before, p@, at as int);
                    }
                    presets.insert(at, p.duplicate());
                    proof {
                        assert(preset_views(presets@) =~= before.insert(at as int, p@));
                    }
                },
                _ => {},
            }
            i += 1;
        }
        proof {
            assert(self@.presets.take(self.presets.len() as int) =~= self@.presets);
            lemma_listing(self@.presets);
        }
        presets
    }

    /// The name that the preset is filed under, if there is such a preset. The
    /// sanitized name is tried first; then each listed preset with this display
    /// name is looked for under its own sanitized name, which finds nothing new.
    pub fn get_preset_dir(&self, name: &str) -> (found: Result<String, ChromashError>)
        ensures
            match found {
                Ok(dir) => has_dir(self@.presets, sanitized(name@)) && dir@ == sanitized(name@),
                Err(e) => !has_dir(self@.presets, sanitized(name@)) && e is NotFound && e.detail()
                    == no_directory(name@),
            },
    {
        let dir = self.sanitize_name(name);
        if self.has_preset_dir(dir.as_str()) {
            return Ok(dir);
        }
        let listed = self.list_presets();
        let mut i: usize = 0;
        while i < listed.len()
            invariant
                i <= listed.len(),
                !has_dir(self@.presets, sanitized(name@)),
            decreases listed.len() - i,
        {
            if same_text(listed[i].name.as_str(), name) {
                let other = self.sanitize_name(listed[i].name.as_str());
                if self.has_preset_dir(other.as_str()) {
                    return Ok(other);
                }
            }
            i += 1;
        }
        Err(
            ChromashError::NotFound(String::from_str("Preset directory for: ").concat(name)),
        )
    }

    /// Files a preset under its sanitized name, in place of whatever was filed
    /// there. Both of its times are `now`.
    pub fn save_preset(
        &mut self,
        name: &str,
        source: Option<String>,
        wallpaper: Option<String>,
        now: u64,
    ) -> (saved: bool)
        ensures
            saved,
            final(self)@.current == old(self)@.current,
            final(self)@.presets == saved_presets(
                old(self)@.presets,
                name@,
                chars_opt(source),
                chars_opt(wallpaper),
                now,
            ),
    {
        let dir = self.sanitize_name(name);
        self.remove_dir(dir.as_str());
        let ghost kept_entries = self@.presets;
        let entry = PresetEntry {
            dir,
            record: Record::Valid(
                PresetMetadata {
                    name: String::from_str(name),
                    created: now,
                    modified: now,
                    source,
                    wallpaper,
                },
            ),
        };
        self.presets.push(entry);
        proof {
            assert(self@.presets =~= kept_entries.push(entry@));
        }
        true
    }

    /// Takes out whatever is filed under the name, and tells whether anything was.
    fn remove_dir(&mut self, dir: &str) -> (removed: bool)
        ensures
            removed == has_dir(old(self)@.presets, dir@),
            final(self)@.presets == without_dir(old(self)@.presets, dir@),
            final(self).current == old(self).current,
    {
        let mut left: Vec<PresetEntry> = Vec::new();
        let mut removed = false;
        let mut i: usize = 0;
        let ghost all = self@.presets;
        proof {
            reveal(Seq::filter);
            assert(all.take(0) =~= Seq::<EntryView>::empty());
            assert(entry_views(left@) =~= Seq::<EntryView>::empty());
        }
        while i < self.presets.len()
            invariant
                i <= self.presets.len(),
                all == self@.presets,
                entry_views(left@) == without_dir(all.take(i as int), dir@),
                removed == has_dir(all.take(i as int), dir@),
            decreases self.presets.len() - i,
        {
            let ghost before = all.take(i as int);
            let ghost after = all.take(i as int + 1);
            let ghost views = entry_views(left@);
            proof {
                reveal(Seq::filter);
                assert(after.drop_last() =~= before);
                assert(after.last() == all[i as int]);
                assert(all[i as int] == self.presets@[i as int]@);
                assert forall|k: int| 0 <= k < before.len() implies before[k] == after[k] by {}
                if has_dir(before, dir@) {
                    let w = choose|w: int| 0 <= w < before.len() && (#[trigger] before[w]).dir
                        == dir@;
                    assert(after[w].dir == dir@);
                }
                if has_dir(after, dir@) && all[i as int].dir != dir@ {
                    let w = choose|w: int| 0 <= w < after.len() && (#[trigger] after[w]).dir
                        == dir@;
                    assert(before[w].dir == dir@);
                }
                if all[i as int].dir == dir@ {
                    assert(after[i as int].dir == dir@);
                }
            }
            if same_text(self.presets[i].dir.as_str(), dir) {
                removed = true;
            } else {
                left.push(self.presets[i].duplicate());
                proof {
                    assert(entry_views(left@) =~= views.push(all[i as int]));
                }
            }
            i += 1;
        }
        proof {
            assert(all.take(self.presets.len() as int) =~= all);
        }
        self.presets = left;
        removed
    }

    /// Deletes the preset with the given name, and tells whether there was one:
    /// a name that no preset is filed under is no error.
    pub fn delete_preset(&mut self, name: &str) -> (deleted: bool)
        ensures
            deleted == has_dir(old(self)@.presets, sanitized(name@)),
            final(self)@.presets == without_dir(old(self)@.presets, sanitized(name@)),
            final(self)@.current == old(self)@.current,
            !deleted ==> final(self)@ == old(self)@,
    {
        let found = self.get_preset_dir(name);
        match found {
            Ok(dir) => {
                self.remove_dir(dir.as_str());
                true
            },
            Err(_) => {
                proof {
                    lemma_without_absent(self@.presets, sanitized(name@));
                }
                false
            },
        }
    }
}

/// The places after a preset is saved: whatever was filed under its sanitized name
/// is gone, and the new preset stands last.
pub open spec fn saved_presets(
    presets: Seq<EntryView>,
    name: Seq<char>,
    source: Option<Seq<char>>,
    wallpaper: Option<Seq<char>>,
    now: u64,
) -> Seq<EntryView> {
    without_dir(presets, sanitized(name)).push(
        EntryView {
            dir: sanitized(name),
            record: RecordView::Valid(
                PresetView { name, created: now, modified: now, source, wallpaper },
            ),
        },
    )
}

/// One more character at the end of a name adds its own part to the sanitized
/// name: nothing if it is not kept, an underscore for a space, else itself.
pub proof fn lemma_sanitized_push(name: Seq<char>, c: char)
    ensures
        sanitized(name.push(c)) == if !kept(c) {
            sanitized(name)
        } else if c == ' ' {
            sanitized(name).push('_')
        } else {
            sanitized(name).push(c)
        },
{
    reveal(Seq::filter);
    assert(name.push(c).drop_last() =~= name);
    if !kept(c) {
        assert(sanitized(name.push(c)) =~= sanitized(name));
    } else if c == ' ' {
        assert(sanitized(name.push(c)) =~= sanitized(name).push('_'));
    } else {
        assert(sanitized(name.push(c)) =~= sanitized(name).push(c));
    }
}

/// Taking out a name that nothing is filed under changes nothing.
pub proof fn lemma_without_absent(presets: Seq<EntryView>, dir: Seq<char>)
    requires
        !has_dir(presets, dir),
    ensures
        without_dir(presets, dir) == presets,
    decreases presets.len(),
{
    reveal(Seq::filter);
    if presets.len() > 0 {
        let rest = presets.drop_last();
        assert(presets[presets.len() - 1].dir != dir);
        assert forall|k: int| 0 <= k < rest.len() implies (#[trigger] rest[k]).dir != dir by {
            assert(presets[k].dir != dir);
        }
        lemma_without_absent(rest, dir);
        assert(rest.push(presets.last()) =~= presets);
    }
}

/// What is filed under a name: the record of the first place with that name.
pub open spec fn filed(presets: Seq<EntryView>, dir: Seq<char>) -> Option<RecordView>
    decreases presets.len(),
{
    if presets.len() == 0 {
        None
    } else if presets[0].dir == dir {
        Some(presets[0].record)
    } else {
        filed(presets.drop_first(), dir)
    }
}

/// Something is filed under a name exactly when a place has that name.
pub proof fn lemma_filed_has_dir(presets: Seq<EntryView>, dir: Seq<char>)
    ensures
        filed(presets, dir) is Some <==> has_dir(presets, dir),
    decreases presets.len(),
{
    if presets.len() > 0 {
        let rest = presets.drop_first();
        lemma_filed_has_dir(rest, dir);
        if presets[0].dir == dir {
        } else {
            if has_dir(rest, dir) {
                let w = choose|w: int| 0 <= w < rest.len() && (#[trigger] rest[w]).dir == dir;
                assert(presets[w + 1].dir == dir);
            }
            if has_dir(presets, dir) {
                let w = choose|w: int| 0 <= w < presets.len() && (#[trigger] presets[w]).dir
                    == dir;
                assert(rest[w - 1].dir == dir);
            }
        }
    }
}

/// The words of the error for a preset whose place holds nothing.
pub open spec fn no_metadata(name: Seq<char>) -> Seq<char> {
    "Preset metadata for: "@ + name
}

impl ChromashApi {
    /// The preset with the given name, as it is filed.
    pub fn find_preset(&self, name: &str) -> (found: Result<PresetMetadata, ChromashError>)
        ensures
            match filed(self@.presets, sanitized(name@)) {
                Some(RecordView::Valid(p)) => found matches Ok(meta) && meta@ == p,
                Some(RecordView::Corrupt(why)) => found matches Err(e) && e is Json && e.detail()
                    == why,
                Some(RecordView::Unreadable(why)) => found matches Err(e) && e is Io
                    && e.detail() == why,
                Some(RecordView::Missing) => found matches Err(e) && e is NotFound && e.detail()
                    == no_metadata(name@),
                None => found matches Err(e) && e is NotFound && e.detail() == no_directory(
                    name@,
                ),
            },
    {
        proof {
            lemma_filed_has_dir(self@.presets, sanitized(name@));
        }
        let dir = match self.get_preset_dir(name) {
            Ok(dir) => dir,
            Err(e) => {
                return Err(e);
            },
        };
        let mut i: usize = 0;
        proof {
            assert(self@.presets.skip(0) =~= self@.presets);
        }
        while i < self.presets.len()
            invariant
                i <= self.presets.len(),
                dir@ == sanitized(name@),
                filed(self@.presets.skip(i as int), dir@) == filed(self@.presets, dir@),
                filed(self@.presets, dir@) is Some,
            decreases self.presets.len() - i,
        {
            proof {
                assert(self@.presets.skip(i as int).drop_first() =~= self@.presets.skip(
                    i as int + 1,
                ));
                assert(self@.presets.skip(i as int)[0] == self.presets@[i as int]@);
            }
            if same_text(self.presets[i].dir.as_str(), dir.as_str()) {
                return match &self.presets[i].record {
                    Record::Valid(p) => Ok(p.duplicate()),
                    Record::Corrupt(why) => Err(ChromashError::Json(why.clone())),
                    Record::Unreadable(why) => Err(ChromashError::Io(why.clone())),
                    Record::Missing => Err(
                        ChromashError::NotFound(
                            String::from_str("Preset metadata for: ").concat(name),
                        ),
                    ),
                };
            }
            i += 1;
        }
        proof {
            assert(self@.presets.skip(self.presets.len() as int).len() == 0);
        }
        Err(ChromashError::NotFound(String::from_str("Preset directory for: ").concat(name)))
    }
}

/// What is left after taking out a name has nothing filed under that name, and
/// keeps whatever is filed under any other name.
pub proof fn lemma_without_dir(presets: Seq<EntryView>, dir: Seq<char>, other: Seq<char>)
    ensures
        !has_dir(without_dir(presets, dir), dir),
        filed(without_dir(presets, dir), dir) is None,
        other != dir ==> filed(without_dir(presets, dir), other) == filed(presets, other),
    decreases presets.len(),
{
    reveal(Seq::filter);
    let left = without_dir(presets, dir);
    if presets.len() > 0 {
        let rest = presets.drop_last();
        let last = presets.last();
        lemma_without_dir(rest, dir, other);
        let inner = without_dir(rest, dir);
        lemma_filed_push(rest, last, other);
        assert(rest.push(last) =~= presets);
        if last.dir != dir {
            assert(left == inner.push(last));
            lemma_filed_push(inner, last, other);
            lemma_filed_push(inner, last, dir);
        }
    }
    lemma_filed_has_dir(left, dir);
}

/// What is filed under a name after one more place is added at the end: what was
/// filed there before, or else the new place if it has the name.
pub proof fn lemma_filed_push(presets: Seq<EntryView>, entry: EntryView, dir: Seq<char>)
    ensures
        filed(presets.push(entry), dir) == if filed(presets, dir) is Some {
            filed(presets, dir)
        } else if entry.dir == dir {
            Some(entry.record)
        } else {
            None
        },
    decreases presets.len(),
{
    let more = presets.push(entry);
    if presets.len() == 0 {
        assert(more.drop_first() =~= presets);
    } else {
        assert(more[0] == presets[0]);
        assert(more.drop_first() =~= presets.drop_first().push(entry));
        lemma_filed_push(presets.drop_first(), entry, dir);
    }
}

/// A preset that was saved is found under its sanitized name, as it was saved, with
/// its display name as it was given; it is listed; and what is filed under other
/// names stays.
pub proof fn lemma_saved_is_found(
    presets: Seq<EntryView>,
    name: Seq<char>,
    source: Option<Seq<char>>,
    wallpaper: Option<Seq<char>>,
    now: u64,
    other: Seq<char>,
)
    ensures
        ({
            let after = saved_presets(presets, name, source, wallpaper, now);
            let saved = PresetView { name, created: now, modified: now, source, wallpaper };
            &&& has_dir(after, sanitized(name))
            &&& filed(after, sanitized(name)) == Some(RecordView::Valid(saved))
            &&& listing(after).contains(saved)
            &&& other != sanitized(name) ==> filed(after, other) == filed(presets, other)
        }),
{
    broadcast use vstd::seq_lib::group_to_multiset_ensures;

    let dir = sanitized(name);
    let left = without_dir(presets, dir);
    let saved = PresetView { name, created: now, modified: now, source, wallpaper };
    let entry = EntryView { dir, record: RecordView::Valid(saved) };
    let after = left.push(entry);
    lemma_without_dir(presets, dir, other);
    lemma_filed_push(left, entry, dir);
    lemma_filed_push(left, entry, other);
    lemma_filed_has_dir(after, dir);
    assert(after.drop_last() =~= left);
    lemma_listing(left);
    lemma_placed(listing(left), saved);
    assert(listing(after).to_multiset().count(saved) > 0);
}

/// A preset that was deleted is gone: nothing is filed under its name, so
/// deleting it again finds nothing. What is filed under other names stays.
pub proof fn lemma_deleted_is_gone(presets: Seq<EntryView>, name: Seq<char>, other: Seq<char>)
    ensures
        !has_dir(without_dir(presets, sanitized(name)), sanitized(name)),
        other != sanitized(name) ==> filed(without_dir(presets, sanitized(name)), other) == filed(
            presets,
            other,
        ),
{
    lemma_without_dir(presets, sanitized(name), other);
}

/// The display name `My Theme!` is filed under `My_Theme`: the space becomes an
/// underscore and the exclamation mark is dropped.
pub proof fn lemma_sanitized_my_theme()
    ensures
        sanitized("My Theme!"@) == "My_Theme"@,
{
    reveal_strlit("My Theme!");
    reveal_strlit("My_Theme");
    reveal_with_fuel(Seq::filter, 12);
    let name = "My Theme!"@;
    let passed = name.filter(|c: char| kept(c));
    assert(passed =~= seq!['M', 'y', ' ', 'T', 'h', 'e', 'm', 'e']);
    assert(sanitized(name) =~= "My_Theme"@);
}

/// A preset saved under the display name `My Theme!` is found under `My_Theme`,
/// is listed with its display name as it was given, and leaves what is filed
/// under any other name as it was.
pub proof fn lemma_my_theme_is_saved(
    presets: Seq<EntryView>,
    source: Option<Seq<char>>,
    wallpaper: Option<Seq<char>>,
    now: u64,
    other: Seq<char>,
)
    ensures
        ({
            let after = saved_presets(presets, "My Theme!"@, source, wallpaper, now);
            let saved = PresetView {
                name: "My Theme!"@,
                created: now,
                modified: now,
                source,
                wallpaper,
            };
            &&& filed(after, "My_Theme"@) == Some(RecordView::Valid(saved))
            &&& listing(after).contains(saved)
            &&& other != "My_Theme"@ ==> filed(after, other) == filed(presets, other)
        }),
{
    lemma_sanitized_my_theme();
    lemma_saved_is_found(presets, "My Theme!"@, source, wallpaper, now, other);
}

} // verus!

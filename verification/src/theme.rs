//! The records that are kept: the current theme and the presets, and where a theme
//! comes from.

use crate::color::{ColorMode, SchemeType};
use crate::options::chars_opt;
use crate::text::{chars_of, has_prefix, starts_with, string_of, tail_from};
use vstd::prelude::*;
use vstd::string::StringExecFns;

verus! {

/// A named theme that outlives the process.
#[derive(Debug, Clone)]
pub struct PresetMetadata {
    /// The name as the user gave it.
    pub name: String,
    /// When the preset was written, in seconds since the epoch.
    pub created: u64,
    /// When the preset was last written, in seconds since the epoch.
    pub modified: u64,
    /// Where the theme comes from, encoded as one string.
    pub source: Option<String>,
    /// The wallpaper that goes with the theme.
    pub wallpaper: Option<String>,
}

/// A preset as plain values.
pub struct PresetView {
    pub name: Seq<char>,
    pub created: u64,
    pub modified: u64,
    pub source: Option<Seq<char>>,
    pub wallpaper: Option<Seq<char>>,
}

impl View for PresetMetadata {
    type V = PresetView;

    open spec fn view(&self) -> PresetView {
        PresetView {
            name: self.name@,
            created: self.created,
            modified: self.modified,
            source: chars_opt(self.source),
            wallpaper: chars_opt(self.wallpaper),
        }
    }
}

/// The theme that was applied last.
#[derive(Debug, Clone)]
pub struct CurrentTheme {
    /// Where the theme comes from, encoded as one string.
    pub source: String,
    /// When it was applied, in seconds since the epoch.
    pub timestamp: u64,
    /// The preset that was saved along with it.
    pub preset_name: Option<String>,
}

/// The current theme as plain values.
pub struct CurrentThemeView {
    pub source: Seq<char>,
    pub timestamp: u64,
    pub preset_name: Option<Seq<char>>,
}

impl View for CurrentTheme {
    type V = CurrentThemeView;

    open spec fn view(&self) -> CurrentThemeView {
        CurrentThemeView {
            source: self.source@,
            timestamp: self.timestamp,
            preset_name: chars_opt(self.preset_name),
        }
    }
}

/// A copy of an optional string.
pub fn copy_opt(s: &Option<String>) -> (copy: Option<String>)
    ensures
        chars_opt(copy) == chars_opt(*s),
{
    match s {
        Some(text) => Some(text.clone()),
        None => None,
    }
}

impl PresetMetadata {
    /// A copy of the preset.
    pub fn duplicate(&self) -> (copy: PresetMetadata)
        ensures
            copy@ == self@,
    {
        PresetMetadata {
            name: self.name.clone(),
            created: self.created,
            modified: self.modified,
            source: copy_opt(&self.source),
            wallpaper: copy_opt(&self.wallpaper),
        }
    }
}

impl CurrentTheme {
    /// A copy of the record.
    pub fn duplicate(&self) -> (copy: CurrentTheme)
        ensures
            copy@ == self@,
    {
        CurrentTheme {
            source: self.source.clone(),
            timestamp: self.timestamp,
            preset_name: copy_opt(&self.preset_name),
        }
    }
}

/// Where a theme comes from.
#[derive(Debug, Clone)]
pub enum ThemeSource {
    /// A colour, as its hex digits.
    Color(String),
    /// A wallpaper, as its path.
    Wallpaper(String),
}

/// A source as plain values.
pub enum SourceView {
    Color(Seq<char>),
    Wallpaper(Seq<char>),
}

impl View for ThemeSource {
    type V = SourceView;

    open spec fn view(&self) -> SourceView {
        match self {
            ThemeSource::Color(hex) => SourceView::Color(hex@),
            ThemeSource::Wallpaper(path) => SourceView::Wallpaper(path@),
        }
    }
}

/// What stands before a colour in an encoded source.
pub open spec fn color_tag() -> Seq<char> {
    "color_"@
}

/// What stands before a path in an encoded source.
pub open spec fn wallpaper_tag() -> Seq<char> {
    "wallpaper_"@
}

/// A source as one string: its tag, then the colour or the path.
pub open spec fn encoded(source: SourceView) -> Seq<char> {
    match source {
        SourceView::Color(hex) => color_tag() + hex,
        SourceView::Wallpaper(path) => wallpaper_tag() + path,
    }
}

/// The source that a string encodes, by its tag; none without a tag.
pub open spec fn decoded(text: Seq<char>) -> Option<SourceView> {
    if has_prefix(text, color_tag()) {
        Some(SourceView::Color(text.skip(color_tag().len() as int)))
    } else if has_prefix(text, wallpaper_tag()) {
        Some(SourceView::Wallpaper(text.skip(wallpaper_tag().len() as int)))
    } else {
        None
    }
}

impl ThemeSource {
    /// Encodes the source as one string.
    pub fn encode(&self) -> (text: String)
        ensures
            text@ == encoded(self@),
    {
        match self {
            ThemeSource::Color(hex) => String::from_str("color_").concat(hex.as_str()),
            ThemeSource::Wallpaper(path) => String::from_str("wallpaper_").concat(path.as_str()),
        }
    }

    /// Reads a source back from a string.
    pub fn decode(text: &str) -> (source: Option<ThemeSource>)
        ensures
            match source {
                Some(s) => decoded(text@) == Some(s@),
                None => decoded(text@) is None,
            },
    {
        let v = chars_of(text);
        proof {
            reveal_strlit("color_");
            reveal_strlit("wallpaper_");
        }
        if starts_with(&v, "color_") {
            Some(ThemeSource::Color(string_of(&tail_from(&v, 6))))
        } else if starts_with(&v, "wallpaper_") {
            Some(ThemeSource::Wallpaper(string_of(&tail_from(&v, 10))))
        } else {
            None
        }
    }
}

/// Every source comes back from its encoding.
pub proof fn lemma_source_round_trip(source: SourceView)
    ensures
        decoded(encoded(source)) == Some(source),
{
    reveal_strlit("color_");
    reveal_strlit("wallpaper_");
    match source {
        SourceView::Color(hex) => {
            let text = color_tag() + hex;
            assert(text.take(color_tag().len() as int) =~= color_tag());
            assert(text.skip(color_tag().len() as int) =~= hex);
        },
        SourceView::Wallpaper(path) => {
            let text = wallpaper_tag() + path;
            assert(text[0] == 'w');
            assert(color_tag()[0] == 'c');
            assert(!has_prefix(text, color_tag())) by {
                if has_prefix(text, color_tag()) {
                    assert(text.take(color_tag().len() as int)[0] == text[0]);
                }
            }
            assert(text.take(wallpaper_tag().len() as int) =~= wallpaper_tag());
            assert(text.skip(wallpaper_tag().len() as int) =~= path);
        },
    }
}

/// What the paint tool is asked to do.
#[derive(Debug, Clone)]
pub struct PaintRequest {
    /// The mode to paint in.
    pub mode: ColorMode,
    /// The scheme to paint with.
    pub scheme: SchemeType,
    /// The colour or the image to paint from.
    pub target: ThemeSource,
}

/// A paint request as plain values.
pub struct PaintView {
    pub mode: ColorMode,
    pub scheme: SchemeType,
    pub target: SourceView,
}

impl View for PaintRequest {
    type V = PaintView;

    open spec fn view(&self) -> PaintView {
        PaintView { mode: self.mode, scheme: self.scheme, target: self.target@ }
    }
}

/// The arguments of the paint tool for a request: the mode, the scheme, then the
/// colour or the image.
pub open spec fn paint_arguments(request: PaintView) -> Seq<Seq<char>> {
    match request.target {
        SourceView::Color(hex) => seq![
            "-m"@,
            request.mode.name(),
            "-t"@,
            request.scheme.name(),
            "color"@,
            "hex"@,
            hex,
        ],
        SourceView::Wallpaper(path) => seq![
            "-m"@,
            request.mode.name(),
            "-t"@,
            request.scheme.name(),
            "image"@,
            path,
        ],
    }
}

impl PaintRequest {
    /// The arguments to call the paint tool with.
    pub fn arguments(&self) -> (args: Vec<String>)
        ensures
            crate::options::texts(args@) == paint_arguments(self@),
    {
        let mut args: Vec<String> = Vec::new();
        args.push(String::from_str("-m"));
        args.push(String::from_str(self.mode.as_str()));
        args.push(String::from_str("-t"));
        args.push(String::from_str(self.scheme.as_str()));
        match &self.target {
            ThemeSource::Color(hex) => {
                args.push(String::from_str("color"));
                args.push(String::from_str("hex"));
                args.push(hex.clone());
            },
            ThemeSource::Wallpaper(path) => {
                args.push(String::from_str("image"));
                args.push(path.clone());
            },
        }
        proof {
            assert(crate::options::texts(args@) =~= paint_arguments(self@));
        }
        args
    }
}

} // verus!

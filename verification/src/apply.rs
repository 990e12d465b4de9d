//! Applying a theme: what is asked of the paint tool, and what the state is once
//! the theme is applied.

use crate::color::{mode_of, scheme_of, ColorMode, SchemeType};
use crate::error::ChromashError;
use crate::extract::{average_color, get_average_color, is_decode_failure, Rgb};
use crate::options::{chars_opt, no_options, ThemeOptions, ThemeOptionsView};
use crate::store::{
    filed, no_directory, no_metadata, sanitized, saved_presets, ApiView, ChromashApi, RecordView,
};
use crate::theme::{
    decoded, encoded, CurrentTheme, CurrentThemeView, PaintRequest, PaintView, PresetMetadata,
    PresetView, SourceView, ThemeSource,
};
use vstd::prelude::*;
use vstd::string::StringExecFns;

verus! {

/// The request to paint from a colour: the mode and the scheme that were asked
/// for, or else the light mode and the tonal-spot scheme.
pub open spec fn color_request(color: Seq<char>, o: ThemeOptionsView) -> PaintView {
    PaintView {
        mode: match o.mode {
            Some(m) => m,
            None => ColorMode::Light,
        },
        scheme: match o.scheme {
            Some(s) => s,
            None => SchemeType::TonalSpot,
        },
        target: SourceView::Color(color),
    }
}

/// The request to paint from a wallpaper: the mode and the scheme that were asked
/// for, or else those that follow from the colour picked out of the image.
pub open spec fn wallpaper_request(path: Seq<char>, picked: Rgb, o: ThemeOptionsView) -> PaintView {
    PaintView {
        mode: match o.mode {
            Some(m) => m,
            None => mode_of(picked.0, picked.1, picked.2),
        },
        scheme: match o.scheme {
            Some(s) => s,
            None => scheme_of(picked.0, picked.1, picked.2),
        },
        target: SourceView::Wallpaper(path),
    }
}

/// The name of the preset that the options ask to save: there is one only where
/// saving is asked for and a name is given.
pub open spec fn preset_asked(o: ThemeOptionsView) -> Option<Seq<char>> {
    if o.save_preset {
        o.preset_name
    } else {
        None
    }
}

/// The state after a theme is applied: the current theme is replaced outright,
/// and the preset that was asked for, if any, is saved with the same source.
pub open spec fn recorded(
    api: ApiView,
    source: SourceView,
    wallpaper: Option<Seq<char>>,
    o: ThemeOptionsView,
    now: u64,
) -> ApiView {
    ApiView {
        current: Some(
            CurrentThemeView {
                source: encoded(source),
                timestamp: now,
                preset_name: preset_asked(o),
            },
        ),
        presets: match preset_asked(o) {
            Some(name) => saved_presets(api.presets, name, Some(encoded(source)), wallpaper, now),
            None => api.presets,
        },
    }
}

/// What a preset leads to when it is applied. A colour source is applied as it is.
/// A wallpaper source is applied if its file is there; failing that, the preset's
/// wallpaper is, if that file is there. Otherwise there is nothing to apply.
pub open spec fn action_of(p: PresetView, source_exists: bool, wallpaper_exists: bool) -> Option<
    SourceView,
> {
    let from_source = match p.source {
        Some(text) => decoded(text),
        None => None,
    };
    match from_source {
        Some(SourceView::Color(hex)) => Some(SourceView::Color(hex)),
        Some(SourceView::Wallpaper(path)) if source_exists => Some(SourceView::Wallpaper(path)),
        _ => match p.wallpaper {
            Some(path) if wallpaper_exists => Some(SourceView::Wallpaper(path)),
            _ => None,
        },
    }
}

/// The words of the error for a preset that leads to nothing.
pub open spec fn not_applicable(name: Seq<char>) -> Seq<char> {
    "Unable to apply preset: "@ + name
}

/// The next step after a preset is applied.
#[derive(Debug, Clone)]
pub enum PresetStep {
    /// The preset held a colour, which is now the current theme: paint it.
    Paint(PaintRequest),
    /// The preset leads to a wallpaper: apply the wallpaper at this path.
    Wallpaper(String),
}

impl ChromashApi {
    /// Replaces the current theme, and saves the preset that the options ask for.
    fn record(
        &mut self,
        source: &ThemeSource,
        wallpaper: Option<String>,
        options: &ThemeOptions,
        now: u64,
    )
        ensures
            final(self)@ == recorded(old(self)@, source@, chars_opt(wallpaper), options@, now),
    {
        let text = source.encode();
        let mut preset_name: Option<String> = None;
        if options.save_preset {
            if let Some(name) = &options.preset_name {
                self.save_preset(name.as_str(), Some(text.clone()), wallpaper, now);
                preset_name = Some(name.clone());
            }
        }
        self.current = Some(CurrentTheme { source: text, timestamp: now, preset_name });
    }

    /// Makes a colour the current theme, and returns the request to paint it.
    /// Nothing here can fail: the state is what holds once the paint tool has done
    /// its part.
    pub fn apply_color(&mut self, color: &str, options: ThemeOptions, now: u64) -> (request:
        PaintRequest)
        ensures
            request@ == color_request(color@, options@),
            final(self)@ == recorded(
                old(self)@,
                SourceView::Color(color@),
                None,
                options@,
                now,
            ),
    {
        let mode = match options.mode {
            Some(m) => m,
            None => ColorMode::Light,
        };
        let scheme = match options.scheme {
            Some(s) => s,
            None => SchemeType::TonalSpot,
        };
        let target = ThemeSource::Color(String::from_str(color));
        self.record(&target, None, &options, now);
        PaintRequest { mode, scheme, target }
    }

    /// Makes a wallpaper the current theme, given the colour picked out of it, and
    /// returns the request to paint from the image.
    pub fn record_wallpaper(
        &mut self,
        path: &str,
        picked: Rgb,
        options: ThemeOptions,
        now: u64,
    ) -> (request: PaintRequest)
        ensures
            request@ == wallpaper_request(path@, picked, options@),
            final(self)@ == recorded(
                old(self)@,
                SourceView::Wallpaper(path@),
                Some(path@),
                options@,
                now,
            ),
    {
        let mode = match options.mode {
            Some(m) => m,
            None => ColorMode::from_brightness(picked.0, picked.1, picked.2),
        };
        let scheme = match options.scheme {
            Some(s) => s,
            None => SchemeType::from_chroma(picked.0, picked.1, picked.2),
        };
        let target = ThemeSource::Wallpaper(String::from_str(path));
        self.record(&target, Some(String::from_str(path)), &options, now);
        PaintRequest { mode, scheme, target }
    }

    /// Applies the wallpaper at `path`, whose file holds `image`. Without colour
    /// extraction the state stays as it is and there is nothing to paint. With it,
    /// an image that cannot be decoded is an error, and the state stays as it is;
    /// otherwise the wallpaper becomes the current theme, and the request to paint
    /// follows from the options and from the dominant colour of the image.
    pub fn apply_wallpaper(
        &mut self,
        path: &str,
        extract_colors: bool,
        image: &[u8],
        options: ThemeOptions,
        now: u64,
    ) -> (request: Result<Option<PaintRequest>, ChromashError>)
        ensures
            !extract_colors ==> (request matches Ok(None)) && *final(self) == *old(self),
            extract_colors ==> match average_color(image@, path@) {
                Some(picked) => {
                    &&& request matches Ok(Some(r)) && r@ == wallpaper_request(
                        path@,
                        picked,
                        options@,
                    )
                    &&& final(self)@ == recorded(
                        old(self)@,
                        SourceView::Wallpaper(path@),
                        Some(path@),
                        options@,
                        now,
                    )
                },
                None => {
                    &&& request matches Err(e) && is_decode_failure(e)
                    &&& *final(self) == *old(self)
                },
            },
    {
        if !extract_colors {
            return Ok(None);
        }
        match get_average_color(image, path) {
            Ok(picked) => Ok(Some(self.record_wallpaper(path, picked, options, now))),
            Err(e) => Err(e),
        }
    }

    /// What applying a preset leads to, given whether the file of its wallpaper
    /// source and the file of its wallpaper are there.
    pub fn preset_action(
        meta: &PresetMetadata,
        name: &str,
        source_exists: bool,
        wallpaper_exists: bool,
    ) -> (action: Result<ThemeSource, ChromashError>)
        ensures
            match action_of(meta@, source_exists, wallpaper_exists) {
                Some(target) => action matches Ok(t) && t@ == target,
                None => action matches Err(e) && e is NotFound && e.detail() == not_applicable(
                    name@,
                ),
            },
    {
        if let Some(text) = &meta.source {
            match ThemeSource::decode(text.as_str()) {
                Some(ThemeSource::Color(hex)) => {
                    return Ok(ThemeSource::Color(hex));
                },
                Some(ThemeSource::Wallpaper(path)) => {
                    if source_exists {
                        return Ok(ThemeSource::Wallpaper(path));
                    }
                },
                None => {},
            }
        }
        if let Some(path) = &meta.wallpaper {
            if wallpaper_exists {
                return Ok(ThemeSource::Wallpaper(path.clone()));
            }
        }
        Err(ChromashError::NotFound(String::from_str("Unable to apply preset: ").concat(name)))
    }

    /// Applies the preset with the given name. A preset that holds a colour makes
    /// that colour the current theme, with no options, and asks for it to be
    /// painted in the light mode with the tonal-spot scheme. A preset that leads
    /// to a wallpaper leaves the state as it is and names the wallpaper to apply.
    /// A preset that cannot be found, read or applied is an error, and the state
    /// stays as it is.
    pub fn apply_preset(
        &mut self,
        name: &str,
        source_exists: bool,
        wallpaper_exists: bool,
        now: u64,
    ) -> (step: Result<PresetStep, ChromashError>)
        ensures
            match filed(old(self)@.presets, sanitized(name@)) {
                Some(RecordView::Valid(p)) => match action_of(p, source_exists, wallpaper_exists) {
                    Some(SourceView::Color(hex)) => {
                        &&& step matches Ok(PresetStep::Paint(r)) && r@ == color_request(
                            hex,
                            no_options(),
                        )
                        &&& final(self)@ == recorded(
                            old(self)@,
                            SourceView::Color(hex),
                            None,
                            no_options(),
                            now,
                        )
                    },
                    Some(SourceView::Wallpaper(path)) => {
                        &&& step matches Ok(PresetStep::Wallpaper(w)) && w@ == path
                        &&& *final(self) == *old(self)
                    },
                    None => {
                        &&& step matches Err(e) && e is NotFound && e.detail() == not_applicable(
                            name@,
                        )
                        &&& *final(self) == *old(self)
                    },
                },
                Some(RecordView::Corrupt(why)) => {
                    &&& step matches Err(e) && e is Json && e.detail() == why
                    &&& *final(self) == *old(self)
                },
                Some(RecordView::Unreadable(why)) => {
                    &&& step matches Err(e) && e is Io && e.detail() == why
                    &&& *final(self) == *old(self)
                },
                Some(RecordView::Missing) => {
                    &&& step matches Err(e) && e is NotFound && e.detail() == no_metadata(name@)
                    &&& *final(self) == *old(self)
                },
                None => {
                    &&& step matches Err(e) && e is NotFound && e.detail() == no_directory(name@)
                    &&& *final(self) == *old(self)
                },
            },
    {
        let meta = match self.find_preset(name) {
            Ok(meta) => meta,
            Err(e) => {
                return Err(e);
            },
        };
        match Self::preset_action(&meta, name, source_exists, wallpaper_exists) {
            Ok(ThemeSource::Color(hex)) => {
                let request = self.apply_color(hex.as_str(), ThemeOptions::default(), now);
                Ok(PresetStep::Paint(request))
            },
            Ok(ThemeSource::Wallpaper(path)) => Ok(PresetStep::Wallpaper(path)),
            Err(e) => Err(e),
        }
    }
}

} // verus!

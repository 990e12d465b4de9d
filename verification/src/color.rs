//! Display mode and scheme variant, and how both follow from a colour.

use crate::text::{
    all_ascii, ascii_lowercase, fold_case, folded, spells, strip_separators, without_separators,
};
use vstd::prelude::*;

verus! {

/// Whether the theme is painted light or dark.
#[derive(Debug, Copy, Clone, PartialEq, Eq, Structural)]
pub enum ColorMode {
    Light,
    Dark,
}

/// The palette family that the paint tool is asked for.
#[derive(Debug, Copy, Clone, PartialEq, Eq, Structural)]
pub enum SchemeType {
    Content,
    Expressive,
    Fidelity,
    FruitSalad,
    Monochrome,
    Neutral,
    Rainbow,
    TonalSpot,
}

/// Perceived brightness of a colour, on the scale of a channel.
pub open spec fn luma(r: u8, g: u8, b: u8) -> int {
    (299 * (r as int) + 587 * (g as int) + 114 * (b as int)) / 1000
}

/// The largest of three channels.
pub open spec fn channel_max(r: u8, g: u8, b: u8) -> int {
    if r >= g && r >= b {
        r as int
    } else if g >= b {
        g as int
    } else {
        b as int
    }
}

/// The smallest of three channels.
pub open spec fn channel_min(r: u8, g: u8, b: u8) -> int {
    if r <= g && r <= b {
        r as int
    } else if g <= b {
        g as int
    } else {
        b as int
    }
}

/// Spread between the strongest and the weakest channel.
pub open spec fn chroma(r: u8, g: u8, b: u8) -> int {
    channel_max(r, g, b) - channel_min(r, g, b)
}

/// The mode that suits a colour: light above a brightness of 128, dark otherwise.
pub open spec fn mode_of(r: u8, g: u8, b: u8) -> ColorMode {
    if luma(r, g, b) > 128 {
        ColorMode::Light
    } else {
        ColorMode::Dark
    }
}

/// The scheme that suits a colour, by its chroma.
pub open spec fn scheme_of(r: u8, g: u8, b: u8) -> SchemeType {
    if chroma(r, g, b) < 30 {
        SchemeType::Neutral
    } else if chroma(r, g, b) < 60 {
        SchemeType::TonalSpot
    } else {
        SchemeType::Expressive
    }
}

/// Computes the chroma of a colour.
pub fn chroma_of(r: u8, g: u8, b: u8) -> (c: u8)
    ensures
        c as int == chroma(r, g, b),
{
    let hi: u8 = if r >= g && r >= b { r } else if g >= b { g } else { b };
    let lo: u8 = if r <= g && r <= b { r } else if g <= b { g } else { b };
    hi - lo
}

/// The mode that a folded word names.
pub open spec fn mode_named(word: Seq<char>) -> Option<ColorMode> {
    if word == "light"@ {
        Some(ColorMode::Light)
    } else if word == "dark"@ {
        Some(ColorMode::Dark)
    } else {
        None
    }
}

/// The scheme that a folded word without separators names: the name of the
/// variant, with or without `scheme` before it.
pub open spec fn scheme_named(word: Seq<char>) -> Option<SchemeType> {
    if word == "content"@ || word == "schemecontent"@ {
        Some(SchemeType::Content)
    } else if word == "expressive"@ || word == "schemeexpressive"@ {
        Some(SchemeType::Expressive)
    } else if word == "fidelity"@ || word == "schemefidelity"@ {
        Some(SchemeType::Fidelity)
    } else if word == "fruitsalad"@ || word == "schemefruitsalad"@ {
        Some(SchemeType::FruitSalad)
    } else if word == "monochrome"@ || word == "schememonochrome"@ {
        Some(SchemeType::Monochrome)
    } else if word == "neutral"@ || word == "schemeneutral"@ {
        Some(SchemeType::Neutral)
    } else if word == "rainbow"@ || word == "schemerainbow"@ {
        Some(SchemeType::Rainbow)
    } else if word == "tonalspot"@ || word == "schemetonalspot"@ {
        Some(SchemeType::TonalSpot)
    } else {
        None
    }
}

/// The mode that a string names, whatever its case.
pub open spec fn mode_parsed(s: Seq<char>) -> Option<ColorMode> {
    mode_named(folded(s))
}

/// The scheme that a string names, whatever its case and its separators.
pub open spec fn scheme_parsed(s: Seq<char>) -> Option<SchemeType> {
    scheme_named(without_separators(folded(s)))
}

impl ColorMode {
    /// The word for the mode.
    pub open spec fn name(self) -> Seq<char> {
        match self {
            ColorMode::Light => "light"@,
            ColorMode::Dark => "dark"@,
        }
    }

    /// The word for the mode, as the paint tool takes it.
    pub fn as_str(&self) -> (s: &'static str)
        ensures
            s@ == self.name(),
    {
        match self {
            ColorMode::Light => "light",
            ColorMode::Dark => "dark",
        }
    }

    /// Reads a mode from its word, in any case.
    pub fn from_str(s: &str) -> (mode: Option<ColorMode>)
        ensures
            mode == mode_parsed(s@),
    {
        let word = fold_case(s);
        if spells(&word, "light") {
            Some(ColorMode::Light)
        } else if spells(&word, "dark") {
            Some(ColorMode::Dark)
        } else {
            None
        }
    }

    /// The mode derived from a colour's brightness.
    pub fn from_brightness(r: u8, g: u8, b: u8) -> (mode: ColorMode)
        ensures
            mode == mode_of(r, g, b),
    {
        let weighted: u32 = r as u32 * 299 + g as u32 * 587 + b as u32 * 114;
        if weighted / 1000 > 128 {
            ColorMode::Light
        } else {
            ColorMode::Dark
        }
    }
}

impl SchemeType {
    /// The canonical name of the scheme.
    pub open spec fn name(self) -> Seq<char> {
        match self {
            SchemeType::Content => "scheme-content"@,
            SchemeType::Expressive => "scheme-expressive"@,
            SchemeType::Fidelity => "scheme-fidelity"@,
            SchemeType::FruitSalad => "scheme-fruit-salad"@,
            SchemeType::Monochrome => "scheme-monochrome"@,
            SchemeType::Neutral => "scheme-neutral"@,
            SchemeType::Rainbow => "scheme-rainbow"@,
            SchemeType::TonalSpot => "scheme-tonal-spot"@,
        }
    }

    /// The canonical name of the scheme, as the paint tool takes it.
    pub fn as_str(&self) -> (s: &'static str)
        ensures
            s@ == self.name(),
    {
        match self {
            SchemeType::Content => "scheme-content",
            SchemeType::Expressive => "scheme-expressive",
            SchemeType::Fidelity => "scheme-fidelity",
            SchemeType::FruitSalad => "scheme-fruit-salad",
            SchemeType::Monochrome => "scheme-monochrome",
            SchemeType::Neutral => "scheme-neutral",
            SchemeType::Rainbow => "scheme-rainbow",
            SchemeType::TonalSpot => "scheme-tonal-spot",
        }
    }

    /// Reads a scheme from its name, in any case, with hyphens or underscores or
    /// neither, with or without `scheme` before it.
    pub fn from_str(s: &str) -> (scheme: Option<SchemeType>)
        ensures
            scheme == scheme_parsed(s@),
    {
        let word = strip_separators(&fold_case(s));
        if spells(&word, "content") || spells(&word, "schemecontent") {
            Some(SchemeType::Content)
        } else if spells(&word, "expressive") || spells(&word, "schemeexpressive") {
            Some(SchemeType::Expressive)
        } else if spells(&word, "fidelity") || spells(&word, "schemefidelity") {
            Some(SchemeType::Fidelity)
        } else if spells(&word, "fruitsalad") || spells(&word, "schemefruitsalad") {
            Some(SchemeType::FruitSalad)
        } else if spells(&word, "monochrome") || spells(&word, "schememonochrome") {
            Some(SchemeType::Monochrome)
        } else if spells(&word, "neutral") || spells(&word, "schemeneutral") {
            Some(SchemeType::Neutral)
        } else if spells(&word, "rainbow") || spells(&word, "schemerainbow") {
            Some(SchemeType::Rainbow)
        } else if spells(&word, "tonalspot") || spells(&word, "schemetonalspot") {
            Some(SchemeType::TonalSpot)
        } else {
            None
        }
    }

    /// The scheme derived from a colour's chroma.
    pub fn from_chroma(r: u8, g: u8, b: u8) -> (scheme: SchemeType)
        ensures
            scheme == scheme_of(r, g, b),
    {
        let c: u8 = chroma_of(r, g, b);
        if c < 30 {
            SchemeType::Neutral
        } else if c < 60 {
            SchemeType::TonalSpot
        } else {
            SchemeType::Expressive
        }
    }
}

/// Brightness orders the modes: a colour no brighter than 128 is dark, a brighter
/// one is light, so two colours on the two sides of that line get different modes.
pub proof fn lemma_mode_monotonic(r1: u8, g1: u8, b1: u8, r2: u8, g2: u8, b2: u8)
    requires
        luma(r1, g1, b1) <= 128,
        luma(r2, g2, b2) > 128,
    ensures
        mode_of(r1, g1, b1) == ColorMode::Dark,
        mode_of(r2, g2, b2) == ColorMode::Light,
        mode_of(r1, g1, b1) != mode_of(r2, g2, b2),
{
}

/// The scheme is a step function of chroma alone, with steps at 30 and at 60.
pub proof fn lemma_scheme_steps(r: u8, g: u8, b: u8)
    ensures
        chroma(r, g, b) < 30 <==> scheme_of(r, g, b) == SchemeType::Neutral,
        30 <= chroma(r, g, b) < 60 <==> scheme_of(r, g, b) == SchemeType::TonalSpot,
        60 <= chroma(r, g, b) <==> scheme_of(r, g, b) == SchemeType::Expressive,
        0 <= chroma(r, g, b) <= 255,
{
}

/// The canonical name `scheme-content` is ASCII, and folded and stripped it reads
/// `schemecontent`.
proof fn lemma_name_content()
    ensures
        all_ascii("scheme-content"@),
        without_separators(ascii_lowercase("scheme-content"@)) == "schemecontent"@,
{
    reveal_strlit("scheme-content");
    reveal_strlit("schemecontent");
    reveal_with_fuel(Seq::filter, 20);
    assert(ascii_lowercase("scheme-content"@) =~= "scheme-content"@);
    assert(without_separators("scheme-content"@) =~= "schemecontent"@);
}

/// The canonical name `scheme-expressive` is ASCII, and folded and stripped it reads
/// `schemeexpressive`.
proof fn lemma_name_expressive()
    ensures
        all_ascii("scheme-expressive"@),
        without_separators(ascii_lowercase("scheme-expressive"@)) == "schemeexpressive"@,
{
    reveal_strlit("scheme-expressive");
    reveal_strlit("schemeexpressive");
    reveal_with_fuel(Seq::filter, 20);
    assert(ascii_lowercase("scheme-expressive"@) =~= "scheme-expressive"@);
    assert(without_separators("scheme-expressive"@) =~= "schemeexpressive"@);
}

/// The canonical name `scheme-fidelity` is ASCII, and folded and stripped it reads
/// `schemefidelity`.
proof fn lemma_name_fidelity()
    ensures
        all_ascii("scheme-fidelity"@),
        without_separators(ascii_lowercase("scheme-fidelity"@)) == "schemefidelity"@,
{
    reveal_strlit("scheme-fidelity");
    reveal_strlit("schemefidelity");
    reveal_with_fuel(Seq::filter, 20);
    assert(ascii_lowercase("scheme-fidelity"@) =~= "scheme-fidelity"@);
    assert(without_separators("scheme-fidelity"@) =~= "schemefidelity"@);
}

/// The canonical name `scheme-fruit-salad` is ASCII, and folded and stripped it reads
/// `schemefruitsalad`.
proof fn lemma_name_fruit_salad()
    ensures
        all_ascii("scheme-fruit-salad"@),
        without_separators(ascii_lowercase("scheme-fruit-salad"@)) == "schemefruitsalad"@,
{
    reveal_strlit("scheme-fruit-salad");
    reveal_strlit("schemefruitsalad");
    reveal_with_fuel(Seq::filter, 20);
    assert(ascii_lowercase("scheme-fruit-salad"@) =~= "scheme-fruit-salad"@);
    assert(without_separators("scheme-fruit-salad"@) =~= "schemefruitsalad"@);
}

/// The canonical name `scheme-monochrome` is ASCII, and folded and stripped it reads
/// `schememonochrome`.
proof fn lemma_name_monochrome()
    ensures
        all_ascii("scheme-monochrome"@),
        without_separators(ascii_lowercase("scheme-monochrome"@)) == "schememonochrome"@,
{
    reveal_strlit("scheme-monochrome");
    reveal_strlit("schememonochrome");
    reveal_with_fuel(Seq::filter, 20);
    assert(ascii_lowercase("scheme-monochrome"@) =~= "scheme-monochrome"@);
    assert(without_separators("scheme-monochrome"@) =~= "schememonochrome"@);
}

/// The canonical name `scheme-neutral` is ASCII, and folded and stripped it reads
/// `schemeneutral`.
proof fn lemma_name_neutral()
    ensures
        all_ascii("scheme-neutral"@),
        without_separators(ascii_lowercase("scheme-neutral"@)) == "schemeneutral"@,
{
    reveal_strlit("scheme-neutral");
    reveal_strlit("schemeneutral");
    reveal_with_fuel(Seq::filter, 20);
    assert(ascii_lowercase("scheme-neutral"@) =~= "scheme-neutral"@);
    assert(without_separators("scheme-neutral"@) =~= "schemeneutral"@);
}

/// The canonical name `scheme-rainbow` is ASCII, and folded and stripped it reads
/// `schemerainbow`.
proof fn lemma_name_rainbow()
    ensures
        all_ascii("scheme-rainbow"@),
        without_separators(ascii_lowercase("scheme-rainbow"@)) == "schemerainbow"@,
{
    reveal_strlit("scheme-rainbow");
    reveal_strlit("schemerainbow");
    reveal_with_fuel(Seq::filter, 20);
    assert(ascii_lowercase("scheme-rainbow"@) =~= "scheme-rainbow"@);
    assert(without_separators("scheme-rainbow"@) =~= "schemerainbow"@);
}

/// The canonical name `scheme-tonal-spot` is ASCII, and folded and stripped it reads
/// `schemetonalspot`.
proof fn lemma_name_tonal_spot()
    ensures
        all_ascii("scheme-tonal-spot"@),
        without_separators(ascii_lowercase("scheme-tonal-spot"@)) == "schemetonalspot"@,
{
    reveal_strlit("scheme-tonal-spot");
    reveal_strlit("schemetonalspot");
    reveal_with_fuel(Seq::filter, 20);
    assert(ascii_lowercase("scheme-tonal-spot"@) =~= "scheme-tonal-spot"@);
    assert(without_separators("scheme-tonal-spot"@) =~= "schemetonalspot"@);
}

/// The sixteen words that name a scheme are all different: the short ones differ
/// in their length or their first character, the long ones in their length or
/// their seventh, and every long one is longer than any short one.
proof fn lemma_scheme_words()
    ensures
        "content"@.len() == 7 && "content"@[0] == 'c',
        "schemecontent"@.len() == 13 && "schemecontent"@[6] == 'c',
        "expressive"@.len() == 10 && "expressive"@[0] == 'e',
        "schemeexpressive"@.len() == 16 && "schemeexpressive"@[6] == 'e',
        "fidelity"@.len() == 8 && "fidelity"@[0] == 'f',
        "schemefidelity"@.len() == 14 && "schemefidelity"@[6] == 'f',
        "fruitsalad"@.len() == 10 && "fruitsalad"@[0] == 'f',
        "schemefruitsalad"@.len() == 16 && "schemefruitsalad"@[6] == 'f',
        "monochrome"@.len() == 10 && "monochrome"@[0] == 'm',
        "schememonochrome"@.len() == 16 && "schememonochrome"@[6] == 'm',
        "neutral"@.len() == 7 && "neutral"@[0] == 'n',
        "schemeneutral"@.len() == 13 && "schemeneutral"@[6] == 'n',
        "rainbow"@.len() == 7 && "rainbow"@[0] == 'r',
        "schemerainbow"@.len() == 13 && "schemerainbow"@[6] == 'r',
        "tonalspot"@.len() == 9 && "tonalspot"@[0] == 't',
        "schemetonalspot"@.len() == 15 && "schemetonalspot"@[6] == 't',
{
    reveal_strlit("content");
    reveal_strlit("schemecontent");
    reveal_strlit("expressive");
    reveal_strlit("schemeexpressive");
    reveal_strlit("fidelity");
    reveal_strlit("schemefidelity");
    reveal_strlit("fruitsalad");
    reveal_strlit("schemefruitsalad");
    reveal_strlit("monochrome");
    reveal_strlit("schememonochrome");
    reveal_strlit("neutral");
    reveal_strlit("schemeneutral");
    reveal_strlit("rainbow");
    reveal_strlit("schemerainbow");
    reveal_strlit("tonalspot");
    reveal_strlit("schemetonalspot");
}

/// Folded and stripped, the canonical name of a scheme names that scheme.
proof fn lemma_stripped_names(v: SchemeType)
    ensures
        scheme_named(without_separators(ascii_lowercase(v.name()))) == Some(v),
        all_ascii(v.name()),
{
    lemma_scheme_words();
    match v {
        SchemeType::Content => lemma_name_content(),
        SchemeType::Expressive => lemma_name_expressive(),
        SchemeType::Fidelity => lemma_name_fidelity(),
        SchemeType::FruitSalad => lemma_name_fruit_salad(),
        SchemeType::Monochrome => lemma_name_monochrome(),
        SchemeType::Neutral => lemma_name_neutral(),
        SchemeType::Rainbow => lemma_name_rainbow(),
        SchemeType::TonalSpot => lemma_name_tonal_spot(),
    }
}

/// Reading back the canonical name of a scheme gives that scheme.
pub proof fn lemma_scheme_round_trip(v: SchemeType)
    ensures
        scheme_parsed(v.name()) == Some(v),
{
    lemma_stripped_names(v);
}

/// A string of ASCII characters that differs from the canonical name of a scheme
/// only in the case of its letters and in its hyphens and underscores reads as
/// that scheme.
pub proof fn lemma_scheme_variants(s: Seq<char>, v: SchemeType)
    requires
        all_ascii(s),
        without_separators(ascii_lowercase(s)) == without_separators(ascii_lowercase(v.name())),
    ensures
        scheme_parsed(s) == Some(v),
{
    lemma_stripped_names(v);
}

/// Reading back the word for a mode gives that mode, and so does any string of
/// ASCII characters that differs from the word only in the case of its letters.
pub proof fn lemma_mode_round_trip(s: Seq<char>, m: ColorMode)
    requires
        s == m.name() || (all_ascii(s) && ascii_lowercase(s) == m.name()),
    ensures
        mode_parsed(s) == Some(m),
{
    reveal_strlit("light");
    reveal_strlit("dark");
    assert(ascii_lowercase("light"@) =~= "light"@);
    assert(ascii_lowercase("dark"@) =~= "dark"@);
}

} // verus!

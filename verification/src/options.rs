//! The options of a theme change, and how they are read from arguments.

use crate::color::{mode_parsed, scheme_parsed, ColorMode, SchemeType};
use crate::text::{chars_of, has_prefix, spells, starts_with};
use vstd::prelude::*;

verus! {

/// What the caller asks of a theme change beyond its source.
#[derive(Debug, Clone)]
pub struct ThemeOptions {
    /// The mode to paint in; derived or defaulted where absent.
    pub mode: Option<ColorMode>,
    /// The scheme to paint with; derived or defaulted where absent.
    pub scheme: Option<SchemeType>,
    /// Whether the change is to be kept as a preset.
    pub save_preset: bool,
    /// The name of that preset.
    pub preset_name: Option<String>,
}

/// The options as plain values.
pub struct ThemeOptionsView {
    pub mode: Option<ColorMode>,
    pub scheme: Option<SchemeType>,
    pub save_preset: bool,
    pub preset_name: Option<Seq<char>>,
}

/// The characters of an optional string.
pub open spec fn chars_opt(s: Option<String>) -> Option<Seq<char>> {
    match s {
        Some(text) => Some(text@),
        None => None,
    }
}

/// The characters of each string.
pub open spec fn texts(v: Seq<String>) -> Seq<Seq<char>> {
    v.map_values(|s: String| s@)
}

impl View for ThemeOptions {
    type V = ThemeOptionsView;

    open spec fn view(&self) -> ThemeOptionsView {
        ThemeOptionsView {
            mode: self.mode,
            scheme: self.scheme,
            save_preset: self.save_preset,
            preset_name: chars_opt(self.preset_name),
        }
    }
}

/// The options when nothing is asked for.
pub open spec fn no_options() -> ThemeOptionsView {
    ThemeOptionsView { mode: None, scheme: None, save_preset: false, preset_name: None }
}

impl Default for ThemeOptions {
    fn default() -> (options: ThemeOptions)
        ensures
            options@ == no_options(),
    {
        ThemeOptions { mode: None, scheme: None, save_preset: false, preset_name: None }
    }
}

/// What an argument means where it stands.
pub enum Token {
    /// A mode flag with a mode after it.
    Mode(ColorMode),
    /// A scheme flag with a scheme after it.
    Scheme(SchemeType),
    /// The flag that asks for a preset, with the name after it if there is one.
    SavePreset(Option<Seq<char>>),
    /// Anything else.
    Plain,
}

/// The meaning of the argument at place `i`. A mode or scheme flag counts as one
/// only with a readable value after it; the preset flag takes the next argument
/// as the name unless that begins with two hyphens.
pub open spec fn token_at(args: Seq<Seq<char>>, i: int) -> Token
    recommends
        0 <= i < args.len(),
{
    let a = args[i];
    if (a == "--mode"@ || a == "-m"@) && i + 1 < args.len() && mode_parsed(args[i + 1]) is Some {
        Token::Mode(mode_parsed(args[i + 1])->0)
    } else if (a == "--scheme"@ || a == "-s"@) && i + 1 < args.len() && scheme_parsed(
        args[i + 1],
    ) is Some {
        Token::Scheme(scheme_parsed(args[i + 1])->0)
    } else if a == "--save-preset"@ {
        if i + 1 < args.len() && !has_prefix(args[i + 1], "--"@) {
            Token::SavePreset(Some(args[i + 1]))
        } else {
            Token::SavePreset(None)
        }
    } else {
        Token::Plain
    }
}

/// How many arguments a token takes up.
pub open spec fn width(t: Token) -> int {
    match t {
        Token::Mode(_) => 2,
        Token::Scheme(_) => 2,
        Token::SavePreset(Some(_)) => 2,
        Token::SavePreset(None) => 1,
        Token::Plain => 1,
    }
}

/// The options after a token.
pub open spec fn with_token(o: ThemeOptionsView, t: Token) -> ThemeOptionsView {
    match t {
        Token::Mode(m) => ThemeOptionsView { mode: Some(m), ..o },
        Token::Scheme(s) => ThemeOptionsView { scheme: Some(s), ..o },
        Token::SavePreset(Some(name)) => ThemeOptionsView {
            save_preset: true,
            preset_name: Some(name),
            ..o
        },
        Token::SavePreset(None) => ThemeOptionsView { save_preset: true, ..o },
        Token::Plain => o,
    }
}

/// The options that the arguments from place `i` on make of the options `o`: a
/// later flag overrides an earlier one.
pub open spec fn options_from(args: Seq<Seq<char>>, i: int, o: ThemeOptionsView) -> ThemeOptionsView
    decreases args.len() - i,
{
    if i < 0 || i >= args.len() {
        o
    } else {
        let t = token_at(args, i);
        options_from(args, i + width(t), with_token(o, t))
    }
}

/// The arguments from place `i` on that are no option, in order.
pub open spec fn plain_from(args: Seq<Seq<char>>, i: int) -> Seq<Seq<char>>
    decreases args.len() - i,
{
    if i < 0 || i >= args.len() {
        Seq::empty()
    } else {
        let t = token_at(args, i);
        if t is Plain {
            seq![args[i]] + plain_from(args, i + 1)
        } else {
            plain_from(args, i + width(t))
        }
    }
}

/// Whether the argument is the given word.
fn is_word(arg: &String, word: &str) -> (same: bool)
    ensures
        same == (arg@ == word@),
{
    let v = chars_of(arg.as_str());
    spells(&v, word)
}

/// Reads the options out of the arguments from place `start_idx` on, and returns
/// them with the arguments that are no option.
pub fn parse_theme_options(args: &[String], start_idx: usize) -> (parsed: (
    ThemeOptions,
    Vec<String>,
))
    ensures
        parsed.0@ == options_from(texts(args@), start_idx as int, no_options()),
        texts(parsed.1@) == plain_from(texts(args@), start_idx as int),
{
    let mut options = ThemeOptions::default();
    let mut remaining_args: Vec<String> = Vec::new();
    let mut i: usize = start_idx;
    let ghost all = texts(args@);
    proof {
        assert(texts(remaining_args@) =~= Seq::<Seq<char>>::empty());
    }
    while i < args.len()
        invariant
            start_idx <= i,
            all == texts(args@),
            all.len() == args.len(),
            options_from(all, i as int, options@) == options_from(
                all,
                start_idx as int,
                no_options(),
            ),
            texts(remaining_args@) + plain_from(all, i as int) == plain_from(all, start_idx as int),
        decreases args.len() - i,
    {
        let ghost t = token_at(all, i as int);
        let ghost before = texts(remaining_args@);
        proof {
            assert(all[i as int] == args@[i as int]@);
            if i + 1 < args.len() {
                assert(all[i as int + 1] == args@[i as int + 1]@);
            }
        }
        let arg = &args[i];
        let has_next = i + 1 < args.len();
        if has_next && (is_word(arg, "--mode") || is_word(arg, "-m")) {
            if let Some(mode) = ColorMode::from_str(args[i + 1].as_str()) {
                options.mode = Some(mode);
                i += 2;
                continue ;
            }
        }
        if has_next && (is_word(arg, "--scheme") || is_word(arg, "-s")) {
            if let Some(scheme) = SchemeType::from_str(args[i + 1].as_str()) {
                proof {
                    lemma_flags_differ();
                }
                options.scheme = Some(scheme);
                i += 2;
                continue ;
            }
        }
        if is_word(arg, "--save-preset") {
            proof {
                lemma_flags_differ();
            }
            options.save_preset = true;
            if has_next && !starts_with(&chars_of(args[i + 1].as_str()), "--") {
                options.preset_name = Some(args[i + 1].clone());
                i += 2;
            } else {
                i += 1;
            }
        } else {
            proof {
                assert(t is Plain);
                assert(texts(remaining_args@.push(args@[i as int])) =~= before + seq![
                    all[i as int],
                ]);
                assert((before + seq![all[i as int]]) + plain_from(all, i as int + 1) =~= before
                    + (seq![all[i as int]] + plain_from(all, i as int + 1)));
            }
            remaining_args.push(arg.clone());
            i += 1;
        }
    }
    proof {
        assert(texts(remaining_args@) + Seq::<Seq<char>>::empty() =~= texts(remaining_args@));
    }
    (options, remaining_args)
}

/// The five flags are five different words.
proof fn lemma_flags_differ()
    ensures
        "--mode"@ != "--scheme"@,
        "--mode"@ != "-s"@,
        "--mode"@ != "--save-preset"@,
        "-m"@ != "--scheme"@,
        "-m"@ != "-s"@,
        "-m"@ != "--save-preset"@,
        "--scheme"@ != "--save-preset"@,
        "-s"@ != "--save-preset"@,
{
    reveal_strlit("--mode");
    reveal_strlit("-m");
    reveal_strlit("--scheme");
    reveal_strlit("-s");
    reveal_strlit("--save-preset");
    assert("--mode"@[2] != "--scheme"@[2]);
    assert("-m"@[1] != "-s"@[1]);
    assert("--scheme"@.len() != "--save-preset"@.len());
}

} // verus!

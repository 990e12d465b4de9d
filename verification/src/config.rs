//! Where things are kept: the directories and files of the theme manager, all of
//! them below the user's home.

use crate::text::{chars_of, extend_with, has_prefix, starts_with, string_of, tail_from};
use vstd::prelude::*;
use vstd::string::StringExecFns;

verus! {

/// A path below a base: the base, a slash unless the base is empty or ends in
/// one, and the rest. A rest that begins with a slash stands alone.
pub open spec fn joined(base: Seq<char>, rest: Seq<char>) -> Seq<char> {
    if rest.len() > 0 && rest[0] == '/' {
        rest
    } else if base.len() == 0 || base.last() == '/' {
        base + rest
    } else {
        base + seq!['/'] + rest
    }
}

/// Joins a path to a base.
pub fn join_path(base: &str, rest: &str) -> (path: String)
    ensures
        path@ == joined(base@, rest@),
{
    let b = chars_of(base);
    let r = chars_of(rest);
    if r.len() > 0 && r[0] == '/' {
        return string_of(&r);
    }
    let mut out: Vec<char> = Vec::new();
    extend_with(&mut out, &b);
    if b.len() > 0 && b[b.len() - 1] != '/' {
        out.push('/');
    }
    extend_with(&mut out, &r);
    proof {
        assert(Seq::<char>::empty() + b@ =~= b@);
    }
    string_of(&out)
}

/// The places of the theme manager.
#[derive(Debug, Clone)]
pub struct Config {
    /// The user's home directory.
    pub home: String,
    /// The user's pictures directory, where one is set.
    pub pictures: Option<String>,
}

impl Config {
    /// The places for a home directory and a pictures directory. Without a home
    /// directory everything lies below the root.
    pub fn new(home: Option<String>, pictures: Option<String>) -> (config: Config)
        ensures
            config.home@ == match home {
                Some(h) => h@,
                None => "/"@,
            },
            config.pictures == pictures,
    {
        let home = match home {
            Some(h) => h,
            None => String::from_str("/"),
        };
        Config { home, pictures }
    }

    /// The directory of the theme manager's own files.
    pub open spec fn config_path(self) -> Seq<char> {
        joined(self.home@, ".config/chromash"@)
    }

    /// The directory that the user's wallpapers lie in.
    pub open spec fn wallpaper_path(self) -> Seq<char> {
        match self.pictures {
            Some(p) => joined(p@, "Wallpapers"@),
            None => joined(self.home@, "Pictures/Wallpapers"@),
        }
    }

    /// The directory of the theme manager's own files.
    pub fn config_dir(&self) -> (path: String)
        ensures
            path@ == self.config_path(),
    {
        join_path(self.home.as_str(), ".config/chromash")
    }

    /// The directory that the user's wallpapers lie in.
    pub fn wallpaper_dir(&self) -> (path: String)
        ensures
            path@ == self.wallpaper_path(),
    {
        match &self.pictures {
            Some(p) => join_path(p.as_str(), "Wallpapers"),
            None => join_path(self.home.as_str(), "Pictures/Wallpapers"),
        }
    }

    /// The directory that the wallpaper daemon shows wallpapers from.
    pub fn hyprpaper_dir(&self) -> (path: String)
        ensures
            path@ == joined(self.home@, ".config/hypr/hyprpaper"@),
    {
        join_path(self.home.as_str(), ".config/hypr/hyprpaper")
    }

    /// The configuration file of the wallpaper daemon.
    pub fn hyprpaper_config(&self) -> (path: String)
        ensures
            path@ == joined(self.home@, ".config/hypr/hyprpaper.conf"@),
    {
        join_path(self.home.as_str(), ".config/hypr/hyprpaper.conf")
    }

    /// The directory of the presets.
    pub fn presets_dir(&self) -> (path: String)
        ensures
            path@ == joined(self.config_path(), "presets"@),
    {
        join_path(self.config_dir().as_str(), "presets")
    }

    /// The file that holds the current theme.
    pub fn current_theme_file(&self) -> (path: String)
        ensures
            path@ == joined(self.config_path(), "current_theme.json"@),
    {
        join_path(self.config_dir().as_str(), "current_theme.json")
    }

    /// The file that holds the preset filed under `dir`.
    pub fn metadata_file(&self, dir: &str) -> (path: String)
        ensures
            path@ == joined(
                joined(joined(self.config_path(), "presets"@), dir@),
                "metadata.json"@,
            ),
    {
        let presets = self.presets_dir();
        let place = join_path(presets.as_str(), dir);
        join_path(place.as_str(), "metadata.json")
    }

    /// A path as the user wrote it, with the home directory for a leading tilde.
    pub open spec fn expanded(self, path: Seq<char>) -> Seq<char> {
        if path.len() > 0 && path[0] == '~' {
            if has_prefix(path, "~/"@) {
                joined(self.home@, path.skip(2))
            } else {
                joined(self.home@, path)
            }
        } else {
            path
        }
    }

    /// Expands a leading tilde: `~/` and what follows lies below the home
    /// directory; any other path that begins with a tilde is taken as a name
    /// below the home directory, tilde and all.
    pub fn expand_home(&self, path: &str) -> (full: String)
        ensures
            full@ == self.expanded(path@),
    {
        let v = chars_of(path);
        proof {
            reveal_strlit("~/");
        }
        if v.len() > 0 && v[0] == '~' {
            if starts_with(&v, "~/") {
                let rest = string_of(&tail_from(&v, 2));
                join_path(self.home.as_str(), rest.as_str())
            } else {
                join_path(self.home.as_str(), path)
            }
        } else {
            string_of(&v)
        }
    }
}

} // verus!

//! Choosing a wallpaper among files, clearing out the old ones, and the words
//! exchanged with the wallpaper daemon.

use crate::error::ChromashError;
use crate::options::{chars_opt, texts};
use crate::text::{
    blank, chars_of, fold_case, folded, has_prefix, part_of, same_chars, spells, starts_with, string_of,
    tail_from,
};
use vstd::prelude::*;
use vstd::string::StringExecFns;

verus! {

/// The place of the last `c` in `s`, or -1 where there is none.
pub open spec fn last_index_of(s: Seq<char>, c: char) -> int
    decreases s.len(),
{
    if s.len() == 0 {
        -1
    } else if s.last() == c {
        s.len() - 1
    } else {
        last_index_of(s.drop_last(), c)
    }
}

/// The last segment of a path: what follows its last slash.
pub open spec fn last_segment(path: Seq<char>) -> Seq<char> {
    path.skip(last_index_of(path, '/') + 1)
}

/// The extension of a path: what follows the last dot of its last segment. There
/// is none where the segment has no dot, where its only dot comes first, and
/// where it is `..`.
pub open spec fn extension(path: Seq<char>) -> Option<Seq<char>> {
    let name = last_segment(path);
    let dot = last_index_of(name, '.');
    if dot <= 0 || name == ".."@ {
        None
    } else {
        Some(name.skip(dot + 1))
    }
}

/// Whether a folded extension is that of an image.
pub open spec fn is_image_word(word: Seq<char>) -> bool {
    word == "png"@ || word == "jpg"@ || word == "jpeg"@ || word == "gif"@ || word == "bmp"@
        || word == "webp"@
}

/// Whether a path has the extension of an image, in any case.
pub open spec fn is_image_path(path: Seq<char>) -> bool {
    match extension(path) {
        Some(ext) => is_image_word(folded(ext)),
        None => false,
    }
}

/// The first of the paths that has the extension of an image.
pub open spec fn first_image_of(paths: Seq<Seq<char>>) -> Option<Seq<char>>
    decreases paths.len(),
{
    if paths.len() == 0 {
        None
    } else if is_image_path(paths[0]) {
        Some(paths[0])
    } else {
        first_image_of(paths.drop_first())
    }
}

/// The wallpaper to use: the one given; failing that, the first image among the
/// daemon's own files; failing that, the first image among the user's wallpapers.
pub open spec fn selection(
    given: Option<Seq<char>>,
    daemon_files: Seq<Seq<char>>,
    user_files: Seq<Seq<char>>,
) -> Option<Seq<char>> {
    if given is Some {
        given
    } else if first_image_of(daemon_files) is Some {
        first_image_of(daemon_files)
    } else {
        first_image_of(user_files)
    }
}

/// The old wallpapers among the paths: every image but the one to keep.
pub open spec fn stale_among(paths: Seq<Seq<char>>, keep: Seq<char>) -> Seq<Seq<char>> {
    paths.filter(|p: Seq<char>| p != keep && is_image_path(p))
}

/// Finds the last `c` among the characters.
fn find_last(v: &Vec<char>, c: char) -> (at: Option<usize>)
    ensures
        match at {
            Some(i) => i < v.len() && i as int == last_index_of(v@, c),
            None => last_index_of(v@, c) == -1,
        },
{
    let mut i: usize = v.len();
    proof {
        assert(v@.take(v.len() as int) =~= v@);
    }
    while i > 0
        invariant
            i <= v.len(),
            last_index_of(v@, c) == last_index_of(v@.take(i as int), c),
        decreases i,
    {
        proof {
            assert(v@.take(i as int).drop_last() =~= v@.take(i as int - 1));
        }
        if v[i - 1] == c {
            return Some(i - 1);
        }
        i -= 1;
    }
    None
}

/// The extension of a path.
pub fn extension_of(path: &str) -> (ext: Option<String>)
    ensures
        chars_opt(ext) == extension(path@),
{
    let v = chars_of(path);
    let start: usize = match find_last(&v, '/') {
        Some(i) => i + 1,
        None => 0,
    };
    let name = tail_from(&v, start);
    if spells(&name, "..") {
        return None;
    }
    match find_last(&name, '.') {
        Some(dot) => {
            if dot == 0 {
                None
            } else {
                Some(string_of(&tail_from(&name, dot + 1)))
            }
        },
        None => None,
    }
}

/// Whether a path has the extension of an image.
pub fn is_image_file(path: &str) -> (yes: bool)
    ensures
        yes == is_image_path(path@),
{
    match extension_of(path) {
        Some(ext) => {
            let word = fold_case(ext.as_str());
            spells(&word, "png") || spells(&word, "jpg") || spells(&word, "jpeg") || spells(
                &word,
                "gif",
            ) || spells(&word, "bmp") || spells(&word, "webp")
        },
        None => false,
    }
}

/// The first of the paths that has the extension of an image.
pub fn first_image(paths: &Vec<String>) -> (found: Option<String>)
    ensures
        chars_opt(found) == first_image_of(texts(paths@)),
{
    let mut i: usize = 0;
    let ghost all = texts(paths@);
    proof {
        assert(all.skip(0) =~= all);
    }
    while i < paths.len()
        invariant
            i <= paths.len(),
            all == texts(paths@),
            first_image_of(all.skip(i as int)) == first_image_of(all),
        decreases paths.len() - i,
    {
        proof {
            assert(all.skip(i as int).drop_first() =~= all.skip(i as int + 1));
            assert(all.skip(i as int)[0] == paths@[i as int]@);
        }
        if is_image_file(paths[i].as_str()) {
            return Some(paths[i].clone());
        }
        i += 1;
    }
    None
}

/// The words of the error when no wallpaper can be chosen.
pub open spec fn no_wallpaper() -> Seq<char> {
    "No wallpaper found"@
}

/// Chooses the wallpaper. `given` is the path that was asked for, if it was and
/// is a file; the other two are the files of the daemon's directory and of the
/// user's wallpaper directory, in the order in which they were found.
pub fn select_wallpaper(
    given: Option<&str>,
    daemon_files: &Vec<String>,
    user_files: &Vec<String>,
) -> (chosen: Result<String, ChromashError>)
    ensures
        match selection(
            match given {
                Some(p) => Some(p@),
                None => None,
            },
            texts(daemon_files@),
            texts(user_files@),
        ) {
            Some(path) => chosen matches Ok(p) && p@ == path,
            None => chosen matches Err(e) && e is NotFound && e.detail() == no_wallpaper(),
        },
{
    if let Some(p) = given {
        return Ok(String::from_str(p));
    }
    if let Some(p) = first_image(daemon_files) {
        return Ok(p);
    }
    if let Some(p) = first_image(user_files) {
        return Ok(p);
    }
    Err(ChromashError::NotFound(String::from_str("No wallpaper found")))
}

/// The old wallpapers to delete from the daemon's directory: every image among
/// its files but the one that is about to be put there.
pub fn stale_wallpapers(files: &Vec<String>, keep: &str) -> (stale: Vec<String>)
    ensures
        texts(stale@) == stale_among(texts(files@), keep@),
{
    let mut stale: Vec<String> = Vec::new();
    let keep_chars = chars_of(keep);
    let mut i: usize = 0;
    let ghost all = texts(files@);
    proof {
        reveal(Seq::filter);
        assert(all.take(0) =~= Seq::<Seq<char>>::empty());
        assert(texts(stale@) =~= Seq::<Seq<char>>::empty());
    }
    while i < files.len()
        invariant
            i <= files.len(),
            all == texts(files@),
            keep_chars@ == keep@,
            texts(stale@) == stale_among(all.take(i as int), keep@),
        decreases files.len() - i,
    {
        let ghost before = texts(stale@);
        proof {
            reveal(Seq::filter);
            assert(all.take(i as int + 1).drop_last() =~= all.take(i as int));
            assert(all.take(i as int + 1).last() == files@[i as int]@);
        }
        let same = same_chars(&chars_of(files[i].as_str()), &keep_chars);
        if !same && is_image_file(files[i].as_str()) {
            stale.push(files[i].clone());
            proof {
                assert(texts(stale@) =~= before.push(files@[i as int]@));
            }
        }
        i += 1;
    }
    proof {
        assert(all.take(files.len() as int) =~= all);
    }
    stale
}

/// How many characters stand from place `from` up to the next line feed.
pub open spec fn line_len(text: Seq<char>, from: int) -> nat
    decreases text.len() - from,
{
    if from < 0 || from >= text.len() || text[from] == '\n' {
        0
    } else {
        1 + line_len(text, from + 1)
    }
}

/// How many characters of white space stand from place `from` on.
pub open spec fn blank_len(s: Seq<char>, from: int) -> nat
    decreases s.len() - from,
{
    if from < 0 || from >= s.len() || !blank(s[from]) {
        0
    } else {
        1 + blank_len(s, from + 1)
    }
}

/// How many characters other than white space stand from place `from` on.
pub open spec fn word_len(s: Seq<char>, from: int) -> nat
    decreases s.len() - from,
{
    if from < 0 || from >= s.len() || blank(s[from]) {
        0
    } else {
        1 + word_len(s, from + 1)
    }
}

/// The line that begins at place `from`, without the line feed that ends it and
/// without a carriage return just before that line feed.
pub open spec fn line_at(text: Seq<char>, from: int) -> Seq<char> {
    let end = from + line_len(text, from);
    if end < text.len() && from < end && text[end - 1] == '\r' {
        text.subrange(from, end - 1)
    } else {
        text.subrange(from, end)
    }
}

/// The second of the fields of a line that white space separates.
pub open spec fn second_field(line: Seq<char>) -> Option<Seq<char>> {
    let first = blank_len(line, 0) as int;
    let gap = first + word_len(line, first);
    let second = gap + blank_len(line, gap);
    let end = second + word_len(line, second);
    if second < end {
        Some(line.subrange(second, end))
    } else {
        None
    }
}

/// The monitor that a line of the daemon's report names: the second field of a
/// line that begins with `Monitor`.
pub open spec fn monitor_in(line: Seq<char>) -> Option<Seq<char>> {
    if has_prefix(line, "Monitor"@) {
        second_field(line)
    } else {
        None
    }
}

/// The monitors that the lines from place `from` on name, in order.
pub open spec fn monitors_from(text: Seq<char>, from: int) -> Seq<Seq<char>>
    decreases text.len() - from,
{
    if from < 0 || from >= text.len() {
        Seq::empty()
    } else {
        let end = from + line_len(text, from);
        let rest = if end < text.len() {
            monitors_from(text, end + 1)
        } else {
            Seq::empty()
        };
        match monitor_in(line_at(text, from)) {
            Some(name) => seq![name] + rest,
            None => rest,
        }
    }
}

/// The place of the next line feed from `from` on, or the end.
fn scan_line(v: &Vec<char>, from: usize) -> (end: usize)
    requires
        from <= v.len(),
    ensures
        end as int == from + line_len(v@, from as int),
        from <= end <= v.len(),
{
    let mut end: usize = from;
    while end < v.len() && v[end] != '\n'
        invariant
            from <= end <= v.len(),
            from + line_len(v@, from as int) == end + line_len(v@, end as int),
        decreases v.len() - end,
    {
        end += 1;
    }
    end
}

/// The place of the next character that is no white space, or the end.
fn scan_blank(v: &Vec<char>, from: usize) -> (end: usize)
    requires
        from <= v.len(),
    ensures
        end as int == from + blank_len(v@, from as int),
        from <= end <= v.len(),
{
    let mut end: usize = from;
    while end < v.len() && v[end].is_whitespace()
        invariant
            from <= end <= v.len(),
            from + blank_len(v@, from as int) == end + blank_len(v@, end as int),
        decreases v.len() - end,
    {
        end += 1;
    }
    end
}

/// The place of the next white space, or the end.
fn scan_word(v: &Vec<char>, from: usize) -> (end: usize)
    requires
        from <= v.len(),
    ensures
        end as int == from + word_len(v@, from as int),
        from <= end <= v.len(),
{
    let mut end: usize = from;
    while end < v.len() && !v[end].is_whitespace()
        invariant
            from <= end <= v.len(),
            from + word_len(v@, from as int) == end + word_len(v@, end as int),
        decreases v.len() - end,
    {
        end += 1;
    }
    end
}

/// The monitor that a line names.
fn monitor_of_line(line: &Vec<char>) -> (name: Option<String>)
    ensures
        chars_opt(name) == monitor_in(line@),
{
    if !starts_with(line, "Monitor") {
        return None;
    }
    let first = scan_blank(line, 0);
    let gap = scan_word(line, first);
    let second = scan_blank(line, gap);
    let end = scan_word(line, second);
    if second < end {
        Some(string_of(&part_of(line, second, end)))
    } else {
        None
    }
}

/// The names of the monitors in the daemon's report: of each line that begins
/// with `Monitor`, the second field.
pub fn monitor_names(report: &str) -> (names: Vec<String>)
    ensures
        texts(names@) == monitors_from(report@, 0),
{
    let v = chars_of(report);
    let mut names: Vec<String> = Vec::new();
    let mut from: usize = 0;
    proof {
        assert(texts(names@) =~= Seq::<Seq<char>>::empty());
    }
    while from < v.len()
        invariant
            from <= v.len(),
            v@ == report@,
            texts(names@) + monitors_from(v@, from as int) == monitors_from(v@, 0),
        decreases v.len() - from,
    {
        let ghost before = texts(names@);
        let end = scan_line(&v, from);
        let stop: usize = if end < v.len() && from < end && v[end - 1] == '\r' {
            end - 1
        } else {
            end
        };
        let line = part_of(&v, from, stop);
        let ghost rest = if end < v.len() {
            monitors_from(v@, end as int + 1)
        } else {
            Seq::<Seq<char>>::empty()
        };
        match monitor_of_line(&line) {
            Some(name) => {
                names.push(name);
                proof {
                    assert(texts(names@) =~= before + seq![name@]);
                    assert((before + seq![name@]) + rest =~= before + (seq![name@] + rest));
                    assert(monitors_from(v@, from as int) == seq![name@] + rest);
                }
            },
            None => {
                proof {
                    assert(monitors_from(v@, from as int) == rest);
                }
            },
        }
        if end >= v.len() {
            proof {
                assert(rest =~= Seq::<Seq<char>>::empty());
                assert(texts(names@) + rest =~= texts(names@));
                assert(monitors_from(v@, from as int) + rest =~= monitors_from(v@, from as int));
                assert(texts(names@) =~= before + monitors_from(v@, from as int));
            }
            return names;
        }
        from = end + 1;
    }
    proof {
        assert(texts(names@) + Seq::<Seq<char>>::empty() =~= texts(names@));
    }
    names
}

/// What the daemon is told to show a wallpaper on a monitor: the monitor, a
/// comma, the path.
pub fn wallpaper_argument(monitor: &str, path: &str) -> (arg: String)
    ensures
        arg@ == monitor@ + ","@ + path@,
{
    String::from_str(monitor).concat(",").concat(path)
}

/// The daemon's configuration for a wallpaper.
pub open spec fn config_text(path: Seq<char>) -> Seq<char> {
    "# hyprpaper configuration - managed by chromash\npreload = "@ + path + "\nwallpaper = ,"@
        + path
        + "\n\n# If you have specific monitor configurations, add them below:\n# wallpaper = HDMI-A-1,"@
        + path + "\n# wallpaper = eDP-1,"@ + path + "\n"@
}

/// Writes out the daemon's configuration for a wallpaper: the wallpaper is
/// preloaded and shown on every monitor.
pub fn hyprpaper_config_text(path: &str) -> (text: String)
    ensures
        text@ == config_text(path@),
{
    String::from_str("# hyprpaper configuration - managed by chromash\npreload = ").concat(
        path,
    ).concat("\nwallpaper = ,").concat(path).concat(
        "\n\n# If you have specific monitor configurations, add them below:\n# wallpaper = HDMI-A-1,",
    ).concat(path).concat("\n# wallpaper = eDP-1,").concat(path).concat("\n")
}

/// Whether a path ends in a file name: its last segment is not empty, and is
/// neither `.` nor `..`.
pub open spec fn names_file(path: Seq<char>) -> bool {
    let name = last_segment(path);
    name.len() > 0 && name != "."@ && name != ".."@
}

/// The words of the error for a path that ends in no file name.
pub open spec fn no_file_name() -> Seq<char> {
    "Invalid file name"@
}

/// The file name that a wallpaper keeps in the daemon's directory: the last
/// segment of its path.
pub fn file_name_of(path: &str) -> (name: Result<String, ChromashError>)
    ensures
        match name {
            Ok(n) => names_file(path@) && n@ == last_segment(path@),
            Err(e) => !names_file(path@) && e is General && e.detail() == no_file_name(),
        },
{
    let v = chars_of(path);
    let start: usize = match find_last(&v, '/') {
        Some(i) => i + 1,
        None => 0,
    };
    let name = tail_from(&v, start);
    if name.len() == 0 || spells(&name, ".") || spells(&name, "..") {
        Err(ChromashError::General(String::from_str("Invalid file name")))
    } else {
        Ok(string_of(&name))
    }
}

} // verus!

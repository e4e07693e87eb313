//! File paths as text: quoting a dropped path for the shell, and where
//! system fonts are looked for.

use vstd::prelude::*;

verus! {

/// `s` with every single quote doubled, as a single-quoted PowerShell
/// string wants it.
pub open spec fn quote_escaped(s: Seq<char>) -> Seq<char>
    decreases s.len(),
{
    if s.len() == 0 {
        Seq::empty()
    } else if s.last() == '\'' {
        quote_escaped(s.drop_last()) + seq!['\'', '\'']
    } else {
        quote_escaped(s.drop_last()).push(s.last())
    }
}

/// What is typed for a dropped path: nothing for an empty path, else the
/// path in single quotes, its own quotes doubled, and a blank.
pub open spec fn spec_format_dropped_path(raw: Seq<char>) -> Seq<char> {
    if raw.len() == 0 {
        Seq::empty()
    } else {
        seq!['\''] + quote_escaped(raw) + seq!['\'', ' ']
    }
}

/// The text to type into PowerShell for a file dropped on the terminal.
pub fn format_dropped_path_for_powershell(raw: &str) -> (typed: String)
    ensures
        typed@ == spec_format_dropped_path(raw@),
{
    let mut typed = String::new();
    if raw.is_empty() {
        return typed;
    }
    typed.push('\'');
    let ghost cs = raw@;
    for c in it: raw.chars()
        invariant
            it.seq() == cs,
            typed@ == seq!['\''] + quote_escaped(cs.take(it.index() as int)),
    {
        assert(cs.take(it.index() + 1).drop_last() =~= cs.take(it.index() as int));
        let ghost before = typed@;
        if c == '\'' {
            typed.push('\'');
            typed.push('\'');
            assert(typed@ =~= before + seq!['\'', '\'']);
        } else {
            typed.push(c);
        }
        assert(typed@ =~= seq!['\''] + quote_escaped(cs.take(it.index() + 1)));
    }
    assert(cs.take(cs.len() as int) =~= cs);
    typed.push('\'');
    typed.push(' ');
    assert(typed@ =~= spec_format_dropped_path(raw@));
    typed
}

/// The texts of a list of strings.
pub open spec fn path_texts(paths: Seq<String>) -> Seq<Seq<char>> {
    paths.map_values(|s: String| s@)
}

/// Where a system font is looked for, in this order: on Windows, on macOS,
/// on Linux.
pub open spec fn spec_system_font_candidates() -> Seq<Seq<char>> {
    seq![
        "C:\\Windows\\Fonts\\arial.ttf"@,
        "C:\\Windows\\Fonts\\arialbd.ttf"@,
        "C:\\Windows\\Fonts\\consola.ttf"@,
        "C:\\Windows\\Fonts\\segoeui.ttf"@,
        "/System/Library/Fonts/SFNS.ttf"@,
        "/System/Library/Fonts/Supplemental/Arial.ttf"@,
        "/System/Library/Fonts/Supplemental/Courier New.ttf"@,
        "/usr/share/fonts/truetype/dejavu/DejaVuSans.ttf"@,
        "/usr/share/fonts/truetype/liberation/LiberationSans-Regular.ttf"@,
        "/usr/share/fonts/truetype/ubuntu/Ubuntu-R.ttf"@,
    ]
}

/// Where a system font is looked for, in order of preference.
pub fn system_font_candidates() -> (paths: Vec<String>)
    ensures
        path_texts(paths@) == spec_system_font_candidates(),
{
    let mut paths: Vec<String> = Vec::new();
    paths.push("C:\\Windows\\Fonts\\arial.ttf".to_owned());
    paths.push("C:\\Windows\\Fonts\\arialbd.ttf".to_owned());
    paths.push("C:\\Windows\\Fonts\\consola.ttf".to_owned());
    paths.push("C:\\Windows\\Fonts\\segoeui.ttf".to_owned());
    paths.push("/System/Library/Fonts/SFNS.ttf".to_owned());
    paths.push("/System/Library/Fonts/Supplemental/Arial.ttf".to_owned());
    paths.push("/System/Library/Fonts/Supplemental/Courier New.ttf".to_owned());
    paths.push("/usr/share/fonts/truetype/dejavu/DejaVuSans.ttf".to_owned());
    paths.push("/usr/share/fonts/truetype/liberation/LiberationSans-Regular.ttf".to_owned());
    paths.push("/usr/share/fonts/truetype/ubuntu/Ubuntu-R.ttf".to_owned());
    assert(path_texts(paths@) =~= spec_system_font_candidates());
    paths
}

} // verus!

use vstd::prelude::*;

verus! {

use vstd::string::{StrSliceExecFns, StringExecFns};
use crate::chars::{chars_of, str_eq};
use crate::text_search::{lowercase, lower_of};

/// An icon theme as plain lookup tables: file names, simple and
/// compound file extensions, folder names (closed and expanded), and
/// the fall-back icon names.  The host loads these tables from the icon
/// pack's manifest; with empty tables only the fall-backs are used.
pub struct IconTheme {
    pub file_extensions: Vec<(String, String)>,
    pub file_names: Vec<(String, String)>,
    pub folder_names: Vec<(String, String)>,
    pub folder_names_expanded: Vec<(String, String)>,
    pub file: String,
    pub folder: String,
    pub folder_expanded: String,
}

/// First value bound to `key` in an association list.
pub open spec fn lookup_pairs(ps: Seq<(String, String)>, key: Seq<char>) -> Option<Seq<char>>
    decreases ps.len(),
{
    if ps.len() == 0 {
        None
    } else if ps[0].0@ == key {
        Some(ps[0].1@)
    } else {
        lookup_pairs(ps.skip(1), key)
    }
}

/// The icon bound to the first compound extension of `fl` (everything
/// after any dot from position `d` on) that the table knows.
pub open spec fn ext_lookup(fe: Seq<(String, String)>, fl: Seq<char>, d: int) -> Option<Seq<char>>
    decreases fl.len() - d,
{
    if d < 0 || d >= fl.len() {
        None
    } else if fl[d] == '.' {
        match lookup_pairs(fe, fl.skip(d + 1)) {
            Some(n) => Some(n),
            None => ext_lookup(fe, fl, d + 1),
        }
    } else {
        ext_lookup(fe, fl, d + 1)
    }
}

/// The icon name for a file: its full lowercased name if the theme
/// knows it, else its longest known compound extension, else the
/// theme's plain file icon.
pub open spec fn file_icon_spec(t: IconTheme, fl: Seq<char>) -> Seq<char> {
    match lookup_pairs(t.file_names@, fl) {
        Some(n) => n,
        None => match ext_lookup(t.file_extensions@, fl, 0) {
            Some(n) => n,
            None => t.file@,
        },
    }
}

/// The icon name for a folder: its lowercased name if the theme knows
/// it (in the open or closed table per `is_open`), else the theme's
/// plain folder icon for that state.
pub open spec fn folder_icon_spec(t: IconTheme, fl: Seq<char>, is_open: bool) -> Seq<char> {
    if is_open {
        match lookup_pairs(t.folder_names_expanded@, fl) {
            Some(n) => n,
            None => t.folder_expanded@,
        }
    } else {
        match lookup_pairs(t.folder_names@, fl) {
            Some(n) => n,
            None => t.folder@,
        }
    }
}

/// The full path of one icon file under the icon directory.
pub open spec fn icon_path_spec(base: Seq<char>, name: Seq<char>) -> Seq<char> {
    base + "/"@ + name + ".svg"@
}

/// Look a key up in an association list.
fn lookup(ps: &Vec<(String, String)>, key: &str) -> (r: Option<String>)
    ensures
        r is Some <==> lookup_pairs(ps@, key@) is Some,
        r matches Some(v) ==> lookup_pairs(ps@, key@) == Some(v@),
{
    let n = ps.len();
    let mut i: usize = 0;
    proof {
        assert(ps@.skip(0) =~= ps@);
    }
    while i < n
        invariant
            i <= n == ps@.len(),
            lookup_pairs(ps@, key@) == lookup_pairs(ps@.skip(i as int), key@),
        decreases n - i,
    {
        proof {
            assert(ps@.skip(i as int)[0] == ps@[i as int]);
            assert(ps@.skip(i as int).skip(1) =~= ps@.skip(i as int + 1));
        }
        if str_eq(ps[i].0.as_str(), key) {
            return Some(ps[i].1.clone());
        }
        i = i + 1;
    }
    proof {
        assert(ps@.skip(n as int) =~= Seq::<(String, String)>::empty());
    }
    None
}

/// The icon directory under a resource directory.
pub fn icons_base(resource_dir: &str) -> (r: String)
    ensures
        r@ == resource_dir@ + "/"@
            + "extensions/iconpacks/jonathanharty.gruvbox-material-icon-theme-1.1.5/icons"@,
{
    let s = String::from_str(resource_dir);
    let s = s.concat("/");
    s.concat("extensions/iconpacks/jonathanharty.gruvbox-material-icon-theme-1.1.5/icons")
}

/// The full path of one icon file under the icon directory.
pub fn icon_path(base: &str, name: &str) -> (r: String)
    ensures
        r@ == icon_path_spec(base@, name@),
{
    let s = String::from_str(base);
    let s = s.concat("/");
    let s = s.concat(name);
    s.concat(".svg")
}

/// The icon path for a file name: the theme's icon for the lowercased
/// file name, or for its longest known compound extension, or the
/// theme's plain file icon.
pub fn get_file_icon(theme: &IconTheme, base: &str, filename: &str) -> (r: String)
    ensures
        r@ == icon_path_spec(base@, file_icon_spec(*theme, lower_of(filename@))),
{
    let fl = lowercase(filename);
    let ghost flv = fl@;
    if let Some(n) = lookup(&theme.file_names, fl.as_str()) {
        return icon_path(base, n.as_str());
    }
    let chars = chars_of(fl.as_str());
    let n = chars.len();
    let mut d: usize = 0;
    while d < n
        invariant
            d <= n == flv.len(),
            chars@ == flv,
            fl@ == flv,
            flv == lower_of(filename@),
            lookup_pairs(theme.file_names@, flv) is None,
            ext_lookup(theme.file_extensions@, flv, 0) == ext_lookup(
                theme.file_extensions@,
                flv,
                d as int,
            ),
        decreases n - d,
    {
        if chars[d] == '.' {
            let candidate = fl.as_str().substring_char(d + 1, n);
            if let Some(icon) = lookup(&theme.file_extensions, candidate) {
                proof {
                    assert(candidate@ =~= flv.skip(d as int + 1));
                }
                return icon_path(base, icon.as_str());
            }
            proof {
                assert(candidate@ =~= flv.skip(d as int + 1));
            }
        }
        d = d + 1;
    }
    icon_path(base, theme.file.as_str())
}

/// The icon path for a folder name: the theme's icon for the
/// lowercased folder name in its open or closed state, or the theme's
/// plain folder icon for that state.
pub fn get_folder_icon(theme: &IconTheme, base: &str, folder_name: &str, is_open: bool) -> (r:
    String)
    ensures
        r@ == icon_path_spec(base@, folder_icon_spec(*theme, lower_of(folder_name@), is_open)),
{
    let fl = lowercase(folder_name);
    if is_open {
        match lookup(&theme.folder_names_expanded, fl.as_str()) {
            Some(n) => icon_path(base, n.as_str()),
            None => icon_path(base, theme.folder_expanded.as_str()),
        }
    } else {
        match lookup(&theme.folder_names, fl.as_str()) {
            Some(n) => icon_path(base, n.as_str()),
            None => icon_path(base, theme.folder.as_str()),
        }
    }
}

} // verus!

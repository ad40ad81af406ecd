//! Where the application keeps its files: the data root and the directories below it,
//! and which roots a debug build may be pointed at instead.
use vstd::prelude::*;

use vstd::string::*;

use crate::text::{chars_of, string_of};

verus! {

/// The fixed production data root.
pub const DEFAULT_TM_HOME: &'static str = "C:\\Users\\tkfk0\\Desktop\\codex\\TM";

/// Whether `c` separates path components under the platform separator `sep`: `/`
/// everywhere, and `\` too where it is the platform's separator (Windows).
pub open spec fn is_separator(c: char, sep: char) -> bool {
    c == '/' || c == sep
}

/// A Windows path that is only a drive, such as `C:`.
pub open spec fn bare_drive(root: Seq<char>, sep: char) -> bool {
    &&& sep == '\\'
    &&& root.len() == 2
    &&& root[1] == ':'
    &&& (('A' <= root[0] && root[0] <= 'Z') || ('a' <= root[0] && root[0] <= 'z'))
}

/// `Path::join` with a plain relative component: the component follows the path, after
/// the platform separator unless the path is empty, already ends in a separator, or is a
/// bare Windows drive (`C:` joined with `data` is `C:data`).
pub open spec fn joined_with(root: Seq<char>, component: Seq<char>, sep: char) -> Seq<char> {
    if root.len() == 0 || is_separator(root.last(), sep) || bare_drive(root, sep) {
        root + component
    } else {
        root + seq![sep] + component
    }
}

/// `std::path::MAIN_SEPARATOR`: `\` on Windows, `/` elsewhere.
#[verifier::external_body]
fn platform_separator() -> (r: char)
    ensures
        r == '/' || r == '\\',
{
    std::path::MAIN_SEPARATOR
}

/// Joins a plain relative component (a single name, without separators or a drive) to a
/// path, as `Path::join` does.
fn join_component(root: &str, component: &str, sep: char) -> (r: String)
    requires
        sep == '/' || sep == '\\',
    ensures
        r@ == joined_with(root@, component@, sep),
{
    let chars = chars_of(root);
    let n = chars.len();
    let plain_end = n == 0 || chars[n - 1] == '/' || chars[n - 1] == sep;
    let drive = sep == '\\' && n == 2 && chars[1] == ':' && (('A' <= chars[0] && chars[0] <= 'Z') || (
    'a' <= chars[0] && chars[0] <= 'z'));
    if plain_end || drive {
        root.to_owned().concat(component)
    } else {
        let mut r = root.to_owned();
        crate::text::push_char(&mut r, sep);
        r.concat(component)
    }
}

/// The data root and the layout below it, with the path separator of the platform the
/// home was made on.
#[derive(Debug, Clone, PartialEq, Eq)]
pub struct TmHome {
    root: String,
    separator: char,
}

impl TmHome {
    /// The path of the root.
    pub closed spec fn root_path(&self) -> Seq<char> {
        self.root@
    }

    /// The separator the home's paths are joined with.
    pub closed spec fn separator(&self) -> char {
        if self.separator == '\\' {
            '\\'
        } else {
            '/'
        }
    }

    /// The path of a directory right below the root.
    pub open spec fn below_root(&self, name: Seq<char>) -> Seq<char> {
        joined_with(self.root_path(), name, self.separator())
    }

    /// The path of an entry of a directory right below the root.
    pub open spec fn below_root_twice(&self, name: Seq<char>, entry: Seq<char>) -> Seq<char> {
        joined_with(self.below_root(name), entry, self.separator())
    }

    /// A home at the given root.
    pub fn new(root: &str) -> (h: TmHome)
        ensures
            h.root_path() == root@,
            h.separator() == '/' || h.separator() == '\\',
    {
        TmHome { root: root.to_owned(), separator: platform_separator() }
    }

    /// The production home.
    pub fn production() -> (h: TmHome)
        ensures
            h.root_path() == DEFAULT_TM_HOME@,
            h.separator() == '/' || h.separator() == '\\',
    {
        TmHome::new(DEFAULT_TM_HOME)
    }

    /// The root directory.
    pub fn root(&self) -> (r: &str)
        ensures
            r@ == self.root_path(),
    {
        self.root.as_str()
    }

    fn sep(&self) -> (c: char)
        ensures
            c == self.separator(),
            c == '/' || c == '\\',
    {
        if self.separator == '\\' {
            '\\'
        } else {
            '/'
        }
    }

    /// `<root>/app`.
    pub fn app_dir(&self) -> (r: String)
        ensures
            r@ == self.below_root("app"@),
    {
        join_component(self.root.as_str(), "app", self.sep())
    }

    /// `<root>/data`.
    pub fn data_dir(&self) -> (r: String)
        ensures
            r@ == self.below_root("data"@),
    {
        join_component(self.root.as_str(), "data", self.sep())
    }

    /// `<root>/data/tm.sqlite3`.
    pub fn database_path(&self) -> (r: String)
        ensures
            r@ == self.below_root_twice("data"@, "tm.sqlite3"@),
    {
        join_component(self.data_dir().as_str(), "tm.sqlite3", self.sep())
    }

    /// `<root>/data/attachments`.
    pub fn attachments_dir(&self) -> (r: String)
        ensures
            r@ == self.below_root_twice("data"@, "attachments"@),
    {
        join_component(self.data_dir().as_str(), "attachments", self.sep())
    }

    /// `<root>/data/logs`.
    pub fn logs_dir(&self) -> (r: String)
        ensures
            r@ == self.below_root_twice("data"@, "logs"@),
    {
        join_component(self.data_dir().as_str(), "logs", self.sep())
    }

    /// `<root>/backups`.
    pub fn backups_dir(&self) -> (r: String)
        ensures
            r@ == self.below_root("backups"@),
    {
        join_component(self.root.as_str(), "backups", self.sep())
    }

    /// `<root>/backups/database`.
    pub fn database_backups_dir(&self) -> (r: String)
        ensures
            r@ == self.below_root_twice("backups"@, "database"@),
    {
        join_component(self.backups_dir().as_str(), "database", self.sep())
    }

    /// `<root>/backups/source`.
    pub fn source_backups_dir(&self) -> (r: String)
        ensures
            r@ == self.below_root_twice("backups"@, "source"@),
    {
        join_component(self.backups_dir().as_str(), "source", self.sep())
    }

    /// `<root>/exports`.
    pub fn exports_dir(&self) -> (r: String)
        ensures
            r@ == self.below_root("exports"@),
    {
        join_component(self.root.as_str(), "exports", self.sep())
    }

    /// `<root>/dist`.
    pub fn dist_dir(&self) -> (r: String)
        ensures
            r@ == self.below_root("dist"@),
    {
        join_component(self.root.as_str(), "dist", self.sep())
    }
}

/// A Windows path separator.
pub open spec fn windows_separator(c: char) -> bool {
    c == '\\' || c == '/'
}

/// The components of a Windows path after its drive (`X:` and a separator): the texts
/// between separators, with empty ones and `.` left out, as `Path::components` reads
/// them; the components finished so far and the one being read.
pub open spec fn scan_components(s: Seq<char>) -> (Seq<Seq<char>>, Seq<char>)
    decreases s.len(),
{
    if s.len() == 0 {
        (Seq::empty(), Seq::empty())
    } else {
        let (parts, current) = scan_components(s.drop_last());
        let c = s.last();
        if windows_separator(c) {
            if current.len() == 0 || current == seq!['.'] {
                (parts, Seq::empty())
            } else {
                (parts.push(current), Seq::empty())
            }
        } else {
            (parts, current.push(c))
        }
    }
}

/// The normal components of a Windows path after its drive.
pub open spec fn windows_components(s: Seq<char>) -> Seq<Seq<char>> {
    let (parts, current) = scan_components(s);
    if current.len() == 0 || current == seq!['.'] {
        parts
    } else {
        parts.push(current)
    }
}

/// Whether a Windows path is absolute on a drive: a letter, `:` and a separator.
pub open spec fn drive_absolute(p: Seq<char>) -> bool {
    p.len() >= 3 && (('A' <= p[0] && p[0] <= 'Z') || ('a' <= p[0] && p[0] <= 'z')) && p[1] == ':'
        && windows_separator(p[2])
}

/// The components of the production root below its drive.
pub open spec fn home_components() -> Seq<Seq<char>> {
    seq!["Users"@, "tkfk0"@, "Desktop"@, "codex"@, "TM"@]
}

/// Whether a path may replace the production root in a debug build on Windows: absolute
/// on drive `C`, inside the production root component by component, and without `..`.
pub open spec fn windows_override_allowed(p: Seq<char>) -> bool {
    let parts = windows_components(p.subrange(3, p.len() as int));
    &&& drive_absolute(p)
    &&& (p[0] == 'C' || p[0] == 'c')
    &&& parts.len() >= 5
    &&& parts.subrange(0, 5) == home_components()
    &&& forall|i: int| 0 <= i < parts.len() ==> #[trigger] parts[i] != seq!['.', '.']
}

/// Whether a path may replace the production root in a debug build. The production root
/// is a Windows path, so no path qualifies on other platforms: there an absolute path
/// starts at `/` and cannot lie inside it.
pub fn is_allowed_debug_override(path: &str, windows: bool) -> (r: bool)
    ensures
        r == (windows && windows_override_allowed(path@)),
{
    if !windows {
        return false;
    }
    let p = chars_of(path);
    if !(p.len() >= 3 && (('A' <= p[0] && p[0] <= 'Z') || ('a' <= p[0] && p[0] <= 'z')) && p[1] == ':'
        && (p[2] == '\\' || p[2] == '/')) {
        return false;
    }
    if !(p[0] == 'C' || p[0] == 'c') {
        return false;
    }
    let ghost tail = path@.subrange(3, path@.len() as int);
    let mut parts: Vec<Vec<char>> = Vec::new();
    let mut current: Vec<char> = Vec::new();
    let mut i: usize = 3;
    while i < p.len()
        invariant
            3 <= i <= p@.len(),
            p@ == path@,
            tail == path@.subrange(3, path@.len() as int),
            parts@.map_values(|t: Vec<char>| t@) == scan_components(tail.subrange(0, i - 3)).0,
            current@ == scan_components(tail.subrange(0, i - 3)).1,
        decreases p@.len() - i,
    {
        let ghost sub = tail.subrange(0, i - 2);
        assert(sub.drop_last() == tail.subrange(0, i - 3));
        assert(sub.last() == p@[i as int]);
        let c = p[i];
        if c == '\\' || c == '/' {
            let dot = current.len() == 1 && current[0] == '.';
            if current.len() == 0 || dot {
                proof {
                    if dot {
                        assert(current@ =~= seq!['.']);
                    }
                }
                current = Vec::new();
            } else {
                proof {
                    if current@.len() == 1 {
                        assert(current@ != seq!['.']) by {
                            assert(current@[0] != '.');
                        }
                    }
                }
                let ghost before = parts@.map_values(|t: Vec<char>| t@);
                let done = current;
                current = Vec::new();
                parts.push(done);
                assert(parts@.map_values(|t: Vec<char>| t@) =~= before.push(done@));
            }
        } else {
            current.push(c);
        }
        i = i + 1;
    }
    assert(tail.subrange(0, p@.len() - 3) == tail);
    let dot = current.len() == 1 && current[0] == '.';
    if !(current.len() == 0 || dot) {
        proof {
            if current@.len() == 1 {
                assert(current@ != seq!['.']) by {
                    assert(current@[0] != '.');
                }
            }
        }
        let ghost before = parts@.map_values(|t: Vec<char>| t@);
        parts.push(current);
        assert(parts@.map_values(|t: Vec<char>| t@) =~= before.push(scan_components(tail).1));
    } else {
        proof {
            if dot {
                assert(current@ =~= seq!['.']);
            }
        }
    }
    let ghost all = windows_components(tail);
    assert(parts@.map_values(|t: Vec<char>| t@) == all);
    if parts.len() < 5 {
        return false;
    }
    let expected = home_parts();
    let mut k: usize = 0;
    while k < 5
        invariant
            0 <= k <= 5,
            parts@.len() >= 5,
            expected@.len() == 5,
            forall|m: int| 0 <= m < 5 ==> (#[trigger] expected@[m])@ == home_components()[m],
            parts@.map_values(|t: Vec<char>| t@) == all,
            all == windows_components(path@.subrange(3, path@.len() as int)),
            forall|m: int| 0 <= m < k ==> all[m] == home_components()[m],
        decreases 5 - k,
    {
        assert(parts@[k as int]@ == all[k as int]);
        let a = chars_of(expected[k]);
        if !same_chars(&parts[k], &a) {
            assert(all.subrange(0, 5)[k as int] != home_components()[k as int]);
            return false;
        }
        k = k + 1;
    }
    assert(all.subrange(0, 5) =~= home_components());
    let mut j: usize = 0;
    while j < parts.len()
        invariant
            0 <= j <= parts@.len(),
            parts@.map_values(|t: Vec<char>| t@) == all,
            all == windows_components(path@.subrange(3, path@.len() as int)),
            forall|m: int| 0 <= m < j ==> #[trigger] all[m] != seq!['.', '.'],
        decreases parts@.len() - j,
    {
        assert(parts@[j as int]@ == all[j as int]);
        if parts[j].len() == 2 && parts[j][0] == '.' && parts[j][1] == '.' {
            assert(all[j as int] =~= seq!['.', '.']);
            return false;
        }
        proof {
            if all[j as int].len() == 2 {
                assert(all[j as int] != seq!['.', '.']) by {
                    if all[j as int][0] == '.' {
                        assert(all[j as int][1] != '.');
                    }
                }
            }
        }
        j = j + 1;
    }
    true
}

/// The root a process uses: in a debug build, a non-empty `TM_HOME` setting that is an
/// allowed override (on Windows, inside the production root); otherwise, and always in a
/// release build, the production root.
pub open spec fn chosen_root(setting: Option<Seq<char>>, debug_build: bool, windows: bool) -> Seq<char> {
    match setting {
        Some(v) => if debug_build && v.len() > 0 && windows && windows_override_allowed(v) {
            v
        } else {
            DEFAULT_TM_HOME@
        },
        None => DEFAULT_TM_HOME@,
    }
}

/// The home of a process, from its `TM_HOME` setting (if any) and whether it is a debug
/// build. The platform is the one the home is made on.
pub fn home_from_setting(setting: Option<&str>, debug_build: bool) -> (h: TmHome)
    ensures
        h.separator() == '/' || h.separator() == '\\',
        h.root_path() == chosen_root(
            match setting {
                Some(v) => Some(v@),
                None => None,
            },
            debug_build,
            h.separator() == '\\',
        ),
{
    let production = TmHome::production();
    let windows = production.sep() == '\\';
    match setting {
        Some(v) => {
            if debug_build && v.unicode_len() > 0 && is_allowed_debug_override(v, windows) {
                TmHome { root: v.to_owned(), separator: production.separator }
            } else {
                production
            }
        },
        None => production,
    }
}

/// The components of the production root below its drive.
fn home_parts() -> (v: Vec<&'static str>)
    ensures
        v@.len() == 5,
        forall|m: int| 0 <= m < 5 ==> (#[trigger] v@[m])@ == home_components()[m],
{
    let mut v: Vec<&'static str> = Vec::new();
    v.push("Users");
    v.push("tkfk0");
    v.push("Desktop");
    v.push("codex");
    v.push("TM");
    v
}

/// Whether two character vectors are equal.
fn same_chars(a: &Vec<char>, b: &Vec<char>) -> (r: bool)
    ensures
        r == (a@ == b@),
{
    if a.len() != b.len() {
        return false;
    }
    let mut i: usize = 0;
    while i < a.len()
        invariant
            0 <= i <= a@.len(),
            a@.len() == b@.len(),
            forall|k: int| 0 <= k < i ==> a@[k] == b@[k],
        decreases a@.len() - i,
    {
        if a[i] != b[i] {
            return false;
        }
        i = i + 1;
    }
    assert(a@ =~= b@);
    true
}

} // verus!

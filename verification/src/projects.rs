//! Tauri projects found under a base directory, and the settings of the manager.

use vstd::prelude::*;
use crate::json::{as_str, get, json_get, json_str, parse_file, parsed_file, parsed_string, Json};
use crate::ordering::{is_stable_order, stable_order};
use crate::paths::extension_of;
use crate::text::{append, chars_of, owned};

verus! {

/// A Tauri project as the manager lists it.
#[derive(Clone, Debug)]
pub struct TauriProject {
    pub name: String,
    pub path: String,
    pub tauri_dir: String,
    pub icon_path: String,
    pub icon_data_url: String,
    pub description: String,
    pub version: String,
    pub icon_files: Vec<String>,
    pub has_target: bool,
}

/// The settings of the manager.
#[derive(Clone, Debug)]
pub struct Settings {
    /// The directory whose sub-directories are scanned for projects; empty until chosen.
    pub base_dir: String,
    /// Whether source images are made full-bleed before icons are generated.
    pub full_bleed: bool,
}

/// The value of a setting that is on unless stated otherwise.
pub fn default_true() -> (b: bool)
    ensures
        b,
{
    true
}

impl Default for Settings {
    /// No base directory yet, so that the user is asked for one; full-bleed preparation on.
    fn default() -> (s: Settings)
        ensures
            s.base_dir@ == Seq::<char>::empty(),
            s.full_bleed,
    {
        Settings { base_dir: String::new(), full_bleed: default_true() }
    }
}

/// The digit of value `i` (below 64) of the standard `base64` alphabet (RFC 4648).
pub open spec fn base64_digit(i: int) -> char {
    if i < 26 {
        ('A' as int + i) as char
    } else if i < 52 {
        ('a' as int + i - 26) as char
    } else if i < 62 {
        ('0' as int + i - 52) as char
    } else if i == 62 {
        '+'
    } else {
        '/'
    }
}

/// The `base64` text of `bytes` with the standard alphabet and padding (RFC 4648): each
/// group of three bytes becomes four digits of six bits each; a last group of one or two
/// bytes is padded with `=`.
pub open spec fn base64_standard(bytes: Seq<u8>) -> Seq<char>
    decreases bytes.len(),
{
    if bytes.len() == 0 {
        Seq::empty()
    } else if bytes.len() == 1 {
        let b0 = bytes[0] as int;
        seq![base64_digit(b0 / 4), base64_digit((b0 % 4) * 16), '=', '=']
    } else if bytes.len() == 2 {
        let (b0, b1) = (bytes[0] as int, bytes[1] as int);
        seq![base64_digit(b0 / 4), base64_digit((b0 % 4) * 16 + b1 / 16), base64_digit((b1 % 16) * 4), '=']
    } else {
        let (b0, b1, b2) = (bytes[0] as int, bytes[1] as int, bytes[2] as int);
        seq![
            base64_digit(b0 / 4),
            base64_digit((b0 % 4) * 16 + b1 / 16),
            base64_digit((b1 % 16) * 4 + b2 / 64),
            base64_digit(b2 % 64),
        ] + base64_standard(bytes.skip(3))
    }
}

/// The `base64` text of `len` bytes (four characters for every three bytes begun) fits
/// the largest allocation; `Engine::encode` panics on longer inputs.
pub open spec fn base64_fits(len: nat) -> bool {
    (len + 2) / 3 * 4 <= isize::MAX
}

/// Calls `Engine::encode` of `base64::engine::general_purpose::STANDARD`, the standard
/// alphabet with padding. Claimed, as the crate documents it: the text is the standard
/// `base64` encoding of the bytes, four characters for every three bytes begun.
#[verifier::external_body]
fn encode_base64(bytes: &[u8]) -> (text: String)
    requires
        base64_fits(bytes@.len()),
    ensures
        text@ == base64_standard(bytes@),
        text@.len() == (bytes@.len() + 2) / 3 * 4,
{
    base64::Engine::encode(&base64::engine::general_purpose::STANDARD, bytes)
}

/// The data URL shown for an icon that cannot be read: a transparent pixel.
pub open spec fn blank_icon_url() -> Seq<char> {
    "data:image/png;base64,iVBORw0KGgoAAAANSUhEUgAAAAEAAAABCAYAAAAfFcSJAAAADUlEQVR42mNk+M9QDwADhgGAWjR9awAAAABJRU5ErkJggg=="@
}

/// The data URL of a PNG icon, from its bytes; `None` when the file could not be read.
pub open spec fn icon_url(png: Option<Seq<u8>>) -> Seq<char> {
    match png {
        Some(b) => "data:image/png;base64,"@ + base64_standard(b),
        None => blank_icon_url(),
    }
}

/// The data URL of a PNG icon (see [`icon_url`]).
pub fn icon_to_data_url(png: Option<&[u8]>) -> (url: String)
    requires
        png matches Some(b) ==> base64_fits(b@.len()),
    ensures
        url@ == icon_url(match png {
            Some(b) => Some(b@),
            None => None,
        }),
{
    match png {
        Some(bytes) => {
            let encoded = encode_base64(bytes);
            let mut url = owned("data:image/png;base64,");
            append(&mut url, encoded.as_str());
            url
        },
        None => owned(
            "data:image/png;base64,iVBORw0KGgoAAAANSUhEUgAAAAEAAAABCAYAAAAfFcSJAAAADUlEQVR42mNk+M9QDwADhgGAWjR9awAAAABJRU5ErkJggg==",
        ),
    }
}

/// One entry of a directory listing.
pub struct ListedEntry {
    pub name: String,
    pub is_file: bool,
}

/// The names of the regular files of a listing, in listing order.
pub open spec fn file_names(entries: Seq<ListedEntry>) -> Seq<Seq<char>>
    decreases entries.len(),
{
    if entries.len() == 0 {
        Seq::empty()
    } else {
        let rest = file_names(entries.drop_last());
        if entries.last().is_file {
            rest.push(entries.last().name@)
        } else {
            rest
        }
    }
}

/// The names of the files in an `icons` directory; `listing` is `None` when the directory
/// is missing or unreadable, which lists nothing.
pub fn icon_file_names(listing: Option<&Vec<ListedEntry>>) -> (names: Vec<String>)
    ensures
        names@.map_values(|n: String| n@) == match listing {
            Some(l) => file_names(l@),
            None => Seq::empty(),
        },
{
    let mut names: Vec<String> = Vec::new();
    match listing {
        Some(entries) => {
            let mut i: usize = 0;
            while i < entries.len()
                invariant
                    i <= entries@.len(),
                    names@.map_values(|n: String| n@) == file_names(entries@.take(i as int)),
                decreases entries@.len() - i,
            {
                assert(entries@.take(i + 1).drop_last() =~= entries@.take(i as int));
                let ghost before = names@;
                if entries[i].is_file {
                    names.push(owned(entries[i].name.as_str()));
                    assert(names@.map_values(|n: String| n@) =~= before.map_values(|n: String| n@).push(
                        entries@[i as int].name@,
                    ));
                }
                i = i + 1;
            }
            assert(entries@.take(entries@.len() as int) =~= entries@);
        },
        None => {
            assert(names@.map_values(|n: String| n@) =~= Seq::<Seq<char>>::empty());
        },
    }
    names
}

/// The description of a project: the bundle's long description, else its short one,
/// else nothing.
pub open spec fn description_of(conf: Option<Json>) -> Seq<char> {
    let bundle = match conf {
        Some(c) => json_get(c, "bundle"@),
        None => None,
    };
    let long = match bundle {
        Some(b) => json_str(json_get(b, "longDescription"@)),
        None => None,
    };
    let short = match bundle {
        Some(b) => json_str(json_get(b, "shortDescription"@)),
        None => None,
    };
    match long {
        Some(d) => d,
        None => match short {
            Some(d) => d,
            None => Seq::empty(),
        },
    }
}

/// The version of a project: the `version` of its configuration, else `0.0.0`.
pub open spec fn version_of(conf: Option<Json>) -> Seq<char> {
    match conf {
        Some(c) => match json_str(json_get(c, "version"@)) {
            Some(v) => v,
            None => "0.0.0"@,
        },
        None => "0.0.0"@,
    }
}

/// The product name of a project: the `productName` of its configuration, if a string.
pub open spec fn product_name_of(conf: Option<Json>) -> Option<Seq<char>> {
    match conf {
        Some(c) => json_str(json_get(c, "productName"@)),
        None => None,
    }
}

pub open spec fn opt_json(j: Option<&Json>) -> Option<Json> {
    match j {
        Some(v) => Some(*v),
        None => None,
    }
}

/// The description of a project (see [`description_of`]); `conf` is its parsed
/// `tauri.conf.json`, `None` when unreadable.
pub fn project_description(conf: Option<&Json>) -> (d: String)
    ensures
        d@ == description_of(opt_json(conf)),
{
    let bundle = match conf {
        Some(c) => get(c, "bundle"),
        None => None,
    };
    let long = match bundle {
        Some(b) => as_str(get(b, "longDescription")),
        None => None,
    };
    let short = match bundle {
        Some(b) => as_str(get(b, "shortDescription")),
        None => None,
    };
    match long {
        Some(d) => d,
        None => match short {
            Some(d) => d,
            None => String::new(),
        },
    }
}

/// The version of a project (see [`version_of`]).
pub fn project_version(conf: Option<&Json>) -> (v: String)
    ensures
        v@ == version_of(opt_json(conf)),
{
    match conf {
        Some(c) => match as_str(get(c, "version")) {
            Some(v) => v,
            None => owned("0.0.0"),
        },
        None => owned("0.0.0"),
    }
}

/// The product name of a project (see [`product_name_of`]); `conf` is the text of its
/// `tauri.conf.json`, `None` when it cannot be read.
pub fn read_product_name(conf: Option<&str>) -> (name: Option<String>)
    ensures
        match (name, product_name_of(parsed_file(conf))) {
            (Some(a), Some(b)) => a@ == b,
            (None, None) => true,
            _ => false,
        },
{
    match parse_file(conf) {
        Some(c) => as_str(get(&c, "productName")),
        None => None,
    }
}

/// What is known of a sub-directory of a project while its configuration is looked for.
pub struct SubdirProbe {
    pub is_dir: bool,
    /// It holds `tauri.conf.json`.
    pub has_conf: bool,
    /// Its own sub-directories, `None` when it cannot be read.
    pub children: Option<Vec<ChildProbe>>,
}

/// What is known of a second-level sub-directory of a project.
pub struct ChildProbe {
    pub is_dir: bool,
    pub has_conf: bool,
}

/// What is known of a project directory while its configuration is looked for.
pub struct ConfSearch {
    /// `src-tauri/tauri.conf.json` exists.
    pub standard_exists: bool,
    /// The entries of the directory, in listing order; `None` when it cannot be read.
    pub entries: Option<Vec<SubdirProbe>>,
}

/// Where a project's `tauri.conf.json` was found.
pub enum ConfLocation {
    /// In `src-tauri`.
    Standard,
    /// In the entry at this position.
    InSubdir(usize),
    /// In the child at the second position of the entry at the first.
    InNested(usize, usize),
}

/// The position of the first child that is a directory holding `tauri.conf.json`.
pub open spec fn first_nested(children: Seq<ChildProbe>) -> Option<int>
    decreases children.len(),
{
    if children.len() == 0 {
        None
    } else if children[0].is_dir && children[0].has_conf {
        Some(0)
    } else {
        match first_nested(children.drop_first()) {
            Some(j) => Some(j + 1),
            None => None,
        }
    }
}

/// Where an entry leads: `Some(None)` when it holds the configuration itself,
/// `Some(Some(j))` when its child `j` does, `None` when it leads nowhere.
pub open spec fn entry_match(e: SubdirProbe) -> Option<Option<int>> {
    if !e.is_dir {
        None
    } else if e.has_conf {
        Some(None)
    } else {
        match e.children {
            Some(c) => match first_nested(c@) {
                Some(j) => Some(Some(j)),
                None => None,
            },
            None => None,
        }
    }
}

/// `loc` is where the search finds the configuration: `src-tauri` first, then the entries
/// in listing order, each entry itself before its children (two levels at most).
pub open spec fn is_conf_location(search: ConfSearch, loc: Option<ConfLocation>) -> bool {
    if search.standard_exists {
        loc == Some(ConfLocation::Standard)
    } else {
        match search.entries {
            None => loc is None,
            Some(es) => match loc {
                Some(ConfLocation::InSubdir(i)) => 0 <= i < es@.len() && entry_match(es@[i as int]) == Some(
                    None::<int>,
                ) && forall|k: int| 0 <= k < i ==> #[trigger] entry_match(es@[k]) is None,
                Some(ConfLocation::InNested(i, j)) => 0 <= i < es@.len() && entry_match(es@[i as int]) == Some(
                    Some(j as int),
                ) && forall|k: int| 0 <= k < i ==> #[trigger] entry_match(es@[k]) is None,
                Some(ConfLocation::Standard) => false,
                None => forall|k: int| 0 <= k < es@.len() ==> #[trigger] entry_match(es@[k]) is None,
            },
        }
    }
}

fn nested_conf(children: &Vec<ChildProbe>) -> (j: Option<usize>)
    ensures
        match (j, first_nested(children@)) {
            (Some(a), Some(b)) => a == b,
            (None, None) => true,
            _ => false,
        },
{
    let mut i: usize = 0;
    assert(children@.skip(0) =~= children@);
    while i < children.len()
        invariant
            i <= children@.len(),
            first_nested(children@) == match first_nested(children@.skip(i as int)) {
                Some(j) => Some(j + i),
                None => None,
            },
        decreases children@.len() - i,
    {
        assert(children@.skip(i as int).drop_first() =~= children@.skip(i + 1));
        if children[i].is_dir && children[i].has_conf {
            assert(children@.skip(i as int)[0] == children@[i as int]);
            return Some(i);
        }
        i = i + 1;
    }
    None
}

/// Looks for a project's `tauri.conf.json` (see [`is_conf_location`]).
pub fn find_tauri_conf(search: &ConfSearch) -> (loc: Option<ConfLocation>)
    ensures
        is_conf_location(*search, loc),
{
    if search.standard_exists {
        return Some(ConfLocation::Standard);
    }
    match &search.entries {
        None => None,
        Some(es) => {
            let mut i: usize = 0;
            while i < es.len()
                invariant
                    !search.standard_exists,
                    search.entries == Some(*es),
                    i <= es@.len(),
                    forall|k: int| 0 <= k < i ==> #[trigger] entry_match(es@[k]) is None,
                decreases es@.len() - i,
            {
                let e = &es[i];
                if e.is_dir {
                    if e.has_conf {
                        return Some(ConfLocation::InSubdir(i));
                    }
                    match &e.children {
                        Some(c) => match nested_conf(c) {
                            Some(j) => {
                                assert(entry_match(es@[i as int]) == Some(Some(j as int)));
                                return Some(ConfLocation::InNested(i, j));
                            },
                            None => {},
                        },
                        None => {},
                    }
                }
                i = i + 1;
            }
            None
        },
    }
}

/// The conf location and the files of one project candidate, as gathered from disk.
pub struct FoundConf {
    /// The directory that holds `tauri.conf.json`.
    pub tauri_dir: String,
    /// `icons/icon.png` in that directory.
    pub icon_path: String,
    pub icon_exists: bool,
    /// The text of `tauri.conf.json`; `None` when unreadable.
    pub conf: Option<String>,
    /// The bytes of the icon; `None` when unreadable.
    pub icon_png: Option<Vec<u8>>,
    /// The listing of the `icons` directory; `None` when missing or unreadable.
    pub icon_listing: Option<Vec<ListedEntry>>,
    /// `target` exists in that directory.
    pub has_target: bool,
}

/// An entry of the base directory, as gathered from disk.
pub struct ProjectProbe {
    pub is_dir: bool,
    /// The entry's name, when it is valid UTF-8.
    pub name: Option<String>,
    /// The entry's path.
    pub path: String,
    /// Where its configuration is, when found.
    pub found: Option<FoundConf>,
}

/// The entry is a project: a directory with a configuration and an `icons/icon.png`.
pub open spec fn is_project(p: ProjectProbe) -> bool {
    p.is_dir && p.found is Some && p.found->0.icon_exists
}

/// The name a project is listed under: its directory name, or `Unknown`.
pub open spec fn listed_name(p: ProjectProbe) -> Seq<char> {
    match p.name {
        Some(n) => n@,
        None => "Unknown"@,
    }
}

/// `t` lists the project `p`.
pub open spec fn lists_project(t: TauriProject, p: ProjectProbe) -> bool {
    let f = p.found->0;
    &&& t.name@ == listed_name(p)
    &&& t.path@ == p.path@
    &&& t.tauri_dir@ == f.tauri_dir@
    &&& t.icon_path@ == f.icon_path@
    &&& t.icon_data_url@ == icon_url(match f.icon_png {
        Some(b) => Some(b@),
        None => None,
    })
    &&& t.description@ == description_of(parsed_string(f.conf))
    &&& t.version@ == version_of(parsed_string(f.conf))
    &&& t.icon_files@.map_values(|n: String| n@) == match f.icon_listing {
        Some(l) => file_names(l@),
        None => Seq::empty(),
    }
    &&& t.has_target == f.has_target
}

/// The entries that are projects, in listing order.
pub open spec fn projects_among(probes: Seq<ProjectProbe>) -> Seq<ProjectProbe>
    decreases probes.len(),
{
    if probes.len() == 0 {
        Seq::empty()
    } else {
        let rest = projects_among(probes.drop_last());
        if is_project(probes.last()) {
            rest.push(probes.last())
        } else {
            rest
        }
    }
}

/// The names projects are listed under.
pub open spec fn listed_names(ps: Seq<ProjectProbe>) -> Seq<Seq<char>> {
    ps.map_values(|p: ProjectProbe| listed_name(p))
}

/// Icon files small enough to encode.
pub open spec fn icons_encodable(probes: Seq<ProjectProbe>) -> bool {
    forall|i: int|
        0 <= i < probes.len() ==> (#[trigger] probes[i].found matches Some(f) ==> (f.icon_png matches Some(b)
            ==> base64_fits(b@.len())))
}

proof fn lemma_projects_among_are_projects(probes: Seq<ProjectProbe>, j: int)
    requires
        0 <= j < projects_among(probes).len(),
    ensures
        is_project(projects_among(probes)[j]),
    decreases probes.len(),
{
    let rest = projects_among(probes.drop_last());
    if j < rest.len() {
        lemma_projects_among_are_projects(probes.drop_last(), j);
    }
}

fn build_project(p: &ProjectProbe) -> (t: TauriProject)
    requires
        is_project(*p),
        p.found->0.icon_png matches Some(b) ==> base64_fits(b@.len()),
    ensures
        lists_project(t, *p),
{
    let f = match &p.found {
        Some(f) => f,
        None => {
            assert(false);
            return TauriProject {
                name: String::new(),
                path: String::new(),
                tauri_dir: String::new(),
                icon_path: String::new(),
                icon_data_url: String::new(),
                description: String::new(),
                version: String::new(),
                icon_files: Vec::new(),
                has_target: false,
            };
        },
    };
    let name = match &p.name {
        Some(n) => owned(n.as_str()),
        None => owned("Unknown"),
    };
    let png = match &f.icon_png {
        Some(b) => Some(b.as_slice()),
        None => None,
    };
    let icon_data_url = icon_to_data_url(png);
    let text = match &f.conf {
        Some(c) => Some(c.as_str()),
        None => None,
    };
    let parsed = parse_file(text);
    let conf = parsed.as_ref();
    let listing = match &f.icon_listing {
        Some(l) => Some(l),
        None => None,
    };
    TauriProject {
        name,
        path: owned(p.path.as_str()),
        tauri_dir: owned(f.tauri_dir.as_str()),
        icon_path: owned(f.icon_path.as_str()),
        icon_data_url,
        description: project_description(conf),
        version: project_version(conf),
        icon_files: icon_file_names(listing),
        has_target: f.has_target,
    }
}

/// The projects among the entries of the base directory (see [`is_project`]), each
/// listed by [`lists_project`], sorted by name with a stable sort (projects of equal
/// names keep listing order).
pub fn scan_projects(probes: &Vec<ProjectProbe>) -> (projects: Vec<TauriProject>)
    requires
        icons_encodable(probes@),
    ensures
        ({
            let found = projects_among(probes@);
            &&& projects@.len() == found.len()
            &&& exists|order: Seq<int>|
                #![trigger is_stable_order(listed_names(found), order, false)]
                is_stable_order(listed_names(found), order, false) && forall|i: int|
                    0 <= i < projects@.len() ==> lists_project(#[trigger] projects@[i], found[order[i]])
        }),
{
    let mut kept: Vec<usize> = Vec::new();
    let mut i: usize = 0;
    while i < probes.len()
        invariant
            i <= probes@.len(),
            kept@.len() == projects_among(probes@.take(i as int)).len(),
            forall|j: int|
                0 <= j < kept@.len() ==> #[trigger] kept@[j] < i && probes@[kept@[j] as int]
                    == projects_among(probes@.take(i as int))[j],
        decreases probes@.len() - i,
    {
        assert(probes@.take(i + 1).drop_last() =~= probes@.take(i as int));
        assert(probes@.take(i + 1).last() == probes@[i as int]);
        let p = &probes[i];
        let keep = match &p.found {
            Some(f) => p.is_dir && f.icon_exists,
            None => false,
        };
        if keep {
            kept.push(i);
        }
        i = i + 1;
    }
    assert(probes@.take(probes@.len() as int) =~= probes@);
    let ghost found = projects_among(probes@);
    let mut keys: Vec<Vec<char>> = Vec::new();
    let mut k: usize = 0;
    while k < kept.len()
        invariant
            k <= kept@.len(),
            kept@.len() == found.len(),
            forall|j: int| 0 <= j < kept@.len() ==> #[trigger] kept@[j] < probes@.len() && probes@[kept@[j] as int] == found[j],
            keys@.len() == k,
            forall|j: int| 0 <= j < k ==> #[trigger] keys@[j]@ == listed_name(found[j]),
        decreases kept@.len() - k,
    {
        let p = &probes[kept[k]];
        let key = match &p.name {
            Some(n) => chars_of(n.as_str()),
            None => chars_of("Unknown"),
        };
        keys.push(key);
        k = k + 1;
    }
    let order = stable_order(&keys, false);
    let ghost ord = order@.map_values(|x: usize| x as int);
    assert(keys@.map_values(|key: Vec<char>| key@) =~= listed_names(found));
    let mut projects: Vec<TauriProject> = Vec::new();
    let mut m: usize = 0;
    while m < order.len()
        invariant
            m <= order@.len(),
            found == projects_among(probes@),
            order@.len() == found.len(),
            kept@.len() == found.len(),
            icons_encodable(probes@),
            forall|j: int| 0 <= j < kept@.len() ==> #[trigger] kept@[j] < probes@.len() && probes@[kept@[j] as int] == found[j],
            ord == order@.map_values(|x: usize| x as int),
            is_stable_order(listed_names(found), ord, false),
            projects@.len() == m,
            forall|j: int| 0 <= j < m ==> lists_project(#[trigger] projects@[j], found[ord[j]]),
        decreases order@.len() - m,
    {
        let t = order[m];
        assert(0 <= ord[m as int] < found.len());
        let idx = kept[t];
        proof {
            assert(kept@[t as int] < probes@.len() && probes@[kept@[t as int] as int] == found[t as int]);
            lemma_projects_among_are_projects(probes@, t as int);
            assert(probes@[idx as int].found matches Some(f) ==> (f.icon_png matches Some(b) ==> base64_fits(b@.len())));
        }
        let built = build_project(&probes[idx]);
        projects.push(built);
        m = m + 1;
    }
    projects
}

} // verus!

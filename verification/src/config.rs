//! Where settings are kept, and the checks that settings must pass before
//! they are saved or used.
use vstd::prelude::*;
use crate::archive::{join_path, spec_join_path};
use crate::errors::{ErrorView, SortedError};
use crate::text::{str_to_chars, string_from, trim_bounds, trim_ws};
use crate::datetime::LocalDateTime;
use crate::types::{ArchiveSettings, DatePreview, PathProbe};

verus! {

/// The version written into the settings file.
pub const CONFIG_VERSION: u32 = 1;

/// The settings file's location.
#[derive(Debug, Clone)]
pub struct ConfigStore {
    config_path: String,
}

impl ConfigStore {
    pub closed spec fn path_view(self) -> Seq<char> {
        self.config_path@
    }

    /// The store at the platform's configuration directory.
    pub fn new() -> (r: Result<Self, SortedError>)
        ensures
            match r {
                Ok(store) => exists|dir: Seq<char>| store.path_view() == spec_join_path(
                    dir,
                    "config.toml"@,
                ),
                Err(e) => e@ == ErrorView::NoConfigDirectory,
            },
    {
        match default_config_path() {
            Ok(config_path) => Ok(ConfigStore { config_path }),
            Err(e) => Err(e),
        }
    }

    pub fn from_path(path: String) -> (r: Self)
        ensures
            r.path_view() == path@,
    {
        ConfigStore { config_path: path }
    }

    pub fn config_path(&self) -> (r: &str)
        ensures
            r@ == self.path_view(),
    {
        self.config_path.as_str()
    }
}

/// `directories::ProjectDirs::from(..)` and its `config_dir()`, as a string.
/// Where the directory is depends on the user's environment, so nothing is
/// stated of the result.
#[verifier::external_body]
fn project_config_dir(qualifier: &str, organization: &str, application: &str) -> Option<
    String,
> {
    directories::ProjectDirs::from(qualifier, organization, application).map(
        |dirs| dirs.config_dir().to_string_lossy().into_owned(),
    )
}

/// The settings file inside the configuration directory `dir`, when there is one.
pub fn config_path_in(dir: Option<String>) -> (r: Result<String, SortedError>)
    ensures
        match dir {
            Some(d) => r matches Ok(p) && p@ == spec_join_path(d@, "config.toml"@),
            None => r matches Err(e) && e@ == ErrorView::NoConfigDirectory,
        },
{
    match dir {
        Some(d) => Ok(join_path(d.as_str(), "config.toml")),
        None => Err(SortedError::NoConfigDirectory),
    }
}

/// The qualifier, organization and application name under which this
/// application's configuration directory is looked up.
pub fn app_identifiers() -> (r: (&'static str, &'static str, &'static str))
    ensures
        r.0@ == "com"@,
        r.1@ == "sorted"@,
        r.2@ == "sorted"@,
{
    ("com", "sorted", "sorted")
}

/// `config.toml` in the platform's configuration directory for this
/// application (looked up under `app_identifiers`).
pub fn default_config_path() -> (r: Result<String, SortedError>)
    ensures
        match r {
            Ok(p) => exists|dir: Seq<char>| p@ == spec_join_path(dir, "config.toml"@),
            Err(e) => e@ == ErrorView::NoConfigDirectory,
        },
{
    let (qualifier, organization, application) = app_identifiers();
    let dir = project_config_dir(qualifier, organization, application);
    let ghost d = dir;
    let r = config_path_in(dir);
    proof {
        if r is Ok {
            let p = r->Ok_0;
            assert(p@ == spec_join_path(d->Some_0@, "config.toml"@));
        }
    }
    r
}

/// The specifiers a date format may use after `%`.
pub open spec fn supported_specifier(c: char) -> bool {
    c == 'Y' || c == 'y' || c == 'm' || c == 'b' || c == 'B' || c == 'd' || c == 'e' || c == 'H'
        || c == 'M' || c == 'S' || c == 'F' || c == 'R' || c == 'T'
}

/// The first problem met scanning `s` from the left: a `%` at the end, or a
/// `%` followed by a character that is neither `%` nor a supported specifier.
pub open spec fn specifier_error(s: Seq<char>) -> Option<ErrorView>
    decreases s.len(),
{
    if s.len() == 0 {
        None
    } else if s[0] != '%' {
        specifier_error(s.drop_first())
    } else if s.len() == 1 {
        Some(ErrorView::TrailingPercent)
    } else if s[1] == '%' || supported_specifier(s[1]) {
        specifier_error(s.skip(2))
    } else {
        Some(ErrorView::UnsupportedSpecifier(s[1]))
    }
}

/// Why a date format is refused, if it is: it is blank, or its specifiers fail.
pub open spec fn date_format_error(s: Seq<char>) -> Option<ErrorView> {
    if trim_ws(s).len() == 0 {
        Some(ErrorView::EmptyDateFormat)
    } else {
        specifier_error(s)
    }
}

/// Why a destination root is refused, if it is: it is empty, or something
/// other than a folder stands at it. A root that does not exist yet is
/// accepted; the copy creates it.
pub open spec fn destination_root_error(path: Seq<char>, probe: PathProbe) -> Option<ErrorView> {
    if path.len() == 0 {
        Some(ErrorView::EmptyDestinationRoot)
    } else if probe.exists && !probe.is_dir {
        Some(ErrorView::DestinationRootNotDirectory(path))
    } else {
        None
    }
}

/// Why settings are refused, if they are: first the destination root, then the date format.
pub open spec fn settings_error(settings: ArchiveSettings, probe: PathProbe) -> Option<ErrorView> {
    match destination_root_error(settings.destination_root@, probe) {
        Some(e) => Some(e),
        None => date_format_error(settings.date_format@),
    }
}

pub fn is_supported_specifier(ch: char) -> (r: bool)
    ensures
        r == supported_specifier(ch),
{
    ch == 'Y' || ch == 'y' || ch == 'm' || ch == 'b' || ch == 'B' || ch == 'd' || ch == 'e' || ch
        == 'H' || ch == 'M' || ch == 'S' || ch == 'F' || ch == 'R' || ch == 'T'
}

/// Checks `path`, whose file system state is `probe`, as a destination root.
pub fn validate_destination_root(path: &str, probe: &PathProbe) -> (r: Result<(), SortedError>)
    ensures
        match r {
            Ok(()) => destination_root_error(path@, *probe) is None,
            Err(e) => destination_root_error(path@, *probe) == Some(e@),
        },
{
    if path.unicode_len() == 0 {
        return Err(SortedError::EmptyDestinationRoot);
    }
    if probe.exists && !probe.is_dir {
        return Err(SortedError::DestinationRootNotDirectory(string_from(path)));
    }
    Ok(())
}

/// Checks a date format without rendering it.
pub fn check_date_format(pattern: &str) -> (r: Result<(), SortedError>)
    ensures
        match r {
            Ok(()) => date_format_error(pattern@) is None,
            Err(e) => date_format_error(pattern@) == Some(e@),
        },
{
    let v = str_to_chars(pattern);
    let (a, b) = trim_bounds(&v, false);
    if a == b {
        return Err(SortedError::EmptyDateFormat);
    }
    let n = v.len();
    let mut i: usize = 0;
    assert(v@.skip(0) =~= v@);
    while i < n
        invariant
            i <= n,
            n == v@.len(),
            v@ == pattern@,
            trim_ws(v@).len() > 0,
            specifier_error(v@) == specifier_error(v@.skip(i as int)),
        decreases n - i,
    {
        let ghost rest = v@.skip(i as int);
        let c = v[i];
        assert(rest[0] == c);
        if c != '%' {
            assert(rest.drop_first() =~= v@.skip(i + 1));
            i = i + 1;
        } else {
            if i + 1 >= n {
                return Err(SortedError::TrailingPercent);
            }
            let next = v[i + 1];
            assert(rest[1] == next);
            if next == '%' || is_supported_specifier(next) {
                assert(rest.skip(2) =~= v@.skip(i + 2));
                i = i + 2;
            } else {
                return Err(SortedError::UnsupportedSpecifier(next));
            }
        }
    }
    assert(v@.skip(n as int) =~= Seq::<char>::empty());
    Ok(())
}

/// Checks a date format and previews it at the date-time `now`.
pub fn validate_date_format(pattern: &str, now: &LocalDateTime) -> (r: Result<DatePreview, SortedError>)
    ensures
        match r {
            Ok(preview) => date_format_error(pattern@) is None && preview.pattern@ == pattern@
                && preview.preview@ == now.rendering(pattern@) && preview.preview@.len() > 0,
            Err(e) => date_format_error(pattern@) == Some(e@),
        },
{
    match check_date_format(pattern) {
        Ok(()) => Ok(DatePreview::at(pattern, now)),
        Err(e) => Err(e),
    }
}

/// Checks settings whose destination root's file system state is `probe`:
/// first the destination root, then the date format.
pub fn check_settings(settings: &ArchiveSettings, probe: &PathProbe) -> (r: Result<(), SortedError>)
    ensures
        match r {
            Ok(()) => settings_error(*settings, *probe) is None,
            Err(e) => settings_error(*settings, *probe) == Some(e@),
        },
{
    match validate_destination_root(settings.destination_root.as_str(), probe) {
        Ok(()) => check_date_format(settings.date_format.as_str()),
        Err(e) => Err(e),
    }
}

/// Checks settings whose destination root's file system state is `probe`,
/// and previews the date format at the date-time `now`.
pub fn validate_settings(settings: &ArchiveSettings, probe: &PathProbe, now: &LocalDateTime) -> (r: Result<
    DatePreview,
    SortedError,
>)
    ensures
        match r {
            Ok(preview) => settings_error(*settings, *probe) is None && preview.pattern@
                == settings.date_format@ && preview.preview@ == now.rendering(settings.date_format@)
                && preview.preview@.len() > 0,
            Err(e) => settings_error(*settings, *probe) == Some(e@),
        },
{
    match check_settings(settings, probe) {
        Ok(()) => Ok(DatePreview::at(settings.date_format.as_str(), now)),
        Err(e) => Err(e),
    }
}

} // verus!

//! The overlay's configuration model, its built-in fallback, and where the
//! configuration file is looked for.
use vstd::prelude::*;

verus! {

/// Size, margins and screen corner of the overlay window.
#[derive(Debug, Clone)]
pub struct WindowConfig {
    pub width: i32,
    pub height: i32,
    pub x: i32,
    pub y: i32,
    pub anchor: String,
}

/// How often the statistics are refreshed.
#[derive(Debug, Clone)]
pub struct MonitorConfig {
    pub update_interval_ms: u64,
}

/// Which monitors are switched on.
#[derive(Debug, Clone)]
pub struct FeaturesConfig {
    pub enable_cpu: bool,
    pub enable_mem: bool,
    pub enable_gpu: bool,
    pub enable_storage: bool,
    pub enable_network: bool,
}

/// The network interface to watch; empty means every interface but loopback.
#[derive(Debug, Clone)]
pub struct NetworkConfig {
    pub interface: String,
}

/// The mount points whose usage is shown, in display order.
#[derive(Debug, Clone)]
pub struct StorageConfig {
    pub paths: Vec<String>,
}

/// Everything the monitoring and layout rules read from the configuration
/// file. (The purely visual style settings are floating-point values and are
/// kept by the application.)
#[derive(Debug, Clone)]
pub struct Config {
    pub window: WindowConfig,
    pub monitor: MonitorConfig,
    pub features: FeaturesConfig,
    pub network: NetworkConfig,
    pub storage: StorageConfig,
}

/// The anchor used when the configuration file names none.
pub open spec fn default_anchor_text() -> Seq<char> {
    "top-left"@
}

/// The anchor used when the configuration file names none: `"top-left"`.
pub fn default_anchor() -> (anchor: String)
    ensures
        anchor@ == default_anchor_text(),
{
    "top-left".to_owned()
}

/// The configuration used when no configuration file could be loaded.
pub open spec fn is_fallback_config(c: Config) -> bool {
    &&& c.window.width == 240
    &&& c.window.height == 350
    &&& c.window.x == 40
    &&& c.window.y == 40
    &&& c.window.anchor@ == default_anchor_text()
    &&& c.monitor.update_interval_ms == 1000
    &&& c.features.enable_cpu
    &&& c.features.enable_mem
    &&& c.features.enable_gpu
    &&& c.features.enable_storage
    &&& c.features.enable_network
    &&& c.network.interface@ == Seq::<char>::empty()
    &&& c.storage.paths@.len() == 1
    &&& c.storage.paths@[0]@ == "/"@
}

impl Config {
    /// The built-in configuration: a 240x350 window 40 px from the top-left
    /// corner, refreshed every second, every monitor on, all non-loopback
    /// interfaces summed, and the root file system shown.
    pub fn fallback() -> (c: Config)
        ensures
            is_fallback_config(c),
    {
        let mut paths: Vec<String> = Vec::new();
        paths.push("/".to_owned());
        Config {
            window: WindowConfig { width: 240, height: 350, x: 40, y: 40, anchor: default_anchor() },
            monitor: MonitorConfig { update_interval_ms: 1000 },
            features: FeaturesConfig {
                enable_cpu: true,
                enable_mem: true,
                enable_gpu: true,
                enable_storage: true,
                enable_network: true,
            },
            network: NetworkConfig { interface: String::new() },
            storage: StorageConfig { paths },
        }
    }
}

/// What `std::path::Path::parent` gives for `path`, as text.
pub uninterp spec fn parent_path(path: Seq<char>) -> Option<Seq<char>>;

/// `rest` appended to `base` by the Unix rule of `PathBuf::push`: an
/// absolute `rest` replaces `base`; otherwise a `/` goes between the two
/// unless `base` is empty or already ends in `/` (so an empty `rest` leaves
/// `base` ending in `/`).
pub open spec fn unix_join(base: Seq<char>, rest: Seq<char>) -> Seq<char> {
    if rest.len() > 0 && rest[0] == '/' {
        rest
    } else if base.len() == 0 || base.last() == '/' {
        base + rest
    } else {
        base + seq!['/'] + rest
    }
}

/// Calls `std::path::Path::join` (this program targets Unix). The contract
/// claims that the result follows the documented `PathBuf::push` rule on
/// Unix (`unix_join`).
#[verifier::external_body]
fn join_path(base: &str, rest: &str) -> (joined: String)
    ensures
        joined@ == unix_join(base@, rest@),
{
    std::path::Path::new(base).join(rest).to_string_lossy().into_owned()
}

/// Calls `std::path::Path::parent`. The contract claims only that the result
/// is a function of the text (named `parent_path`).
#[verifier::external_body]
fn path_parent(path: &str) -> (parent: Option<String>)
    ensures
        match parent {
            Some(p) => parent_path(path@) == Some(p@),
            None => parent_path(path@) is None,
        },
{
    match std::path::Path::new(path).parent() {
        Some(p) => Some(p.to_string_lossy().into_owned()),
        None => None,
    }
}

/// The text of an optional string.
pub open spec fn opt_text(o: Option<String>) -> Option<Seq<char>> {
    match o {
        Some(s) => Some(s@),
        None => None,
    }
}

/// The parent directory of an optional path.
pub open spec fn parent_of(p: Option<Seq<char>>) -> Option<Seq<char>> {
    match p {
        Some(q) => parent_path(q),
        None => None,
    }
}

/// `config.toml` inside an optional directory.
pub open spec fn config_file_in(dir: Option<Seq<char>>) -> Option<Seq<char>> {
    match dir {
        Some(d) => Some(unix_join(d, "config.toml"@)),
        None => None,
    }
}

/// The fixed places looked at, in order: the working directory, the user's
/// configuration directory, the system configuration directory.
pub open spec fn standard_locations() -> Seq<Seq<char>> {
    seq!["./config.toml"@, "~/.config/glowlay/config.toml"@, "/etc/glowlay/config.toml"@]
}

/// The search order: the file next to the executable first (when known), then
/// the standard locations, then the file in the project root (when known).
pub open spec fn search_order(exe_config: Option<Seq<char>>, project_config: Option<Seq<char>>) -> Seq<
    Seq<char>,
> {
    let front = match exe_config {
        Some(p) => seq![p] + standard_locations(),
        None => standard_locations(),
    };
    match project_config {
        Some(p) => front.push(p),
        None => front,
    }
}

/// The texts of a vector of strings.
pub open spec fn texts(v: Seq<String>) -> Seq<Seq<char>> {
    v.map_values(|s: String| s@)
}

/// The configuration files to try, in order, given the file next to the
/// executable and the one in the project root, each where it is known.
pub fn search_paths_from(exe_config: Option<String>, project_config: Option<String>) -> (paths: Vec<
    String,
>)
    ensures
        texts(paths@) == search_order(opt_text(exe_config), opt_text(project_config)),
{
    let mut paths: Vec<String> = Vec::new();
    let ghost exe = opt_text(exe_config);
    match exe_config {
        Some(p) => paths.push(p),
        None => {},
    }
    paths.push("./config.toml".to_owned());
    paths.push("~/.config/glowlay/config.toml".to_owned());
    paths.push("/etc/glowlay/config.toml".to_owned());
    match project_config {
        Some(p) => paths.push(p),
        None => {},
    }
    assert(texts(paths@) =~= search_order(exe, opt_text(project_config)));
    paths
}

/// The configuration files to try, in order, for the executable at
/// `exe_path` (`None` where it is unknown): `config.toml` in the executable's
/// directory, the standard locations, and `config.toml` two levels above the
/// executable's directory (the project root during development).
pub fn config_search_paths(exe_path: Option<&str>) -> (paths: Vec<String>)
    ensures
        ({
            let exe_dir = match exe_path {
                Some(e) => parent_path(e@),
                None => None,
            };
            texts(paths@) == search_order(
                config_file_in(exe_dir),
                config_file_in(parent_of(parent_of(exe_dir))),
            )
        }),
{
    let exe_dir = match exe_path {
        Some(e) => path_parent(e),
        None => None,
    };
    let exe_config = match &exe_dir {
        Some(d) => Some(join_path(d.as_str(), "config.toml")),
        None => None,
    };
    let up_one = match &exe_dir {
        Some(d) => path_parent(d.as_str()),
        None => None,
    };
    let project_root = match &up_one {
        Some(d) => path_parent(d.as_str()),
        None => None,
    };
    let project_config = match &project_root {
        Some(d) => Some(join_path(d.as_str(), "config.toml")),
        None => None,
    };
    search_paths_from(exe_config, project_config)
}

/// What to do next while looking for a configuration file among a list of
/// candidates.
#[derive(Debug, Clone, Copy, PartialEq, Eq, Structural)]
pub enum SearchStep {
    /// Try to load the candidate at this index.
    Try(usize),
    /// Use the configuration loaded from the candidate at this index.
    Use(usize),
    /// No candidate loaded: use the built-in configuration.
    Fallback,
}

/// The first step over `count` candidates.
pub open spec fn first_step(count: int) -> SearchStep {
    if count > 0 {
        SearchStep::Try(0)
    } else {
        SearchStep::Fallback
    }
}

/// The step after trying candidate `index` of `count`: use it when it
/// loaded, otherwise try the next one, or fall back after the last.
pub open spec fn step_after(count: int, index: int, loaded: bool) -> SearchStep {
    if loaded {
        SearchStep::Use(index as usize)
    } else if index + 1 < count {
        SearchStep::Try((index + 1) as usize)
    } else {
        SearchStep::Fallback
    }
}

/// The first step of the search over `count` candidates.
pub fn first_search_step(count: usize) -> (step: SearchStep)
    ensures
        step == first_step(count as int),
{
    if count > 0 {
        SearchStep::Try(0)
    } else {
        SearchStep::Fallback
    }
}

/// The step after trying candidate `index` of `count` (`loaded` telling
/// whether it existed, could be read and parsed).
pub fn next_search_step(count: usize, index: usize, loaded: bool) -> (step: SearchStep)
    requires
        index < count,
    ensures
        step == step_after(count as int, index as int, loaded),
{
    if loaded {
        SearchStep::Use(index)
    } else if index + 1 < count {
        SearchStep::Try(index + 1)
    } else {
        SearchStep::Fallback
    }
}

/// The first candidate, from index `i` on, that loads.
pub open spec fn first_loadable_from(loaded: Seq<bool>, i: int) -> Option<int>
    decreases loaded.len() - i,
{
    if i < 0 || i >= loaded.len() {
        None
    } else if loaded[i] {
        Some(i)
    } else {
        first_loadable_from(loaded, i + 1)
    }
}

/// Following the steps settles on the first candidate that loads, or on the
/// built-in configuration when none does: each step keeps the answer the
/// same, and a `Use` or `Fallback` step is that answer.
pub proof fn search_settles_on_first_loadable(loaded: Seq<bool>, index: int)
    requires
        0 <= index < loaded.len(),
        loaded.len() <= usize::MAX,
    ensures
        first_step(loaded.len() as int) == (if loaded.len() > 0 {
            SearchStep::Try(0)
        } else {
            SearchStep::Fallback
        }),
        match step_after(loaded.len() as int, index, loaded[index]) {
            SearchStep::Use(k) => k == index && first_loadable_from(loaded, index) == Some(
                index,
            ),
            SearchStep::Try(j) => j == index + 1 && first_loadable_from(loaded, index)
                == first_loadable_from(loaded, j as int),
            SearchStep::Fallback => first_loadable_from(loaded, index) is None,
        },
        first_loadable_from(loaded, 0) matches Some(k) ==> 0 <= k < loaded.len() && loaded[k]
            && forall|j: int| 0 <= j < k ==> !loaded[j],
{
    lemma_first_loadable(loaded, 0);
    if !loaded[index] {
        assert(first_loadable_from(loaded, index) == first_loadable_from(loaded, index + 1));
        if index + 1 >= loaded.len() {
            assert(first_loadable_from(loaded, index + 1) is None);
        } else {
            assert(((index + 1) as usize) as int == index + 1);
        }
    } else {
        assert((index as usize) as int == index);
    }
}

proof fn lemma_first_loadable(loaded: Seq<bool>, i: int)
    requires
        0 <= i,
    ensures
        first_loadable_from(loaded, i) matches Some(k) ==> i <= k < loaded.len() && loaded[k]
            && forall|j: int| i <= j < k ==> !loaded[j],
        first_loadable_from(loaded, i) is None ==> forall|j: int|
            i <= j < loaded.len() ==> !loaded[j],
    decreases loaded.len() - i,
{
    if i < loaded.len() && !loaded[i] {
        lemma_first_loadable(loaded, i + 1);
    }
}

/// A lower-ranked file never overrides a higher-ranked one. Take two
/// situations that differ only at candidate `c`, which loads in the second:
/// if no candidate ranked before `c` loads, the second uses `c`; otherwise
/// both settle on the same candidate.
pub proof fn higher_ranked_file_wins(loaded1: Seq<bool>, loaded2: Seq<bool>, c: int)
    requires
        loaded1.len() == loaded2.len(),
        0 <= c < loaded2.len(),
        loaded2[c],
        forall|j: int| 0 <= j < loaded1.len() && j != c ==> loaded1[j] == loaded2[j],
    ensures
        (forall|j: int| 0 <= j < c ==> !loaded2[j]) ==> first_loadable_from(loaded2, 0) == Some(
            c,
        ),
        (exists|j: int| 0 <= j < c && loaded2[j]) ==> first_loadable_from(loaded2, 0)
            == first_loadable_from(loaded1, 0),
{
    lemma_first_loadable(loaded1, 0);
    lemma_first_loadable(loaded2, 0);
    if forall|j: int| 0 <= j < c ==> !loaded2[j] {
        match first_loadable_from(loaded2, 0) {
            Some(k) => {
                if k < c {
                    assert(!loaded2[k]);
                }
                if k > c {
                    assert(!loaded2[c]);
                }
            },
            None => {
                assert(!loaded2[c]);
            },
        }
    }
    if exists|j: int| 0 <= j < c && loaded2[j] {
        let w = choose|j: int| 0 <= j < c && loaded2[j];
        assert(loaded1[w]);
        let k1 = first_loadable_from(loaded1, 0);
        let k2 = first_loadable_from(loaded2, 0);
        match k2 {
            Some(b) => {
                if b > w {
                    assert(!loaded2[w]);
                }
                assert(b != c);
                match k1 {
                    Some(a) => {
                        if a < b {
                            assert(loaded1[a] && a != c);
                            assert(!loaded2[a]);
                        }
                        if b < a {
                            assert(loaded2[b] && b != c);
                            assert(!loaded1[b]);
                        }
                    },
                    None => {
                        assert(!loaded1[w]);
                    },
                }
            },
            None => {
                assert(!loaded2[w]);
            },
        }
    }
}

/// Whether `path` can be expanded against `home` without slicing inside a
/// character: a leading `~` must be followed by a one-byte character.
pub open spec fn expandable(path: Seq<char>, home: Option<Seq<char>>) -> bool {
    (home is Some && path.len() > 0 && path[0] == '~') ==> (path.len() >= 2 && (path[1] as u32)
        < 128)
}

/// `path` with a leading `~` replaced by the home directory: the home
/// directory joined with everything after the first two characters. Without a
/// home directory, or without a leading `~`, the path is kept as it is.
pub open spec fn expanded(path: Seq<char>, home: Option<Seq<char>>) -> Seq<char> {
    if path.len() > 0 && path[0] == '~' {
        match home {
            Some(h) => unix_join(h, path.skip(2)),
            None => path,
        }
    } else {
        path
    }
}

/// Expands a leading `~` in a configuration path against the home directory.
pub fn expand_home(path: &str, home: Option<&str>) -> (full: String)
    requires
        expandable(path@, match home {
            Some(h) => Some(h@),
            None => None,
        }),
    ensures
        full@ == expanded(path@, match home {
            Some(h) => Some(h@),
            None => None,
        }),
{
    let n = path.unicode_len();
    if n > 0 && path.get_char(0) == '~' {
        match home {
            Some(h) => {
                let rest = path.substring_char(2, n);
                assert(rest@ =~= path@.skip(2));
                join_path(h, rest)
            },
            None => path.to_owned(),
        }
    } else {
        path.to_owned()
    }
}

/// The search order follows the documented priority: the file next to the
/// executable (when known) comes first, then the working directory, the
/// user's configuration directory and the system directory, in that order,
/// and the project-root file (when known) comes last.
pub proof fn search_order_follows_priority(
    exe_config: Option<Seq<char>>,
    project_config: Option<Seq<char>>,
)
    ensures
        ({
            let order = search_order(exe_config, project_config);
            let first_standard: int = if exe_config is Some {
                1
            } else {
                0
            };
            &&& exe_config matches Some(e) ==> order[0] == e
            &&& order[first_standard] == "./config.toml"@
            &&& order[first_standard + 1] == "~/.config/glowlay/config.toml"@
            &&& order[first_standard + 2] == "/etc/glowlay/config.toml"@
            &&& project_config matches Some(p) ==> order.last() == p
            &&& order.len() == 3 + first_standard + if project_config is Some {
                1int
            } else {
                0
            }
        }),
{
}

/// Expansion changes only paths that start with `~` while a home directory
/// is known.
pub proof fn expansion_touches_only_home_paths(path: Seq<char>, home: Option<Seq<char>>)
    ensures
        (home is None || path.len() == 0 || path[0] != '~') ==> expanded(path, home) == path,
{
}

} // verus!

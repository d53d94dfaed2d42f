//! The configuration file: where it lies, what it holds, how it is written and read.

use configparser::ini::Ini;
use std::path::PathBuf;
use vstd::prelude::*;
use vstd::string::*;

use crate::number;
use crate::number::{decimal_text, read_u64};
use crate::text;

verus! {

/// How often to poll if the configuration does not say, in seconds.
pub const DEFAULT_POLL_INTERVAL_SECS: u64 = 15;

/// How old a shown session may be if the configuration does not say, in hours.
pub const DEFAULT_SESSION_WINDOW_HOURS: u64 = 4;

/// All application configuration.
#[derive(Debug)]
pub struct Config {
    /// Client ID of the Simkl API application.
    pub simkl_client_id: String,
    /// Token that stands for the user at Simkl.
    pub simkl_access_token: Option<String>,
    /// Discord application for TV shows.
    pub discord_app_id_shows: Option<String>,
    /// Discord application for movies.
    pub discord_app_id_movies: Option<String>,
    /// Discord application for anime.
    pub discord_app_id_anime: Option<String>,
    /// How often to check Simkl for activity changes, in seconds.
    pub poll_interval_secs: u64,
    /// Sessions older than this many hours are ignored.
    pub session_window_hours: u64,
}

/// [`Config`] with its texts as character sequences.
pub ghost struct ConfigView {
    /// Client ID of the Simkl API application.
    pub client_id: Seq<char>,
    /// Token that stands for the user at Simkl.
    pub access_token: Option<Seq<char>>,
    /// Discord application for TV shows.
    pub shows: Option<Seq<char>>,
    /// Discord application for movies.
    pub movies: Option<Seq<char>>,
    /// Discord application for anime.
    pub anime: Option<Seq<char>>,
    /// How often to check Simkl, in seconds.
    pub poll_interval_secs: nat,
    /// Age at which sessions are ignored, in hours.
    pub session_window_hours: nat,
}

impl View for Config {
    type V = ConfigView;

    open spec fn view(&self) -> ConfigView {
        ConfigView {
            client_id: self.simkl_client_id@,
            access_token: text::optional_text(self.simkl_access_token),
            shows: text::optional_text(self.discord_app_id_shows),
            movies: text::optional_text(self.discord_app_id_movies),
            anime: text::optional_text(self.discord_app_id_anime),
            poll_interval_secs: self.poll_interval_secs as nat,
            session_window_hours: self.session_window_hours as nat,
        }
    }
}

impl Default for Config {
    fn default() -> (config: Config)
        ensures
            config@ == (ConfigView {
                client_id: Seq::<char>::empty(),
                access_token: None,
                shows: None,
                movies: None,
                anime: None,
                poll_interval_secs: DEFAULT_POLL_INTERVAL_SECS as nat,
                session_window_hours: DEFAULT_SESSION_WINDOW_HOURS as nat,
            }),
    {
        Config {
            simkl_client_id: String::new(),
            simkl_access_token: None,
            discord_app_id_shows: None,
            discord_app_id_movies: None,
            discord_app_id_anime: None,
            poll_interval_secs: DEFAULT_POLL_INTERVAL_SECS,
            session_window_hours: DEFAULT_SESSION_WINDOW_HOURS,
        }
    }
}

impl Clone for Config {
    fn clone(&self) -> (copy: Config)
        ensures
            copy@ == self@,
    {
        Config {
            simkl_client_id: self.simkl_client_id.clone(),
            simkl_access_token: self.simkl_access_token.clone(),
            discord_app_id_shows: self.discord_app_id_shows.clone(),
            discord_app_id_movies: self.discord_app_id_movies.clone(),
            discord_app_id_anime: self.discord_app_id_anime.clone(),
            poll_interval_secs: self.poll_interval_secs,
            session_window_hours: self.session_window_hours,
        }
    }
}

impl ConfigView {
    /// Whether all required fields are filled.
    pub open spec fn complete(self) -> bool {
        self.client_id.len() > 0 && self.access_token is Some
    }

    /// The Discord application for a media kind.
    pub open spec fn app_id(self, kind: Seq<char>) -> Option<Seq<char>> {
        if kind == "shows"@ {
            self.shows
        } else if kind == "movies"@ {
            self.movies
        } else if kind == "anime"@ {
            self.anime
        } else {
            None
        }
    }
}

impl Config {
    /// Returns true if all required fields are filled.
    pub fn is_complete(&self) -> (complete: bool)
        ensures
            complete == self@.complete(),
    {
        !self.simkl_client_id.as_str().is_empty() && self.simkl_access_token.is_some()
    }

    /// Return the Discord app_id for the given media kind ("shows", "movies", "anime").
    pub fn discord_app_id(&self, kind: &str) -> (app_id: Option<&str>)
        ensures
            text::optional_str(app_id) == self@.app_id(kind@),
    {
        proof {
            reveal_strlit("shows");
            reveal_strlit("movies");
            reveal_strlit("anime");
        }
        if text::same_text(kind, "shows") {
            text::borrow_text(&self.discord_app_id_shows)
        } else if text::same_text(kind, "movies") {
            text::borrow_text(&self.discord_app_id_movies)
        } else if text::same_text(kind, "anime") {
            text::borrow_text(&self.discord_app_id_anime)
        } else {
            None
        }
    }
}

/// Why there is no configuration.
#[derive(Debug)]
pub enum ConfigError {
    /// The system names no directory for configuration.
    NoConfigDirectory,
    /// There is no file at this place.
    NotFound(String),
    /// The file does not have the form of an INI file.
    Malformed(String),
    /// The file has no client ID.
    MissingClientId,
    /// The user entered no client ID.
    EmptyClientId,
}

impl ConfigError {
    /// What the user is told.
    pub open spec fn text(self) -> Seq<char> {
        match self {
            ConfigError::NoConfigDirectory => "Cannot find config directory"@,
            ConfigError::NotFound(place) => "Config file not found at "@ + place@,
            ConfigError::Malformed(reason) => "Failed to parse credentials.ini: "@ + reason@,
            ConfigError::MissingClientId => "Missing [simkl] client_id in credentials.ini"@,
            ConfigError::EmptyClientId => "client_id cannot be empty"@,
        }
    }

    /// What the user is told.
    pub fn message(&self) -> (message: String)
        ensures
            message@ == self.text(),
    {
        match self {
            ConfigError::NoConfigDirectory => "Cannot find config directory".to_owned(),
            ConfigError::NotFound(place) => {
                let mut message = "Config file not found at ".to_owned();
                message.append(place.as_str());
                message
            },
            ConfigError::Malformed(reason) => {
                let mut message = "Failed to parse credentials.ini: ".to_owned();
                message.append(reason.as_str());
                message
            },
            ConfigError::MissingClientId => {
                "Missing [simkl] client_id in credentials.ini".to_owned()
            },
            ConfigError::EmptyClientId => "client_id cannot be empty".to_owned(),
        }
    }
}

// ---------------------------------------------------------------------------
// Where the file lies
// ---------------------------------------------------------------------------
/// `std::path::PathBuf`, carried along unread.
#[verifier::external_type_specification]
#[verifier::external_body]
pub struct ExPathBuf(std::path::PathBuf);

/// A place below a directory.
#[derive(Debug)]
pub struct ConfigPath {
    /// The directory.
    pub base: PathBuf,
    /// The names to follow from there.
    pub names: Vec<String>,
}

/// `dirs::config_dir`: the directory that the system has for configuration, if it names
/// one. It depends on the machine and the user; nothing is claimed of it.
#[verifier::external_body]
fn system_config_dir() -> (dir: Option<PathBuf>) {
    dirs::config_dir()
}

/// Whether the system, asked for its directory for configuration, named this one, or none.
pub closed spec fn named_by_system(dir: Option<PathBuf>) -> bool {
    call_ensures(system_config_dir, (), dir)
}

/// What is told when asked.
fn told<A: Fn() -> Option<PathBuf>>(ask: A) -> (dir: Option<PathBuf>)
    requires
        call_requires(ask, ()),
    ensures
        call_ensures(ask, (), dir),
{
    ask()
}

/// The directory that the system has for configuration, if it names one.
fn ask_system() -> (dir: Option<PathBuf>)
    ensures
        named_by_system(dir),
{
    told(system_config_dir)
}

/// The config directory for dissimkl below `base`.
pub fn config_dir_in(base: Option<PathBuf>) -> (dir: Result<ConfigPath, ConfigError>)
    ensures
        match base {
            Some(b) => dir matches Ok(d) && d.base == b && text::texts(d.names@) == seq![
                "dissimkl"@,
            ],
            None => dir matches Err(ConfigError::NoConfigDirectory),
        },
{
    match base {
        Some(base) => {
            let mut names: Vec<String> = Vec::new();
            names.push("dissimkl".to_owned());
            assert(text::texts(names@) == seq!["dissimkl"@]);
            Ok(ConfigPath { base, names })
        },
        None => Err(ConfigError::NoConfigDirectory),
    }
}

/// The path to credentials.ini below `base`.
pub fn credentials_path_in(base: Option<PathBuf>) -> (path: Result<ConfigPath, ConfigError>)
    ensures
        match base {
            Some(b) => path matches Ok(p) && p.base == b && text::texts(p.names@) == seq![
                "dissimkl"@,
                "credentials.ini"@,
            ],
            None => path matches Err(ConfigError::NoConfigDirectory),
        },
{
    match config_dir_in(base) {
        Ok(dir) => {
            let ConfigPath { base, mut names } = dir;
            let ghost before = text::texts(names@);
            names.push("credentials.ini".to_owned());
            assert(text::texts(names@) == before.push("credentials.ini"@));
            assert(text::texts(names@) == seq!["dissimkl"@, "credentials.ini"@]);
            Ok(ConfigPath { base, names })
        },
        Err(e) => Err(e),
    }
}

/// Returns the platform-specific config directory for dissimkl.
pub fn get_config_dir() -> (dir: Result<ConfigPath, ConfigError>)
    ensures
        match dir {
            Ok(d) => named_by_system(Some(d.base)) && text::texts(d.names@) == seq!["dissimkl"@],
            Err(e) => e is NoConfigDirectory && named_by_system(None),
        },
{
    config_dir_in(ask_system())
}

/// Returns the path to credentials.ini.
pub fn credentials_path() -> (path: Result<ConfigPath, ConfigError>)
    ensures
        match path {
            Ok(p) => named_by_system(Some(p.base)) && text::texts(p.names@) == seq![
                "dissimkl"@,
                "credentials.ini"@,
            ],
            Err(e) => e is NoConfigDirectory && named_by_system(None),
        },
{
    credentials_path_in(ask_system())
}

// ---------------------------------------------------------------------------
// INI files
// ---------------------------------------------------------------------------
/// A line of an INI file in plain form.
pub ghost enum IniLine {
    /// `[name]`
    Section(Seq<char>),
    /// `key = value`
    Entry(Seq<char>, Seq<char>),
    /// Nothing.
    Blank,
}

impl IniLine {
    /// The line as it stands in the file.
    pub open spec fn text(self) -> Seq<char> {
        match self {
            IniLine::Section(name) => "["@ + name + "]\n"@,
            IniLine::Entry(key, value) => key + " = "@ + value + "\n"@,
            IniLine::Blank => "\n"@,
        }
    }

    /// Whether the names and the value in the line are plain.
    pub open spec fn plain(self) -> bool {
        match self {
            IniLine::Section(name) => plain_name(name),
            IniLine::Entry(key, value) => plain_name(key) && plain_value(value),
            IniLine::Blank => true,
        }
    }
}

/// Whether `name` consists of lower-case ASCII letters, digits and `_`, one at least.
pub open spec fn plain_name(name: Seq<char>) -> bool {
    &&& name.len() > 0
    &&& forall|i: int|
        0 <= i < name.len() ==> ('a' <= #[trigger] name[i] <= 'z' || '0' <= name[i] <= '9'
            || name[i] == '_')
}

/// Whether `value` fits on a line: no line break, nothing that opens a comment, and no
/// white space at its ends.
pub open spec fn plain_value(value: Seq<char>) -> bool {
    &&& !value.contains('\n')
    &&& !value.contains(';')
    &&& !value.contains('#')
    &&& text::trimmed(value) == value
}

/// Whether all lines are plain.
pub open spec fn plain_lines(lines: Seq<IniLine>) -> bool {
    forall|i: int| 0 <= i < lines.len() ==> (#[trigger] lines[i]).plain()
}

/// The file made of these lines.
pub open spec fn ini_text(lines: Seq<IniLine>) -> Seq<char>
    decreases lines.len(),
{
    if lines.len() == 0 {
        Seq::<char>::empty()
    } else {
        ini_text(lines.drop_last()) + lines.last().text()
    }
}

/// The section that the line after `lines` belongs to.
pub open spec fn section_after(lines: Seq<IniLine>) -> Seq<char>
    decreases lines.len(),
{
    if lines.len() == 0 {
        "default"@
    } else {
        match lines.last() {
            IniLine::Section(name) => name,
            _ => section_after(lines.drop_last()),
        }
    }
}

/// The value of `key` in `section`: the last that the lines give it.
pub open spec fn entry_of(lines: Seq<IniLine>, section: Seq<char>, key: Seq<char>) -> Option<
    Seq<char>,
>
    decreases lines.len(),
{
    if lines.len() == 0 {
        None
    } else {
        let before = lines.drop_last();
        match lines.last() {
            IniLine::Entry(k, value) if k == key && section_after(before) == section => Some(value),
            _ => entry_of(before, section, key),
        }
    }
}

/// Section and key as character sequences.
pub open spec fn wanted_texts(wanted: Seq<(&str, &str)>) -> Seq<(Seq<char>, Seq<char>)> {
    wanted.map_values(|w: (&str, &str)| (w.0@, w.1@))
}

/// The character sequences of values that may be absent.
pub open spec fn value_texts(values: Seq<Option<String>>) -> Seq<Option<Seq<char>>> {
    values.map_values(|value: Option<String>| text::optional_text(value))
}

/// What the lines give each wanted key.
pub open spec fn entries_of(
    lines: Seq<IniLine>,
    wanted: Seq<(Seq<char>, Seq<char>)>,
) -> Seq<Option<Seq<char>>> {
    wanted.map_values(|w: (Seq<char>, Seq<char>)| entry_of(lines, w.0, w.1))
}

/// Whether all sections and keys are plain names.
pub open spec fn plain_names(wanted: Seq<(Seq<char>, Seq<char>)>) -> bool {
    forall|i: int|
        #![trigger wanted[i]]
        0 <= i < wanted.len() ==> plain_name(wanted[i].0) && plain_name(wanted[i].1)
}

/// What was read, with its texts as character sequences.
pub open spec fn ini_result(values: Result<Vec<Option<String>>, String>) -> Result<
    Seq<Option<Seq<char>>>,
    Seq<char>,
> {
    match values {
        Ok(v) => Ok(value_texts(v@)),
        Err(e) => Err(e@),
    }
}

/// Whether `values` is what plain lines give the wanted keys, if `content` consists of
/// plain lines and the wanted names are plain.
pub open spec fn reads_plain_files(
    content: Seq<char>,
    wanted: Seq<(Seq<char>, Seq<char>)>,
    values: Result<Seq<Option<Seq<char>>>, Seq<char>>,
) -> bool {
    forall|lines: Seq<IniLine>|
        plain_names(wanted) && plain_lines(lines) && content == #[trigger] ini_text(lines) ==> (
        values matches Ok(v) && v == entries_of(lines, wanted))
}

/// What `configparser` reads in the INI file `content` for each wanted section and key,
/// or what it has against the file.
pub uninterp spec fn ini_values(
    content: Seq<char>,
    wanted: Seq<(Seq<char>, Seq<char>)>,
) -> Result<Seq<Option<Seq<char>>>, Seq<char>>;

/// `configparser::ini::Ini::read` on `content`, then `configparser::ini::Ini::get` for
/// each wanted section and key. The contract names the result and says that it has one
/// entry for each wanted key. Of a file that consists of plain lines it says more: that
/// it is read, and that a key has the last value that a line of its section gives it.
#[verifier::external_body]
fn read_ini(content: &str, wanted: &Vec<(&str, &str)>) -> (values: Result<
    Vec<Option<String>>,
    String,
>)
    ensures
        ini_result(values) == ini_values(content@, wanted_texts(wanted@)),
        values matches Ok(v) ==> v@.len() == wanted@.len(),
        reads_plain_files(content@, wanted_texts(wanted@), ini_result(values)),
{
    let mut ini = Ini::new();
    ini.read(content.to_string())?;
    Ok(wanted.iter().map(|(section, key)| ini.get(section, key)).collect())
}

// ---------------------------------------------------------------------------
// Reading the file
// ---------------------------------------------------------------------------
/// The sections and keys that hold the configuration.
pub open spec fn config_keys() -> Seq<(Seq<char>, Seq<char>)> {
    seq![
        ("simkl"@, "client_id"@),
        ("simkl"@, "access_token"@),
        ("discord"@, "app_id_shows"@),
        ("discord"@, "app_id_movies"@),
        ("discord"@, "app_id_anime"@),
        ("settings"@, "poll_interval_secs"@),
        ("settings"@, "session_window_hours"@),
    ]
}

/// A value, unless it is empty.
pub open spec fn filled(value: Option<Seq<char>>) -> Option<Seq<char>> {
    match value {
        Some(v) => if v.len() > 0 {
            Some(v)
        } else {
            None
        },
        None => None,
    }
}

/// The number that a value writes, or `default` if it writes none.
pub open spec fn number_or(value: Option<Seq<char>>, default: nat) -> nat {
    match filled(value) {
        Some(v) => match number::unsigned_value(v, u64::MAX as nat) {
            Some(n) => n,
            None => default,
        },
        None => default,
    }
}

/// The configuration in the values of [`config_keys`]; there is none without a client ID.
pub open spec fn config_in(values: Seq<Option<Seq<char>>>) -> Option<ConfigView> {
    match filled(values[0]) {
        Some(client_id) => Some(
            ConfigView {
                client_id,
                access_token: filled(values[1]),
                shows: filled(values[2]),
                movies: filled(values[3]),
                anime: filled(values[4]),
                poll_interval_secs: number_or(values[5], DEFAULT_POLL_INTERVAL_SECS as nat),
                session_window_hours: number_or(values[6], DEFAULT_SESSION_WINDOW_HOURS as nat),
            },
        ),
        None => None,
    }
}

/// A value, unless it is empty.
fn nonempty(value: &Option<String>) -> (kept: Option<String>)
    ensures
        text::optional_text(kept) == filled(text::optional_text(*value)),
{
    match value {
        Some(v) => {
            if v.as_str().is_empty() {
                None
            } else {
                Some(v.clone())
            }
        },
        None => None,
    }
}

/// The number that a value writes, or `default` if it writes none.
fn read_number_or(value: &Option<String>, default: u64) -> (n: u64)
    ensures
        n == number_or(text::optional_text(*value), default as nat),
{
    match nonempty(value) {
        Some(v) => match read_u64(v.as_str()) {
            Some(n) => n,
            None => default,
        },
        None => default,
    }
}

/// The configuration in the values of the configuration keys, in the order client ID,
/// access token, Discord applications for shows, movies and anime, poll interval and
/// session window.
pub fn config_from_values(values: &Vec<Option<String>>) -> (config: Result<Config, ConfigError>)
    requires
        values@.len() == config_keys().len(),
    ensures
        match config_in(value_texts(values@)) {
            Some(c) => config matches Ok(got) && got@ == c,
            None => config matches Err(ConfigError::MissingClientId),
        },
{
    proof {
        let v = value_texts(values@);
        assert forall|i: int| 0 <= i < 7 implies #[trigger] v[i] == text::optional_text(
            values@[i],
        ) by {}
    }
    match nonempty(&values[0]) {
        Some(simkl_client_id) => Ok(
            Config {
                simkl_client_id,
                simkl_access_token: nonempty(&values[1]),
                discord_app_id_shows: nonempty(&values[2]),
                discord_app_id_movies: nonempty(&values[3]),
                discord_app_id_anime: nonempty(&values[4]),
                poll_interval_secs: read_number_or(&values[5], DEFAULT_POLL_INTERVAL_SECS),
                session_window_hours: read_number_or(&values[6], DEFAULT_SESSION_WINDOW_HOURS),
            },
        ),
        None => Err(ConfigError::MissingClientId),
    }
}

/// Loads configuration from the content of credentials.ini.
/// Returns `Err` if the file is malformed or has no client ID.
/// Missing optional keys are left as `None`.
///
/// A file that [`save_config`] wrote reads back as the configuration it was written for.
pub fn load_config(content: &str) -> (config: Result<Config, ConfigError>)
    ensures
        match ini_values(content@, config_keys()) {
            Ok(values) => match config_in(values) {
                Some(c) => config matches Ok(got) && got@ == c,
                None => config matches Err(ConfigError::MissingClientId),
            },
            Err(reason) => config matches Err(ConfigError::Malformed(r)) && r@ == reason,
        },
        forall|saved: ConfigView|
            saved.savable() && content@ == #[trigger] saved.file() ==> (config matches Ok(got)
                && got@ == saved.without_blanks()),
        forall|lines: Seq<IniLine>|
            plain_lines(lines) && content@ == #[trigger] ini_text(lines) ==> match config_in(
                entries_of(lines, config_keys()),
            ) {
                Some(c) => config matches Ok(got) && got@ == c,
                None => config matches Err(ConfigError::MissingClientId),
            },
{
    let wanted: Vec<(&str, &str)> = vec![
        ("simkl", "client_id"),
        ("simkl", "access_token"),
        ("discord", "app_id_shows"),
        ("discord", "app_id_movies"),
        ("discord", "app_id_anime"),
        ("settings", "poll_interval_secs"),
        ("settings", "session_window_hours"),
    ];
    assert(wanted_texts(wanted@) == config_keys());
    proof {
        lemma_key_names_plain();
    }
    let values = read_ini(content, &wanted);
    proof {
        assert forall|saved: ConfigView|
            saved.savable() && content@ == #[trigger] saved.file() implies (values matches Ok(v)
            && config_in(value_texts(v@)) == Some(saved.without_blanks())) by {
            lemma_file_is_plain(saved);
            lemma_entries_of_file(saved);
            assert(content@ == ini_text(saved.lines()));
        }
    }
    match values {
        Ok(values) => config_from_values(&values),
        Err(reason) => Err(ConfigError::Malformed(reason)),
    }
}

// ---------------------------------------------------------------------------
// Writing the file
// ---------------------------------------------------------------------------
/// A value as it is written: empty if it is absent.
pub open spec fn written(value: Option<Seq<char>>) -> Seq<char> {
    match value {
        Some(v) => v,
        None => Seq::<char>::empty(),
    }
}

impl ConfigView {
    /// The content of the configuration file.
    pub open spec fn file(self) -> Seq<char> {
        "[simkl]\n"@ + "client_id = "@ + self.client_id + "\n"@ + "access_token = "@ + written(
            self.access_token,
        ) + "\n"@ + "\n"@ + "[discord]\n"@ + "app_id_shows = "@ + written(self.shows) + "\n"@
            + "app_id_movies = "@ + written(self.movies) + "\n"@ + "app_id_anime = "@ + written(
            self.anime,
        ) + "\n"@ + "\n"@ + "[settings]\n"@ + "poll_interval_secs = "@ + number::decimal(
            self.poll_interval_secs,
        ) + "\n"@ + "session_window_hours = "@ + number::decimal(self.session_window_hours) + "\n"@
    }

    /// The lines of the configuration file.
    pub open spec fn lines(self) -> Seq<IniLine> {
        seq![
            IniLine::Section("simkl"@),
            IniLine::Entry("client_id"@, self.client_id),
            IniLine::Entry("access_token"@, written(self.access_token)),
            IniLine::Blank,
            IniLine::Section("discord"@),
            IniLine::Entry("app_id_shows"@, written(self.shows)),
            IniLine::Entry("app_id_movies"@, written(self.movies)),
            IniLine::Entry("app_id_anime"@, written(self.anime)),
            IniLine::Blank,
            IniLine::Section("settings"@),
            IniLine::Entry("poll_interval_secs"@, number::decimal(self.poll_interval_secs)),
            IniLine::Entry("session_window_hours"@, number::decimal(self.session_window_hours)),
        ]
    }

    /// Whether the file can hold the configuration: it has a client ID, its texts fit on
    /// a line each, and its numbers fit in a `u64`.
    pub open spec fn savable(self) -> bool {
        &&& self.client_id.len() > 0
        &&& plain_value(self.client_id)
        &&& plain_value(written(self.access_token))
        &&& plain_value(written(self.shows))
        &&& plain_value(written(self.movies))
        &&& plain_value(written(self.anime))
        &&& self.poll_interval_secs <= u64::MAX
        &&& self.session_window_hours <= u64::MAX
    }

    /// The configuration with empty optional texts left out.
    pub open spec fn without_blanks(self) -> ConfigView {
        ConfigView {
            access_token: filled(self.access_token),
            shows: filled(self.shows),
            movies: filled(self.movies),
            anime: filled(self.anime),
            ..self
        }
    }
}

/// Appends the line `key = value`, with an empty value if it is absent.
fn append_optional(content: &mut String, start: &str, value: &Option<String>)
    ensures
        final(content)@ == old(content)@ + start@ + written(text::optional_text(*value)) + "\n"@,
{
    content.append(start);
    match value {
        Some(v) => {
            content.append(v.as_str());
        },
        None => {
            let ghost so_far = content@;
            assert(so_far + Seq::<char>::empty() == so_far);
        },
    }
    content.append("\n");
}

/// The content of credentials.ini for the provided config.
pub fn save_config(config: &Config) -> (content: String)
    ensures
        content@ == config@.file(),
{
    let mut content = "[simkl]\n".to_owned();
    content.append("client_id = ");
    content.append(config.simkl_client_id.as_str());
    content.append("\n");
    append_optional(&mut content, "access_token = ", &config.simkl_access_token);
    content.append("\n");
    content.append("[discord]\n");
    append_optional(&mut content, "app_id_shows = ", &config.discord_app_id_shows);
    append_optional(&mut content, "app_id_movies = ", &config.discord_app_id_movies);
    append_optional(&mut content, "app_id_anime = ", &config.discord_app_id_anime);
    content.append("\n");
    content.append("[settings]\n");
    content.append("poll_interval_secs = ");
    content.append(decimal_text(config.poll_interval_secs).as_str());
    content.append("\n");
    content.append("session_window_hours = ");
    content.append(decimal_text(config.session_window_hours).as_str());
    content.append("\n");
    content
}

// ---------------------------------------------------------------------------
// Startup and first-run setup
// ---------------------------------------------------------------------------
/// How the program starts.
#[derive(Debug)]
pub enum Startup {
    /// The configuration is complete.
    Run(Config),
    /// The configuration lacks an access token: the user has to authorize first.
    Authorize(Config),
    /// There is no usable configuration: the user has to be asked.
    Setup,
}

/// How the program starts with what came of loading the configuration.
pub fn startup(loaded: Result<Config, ConfigError>) -> (start: Startup)
    ensures
        match loaded {
            Ok(config) => if config@.complete() {
                start matches Startup::Run(c) && c == config
            } else {
                start matches Startup::Authorize(c) && c == config
            },
            Err(_) => start is Setup,
        },
{
    match loaded {
        Ok(config) => {
            if config.is_complete() {
                Startup::Run(config)
            } else {
                Startup::Authorize(config)
            }
        },
        Err(_) => Startup::Setup,
    }
}

/// The configuration to poll with after one was loaded again: the new one, with the token of
/// the current one if it holds none itself.
pub open spec fn renewed(current: ConfigView, new: ConfigView) -> ConfigView {
    ConfigView {
        access_token: if new.access_token is Some {
            new.access_token
        } else {
            current.access_token
        },
        ..new
    }
}

/// The configuration to poll with, given what came of loading it again: the new one, which
/// takes over the current token if it has none; the current one if loading failed.
pub fn reloaded(current: Config, loaded: Result<Config, ConfigError>) -> (config: Config)
    ensures
        match loaded {
            Ok(new) => config@ == renewed(current@, new@),
            Err(_) => config == current,
        },
{
    match loaded {
        Ok(new) => {
            if new.simkl_access_token.is_some() {
                new
            } else {
                Config { simkl_access_token: current.simkl_access_token, ..new }
            }
        },
        Err(_) => current,
    }
}

/// The client ID in the line that the user entered.
pub fn entered_client_id(line: &str) -> (client_id: Result<String, ConfigError>)
    ensures
        match client_id {
            Ok(id) => id@ == text::trimmed(line@) && id@.len() > 0,
            Err(e) => e is EmptyClientId && text::trimmed(line@).len() == 0,
        },
{
    let answer = text::trim(line);
    if answer.is_empty() {
        Err(ConfigError::EmptyClientId)
    } else {
        Ok(answer.to_owned())
    }
}

/// The value in the line that the user entered; there is none if it is blank.
pub fn entered_optional(line: &str) -> (value: Option<String>)
    ensures
        text::optional_text(value) == filled(Some(text::trimmed(line@))),
{
    let answer = text::trim(line);
    if answer.is_empty() {
        None
    } else {
        Some(answer.to_owned())
    }
}

impl Config {
    /// The configuration after first-run setup.
    pub fn from_setup(
        client_id: String,
        access_token: String,
        shows: Option<String>,
        movies: Option<String>,
        anime: Option<String>,
    ) -> (config: Config)
        ensures
            config@ == (ConfigView {
                client_id: client_id@,
                access_token: Some(access_token@),
                shows: text::optional_text(shows),
                movies: text::optional_text(movies),
                anime: text::optional_text(anime),
                poll_interval_secs: DEFAULT_POLL_INTERVAL_SECS as nat,
                session_window_hours: DEFAULT_SESSION_WINDOW_HOURS as nat,
            }),
    {
        Config {
            simkl_client_id: client_id,
            simkl_access_token: Some(access_token),
            discord_app_id_shows: shows,
            discord_app_id_movies: movies,
            discord_app_id_anime: anime,
            poll_interval_secs: DEFAULT_POLL_INTERVAL_SECS,
            session_window_hours: DEFAULT_SESSION_WINDOW_HOURS,
        }
    }

    /// The configuration with the token that the user's authorization gave.
    pub fn authorized(self, access_token: String) -> (config: Config)
        ensures
            config@ == (ConfigView { access_token: Some(access_token@), ..self@ }),
    {
        let mut config = self;
        config.simkl_access_token = Some(access_token);
        config
    }
}

// ---------------------------------------------------------------------------
// Laws
// ---------------------------------------------------------------------------
/// A directory was named by the system only if the system answered with it.
proof fn law_system_named_the_directory(dir: Option<PathBuf>)
    requires
        named_by_system(dir),
    ensures
        call_ensures(system_config_dir, (), dir),
{
}

/// The file lies where the system wants configuration to be: below the directory that the
/// system named, in the directory `dissimkl`, under the name `credentials.ini`. It is missed
/// only where the system named no directory.
pub proof fn law_file_lies_where_the_system_says(
    path: Result<ConfigPath, ConfigError>,
    dir: Result<ConfigPath, ConfigError>,
)
    requires
        call_ensures(credentials_path, (), path),
        call_ensures(get_config_dir, (), dir),
    ensures
        path matches Ok(p) ==> named_by_system(Some(p.base)) && p.names@.len() == 2 && p.names@[0]@
            == "dissimkl"@ && p.names@[1]@ == "credentials.ini"@,
        path matches Err(e) ==> e is NoConfigDirectory && named_by_system(None),
        dir matches Ok(d) ==> named_by_system(Some(d.base)) && d.names@.len() == 1 && d.names@[0]@
            == "dissimkl"@,
        dir matches Err(e) ==> e is NoConfigDirectory && named_by_system(None),
        !named_by_system(None) ==> path is Ok && dir is Ok,
{
    if let Ok(p) = path {
        let names = text::texts(p.names@);
        assert(names.len() == 2);
        assert(names[0] == p.names@[0]@ && names[1] == p.names@[1]@);
    }
    if let Ok(d) = dir {
        let names = text::texts(d.names@);
        assert(names.len() == 1);
        assert(names[0] == d.names@[0]@);
    }
}

/// Below a directory that is given, the file and its directory are found, and below none they
/// are not.
pub proof fn law_file_is_found_below_a_directory(
    base: Option<PathBuf>,
    path: Result<ConfigPath, ConfigError>,
    dir: Result<ConfigPath, ConfigError>,
)
    requires
        call_ensures(credentials_path_in, (base,), path),
        call_ensures(config_dir_in, (base,), dir),
    ensures
        base is Some <==> path is Ok,
        base is Some <==> dir is Ok,
        path matches Ok(p) ==> base == Some(p.base) && p.names@.len() == 2 && p.names@[0]@
            == "dissimkl"@ && p.names@[1]@ == "credentials.ini"@,
        dir matches Ok(d) ==> base == Some(d.base) && d.names@.len() == 1 && d.names@[0]@
            == "dissimkl"@,
        path matches Err(e) ==> e is NoConfigDirectory,
        dir matches Err(e) ==> e is NoConfigDirectory,
{
    if let Ok(p) = path {
        let names = text::texts(p.names@);
        assert(names.len() == 2);
        assert(names[0] == p.names@[0]@ && names[1] == p.names@[1]@);
    }
    if let Ok(d) = dir {
        let names = text::texts(d.names@);
        assert(names.len() == 1);
        assert(names[0] == d.names@[0]@);
    }
}

/// A configuration that was loaded and then authorized is complete.
pub proof fn law_authorized_config_is_complete(
    values: Seq<Option<Seq<char>>>,
    loaded: ConfigView,
    access_token: Seq<char>,
)
    requires
        config_in(values) == Some(loaded),
    ensures
        (ConfigView { access_token: Some(access_token), ..loaded }).complete(),
{
}

/// Polling goes on with a complete configuration: what is loaded from the file, whether or not
/// it holds a token, never makes a complete configuration incomplete.
pub proof fn law_reloading_keeps_the_config_complete(
    values: Seq<Option<Seq<char>>>,
    current: ConfigView,
    loaded: ConfigView,
)
    requires
        config_in(values) == Some(loaded),
        current.complete(),
    ensures
        renewed(current, loaded).complete(),
        loaded.access_token is Some ==> renewed(current, loaded) == loaded,
{
}

/// A media kind whose application is left blank in the file has none.
pub proof fn law_blank_application_is_none(values: Seq<Option<Seq<char>>>, config: ConfigView)
    requires
        config_in(values) == Some(config),
    ensures
        filled(values[2]) is None ==> config.app_id("shows"@) is None,
        filled(values[3]) is None ==> config.app_id("movies"@) is None,
        filled(values[4]) is None ==> config.app_id("anime"@) is None,
{
    reveal_strlit("shows");
    reveal_strlit("movies");
    reveal_strlit("anime");
    assert("shows"@[0] != "movies"@[0]);
    assert("shows"@[0] != "anime"@[0]);
    assert("movies"@[0] != "anime"@[0]);
}

// ---------------------------------------------------------------------------
// A saved configuration reads back
// ---------------------------------------------------------------------------
/// The names of sections and keys are plain.
proof fn lemma_key_names_plain()
    ensures
        plain_names(config_keys()),
{
    reveal_strlit("simkl");
    reveal_strlit("client_id");
    reveal_strlit("access_token");
    reveal_strlit("discord");
    reveal_strlit("app_id_shows");
    reveal_strlit("app_id_movies");
    reveal_strlit("app_id_anime");
    reveal_strlit("settings");
    reveal_strlit("poll_interval_secs");
    reveal_strlit("session_window_hours");
}

/// A number takes up no white space and opens no comment.
proof fn lemma_number_is_plain(n: nat)
    ensures
        plain_value(number::decimal(n)),
{
    number::lemma_decimal(n);
    let s = number::decimal(n);
    assert(number::is_digit(s.first()));
    assert(number::is_digit(s.last()));
    assert(text::trimmed(s) == s);
    if s.contains('\n') || s.contains(';') || s.contains('#') {
        let i = choose|i: int| 0 <= i < s.len() && (s[i] == '\n' || s[i] == ';' || s[i] == '#');
        assert(number::is_digit(s[i]));
    }
}

/// The file consists of its lines, and they are plain if the configuration is savable.
proof fn lemma_file_is_plain(config: ConfigView)
    ensures
        config.file() == ini_text(config.lines()),
        config.savable() ==> plain_lines(config.lines()),
{
    lemma_key_names_plain();
    lemma_number_is_plain(config.poll_interval_secs);
    lemma_number_is_plain(config.session_window_hours);
    let keys = config_keys();
    assert(keys[0].0 == "simkl"@ && keys[0].1 == "client_id"@ && keys[1].1 == "access_token"@);
    assert(keys[2].0 == "discord"@ && keys[2].1 == "app_id_shows"@);
    assert(keys[3].1 == "app_id_movies"@ && keys[4].1 == "app_id_anime"@);
    assert(keys[5].0 == "settings"@ && keys[5].1 == "poll_interval_secs"@);
    assert(keys[6].1 == "session_window_hours"@);
    lemma_file_lines(config);
}

/// How the lines of the file begin.
proof fn lemma_line_starts()
    ensures
        "[simkl]\n"@ == IniLine::Section("simkl"@).text(),
        "[discord]\n"@ == IniLine::Section("discord"@).text(),
        "[settings]\n"@ == IniLine::Section("settings"@).text(),
        "client_id = "@ == "client_id"@ + " = "@,
        "access_token = "@ == "access_token"@ + " = "@,
        "app_id_shows = "@ == "app_id_shows"@ + " = "@,
        "app_id_movies = "@ == "app_id_movies"@ + " = "@,
        "app_id_anime = "@ == "app_id_anime"@ + " = "@,
        "poll_interval_secs = "@ == "poll_interval_secs"@ + " = "@,
        "session_window_hours = "@ == "session_window_hours"@ + " = "@,
{
    assert("[simkl]\n"@ == IniLine::Section("simkl"@).text()) by {
        reveal_strlit("[");
        reveal_strlit("simkl");
        reveal_strlit("]\n");
        reveal_strlit("[simkl]\n");
    }
    assert("[discord]\n"@ == IniLine::Section("discord"@).text()) by {
        reveal_strlit("[");
        reveal_strlit("discord");
        reveal_strlit("]\n");
        reveal_strlit("[discord]\n");
    }
    assert("[settings]\n"@ == IniLine::Section("settings"@).text()) by {
        reveal_strlit("[");
        reveal_strlit("settings");
        reveal_strlit("]\n");
        reveal_strlit("[settings]\n");
    }
    assert("client_id = "@ == "client_id"@ + " = "@) by {
        reveal_strlit("client_id");
        reveal_strlit(" = ");
        reveal_strlit("client_id = ");
    }
    assert("access_token = "@ == "access_token"@ + " = "@) by {
        reveal_strlit("access_token");
        reveal_strlit(" = ");
        reveal_strlit("access_token = ");
    }
    assert("app_id_shows = "@ == "app_id_shows"@ + " = "@) by {
        reveal_strlit("app_id_shows");
        reveal_strlit(" = ");
        reveal_strlit("app_id_shows = ");
    }
    assert("app_id_movies = "@ == "app_id_movies"@ + " = "@) by {
        reveal_strlit("app_id_movies");
        reveal_strlit(" = ");
        reveal_strlit("app_id_movies = ");
    }
    assert("app_id_anime = "@ == "app_id_anime"@ + " = "@) by {
        reveal_strlit("app_id_anime");
        reveal_strlit(" = ");
        reveal_strlit("app_id_anime = ");
    }
    assert("poll_interval_secs = "@ == "poll_interval_secs"@ + " = "@) by {
        reveal_strlit("poll_interval_secs");
        reveal_strlit(" = ");
        reveal_strlit("poll_interval_secs = ");
    }
    assert("session_window_hours = "@ == "session_window_hours"@ + " = "@) by {
        reveal_strlit("session_window_hours");
        reveal_strlit(" = ");
        reveal_strlit("session_window_hours = ");
    }
}

/// A file that goes on with an entry.
proof fn lemma_entry_line(before: Seq<char>, start: Seq<char>, key: Seq<char>, value: Seq<char>)
    requires
        start == key + " = "@,
    ensures
        before + start + value + "\n"@ == before + IniLine::Entry(key, value).text(),
{
    let end = "\n"@;
    assert(before + start + value + end == before + (start + value + end));
}

/// The file is the text of its lines.
proof fn lemma_file_lines(config: ConfigView)
    ensures
        config.file() == ini_text(config.lines()),
{
    let all = config.lines();
    lemma_line_starts();
    assert(all.take(12) == all);
    let t0 = Seq::<char>::empty();
    assert(ini_text(all.take(0)) == t0);
    let t1 = "[simkl]\n"@;
    assert(t0 + t1 == t1);
    lemma_one_more_line(all, 0);
    assert(ini_text(all.take(1)) == t1);
    lemma_entry_line(t1, "client_id = "@, "client_id"@, config.client_id);
    let t2 = t1 + "client_id = "@ + config.client_id + "\n"@;
    lemma_one_more_line(all, 1);
    assert(ini_text(all.take(2)) == t2);
    lemma_entry_line(t2, "access_token = "@, "access_token"@, written(config.access_token));
    let t3 = t2 + "access_token = "@ + written(config.access_token) + "\n"@;
    lemma_one_more_line(all, 2);
    assert(ini_text(all.take(3)) == t3);
    let t4 = t3 + "\n"@;
    lemma_one_more_line(all, 3);
    assert(ini_text(all.take(4)) == t4);
    let t5 = t4 + "[discord]\n"@;
    lemma_one_more_line(all, 4);
    assert(ini_text(all.take(5)) == t5);
    lemma_entry_line(t5, "app_id_shows = "@, "app_id_shows"@, written(config.shows));
    let t6 = t5 + "app_id_shows = "@ + written(config.shows) + "\n"@;
    lemma_one_more_line(all, 5);
    assert(ini_text(all.take(6)) == t6);
    lemma_entry_line(t6, "app_id_movies = "@, "app_id_movies"@, written(config.movies));
    let t7 = t6 + "app_id_movies = "@ + written(config.movies) + "\n"@;
    lemma_one_more_line(all, 6);
    assert(ini_text(all.take(7)) == t7);
    lemma_entry_line(t7, "app_id_anime = "@, "app_id_anime"@, written(config.anime));
    let t8 = t7 + "app_id_anime = "@ + written(config.anime) + "\n"@;
    lemma_one_more_line(all, 7);
    assert(ini_text(all.take(8)) == t8);
    let t9 = t8 + "\n"@;
    lemma_one_more_line(all, 8);
    assert(ini_text(all.take(9)) == t9);
    let t10 = t9 + "[settings]\n"@;
    lemma_one_more_line(all, 9);
    assert(ini_text(all.take(10)) == t10);
    lemma_entry_line(t10, "poll_interval_secs = "@, "poll_interval_secs"@, number::decimal(config.poll_interval_secs));
    let t11 = t10 + "poll_interval_secs = "@ + number::decimal(config.poll_interval_secs) + "\n"@;
    lemma_one_more_line(all, 10);
    assert(ini_text(all.take(11)) == t11);
    lemma_entry_line(t11, "session_window_hours = "@, "session_window_hours"@, number::decimal(config.session_window_hours));
    let t12 = t11 + "session_window_hours = "@ + number::decimal(config.session_window_hours) + "\n"@;
    lemma_one_more_line(all, 11);
    assert(ini_text(all.take(12)) == t12);
}

/// What one more line adds to a file.
proof fn lemma_one_more_line(lines: Seq<IniLine>, k: int)
    requires
        0 <= k < lines.len(),
    ensures
        ini_text(lines.take(k + 1)) == ini_text(lines.take(k)) + lines[k].text(),
        section_after(lines.take(k + 1)) == (match lines[k] {
            IniLine::Section(name) => name,
            _ => section_after(lines.take(k)),
        }),
{
    assert(lines.take(k + 1).drop_last() == lines.take(k));
}

/// The lines of a savable configuration give its keys the values of the configuration.
proof fn lemma_entries_of_file(config: ConfigView)
    requires
        config.savable(),
    ensures
        config_in(entries_of(config.lines(), config_keys())) == Some(config.without_blanks()),
{
    let all = config.lines();
    lemma_names_differ();
    lemma_one_more_line(all, 0);
    lemma_one_more_line(all, 1);
    lemma_one_more_line(all, 2);
    lemma_one_more_line(all, 3);
    lemma_one_more_line(all, 4);
    lemma_one_more_line(all, 5);
    lemma_one_more_line(all, 6);
    lemma_one_more_line(all, 7);
    lemma_one_more_line(all, 8);
    lemma_one_more_line(all, 9);
    lemma_one_more_line(all, 10);
    lemma_entry(all, "simkl"@, "client_id"@, 1);
    lemma_entry(all, "simkl"@, "access_token"@, 2);
    lemma_entry(all, "discord"@, "app_id_shows"@, 5);
    lemma_entry(all, "discord"@, "app_id_movies"@, 6);
    lemma_entry(all, "discord"@, "app_id_anime"@, 7);
    lemma_entry(all, "settings"@, "poll_interval_secs"@, 10);
    lemma_entry(all, "settings"@, "session_window_hours"@, 11);
    number::law_decimal_reads_back(config.poll_interval_secs, u64::MAX as nat);
    number::law_decimal_reads_back(config.session_window_hours, u64::MAX as nat);
    number::lemma_decimal(config.poll_interval_secs);
    number::lemma_decimal(config.session_window_hours);
    let entries = entries_of(all, config_keys());
    assert(entries[0] == Some(config.client_id));
    assert(entries[1] == Some(written(config.access_token)));
    assert(entries[2] == Some(written(config.shows)));
    assert(entries[3] == Some(written(config.movies)));
    assert(entries[4] == Some(written(config.anime)));
    assert(entries[5] == Some(number::decimal(config.poll_interval_secs)));
    assert(entries[6] == Some(number::decimal(config.session_window_hours)));
}

/// The keys of the configuration file differ from each other.
proof fn lemma_names_differ()
    ensures
        forall|i: int, j: int|
            #![trigger config_keys()[i], config_keys()[j]]
            0 <= i < j < config_keys().len() ==> config_keys()[i].1 != config_keys()[j].1,
{
    reveal_strlit("client_id");
    reveal_strlit("access_token");
    reveal_strlit("app_id_shows");
    reveal_strlit("app_id_movies");
    reveal_strlit("app_id_anime");
    reveal_strlit("poll_interval_secs");
    reveal_strlit("session_window_hours");
    assert("client_id"@.len() == 9);
    assert("access_token"@.len() == 12);
    assert("app_id_shows"@.len() == 12);
    assert("app_id_movies"@.len() == 13);
    assert("app_id_anime"@.len() == 12);
    assert("poll_interval_secs"@.len() == 18);
    assert("session_window_hours"@.len() == 20);
    assert("access_token"@[1] == 'c');
    assert("app_id_shows"@[1] == 'p');
    assert("app_id_anime"@[1] == 'p');
    assert("app_id_shows"@[7] == 's');
    assert("app_id_anime"@[7] == 'a');
}

/// A key that only line `at` gives a value has that value.
proof fn lemma_entry(lines: Seq<IniLine>, section: Seq<char>, key: Seq<char>, at: int)
    requires
        0 <= at < lines.len(),
        lines[at] is Entry,
        lines[at]->Entry_0 == key,
        section_after(lines.take(at)) == section,
        forall|i: int|
            at < i < lines.len() ==> ((#[trigger] lines[i]) matches IniLine::Entry(k, _) ==> k
                != key),
    ensures
        entry_of(lines, section, key) == Some(lines[at]->Entry_1),
    decreases lines.len(),
{
    let before = lines.drop_last();
    if at == lines.len() - 1 {
        assert(before == lines.take(at));
    } else {
        assert(lines.last() == lines[lines.len() - 1]);
        assert(before.take(at) == lines.take(at));
        lemma_entry(before, section, key, at);
    }
}

// ---------------------------------------------------------------------------
// What the file and the user say
// ---------------------------------------------------------------------------
/// A plain file gives the client ID and the token under `[simkl]`, the Discord applications
/// under `[discord]`, and interval and window under `[settings]`. An empty value counts as
/// missing. Without a client ID there is no configuration.
pub proof fn law_file_is_read_by_its_keys(
    content: &str,
    lines: Seq<IniLine>,
    config: Result<Config, ConfigError>,
)
    requires
        call_ensures(load_config, (content,), config),
        plain_lines(lines),
        content@ == ini_text(lines),
    ensures
        config is Ok <==> filled(entry_of(lines, "simkl"@, "client_id"@)) is Some,
        config is Err ==> config->Err_0 is MissingClientId,
        config matches Ok(c) ==> {
            &&& Some(c@.client_id) == filled(entry_of(lines, "simkl"@, "client_id"@))
            &&& c@.access_token == filled(entry_of(lines, "simkl"@, "access_token"@))
            &&& c@.shows == filled(entry_of(lines, "discord"@, "app_id_shows"@))
            &&& c@.movies == filled(entry_of(lines, "discord"@, "app_id_movies"@))
            &&& c@.anime == filled(entry_of(lines, "discord"@, "app_id_anime"@))
            &&& c@.poll_interval_secs == number_or(
                entry_of(lines, "settings"@, "poll_interval_secs"@),
                15,
            )
            &&& c@.session_window_hours == number_or(
                entry_of(lines, "settings"@, "session_window_hours"@),
                4,
            )
        },
{
    let values = entries_of(lines, config_keys());
    assert(values[0] == entry_of(lines, "simkl"@, "client_id"@));
    assert(values[1] == entry_of(lines, "simkl"@, "access_token"@));
    assert(values[2] == entry_of(lines, "discord"@, "app_id_shows"@));
    assert(values[3] == entry_of(lines, "discord"@, "app_id_movies"@));
    assert(values[4] == entry_of(lines, "discord"@, "app_id_anime"@));
    assert(values[5] == entry_of(lines, "settings"@, "poll_interval_secs"@));
    assert(values[6] == entry_of(lines, "settings"@, "session_window_hours"@));
    let read = config_in(values);
    match read {
        Some(c) => {
            assert(config matches Ok(got) && got@ == c);
        },
        None => {
            assert(config matches Err(ConfigError::MissingClientId));
        },
    }
}

/// A line more in a file gives its key its value, in the section that was opened last, and
/// leaves every other key as it was. A section or a blank line changes no value.
pub proof fn law_lines_of_a_file(
    lines: Seq<IniLine>,
    section: Seq<char>,
    key: Seq<char>,
    name: Seq<char>,
    value: Seq<char>,
    opened: Seq<char>,
)
    ensures
        entry_of(Seq::<IniLine>::empty(), section, key) is None,
        entry_of(lines.push(IniLine::Section(opened)), section, key) == entry_of(
            lines,
            section,
            key,
        ),
        entry_of(lines.push(IniLine::Blank), section, key) == entry_of(lines, section, key),
        section_after(lines.push(IniLine::Section(opened))) == opened,
        section_after(lines.push(IniLine::Blank)) == section_after(lines),
        section_after(lines.push(IniLine::Entry(name, value))) == section_after(lines),
        entry_of(lines.push(IniLine::Entry(name, value)), section_after(lines), name) == Some(
            value,
        ),
        name != key || section != section_after(lines) ==> entry_of(
            lines.push(IniLine::Entry(name, value)),
            section,
            key,
        ) == entry_of(lines, section, key),
        ini_text(lines.push(IniLine::Section(opened))) == ini_text(lines) + ("["@ + opened
            + "]\n"@),
        ini_text(lines.push(IniLine::Entry(name, value))) == ini_text(lines) + (name + " = "@
            + value + "\n"@),
        ini_text(lines.push(IniLine::Blank)) == ini_text(lines) + "\n"@,
{
    assert(lines.push(IniLine::Section(opened)).drop_last() == lines);
    assert(lines.push(IniLine::Entry(name, value)).drop_last() == lines);
    assert(lines.push(IniLine::Blank).drop_last() == lines);
}

/// What is written for a configuration is the file that gives each of its values under the
/// section and the key that they are read from, and reads back as that configuration with empty
/// texts left out.
pub proof fn law_saved_file(
    config: Config,
    content: String,
    text: &str,
    loaded: Result<Config, ConfigError>,
)
    requires
        call_ensures(save_config, (&config,), content),
        text@ == content@,
        call_ensures(load_config, (text,), loaded),
    ensures
        ({
            let c = config@;
            content@ == ini_text(
                seq![
                    IniLine::Section("simkl"@),
                    IniLine::Entry("client_id"@, c.client_id),
                    IniLine::Entry("access_token"@, written(c.access_token)),
                    IniLine::Blank,
                    IniLine::Section("discord"@),
                    IniLine::Entry("app_id_shows"@, written(c.shows)),
                    IniLine::Entry("app_id_movies"@, written(c.movies)),
                    IniLine::Entry("app_id_anime"@, written(c.anime)),
                    IniLine::Blank,
                    IniLine::Section("settings"@),
                    IniLine::Entry("poll_interval_secs"@, number::decimal(c.poll_interval_secs)),
                    IniLine::Entry(
                        "session_window_hours"@,
                        number::decimal(c.session_window_hours),
                    ),
                ],
            )
        }),
        config@.savable() ==> loaded is Ok && ({
            let c = loaded->Ok_0@;
            &&& c.client_id == config@.client_id
            &&& written(c.access_token) == written(config@.access_token)
            &&& written(c.shows) == written(config@.shows)
            &&& written(c.movies) == written(config@.movies)
            &&& written(c.anime) == written(config@.anime)
            &&& c.poll_interval_secs == config@.poll_interval_secs
            &&& c.session_window_hours == config@.session_window_hours
        }),
{
    lemma_file_lines(config@);
    if config@.savable() {
        assert(text@ == config@.file());
        lemma_written_filled(config@.access_token);
        lemma_written_filled(config@.shows);
        lemma_written_filled(config@.movies);
        lemma_written_filled(config@.anime);
    }
}

/// Leaving out an empty value does not change what is written.
proof fn lemma_written_filled(value: Option<Seq<char>>)
    ensures
        written(filled(value)) == written(value),
{
    if let Some(v) = value {
        if v.len() == 0 {
            assert(v == Seq::<char>::empty());
        }
    }
}

/// A value that is there and not empty is itself, and no other counts; a number is what the
/// value writes, and the default where it writes none that fits in 64 bits.
pub proof fn law_values_that_count(value: Option<Seq<char>>, default: nat, n: nat)
    ensures
        value is Some && value->0.len() > 0 ==> filled(value) == value,
        value is None || value->0.len() == 0 ==> filled(value) is None && number_or(value, default)
            == default,
        value == Some(number::decimal(n)) && n <= 18_446_744_073_709_551_615 ==> number_or(
            value,
            default,
        ) == n,
        value is Some && number::unsigned_value(value->0, 18_446_744_073_709_551_615) is None
            ==> number_or(value, default) == default,
        value is None ==> written(value).len() == 0,
        value is Some ==> written(value) == value->0,
{
    number::lemma_decimal(n);
    if n <= 18_446_744_073_709_551_615 {
        number::law_decimal_reads_back(n, u64::MAX as nat);
    }
}

/// The values of the keys, however they were come by, make the configuration, each in its
/// place; there is none without a client ID.
pub proof fn law_values_make_a_configuration(
    values: Vec<Option<String>>,
    config: Result<Config, ConfigError>,
)
    requires
        call_ensures(config_from_values, (&values,), config),
        values@.len() == 7,
    ensures
        config is Ok <==> values@[0] is Some && values@[0]->0@.len() > 0,
        config is Err ==> config->Err_0 is MissingClientId,
        config matches Ok(c) ==> {
            &&& c@.client_id == values@[0]->0@
            &&& c@.access_token == filled(text::optional_text(values@[1]))
            &&& c@.shows == filled(text::optional_text(values@[2]))
            &&& c@.movies == filled(text::optional_text(values@[3]))
            &&& c@.anime == filled(text::optional_text(values@[4]))
            &&& c@.poll_interval_secs == number_or(text::optional_text(values@[5]), 15)
            &&& c@.session_window_hours == number_or(text::optional_text(values@[6]), 4)
        },
{
    let v = value_texts(values@);
    assert forall|i: int| 0 <= i < 7 implies #[trigger] v[i] == text::optional_text(values@[i]) by {}
    assert(v[0] == text::optional_text(values@[0]));
}

/// A configuration is complete if, and only if, it has a client ID and a token.
pub proof fn law_complete_configuration(config: Config, complete: bool)
    requires
        call_ensures(Config::is_complete, (&config,), complete),
    ensures
        complete <==> config.simkl_client_id@.len() > 0 && config.simkl_access_token is Some,
{
}

/// Each kind has its own Discord application, and no other kind has one.
pub proof fn law_application_of_a_kind(config: Config, kind: &str, app_id: Option<&str>)
    requires
        call_ensures(Config::discord_app_id, (&config, kind), app_id),
    ensures
        kind@ == "shows"@ ==> text::optional_str(app_id) == text::optional_text(
            config.discord_app_id_shows,
        ),
        kind@ == "movies"@ ==> text::optional_str(app_id) == text::optional_text(
            config.discord_app_id_movies,
        ),
        kind@ == "anime"@ ==> text::optional_str(app_id) == text::optional_text(
            config.discord_app_id_anime,
        ),
        kind@ != "shows"@ && kind@ != "movies"@ && kind@ != "anime"@ ==> app_id is None,
{
    reveal_strlit("shows");
    reveal_strlit("movies");
    reveal_strlit("anime");
    assert("shows"@[0] == 's' && "movies"@[0] == 'm' && "anime"@[0] == 'a');
}

/// By default nothing is configured but an interval of 15 seconds and a window of four hours.
/// First-run setup fills in what the user entered and the token, and keeps these two.
pub proof fn law_defaults(
    config: Config,
    client_id: String,
    token: String,
    shows: Option<String>,
    movies: Option<String>,
    anime: Option<String>,
    entered: Config,
)
    requires
        call_ensures(Config::default, (), config),
        call_ensures(Config::from_setup, (client_id, token, shows, movies, anime), entered),
    ensures
        config@.client_id.len() == 0,
        config@.access_token is None,
        config@.shows is None,
        config@.movies is None,
        config@.anime is None,
        config@.poll_interval_secs == 15,
        config@.session_window_hours == 4,
        entered@.client_id == client_id@,
        entered@.access_token == Some(token@),
        entered@.shows == text::optional_text(shows),
        entered@.movies == text::optional_text(movies),
        entered@.anime == text::optional_text(anime),
        entered@.poll_interval_secs == 15,
        entered@.session_window_hours == 4,
{
}

/// Authorization fills in the token and changes nothing else.
pub proof fn law_authorization_fills_in_the_token(config: Config, token: String, after: Config)
    requires
        call_ensures(Config::authorized, (config, token), after),
    ensures
        after@.access_token == Some(token@),
        after@.client_id == config@.client_id,
        after@.shows == config@.shows,
        after@.movies == config@.movies,
        after@.anime == config@.anime,
        after@.poll_interval_secs == config@.poll_interval_secs,
        after@.session_window_hours == config@.session_window_hours,
{
}

/// The program runs with a configuration that is complete, has the user authorize where the
/// token is missing, and sets up where no configuration could be loaded.
pub proof fn law_ways_to_start(loaded: Result<Config, ConfigError>, start: Startup)
    requires
        call_ensures(startup, (loaded,), start),
    ensures
        loaded is Err ==> start is Setup,
        loaded matches Ok(config) ==> {
            let complete = config.simkl_client_id@.len() > 0 && config.simkl_access_token is Some;
            &&& complete ==> start == Startup::Run(config)
            &&& !complete ==> start == Startup::Authorize(config)
        },
{
}

/// A file that is loaded again takes effect at once in all it says; a token is kept where it
/// has none. One that cannot be loaded changes nothing.
pub proof fn law_reloaded_file_takes_effect(
    current: Config,
    loaded: Result<Config, ConfigError>,
    config: Config,
)
    requires
        call_ensures(reloaded, (current, loaded), config),
    ensures
        loaded is Err ==> config == current,
        loaded matches Ok(new) ==> {
            &&& new.simkl_access_token is Some ==> config@.access_token == new@.access_token
            &&& new.simkl_access_token is None ==> config@.access_token == current@.access_token
            &&& config@.client_id == new@.client_id
            &&& config@.shows == new@.shows
            &&& config@.movies == new@.movies
            &&& config@.anime == new@.anime
            &&& config@.poll_interval_secs == new@.poll_interval_secs
            &&& config@.session_window_hours == new@.session_window_hours
        },
{
}

/// What the user enters counts without white space around it. A blank client ID is an error,
/// and any other blank line means none.
pub proof fn law_answers_of_the_user(
    line: &str,
    client_id: Result<String, ConfigError>,
    value: Option<String>,
)
    requires
        call_ensures(entered_client_id, (line,), client_id),
        call_ensures(entered_optional, (line,), value),
    ensures
        text::trimmed(line@).len() > 0 ==> client_id is Ok && client_id->Ok_0@ == text::trimmed(
            line@,
        ) && value is Some && value->0@ == text::trimmed(line@),
        text::trimmed(line@).len() == 0 ==> client_id is Err && client_id->Err_0 is EmptyClientId
            && value is None,
{
}

/// What the user is told when there is no configuration.
pub proof fn law_configuration_failure_is_told(error: ConfigError, message: String)
    requires
        call_ensures(ConfigError::message, (&error,), message),
    ensures
        error is NoConfigDirectory ==> message@ == "Cannot find config directory"@,
        error matches ConfigError::NotFound(place) ==> message@ == "Config file not found at "@
            + place@,
        error matches ConfigError::Malformed(reason) ==> message@
            == "Failed to parse credentials.ini: "@ + reason@,
        error is MissingClientId ==> message@ == "Missing [simkl] client_id in credentials.ini"@,
        error is EmptyClientId ==> message@ == "client_id cannot be empty"@,
{
}

/// A file that is no INI file is an error that tells why; of any other file, whatever its form,
/// the values under the seven keys make the configuration.
pub proof fn law_any_file_is_read_by_its_keys(content: &str, config: Result<Config, ConfigError>)
    requires
        call_ensures(load_config, (content,), config),
    ensures
        ({
            let read = ini_values(
                content@,
                seq![
                    ("simkl"@, "client_id"@),
                    ("simkl"@, "access_token"@),
                    ("discord"@, "app_id_shows"@),
                    ("discord"@, "app_id_movies"@),
                    ("discord"@, "app_id_anime"@),
                    ("settings"@, "poll_interval_secs"@),
                    ("settings"@, "session_window_hours"@),
                ],
            );
            &&& read matches Err(reason) ==> (config matches Err(ConfigError::Malformed(r)) && r@
                == reason)
            &&& read matches Ok(values) ==> {
                &&& config is Ok <==> filled(values[0]) is Some
                &&& config is Err ==> config->Err_0 is MissingClientId
                &&& config matches Ok(c) ==> {
                    &&& Some(c@.client_id) == filled(values[0])
                    &&& c@.access_token == filled(values[1])
                    &&& c@.shows == filled(values[2])
                    &&& c@.movies == filled(values[3])
                    &&& c@.anime == filled(values[4])
                    &&& c@.poll_interval_secs == number_or(values[5], 15)
                    &&& c@.session_window_hours == number_or(values[6], 4)
                }
            }
        }),
{
}

} // verus!

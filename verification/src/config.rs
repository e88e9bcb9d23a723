//! The configuration: a default host and settings for named hosts.

use vstd::prelude::*;
use vstd::string::*;

use crate::cli::{ConfigAction, ConfigActionView, ConfigArgs};
use crate::error::{Error, Failure};
use crate::text;
use crate::text::{characters, decimal, OsText};

pub mod save;

verus! {

/// The settings of one named host.
#[derive(Clone, Debug)]
pub struct HostConfig {
    /// The SSH host to connect to, where it is not the name itself.
    pub ssh_host: Option<String>,
    /// The sbx command on that host.
    pub sbx_command: Option<String>,
}

#[verifier::ext_equal]
pub struct HostConfigView {
    pub ssh_host: Option<Seq<char>>,
    pub sbx_command: Option<Seq<char>>,
}

impl View for HostConfig {
    type V = HostConfigView;

    open spec fn view(&self) -> HostConfigView {
        HostConfigView {
            ssh_host: text::optional_text(self.ssh_host),
            sbx_command: text::optional_text(self.sbx_command),
        }
    }
}

/// The configuration. No host name occurs twice.
#[derive(Clone, Debug)]
pub struct Config {
    pub default_host: Option<String>,
    pub hosts: Vec<(String, HostConfig)>,
}

#[verifier::ext_equal]
pub struct ConfigView {
    pub default_host: Option<Seq<char>>,
    pub hosts: Map<Seq<char>, HostConfigView>,
}

/// The settings by host name.
pub open spec fn hosts_by_name(entries: Seq<(String, HostConfig)>) -> Map<
    Seq<char>,
    HostConfigView,
>
    decreases entries.len(),
{
    if entries.len() == 0 {
        Map::empty()
    } else {
        hosts_by_name(entries.drop_last()).insert(entries.last().0@, entries.last().1@)
    }
}

/// No name occurs twice.
pub open spec fn distinct_names(entries: Seq<(String, HostConfig)>) -> bool {
    forall|i: int, j: int|
        0 <= i < j < entries.len() ==> (#[trigger] entries[i]).0@ != (#[trigger] entries[j]).0@
}

impl View for Config {
    type V = ConfigView;

    open spec fn view(&self) -> ConfigView {
        ConfigView {
            default_host: text::optional_text(self.default_host),
            hosts: hosts_by_name(self.hosts@),
        }
    }
}

proof fn lemma_hosts_by_name(entries: Seq<(String, HostConfig)>)
    requires
        distinct_names(entries),
    ensures
        forall|i: int|
            0 <= i < entries.len() ==> hosts_by_name(entries).contains_key(
                (#[trigger] entries[i]).0@,
            ) && hosts_by_name(entries)[entries[i].0@] == entries[i].1@,
        forall|name: Seq<char>|
            hosts_by_name(entries).contains_key(name) ==> exists|i: int|
                0 <= i < entries.len() && (#[trigger] entries[i]).0@ == name,
    decreases entries.len(),
{
    if entries.len() > 0 {
        let before = entries.drop_last();
        assert forall|i: int, j: int| 0 <= i < j < before.len() implies (
        #[trigger] before[i]).0@ != (#[trigger] before[j]).0@ by {
            assert(entries[i].0@ != entries[j].0@);
        }
        lemma_hosts_by_name(before);
        assert forall|i: int| 0 <= i < entries.len() implies hosts_by_name(entries).contains_key(
            (#[trigger] entries[i]).0@,
        ) && hosts_by_name(entries)[entries[i].0@] == entries[i].1@ by {
            if i < before.len() {
                assert(before[i] == entries[i]);
                assert(entries[i].0@ != entries[entries.len() - 1].0@);
            }
        }
        assert forall|name: Seq<char>| hosts_by_name(entries).contains_key(name) implies exists|
            i: int,
        |
            0 <= i < entries.len() && (#[trigger] entries[i]).0@ == name by {
            if name == entries.last().0@ {
                assert(entries[entries.len() - 1].0@ == name);
            } else {
                assert(hosts_by_name(before).contains_key(name));
                let i = choose|i: int| 0 <= i < before.len() && (#[trigger] before[i]).0@ == name;
                assert(before[i].0@ == name);
                assert(entries[i] == before[i]);
            }
        }
    }
}

impl Default for Config {
    fn default() -> (r: Self)
        ensures
            r.wf(),
            r@ == empty_config(),
    {
        Config { default_host: None, hosts: Vec::new() }
    }
}

/// A configuration that says nothing.
pub open spec fn empty_config() -> ConfigView {
    ConfigView { default_host: None, hosts: Map::empty() }
}

/// What became of reading the configuration file.
#[derive(Debug)]
pub enum ConfigSource {
    /// The file holds this configuration.
    Parsed(Config),
    /// The file holds something else.
    Unparsable(String),
    /// There is no file.
    Missing,
    /// The file could not be read.
    Unreadable(String),
}

impl Config {
    /// No host name occurs twice.
    pub open spec fn wf(&self) -> bool {
        distinct_names(self.hosts@)
    }

    /// The position of the host with this name.
    fn position(&self, name: &str) -> (r: Option<usize>)
        requires
            self.wf(),
        ensures
            match r {
                Some(i) => i < self.hosts@.len() && self.hosts@[i as int].0@ == name@
                    && self@.hosts.contains_key(name@) && self@.hosts[name@]
                    == self.hosts@[i as int].1@,
                None => !self@.hosts.contains_key(name@) && forall|i: int|
                    0 <= i < self.hosts@.len() ==> (#[trigger] self.hosts@[i]).0@ != name@,
            },
    {
        let key = name.to_owned();
        let mut i: usize = 0;
        while i < self.hosts.len()
            invariant
                self.wf(),
                i <= self.hosts@.len(),
                key@ == name@,
                forall|j: int| 0 <= j < i ==> (#[trigger] self.hosts@[j]).0@ != name@,
            decreases self.hosts@.len() - i,
        {
            if self.hosts[i].0 == key {
                proof {
                    lemma_hosts_by_name(self.hosts@);
                }
                return Some(i);
            }
            i += 1;
        }
        proof {
            lemma_hosts_by_name(self.hosts@);
        }
        None
    }

    /// The settings of the host with this name.
    pub fn host(&self, name: &str) -> (r: Option<&HostConfig>)
        requires
            self.wf(),
        ensures
            r is Some <==> self@.hosts.contains_key(name@),
            r matches Some(host) ==> host@ == self@.hosts[name@],
    {
        match self.position(name) {
            Some(i) => Some(&self.hosts[i].1),
            None => None,
        }
    }

    /// Sets the settings of the host with this name.
    pub fn insert_host(&mut self, name: String, host: HostConfig)
        requires
            old(self).wf(),
        ensures
            final(self).wf(),
            final(self)@.hosts == old(self)@.hosts.insert(name@, host@),
            final(self)@.default_host == old(self)@.default_host,
    {
        let ghost before = self.hosts@;
        let ghost key = name@;
        let ghost settings = host@;
        match self.position(name.as_str()) {
            Some(i) => {
                self.hosts.set(i, (name, host));
                proof {
                    assert(self.hosts@ =~= before.update(i as int, self.hosts@[i as int]));
                    assert forall|a: int, b: int| 0 <= a < b < self.hosts@.len() implies (
                    #[trigger] self.hosts@[a]).0@ != (#[trigger] self.hosts@[b]).0@ by {
                        assert(before[a].0@ != before[b].0@);
                    }
                    lemma_hosts_by_name(before);
                    lemma_hosts_by_name(self.hosts@);
                    let new = hosts_by_name(self.hosts@);
                    let expected = hosts_by_name(before).insert(key, settings);
                    assert forall|n: Seq<char>| #[trigger] new.contains_key(n)
                        <==> expected.contains_key(n) by {
                        if new.contains_key(n) {
                            let a = choose|a: int|
                                0 <= a < self.hosts@.len() && (#[trigger] self.hosts@[a]).0@ == n;
                            assert(before[a].0@ == n);
                        }
                        if expected.contains_key(n) && n != key {
                            let a = choose|a: int|
                                0 <= a < before.len() && (#[trigger] before[a]).0@ == n;
                            assert(self.hosts@[a].0@ == n);
                        }
                        assert(self.hosts@[i as int].0@ == key);
                    }
                    assert forall|n: Seq<char>| new.contains_key(n) implies #[trigger] new[n]
                        == expected[n] by {
                        let a = choose|a: int|
                            0 <= a < self.hosts@.len() && (#[trigger] self.hosts@[a]).0@ == n;
                        assert(before[a].0@ == n);
                        if a != i {
                            assert(before[a].0@ != before[i as int].0@) by {
                                if a < i {
                                } else {
                                    assert(before[i as int].0@ != before[a].0@);
                                }
                            }
                        }
                    }
                    assert(new =~= expected);
                }
            },
            None => {
                self.hosts.push((name, host));
                proof {
                    assert(self.hosts@.drop_last() =~= before);
                }
            },
        }
    }

    /// Judges what was read of the configuration file `path`: no file is an
    /// empty configuration.
    pub fn load(path: &str, source: ConfigSource) -> (r: Result<Self, Error>)
        requires
            source.wf(),
        ensures
            match loaded_config(path@, source) {
                Ok(expected) => r is Ok && r->Ok_0@ == expected && r->Ok_0.wf(),
                Err(failure) => r is Err && r->Err_0@ == failure,
            },
    {
        match source {
            ConfigSource::Parsed(config) => Ok(config),
            ConfigSource::Missing => Ok(Config::default()),
            ConfigSource::Unparsable(cause) => Err(
                Failure::ConfigUnparsable { path: path.to_owned(), cause },
            ),
            ConfigSource::Unreadable(cause) => Err(
                Failure::ConfigUnreadable { path: path.to_owned(), cause },
            ),
        }
    }

    /// Begins to save to the file `path`: the extension of the file beside it
    /// that is written first and then takes its place. `in_directory` tells
    /// whether the path is one of a file in some directory.
    pub fn save(path: &str, in_directory: bool, process: u32) -> (r: Result<String, Error>)
        ensures
            r is Ok <==> in_directory,
            r matches Ok(extension) ==> extension@ == "tmp-"@ + text::decimal_text(process as nat),
            r matches Err(e) ==> e@ == Failure::ConfigPathWithoutParent(path@),
    {
        if !in_directory {
            return Err(Failure::ConfigPathWithoutParent(path.to_owned()));
        }
        Ok("tmp-".to_owned().concat(decimal(process as u128).as_str()))
    }
}

/// What a configuration file is judged to hold.
pub open spec fn loaded_config(path: Seq<char>, source: ConfigSource) -> Result<
    ConfigView,
    Failure<Seq<char>>,
> {
    match source {
        ConfigSource::Parsed(config) => Ok(config@),
        ConfigSource::Missing => Ok(empty_config()),
        ConfigSource::Unparsable(cause) => Err(Failure::ConfigUnparsable { path, cause: cause@ }),
        ConfigSource::Unreadable(cause) => Err(Failure::ConfigUnreadable { path, cause: cause@ }),
    }
}

impl ConfigSource {
    /// A configuration that was read names no host twice.
    pub open spec fn wf(&self) -> bool {
        self matches ConfigSource::Parsed(config) ==> config.wf()
    }
}

/// The path of the configuration: the explicit one where it is given, and else
/// the default one.
pub open spec fn chosen_path(explicit: Option<Seq<u8>>, default: Option<Seq<u8>>) -> Option<
    Seq<u8>,
> {
    if explicit is Some {
        explicit
    } else {
        default
    }
}

/// Chooses the path of the configuration. It fails only where none is given and
/// the default one is unknown.
pub fn resolved_path(explicit_path: &Option<OsText>, default_path: Option<OsText>) -> (r: Result<
    OsText,
    Error,
>)
    ensures
        match chosen_path(
            text::optional_os_text(*explicit_path),
            text::optional_os_text(default_path),
        ) {
            Some(path) => r is Ok && r->Ok_0@ == path,
            None => r is Err && r->Err_0 is ConfigDirectoryUnknown,
        },
{
    match explicit_path {
        Some(path) => Ok(path.clone()),
        None => match default_path {
            Some(path) => Ok(path),
            None => Err(Failure::ConfigDirectoryUnknown),
        },
    }
}

/// What running a configuration command waits for.
#[derive(Debug)]
pub enum ConfigStage {
    /// The default path.
    Starting(ConfigArgs),
    /// The configuration to be shown.
    Showing,
    /// The configuration in `path` that gets this default host.
    SettingHost { host: String, path: OsText },
    /// The configuration in `path` that loses its default host.
    ClearingHost { path: OsText },
    /// The configuration with the new default host to be saved.
    SavingHost,
    /// The configuration without a default host to be saved.
    SavingNoHost,
    /// Nothing: the command is done.
    Ended,
}

pub enum ConfigStageView {
    Starting { config: Option<Seq<u8>>, action: ConfigActionView },
    Showing,
    SettingHost { host: Seq<char>, path: Seq<u8> },
    ClearingHost { path: Seq<u8> },
    SavingHost,
    SavingNoHost,
    Ended,
}

impl View for ConfigStage {
    type V = ConfigStageView;

    open spec fn view(&self) -> ConfigStageView {
        match *self {
            ConfigStage::Starting(args) => ConfigStageView::Starting {
                config: text::optional_os_text(args.config),
                action: args.action@,
            },
            ConfigStage::Showing => ConfigStageView::Showing,
            ConfigStage::SettingHost { host, path } => ConfigStageView::SettingHost {
                host: host@,
                path: path@,
            },
            ConfigStage::ClearingHost { path } => ConfigStageView::ClearingHost { path: path@ },
            ConfigStage::SavingHost => ConfigStageView::SavingHost,
            ConfigStage::SavingNoHost => ConfigStageView::SavingNoHost,
            ConfigStage::Ended => ConfigStageView::Ended,
        }
    }
}

/// What happened.
#[derive(Debug)]
pub enum ConfigEvent {
    /// The default path, where it is known.
    DefaultPath(Option<OsText>),
    /// What became of reading the file; `path` is how its path is shown.
    Loaded { path: String, source: ConfigSource },
    /// The file was saved; `path` is how its path is shown.
    Saved { path: String },
    /// The file was not saved.
    NotSaved(Error),
}

pub enum ConfigEventView {
    DefaultPath(Option<Seq<u8>>),
    Loaded(Result<ConfigView, Failure<Seq<char>>>),
    Saved { path: Seq<char> },
    NotSaved(Failure<Seq<char>>),
}

impl View for ConfigEvent {
    type V = ConfigEventView;

    open spec fn view(&self) -> ConfigEventView {
        match *self {
            ConfigEvent::DefaultPath(path) => ConfigEventView::DefaultPath(
                text::optional_os_text(path),
            ),
            ConfigEvent::Loaded { path, source } => ConfigEventView::Loaded(
                loaded_config(path@, source),
            ),
            ConfigEvent::Saved { path } => ConfigEventView::Saved { path: path@ },
            ConfigEvent::NotSaved(error) => ConfigEventView::NotSaved(error@),
        }
    }
}

impl ConfigEvent {
    /// A configuration that was read names no host twice.
    pub open spec fn wf(&self) -> bool {
        self matches ConfigEvent::Loaded { path, source } ==> source.wf()
    }
}

/// What to do next.
#[derive(Debug)]
pub enum ConfigStep {
    Load(OsText),
    PrintPath(OsText),
    PrintConfig(Config),
    Save { config: Config, path: OsText },
    PrintLine(String),
    Fail(Error),
}

pub enum ConfigStepView {
    Load(Seq<u8>),
    PrintPath(Seq<u8>),
    PrintConfig(ConfigView),
    Save { config: ConfigView, path: Seq<u8> },
    PrintLine(Seq<char>),
    Fail(Failure<Seq<char>>),
}

impl View for ConfigStep {
    type V = ConfigStepView;

    open spec fn view(&self) -> ConfigStepView {
        match *self {
            ConfigStep::Load(path) => ConfigStepView::Load(path@),
            ConfigStep::PrintPath(path) => ConfigStepView::PrintPath(path@),
            ConfigStep::PrintConfig(config) => ConfigStepView::PrintConfig(config@),
            ConfigStep::Save { config, path } => ConfigStepView::Save {
                config: config@,
                path: path@,
            },
            ConfigStep::PrintLine(line) => ConfigStepView::PrintLine(line@),
            ConfigStep::Fail(error) => ConfigStepView::Fail(error@),
        }
    }
}

/// The events that can come in a stage.
pub open spec fn config_event_fits(stage: ConfigStageView, event: ConfigEventView) -> bool {
    match stage {
        ConfigStageView::Starting { .. } => event is DefaultPath,
        ConfigStageView::Showing
        | ConfigStageView::SettingHost { .. }
        | ConfigStageView::ClearingHost { .. } => event is Loaded,
        ConfigStageView::SavingHost | ConfigStageView::SavingNoHost => event is Saved || event
            is NotSaved,
        ConfigStageView::Ended => false,
    }
}

/// How a command starts. A host name is judged before anything else.
pub open spec fn config_start(
    explicit: Option<Seq<u8>>,
    action: ConfigActionView,
    default: Option<Seq<u8>>,
) -> (ConfigStageView, ConfigStepView) {
    let unknown = (
        ConfigStageView::Ended,
        ConfigStepView::Fail(Failure::ConfigDirectoryUnknown),
    );
    match action {
        ConfigActionView::Path => match chosen_path(explicit, default) {
            Some(path) => (ConfigStageView::Ended, ConfigStepView::PrintPath(path)),
            None => unknown,
        },
        ConfigActionView::Show => match chosen_path(explicit, default) {
            Some(path) => (ConfigStageView::Showing, ConfigStepView::Load(path)),
            None => unknown,
        },
        ConfigActionView::SetHost(host) => if !is_host_name(host) {
            (
                ConfigStageView::Ended,
                ConfigStepView::Fail(Failure::InvalidHostName(host)),
            )
        } else {
            match chosen_path(explicit, default) {
                Some(path) => (
                    ConfigStageView::SettingHost { host, path },
                    ConfigStepView::Load(path),
                ),
                None => unknown,
            }
        },
        ConfigActionView::ClearHost => match chosen_path(explicit, default) {
            Some(path) => (ConfigStageView::ClearingHost { path }, ConfigStepView::Load(path)),
            None => unknown,
        },
    }
}

/// How a command goes on with the configuration that was read.
pub open spec fn config_change(stage: ConfigStageView, config: ConfigView) -> (
    ConfigStageView,
    ConfigStepView,
) {
    match stage {
        ConfigStageView::SettingHost { host, path } => (
            ConfigStageView::SavingHost,
            ConfigStepView::Save {
                config: ConfigView { default_host: Some(host), ..config },
                path,
            },
        ),
        ConfigStageView::ClearingHost { path } => (
            ConfigStageView::SavingNoHost,
            ConfigStepView::Save { config: ConfigView { default_host: None, ..config }, path },
        ),
        _ => (ConfigStageView::Ended, ConfigStepView::PrintConfig(config)),
    }
}

/// The next stage, and what to do.
pub open spec fn config_step(stage: ConfigStageView, event: ConfigEventView) -> (
    ConfigStageView,
    ConfigStepView,
) {
    match event {
        ConfigEventView::DefaultPath(default) => match stage {
            ConfigStageView::Starting { config, action } => config_start(config, action, default),
            _ => (
                ConfigStageView::Ended,
                ConfigStepView::Fail(Failure::ConfigDirectoryUnknown),
            ),
        },
        ConfigEventView::Loaded(Ok(config)) => config_change(stage, config),
        ConfigEventView::Loaded(Err(failure)) => (
            ConfigStageView::Ended,
            ConfigStepView::Fail(failure),
        ),
        ConfigEventView::Saved { path } => (
            ConfigStageView::Ended,
            ConfigStepView::PrintLine(
                if stage is SavingHost {
                    "Default sandbox host saved to "@ + path
                } else {
                    "Default sandbox host cleared in "@ + path
                },
            ),
        ),
        ConfigEventView::NotSaved(failure) => (
            ConfigStageView::Ended,
            ConfigStepView::Fail(failure),
        ),
    }
}

/// Starts a configuration command, once the default path is or is not known.
fn start(args: ConfigArgs, default_path: Option<OsText>) -> (r: (ConfigStage, ConfigStep))
    ensures
        (r.0@, r.1@) == config_start(
            text::optional_os_text(args.config),
            args.action@,
            text::optional_os_text(default_path),
        ),
{
    match args.action {
        ConfigAction::Path => match resolved_path(&args.config, default_path) {
            Ok(path) => (ConfigStage::Ended, ConfigStep::PrintPath(path)),
            Err(error) => (ConfigStage::Ended, ConfigStep::Fail(error)),
        },
        ConfigAction::Show => match resolved_path(&args.config, default_path) {
            Ok(path) => (ConfigStage::Showing, ConfigStep::Load(path)),
            Err(error) => (ConfigStage::Ended, ConfigStep::Fail(error)),
        },
        ConfigAction::SetHost(host) => match validate_host_name(host.as_str()) {
            Err(error) => (ConfigStage::Ended, ConfigStep::Fail(error)),
            Ok(()) => match resolved_path(&args.config, default_path) {
                Ok(path) => (
                    ConfigStage::SettingHost { host, path: path.clone() },
                    ConfigStep::Load(path),
                ),
                Err(error) => (ConfigStage::Ended, ConfigStep::Fail(error)),
            },
        },
        ConfigAction::ClearHost => match resolved_path(&args.config, default_path) {
            Ok(path) => (
                ConfigStage::ClearingHost { path: path.clone() },
                ConfigStep::Load(path),
            ),
            Err(error) => (ConfigStage::Ended, ConfigStep::Fail(error)),
        },
    }
}

/// Goes on with the configuration that was read.
fn change(stage: ConfigStage, mut config: Config) -> (r: (ConfigStage, ConfigStep))
    requires
        stage is Showing || stage is SettingHost || stage is ClearingHost,
        config.wf(),
    ensures
        (r.0@, r.1@) == config_change(stage@, config@),
        r.1 matches ConfigStep::Save { config, path } ==> config.wf(),
        r.1 matches ConfigStep::PrintConfig(config) ==> config.wf(),
{
    match stage {
        ConfigStage::SettingHost { host, path } => {
            config.default_host = Some(host);
            (ConfigStage::SavingHost, ConfigStep::Save { config, path })
        },
        ConfigStage::ClearingHost { path } => {
            config.default_host = None;
            (ConfigStage::SavingNoHost, ConfigStep::Save { config, path })
        },
        _ => (ConfigStage::Ended, ConfigStep::PrintConfig(config)),
    }
}

/// Runs a configuration command: takes one event, and says what to do next.
pub fn run(stage: ConfigStage, event: ConfigEvent) -> (r: (ConfigStage, ConfigStep))
    requires
        config_event_fits(stage@, event@),
        event.wf(),
    ensures
        (r.0@, r.1@) == config_step(stage@, event@),
        r.1 matches ConfigStep::Save { config, path } ==> config.wf(),
        r.1 matches ConfigStep::PrintConfig(config) ==> config.wf(),
{
    match event {
        ConfigEvent::DefaultPath(default_path) => match stage {
            ConfigStage::Starting(args) => start(args, default_path),
            _ => (ConfigStage::Ended, ConfigStep::Fail(Failure::ConfigDirectoryUnknown)),
        },
        ConfigEvent::Loaded { path, source } => match Config::load(path.as_str(), source) {
            Ok(config) => change(stage, config),
            Err(error) => (ConfigStage::Ended, ConfigStep::Fail(error)),
        },
        ConfigEvent::Saved { path } => {
            let line = match stage {
                ConfigStage::SavingHost => "Default sandbox host saved to ",
                _ => "Default sandbox host cleared in ",
            };
            (
                ConfigStage::Ended,
                ConfigStep::PrintLine(line.to_owned().concat(path.as_str())),
            )
        },
        ConfigEvent::NotSaved(error) => (ConfigStage::Ended, ConfigStep::Fail(error)),
    }
}

/// The characters with Unicode's White_Space property.
pub open spec fn is_white_space_char(c: char) -> bool {
    let u = c as u32;
    ||| 0x09 <= u <= 0x0d
    ||| u == 0x20
    ||| u == 0x85
    ||| u == 0xa0
    ||| u == 0x1680
    ||| 0x2000 <= u <= 0x200a
    ||| u == 0x2028
    ||| u == 0x2029
    ||| u == 0x202f
    ||| u == 0x205f
    ||| u == 0x3000
}

pub fn is_white_space(c: char) -> (r: bool)
    ensures
        r == is_white_space_char(c),
{
    let u: u32 = c as u32;
    (0x09 <= u && u <= 0x0d) || u == 0x20 || u == 0x85 || u == 0xa0 || u == 0x1680 || (0x2000 <= u
        && u <= 0x200a) || u == 0x2028 || u == 0x2029 || u == 0x202f || u == 0x205f || u == 0x3000
}

/// A host name that SSH cannot take for anything else: not empty, no option, no
/// slash and no white space.
pub open spec fn is_host_name(host: Seq<char>) -> bool {
    &&& host.len() > 0
    &&& host[0] != '-'
    &&& forall|i: int|
        0 <= i < host.len() ==> #[trigger] host[i] != '/' && !is_white_space_char(host[i])
}

/// Accepts exactly the host names.
pub fn validate_host_name(host: &str) -> (r: Result<(), Error>)
    ensures
        r is Ok <==> is_host_name(host@),
        r matches Err(e) ==> e@ == Failure::InvalidHostName(host@),
{
    let name = characters(host);
    if name.len() == 0 || name[0] == '-' {
        return Err(Failure::InvalidHostName(host.to_owned()));
    }
    let mut i: usize = 0;
    while i < name.len()
        invariant
            name@ == host@,
            i <= name@.len(),
            forall|j: int|
                0 <= j < i ==> #[trigger] name@[j] != '/' && !is_white_space_char(name@[j]),
        decreases name@.len() - i,
    {
        if name[i] == '/' || is_white_space(name[i]) {
            return Err(Failure::InvalidHostName(host.to_owned()));
        }
        i += 1;
    }
    Ok(())
}

/// A host name is refused if and only if it is empty, starts with a hyphen, or
/// holds a slash or white space.
pub proof fn law_host_names(host: Seq<char>)
    ensures
        !is_host_name(host) <==> host.len() == 0 || host[0] == '-' || host.contains('/') || exists|
            i: int,
        |
            0 <= i < host.len() && is_white_space_char(#[trigger] host[i]),
{
    if host.contains('/') {
        let i = choose|i: int| 0 <= i < host.len() && host[i] == '/';
        assert(host[i] == '/');
    }
}

/// Each host is found under its name, with its settings, and nothing else is
/// found; a configuration without hosts holds none.
pub proof fn law_hosts_are_found_by_name(config: Config, i: int, name: Seq<char>)
    requires
        config.wf(),
    ensures
        0 <= i < config.hosts@.len() ==> config@.hosts.contains_key(config.hosts@[i].0@)
            && config@.hosts[config.hosts@[i].0@] == config.hosts@[i].1@,
        config@.hosts.contains_key(name) ==> exists|k: int|
            0 <= k < config.hosts@.len() && (#[trigger] config.hosts@[k]).0@ == name,
        config@.default_host == match config.default_host {
            Some(host) => Some(host@),
            None => None,
        },
{
    lemma_hosts_by_name(config.hosts@);
}

/// A configuration file is taken as it was parsed; where there is none, there is no
/// default host and no host; and what kept it from being read or parsed is told,
/// with its path.
pub proof fn law_files_are_judged(path: Seq<char>, config: Config, cause: String)
    ensures
        loaded_config(path, ConfigSource::Parsed(config)) == Ok::<ConfigView, Failure<Seq<char>>>(
            config@,
        ),
        loaded_config(path, ConfigSource::Missing) is Ok,
        loaded_config(path, ConfigSource::Missing)->Ok_0.default_host is None,
        forall|name: Seq<char>| !#[trigger]
            loaded_config(path, ConfigSource::Missing)->Ok_0.hosts.contains_key(name),
        loaded_config(path, ConfigSource::Unparsable(cause)) == Err::<
            ConfigView,
            Failure<Seq<char>>,
        >(Failure::ConfigUnparsable { path, cause: cause@ }),
        loaded_config(path, ConfigSource::Unreadable(cause)) == Err::<
            ConfigView,
            Failure<Seq<char>>,
        >(Failure::ConfigUnreadable { path, cause: cause@ }),
{
}

/// Where no path is given the default one is used, by every command; and where
/// there is neither, every command fails that needs one.
pub proof fn law_default_path_is_used(path: Seq<u8>, host: Seq<char>)
    requires
        is_host_name(host),
    ensures
        ({
            let known = ConfigEventView::DefaultPath(Some(path));
            let unknown = ConfigEventView::DefaultPath(None);
            let path_command = ConfigStageView::Starting {
                config: None,
                action: ConfigActionView::Path,
            };
            let show = ConfigStageView::Starting { config: None, action: ConfigActionView::Show };
            let set = ConfigStageView::Starting {
                config: None,
                action: ConfigActionView::SetHost(host),
            };
            let clear = ConfigStageView::Starting {
                config: None,
                action: ConfigActionView::ClearHost,
            };
            let failed = (
                ConfigStageView::Ended,
                ConfigStepView::Fail(Failure::ConfigDirectoryUnknown),
            );
            &&& config_step(path_command, known) == (
                ConfigStageView::Ended,
                ConfigStepView::PrintPath(path),
            )
            &&& config_step(show, known) == (ConfigStageView::Showing, ConfigStepView::Load(path))
            &&& config_step(set, known) == (
                ConfigStageView::SettingHost { host, path },
                ConfigStepView::Load(path),
            )
            &&& config_step(clear, known) == (
                ConfigStageView::ClearingHost { path },
                ConfigStepView::Load(path),
            )
            &&& config_step(path_command, unknown) == failed
            &&& config_step(show, unknown) == failed
            &&& config_step(set, unknown) == failed
            &&& config_step(clear, unknown) == failed
        }),
{
}

/// What a configuration command does with the configuration that was read: it is
/// shown as it is, or saved back to its path with the new default host, or with
/// none, and nothing else changed. What was not read or saved is told.
pub proof fn law_commands_change_the_default_host_only(
    host: Seq<char>,
    path: Seq<u8>,
    shown: Seq<char>,
    config: ConfigView,
    failure: Failure<Seq<char>>,
)
    ensures
        ({
            let loaded = ConfigEventView::Loaded(Ok(config));
            let unread = ConfigEventView::Loaded(Err(failure));
            let set = ConfigStageView::SettingHost { host, path };
            let clear = ConfigStageView::ClearingHost { path };
            let failed = (ConfigStageView::Ended, ConfigStepView::Fail(failure));
            let saved = ConfigEventView::Saved { path: shown };
            &&& config_step(ConfigStageView::Showing, loaded) == (
                ConfigStageView::Ended,
                ConfigStepView::PrintConfig(config),
            )
            &&& config_step(set, loaded) == (
                ConfigStageView::SavingHost,
                ConfigStepView::Save {
                    config: ConfigView { default_host: Some(host), hosts: config.hosts },
                    path,
                },
            )
            &&& config_step(clear, loaded) == (
                ConfigStageView::SavingNoHost,
                ConfigStepView::Save {
                    config: ConfigView { default_host: None, hosts: config.hosts },
                    path,
                },
            )
            &&& config_step(ConfigStageView::Showing, unread) == failed
            &&& config_step(set, unread) == failed
            &&& config_step(clear, unread) == failed
            &&& config_step(ConfigStageView::SavingHost, saved) == (
                ConfigStageView::Ended,
                ConfigStepView::PrintLine("Default sandbox host saved to "@ + shown),
            )
            &&& config_step(ConfigStageView::SavingNoHost, saved) == (
                ConfigStageView::Ended,
                ConfigStepView::PrintLine("Default sandbox host cleared in "@ + shown),
            )
            &&& config_step(ConfigStageView::SavingHost, ConfigEventView::NotSaved(failure))
                == failed
            &&& config_step(ConfigStageView::SavingNoHost, ConfigEventView::NotSaved(failure))
                == failed
        }),
{
}

} // verus!

//! Which sandbox to connect to, and where it is.

use vstd::prelude::*;
use vstd::string::*;

use crate::cli::ConnectArgs;
use crate::config;
use crate::config::{validate_host_name, Config, ConfigView};
use crate::error::{Error, Failure};
use crate::text;
use crate::text::{characters, copy_text, is_alphanumeric, same_text};

verus! {

/// A sandbox and its location.
#[derive(Clone, Debug, PartialEq, Eq)]
pub struct Target {
    pub sandbox: String,
    pub location: Location,
}

#[derive(Clone, Debug, PartialEq, Eq)]
pub enum Location {
    /// On this machine.
    Local { sbx_command: String },
    /// Behind an SSH host.
    Remote { ssh_host: String, sbx_command: String },
}

pub struct TargetView {
    pub sandbox: Seq<char>,
    pub location: LocationView,
}

pub enum LocationView {
    Local { sbx_command: Seq<char> },
    Remote { ssh_host: Seq<char>, sbx_command: Seq<char> },
}

impl View for Location {
    type V = LocationView;

    open spec fn view(&self) -> LocationView {
        match *self {
            Location::Local { sbx_command } => LocationView::Local { sbx_command: sbx_command@ },
            Location::Remote { ssh_host, sbx_command } => LocationView::Remote {
                ssh_host: ssh_host@,
                sbx_command: sbx_command@,
            },
        }
    }
}

impl View for Target {
    type V = TargetView;

    open spec fn view(&self) -> TargetView {
        TargetView { sandbox: self.sandbox@, location: self.location@ }
    }
}

/// The position of the first slash in `s`, or its length.
pub open spec fn first_slash(s: Seq<char>) -> int
    decreases s.len(),
{
    if s.len() == 0 || s[0] == '/' {
        0
    } else {
        1 + first_slash(s.skip(1))
    }
}

/// The host that `HOST/SANDBOX` names; a plain sandbox name has none.
pub open spec fn host_part(s: Seq<char>) -> Option<Seq<char>> {
    if first_slash(s) < s.len() {
        Some(s.take(first_slash(s)))
    } else {
        None
    }
}

/// The sandbox that `HOST/SANDBOX` or a plain sandbox name names.
pub open spec fn sandbox_part(s: Seq<char>) -> Seq<char> {
    if first_slash(s) < s.len() {
        s.skip(first_slash(s) + 1)
    } else {
        s
    }
}

pub open spec fn is_sandbox_char(c: char) -> bool {
    text::is_ascii_alphanumeric_char(c) || c == '.' || c == '+' || c == '-'
}

/// A sandbox name: ASCII letters and digits, dots, plus signs and hyphens.
pub open spec fn is_sandbox_name(name: Seq<char>) -> bool {
    name.len() > 0 && forall|i: int| 0 <= i < name.len() ==> is_sandbox_char(#[trigger] name[i])
}

/// The first of two texts that is there.
pub open spec fn first_of(a: Option<Seq<char>>, b: Option<Seq<char>>) -> Option<Seq<char>> {
    if a is Some {
        a
    } else {
        b
    }
}

/// The location of a host: `local` and no host at all are this machine, any
/// other name a remote host with its settings.
pub open spec fn location_of(host: Option<Seq<char>>, config: ConfigView) -> Result<
    LocationView,
    Failure<Seq<char>>,
> {
    match host {
        None => Ok(LocationView::Local { sbx_command: "sbx"@ }),
        Some(name) => if name == "local"@ {
            Ok(LocationView::Local { sbx_command: "sbx"@ })
        } else if !config::is_host_name(name) {
            Err(Failure::InvalidHostName(name))
        } else if config.hosts.contains_key(name) {
            let settings = config.hosts[name];
            Ok(
                LocationView::Remote {
                    ssh_host: match settings.ssh_host {
                        Some(ssh_host) => ssh_host,
                        None => name,
                    },
                    sbx_command: match settings.sbx_command {
                        Some(sbx_command) => sbx_command,
                        None => "sbx"@,
                    },
                },
            )
        } else {
            Ok(LocationView::Remote { ssh_host: name, sbx_command: "sbx"@ })
        },
    }
}

/// The host in order of precedence: the one of `HOST/SANDBOX`, of `--host`, of
/// the environment, of the configuration. `--local` overrides them all.
pub open spec fn chosen_host(
    spelled: Seq<char>,
    local: bool,
    host: Option<Seq<char>>,
    environment_host: Option<Seq<char>>,
    default_host: Option<Seq<char>>,
) -> Option<Seq<char>> {
    if local {
        None
    } else {
        first_of(host_part(spelled), first_of(host, first_of(environment_host, default_host)))
    }
}

/// What a connection is resolved to.
pub open spec fn resolved(
    spelled: Seq<char>,
    local: bool,
    host: Option<Seq<char>>,
    environment_host: Option<Seq<char>>,
    config: ConfigView,
) -> Result<TargetView, Failure<Seq<char>>> {
    let sandbox = sandbox_part(spelled);
    if !is_sandbox_name(sandbox) {
        Err(Failure::InvalidSandboxName(sandbox))
    } else if local && host_part(spelled) is Some {
        Err(Failure::LocalWithHost)
    } else if host is Some && host_part(spelled) is Some {
        Err(Failure::HostWithHost)
    } else {
        match location_of(
            chosen_host(spelled, local, host, environment_host, config.default_host),
            config,
        ) {
            Ok(location) => Ok(TargetView { sandbox, location }),
            Err(failure) => Err(failure),
        }
    }
}

/// The views of a result.
pub open spec fn target_result(r: Result<Target, Error>) -> Result<
    TargetView,
    Failure<Seq<char>>,
> {
    match r {
        Ok(target) => Ok(target@),
        Err(error) => Err(error@),
    }
}

proof fn lemma_first_slash(s: Seq<char>, i: int)
    requires
        0 <= i <= s.len(),
        forall|j: int| 0 <= j < i ==> s[j] != '/',
        i < s.len() ==> s[i] == '/',
    ensures
        first_slash(s) == i,
    decreases s.len(),
{
    if i > 0 {
        assert forall|j: int| 0 <= j < i - 1 implies s.skip(1)[j] != '/' by {
            assert(s.skip(1)[j] == s[j + 1]);
        }
        lemma_first_slash(s.skip(1), i - 1);
    }
}

/// Splits `HOST/SANDBOX` at its first slash.
fn split_target(spelled: &str) -> (r: (Option<String>, String))
    ensures
        text::optional_text(r.0) == host_part(spelled@),
        r.1@ == sandbox_part(spelled@),
{
    let letters = characters(spelled);
    let mut i: usize = 0;
    while i < letters.len() && letters[i] != '/'
        invariant
            letters@ == spelled@,
            i <= letters@.len(),
            forall|j: int| 0 <= j < i ==> letters@[j] != '/',
        decreases letters@.len() - i,
    {
        i += 1;
    }
    proof {
        lemma_first_slash(spelled@, i as int);
    }
    if i < letters.len() {
        let host = spelled.substring_char(0, i).to_owned();
        let sandbox = spelled.substring_char(i + 1, letters.len()).to_owned();
        proof {
            assert(host@ =~= spelled@.take(i as int));
            assert(sandbox@ =~= spelled@.skip(i + 1));
        }
        (Some(host), sandbox)
    } else {
        (None, spelled.to_owned())
    }
}

/// Accepts exactly the sandbox names.
pub fn validate_sandbox_name(name: &str) -> (r: Result<(), Error>)
    ensures
        r is Ok <==> is_sandbox_name(name@),
        r matches Err(e) ==> e@ == Failure::InvalidSandboxName(name@),
{
    let letters = characters(name);
    if letters.len() == 0 {
        return Err(Failure::InvalidSandboxName(name.to_owned()));
    }
    let mut i: usize = 0;
    while i < letters.len()
        invariant
            letters@ == name@,
            i <= letters@.len(),
            forall|j: int| 0 <= j < i ==> is_sandbox_char(#[trigger] letters@[j]),
        decreases letters@.len() - i,
    {
        let c = letters[i];
        if !is_alphanumeric(c) && c != '.' && c != '+' && c != '-' {
            return Err(Failure::InvalidSandboxName(name.to_owned()));
        }
        i += 1;
    }
    Ok(())
}

/// The location of a host.
fn locate(host: Option<String>, config: &Config) -> (r: Result<Location, Error>)
    requires
        config.wf(),
    ensures
        location_of(text::optional_text(host), config@) == match r {
            Ok(location) => Ok::<LocationView, Failure<Seq<char>>>(location@),
            Err(error) => Err(error@),
        },
{
    let name = match host {
        None => {
            return Ok(Location::Local { sbx_command: "sbx".to_owned() });
        },
        Some(name) => name,
    };
    if same_text(name.as_str(), "local") {
        return Ok(Location::Local { sbx_command: "sbx".to_owned() });
    }
    match validate_host_name(name.as_str()) {
        Ok(()) => {},
        Err(error) => {
            return Err(error);
        },
    }
    let (ssh_host, sbx_command) = match config.host(name.as_str()) {
        Some(settings) => (copy_text(&settings.ssh_host), copy_text(&settings.sbx_command)),
        None => (None, None),
    };
    Ok(
        Location::Remote {
            ssh_host: match ssh_host {
                Some(ssh_host) => ssh_host,
                None => name,
            },
            sbx_command: match sbx_command {
                Some(sbx_command) => sbx_command,
                None => "sbx".to_owned(),
            },
        },
    )
}

impl Target {
    /// Resolves the arguments of a connection. `environment_host` is the value
    /// of the environment variable `SBC_HOST`.
    pub fn resolve(
        args: &ConnectArgs,
        config: &Config,
        environment_host: &Option<String>,
    ) -> (r: Result<Self, Error>)
        requires
            config.wf(),
        ensures
            target_result(r) == resolved(
                args.sandbox@,
                args.local,
                text::optional_text(args.host),
                text::optional_text(*environment_host),
                config@,
            ),
    {
        let (explicit_host, sandbox) = split_target(args.sandbox.as_str());
        match validate_sandbox_name(sandbox.as_str()) {
            Ok(()) => {},
            Err(error) => {
                return Err(error);
            },
        }
        if args.local && explicit_host.is_some() {
            return Err(Failure::LocalWithHost);
        }
        if args.host.is_some() && explicit_host.is_some() {
            return Err(Failure::HostWithHost);
        }
        let host = if args.local {
            None
        } else if explicit_host.is_some() {
            explicit_host
        } else if args.host.is_some() {
            copy_text(&args.host)
        } else if environment_host.is_some() {
            copy_text(environment_host)
        } else {
            copy_text(&config.default_host)
        };
        match locate(host, config) {
            Ok(location) => Ok(Target { sandbox, location }),
            Err(error) => Err(error),
        }
    }
}

/// A connection that is resolved has a proper sandbox name, and the SSH host is
/// either a proper host name or one that the configuration gives.
pub proof fn law_resolved_names_are_proper(
    spelled: Seq<char>,
    local: bool,
    host: Option<Seq<char>>,
    environment_host: Option<Seq<char>>,
    config: ConfigView,
)
    requires
        resolved(spelled, local, host, environment_host, config) is Ok,
    ensures
        ({
            let target = resolved(spelled, local, host, environment_host, config)->Ok_0;
            &&& is_sandbox_name(target.sandbox)
            &&& target.location matches LocationView::Remote { ssh_host, sbx_command }
                ==> config::is_host_name(ssh_host) || exists|name: Seq<char>| #[trigger]
                config.hosts.contains_key(name) && config.hosts[name].ssh_host == Some(ssh_host)
        }),
{
    let target = resolved(spelled, local, host, environment_host, config)->Ok_0;
    if let LocationView::Remote { ssh_host, sbx_command } = target.location {
        let name = chosen_host(spelled, local, host, environment_host, config.default_host)->0;
        if config.hosts.contains_key(name) && config.hosts[name].ssh_host is Some {
            assert(config.hosts[name].ssh_host == Some(ssh_host));
        }
    }
}

/// `HOST/SANDBOX`, `--host` and `--local` decide alone: beside them neither the
/// environment nor the default host of the configuration matters.
pub proof fn law_explicit_choice_wins(
    spelled: Seq<char>,
    local: bool,
    host: Option<Seq<char>>,
    environment_host: Option<Seq<char>>,
    other_environment_host: Option<Seq<char>>,
    config: ConfigView,
    other_default_host: Option<Seq<char>>,
)
    requires
        host_part(spelled) is Some || local || host is Some,
    ensures
        resolved(spelled, local, host, environment_host, config) == resolved(
            spelled,
            local,
            host,
            other_environment_host,
            ConfigView { default_host: other_default_host, ..config },
        ),
{
}

/// `HOST/SANDBOX` comes apart into its two names.
pub proof fn lemma_spelled_target(host: Seq<char>, sandbox: Seq<char>)
    requires
        forall|i: int| 0 <= i < host.len() ==> #[trigger] host[i] != '/',
    ensures
        host_part(host + "/"@ + sandbox) == Some(host),
        sandbox_part(host + "/"@ + sandbox) == sandbox,
{
    reveal_strlit("/");
    let spelled = host + "/"@ + sandbox;
    lemma_first_slash(spelled, host.len() as int);
    assert(spelled.take(host.len() as int) =~= host);
    assert(spelled.skip((host.len() + 1) as int) =~= sandbox);
}

/// A plain sandbox name names no host.
pub proof fn lemma_plain_target(sandbox: Seq<char>)
    requires
        is_sandbox_name(sandbox),
    ensures
        host_part(sandbox) is None,
        sandbox_part(sandbox) == sandbox,
{
    assert forall|j: int| 0 <= j < sandbox.len() implies sandbox[j] != '/' by {
        assert(is_sandbox_char(sandbox[j]));
    }
    lemma_first_slash(sandbox, sandbox.len() as int);
}

/// `local/SANDBOX` and `--local SANDBOX` are the sandbox on this machine,
/// whatever the environment and the configuration say.
pub proof fn law_local_is_this_machine(
    sandbox: Seq<char>,
    environment_host: Option<Seq<char>>,
    config: ConfigView,
)
    requires
        is_sandbox_name(sandbox),
    ensures
        ({
            let here = Ok::<TargetView, Failure<Seq<char>>>(
                TargetView { sandbox, location: LocationView::Local { sbx_command: "sbx"@ } },
            );
            &&& resolved("local/"@ + sandbox, false, None, environment_host, config) == here
            &&& resolved(sandbox, true, None, environment_host, config) == here
        }),
{
    reveal_strlit("local/");
    reveal_strlit("local");
    reveal_strlit("/");
    lemma_spelled_target("local"@, sandbox);
    assert("local/"@ =~= "local"@ + "/"@);
    lemma_plain_target(sandbox);
}

/// Without a host in the name, the arguments, the environment and the
/// configuration, the sandbox is on this machine.
pub proof fn law_no_host_is_this_machine(sandbox: Seq<char>, config: ConfigView)
    requires
        is_sandbox_name(sandbox),
        config.default_host is None,
    ensures
        resolved(sandbox, false, None, None, config) == Ok::<TargetView, Failure<Seq<char>>>(
            TargetView { sandbox, location: LocationView::Local { sbx_command: "sbx"@ } },
        ),
{
    lemma_plain_target(sandbox);
}

/// `HOST/SANDBOX` is split at its first slash, whatever the two parts hold; a name
/// without a slash names no host.
pub proof fn law_first_slash_splits(host: Seq<char>, rest: Seq<char>)
    requires
        !host.contains('/'),
    ensures
        host_part(host + seq!['/'] + rest) == Some(host),
        sandbox_part(host + seq!['/'] + rest) == rest,
        host_part(host) is None,
        sandbox_part(host) == host,
{
    let spelled = host + seq!['/'] + rest;
    assert forall|j: int| 0 <= j < host.len() implies host[j] != '/' by {
        assert(host.contains(host[j]) || host[j] != '/');
    }
    lemma_first_slash(spelled, host.len() as int);
    assert(spelled.take(host.len() as int) =~= host);
    assert(spelled.skip((host.len() + 1) as int) =~= rest);
    lemma_first_slash(host, host.len() as int);
}

/// A sandbox name holds ASCII letters, digits, `.`, `+` and `-`, at least one of
/// them and nothing else.
pub proof fn law_sandbox_names(name: Seq<char>)
    ensures
        is_sandbox_name(name) <==> name.len() > 0 && forall|i: int|
            0 <= i < name.len() ==> {
                ||| 'a' <= (#[trigger] name[i]) <= 'z'
                ||| 'A' <= name[i] <= 'Z'
                ||| '0' <= name[i] <= '9'
                ||| name[i] == '.' || name[i] == '+' || name[i] == '-'
            },
{
    if name.len() > 0 && forall|i: int|
        0 <= i < name.len() ==> {
            ||| 'a' <= (#[trigger] name[i]) <= 'z'
            ||| 'A' <= name[i] <= 'Z'
            ||| '0' <= name[i] <= '9'
            ||| name[i] == '.' || name[i] == '+' || name[i] == '-'
        } {
        assert(is_sandbox_name(name));
    }
    if is_sandbox_name(name) {
        assert forall|i: int| 0 <= i < name.len() implies {
            ||| 'a' <= (#[trigger] name[i]) <= 'z'
            ||| 'A' <= name[i] <= 'Z'
            ||| '0' <= name[i] <= '9'
            ||| name[i] == '.' || name[i] == '+' || name[i] == '-'
        } by {
            assert(is_sandbox_char(name[i]));
        }
    }
}

/// A host alias overrides the SSH host and the sbx command each for itself: a
/// connection goes to the configured `ssh_host`, or else to the name, and runs the
/// configured `sbx_command`, or else `sbx`, whatever the other one is.
pub proof fn law_alias_overrides_each_setting(config: ConfigView, name: Seq<char>)
    requires
        config::is_host_name(name),
        name != "local"@,
    ensures
        location_of(Some(name), config) is Ok,
        location_of(Some(name), config)->Ok_0 is Remote,
        ({
            let location = location_of(Some(name), config)->Ok_0;
            let configured = config.hosts.contains_key(name);
            let settings = config.hosts[name];
            &&& configured && settings.ssh_host is Some ==> Some(location->ssh_host)
                == settings.ssh_host
            &&& !configured || settings.ssh_host is None ==> location->ssh_host == name
            &&& configured && settings.sbx_command is Some ==> Some(location->Remote_sbx_command)
                == settings.sbx_command
            &&& !configured || settings.sbx_command is None ==> location->Remote_sbx_command
                == "sbx"@
        }),
{
}

/// `local` and no host at all are this machine, with the command `sbx`; a name
/// that is no host name is refused, and told.
pub proof fn law_local_and_bad_hosts(config: ConfigView, name: Seq<char>)
    requires
        !config::is_host_name(name),
        name != "local"@,
    ensures
        location_of(None, config) == Ok::<LocationView, Failure<Seq<char>>>(
            LocationView::Local { sbx_command: "sbx"@ },
        ),
        location_of(Some("local"@), config) == Ok::<LocationView, Failure<Seq<char>>>(
            LocationView::Local { sbx_command: "sbx"@ },
        ),
        location_of(Some(name), config) == Err::<LocationView, Failure<Seq<char>>>(
            Failure::InvalidHostName(name),
        ),
{
}

/// A connection that spells its host: a bad sandbox name is refused first, then
/// `--local` and then `--host` beside it; else it leads to that host.
pub proof fn law_spelled_host_is_used(
    spelled_host: Seq<char>,
    sandbox: Seq<char>,
    local: bool,
    host: Option<Seq<char>>,
    environment_host: Option<Seq<char>>,
    config: ConfigView,
)
    requires
        !spelled_host.contains('/'),
    ensures
        ({
            let r = resolved(
                spelled_host + seq!['/'] + sandbox,
                local,
                host,
                environment_host,
                config,
            );
            if !is_sandbox_name(sandbox) {
                r == Err::<TargetView, Failure<Seq<char>>>(Failure::InvalidSandboxName(sandbox))
            } else if local {
                r == Err::<TargetView, Failure<Seq<char>>>(Failure::LocalWithHost)
            } else if host is Some {
                r == Err::<TargetView, Failure<Seq<char>>>(Failure::HostWithHost)
            } else {
                match location_of(Some(spelled_host), config) {
                    Ok(location) => r == Ok::<TargetView, Failure<Seq<char>>>(
                        TargetView { sandbox, location },
                    ),
                    Err(failure) => r == Err::<TargetView, Failure<Seq<char>>>(failure),
                }
            }
        }),
{
    law_first_slash_splits(spelled_host, sandbox);
}

/// A plain sandbox name: `--local` is this machine; else `--host` comes before the
/// environment, that before the default host of the configuration, and with none
/// of them it is this machine.
pub proof fn law_hosts_in_their_order(
    sandbox: Seq<char>,
    given: Seq<char>,
    environment_host: Option<Seq<char>>,
    inherited: Seq<char>,
    host: Option<Seq<char>>,
    config: ConfigView,
)
    requires
        is_sandbox_name(sandbox),
    ensures
        located(resolved(sandbox, true, host, environment_host, config)) == location_of(
            None,
            config,
        ),
        located(resolved(sandbox, false, Some(given), environment_host, config)) == location_of(
            Some(given),
            config,
        ),
        located(resolved(sandbox, false, None, Some(inherited), config)) == location_of(
            Some(inherited),
            config,
        ),
        located(resolved(sandbox, false, None, None, config)) == location_of(
            config.default_host,
            config,
        ),
        resolved(sandbox, false, host, environment_host, config) matches Ok(target)
            ==> target.sandbox == sandbox,
        resolved(sandbox, true, host, environment_host, config) matches Ok(target)
            ==> target.sandbox == sandbox,
{
    lemma_plain_target(sandbox);
}

/// Where a resolved connection leads.
pub open spec fn located(r: Result<TargetView, Failure<Seq<char>>>) -> Result<
    LocationView,
    Failure<Seq<char>>,
> {
    match r {
        Ok(target) => Ok(target.location),
        Err(failure) => Err(failure),
    }
}

} // verus!

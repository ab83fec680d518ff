//! Service descriptors and their validation.

use vstd::prelude::*;
use crate::pty::{
    clean_path, decimal, digit_char, index_text, path_is_absolute, path_join, split_once_at, strip_char,
    stripped, trim_text, trimmed,
};

verus! {

/// Most services that one configuration may define.
pub const MAX_SERVICES: usize = 200;

/// One configured program: what a session is started from.
#[derive(Debug, Clone)]
pub struct ServiceConfig {
    /// Unique and stable: the service's place in the configuration, in decimal.
    pub id: String,
    pub prog: String,
    pub args: Vec<String>,
    /// Display label.
    pub name: String,
    /// Resolved working directory.
    pub wdir: String,
}

/// A service as written in a configuration file.
#[derive(Debug, Clone)]
pub struct RawServiceConfig {
    pub prog: String,
    pub args: Option<Vec<String>>,
    pub name: Option<String>,
    pub wdir: Option<String>,
}

/// A validated configuration.
#[derive(Debug, Clone)]
pub struct Config {
    pub name: String,
    pub services: Vec<ServiceConfig>,
}

/// A configuration as written in a file.
#[derive(Debug, Clone)]
pub struct RawConfig {
    pub name: String,
    pub services: Vec<RawServiceConfig>,
}

/// Why a configuration was refused.
#[derive(Debug, Clone)]
pub enum ConfigError {
    /// A service's program is empty or blank; `service` is its name, or
    /// `unnamed`.
    MissingProgram { service: String },
    /// The configuration defines no service.
    NoServices,
    /// The configuration defines more than `MAX_SERVICES` services.
    TooManyServices,
}

/// The formats a configuration can be written in.
#[derive(Debug, Clone, Copy, PartialEq, Eq, Structural)]
pub enum ConfigFormat {
    Yaml,
    Json,
    Toml,
}

/// Where the configuration file is.
#[derive(Debug, Clone)]
pub enum ConfigPath {
    /// A path given on the command line or in the environment.
    Given(String),
    /// The default candidate at this place in `default_candidates`, found in
    /// the current directory.
    Candidate(usize),
}

impl ConfigError {
    /// This error reports a missing program for the service called `label`.
    pub open spec fn missing(&self, label: Seq<char>) -> bool {
        match self {
            ConfigError::MissingProgram { service } => service@ == label,
            _ => false,
        }
    }
}

/// `path` is the given path `text`.
pub open spec fn given(path: Option<ConfigPath>, text: Seq<char>) -> bool {
    match path {
        Some(ConfigPath::Given(p)) => p@ == text,
        _ => false,
    }
}

/// The mathematical value of a `ServiceConfig`.
pub ghost struct ServiceView {
    pub id: Seq<char>,
    pub prog: Seq<char>,
    pub args: Seq<Seq<char>>,
    pub name: Seq<char>,
    pub wdir: Seq<char>,
}

impl View for ServiceConfig {
    type V = ServiceView;

    open spec fn view(&self) -> ServiceView {
        ServiceView {
            id: self.id@,
            prog: self.prog@,
            args: self.args.deep_view(),
            name: self.name@,
            wdir: self.wdir@,
        }
    }
}

impl RawServiceConfig {
    /// The program is empty or nothing but whitespace.
    pub open spec fn blank(&self) -> bool {
        trimmed(self.prog@).len() == 0
    }

    /// The name to report the service under: its own, or `unnamed`.
    pub open spec fn label(&self) -> Seq<char> {
        match self.name {
            Some(name) => name@,
            None => "unnamed"@,
        }
    }

    /// Whether `service` is this raw service at place `index`, resolved against
    /// `basedir`: the id is the place in decimal, the arguments default to none,
    /// the name defaults to the program, and without a directory of its own the
    /// service runs in `basedir`.
    pub open spec fn resolves_to(&self, service: ServiceView, index: nat, basedir: Seq<char>) -> bool {
        &&& service.id == decimal(index)
        &&& service.prog == self.prog@
        &&& service.args == match self.args {
            Some(args) => args.deep_view(),
            None => Seq::<Seq<char>>::empty(),
        }
        &&& service.name == match self.name {
            Some(name) => name@,
            None => self.prog@,
        }
        &&& (self.wdir is None ==> service.wdir == basedir)
    }
}

/// The first blank service is at place `i`.
pub open spec fn first_blank(services: Seq<RawServiceConfig>, i: int) -> bool {
    &&& 0 <= i < services.len()
    &&& services[i].blank()
    &&& forall|k: int| 0 <= k < i ==> !(#[trigger] services[k]).blank()
}

/// A decimal text has at least one digit, and two or more from ten on.
pub proof fn lemma_decimal_len(n: nat)
    ensures
        decimal(n).len() >= 1,
        n >= 10 ==> decimal(n).len() >= 2,
    decreases n,
{
    if n >= 10 {
        lemma_decimal_len(n / 10);
    }
}

/// Two numbers with the same decimal text are the same number.
pub proof fn lemma_decimal_injective(a: nat, b: nat)
    requires
        decimal(a) == decimal(b),
    ensures
        a == b,
    decreases a,
{
    lemma_decimal_len(a);
    lemma_decimal_len(b);
    if a < 10 && b < 10 {
        assert(decimal(a)[0] == digit_char(a));
        assert(decimal(b)[0] == digit_char(b));
    } else if a < 10 || b < 10 {
        assert(decimal(a).len() == decimal(b).len());
    } else {
        assert(decimal(a).drop_last() =~= decimal(a / 10));
        assert(decimal(b).drop_last() =~= decimal(b / 10));
        assert(decimal(a).last() == digit_char(a % 10));
        assert(decimal(b).last() == digit_char(b % 10));
        lemma_decimal_injective(a / 10, b / 10);
        assert(a % 10 == b % 10);
    }
}

/// The ids of a resolved configuration are pairwise distinct: each is the
/// decimal text of the service's place.
pub proof fn lemma_ids_distinct(
    raw: Seq<RawServiceConfig>,
    services: Seq<ServiceConfig>,
    basedir: Seq<char>,
)
    requires
        services.len() == raw.len(),
        forall|i: int|
            0 <= i < raw.len() ==> (#[trigger] raw[i]).resolves_to(services[i]@, i as nat, basedir),
    ensures
        forall|i: int, j: int|
            0 <= i < j < services.len() ==> (#[trigger] services[i]).id@ != (
            #[trigger] services[j]).id@,
{
    assert forall|i: int, j: int| 0 <= i < j < services.len() implies (#[trigger] services[i]).id@
        != (#[trigger] services[j]).id@ by {
        assert(raw[i].resolves_to(services[i]@, i as nat, basedir));
        assert(raw[j].resolves_to(services[j]@, j as nat, basedir));
        if services[i].id@ == services[j].id@ {
            lemma_decimal_injective(i as nat, j as nat);
        }
    }
}

/// A copy of a list of texts.
pub fn clone_texts(texts: &Vec<String>) -> (copy: Vec<String>)
    ensures
        copy.deep_view() == texts.deep_view(),
{
    let mut copy: Vec<String> = Vec::new();
    let mut i: usize = 0;
    while i < texts.len()
        invariant
            i <= texts@.len(),
            copy@.len() == i,
            forall|k: int| 0 <= k < i ==> copy@[k]@ == texts@[k]@,
        decreases texts@.len() - i,
    {
        copy.push(texts[i].clone());
        i += 1;
    }
    assert(copy.deep_view() =~= texts.deep_view());
    copy
}

/// The directory a service runs in: `basedir` where it names none; else its own
/// directory, taken relative to `basedir` unless it is absolute, and cleaned of
/// `.`, `..` and doubled separators.
pub fn resolve_wdir(wdir: &Option<String>, basedir: &String) -> (resolved: String)
    ensures
        wdir is None ==> resolved@ == basedir@,
{
    match wdir {
        Some(own) => {
            if path_is_absolute(own) {
                clean_path(own)
            } else {
                let joined = path_join(basedir, own);
                clean_path(&joined)
            }
        },
        None => basedir.clone(),
    }
}

/// The service that a raw service at place `index` stands for.
pub fn resolve_service(raw: &RawServiceConfig, index: usize, basedir: &String) -> (service:
    ServiceConfig)
    ensures
        raw.resolves_to(service@, index as nat, basedir@),
{
    let args = match &raw.args {
        Some(args) => clone_texts(args),
        None => Vec::new(),
    };
    let name = match &raw.name {
        Some(name) => name.clone(),
        None => raw.prog.clone(),
    };
    let service = ServiceConfig {
        id: index_text(index),
        prog: raw.prog.clone(),
        args,
        name,
        wdir: resolve_wdir(&raw.wdir, basedir),
    };
    assert(service.args.deep_view() =~= match raw.args {
        Some(args) => args.deep_view(),
        None => Seq::<Seq<char>>::empty(),
    });
    service
}

impl Config {
    /// Turns a raw configuration into a validated one, with `basedir` as the
    /// directory that relative paths start from.
    ///
    /// It is refused if and only if some service has a blank program, and the
    /// error names the first such service. Otherwise every service is resolved
    /// in its place.
    pub fn from_raw(raw: &RawConfig, basedir: &String) -> (res: Result<Config, ConfigError>)
        ensures
            res is Err <==> exists|i: int| first_blank(raw.services@, i),
            res is Err ==> exists|i: int|
                first_blank(raw.services@, i) && res->Err_0.missing(raw.services@[i].label()),
            res is Ok ==> {
                &&& res->Ok_0.name@ == raw.name@
                &&& res->Ok_0.services@.len() == raw.services@.len()
                &&& forall|i: int|
                    0 <= i < raw.services@.len() ==> (#[trigger] raw.services@[i]).resolves_to(
                        res->Ok_0.services@[i]@,
                        i as nat,
                        basedir@,
                    )
            },
    {
        let mut services: Vec<ServiceConfig> = Vec::new();
        let mut i: usize = 0;
        while i < raw.services.len()
            invariant
                i <= raw.services@.len(),
                services@.len() == i,
                forall|k: int| 0 <= k < i ==> !(#[trigger] raw.services@[k]).blank(),
                forall|k: int|
                    0 <= k < i ==> (#[trigger] raw.services@[k]).resolves_to(
                        services@[k]@,
                        k as nat,
                        basedir@,
                    ),
            decreases raw.services@.len() - i,
        {
            let raw_service = &raw.services[i];
            if trim_text(&raw_service.prog).as_str().is_empty() {
                let service = match &raw_service.name {
                    Some(name) => name.clone(),
                    None => "unnamed".to_owned(),
                };
                assert(first_blank(raw.services@, i as int));
                return Err(ConfigError::MissingProgram { service });
            }
            services.push(resolve_service(raw_service, i, basedir));
            i += 1;
        }
        assert forall|k: int| !first_blank(raw.services@, k) by {}
        Ok(Config { services, name: raw.name.clone() })
    }

    /// The place of the first service with this id, if there is one.
    pub fn find_service(&self, id: &str) -> (place: Option<usize>)
        ensures
            match place {
                Some(i) => i < self.services@.len() && self.services@[i as int].id@ == id@
                    && forall|k: int| 0 <= k < i ==> (#[trigger] self.services@[k]).id@ != id@,
                None => forall|k: int|
                    0 <= k < self.services@.len() ==> (#[trigger] self.services@[k]).id@ != id@,
            },
    {
        let key = id.to_owned();
        let mut i: usize = 0;
        while i < self.services.len()
            invariant
                i <= self.services@.len(),
                key@ == id@,
                forall|k: int| 0 <= k < i ==> (#[trigger] self.services@[k]).id@ != id@,
            decreases self.services@.len() - i,
        {
            if self.services[i].id == key {
                return Some(i);
            }
            i += 1;
        }
        None
    }
}

/// Checks what was read from a configuration and resolves it.
///
/// A configuration without services is refused, then one with more than
/// `MAX_SERVICES`; what is left is handed to `Config::from_raw`.
pub fn validate_config(raw: &RawConfig, basedir: &String) -> (res: Result<Config, ConfigError>)
    ensures
        raw.services@.len() == 0 ==> res is Err && res->Err_0 is NoServices,
        raw.services@.len() > MAX_SERVICES ==> res is Err && res->Err_0 is TooManyServices,
        0 < raw.services@.len() <= MAX_SERVICES ==> {
            &&& res is Err <==> exists|i: int| first_blank(raw.services@, i)
            &&& res is Err ==> exists|i: int|
                first_blank(raw.services@, i) && res->Err_0.missing(raw.services@[i].label())
            &&& res is Ok ==> {
                &&& res->Ok_0.name@ == raw.name@
                &&& res->Ok_0.services@.len() == raw.services@.len()
                &&& forall|i: int|
                    0 <= i < raw.services@.len() ==> (#[trigger] raw.services@[i]).resolves_to(
                        res->Ok_0.services@[i]@,
                        i as nat,
                        basedir@,
                    )
            }
        },
{
    if raw.services.len() == 0 {
        return Err(ConfigError::NoServices);
    }
    if raw.services.len() > MAX_SERVICES {
        return Err(ConfigError::TooManyServices);
    }
    Config::from_raw(raw, basedir)
}

/// Takes an inline configuration apart. It is written as the format's tag, a
/// bar and the data; the tag is trimmed, and the data is trimmed and then freed
/// of the double quotes around it. Without a bar there is nothing to take.
pub fn split_inline_config(raw: &String) -> (parts: Option<(String, String)>)
    ensures
        parts is None <==> !raw@.contains('|'),
        parts is Some ==> exists|head: Seq<char>, tail: Seq<char>|
            {
                &&& raw@ == head + seq!['|'] + tail
                &&& !head.contains('|')
                &&& parts->Some_0.0@ == trimmed(head)
                &&& parts->Some_0.1@ == stripped(trimmed(tail), '"')
            },
{
    match split_once_at(raw, '|') {
        Some((head, tail)) => {
            let kind = trim_text(&head);
            let data = strip_char(&trim_text(&tail), '"');
            Some((kind, data))
        },
        None => None,
    }
}

/// The format that a file extension or an inline tag stands for.
pub open spec fn spec_format(kind: Seq<char>) -> Option<ConfigFormat> {
    if kind == "yaml"@ || kind == "yml"@ {
        Some(ConfigFormat::Yaml)
    } else if kind == "json"@ || kind == "jsonc"@ {
        Some(ConfigFormat::Json)
    } else if kind == "toml"@ {
        Some(ConfigFormat::Toml)
    } else {
        None
    }
}

/// The format for `kind`: `yaml` and `yml`, `json` and `jsonc`, or `toml`; any
/// other is unsupported.
pub fn config_format(kind: &str) -> (format: Option<ConfigFormat>)
    ensures
        format == spec_format(kind@),
{
    let kind = kind.to_owned();
    if kind == "yaml".to_owned() || kind == "yml".to_owned() {
        Some(ConfigFormat::Yaml)
    } else if kind == "json".to_owned() || kind == "jsonc".to_owned() {
        Some(ConfigFormat::Json)
    } else if kind == "toml".to_owned() {
        Some(ConfigFormat::Toml)
    } else {
        None
    }
}

/// The value that follows the first occurrence of an option, looking from
/// place `from` on: absent where the option is the last argument.
pub open spec fn spec_option_value(
    args: Seq<Seq<char>>,
    short: Seq<char>,
    long: Seq<char>,
    from: int,
) -> Option<Seq<char>>
    decreases args.len() - from,
{
    if from < 0 || from >= args.len() {
        None
    } else if args[from] == short || args[from] == long {
        if from + 1 < args.len() {
            Some(args[from + 1])
        } else {
            None
        }
    } else {
        spec_option_value(args, short, long, from + 1)
    }
}

/// Looks an option up in the program's arguments, the program's own name aside:
/// the argument after the first `short` or `long`.
pub fn option_value(args: &Vec<String>, short: &str, long: &str) -> (value: Option<String>)
    ensures
        value.is_some() == spec_option_value(args.deep_view(), short@, long@, 1).is_some(),
        value.is_some() ==> value.unwrap()@ == spec_option_value(
            args.deep_view(),
            short@,
            long@,
            1,
        ).unwrap(),
{
    let short_key = short.to_owned();
    let long_key = long.to_owned();
    let ghost all = args.deep_view();
    let mut i: usize = 1;
    while i < args.len()
        invariant
            1 <= i,
            all == args.deep_view(),
            short_key@ == short@,
            long_key@ == long@,
            i <= args@.len() ==> spec_option_value(all, short@, long@, 1) == spec_option_value(
                all,
                short@,
                long@,
                i as int,
            ),
            i > args@.len() ==> spec_option_value(all, short@, long@, 1) is None,
        decreases args@.len() - i,
    {
        assert(all[i as int] == args@[i as int]@);
        if args[i] == short_key || args[i] == long_key {
            if i + 1 < args.len() {
                assert(all[i + 1] == args@[i + 1]@);
                return Some(args[i + 1].clone());
            } else {
                return None;
            }
        }
        i += 1;
    }
    None
}

/// The inline configuration given with `-r` or `--raw-config`.
pub fn raw_config_from_args(args: &Vec<String>) -> (value: Option<String>)
    ensures
        value.is_some() == spec_option_value(args.deep_view(), "-r"@, "--raw-config"@, 1).is_some(),
        value.is_some() ==> value.unwrap()@ == spec_option_value(
            args.deep_view(),
            "-r"@,
            "--raw-config"@,
            1,
        ).unwrap(),
{
    option_value(args, "-r", "--raw-config")
}

/// The configuration path given with `-c` or `--config`.
pub fn config_path_from_args(args: &Vec<String>) -> (value: Option<String>)
    ensures
        value.is_some() == spec_option_value(args.deep_view(), "-c"@, "--config"@, 1).is_some(),
        value.is_some() ==> value.unwrap()@ == spec_option_value(
            args.deep_view(),
            "-c"@,
            "--config"@,
            1,
        ).unwrap(),
{
    option_value(args, "-c", "--config")
}

/// The file names looked for in the current directory, in order of preference.
pub fn default_candidates() -> (names: Vec<String>)
    ensures
        names.deep_view() == seq!["runz.yaml"@, "runz.yml"@, "runz.json"@, "runz.jsonc"@, "runz.toml"@],
{
    let mut names: Vec<String> = Vec::new();
    names.push("runz.yaml".to_owned());
    names.push("runz.yml".to_owned());
    names.push("runz.json".to_owned());
    names.push("runz.jsonc".to_owned());
    names.push("runz.toml".to_owned());
    assert(names.deep_view() =~= seq![
        "runz.yaml"@,
        "runz.yml"@,
        "runz.json"@,
        "runz.jsonc"@,
        "runz.toml"@,
    ]);
    names
}

/// The first default candidate that is present is at place `i`.
pub open spec fn first_present(present: Seq<bool>, i: int) -> bool {
    &&& 0 <= i < present.len()
    &&& present[i]
    &&& forall|k: int| 0 <= k < i ==> !present[k]
}

/// Decides where the configuration is read from: the path from the command
/// line if there is one, else the one from the environment, else the first
/// default candidate that is present; `present` says of each candidate whether
/// its file exists.
pub fn find_config_path(
    from_args: Option<String>,
    from_env: Option<String>,
    present: &Vec<bool>,
) -> (path: Option<ConfigPath>)
    ensures
        from_args is Some ==> given(path, from_args->Some_0@),
        from_args is None && from_env is Some ==> given(path, from_env->Some_0@),
        from_args is None && from_env is None ==> match path {
            Some(ConfigPath::Candidate(i)) => first_present(present@, i as int),
            Some(ConfigPath::Given(_)) => false,
            None => forall|k: int| 0 <= k < present@.len() ==> !present@[k],
        },
{
    match from_args {
        Some(p) => Some(ConfigPath::Given(p)),
        None => match from_env {
            Some(p) => Some(ConfigPath::Given(p)),
            None => match first_candidate(present) {
                Some(i) => Some(ConfigPath::Candidate(i)),
                None => None,
            },
        },
    }
}

/// The place of the first candidate that is present.
pub fn first_candidate(present: &Vec<bool>) -> (place: Option<usize>)
    ensures
        match place {
            Some(i) => first_present(present@, i as int),
            None => forall|k: int| 0 <= k < present@.len() ==> !present@[k],
        },
{
    let mut i: usize = 0;
    while i < present.len()
        invariant
            i <= present@.len(),
            forall|k: int| 0 <= k < i ==> !present@[k],
        decreases present@.len() - i,
    {
        if present[i] {
            return Some(i);
        }
        i += 1;
    }
    None
}

} // verus!

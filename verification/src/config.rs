//! The receiver's settings: their defaults, the layering of a config file and
//! the command line over them, and the rules a usable configuration obeys.
//! Reading the file, parsing TOML and parsing arguments are the application's
//! part; it hands the results to `AppConfig::load`.

use vstd::prelude::*;
use crate::text::{is_blank, str_is_blank};

verus! {

/// The audio sink that receives decoded PCM.
#[derive(Clone, Copy, Debug, PartialEq, Eq, Structural)]
pub enum AudioBackend {
    /// Discards audio.
    Null,
    /// Writes raw PCM to standard output.
    Stdout,
    /// Appends raw PCM to a file or named pipe.
    Pipe,
    /// Plays through an ALSA device.
    Alsa,
}

/// The sample encoding written by the pipe and stdout sinks.
#[derive(Clone, Copy, Debug, PartialEq, Eq, Structural)]
pub enum OutputSampleFormat {
    /// 32-bit IEEE float, little endian.
    F32Le,
    /// 16-bit signed integer, little endian.
    S16Le,
    /// 24-bit signed integer packed in three bytes, little endian.
    S24Le,
}

/// Command-line options; each one that is given overrides the config file.
#[derive(Clone, Debug)]
pub struct Cli {
    /// Path of a TOML config file.
    pub config: Option<String>,
    /// AirPlay display name.
    pub name: Option<String>,
    /// RTSP listen port.
    pub port: Option<u16>,
    /// Audio sink backend.
    pub backend: Option<AudioBackend>,
    /// Output sample format for the pipe and stdout backends.
    pub output_format: Option<OutputSampleFormat>,
    /// ALSA playback device name.
    pub alsa_device: Option<String>,
    /// Output path for the pipe backend.
    pub pipe_path: Option<String>,
    /// HTTP Digest password.
    pub password: Option<String>,
    /// Maximum concurrent clients.
    pub max_clients: Option<usize>,
}

/// The settings a config file may hold; each one that is present overrides
/// the default.
#[derive(Clone, Debug)]
pub struct FileConfig {
    pub name: Option<String>,
    pub port: Option<u16>,
    pub backend: Option<AudioBackend>,
    pub output_format: Option<OutputSampleFormat>,
    pub alsa_device: Option<String>,
    pub pipe_path: Option<String>,
    pub password: Option<String>,
    pub max_clients: Option<usize>,
}

/// The effective configuration of the receiver.
#[derive(Clone, Debug)]
pub struct AppConfig {
    pub name: String,
    pub port: u16,
    pub backend: AudioBackend,
    pub output_format: OutputSampleFormat,
    pub alsa_device: Option<String>,
    pub pipe_path: Option<String>,
    pub password: Option<String>,
    pub max_clients: usize,
}

/// A configuration with its texts taken as character sequences.
pub struct ConfigModel {
    pub name: Seq<char>,
    pub port: u16,
    pub backend: AudioBackend,
    pub output_format: OutputSampleFormat,
    pub alsa_device: Option<Seq<char>>,
    pub pipe_path: Option<Seq<char>>,
    pub password: Option<Seq<char>>,
    pub max_clients: usize,
}

/// One source of settings (file or command line): the settings it gives.
pub struct ConfigLayer {
    pub name: Option<Seq<char>>,
    pub port: Option<u16>,
    pub backend: Option<AudioBackend>,
    pub output_format: Option<OutputSampleFormat>,
    pub alsa_device: Option<Seq<char>>,
    pub pipe_path: Option<Seq<char>>,
    pub password: Option<Seq<char>>,
    pub max_clients: Option<usize>,
}

/// An optional text as an optional character sequence.
pub open spec fn opt_view(o: Option<String>) -> Option<Seq<char>> {
    match o {
        Some(s) => Some(s@),
        None => None,
    }
}

impl View for AppConfig {
    type V = ConfigModel;

    open spec fn view(&self) -> ConfigModel {
        ConfigModel {
            name: self.name@,
            port: self.port,
            backend: self.backend,
            output_format: self.output_format,
            alsa_device: opt_view(self.alsa_device),
            pipe_path: opt_view(self.pipe_path),
            password: opt_view(self.password),
            max_clients: self.max_clients,
        }
    }
}

impl View for FileConfig {
    type V = ConfigLayer;

    open spec fn view(&self) -> ConfigLayer {
        ConfigLayer {
            name: opt_view(self.name),
            port: self.port,
            backend: self.backend,
            output_format: self.output_format,
            alsa_device: opt_view(self.alsa_device),
            pipe_path: opt_view(self.pipe_path),
            password: opt_view(self.password),
            max_clients: self.max_clients,
        }
    }
}

impl Cli {
    /// The settings that the command line gives (the config path is not one).
    pub open spec fn layer(&self) -> ConfigLayer {
        ConfigLayer {
            name: opt_view(self.name),
            port: self.port,
            backend: self.backend,
            output_format: self.output_format,
            alsa_device: opt_view(self.alsa_device),
            pipe_path: opt_view(self.pipe_path),
            password: opt_view(self.password),
            max_clients: self.max_clients,
        }
    }
}

/// The settings of a config file, if one was given.
pub open spec fn file_layer(file: Option<FileConfig>) -> Option<ConfigLayer> {
    match file {
        Some(f) => Some(f@),
        None => None,
    }
}

/// The layer that gives nothing.
pub open spec fn empty_layer() -> ConfigLayer {
    ConfigLayer {
        name: None,
        port: None,
        backend: None,
        output_format: None,
        alsa_device: None,
        pipe_path: None,
        password: None,
        max_clients: None,
    }
}

/// The value a layer gives for a setting, else the value below it.
pub open spec fn pick<T>(given: Option<T>, below: T) -> T {
    match given {
        Some(v) => v,
        None => below,
    }
}

/// The value a layer gives for an optional setting, else the value below it.
pub open spec fn pick_opt<T>(given: Option<T>, below: Option<T>) -> Option<T> {
    match given {
        Some(v) => Some(v),
        None => below,
    }
}

/// `base` with every setting that `layer` gives replaced by the given value.
pub open spec fn overlay(base: ConfigModel, layer: ConfigLayer) -> ConfigModel {
    ConfigModel {
        name: pick(layer.name, base.name),
        port: pick(layer.port, base.port),
        backend: pick(layer.backend, base.backend),
        output_format: pick(layer.output_format, base.output_format),
        alsa_device: pick_opt(layer.alsa_device, base.alsa_device),
        pipe_path: pick_opt(layer.pipe_path, base.pipe_path),
        password: pick_opt(layer.password, base.password),
        max_clients: pick(layer.max_clients, base.max_clients),
    }
}

/// The built-in defaults.
pub open spec fn default_model() -> ConfigModel {
    ConfigModel {
        name: "Shairport Sync RS"@,
        port: 5000,
        backend: AudioBackend::Null,
        output_format: OutputSampleFormat::F32Le,
        alsa_device: Some("default"@),
        pipe_path: Some("/tmp/shairport-sync-rs.pcm"@),
        password: None,
        max_clients: 10,
    }
}

/// Defaults, then the config file if there is one, then the command line.
pub open spec fn effective_model(file: Option<ConfigLayer>, cli: ConfigLayer) -> ConfigModel {
    overlay(overlay(default_model(), pick(file, empty_layer())), cli)
}

/// Why a configuration is refused.
#[derive(Clone, Copy, Debug, PartialEq, Eq, Structural)]
pub enum ConfigError {
    /// The name is empty or whitespace.
    EmptyName,
    /// The port is zero.
    ZeroPort,
    /// `max_clients` is zero.
    ZeroMaxClients,
    /// The ALSA backend is chosen without a device name.
    EmptyAlsaDevice,
    /// The ALSA backend is chosen with an output format other than f32le.
    AlsaFormatUnsupported,
    /// The pipe backend is chosen without an output path.
    EmptyPipePath,
}

impl ConfigError {
    /// The message reported for this error.
    pub open spec fn text(self) -> Seq<char> {
        match self {
            ConfigError::EmptyName => "name must not be empty"@,
            ConfigError::ZeroPort => "port must be greater than 0"@,
            ConfigError::ZeroMaxClients => "max_clients must be greater than 0"@,
            ConfigError::EmptyAlsaDevice => "alsa_device must not be empty when backend is alsa"@,
            ConfigError::AlsaFormatUnsupported => "backend alsa currently supports only output_format=f32le"@,
            ConfigError::EmptyPipePath => "pipe_path must not be empty when backend is pipe"@,
        }
    }

    /// The message reported for this error, as an owned string.
    pub fn message(&self) -> (m: String)
        ensures
            m@ == self.text(),
    {
        match self {
            ConfigError::EmptyName => String::from_str("name must not be empty"),
            ConfigError::ZeroPort => String::from_str("port must be greater than 0"),
            ConfigError::ZeroMaxClients => String::from_str("max_clients must be greater than 0"),
            ConfigError::EmptyAlsaDevice => String::from_str(
                "alsa_device must not be empty when backend is alsa",
            ),
            ConfigError::AlsaFormatUnsupported => String::from_str(
                "backend alsa currently supports only output_format=f32le",
            ),
            ConfigError::EmptyPipePath => String::from_str(
                "pipe_path must not be empty when backend is pipe",
            ),
        }
    }
}

/// An absent or blank optional text.
pub open spec fn opt_blank(o: Option<Seq<char>>) -> bool {
    match o {
        Some(s) => is_blank(s),
        None => true,
    }
}

/// The first rule, in the order they are checked, that `m` breaks.
pub open spec fn config_error(m: ConfigModel) -> Option<ConfigError> {
    if is_blank(m.name) {
        Some(ConfigError::EmptyName)
    } else if m.port == 0 {
        Some(ConfigError::ZeroPort)
    } else if m.max_clients == 0 {
        Some(ConfigError::ZeroMaxClients)
    } else if m.backend == AudioBackend::Alsa && opt_blank(m.alsa_device) {
        Some(ConfigError::EmptyAlsaDevice)
    } else if m.backend == AudioBackend::Alsa && m.output_format != OutputSampleFormat::F32Le {
        Some(ConfigError::AlsaFormatUnsupported)
    } else if m.backend == AudioBackend::Pipe && opt_blank(m.pipe_path) {
        Some(ConfigError::EmptyPipePath)
    } else {
        None
    }
}

fn opt_is_blank(o: &Option<String>) -> (r: bool)
    ensures
        r == opt_blank(opt_view(*o)),
{
    match o {
        Some(s) => str_is_blank(s.as_str()),
        None => true,
    }
}

impl Default for AppConfig {
    fn default() -> (cfg: Self)
        ensures
            cfg@ == default_model(),
    {
        AppConfig {
            name: String::from_str("Shairport Sync RS"),
            port: 5000,
            backend: AudioBackend::Null,
            output_format: OutputSampleFormat::F32Le,
            alsa_device: Some(String::from_str("default")),
            pipe_path: Some(String::from_str("/tmp/shairport-sync-rs.pcm")),
            password: None,
            max_clients: 10,
        }
    }
}

impl AppConfig {
    /// Builds the effective configuration from the parsed config file, if one
    /// was given, and the command line, and checks it.
    pub fn load(cli: &Cli, file: Option<FileConfig>) -> (r: Result<AppConfig, String>)
        ensures
            ({
                let m = effective_model(file_layer(file), cli.layer());
                match config_error(m) {
                    None => r matches Ok(cfg) && cfg@ == m,
                    Some(e) => r matches Err(msg) && msg@ == e.text(),
                }
            }),
    {
        let mut cfg = AppConfig::default();
        let ghost f = pick(file_layer(file), empty_layer());
        match file {
            Some(f) => cfg.apply_file(f),
            None => {},
        }
        assert(cfg@ == overlay(default_model(), f));
        cfg.apply_cli(cli);
        match cfg.validate() {
            Ok(()) => Ok(cfg),
            Err(msg) => Err(msg),
        }
    }

    fn apply_file(&mut self, file: FileConfig)
        ensures
            final(self)@ == overlay(old(self)@, file@),
    {
        if let Some(v) = file.name {
            self.name = v;
        }
        if let Some(v) = file.port {
            self.port = v;
        }
        if let Some(v) = file.backend {
            self.backend = v;
        }
        if let Some(v) = file.output_format {
            self.output_format = v;
        }
        if let Some(v) = file.alsa_device {
            self.alsa_device = Some(v);
        }
        if let Some(v) = file.pipe_path {
            self.pipe_path = Some(v);
        }
        if let Some(v) = file.password {
            self.password = Some(v);
        }
        if let Some(v) = file.max_clients {
            self.max_clients = v;
        }
    }

    fn apply_cli(&mut self, cli: &Cli)
        ensures
            final(self)@ == overlay(old(self)@, cli.layer()),
    {
        if let Some(v) = &cli.name {
            self.name = v.clone();
        }
        if let Some(v) = cli.port {
            self.port = v;
        }
        if let Some(v) = cli.backend {
            self.backend = v;
        }
        if let Some(v) = cli.output_format {
            self.output_format = v;
        }
        if let Some(v) = &cli.alsa_device {
            self.alsa_device = Some(v.clone());
        }
        if let Some(v) = &cli.pipe_path {
            self.pipe_path = Some(v.clone());
        }
        if let Some(v) = &cli.password {
            self.password = Some(v.clone());
        }
        if let Some(v) = cli.max_clients {
            self.max_clients = v;
        }
    }

    /// Checks the rules of `config_error`, in order, and reports the first
    /// one broken.
    pub fn validate(&self) -> (r: Result<(), String>)
        ensures
            match config_error(self@) {
                None => r is Ok,
                Some(e) => r matches Err(msg) && msg@ == e.text(),
            },
    {
        let err = self.check();
        match err {
            None => Ok(()),
            Some(e) => Err(e.message()),
        }
    }

    /// The first rule of `config_error` that this configuration breaks.
    pub fn check(&self) -> (r: Option<ConfigError>)
        ensures
            r == config_error(self@),
    {
        if str_is_blank(self.name.as_str()) {
            return Some(ConfigError::EmptyName);
        }
        if self.port == 0 {
            return Some(ConfigError::ZeroPort);
        }
        if self.max_clients == 0 {
            return Some(ConfigError::ZeroMaxClients);
        }
        let is_alsa = match self.backend {
            AudioBackend::Alsa => true,
            _ => false,
        };
        if is_alsa && opt_is_blank(&self.alsa_device) {
            return Some(ConfigError::EmptyAlsaDevice);
        }
        let is_f32le = match self.output_format {
            OutputSampleFormat::F32Le => true,
            _ => false,
        };
        if is_alsa && !is_f32le {
            return Some(ConfigError::AlsaFormatUnsupported);
        }
        let is_pipe = match self.backend {
            AudioBackend::Pipe => true,
            _ => false,
        };
        if is_pipe && opt_is_blank(&self.pipe_path) {
            return Some(ConfigError::EmptyPipePath);
        }
        None
    }
}


/// Command line over config file over defaults: every setting of the
/// effective configuration is the command line's value when it gives one,
/// else the config file's when it gives one, else the default.
pub proof fn lemma_cli_precedence(file: ConfigLayer, cli: ConfigLayer)
    ensures
        ({
            let m = effective_model(Some(file), cli);
            let d = default_model();
            &&& m.name == pick(cli.name, pick(file.name, d.name))
            &&& m.port == pick(cli.port, pick(file.port, d.port))
            &&& m.backend == pick(cli.backend, pick(file.backend, d.backend))
            &&& m.output_format == pick(cli.output_format, pick(file.output_format, d.output_format))
            &&& m.alsa_device == pick_opt(cli.alsa_device, pick_opt(file.alsa_device, d.alsa_device))
            &&& m.pipe_path == pick_opt(cli.pipe_path, pick_opt(file.pipe_path, d.pipe_path))
            &&& m.password == pick_opt(cli.password, pick_opt(file.password, d.password))
            &&& m.max_clients == pick(cli.max_clients, pick(file.max_clients, d.max_clients))
        }),
{
}

/// Whatever the config file holds, every setting that the command line gives
/// is the effective one; and without a config file every setting is the
/// command line's when it gives one, else the default.
pub proof fn lemma_cli_setting_wins(file: Option<ConfigLayer>, cli: ConfigLayer)
    ensures
        ({
            let m = effective_model(file, cli);
            &&& cli.name matches Some(v) ==> m.name == v
            &&& cli.port matches Some(v) ==> m.port == v
            &&& cli.backend matches Some(v) ==> m.backend == v
            &&& cli.output_format matches Some(v) ==> m.output_format == v
            &&& cli.alsa_device matches Some(v) ==> m.alsa_device == Some(v)
            &&& cli.pipe_path matches Some(v) ==> m.pipe_path == Some(v)
            &&& cli.password matches Some(v) ==> m.password == Some(v)
            &&& cli.max_clients matches Some(v) ==> m.max_clients == v
        }),
        ({
            let m = effective_model(None, cli);
            let d = default_model();
            &&& m.name == pick(cli.name, d.name)
            &&& m.port == pick(cli.port, d.port)
            &&& m.backend == pick(cli.backend, d.backend)
            &&& m.output_format == pick(cli.output_format, d.output_format)
            &&& m.alsa_device == pick_opt(cli.alsa_device, d.alsa_device)
            &&& m.pipe_path == pick_opt(cli.pipe_path, d.pipe_path)
            &&& m.password == pick_opt(cli.password, d.password)
            &&& m.max_clients == pick(cli.max_clients, d.max_clients)
        }),
        effective_model(None, cli) == effective_model(Some(empty_layer()), cli),
{
}

/// What is accepted, independent of the order the rules are checked in: a
/// configuration passes exactly when its name is not blank, its port and
/// `max_clients` are not zero, the ALSA backend has a device that is not
/// blank and the f32le format, and the pipe backend has a path that is not
/// blank. No other backend restricts the device, the path or the format.
pub proof fn lemma_acceptance_rules(m: ConfigModel)
    ensures
        config_error(m) is None <==> {
            &&& !is_blank(m.name)
            &&& m.port != 0
            &&& m.max_clients != 0
            &&& m.backend == AudioBackend::Alsa ==> !opt_blank(m.alsa_device)
                && m.output_format == OutputSampleFormat::F32Le
            &&& m.backend == AudioBackend::Pipe ==> !opt_blank(m.pipe_path)
        },
        m.backend != AudioBackend::Alsa ==> config_error(m) != Some(
            ConfigError::AlsaFormatUnsupported,
        ) && config_error(m) != Some(ConfigError::EmptyAlsaDevice),
        m.backend != AudioBackend::Pipe ==> config_error(m) != Some(ConfigError::EmptyPipePath),
{
}

/// Only the ALSA backend restricts the output format: for any other backend,
/// changing the format changes neither whether nor why a configuration is
/// refused.
pub proof fn lemma_format_free_without_alsa(m: ConfigModel, format: OutputSampleFormat)
    requires
        m.backend != AudioBackend::Alsa,
    ensures
        config_error(ConfigModel { output_format: format, ..m }) == config_error(m),
{
}

/// Without a config file, the effective configuration is the defaults with
/// the command line's settings over them.
pub proof fn lemma_no_file_is_defaults_plus_cli(cli: ConfigLayer)
    ensures
        effective_model(None, cli) == overlay(default_model(), cli),
{
    assert(overlay(default_model(), empty_layer()) == default_model());
}

/// The built-in defaults pass validation.
pub proof fn lemma_defaults_are_valid()
    ensures
        config_error(default_model()) is None,
{
    reveal_strlit("Shairport Sync RS");
    assert(!is_blank(default_model().name)) by {
        assert(!crate::text::is_white_space(default_model().name[0]));
    }
}

} // verus!

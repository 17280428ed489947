use shairport_sync_rs::config::{AppConfig, AudioBackend, Cli, ConfigError, FileConfig, OutputSampleFormat};

fn valid_base() -> AppConfig {
    AppConfig {
        name: "test".to_string(),
        port: 5000,
        backend: AudioBackend::Null,
        output_format: OutputSampleFormat::F32Le,
        alsa_device: Some("default".to_string()),
        pipe_path: Some("/tmp/shairport-sync-rs-test.pcm".to_string()),
        password: None,
        max_clients: 1,
    }
}

fn empty_cli() -> Cli {
    Cli {
        config: None,
        name: None,
        port: None,
        backend: None,
        output_format: None,
        alsa_device: None,
        pipe_path: None,
        password: None,
        max_clients: None,
    }
}

fn empty_file() -> FileConfig {
    FileConfig {
        name: None,
        port: None,
        backend: None,
        output_format: None,
        alsa_device: None,
        pipe_path: None,
        password: None,
        max_clients: None,
    }
}

#[test]
fn validate_accepts_pipe_with_s24le() {
    let mut cfg = valid_base();
    cfg.backend = AudioBackend::Pipe;
    cfg.output_format = OutputSampleFormat::S24Le;

    assert!(cfg.validate().is_ok());
}

#[test]
fn validate_rejects_pipe_with_empty_pipe_path() {
    let mut cfg = valid_base();
    cfg.backend = AudioBackend::Pipe;
    cfg.pipe_path = Some("   ".to_string());

    let err = cfg.validate().expect_err("pipe backend should require non-empty pipe_path");
    assert!(err.contains("pipe_path"));
}

#[test]
fn validate_rejects_empty_name() {
    let mut cfg = valid_base();
    cfg.name = "".to_string();

    let err = cfg.validate().expect_err("empty name should fail validation");
    assert!(err.contains("name"));
}

#[test]
fn validate_rejects_zero_max_clients() {
    let mut cfg = valid_base();
    cfg.max_clients = 0;

    let err = cfg
        .validate()
        .expect_err("max_clients=0 should fail validation");
    assert!(err.contains("max_clients"));
}

#[test]
fn validate_rejects_alsa_with_non_f32le_output() {
    let mut cfg = valid_base();
    cfg.backend = AudioBackend::Alsa;
    cfg.output_format = OutputSampleFormat::S16Le;

    let err = cfg
        .validate()
        .expect_err("alsa backend should reject non-f32le output format");
    assert!(err.contains("output_format"));
}

#[test]
fn validate_rejects_alsa_with_empty_device() {
    let mut cfg = valid_base();
    cfg.backend = AudioBackend::Alsa;
    cfg.alsa_device = Some("   ".to_string());

    let err = cfg
        .validate()
        .expect_err("alsa backend should require non-empty alsa_device");
    assert!(err.contains("alsa_device"));
}

#[test]
fn load_merges_file_and_cli_with_cli_precedence() {
    let file = FileConfig {
        name: Some("From File".to_string()),
        port: Some(6000),
        backend: Some(AudioBackend::Pipe),
        output_format: Some(OutputSampleFormat::S24Le),
        alsa_device: None,
        pipe_path: Some("/tmp/from-file.pcm".to_string()),
        password: Some("file-pass".to_string()),
        max_clients: Some(2),
    };

    let cli = Cli {
        config: Some("/tmp/shairport-sync-rs-config-load-precedence.toml".to_string()),
        name: Some("From CLI".to_string()),
        port: Some(7000),
        backend: None,
        output_format: Some(OutputSampleFormat::S16Le),
        alsa_device: None,
        pipe_path: Some("/tmp/from-cli.pcm".to_string()),
        password: Some("cli-pass".to_string()),
        max_clients: Some(4),
    };

    let loaded = AppConfig::load(&cli, Some(file)).expect("config load should succeed");

    assert_eq!(loaded.name, "From CLI");
    assert_eq!(loaded.port, 7000);
    assert!(matches!(loaded.backend, AudioBackend::Pipe));
    assert_eq!(loaded.output_format, OutputSampleFormat::S16Le);
    assert_eq!(loaded.pipe_path.as_deref(), Some("/tmp/from-cli.pcm"));
    assert_eq!(loaded.password.as_deref(), Some("cli-pass"));
    assert_eq!(loaded.max_clients, 4);
}

#[test]
fn load_without_file_or_options_gives_defaults() {
    let loaded = AppConfig::load(&empty_cli(), None).expect("defaults are valid");
    assert_eq!(loaded.name, "Shairport Sync RS");
    assert_eq!(loaded.port, 5000);
    assert_eq!(loaded.backend, AudioBackend::Null);
    assert_eq!(loaded.output_format, OutputSampleFormat::F32Le);
    assert_eq!(loaded.alsa_device.as_deref(), Some("default"));
    assert_eq!(loaded.pipe_path.as_deref(), Some("/tmp/shairport-sync-rs.pcm"));
    assert_eq!(loaded.password, None);
    assert_eq!(loaded.max_clients, 10);
}

#[test]
fn load_keeps_file_values_the_cli_does_not_give() {
    let mut file = empty_file();
    file.name = Some("Kitchen".to_string());
    file.alsa_device = Some("hw:0,0".to_string());
    file.backend = Some(AudioBackend::Alsa);
    let mut cli = empty_cli();
    cli.port = Some(7001);

    let loaded = AppConfig::load(&cli, Some(file)).expect("valid");
    assert_eq!(loaded.name, "Kitchen");
    assert_eq!(loaded.port, 7001);
    assert_eq!(loaded.backend, AudioBackend::Alsa);
    assert_eq!(loaded.alsa_device.as_deref(), Some("hw:0,0"));
    assert_eq!(loaded.max_clients, 10);
}

#[test]
fn load_reports_the_validation_error() {
    let mut cli = empty_cli();
    cli.backend = Some(AudioBackend::Pipe);
    cli.pipe_path = Some("   ".to_string());
    let err = AppConfig::load(&cli, None).expect_err("blank pipe path");
    assert_eq!(err, "pipe_path must not be empty when backend is pipe");

    let mut file = empty_file();
    file.port = Some(0);
    let err = AppConfig::load(&empty_cli(), Some(file)).expect_err("zero port");
    assert_eq!(err, "port must be greater than 0");
}

#[test]
fn validate_rejects_zero_port() {
    let mut cfg = valid_base();
    cfg.port = 0;
    assert_eq!(cfg.validate(), Err("port must be greater than 0".to_string()));
    assert_eq!(cfg.check(), Some(ConfigError::ZeroPort));
}

#[test]
fn validate_reports_rules_in_order() {
    let mut cfg = valid_base();
    cfg.name = " \t\u{3000}".to_string();
    cfg.port = 0;
    cfg.max_clients = 0;
    assert_eq!(cfg.check(), Some(ConfigError::EmptyName));
    cfg.name = "x".to_string();
    assert_eq!(cfg.check(), Some(ConfigError::ZeroPort));
    cfg.port = 1;
    assert_eq!(cfg.check(), Some(ConfigError::ZeroMaxClients));
    cfg.max_clients = 1;
    cfg.backend = AudioBackend::Alsa;
    cfg.alsa_device = None;
    cfg.output_format = OutputSampleFormat::S24Le;
    assert_eq!(cfg.check(), Some(ConfigError::EmptyAlsaDevice));
    cfg.alsa_device = Some("hw:1".to_string());
    assert_eq!(cfg.check(), Some(ConfigError::AlsaFormatUnsupported));
    cfg.output_format = OutputSampleFormat::F32Le;
    assert_eq!(cfg.check(), None);
    cfg.backend = AudioBackend::Pipe;
    cfg.pipe_path = None;
    assert_eq!(cfg.check(), Some(ConfigError::EmptyPipePath));
}

#[test]
fn every_error_has_its_message() {
    assert_eq!(ConfigError::EmptyName.message(), "name must not be empty");
    assert_eq!(ConfigError::ZeroPort.message(), "port must be greater than 0");
    assert_eq!(ConfigError::ZeroMaxClients.message(), "max_clients must be greater than 0");
    assert_eq!(
        ConfigError::EmptyAlsaDevice.message(),
        "alsa_device must not be empty when backend is alsa"
    );
    assert_eq!(
        ConfigError::AlsaFormatUnsupported.message(),
        "backend alsa currently supports only output_format=f32le"
    );
    assert_eq!(
        ConfigError::EmptyPipePath.message(),
        "pipe_path must not be empty when backend is pipe"
    );
}

#[test]
fn default_config_is_valid() {
    let cfg = AppConfig::default();
    assert!(cfg.validate().is_ok());
    assert_eq!(cfg.name, "Shairport Sync RS");
}

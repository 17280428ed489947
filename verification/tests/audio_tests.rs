use shairport_sync_rs::audio::alsa::{AlsaBackend, FrameCursor, WriteStep};
use shairport_sync_rs::audio::null::NullSession;
use shairport_sync_rs::audio::pcm::{encode_samples, s16_word, s24_word};
use shairport_sync_rs::audio::pipe::PipeBackend;
use shairport_sync_rs::audio::stdout::StdoutBackend;
use shairport_sync_rs::audio::{AudioOutput, SinkChoice};
use shairport_sync_rs::config::{AppConfig, AudioBackend, OutputSampleFormat};

#[test]
fn s16_words_pack_as_two_little_endian_bytes() {
    let words: Vec<u32> = [i16::MIN + 1, 0, i16::MAX, -16_384, 16_384].iter().map(|v| s16_word(*v)).collect();
    let expected: Vec<u8> = [i16::MIN + 1, 0_i16, i16::MAX, -16_384, 16_384]
        .iter()
        .flat_map(|s| s.to_le_bytes())
        .collect();
    assert_eq!(encode_samples(OutputSampleFormat::S16Le, &words), expected);
}

#[test]
fn s24_words_pack_as_three_little_endian_bytes() {
    let words: Vec<u32> = [-8_388_607, 0, 8_388_607, -4_194_304, 4_194_304].iter().map(|v| s24_word(*v)).collect();
    let expected = vec![
        0x01, 0x00, 0x80, 0x00, 0x00, 0x00, 0xFF, 0xFF, 0x7F, 0x00, 0x00, 0xC0, 0x00, 0x00, 0x40,
    ];
    assert_eq!(encode_samples(OutputSampleFormat::S24Le, &words), expected);
}

#[test]
fn f32_words_pack_as_four_little_endian_bytes() {
    let samples = [0.0_f32, -1.5_f32, 1.0_f32];
    let words: Vec<u32> = samples.iter().map(|s| s.to_bits()).collect();
    let expected: Vec<u8> = samples.iter().flat_map(|s| s.to_le_bytes()).collect();
    assert_eq!(encode_samples(OutputSampleFormat::F32Le, &words), expected);
    assert!(encode_samples(OutputSampleFormat::F32Le, &[]).is_empty());
}

#[test]
fn frame_cursor_writes_whole_frames() {
    let mut c = FrameCursor::new(7, 2);
    assert_eq!(c.next_step(), WriteStep::Write { start: 0, end: 6 });
    assert!(c.on_written(1));
    assert_eq!(c.next_step(), WriteStep::Write { start: 2, end: 6 });
    assert!(c.on_written(2));
    assert_eq!(c.next_step(), WriteStep::Finish);
}

#[test]
fn frame_cursor_stops_without_channels_or_progress() {
    let c = FrameCursor::new(8, 0);
    assert_eq!(c.next_step(), WriteStep::Finish);
    let mut c = FrameCursor::new(4, 2);
    assert!(!c.on_written(0));
    assert_eq!(FrameCursor::new(0, 2).next_step(), WriteStep::Finish);
}

#[test]
fn null_session_counts_and_flushes() {
    let mut s = NullSession::new();
    s.audio_process(4);
    s.audio_process(0);
    assert_eq!(s.sample_count, 4);
    s.audio_flush();
    assert_eq!(s.sample_count, 0);
}

#[test]
fn backends_fall_back_to_default_names() {
    assert_eq!(AlsaBackend::new(None).device_name(), "default");
    assert_eq!(AlsaBackend::new(Some("  hw:0,0 ".to_string())).device_name(), "hw:0,0");
    assert_eq!(AlsaBackend::new(Some("   ".to_string())).device_name(), "default");
    let p = PipeBackend::new(Some(" /tmp/x.pcm ".to_string()), OutputSampleFormat::S16Le);
    assert_eq!(p.output_path(), "/tmp/x.pcm");
    assert_eq!(p.output_format(), OutputSampleFormat::S16Le);
    let p = PipeBackend::new(None, OutputSampleFormat::F32Le);
    assert_eq!(p.output_path(), "/tmp/shairport-sync-rs.pcm");
    assert_eq!(StdoutBackend::new(OutputSampleFormat::S24Le).output_format(), OutputSampleFormat::S24Le);
}

#[test]
fn sink_follows_configured_backend() {
    let mut cfg = AppConfig::default();
    assert!(matches!(AudioOutput::from_config(&cfg).choose_sink(), SinkChoice::Null(_)));
    cfg.backend = AudioBackend::Pipe;
    cfg.output_format = OutputSampleFormat::S24Le;
    cfg.pipe_path = Some("/tmp/out.pcm".to_string());
    match AudioOutput::from_config(&cfg).choose_sink() {
        SinkChoice::Pipe(p) => {
            assert_eq!(p.output_path(), "/tmp/out.pcm");
            assert_eq!(p.output_format(), OutputSampleFormat::S24Le);
        }
        _ => panic!("expected the pipe sink"),
    }
    cfg.backend = AudioBackend::Alsa;
    match AudioOutput::from_config(&cfg).choose_sink() {
        SinkChoice::Alsa(a) => assert_eq!(a.device_name(), "default"),
        _ => panic!("expected the alsa sink"),
    }
    cfg.backend = AudioBackend::Stdout;
    match AudioOutput::from_config(&cfg).choose_sink() {
        SinkChoice::Stdout(s) => assert_eq!(s.output_format(), OutputSampleFormat::S24Le),
        _ => panic!("expected the stdout sink"),
    }
}

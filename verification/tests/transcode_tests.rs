use sound_modder::subprocess::ffmpeg::FFmpegCli;
use sound_modder::subprocess::ffmpeg::FFmpegError;
use sound_modder::subprocess::vgmstream::VgmstreamCli;
use sound_modder::subprocess::vgmstream::VgmstreamError;
use sound_modder::subprocess::wwise::wwise_expected_output;
use sound_modder::transcode::resolve_hops;
use sound_modder::transcode::FormatHop;
use sound_modder::transcode::Tool;
use sound_modder::transcode::TranscodeError;
use sound_modder::transcode::TranscodePaths;
use sound_modder::transcode::TranscodeService;

fn hop(tool: Tool, from_ext: &str, to_ext: &str) -> FormatHop {
    FormatHop { tool, from_ext: from_ext.to_string(), to_ext: to_ext.to_string() }
}

#[test]
fn compressed_to_pivot_is_one_decoder_hop() {
    let hops = resolve_hops(Some("wem"), Some("wav")).unwrap();
    assert_eq!(hops, vec![hop(Tool::Vgmstream, "wem", "wav")]);
}

#[test]
fn pivot_to_compressed_is_one_encoder_hop() {
    let hops = resolve_hops(Some("wav"), Some("wem")).unwrap();
    assert_eq!(hops, vec![hop(Tool::WwiseConsole, "wav", "wem")]);
}

#[test]
fn compressed_to_other_pivots_in_two_hops() {
    let hops = resolve_hops(Some("wem"), Some("mp3")).unwrap();
    assert_eq!(
        hops,
        vec![hop(Tool::Vgmstream, "wem", "wav"), hop(Tool::Ffmpeg, "wav", "mp3")],
    );
}

#[test]
fn other_to_compressed_pivots_in_two_hops() {
    let hops = resolve_hops(Some("mp3"), Some("wem")).unwrap();
    assert_eq!(
        hops,
        vec![hop(Tool::Ffmpeg, "mp3", "wav"), hop(Tool::WwiseConsole, "wav", "wem")],
    );
}

#[test]
fn ordinary_formats_go_straight_through_the_generic_tool() {
    let hops = resolve_hops(Some("wav"), Some("mp3")).unwrap();
    assert_eq!(hops, vec![hop(Tool::Ffmpeg, "wav", "mp3")]);
}

#[test]
fn equal_extensions_are_rejected() {
    assert_eq!(
        resolve_hops(Some("mp3"), Some("mp3")),
        Err(TranscodeError::SameExtension),
    );
}

#[test]
fn missing_extensions_are_rejected() {
    assert_eq!(resolve_hops(None, Some("mp3")), Err(TranscodeError::MissingExtension));
    assert_eq!(resolve_hops(Some("wav"), None), Err(TranscodeError::MissingExtension));
}

#[test]
fn a_fresh_service_has_no_tool_configured() {
    let service = TranscodeService::new();
    assert_eq!(service.ffmpeg.path, None);
    assert_eq!(service.wwise.path, None);
    assert_eq!(service.vgmstream.path, None);
}

#[test]
fn set_paths_configures_only_the_named_tools() {
    let mut service = TranscodeService::new();
    service.set_paths(TranscodePaths {
        ffmpeg: Some("/opt/tools/ffmpeg".to_string()),
        wwise_console: None,
        vgmstream: Some("/opt/tools/vgmstream-cli".to_string()),
    });
    assert_eq!(service.ffmpeg.path, Some("/opt/tools/ffmpeg".to_string()));
    assert_eq!(service.wwise.path, None);
    assert_eq!(service.vgmstream.path, Some("/opt/tools/vgmstream-cli".to_string()));
}

#[test]
fn ffmpeg_builds_the_exact_command_line() {
    let mut cli = FFmpegCli::default();
    cli.set_path("ffmpeg".to_string());
    let (program, args) = cli.simple_transcode_args("in.wav", "out.mp3").unwrap();
    assert_eq!(program, "ffmpeg");
    assert_eq!(
        args,
        vec!["-hide_banner", "-loglevel", "warning", "-i", "in.wav", "-y", "out.mp3"],
    );
}

#[test]
fn unconfigured_ffmpeg_cannot_transcode() {
    let cli = FFmpegCli::default();
    assert_eq!(
        cli.simple_transcode_args("in.wav", "out.mp3"),
        Err(FFmpegError::FFmpegNotFound),
    );
}

#[test]
fn vgmstream_builds_the_exact_command_line() {
    let mut cli = VgmstreamCli::default();
    cli.set_path("vgmstream-cli");
    let (program, args) = cli.wem_to_wav_args("in.wem", "out.wav").unwrap();
    assert_eq!(program, "vgmstream-cli");
    assert_eq!(args, vec!["in.wem", "-o", "out.wav"]);
}

#[test]
fn unconfigured_vgmstream_cannot_decode() {
    let cli = VgmstreamCli::default();
    assert_eq!(
        cli.wem_to_wav_args("in.wem", "out.wav"),
        Err(VgmstreamError::CliNotFound),
    );
}

#[test]
fn the_console_output_is_expected_under_the_platform_subdirectory() {
    assert_eq!(
        wwise_expected_output("/tmp/out", "song"),
        "/tmp/out/Windows/song.wem",
    );
    assert_eq!(wwise_expected_output(".", "7"), "./Windows/7.wem");
}

#[test]
fn command_failed_carries_code_and_decoded_output() {
    let err = FFmpegError::command_failed(Some(1), b"converted 0 files", b"bad \xFF input");
    assert_eq!(
        err,
        FFmpegError::CommandFailed {
            code: Some(1),
            stdout: "converted 0 files".to_string(),
            stderr: "bad \u{FFFD} input".to_string(),
        },
    );
}

#[test]
fn vgmstream_command_failed_carries_code_and_decoded_output() {
    let err = VgmstreamError::command_failed(None, b"", b"no sound");
    assert_eq!(
        err,
        VgmstreamError::CommandFailed {
            code: None,
            stdout: String::new(),
            stderr: "no sound".to_string(),
        },
    );
}

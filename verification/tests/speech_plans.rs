use read_this::settings::AppSettings;
use read_this::speech::{
    check_audio, edge_request, edge_tts_args, format_rate,
    local_fallback_args, plan_after_synthesis, python_error_message, python_output_file_name,
    sapi_rate, sapi_script, sapi_volume, synthesize_edge_tts, SpeakPlan, TEST_PHRASE,
};
use read_this::voices::Voice;

fn voice(name: &str, short: Option<&str>, locale: Option<&str>) -> Voice {
    Voice {
        name: name.to_string(),
        short_name: short.map(|s| s.to_string()),
        gender: None,
        locale: locale.map(|s| s.to_string()),
        friendly_name: None,
    }
}

fn float_sapi_rate(rate: i32) -> i32 {
    ((rate as f32 / 10.0).round() as i32).clamp(-10, 10)
}

#[test]
fn format_rate_matches_signed_format() {
    for r in [15, 0, -5, 100, -100, i32::MIN, i32::MAX] {
        assert_eq!(format_rate(r), format!("{:+}%", r));
    }
    assert_eq!(format_rate(15), "+15%");
    assert_eq!(format_rate(0), "+0%");
    assert_eq!(format_rate(-5), "-5%");
}

#[test]
fn sapi_rate_known_values() {
    assert_eq!(sapi_rate(15), 2);
    assert_eq!(sapi_rate(14), 1);
    assert_eq!(sapi_rate(5), 1);
    assert_eq!(sapi_rate(-5), -1);
    assert_eq!(sapi_rate(-15), -2);
    assert_eq!(sapi_rate(0), 0);
    assert_eq!(sapi_rate(105), 10);
    assert_eq!(sapi_rate(-1000), -10);
}

#[test]
fn sapi_rate_matches_float_rounding() {
    for r in -200_000..200_000 {
        assert_eq!(sapi_rate(r), float_sapi_rate(r), "rate {r}");
    }
    for r in [i32::MIN, i32::MIN + 1, i32::MAX, i32::MAX - 1, 16_777_215, -16_777_217] {
        assert_eq!(sapi_rate(r), float_sapi_rate(r), "rate {r}");
    }
}

#[test]
fn sapi_rate_is_monotonic_on_samples() {
    let mut last = sapi_rate(-300);
    for r in -300..300 {
        let now = sapi_rate(r);
        assert!(last <= now);
        last = now;
    }
}

#[test]
fn sapi_volume_caps_at_hundred() {
    assert_eq!(sapi_volume(40), 40);
    assert_eq!(sapi_volume(100), 100);
    assert_eq!(sapi_volume(255), 100);
}

#[test]
fn sapi_script_exact_text() {
    let settings = AppSettings::default();
    let script = sapi_script("hi", &settings);
    assert_eq!(
        script,
        "$text=[Text.Encoding]::UTF8.GetString([Convert]::FromBase64String('aGk='));$voice=New-Object -ComObject SAPI.SpVoice;$voice.Rate=2;$voice.Volume=100;[void]$voice.Speak($text);"
    );
    let mut slow = AppSettings::default();
    slow.rate = -57;
    slow.volume = 200;
    assert_eq!(
        sapi_script("x", &slow),
        "$text=[Text.Encoding]::UTF8.GetString([Convert]::FromBase64String('eA=='));$voice=New-Object -ComObject SAPI.SpVoice;$voice.Rate=-6;$voice.Volume=100;[void]$voice.Speak($text);"
    );
}

#[test]
fn local_fallback_args_encode_the_script() {
    let settings = AppSettings::default();
    let args = local_fallback_args("hi", &settings);
    assert_eq!(&args[..4], &["-NoProfile", "-ExecutionPolicy", "Bypass", "-EncodedCommand"]);
    assert_eq!(args[4], "JAB0AGUAeAB0AD0AWwBUAGUAeAB0AC4ARQBuAGMAbwBkAGkAbgBnAF0AOgA6AFUAVABGADgALgBHAGUAdABTAHQAcgBpAG4AZwAoAFsAQwBvAG4AdgBlAHIAdABdADoAOgBGAHIAbwBtAEIAYQBzAGUANgA0AFMAdAByAGkAbgBnACgAJwBhAEcAawA9ACcAKQApADsAJAB2AG8AaQBjAGUAPQBOAGUAdwAtAE8AYgBqAGUAYwB0ACAALQBDAG8AbQBPAGIAagBlAGMAdAAgAFMAQQBQAEkALgBTAHAAVgBvAGkAYwBlADsAJAB2AG8AaQBjAGUALgBSAGEAdABlAD0AMgA7ACQAdgBvAGkAYwBlAC4AVgBvAGwAdQBtAGUAPQAxADAAMAA7AFsAdgBvAGkAZABdACQAdgBvAGkAYwBlAC4AUwBwAGUAYQBrACgAJAB0AGUAeAB0ACkAOwA=");
}

#[test]
fn edge_tts_args_are_in_order() {
    let settings = AppSettings::default();
    let args = edge_tts_args("Hello", &settings);
    assert_eq!(
        args,
        vec![
            "-m", "edge_tts", "--text", "Hello", "--voice", "en-US-EmmaMultilingualNeural", "--rate",
            "+15%", "--write-media",
        ]
    );
}

#[test]
fn python_output_file_names() {
    assert_eq!(python_output_file_name(1_700_000_000_000), "read-this-edge-1700000000000.mp3");
    assert_eq!(python_output_file_name(0), "read-this-edge-0.mp3");
    assert_eq!(python_output_file_name(u128::MAX), format!("read-this-edge-{}.mp3", u128::MAX));
}

#[test]
fn python_error_message_is_trimmed() {
    assert_eq!(python_error_message("  No module named edge_tts\r\n"), "No module named edge_tts");
    assert_eq!(python_error_message("\n\n"), "");
}

#[test]
fn check_audio_rejects_empty_file() {
    assert_eq!(check_audio(vec![1, 2, 3]), Ok(vec![1, 2, 3]));
    assert_eq!(check_audio(vec![]), Err("edge-tts returned an empty audio file.".to_string()));
}

#[test]
fn synthesize_edge_tts_prefers_the_command_line_client() {
    let called = std::cell::Cell::new(false);
    let r = synthesize_edge_tts(Ok(vec![9]), || {
        called.set(true);
        Ok(vec![1])
    });
    assert_eq!(r, Ok(vec![9]));
    assert!(!called.get());
}

#[test]
fn synthesize_edge_tts_falls_back_to_the_service_client() {
    let r = synthesize_edge_tts(Err("no python".to_string()), || Ok(vec![1, 2]));
    assert_eq!(r, Ok(vec![1, 2]));
}

#[test]
fn synthesize_edge_tts_reports_both_errors() {
    let r = synthesize_edge_tts(Err("no python".to_string()), || Err("offline".to_string()));
    assert_eq!(r, Err("Python edge-tts failed: no python; Rust Edge TTS failed: offline".to_string()));
}

#[test]
fn edge_request_picks_voice_and_escapes() {
    let voices = vec![
        voice("Microsoft Server Speech Text to Speech Voice (fr-FR, DeniseNeural)", Some("fr-FR-DeniseNeural"), Some("fr-FR")),
        voice("Microsoft Server Speech Text to Speech Voice (en-US, AriaNeural)", Some("en-US-AriaNeural"), Some("en-US")),
    ];
    let mut settings = AppSettings::default();
    settings.voice_id = "en-US-AriaNeural".to_string();
    settings.rate = -20;
    let req = edge_request(&voices, "a < b", &settings).unwrap();
    assert_eq!(req.voice_index, 1);
    assert_eq!(req.rate, -20);
    assert_eq!(req.volume, 0);
    assert_eq!(req.text, "a &lt; b");
}

#[test]
fn edge_request_without_any_voice_fails() {
    let voices = vec![voice("Some German voice", Some("de-DE-KatjaNeural"), Some("de-DE"))];
    let settings = AppSettings::default();
    match edge_request(&voices, "x", &settings) {
        Err(e) => assert_eq!(e, "Voice 'en-US-EmmaMultilingualNeural' was not found."),
        Ok(_) => panic!("no voice should be chosen"),
    }
}

#[test]
fn plan_after_synthesis_three_ways() {
    let mut settings = AppSettings::default();
    settings.volume = 70;
    match plan_after_synthesis(Ok(vec![1]), &settings) {
        SpeakPlan::Play { audio, volume } => {
            assert_eq!(audio, vec![1]);
            assert_eq!(volume, 70);
        }
        _ => panic!("expected playback"),
    }
    match plan_after_synthesis(Err("timeout".to_string()), &settings) {
        SpeakPlan::Report { status } => {
            assert_eq!(status.state, "Error");
            assert_eq!(status.message, "Edge TTS failed: timeout");
        }
        _ => panic!("expected an error report"),
    }
    settings.enable_local_fallback = true;
    match plan_after_synthesis(Err("timeout".to_string()), &settings) {
        SpeakPlan::LocalFallback { message } => {
            assert_eq!(message, "Edge TTS failed, using local fallback: timeout")
        }
        _ => panic!("expected the local fallback"),
    }
}

#[test]
fn test_phrase_text() {
    assert_eq!(TEST_PHRASE, "Read This is ready.");
}

#[test]
fn sapi_script_text_cannot_change_the_commands() {
    let settings = AppSettings::default();
    let head = "$text=[Text.Encoding]::UTF8.GetString([Convert]::FromBase64String('";
    let tail = "'));$voice=New-Object -ComObject SAPI.SpVoice;$voice.Rate=2;$voice.Volume=100;[void]$voice.Speak($text);";
    for t in ["')); Remove-Item *; ('", "$env:PATH", "a;b", "plain"] {
        let script = sapi_script(t, &settings);
        assert!(script.starts_with(head) && script.ends_with(tail));
        let literal = &script[head.len()..script.len() - tail.len()];
        assert!(literal.chars().all(|c| c.is_ascii_alphanumeric() || c == '+' || c == '/' || c == '='));
        assert_eq!(literal, read_this::encoding::base64_of_utf8(t));
    }
    assert_ne!(sapi_script("a", &settings), sapi_script("b", &settings));
}

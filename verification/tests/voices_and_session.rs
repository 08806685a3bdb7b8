use read_this::session::{Session, SessionView};
use read_this::settings::AppSettings;
use read_this::status::ReadStatus;
use read_this::voices::{english_voice_infos, select_voice, select_voice_index, Voice, VoiceInfo};

fn voice(name: &str, short: Option<&str>, locale: Option<&str>, friendly: Option<&str>) -> Voice {
    Voice {
        name: name.to_string(),
        short_name: short.map(|s| s.to_string()),
        gender: Some("Female".to_string()),
        locale: locale.map(|s| s.to_string()),
        friendly_name: friendly.map(|s| s.to_string()),
    }
}

fn sample_voices() -> Vec<Voice> {
    vec![
        voice("Microsoft Voice (de-DE, KatjaNeural)", Some("de-DE-KatjaNeural"), Some("de-DE"), Some("Katja")),
        voice("Microsoft Voice (en-GB, SoniaNeural)", Some("en-GB-SoniaNeural"), Some("en-GB"), Some("Sonia")),
        voice("Microsoft Voice (en-US, EmmaMultilingualNeural)", Some("en-US-EmmaMultilingualNeural"), Some("en-US"), Some("Emma")),
        voice("Microsoft Voice (en-US, AriaNeural)", Some("en-US-AriaNeural"), Some("en-US"), None),
        voice("Microsoft Voice (fr-FR, DeniseNeural)", None, Some("fr-FR"), Some("Denise")),
        voice("Unnamed", None, None, None),
    ]
}

#[test]
fn select_voice_by_short_name() {
    let voices = sample_voices();
    assert_eq!(select_voice_index(&voices, "en-US-AriaNeural"), Some(3));
    let v = select_voice(&voices, "en-US-AriaNeural").unwrap();
    assert_eq!(v.name, "Microsoft Voice (en-US, AriaNeural)");
}

#[test]
fn select_voice_by_full_name_or_part_of_it() {
    let voices = sample_voices();
    assert_eq!(select_voice_index(&voices, "Microsoft Voice (fr-FR, DeniseNeural)"), Some(4));
    assert_eq!(select_voice_index(&voices, "SoniaNeural"), Some(1));
    assert_eq!(select_voice_index(&voices, "Microsoft Voice"), Some(0));
}

#[test]
fn select_voice_falls_back_to_default_voice() {
    let voices = sample_voices();
    assert_eq!(select_voice_index(&voices, "xx-XX-NobodyNeural"), Some(2));
}

#[test]
fn select_voice_falls_back_to_first_english_voice() {
    let mut voices = sample_voices();
    voices.remove(2);
    assert_eq!(select_voice_index(&voices, "xx-XX-NobodyNeural"), Some(1));
}

#[test]
fn select_voice_finds_nothing_without_english_voice() {
    let voices = vec![
        voice("Microsoft Voice (de-DE, KatjaNeural)", Some("de-DE-KatjaNeural"), Some("de-DE"), None),
        voice("Unnamed", None, None, None),
    ];
    assert_eq!(select_voice_index(&voices, "en-US-AriaNeural"), None);
    assert!(select_voice(&voices, "en-US-AriaNeural").is_none());
    let empty: Vec<Voice> = Vec::new();
    assert!(select_voice(&empty, "anything").is_none());
}

#[test]
fn select_voice_with_empty_id_takes_first_voice() {
    let voices = sample_voices();
    assert_eq!(select_voice_index(&voices, ""), Some(0));
}

#[test]
fn default_voice_found_by_name_part() {
    let voices = vec![
        voice("Some Spanish voice", Some("es-ES-X"), Some("es-ES"), None),
        voice("Microsoft Voice (en-AU, EmmaMultilingualNeural)", Some("en-AU-Other"), Some("en-AU"), None),
    ];
    assert_eq!(select_voice_index(&voices, "nothing-matches"), Some(1));
}

fn reference_listing(voices: &[Voice]) -> Vec<(String, String, String, String)> {
    let mut out: Vec<(String, String, String, String)> = voices
        .iter()
        .filter_map(|v| {
            let id = v.short_name.clone().unwrap_or_else(|| v.name.clone());
            let locale = v.locale.clone().unwrap_or_default();
            if !locale.starts_with("en-") {
                return None;
            }
            let label = v.friendly_name.clone().unwrap_or_else(|| id.clone());
            Some((id, label, locale, v.gender.clone().unwrap_or_default()))
        })
        .collect();
    out.sort_by(|a, b| a.1.cmp(&b.1));
    out
}

fn flatten(infos: &[VoiceInfo]) -> Vec<(String, String, String, String)> {
    infos
        .iter()
        .map(|i| (i.id.clone(), i.label.clone(), i.locale.clone(), i.gender.clone()))
        .collect()
}

#[test]
fn english_listing_is_sorted_and_filtered() {
    let voices = sample_voices();
    let infos = english_voice_infos(&voices);
    let labels: Vec<&str> = infos.iter().map(|i| i.label.as_str()).collect();
    assert_eq!(labels, vec!["Emma", "Sonia", "en-US-AriaNeural"]);
    assert!(infos.iter().all(|i| i.locale.starts_with("en-")));
    assert_eq!(flatten(&infos), reference_listing(&voices));
}

#[test]
fn english_listing_sort_is_stable() {
    let voices = vec![
        voice("A1", Some("en-US-1"), Some("en-US"), Some("Same")),
        voice("B", Some("en-US-2"), Some("en-GB"), Some("Émile")),
        voice("A2", Some("en-US-3"), Some("en-IN"), Some("Same")),
        voice("C", None, Some("en-AU"), Some("Alpha")),
        voice("D", Some("en-US-5"), Some("en-CA"), Some("Same")),
        voice("E", Some("en-US-6"), Some("english"), Some("Zed")),
    ];
    let infos = english_voice_infos(&voices);
    let ids: Vec<&str> = infos.iter().map(|i| i.id.as_str()).collect();
    assert_eq!(ids, vec!["C", "en-US-1", "en-US-3", "en-US-5", "en-US-2"]);
    assert_eq!(flatten(&infos), reference_listing(&voices));
}

#[test]
fn english_listing_of_no_voices_is_empty() {
    assert!(english_voice_infos(&[]).is_empty());
}

fn view(s: &Session) -> (String, String, Option<u64>, bool) {
    (s.status.state.clone(), s.status.message.clone(), s.playback, s.local_speaking)
}

#[test]
fn session_starts_ready() {
    let s = Session::new(AppSettings::default());
    assert_eq!(view(&s), ("Idle".to_string(), "Ready.".to_string(), None, false));
}

#[test]
fn session_stop_reports_what_to_stop() {
    let mut s = Session::new(AppSettings::default());
    s.start_playback(7);
    s.start_local("Edge TTS failed, using local fallback: x");
    let actions = s.stop();
    assert_eq!(actions.stop_player, Some(7));
    assert!(actions.kill_local);
    assert_eq!(actions.status.state, "Idle");
    assert_eq!(actions.status.message, "Stopped.");
    assert_eq!(view(&s), ("Idle".to_string(), "Stopped.".to_string(), None, false));
    let again = s.stop();
    assert_eq!(again.stop_player, None);
    assert!(!again.kill_local);
}

#[test]
fn session_playback_ends() {
    let mut s = Session::new(AppSettings::default());
    let st = s.begin_fetch();
    assert_eq!((st.state.as_str(), st.message.as_str()), ("FetchingVoice", "Fetching Edge TTS audio..."));
    let st = s.start_playback(1);
    assert_eq!((st.state.as_str(), st.message.as_str()), ("Reading", "Reading highlighted text."));
    assert!(s.playback_ended(1));
    assert_eq!(view(&s), ("Idle".to_string(), "Finished reading.".to_string(), None, false));
}

#[test]
fn session_ignores_end_of_stopped_or_replaced_player() {
    let mut s = Session::new(AppSettings::default());
    s.start_playback(1);
    s.stop();
    assert!(!s.playback_ended(1));
    assert_eq!(view(&s), ("Idle".to_string(), "Stopped.".to_string(), None, false));
    s.start_playback(2);
    s.start_playback(3);
    assert!(!s.playback_ended(2));
    assert_eq!(s.playback, Some(3));
    assert_eq!(s.status.state, "Reading");
}

#[test]
fn session_local_voice_finishes() {
    let mut s = Session::new(AppSettings::default());
    let st = s.start_local("msg");
    assert_eq!((st.state.as_str(), st.message.as_str()), ("Reading", "msg"));
    assert!(!s.local_checked(false));
    assert!(s.local_speaking);
    assert!(s.local_checked(true));
    assert_eq!(view(&s), ("Idle".to_string(), "Finished reading.".to_string(), None, false));
    assert!(!s.local_checked(true));
}

#[test]
fn session_local_check_after_stop_changes_nothing() {
    let mut s = Session::new(AppSettings::default());
    s.start_local("msg");
    s.stop();
    assert!(!s.local_checked(true));
    assert_eq!(view(&s), ("Idle".to_string(), "Stopped.".to_string(), None, false));
}

#[test]
fn session_rejects_blank_selection() {
    let mut s = Session::new(AppSettings::default());
    let r = s.reject_blank_selection(" \n\t ").unwrap();
    assert_eq!(r.state, "Error");
    assert_eq!(r.message, "No highlighted text was detected.");
    assert_eq!(s.status.message, "No highlighted text was detected.");
    let mut s2 = Session::new(AppSettings::default());
    assert!(s2.reject_blank_selection(" hello ").is_none());
    assert_eq!(s2.status.message, "Ready.");
}

#[test]
fn session_settings_and_status() {
    let mut s = Session::new(AppSettings::default());
    let mut changed = AppSettings::default();
    changed.rate = -10;
    s.save_settings(changed);
    assert_eq!(s.settings.rate, -10);
    s.set_status(ReadStatus::error("boom"));
    assert_eq!(s.status.state, "Error");
    let _unused: Option<SessionView> = None;
}

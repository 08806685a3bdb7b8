//! Getting speech for a text: the arguments of the `edge-tts` command line
//! client, the request to the Edge read-aloud service, how the two engines'
//! outcomes combine, what the reader does with the outcome, and the script
//! of the local Windows voice that serves as a fallback.

use vstd::prelude::*;
use vstd::utf8::{encode_utf8, encode_utf8_decode_utf8};
use crate::encoding::{
    base64_of_utf8, base64_standard, encode_powershell_command, is_base64_char, law_base64_alphabet,
    law_base64_is_injective, law_base64_length, lemma_utf8_len, powershell_encoded,
};
use crate::settings::AppSettings;
use crate::ssml::{escape_ssml, escape_ssml_spec};
use crate::status::{error_word, ReadStatus};
use crate::text::{
    decimal, law_decimal_is_numeral, push_char, push_decimal, signed_decimal, trim, trim_spec,
};
use crate::voices::{any_choice, chosen_index, select_voice_index, Voice};

verus! {

/// What the reader says to test the voice.
pub const TEST_PHRASE: &'static str = "Read This is ready.";

/// `{:+}%` of a rate: its sign, always written, its digits and `%`.
pub open spec fn rate_argument(rate: int) -> Seq<char> {
    (if rate < 0 { seq!['-'] } else { seq!['+'] }) + decimal(if rate < 0 { (-rate) as nat } else { rate as nat }) + seq!['%']
}

fn magnitude(i: i32) -> (m: u128)
    ensures
        m == if i < 0 { -(i as int) } else { i as int },
{
    if i < 0 {
        (-(i as i64)) as u128
    } else {
        i as u128
    }
}

/// Appends the numeral of `i` as `{}` prints it.
fn push_signed(s: &mut String, i: i32)
    ensures
        final(s)@ == old(s)@ + signed_decimal(i as int),
{
    if i < 0 {
        push_char(s, '-');
    }
    push_decimal(s, magnitude(i));
    assert(final(s)@ =~= old(s)@ + signed_decimal(i as int));
}

/// The `--rate` argument of `edge-tts`, such as `+15%` or `-5%`.
pub fn format_rate(rate: i32) -> (out: String)
    ensures
        out@ == rate_argument(rate as int),
        out@.len() >= 3,
        out@[0] == if rate < 0 { '-' } else { '+' },
        out@.last() == '%',
        out@.subrange(1, out@.len() - 1) == decimal(
            (if rate < 0 { -(rate as int) } else { rate as int }) as nat,
        ),
{
    proof {
        law_rate_argument_is_signed(rate as int);
    }
    let mut out = String::new();
    if rate < 0 {
        push_char(&mut out, '-');
    } else {
        push_char(&mut out, '+');
    }
    push_decimal(&mut out, magnitude(rate));
    push_char(&mut out, '%');
    out
}

/// The arguments of `python -m edge_tts` up to `--write-media`, after
/// which the caller puts the path of the audio file to write.
pub fn edge_tts_args(text: &str, settings: &AppSettings) -> (args: Vec<String>)
    ensures
        args@.len() == 9,
        args@[0]@ == "-m"@,
        args@[1]@ == "edge_tts"@,
        args@[2]@ == "--text"@,
        args@[3]@ == text@,
        args@[4]@ == "--voice"@,
        args@[5]@ == settings.voice_id@,
        args@[6]@ == "--rate"@,
        args@[7]@ == rate_argument(settings.rate as int),
        args@[8]@ == "--write-media"@,
{
    let mut args: Vec<String> = Vec::new();
    args.push("-m".to_string());
    args.push("edge_tts".to_string());
    args.push("--text".to_string());
    args.push(text.to_string());
    args.push("--voice".to_string());
    args.push(settings.voice_id.clone());
    args.push("--rate".to_string());
    args.push(format_rate(settings.rate));
    args.push("--write-media".to_string());
    args
}

/// The name of the temporary audio file, `read-this-edge-<millis>.mp3`.
pub fn python_output_file_name(millis: u128) -> (name: String)
    ensures
        name@ == "read-this-edge-"@ + decimal(millis as nat) + ".mp3"@,
{
    let mut name = "read-this-edge-".to_string();
    push_decimal(&mut name, millis);
    name.append(".mp3");
    name
}

/// The error of a failed `edge-tts` run: what it wrote to standard error,
/// trimmed.
pub fn python_error_message(stderr: &str) -> (message: String)
    ensures
        message@ == trim_spec(stderr@),
{
    trim(stderr)
}

/// The audio that `edge-tts` wrote, unless the file is empty.
pub fn check_audio(audio: Vec<u8>) -> (r: Result<Vec<u8>, String>)
    ensures
        audio@.len() > 0 ==> r == Ok::<Vec<u8>, String>(audio),
        audio@.len() == 0 ==> (r matches Err(e) && e@ == "edge-tts returned an empty audio file."@),
{
    if audio.len() == 0 {
        Err("edge-tts returned an empty audio file.".to_string())
    } else {
        Ok(audio)
    }
}

/// The message when both engines failed.
pub open spec fn engines_failed_message(python_error: Seq<char>, rust_error: Seq<char>) -> Seq<char> {
    "Python edge-tts failed: "@ + python_error + "; Rust Edge TTS failed: "@ + rust_error
}

/// Speech from the Edge service: the audio of the command-line client
/// when its attempt (`python`) succeeded; otherwise the audio of the
/// service's own client, which `rust` runs only then, or, when that fails
/// too, an error that gives both failures.
pub fn synthesize_edge_tts<F>(python: Result<Vec<u8>, String>, rust: F) -> (r: Result<Vec<u8>, String>)
    where
        F: FnOnce() -> Result<Vec<u8>, String>,
    requires
        python is Err ==> call_requires(rust, ()),
    ensures
        python is Ok ==> r == python,
        python matches Err(pe) ==> exists|rr: Result<Vec<u8>, String>|
            {
                &&& call_ensures(rust, (), rr)
                &&& rr is Ok ==> r == rr
                &&& rr matches Err(re) ==> (r matches Err(m) && m@ == engines_failed_message(pe@, re@))
            },
{
    match python {
        Ok(audio) => Ok(audio),
        Err(python_error) => {
            let rust_result = rust();
            match rust_result {
                Ok(audio) => Ok(audio),
                Err(e) => {
                    let mut m = "Python edge-tts failed: ".to_string();
                    m.append(python_error.as_str());
                    m.append("; Rust Edge TTS failed: ");
                    m.append(e.as_str());
                    Err(m)
                },
            }
        },
    }
}

/// What to ask the Edge read-aloud service for.
pub struct EdgeRequest {
    /// The position of the voice in the voice list.
    pub voice_index: usize,
    pub rate: i32,
    pub volume: i32,
    /// The text, escaped for SSML.
    pub text: String,
}

/// The request for `text` with the voice of `settings` chosen from
/// `voices`, at the settings' rate and the service's normal volume; or the
/// error that no voice can be chosen.
pub fn edge_request(voices: &[Voice], text: &str, settings: &AppSettings) -> (r: Result<
    EdgeRequest,
    String,
>)
    ensures
        r is Ok <==> any_choice(voices@, settings.voice_id@),
        r matches Ok(req) ==> {
            &&& chosen_index(voices@, settings.voice_id@, req.voice_index as int)
            &&& req.rate == settings.rate
            &&& req.volume == 0
            &&& req.text@ == escape_ssml_spec(text@)
        },
        r matches Err(e) ==> e@ == "Voice '"@ + settings.voice_id@ + "' was not found."@,
{
    match select_voice_index(voices, settings.voice_id.as_str()) {
        Some(i) => Ok(EdgeRequest { voice_index: i, rate: settings.rate, volume: 0, text: escape_ssml(text) }),
        None => {
            let mut m = "Voice '".to_string();
            m.append(settings.voice_id.as_str());
            m.append("' was not found.");
            Err(m)
        },
    }
}

/// What the reader does once the speech service has answered.
pub enum SpeakPlan {
    /// Play the audio at the given volume (in percent).
    Play { audio: Vec<u8>, volume: u8 },
    /// Speak with the local Windows voice, reporting `message`.
    LocalFallback { message: String },
    /// Give up and report the status.
    Report { status: ReadStatus },
}

/// The plan after the speech service answered `result`: play the audio;
/// on an error, fall back to the local voice when the settings allow it,
/// else report the error.
pub fn plan_after_synthesis(result: Result<Vec<u8>, String>, settings: &AppSettings) -> (plan:
    SpeakPlan)
    ensures
        match result {
            Ok(audio) => plan == (SpeakPlan::Play { audio, volume: settings.volume }),
            Err(e) => if settings.enable_local_fallback {
                (plan matches SpeakPlan::LocalFallback { message } && message@
                    == "Edge TTS failed, using local fallback: "@ + e@)
            } else {
                (plan matches SpeakPlan::Report { status } && status.state@ == error_word()
                    && status.message@ == "Edge TTS failed: "@ + e@)
            },
        },
{
    match result {
        Ok(audio) => SpeakPlan::Play { audio, volume: settings.volume },
        Err(e) => {
            if settings.enable_local_fallback {
                let mut m = "Edge TTS failed, using local fallback: ".to_string();
                m.append(e.as_str());
                SpeakPlan::LocalFallback { message: m }
            } else {
                let mut m = "Edge TTS failed: ".to_string();
                m.append(e.as_str());
                SpeakPlan::Report { status: ReadStatus::error(m.as_str()) }
            }
        },
    }
}

/// `r / 10` rounded to the nearest integer, halves away from zero.
pub open spec fn round_tenth(r: int) -> int {
    if r >= 0 {
        (r + 5) / 10
    } else {
        -((-r + 5) / 10)
    }
}

/// The rate of the local Windows voice for a rate in percent: a tenth of
/// it, rounded, within -10 to 10.
pub open spec fn sapi_rate_spec(rate: int) -> int {
    let t = round_tenth(rate);
    if t < -10 {
        -10
    } else if t > 10 {
        10
    } else {
        t
    }
}

/// The rate of the local Windows voice for `rate` (in percent).
pub fn sapi_rate(rate: i32) -> (r: i32)
    ensures
        r == sapi_rate_spec(rate as int),
        -10 <= r <= 10,
{
    let wide = rate as i64;
    let t: i64 = if wide >= 0 { (wide + 5) / 10 } else { -((-wide + 5) / 10) };
    if t < -10 {
        -10
    } else if t > 10 {
        10
    } else {
        t as i32
    }
}

/// The volume of the local Windows voice: the setting, at most 100.
pub fn sapi_volume(volume: u8) -> (v: u8)
    ensures
        v == if volume < 100 { volume } else { 100 },
{
    if volume < 100 { volume } else { 100 }
}

/// The script text before the base64 of the text to speak.
pub const SAPI_SCRIPT_HEAD: &'static str = "$text=[Text.Encoding]::UTF8.GetString([Convert]::FromBase64String('";

/// The script text between the base64 of the text and the rate.
pub const SAPI_SCRIPT_VOICE: &'static str = "'));$voice=New-Object -ComObject SAPI.SpVoice;$voice.Rate=";

/// The script text between the rate and the volume.
pub const SAPI_SCRIPT_VOLUME: &'static str = ";$voice.Volume=";

/// The script text after the volume.
pub const SAPI_SCRIPT_TAIL: &'static str = ";[void]$voice.Speak($text);";

/// The PowerShell script that speaks `text` with the local Windows voice:
/// it decodes the base64 of the text's UTF-8 bytes and speaks it at the
/// given rate and volume.
pub open spec fn sapi_script_spec(text: Seq<char>, rate: int, volume: int) -> Seq<char> {
    SAPI_SCRIPT_HEAD@ + sapi_text_literal(text) + sapi_script_rest(rate, volume)
}

/// What the script holds of the text: the standard base64 of its UTF-8
/// bytes, between the quotes of `FromBase64String('...')`.
pub open spec fn sapi_text_literal(text: Seq<char>) -> Seq<char> {
    base64_standard(encode_utf8(text))
}

/// The script after the text: the closing of the quoted literal, then the
/// commands that set the rate and volume and speak.
pub open spec fn sapi_script_rest(rate: int, volume: int) -> Seq<char> {
    SAPI_SCRIPT_VOICE@ + signed_decimal(sapi_rate_spec(rate)) + SAPI_SCRIPT_VOLUME@ + decimal(
        (if volume < 100 { volume } else { 100 }) as nat,
    ) + SAPI_SCRIPT_TAIL@
}

/// No text can change the commands of the local voice's script: scripts
/// for two texts at the same rate and volume differ only in the quoted
/// literal; the literal holds only base64 characters (so no quote can end
/// it early); and it determines the text, so equal scripts come from equal
/// texts.
pub proof fn law_sapi_script_confines_text(t1: Seq<char>, t2: Seq<char>, rate: int, volume: int)
    ensures
        sapi_script_spec(t1, rate, volume) == SAPI_SCRIPT_HEAD@ + sapi_text_literal(t1)
            + sapi_script_rest(rate, volume),
        sapi_script_spec(t2, rate, volume) == SAPI_SCRIPT_HEAD@ + sapi_text_literal(t2)
            + sapi_script_rest(rate, volume),
        forall|i: int|
            0 <= i < sapi_text_literal(t1).len() ==> is_base64_char(
                #[trigger] sapi_text_literal(t1)[i],
            ) && sapi_text_literal(t1)[i] != '\'',
        sapi_text_literal(t1) == sapi_text_literal(t2) ==> t1 == t2,
        sapi_script_spec(t1, rate, volume) == sapi_script_spec(t2, rate, volume) ==> t1 == t2,
{
    law_base64_alphabet(encode_utf8(t1));
    let h = SAPI_SCRIPT_HEAD@;
    let r = sapi_script_rest(rate, volume);
    let l1 = sapi_text_literal(t1);
    let l2 = sapi_text_literal(t2);
    if l1 == l2 {
        law_base64_is_injective(encode_utf8(t1), encode_utf8(t2));
        encode_utf8_decode_utf8(t1);
        encode_utf8_decode_utf8(t2);
    }
    if sapi_script_spec(t1, rate, volume) == sapi_script_spec(t2, rate, volume) {
        let s = h + l1 + r;
        assert(s == h + l2 + r);
        assert(l1.len() == l2.len());
        assert(l1 == s.subrange(h.len() as int, (h.len() + l1.len()) as int));
        assert(l2 == s.subrange(h.len() as int, (h.len() + l2.len()) as int));
        law_base64_is_injective(encode_utf8(t1), encode_utf8(t2));
        encode_utf8_decode_utf8(t1);
        encode_utf8_decode_utf8(t2);
    }
}

/// The PowerShell script that speaks `text` with the local Windows voice
/// at the rate and volume of `settings`.
pub fn sapi_script(text: &str, settings: &AppSettings) -> (script: String)
    requires
        text@.len() <= usize::MAX / 8,
    ensures
        script@ == sapi_script_spec(text@, settings.rate as int, settings.volume as int),
{
    let encoded = base64_of_utf8(text);
    let rate = sapi_rate(settings.rate);
    let volume = sapi_volume(settings.volume);
    let mut script = SAPI_SCRIPT_HEAD.to_string();
    script.append(encoded.as_str());
    script.append(SAPI_SCRIPT_VOICE);
    push_signed(&mut script, rate);
    script.append(SAPI_SCRIPT_VOLUME);
    push_decimal(&mut script, volume as u128);
    script.append(SAPI_SCRIPT_TAIL);
    script
}

proof fn lemma_small_decimal(n: nat)
    requires
        n < 1000,
    ensures
        decimal(n).len() <= 3,
{
    reveal_with_fuel(decimal, 3);
}

/// The arguments of `powershell.exe` that speak `text` with the local
/// Windows voice at the rate and volume of `settings`.
pub fn local_fallback_args(text: &str, settings: &AppSettings) -> (args: Vec<String>)
    requires
        text@.len() <= usize::MAX / 64,
    ensures
        args@.len() == 5,
        args@[0]@ == "-NoProfile"@,
        args@[1]@ == "-ExecutionPolicy"@,
        args@[2]@ == "Bypass"@,
        args@[3]@ == "-EncodedCommand"@,
        args@[4]@ == powershell_encoded(
            sapi_script_spec(text@, settings.rate as int, settings.volume as int),
        ),
{
    let script = sapi_script(text, settings);
    proof {
        reveal_strlit("$text=[Text.Encoding]::UTF8.GetString([Convert]::FromBase64String('");
        reveal_strlit("'));$voice=New-Object -ComObject SAPI.SpVoice;$voice.Rate=");
        reveal_strlit(";$voice.Volume=");
        reveal_strlit(";[void]$voice.Speak($text);");
        lemma_utf8_len(text@);
        law_base64_length(encode_utf8(text@));
        let r = sapi_rate_spec(settings.rate as int);
        lemma_small_decimal((if r < 0 { -r } else { r }) as nat);
        let v = if settings.volume < 100 { settings.volume as int } else { 100 };
        lemma_small_decimal(v as nat);
        assert(signed_decimal(r).len() <= 4);
        assert(script@.len() <= usize::MAX / 8);
    }
    let mut args: Vec<String> = Vec::new();
    args.push("-NoProfile".to_string());
    args.push("-ExecutionPolicy".to_string());
    args.push("Bypass".to_string());
    args.push("-EncodedCommand".to_string());
    args.push(encode_powershell_command(script.as_str()));
    args
}

/// A faster setting never gives the local voice a slower rate.
pub proof fn law_sapi_rate_monotonic(a: int, b: int)
    requires
        a <= b,
    ensures
        sapi_rate_spec(a) <= sapi_rate_spec(b),
{
    assert(round_tenth(a) <= round_tenth(b));
}

/// The rate argument always carries its sign: `+` for zero and faster
/// rates, `-` for slower ones, then the decimal numeral of the rate's
/// magnitude (see `law_decimal_is_numeral`), then `%`.
pub proof fn law_rate_argument_is_signed(rate: int)
    ensures
        rate_argument(rate).len() >= 3,
        rate_argument(rate)[0] == if rate < 0 { '-' } else { '+' },
        rate_argument(rate).last() == '%',
        rate_argument(rate).subrange(1, rate_argument(rate).len() - 1) == decimal(
            (if rate < 0 { -rate } else { rate }) as nat,
        ),
{
    let m = (if rate < 0 { -rate } else { rate }) as nat;
    law_decimal_is_numeral(m);
    let a = rate_argument(rate);
    assert(a.subrange(1, a.len() - 1) == decimal(m));
}

/// The local voice's rate is the rate in percent divided by ten, rounded
/// to the nearest integer with halves away from zero, and kept within -10
/// to 10: stated by how far it may lie from the setting.
pub proof fn law_sapi_rate_rounds(rate: int)
    ensures
        -10 <= sapi_rate_spec(rate) <= 10,
        rate >= 105 ==> sapi_rate_spec(rate) == 10,
        rate <= -105 ==> sapi_rate_spec(rate) == -10,
        -105 < rate < 105 ==> {
            let t = sapi_rate_spec(rate);
            &&& 10 * t - 5 <= rate <= 10 * t + 5
            &&& rate == 10 * t + 5 ==> t < 0
            &&& rate == 10 * t - 5 ==> t > 0
        },
{
}

/// The end of the local voice's script sets the rate (with a minus sign
/// when it is negative) and the volume, which is the setting capped at 100,
/// and then speaks the text.
pub proof fn law_sapi_script_rate_and_volume(text: Seq<char>, rate: int, volume: int)
    requires
        0 <= volume,
    ensures
        exists|p: Seq<char>|
            sapi_script_spec(text, rate, volume) == p + "$voice.Rate="@ + (if sapi_rate_spec(rate) < 0 {
                seq!['-']
            } else {
                Seq::<char>::empty()
            }) + decimal(
                (if sapi_rate_spec(rate) < 0 { -sapi_rate_spec(rate) } else { sapi_rate_spec(rate) }) as nat,
            ) + ";$voice.Volume="@ + decimal((if volume <= 100 { volume } else { 100 }) as nat)
                + ";[void]$voice.Speak($text);"@,
{
    reveal_strlit("'));$voice=New-Object -ComObject SAPI.SpVoice;$voice.Rate=");
    reveal_strlit("$voice.Rate=");
    let t = sapi_rate_spec(rate);
    let head = seq!['\'', ')', ')', ';', '$', 'v', 'o', 'i', 'c', 'e', '=', 'N', 'e', 'w', '-', 'O', 'b', 'j', 'e', 'c', 't', ' ', '-', 'C', 'o', 'm', 'O', 'b', 'j', 'e', 'c', 't', ' ', 'S', 'A', 'P', 'I', '.', 'S', 'p', 'V', 'o', 'i', 'c', 'e', ';'];
    assert(SAPI_SCRIPT_VOICE@ == head + "$voice.Rate="@);
    let sign = if t < 0 { seq!['-'] } else { Seq::<char>::empty() };
    let mag = decimal((if t < 0 { -t } else { t }) as nat);
    assert(signed_decimal(t) == sign + mag);
    let p = SAPI_SCRIPT_HEAD@ + sapi_text_literal(text) + head;
    let vol = decimal((if volume <= 100 { volume } else { 100 }) as nat);
    assert(decimal((if volume < 100 { volume } else { 100 }) as nat) == vol);
    assert(sapi_script_spec(text, rate, volume) == p + "$voice.Rate="@ + sign + mag + ";$voice.Volume="@ + vol
        + ";[void]$voice.Speak($text);"@);
}

} // verus!

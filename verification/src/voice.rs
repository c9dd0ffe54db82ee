//! The voice that speaks a locale where none is named.

use vstd::prelude::*;
use crate::chars::{chars_of, spells};

verus! {

/// How many locales have a voice of their own.
pub const LOCALES: usize = 129;

/// The locales, each with its voice. A locale is written with the language
/// in lower case and the country in upper case.
pub const DEFAULT_VOICES: [(&'static str, &'static str); 129] = [
    ("af-ZA", "af-ZA-AdriNeural"),
    ("am-ET", "am-ET-AmehaNeural"),
    ("ar-AE", "ar-AE-FatimaNeural"),
    ("ar-BH", "ar-BH-AliNeural"),
    ("ar-DZ", "ar-DZ-AminaNeural"),
    ("ar-EG", "ar-EG-SalmaNeural"),
    ("ar-IQ", "ar-IQ-BasselNeural"),
    ("ar-JO", "ar-JO-SanaNeural"),
    ("ar-KW", "ar-KW-FahedNeural"),
    ("ar-LY", "ar-LY-ImanNeural"),
    ("ar-MA", "ar-MA-JamalNeural"),
    ("ar-QA", "ar-QA-AmalNeural"),
    ("ar-SA", "ar-SA-HamedNeural"),
    ("ar-SY", "ar-SY-AmanyNeural"),
    ("ar-TN", "ar-TN-HediNeural"),
    ("ar-YE", "ar-YE-MaryamNeural"),
    ("bg-BG", "bg-BG-BorislavNeural"),
    ("bn-BD", "bn-BD-NabanitaNeural"),
    ("bn-IN", "bn-IN-BashkarNeural"),
    ("ca-ES", "ca-ES-JoanaNeural"),
    ("cs-CZ", "cs-CZ-AntoninNeural"),
    ("cy-GB", "cy-GB-AledNeural"),
    ("da-DK", "da-DK-ChristelNeural"),
    ("de-AT", "de-AT-IngridNeural"),
    ("de-CH", "de-CH-JanNeural"),
    ("de-DE", "de-DE-KatjaNeural"),
    ("el-GR", "el-GR-AthinaNeural"),
    ("en-AU", "en-AU-NatashaNeural"),
    ("en-CA", "en-CA-ClaraNeural"),
    ("en-GB", "en-GB-LibbyNeural"),
    ("en-HK", "en-HK-SamNeural"),
    ("en-IE", "en-IE-ConnorNeural"),
    ("en-IN", "en-IN-NeerjaNeural"),
    ("en-KE", "en-KE-AsiliaNeural"),
    ("en-NG", "en-NG-AbeoNeural"),
    ("en-NZ", "en-NZ-MitchellNeural"),
    ("en-PH", "en-PH-JamesNeural"),
    ("en-SG", "en-SG-LunaNeural"),
    ("en-TZ", "en-TZ-ElimuNeural"),
    ("en-US", "en-US-JennyNeural"),
    ("en-ZA", "en-ZA-LeahNeural"),
    ("es-AR", "es-AR-ElenaNeural"),
    ("es-BO", "es-BO-MarceloNeural"),
    ("es-CL", "es-CL-CatalinaNeural"),
    ("es-CO", "es-CO-GonzaloNeural"),
    ("es-CR", "es-CR-JuanNeural"),
    ("es-CU", "es-CU-BelkysNeural"),
    ("es-DO", "es-DO-EmilioNeural"),
    ("es-EC", "es-EC-AndreaNeural"),
    ("es-ES", "es-ES-AlvaroNeural"),
    ("es-GQ", "es-GQ-JavierNeural"),
    ("es-GT", "es-GT-AndresNeural"),
    ("es-HN", "es-HN-CarlosNeural"),
    ("es-MX", "es-MX-DaliaNeural"),
    ("es-NI", "es-NI-FedericoNeural"),
    ("es-PA", "es-PA-MargaritaNeural"),
    ("es-PE", "es-PE-AlexNeural"),
    ("es-PR", "es-PR-KarinaNeural"),
    ("es-PY", "es-PY-MarioNeural"),
    ("es-SV", "es-SV-LorenaNeural"),
    ("es-US", "es-US-AlonsoNeural"),
    ("es-UY", "es-UY-MateoNeural"),
    ("es-VE", "es-VE-PaolaNeural"),
    ("et-EE", "et-EE-AnuNeural"),
    ("fa-IR", "fa-IR-DilaraNeural"),
    ("fi-FI", "fi-FI-SelmaNeural"),
    ("fil-PH", "fil-PH-AngeloNeural"),
    ("fr-BE", "fr-BE-CharlineNeural"),
    ("fr-CA", "fr-CA-SylvieNeural"),
    ("fr-CH", "fr-CH-ArianeNeural"),
    ("fr-FR", "fr-FR-DeniseNeural"),
    ("ga-IE", "ga-IE-ColmNeural"),
    ("gl-ES", "gl-ES-RoiNeural"),
    ("gu-IN", "gu-IN-DhwaniNeural"),
    ("he-IL", "he-IL-AvriNeural"),
    ("hi-IN", "hi-IN-MadhurNeural"),
    ("hr-HR", "hr-HR-GabrijelaNeural"),
    ("hu-HU", "hu-HU-NoemiNeural"),
    ("id-ID", "id-ID-ArdiNeural"),
    ("is-IS", "is-IS-GudrunNeural"),
    ("it-IT", "it-IT-IsabellaNeural"),
    ("ja-JP", "ja-JP-NanamiNeural"),
    ("jv-ID", "jv-ID-DimasNeural"),
    ("kk-KZ", "kk-KZ-AigulNeural"),
    ("km-KH", "km-KH-PisethNeural"),
    ("kn-IN", "kn-IN-GaganNeural"),
    ("ko-KR", "ko-KR-SunHiNeural"),
    ("lo-LA", "lo-LA-ChanthavongNeural"),
    ("lt-LT", "lt-LT-LeonasNeural"),
    ("lv-LV", "lv-LV-EveritaNeural"),
    ("mk-MK", "mk-MK-AleksandarNeural"),
    ("ml-IN", "ml-IN-MidhunNeural"),
    ("mr-IN", "mr-IN-AarohiNeural"),
    ("ms-MY", "ms-MY-OsmanNeural"),
    ("mt-MT", "mt-MT-GraceNeural"),
    ("my-MM", "my-MM-NilarNeural"),
    ("nb-NO", "nb-NO-PernilleNeural"),
    ("nl-BE", "nl-BE-ArnaudNeural"),
    ("nl-NL", "nl-NL-ColetteNeural"),
    ("pl-PL", "pl-PL-AgnieszkaNeural"),
    ("ps-AF", "ps-AF-GulNawazNeural"),
    ("pt-BR", "pt-BR-FranciscaNeural"),
    ("pt-PT", "pt-PT-DuarteNeural"),
    ("ro-RO", "ro-RO-AlinaNeural"),
    ("ru-RU", "ru-RU-SvetlanaNeural"),
    ("si-LK", "si-LK-SameeraNeural"),
    ("sk-SK", "sk-SK-LukasNeural"),
    ("sl-SI", "sl-SI-PetraNeural"),
    ("so-SO", "so-SO-MuuseNeural"),
    ("sr-RS", "sr-RS-NicholasNeural"),
    ("su-ID", "su-ID-JajangNeural"),
    ("sv-SE", "sv-SE-SofieNeural"),
    ("sw-KE", "sw-KE-RafikiNeural"),
    ("sw-TZ", "sw-TZ-DaudiNeural"),
    ("ta-IN", "ta-IN-PallaviNeural"),
    ("ta-LK", "ta-LK-KumarNeural"),
    ("ta-SG", "ta-SG-AnbuNeural"),
    ("te-IN", "te-IN-MohanNeural"),
    ("th-TH", "th-TH-PremwadeeNeural"),
    ("tr-TR", "tr-TR-AhmetNeural"),
    ("uk-UA", "uk-UA-OstapNeural"),
    ("ur-IN", "ur-IN-GulNeural"),
    ("ur-PK", "ur-PK-AsadNeural"),
    ("uz-UZ", "uz-UZ-MadinaNeural"),
    ("vi-VN", "vi-VN-HoaiMyNeural"),
    ("zh-CN", "zh-CN-XiaoxiaoNeural"),
    ("zh-HK", "zh-HK-HiuMaanNeural"),
    ("zh-TW", "zh-TW-HsiaoChenNeural"),
    ("zu-ZA", "zu-ZA-ThandoNeural"),
];

/// The voice of the first locale at or after `from` in the table that is
/// `locale`.
pub open spec fn voice_from(locale: Seq<char>, from: int) -> Option<Seq<char>>
    decreases LOCALES - from,
{
    if from < 0 || from >= LOCALES {
        None
    } else if DEFAULT_VOICES[from].0@ == locale {
        Some(DEFAULT_VOICES[from].1@)
    } else {
        voice_from(locale, from + 1)
    }
}

/// The voice that the table gives for `locale`, if it holds that locale.
pub open spec fn default_voice(locale: Seq<char>) -> Option<Seq<char>> {
    voice_from(locale, 0)
}

/// A locale has a voice exactly when the table holds it, and the voice is
/// that of an entry for it.
pub proof fn lemma_voice_from(locale: Seq<char>, from: int)
    requires
        0 <= from <= LOCALES,
    ensures
        voice_from(locale, from) is None <==> forall|i: int|
            from <= i < LOCALES ==> (#[trigger] DEFAULT_VOICES[i]).0@ != locale,
        voice_from(locale, from) matches Some(voice) ==> exists|i: int|
            from <= i < LOCALES && (#[trigger] DEFAULT_VOICES[i]).0@ == locale
                && DEFAULT_VOICES[i].1@ == voice,
    decreases LOCALES - from,
{
    if from < LOCALES && DEFAULT_VOICES[from].0@ != locale {
        lemma_voice_from(locale, from + 1);
    }
}

/// The locale that is meant where none is given has a voice.
pub proof fn lemma_en_us()
    ensures
        default_voice("en-US"@) == Some("en-US-JennyNeural"@),
{
    let locale = "en-US"@;
    reveal_strlit("af-ZA");
    reveal_strlit("am-ET");
    reveal_strlit("ar-AE");
    reveal_strlit("ar-BH");
    reveal_strlit("ar-DZ");
    reveal_strlit("ar-EG");
    reveal_strlit("ar-IQ");
    reveal_strlit("ar-JO");
    reveal_strlit("ar-KW");
    reveal_strlit("ar-LY");
    reveal_strlit("ar-MA");
    reveal_strlit("ar-QA");
    reveal_strlit("ar-SA");
    reveal_strlit("ar-SY");
    reveal_strlit("ar-TN");
    reveal_strlit("ar-YE");
    reveal_strlit("bg-BG");
    reveal_strlit("bn-BD");
    reveal_strlit("bn-IN");
    reveal_strlit("ca-ES");
    reveal_strlit("cs-CZ");
    reveal_strlit("cy-GB");
    reveal_strlit("da-DK");
    reveal_strlit("de-AT");
    reveal_strlit("de-CH");
    reveal_strlit("de-DE");
    reveal_strlit("el-GR");
    reveal_strlit("en-AU");
    reveal_strlit("en-CA");
    reveal_strlit("en-GB");
    reveal_strlit("en-HK");
    reveal_strlit("en-IE");
    reveal_strlit("en-IN");
    reveal_strlit("en-KE");
    reveal_strlit("en-NG");
    reveal_strlit("en-NZ");
    reveal_strlit("en-PH");
    reveal_strlit("en-SG");
    reveal_strlit("en-TZ");
    reveal_strlit("en-US");
    assert(DEFAULT_VOICES[0].0@[0] != locale[0]);
    assert(DEFAULT_VOICES[1].0@[0] != locale[0]);
    assert(DEFAULT_VOICES[2].0@[0] != locale[0]);
    assert(DEFAULT_VOICES[3].0@[0] != locale[0]);
    assert(DEFAULT_VOICES[4].0@[0] != locale[0]);
    assert(DEFAULT_VOICES[5].0@[0] != locale[0]);
    assert(DEFAULT_VOICES[6].0@[0] != locale[0]);
    assert(DEFAULT_VOICES[7].0@[0] != locale[0]);
    assert(DEFAULT_VOICES[8].0@[0] != locale[0]);
    assert(DEFAULT_VOICES[9].0@[0] != locale[0]);
    assert(DEFAULT_VOICES[10].0@[0] != locale[0]);
    assert(DEFAULT_VOICES[11].0@[0] != locale[0]);
    assert(DEFAULT_VOICES[12].0@[0] != locale[0]);
    assert(DEFAULT_VOICES[13].0@[0] != locale[0]);
    assert(DEFAULT_VOICES[14].0@[0] != locale[0]);
    assert(DEFAULT_VOICES[15].0@[0] != locale[0]);
    assert(DEFAULT_VOICES[16].0@[0] != locale[0]);
    assert(DEFAULT_VOICES[17].0@[0] != locale[0]);
    assert(DEFAULT_VOICES[18].0@[0] != locale[0]);
    assert(DEFAULT_VOICES[19].0@[0] != locale[0]);
    assert(DEFAULT_VOICES[20].0@[0] != locale[0]);
    assert(DEFAULT_VOICES[21].0@[0] != locale[0]);
    assert(DEFAULT_VOICES[22].0@[0] != locale[0]);
    assert(DEFAULT_VOICES[23].0@[0] != locale[0]);
    assert(DEFAULT_VOICES[24].0@[0] != locale[0]);
    assert(DEFAULT_VOICES[25].0@[0] != locale[0]);
    assert(DEFAULT_VOICES[26].0@[1] != locale[1]);
    assert(DEFAULT_VOICES[27].0@[3] != locale[3]);
    assert(DEFAULT_VOICES[28].0@[3] != locale[3]);
    assert(DEFAULT_VOICES[29].0@[3] != locale[3]);
    assert(DEFAULT_VOICES[30].0@[3] != locale[3]);
    assert(DEFAULT_VOICES[31].0@[3] != locale[3]);
    assert(DEFAULT_VOICES[32].0@[3] != locale[3]);
    assert(DEFAULT_VOICES[33].0@[3] != locale[3]);
    assert(DEFAULT_VOICES[34].0@[3] != locale[3]);
    assert(DEFAULT_VOICES[35].0@[3] != locale[3]);
    assert(DEFAULT_VOICES[36].0@[3] != locale[3]);
    assert(DEFAULT_VOICES[37].0@[3] != locale[3]);
    assert(DEFAULT_VOICES[38].0@[3] != locale[3]);
    assert(DEFAULT_VOICES[39].0@ == locale);
    lemma_skip(locale, 0, 39);
}

/// The entries before the first for `locale` do not count.
proof fn lemma_skip(locale: Seq<char>, from: int, to: int)
    requires
        0 <= from <= to <= LOCALES,
        forall|i: int| from <= i < to ==> (#[trigger] DEFAULT_VOICES[i]).0@ != locale,
    ensures
        voice_from(locale, from) == voice_from(locale, to),
    decreases to - from,
{
    if from < to {
        lemma_skip(locale, from + 1, to);
    }
}

/// Returns the default voice for the given locale, such as `en-US`, or
/// nothing for a locale that has none.
pub fn get_default_voice_by_locale(locale: &str) -> (r: Option<&'static str>)
    ensures
        match r {
            Some(voice) => default_voice(locale@) == Some(voice@),
            None => default_voice(locale@) is None,
        },
{
    let wanted = chars_of(locale);
    let mut i: usize = 0;
    while i < LOCALES
        invariant
            i <= LOCALES,
            wanted@ == locale@,
            default_voice(locale@) == voice_from(locale@, i as int),
        decreases LOCALES - i,
    {
        let entry = DEFAULT_VOICES[i];
        if spells(wanted.as_slice(), entry.0) {
            return Some(entry.1);
        }
        i = i + 1;
    }
    None
}

} // verus!

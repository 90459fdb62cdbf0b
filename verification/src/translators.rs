//! The translator catalogue: providers (engines), each owning one API key, and the models
//! they contribute. Everything provider-specific lives in these tables so the layers above
//! stay engine-blind.

use crate::config::{AppConfig, ConfigView};
use crate::credentials::CredentialStore;
use crate::text::{blank, is_blank, push_char, push_str, str_eq};
use vstd::prelude::*;

verus! {

pub open spec fn opt_str(o: Option<&'static str>) -> Option<Seq<char>> {
    match o {
        Some(s) => Some(s@),
        None => None,
    }
}

pub open spec fn str_views(v: Seq<&'static str>) -> Seq<Seq<char>> {
    v.map_values(|s: &'static str| s@)
}

/// Regions the LiveTranslate realtime endpoint is documented in, with the Alibaba Cloud
/// region id behind each stored name.
pub open spec fn spec_qwen_region(name: Seq<char>) -> Option<Seq<char>> {
    if name == "beijing"@ {
        Some("cn-beijing"@)
    } else if name == "singapore"@ {
        Some("ap-southeast-1"@)
    } else {
        None
    }
}

/// The Alibaba Cloud region id behind a stored region name.
pub fn qwen_region(name: &str) -> (r: Option<&'static str>)
    ensures
        opt_str(r) == spec_qwen_region(name@),
{
    if str_eq(name, "beijing") {
        Some("cn-beijing")
    } else if str_eq(name, "singapore") {
        Some("ap-southeast-1")
    } else {
        None
    }
}

/// The providers, in declaration order.
pub open spec fn engine_id_views() -> Seq<Seq<char>> {
    seq!["qwen"@, "soniox"@, "openai"@]
}

pub open spec fn spec_is_known_engine(id: Seq<char>) -> bool {
    engine_id_views().contains(id)
}

/// Providers in declaration order; the credential store enumerates from here rather than
/// keeping its own list.
pub fn engine_ids() -> (r: Vec<&'static str>)
    ensures
        str_views(r@) == engine_id_views(),
{
    let v = vec!["qwen", "soniox", "openai"];
    proof {
        assert(str_views(v@) =~= engine_id_views());
    }
    v
}

pub fn default_engine() -> (r: &'static str)
    ensures
        r@ == engine_id_views()[0],
{
    "qwen"
}

pub fn is_known_engine(id: &str) -> (r: bool)
    ensures
        r == spec_is_known_engine(id@),
{
    let r = str_eq(id, "qwen") || str_eq(id, "soniox") || str_eq(id, "openai");
    proof {
        if r {
            if id@ == "qwen"@ {
                assert(engine_id_views()[0] == id@);
            } else if id@ == "soniox"@ {
                assert(engine_id_views()[1] == id@);
            } else {
                assert(engine_id_views()[2] == id@);
            }
        }
    }
    r
}

/// The one Qwen model still served.
pub open spec fn qwen_model() -> Seq<char> {
    "qwen3.5-livetranslate-flash-realtime"@
}

pub open spec fn soniox_model() -> Seq<char> {
    "stt-rt-v5"@
}

pub open spec fn openai_model() -> Seq<char> {
    "gpt-realtime-translate"@
}

/// The engine that owns a model's API key, looked up in the table of models in order.
pub open spec fn spec_engine_of(model: Seq<char>) -> Option<Seq<char>> {
    if model == qwen_model() {
        Some("qwen"@)
    } else if model == soniox_model() {
        Some("soniox"@)
    } else if model == openai_model() {
        Some("openai"@)
    } else {
        None
    }
}

pub fn engine_of(model: &str) -> (r: Option<&'static str>)
    ensures
        opt_str(r) == spec_engine_of(model@),
{
    if str_eq(model, "qwen3.5-livetranslate-flash-realtime") {
        Some("qwen")
    } else if str_eq(model, "stt-rt-v5") {
        Some("soniox")
    } else if str_eq(model, "gpt-realtime-translate") {
        Some("openai")
    } else {
        None
    }
}

/// The model a route falls back to when its stored one has been retired: the first model
/// of its engine, or nothing.
pub open spec fn spec_default_model(engine: Seq<char>) -> Seq<char> {
    if engine == "qwen"@ {
        qwen_model()
    } else if engine == "soniox"@ {
        soniox_model()
    } else if engine == "openai"@ {
        openai_model()
    } else {
        Seq::empty()
    }
}

pub fn default_model(engine: &str) -> (r: &'static str)
    ensures
        r@ == spec_default_model(engine@),
{
    if str_eq(engine, "qwen") {
        "qwen3.5-livetranslate-flash-realtime"
    } else if str_eq(engine, "soniox") {
        "stt-rt-v5"
    } else if str_eq(engine, "openai") {
        "gpt-realtime-translate"
    } else {
        proof {
            reveal_strlit("");
        }
        ""
    }
}

/// The 13 languages GPT Realtime Translate can translate into. Its input side accepts more,
/// but a route needs both ends, so the narrower set governs.
pub open spec fn openai_languages() -> Seq<Seq<char>> {
    seq![
        "zh"@, "en"@, "fr"@, "de"@, "hi"@, "id"@, "it"@, "ja"@, "ko"@, "pt"@, "ru"@, "es"@,
        "vi"@,
    ]
}

/// Soniox transcribes and translates across one shared ISO 639-1 set.
pub open spec fn soniox_languages() -> Seq<Seq<char>> {
    seq![
        "af"@, "ar"@, "az"@, "be"@, "bg"@, "bn"@, "bs"@, "ca"@, "cs"@, "da"@, "de"@, "el"@,
        "en"@, "es"@, "et"@, "fa"@, "fi"@, "fr"@, "gl"@, "gu"@, "he"@, "hi"@, "hr"@, "hu"@,
        "id"@, "it"@, "ja"@, "jv"@, "kk"@, "kn"@, "ko"@, "ky"@, "lv"@, "mk"@, "ml"@, "mr"@,
        "ms"@, "nl"@, "pa"@, "pl"@, "pt"@, "ro"@, "ru"@, "sk"@, "sl"@, "sv"@, "sw"@, "ta"@,
        "te"@, "tg"@, "th"@, "tl"@, "tr"@, "uk"@, "ur"@, "vi"@, "zh"@,
    ]
}

fn openai_language_list() -> (r: Vec<&'static str>)
    ensures
        str_views(r@) == openai_languages(),
{
    let v = vec!["zh", "en", "fr", "de", "hi", "id", "it", "ja", "ko", "pt", "ru", "es", "vi"];
    proof {
        assert(str_views(v@) =~= openai_languages());
    }
    v
}

fn soniox_language_list() -> (r: Vec<&'static str>)
    ensures
        str_views(r@) == soniox_languages(),
{
    let v = vec![
        "af", "ar", "az", "be", "bg", "bn", "bs", "ca", "cs", "da", "de", "el", "en", "es",
        "et", "fa", "fi", "fr", "gl", "gu", "he", "hi", "hr", "hu", "id", "it", "ja", "jv",
        "kk", "kn", "ko", "ky", "lv", "mk", "ml", "mr", "ms", "nl", "pa", "pl", "pt", "ro",
        "ru", "sk", "sl", "sv", "sw", "ta", "te", "tg", "th", "tl", "tr", "uk", "ur", "vi",
        "zh",
    ];
    proof {
        assert(str_views(v@) =~= soniox_languages());
    }
    v
}

fn listed(list: &Vec<&'static str>, language: &str) -> (r: bool)
    ensures
        r == str_views(list@).contains(language@),
{
    let mut i: usize = 0;
    while i < list.len()
        invariant
            0 <= i <= list@.len(),
            forall|j: int| 0 <= j < i ==> str_views(list@)[j] != language@,
        decreases list@.len() - i,
    {
        if str_eq(list[i], language) {
            proof {
                assert(str_views(list@)[i as int] == language@);
            }
            return true;
        }
        i = i + 1;
    }
    false
}

/// Whether a model handles a language; an unknown model handles none, and Qwen takes any.
pub open spec fn spec_supports_language(model: Seq<char>, language: Seq<char>) -> bool {
    if model == qwen_model() {
        true
    } else if model == soniox_model() {
        soniox_languages().contains(language)
    } else if model == openai_model() {
        openai_languages().contains(language)
    } else {
        false
    }
}

pub fn supports_language(model: &str, language: &str) -> (r: bool)
    ensures
        r == spec_supports_language(model@, language@),
{
    if str_eq(model, "qwen3.5-livetranslate-flash-realtime") {
        true
    } else if str_eq(model, "stt-rt-v5") {
        listed(&soniox_language_list(), language)
    } else if str_eq(model, "gpt-realtime-translate") {
        listed(&openai_language_list(), language)
    } else {
        false
    }
}

/// Why a route cannot run as configured, if anything. The picker lets the user pass
/// through invalid combinations, so the check lives here instead.
pub open spec fn spec_route_config_error(
    model: Seq<char>,
    source_language: Seq<char>,
    target_language: Seq<char>,
) -> Option<Seq<char>> {
    if source_language == target_language {
        Some("invalidLanguagePair"@)
    } else if !spec_supports_language(model, source_language) || !spec_supports_language(
        model,
        target_language,
    ) {
        Some("unsupportedLanguage"@)
    } else {
        None
    }
}

pub fn route_config_error(model: &str, source_language: &str, target_language: &str) -> (r:
    Option<&'static str>)
    ensures
        opt_str(r) == spec_route_config_error(model@, source_language@, target_language@),
{
    if str_eq(source_language, target_language) {
        return Some("invalidLanguagePair");
    }
    if !supports_language(model, source_language) || !supports_language(model, target_language) {
        return Some("unsupportedLanguage");
    }
    None
}

/// The provider-owned settings that force a session rebuild when they change. Two routes
/// whose fingerprints match can keep their websockets across a settings change; the unit
/// separator keeps adjacent fields from running into each other.
pub open spec fn spec_settings_fingerprint(id: Seq<char>, c: ConfigView) -> Seq<char> {
    if id == "qwen"@ {
        c.qwen_region + seq!['\u{1f}'] + c.qwen_workspace_id
    } else {
        Seq::empty()
    }
}

pub fn settings_fingerprint(id: &str, config: &AppConfig) -> (r: String)
    ensures
        r@ == spec_settings_fingerprint(id@, config@),
{
    if str_eq(id, "qwen") {
        let mut out = config.qwen.region.clone();
        push_char(&mut out, '\u{1f}');
        push_str(&mut out, config.qwen.workspace_id.as_str());
        out
    } else {
        String::new()
    }
}

/// The notice code that blocks a start on an engine: an unknown engine is treated as
/// unusable rather than allowed through, Qwen needs a workspace, and every engine needs a
/// key.
pub open spec fn spec_start_blocker(
    id: Seq<char>,
    c: ConfigView,
    credentials: CredentialStore,
) -> Option<Seq<char>> {
    if !spec_is_known_engine(id) {
        Some("missingCredential"@)
    } else if id == "qwen"@ && is_blank(c.qwen_workspace_id) {
        Some("workspaceRequired"@)
    } else if !credentials.holds(id) {
        Some("missingCredential"@)
    } else {
        None
    }
}

pub fn start_blocker(id: &str, config: &AppConfig, credentials: &CredentialStore) -> (r: Option<
    &'static str,
>)
    ensures
        opt_str(r) == spec_start_blocker(id@, config@, *credentials),
{
    if !is_known_engine(id) {
        return Some("missingCredential");
    }
    if str_eq(id, "qwen") && blank(config.qwen.workspace_id.as_str()) {
        return Some("workspaceRequired");
    }
    if !credentials.has(id) {
        return Some("missingCredential");
    }
    None
}

/// An engine nobody recognises can never start.
pub proof fn law_unknown_engine_never_starts(
    id: Seq<char>,
    c: ConfigView,
    credentials: CredentialStore,
)
    requires
        !spec_is_known_engine(id),
    ensures
        spec_start_blocker(id, c, credentials) is Some,
{
}

/// Qwen's workspace requirement never leaks onto another engine: a known engine other than
/// Qwen is blocked exactly when it holds no key.
pub proof fn law_workspace_is_qwen_only(id: Seq<char>, c: ConfigView, credentials: CredentialStore)
    requires
        spec_is_known_engine(id),
        id != "qwen"@,
    ensures
        spec_start_blocker(id, c, credentials) is None <==> credentials.holds(id),
{
}

/// The models in catalogue order.
pub open spec fn model_views() -> Seq<Seq<char>> {
    seq![qwen_model(), soniox_model(), openai_model()]
}

/// The engine of each model, in catalogue order.
pub open spec fn model_engine_views() -> Seq<Seq<char>> {
    seq!["qwen"@, "soniox"@, "openai"@]
}

/// The catalogue of models, each with the engine that owns it, in order.
pub fn translator_models() -> (r: Vec<(&'static str, &'static str)>)
    ensures
        r@.len() == model_views().len(),
        forall|i: int| 0 <= i < r@.len() ==> r@[i].0@ == model_views()[i] && r@[i].1@ == model_engine_views()[i],
{
    let r = vec![
        ("qwen3.5-livetranslate-flash-realtime", "qwen"),
        ("stt-rt-v5", "soniox"),
        ("gpt-realtime-translate", "openai"),
    ];
    r
}

proof fn lemma_catalogue_literals()
    ensures
        qwen_model().len() == 36,
        soniox_model().len() == 9,
        openai_model().len() == 22,
        "qwen"@.len() == 4,
        "soniox"@.len() == 6,
        "openai"@.len() == 6,
        "qwen"@ != "soniox"@,
        "qwen"@ != "openai"@,
        "soniox"@ != "openai"@,
{
    reveal_strlit("qwen3.5-livetranslate-flash-realtime");
    reveal_strlit("stt-rt-v5");
    reveal_strlit("gpt-realtime-translate");
    reveal_strlit("qwen");
    reveal_strlit("soniox");
    reveal_strlit("openai");
    assert("soniox"@[0] != "openai"@[0]);
}

/// Every model id resolves to the engine that lists it, and that engine is known: a
/// duplicate id would resolve to the earlier entry instead.
pub proof fn law_models_dispatch_to_their_engine(i: int)
    requires
        0 <= i < model_views().len(),
    ensures
        spec_engine_of(model_views()[i]) == Some(model_engine_views()[i]),
        spec_is_known_engine(model_engine_views()[i]),
{
    lemma_catalogue_literals();
    assert(engine_id_views()[i] == model_engine_views()[i]);
}

/// Every engine offers a model, so a route that selects one always has something to dial,
/// and that model belongs to the engine.
pub proof fn law_every_engine_offers_a_model(i: int)
    requires
        0 <= i < engine_id_views().len(),
    ensures
        spec_default_model(engine_id_views()[i]).len() > 0,
        spec_engine_of(spec_default_model(engine_id_views()[i])) == Some(engine_id_views()[i]),
{
    lemma_catalogue_literals();
}

/// A model nobody recognises does not fall through to the "accepts any language" case:
/// every route on it is refused.
pub proof fn law_unknown_models_support_nothing(model: Seq<char>, source: Seq<char>, target: Seq<char>)
    requires
        spec_engine_of(model) is None,
        source != target,
    ensures
        spec_route_config_error(model, source, target) == Some("unsupportedLanguage"@),
{
}

/// Which languages each translator model takes, over every language code: Qwen takes
/// any; Soniox exactly its ISO 639-1 set, which holds every language OpenAI's model takes
/// and more besides (Dutch among them); OpenAI's model exactly its thirteen; and a model
/// nobody serves takes none.
pub proof fn law_each_model_takes_its_own_languages(model: Seq<char>, l: Seq<char>)
    ensures
        spec_supports_language("qwen3.5-livetranslate-flash-realtime"@, l),
        spec_supports_language("stt-rt-v5"@, l) <==> seq![
            "af"@, "ar"@, "az"@, "be"@, "bg"@, "bn"@, "bs"@, "ca"@, "cs"@, "da"@, "de"@, "el"@,
            "en"@, "es"@, "et"@, "fa"@, "fi"@, "fr"@, "gl"@, "gu"@, "he"@, "hi"@, "hr"@, "hu"@,
            "id"@, "it"@, "ja"@, "jv"@, "kk"@, "kn"@, "ko"@, "ky"@, "lv"@, "mk"@, "ml"@, "mr"@,
            "ms"@, "nl"@, "pa"@, "pl"@, "pt"@, "ro"@, "ru"@, "sk"@, "sl"@, "sv"@, "sw"@, "ta"@,
            "te"@, "tg"@, "th"@, "tl"@, "tr"@, "uk"@, "ur"@, "vi"@, "zh"@,
        ].contains(l),
        spec_supports_language("gpt-realtime-translate"@, l) <==> seq![
            "zh"@, "en"@, "fr"@, "de"@, "hi"@, "id"@, "it"@, "ja"@, "ko"@, "pt"@, "ru"@, "es"@,
            "vi"@,
        ].contains(l),
        spec_supports_language("gpt-realtime-translate"@, l) ==> spec_supports_language("stt-rt-v5"@, l),
        spec_supports_language("stt-rt-v5"@, "nl"@) && !spec_supports_language("gpt-realtime-translate"@, "nl"@),
        model != "qwen3.5-livetranslate-flash-realtime"@ && model != "stt-rt-v5"@ && model
            != "gpt-realtime-translate"@ ==> !spec_supports_language(model, l),
{
    reveal_strlit("qwen3.5-livetranslate-flash-realtime");
    reveal_strlit("stt-rt-v5");
    reveal_strlit("gpt-realtime-translate");
    assert("qwen3.5-livetranslate-flash-realtime"@.len() == 36);
    assert("stt-rt-v5"@.len() == 9);
    assert("gpt-realtime-translate"@.len() == 22);
    assert(soniox_languages()[56] == openai_languages()[0]);
    assert(soniox_languages().contains(openai_languages()[0]));
    assert(soniox_languages()[12] == openai_languages()[1]);
    assert(soniox_languages().contains(openai_languages()[1]));
    assert(soniox_languages()[17] == openai_languages()[2]);
    assert(soniox_languages().contains(openai_languages()[2]));
    assert(soniox_languages()[10] == openai_languages()[3]);
    assert(soniox_languages().contains(openai_languages()[3]));
    assert(soniox_languages()[21] == openai_languages()[4]);
    assert(soniox_languages().contains(openai_languages()[4]));
    assert(soniox_languages()[24] == openai_languages()[5]);
    assert(soniox_languages().contains(openai_languages()[5]));
    assert(soniox_languages()[25] == openai_languages()[6]);
    assert(soniox_languages().contains(openai_languages()[6]));
    assert(soniox_languages()[26] == openai_languages()[7]);
    assert(soniox_languages().contains(openai_languages()[7]));
    assert(soniox_languages()[30] == openai_languages()[8]);
    assert(soniox_languages().contains(openai_languages()[8]));
    assert(soniox_languages()[40] == openai_languages()[9]);
    assert(soniox_languages().contains(openai_languages()[9]));
    assert(soniox_languages()[42] == openai_languages()[10]);
    assert(soniox_languages().contains(openai_languages()[10]));
    assert(soniox_languages()[13] == openai_languages()[11]);
    assert(soniox_languages().contains(openai_languages()[11]));
    assert(soniox_languages()[55] == openai_languages()[12]);
    assert(soniox_languages().contains(openai_languages()[12]));
    assert(soniox_languages()[37] == "nl"@);
    if openai_languages().contains(l) {
        let j = choose|j: int| 0 <= j < openai_languages().len() && openai_languages()[j] == l;
        assert(soniox_languages().contains(openai_languages()[j]));
    }
    if openai_languages().contains("nl"@) {
        let j = choose|j: int| 0 <= j < openai_languages().len() && openai_languages()[j] == "nl"@;
        reveal_strlit("nl");
        reveal_strlit("zh");
        reveal_strlit("en");
        reveal_strlit("fr");
        reveal_strlit("de");
        reveal_strlit("hi");
        reveal_strlit("id");
        reveal_strlit("it");
        reveal_strlit("ja");
        reveal_strlit("ko");
        reveal_strlit("pt");
        reveal_strlit("ru");
        reveal_strlit("es");
        reveal_strlit("vi");
        assert("nl"@[0] == 'n');
        assert(openai_languages()[j][0] != 'n');
    }
}

} // verus!

//! User settings: privacy switches, the hints shown in the interface, and
//! the stored settings of the AI services.
use vstd::prelude::*;
use crate::text::{append, cat, is_blank, is_blank_spec, lowercase, owned, to_lowercase, trim, trim_spec};

verus! {

/// What the user allows to leave the machine.
#[derive(Clone, Debug)]
pub struct PrivacySettings {
    pub local_only_recommendation: bool,
    pub disable_web_search: bool,
    pub do_not_send_full_text: bool,
    pub ai_title_abstract_only: bool,
}

impl Default for PrivacySettings {
    /// Every switch off.
    fn default() -> (r: Self)
        ensures
            !r.local_only_recommendation,
            !r.disable_web_search,
            !r.do_not_send_full_text,
            !r.ai_title_abstract_only,
    {
        PrivacySettings {
            local_only_recommendation: false,
            disable_web_search: false,
            do_not_send_full_text: false,
            ai_title_abstract_only: false,
        }
    }
}

/// How strongly a hint is shown.
#[derive(PartialEq, Eq, Structural, Clone, Copy, Debug)]
pub enum HintLevel {
    Normal,
    Important,
    Danger,
}

/// A hint shown in the interface.
#[derive(Clone, Debug)]
pub struct UiHint {
    pub level: HintLevel,
    pub text: String,
}

/// The hints shown by default: two important ones about what to record and
/// what AI recommendation sends, and a danger one about backing up first.
pub fn default_hints() -> (r: Vec<UiHint>)
    ensures
        r@.len() == 3,
        r@[0].level == HintLevel::Important,
        r@[0].text@ == "建议写清难度、审稿周期、版面费和拒稿原因；这些内容会影响以后推荐。"@,
        r@[1].level == HintLevel::Important,
        r@[1].text@ == "AI 推荐可能会把题目、摘要或正文节选发送给所选接口。"@,
        r@[2].level == HintLevel::Danger,
        r@[2].text@ == "删除、恢复、导入和同步操作前请确认已备份。"@,
{
    vec![
        UiHint { level: HintLevel::Important, text: owned("建议写清难度、审稿周期、版面费和拒稿原因；这些内容会影响以后推荐。") },
        UiHint { level: HintLevel::Important, text: owned("AI 推荐可能会把题目、摘要或正文节选发送给所选接口。") },
        UiHint { level: HintLevel::Danger, text: owned("删除、恢复、导入和同步操作前请确认已备份。") },
    ]
}

/// The settings of one AI service.
#[derive(Clone, Debug)]
pub struct AiSettingsRecord {
    pub service_key: String,
    pub base_url: String,
    pub model: String,
    pub api_key: String,
    pub api_key_hint: String,
}

/// The key of a service: trimmed and lower-cased; "openrouter" when blank.
pub open spec fn service_key_spec(v: Seq<char>) -> Seq<char> {
    let k = lowercase(trim_spec(v));
    if k.len() == 0 { "openrouter"@ } else { k }
}

/// Normalises the key of an AI service.
pub fn normalize_service_key(value: &str) -> (r: String)
    ensures
        r@ == service_key_spec(value@),
{
    let t = trim(value);
    let key = to_lowercase(t.as_str());
    if key.as_str().is_empty() { owned("openrouter") } else { key }
}

/// The name under which a setting of a service is stored:
/// `ai.<service>.<suffix>`.
pub open spec fn setting_key(service: Seq<char>, suffix: Seq<char>) -> Seq<char> {
    "ai."@ + service + "."@ + suffix
}

fn make_setting_key(service: &str, suffix: &str) -> (r: String)
    ensures
        r@ == setting_key(service@, suffix@),
{
    let mut k = cat("ai.", service);
    append(&mut k, ".");
    append(&mut k, suffix);
    k
}

/// One setting to store.
#[derive(Clone, Debug)]
pub struct SettingWrite {
    pub key: String,
    pub value: String,
    pub is_secret: bool,
}

/// The settings that saving a service's record writes: its base URL and
/// model, trimmed, and, when an API key was entered, the protected key as a
/// secret.
pub open spec fn settings_to_write(r: AiSettingsRecord, protected_key: Seq<char>) -> Seq<(Seq<char>, Seq<char>, bool)> {
    let service = service_key_spec(r.service_key@);
    seq![
        (setting_key(service, "base_url"@), trim_spec(r.base_url@), false),
        (setting_key(service, "model"@), trim_spec(r.model@), false),
    ] + if is_blank_spec(r.api_key@) {
        seq![]
    } else {
        seq![(setting_key(service, "api_key.dpapi"@), protected_key, true)]
    }
}

/// The plain values of a list of settings to write.
pub open spec fn write_views(w: Seq<SettingWrite>) -> Seq<(Seq<char>, Seq<char>, bool)> {
    w.map_values(|s: SettingWrite| (s.key@, s.value@, s.is_secret))
}

/// What saving a service's settings writes, and the service key under which
/// the record is read back. The API key is protected by the caller.
pub fn save_ai_settings(record: &AiSettingsRecord, protected_key: &str) -> (r: (String, Vec<SettingWrite>))
    ensures
        r.0@ == service_key_spec(record.service_key@),
        write_views(r.1@) == settings_to_write(*record, protected_key@),
{
    let service = normalize_service_key(record.service_key.as_str());
    let mut writes: Vec<SettingWrite> = Vec::new();
    writes.push(SettingWrite {
        key: make_setting_key(service.as_str(), "base_url"),
        value: trim(record.base_url.as_str()),
        is_secret: false,
    });
    writes.push(SettingWrite {
        key: make_setting_key(service.as_str(), "model"),
        value: trim(record.model.as_str()),
        is_secret: false,
    });
    if !is_blank(record.api_key.as_str()) {
        writes.push(SettingWrite {
            key: make_setting_key(service.as_str(), "api_key.dpapi"),
            value: owned(protected_key),
            is_secret: true,
        });
    }
    assert(write_views(writes@) =~= settings_to_write(*record, protected_key@));
    (service, writes)
}

/// What is stored for a service, as read back.
#[derive(Clone, Debug)]
pub struct StoredAiSettings {
    pub base_url: Option<String>,
    pub model: Option<String>,
    /// The API key, already unprotected; `None` when none is stored or it
    /// could not be unprotected.
    pub api_key: Option<String>,
}

/// The value stored, or the default.
pub open spec fn stored_or(v: Option<String>, default: Seq<char>) -> Seq<char> {
    match v {
        Some(s) => s@,
        None => default,
    }
}

/// A service's settings as read back: stored values where present, the
/// service's defaults otherwise, no key when none is stored; the key's
/// masked hint is made by the caller.
pub fn load_ai_settings(
    service_key: &str,
    stored: &StoredAiSettings,
    default_base_url: &str,
    default_model: &str,
    api_key_hint: &str,
) -> (r: AiSettingsRecord)
    ensures
        r.service_key@ == service_key_spec(service_key@),
        r.base_url@ == stored_or(stored.base_url, default_base_url@),
        r.model@ == stored_or(stored.model, default_model@),
        r.api_key@ == stored_or(stored.api_key, seq![]),
        r.api_key_hint@ == api_key_hint@,
{
    let service = normalize_service_key(service_key);
    let base_url = match &stored.base_url {
        Some(v) => owned(v.as_str()),
        None => owned(default_base_url),
    };
    let model = match &stored.model {
        Some(v) => owned(v.as_str()),
        None => owned(default_model),
    };
    let api_key = match &stored.api_key {
        Some(v) => owned(v.as_str()),
        None => String::new(),
    };
    AiSettingsRecord { service_key: service, base_url, model, api_key, api_key_hint: owned(api_key_hint) }
}

// ---------------------------------------------------------------------------
// Saved settings read back
// ---------------------------------------------------------------------------

/// The settings store after the writes, in order: each write sets its key.
pub open spec fn apply_writes(store: Map<Seq<char>, Seq<char>>, w: Seq<(Seq<char>, Seq<char>, bool)>) -> Map<Seq<char>, Seq<char>>
    decreases w.len(),
{
    if w.len() == 0 {
        store
    } else {
        apply_writes(store.insert(w[0].0, w[0].1), w.drop_first())
    }
}

/// The value a store holds for a key, if any.
pub open spec fn read_setting(store: Map<Seq<char>, Seq<char>>, key: Seq<char>) -> Option<Seq<char>> {
    if store.dom().contains(key) { Some(store[key]) } else { None }
}

proof fn lemma_setting_keys_differ(service: Seq<char>)
    ensures
        setting_key(service, "base_url"@) != setting_key(service, "model"@),
        setting_key(service, "base_url"@) != setting_key(service, "api_key.dpapi"@),
        setting_key(service, "model"@) != setting_key(service, "api_key.dpapi"@),
{
    reveal_strlit("base_url");
    reveal_strlit("model");
    reveal_strlit("api_key.dpapi");
    assert(setting_key(service, "base_url"@).len() != setting_key(service, "model"@).len());
    assert(setting_key(service, "base_url"@).len() != setting_key(service, "api_key.dpapi"@).len());
    assert(setting_key(service, "model"@).len() != setting_key(service, "api_key.dpapi"@).len());
}

/// Saved settings are read back: after the writes of saving a record, the
/// service's base URL and model read as the record's, trimmed; its API key
/// reads as the protected key when one was entered, and as before when none
/// was; no other setting changes.
pub proof fn saved_settings_read_back(r: AiSettingsRecord, protected_key: Seq<char>, store: Map<Seq<char>, Seq<char>>)
    ensures
        ({
            let service = service_key_spec(r.service_key@);
            let after = apply_writes(store, settings_to_write(r, protected_key));
            &&& read_setting(after, setting_key(service, "base_url"@)) == Some(trim_spec(r.base_url@))
            &&& read_setting(after, setting_key(service, "model"@)) == Some(trim_spec(r.model@))
            &&& read_setting(after, setting_key(service, "api_key.dpapi"@)) == (if is_blank_spec(r.api_key@) {
                read_setting(store, setting_key(service, "api_key.dpapi"@))
            } else {
                Some(protected_key)
            })
            &&& forall|k: Seq<char>|
                k != setting_key(service, "base_url"@) && k != setting_key(service, "model"@) && k != setting_key(
                    service,
                    "api_key.dpapi"@,
                ) ==> #[trigger] read_setting(after, k) == read_setting(store, k)
        }),
{
    let service = service_key_spec(r.service_key@);
    let kb = setting_key(service, "base_url"@);
    let km = setting_key(service, "model"@);
    let kk = setting_key(service, "api_key.dpapi"@);
    lemma_setting_keys_differ(service);
    let w = settings_to_write(r, protected_key);
    let s1 = store.insert(kb, trim_spec(r.base_url@));
    let s2 = s1.insert(km, trim_spec(r.model@));
    assert(w[0] == (kb, trim_spec(r.base_url@), false));
    assert(w.drop_first()[0] == (km, trim_spec(r.model@), false));
    assert(apply_writes(store, w) == apply_writes(s1, w.drop_first()));
    assert(apply_writes(s1, w.drop_first()) == apply_writes(s2, w.drop_first().drop_first()));
    if is_blank_spec(r.api_key@) {
        assert(w.drop_first().drop_first() =~= Seq::<(Seq<char>, Seq<char>, bool)>::empty());
        assert(apply_writes(store, w) == s2);
    } else {
        let s3 = s2.insert(kk, protected_key);
        let rest = w.drop_first().drop_first();
        assert(rest[0] == (kk, protected_key, true));
        assert(rest.drop_first() =~= Seq::<(Seq<char>, Seq<char>, bool)>::empty());
        assert(apply_writes(s2, rest) == apply_writes(s3, rest.drop_first()));
        assert(apply_writes(store, w) == s3);
    }
}

} // verus!

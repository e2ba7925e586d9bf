//! Settings as they come back from `settings.json`: old default models are replaced and the
//! AI wait is brought into range.
use vstd::prelude::*;
use crate::state::{clamp_wait, normalize_ai_wait_ms, ProviderSettings, default_model};
use crate::text::{is_blank, str_is_blank};

verus! {

/// The current fast default model.
pub const FAST_DEFAULT_MODEL: &'static str = "x-ai/grok-4.1-fast";

/// The default model before the current one.
pub const PREVIOUS_FAST_DEFAULT_MODEL: &'static str = "google/gemini-2.5-flash-lite";

/// The first default model.
pub const LEGACY_DEFAULT_MODEL: &'static str = "qwen/qwen2.5-vl-72b-instruct";

/// The model that a stored model becomes: blank and former default models become the
/// current default.
pub open spec fn migrated_model(model: Seq<char>) -> Seq<char> {
    if is_blank(model) || model == LEGACY_DEFAULT_MODEL@ || model == PREVIOUS_FAST_DEFAULT_MODEL@ {
        FAST_DEFAULT_MODEL@
    } else {
        model
    }
}

fn same_str(a: &str, b: &str) -> (r: bool)
    ensures
        r == (a@ == b@),
{
    String::from_str(a) == String::from_str(b)
}

/// Replaces blank and former default models by the current default and brings the AI wait
/// into range.
pub fn migrate_legacy_defaults(settings: &mut ProviderSettings)
    ensures
        final(settings).model@ == migrated_model(old(settings).model@),
        final(settings).max_ai_wait_ms == clamp_wait(old(settings).max_ai_wait_ms),
        final(settings).base_url@ == old(settings).base_url@,
        final(settings).translation_enabled == old(settings).translation_enabled,
        final(settings).debug_logging_enabled == old(settings).debug_logging_enabled,
{
    if str_is_blank(settings.model.as_str()) || same_str(settings.model.as_str(), LEGACY_DEFAULT_MODEL)
        || same_str(settings.model.as_str(), PREVIOUS_FAST_DEFAULT_MODEL) {
        settings.model = String::from_str(FAST_DEFAULT_MODEL);
    }
    settings.max_ai_wait_ms = normalize_ai_wait_ms(settings.max_ai_wait_ms);
}

/// The settings in use after reading `settings.json` (`None` when it could not be read or
/// parsed, which gives the defaults), and whether the migrated model must be written back.
pub fn load_settings(stored: Option<ProviderSettings>) -> (r: (ProviderSettings, bool))
    ensures
        match stored {
            Some(s) => {
                &&& r.0.model@ == migrated_model(s.model@)
                &&& r.0.max_ai_wait_ms == clamp_wait(s.max_ai_wait_ms)
                &&& r.0.base_url@ == s.base_url@
                &&& r.0.translation_enabled == s.translation_enabled
                &&& r.0.debug_logging_enabled == s.debug_logging_enabled
                &&& r.1 == (migrated_model(s.model@) != s.model@)
            },
            None => r.0.is_default() && !r.1,
        },
{
    let mut settings = match stored {
        Some(s) => s,
        None => ProviderSettings::default(),
    };
    let original_model = settings.model.clone();
    migrate_legacy_defaults(&mut settings);
    proof {
        reveal_strlit("x-ai/grok-4.1-fast");
        reveal_strlit("qwen/qwen2.5-vl-72b-instruct");
        reveal_strlit("google/gemini-2.5-flash-lite");
        assert(FAST_DEFAULT_MODEL@ == default_model());
        assert(!is_blank(default_model())) by {
            assert(default_model()[0] == 'x');
            assert(crate::text::trim_front(default_model()) == default_model());
            assert(crate::text::trim_back(default_model()).len() > 0) by {
                let m = default_model();
                assert(m.last() == 't');
            }
        }
    }
    let changed = !(settings.model == original_model);
    (settings, changed)
}

/// Migrating stored settings twice gives what migrating them once gives.
pub proof fn migration_is_idempotent(model: Seq<char>, wait: u64)
    ensures
        migrated_model(migrated_model(model)) == migrated_model(model),
        clamp_wait(clamp_wait(wait)) == clamp_wait(wait),
{
    proof_model_fixed();
}

proof fn proof_model_fixed()
    ensures
        migrated_model(FAST_DEFAULT_MODEL@) == FAST_DEFAULT_MODEL@,
        !is_blank(FAST_DEFAULT_MODEL@),
        FAST_DEFAULT_MODEL@ != LEGACY_DEFAULT_MODEL@,
        FAST_DEFAULT_MODEL@ != PREVIOUS_FAST_DEFAULT_MODEL@,
{
    reveal_strlit("x-ai/grok-4.1-fast");
    reveal_strlit("qwen/qwen2.5-vl-72b-instruct");
    reveal_strlit("google/gemini-2.5-flash-lite");
    let m = FAST_DEFAULT_MODEL@;
    assert(m[0] == 'x');
    assert(m.last() == 't');
    assert(crate::text::trim_front(m) == m);
    assert(crate::text::trim_back(m) == m);
    assert(m != LEGACY_DEFAULT_MODEL@) by {
        assert(LEGACY_DEFAULT_MODEL@[0] == 'q');
    }
    assert(m != PREVIOUS_FAST_DEFAULT_MODEL@) by {
        assert(PREVIOUS_FAST_DEFAULT_MODEL@[0] == 'g');
    }
}

/// A migrated model is never blank and never a former default.
pub proof fn migrated_model_is_current(model: Seq<char>)
    ensures
        !is_blank(migrated_model(model)),
        migrated_model(model) != LEGACY_DEFAULT_MODEL@,
        migrated_model(model) != PREVIOUS_FAST_DEFAULT_MODEL@,
{
    proof_model_fixed();
}

/// Settings saved with a model in use (not blank, not a former default) and a wait in the
/// accepted range come back unchanged when loaded, and need no write-back.
pub proof fn saved_settings_load_unchanged(model: Seq<char>, wait: u64)
    requires
        !is_blank(model),
        model != LEGACY_DEFAULT_MODEL@,
        model != PREVIOUS_FAST_DEFAULT_MODEL@,
        crate::state::MIN_AI_WAIT_MS <= wait <= crate::state::MAX_AI_WAIT_MS,
    ensures
        migrated_model(model) == model,
        clamp_wait(wait) == wait,
{
}

} // verus!

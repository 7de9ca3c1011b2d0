//! What errors say.

use crate::config::ConfigError;
use crate::dlq::DlqError;
use crate::effects::EffectError;
use crate::router::RouterError;
use crate::text::decimal;
use vstd::prelude::*;

verus! {

/// An error of a configuration says what could not be done, and why.
pub proof fn lemma_what_config_errors_say(detail: String)
    ensures
        ConfigError::ReadError(detail).text() == "Failed to read config file: "@ + detail@,
        ConfigError::ParseError(detail).text() == "Failed to parse TOML: "@ + detail@,
        ConfigError::ValidationError(detail).text() == "Validation error: "@ + detail@,
        ConfigError::MissingField(detail).text() == "Missing required field: "@ + detail@,
{
}

/// An error of the dead letter queue says what failed, and why.
pub proof fn lemma_what_queue_errors_say(detail: String)
    ensures
        DlqError::ConnectionError(detail).text() == "Redis connection error: "@ + detail@,
        DlqError::RedisError(detail).text() == "Redis command error: "@ + detail@,
        DlqError::SerializationError(detail).text() == "Serialization error: "@ + detail@,
{
}

/// An error of an effect says what failed, and why; that of a dispatch names the effect,
/// or says how many failed.
pub proof fn lemma_what_effect_errors_say(
    ms: u64,
    detail: String,
    effect_name: String,
    source: EffectError,
    errors: Vec<RouterError>,
)
    ensures
        EffectError::Timeout(ms).text() == "effect timed out after "@ + decimal(ms as nat) + "ms"@,
        EffectError::Http(detail).text() == "HTTP error: "@ + detail@,
        EffectError::Serialization(detail).text() == "serialization error: "@ + detail@,
        EffectError::Failed(detail).text() == "effect failed: "@ + detail@,
        (RouterError::EffectFailed { effect_name, source }).text() == "effect '"@ + effect_name@
            + "' failed: "@ + source.text(),
        RouterError::MultipleFailures(errors).text() == decimal(errors@.len())
            + " effects failed during dispatch"@,
{
}

} // verus!

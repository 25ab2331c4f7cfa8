//! Reading a workload's interface configuration.
//!
//! A value is trimmed, and a blank one counts as missing. Every message names
//! the key at fault, because it is what a failed deploy shows.

use vstd::prelude::*;
use vstd::string::*;

use crate::number;
use crate::text;

verus! {

/// How long a call may run by default, in milliseconds.
pub const DEFAULT_TIMEOUT_MS: u32 = 30_000;

/// The contents of a configuration.
pub open spec fn pairs(config: Seq<(String, String)>) -> Seq<(Seq<char>, Seq<char>)> {
    Seq::new(config.len(), |i: int| (config[i].0@, config[i].1@))
}

/// The value of the first pair under a key.
pub open spec fn first_value(config: Seq<(Seq<char>, Seq<char>)>, key: Seq<char>) -> Option<
    Seq<char>,
>
    decreases config.len(),
{
    if config.len() == 0 {
        None
    } else if config[0].0 == key {
        Some(config[0].1)
    } else {
        first_value(config.drop_first(), key)
    }
}

/// What a configuration says for a key: the first value, trimmed, unless it is
/// blank.
pub open spec fn setting(config: Seq<(Seq<char>, Seq<char>)>, key: Seq<char>) -> Option<
    Seq<char>,
> {
    match first_value(config, key) {
        Some(v) => if text::trimmed(v).len() > 0 {
            Some(text::trimmed(v))
        } else {
            None
        },
        None => None,
    }
}

/// What is said about a key that has to be there and is not.
pub open spec fn missing(key: Seq<char>) -> Seq<char> {
    "missing required config key `"@ + key + "`"@
}

/// What a configuration says for a key, or a default.
pub open spec fn setting_or(
    config: Seq<(Seq<char>, Seq<char>)>,
    key: Seq<char>,
    default: Seq<char>,
) -> Seq<char> {
    match setting(config, key) {
        Some(v) => v,
        None => default,
    }
}

/// The time limit that a configuration sets, in milliseconds.
pub open spec fn timeout_in(config: Seq<(Seq<char>, Seq<char>)>) -> Result<u32, Seq<char>> {
    match setting(config, "timeout-ms"@) {
        Some(raw) => match number::unsigned(raw, 10, u32::MAX as nat) {
            Some(ms) => if ms == 0 {
                Err("config key `timeout-ms` must be greater than zero"@)
            } else {
                Ok(ms as u32)
            },
            None => Err(
                "config key `timeout-ms` must be a whole number of milliseconds, got `"@ + raw
                    + "`"@,
            ),
        },
        None => Ok(DEFAULT_TIMEOUT_MS),
    }
}

/// What the configuration says for a key.
pub fn get(config: &[(String, String)], key: &str) -> (r: Option<String>)
    ensures
        text::option_view(r) == setting(pairs(config@), key@),
{
    let ghost all = pairs(config@);
    assert(all.skip(0) =~= all);
    let mut i: usize = 0;
    while i < config.len()
        invariant
            i <= config@.len(),
            all == pairs(config@),
            first_value(all, key@) == first_value(all.skip(i as int), key@),
        decreases config@.len() - i,
    {
        assert(all.skip(i as int)[0] == (config@[i as int].0@, config@[i as int].1@));
        if text::same_text(config[i].0.as_str(), key) {
            let cs = text::chars_of(config[i].1.as_str());
            let value = text::trim(cs.as_slice());
            if value.len() == 0 {
                return None;
            }
            return Some(text::string_of(value));
        }
        assert(all.skip(i as int).drop_first() =~= all.skip(i + 1));
        i += 1;
    }
    None
}

/// What the configuration says for a key that has to be there.
pub fn require(config: &[(String, String)], key: &str) -> (r: Result<String, String>)
    ensures
        match r {
            Ok(v) => setting(pairs(config@), key@) == Some(v@),
            Err(e) => setting(pairs(config@), key@) is None && e@ == missing(key@),
        },
{
    match get(config, key) {
        Some(v) => Ok(v),
        None => Err(text::joined3("missing required config key `", key, "`")),
    }
}

/// What the configuration says for a key, or a default.
pub fn get_or(config: &[(String, String)], key: &str, default: &str) -> (r: String)
    ensures
        r@ == setting_or(pairs(config@), key@, default@),
{
    match get(config, key) {
        Some(v) => v,
        None => default.to_string(),
    }
}

/// The time limit that the configuration sets.
pub fn timeout_ms(config: &[(String, String)]) -> (r: Result<u32, String>)
    ensures
        match r {
            Ok(ms) => timeout_in(pairs(config@)) == Ok::<u32, Seq<char>>(ms) && ms > 0,
            Err(e) => timeout_in(pairs(config@)) == Err::<u32, Seq<char>>(e@),
        },
{
    match get(config, "timeout-ms") {
        Some(raw) => {
            let cs = text::chars_of(raw.as_str());
            match number::parse_unsigned(cs.as_slice(), 10, u32::MAX as u64) {
                Some(ms) => {
                    if ms == 0 {
                        Err("config key `timeout-ms` must be greater than zero".to_string())
                    } else {
                        Ok(ms as u32)
                    }
                },
                None => Err(
                    text::joined3(
                        "config key `timeout-ms` must be a whole number of milliseconds, got `",
                        raw.as_str(),
                        "`",
                    ),
                ),
            }
        },
        None => Ok(DEFAULT_TIMEOUT_MS),
    }
}

/// The first pair under a key decides: its value counts, trimmed, and as missing
/// where it is blank, whatever a later pair says.
pub proof fn lemma_first_value_decides(
    config: Seq<(Seq<char>, Seq<char>)>,
    key: Seq<char>,
    i: int,
)
    requires
        0 <= i < config.len(),
        config[i].0 == key,
        forall|j: int| 0 <= j < i ==> (#[trigger] config[j]).0 != key,
    ensures
        first_value(config, key) == Some(config[i].1),
        text::trimmed(config[i].1).len() > 0 ==> setting(config, key) == Some(
            text::trimmed(config[i].1),
        ),
        text::trimmed(config[i].1).len() == 0 ==> setting(config, key) is None,
    decreases i,
{
    if i > 0 {
        let rest = config.drop_first();
        assert(config[0].0 != key);
        assert(rest[i - 1] == config[i]);
        assert forall|j: int| 0 <= j < i - 1 implies (#[trigger] rest[j]).0 != key by {
            assert(rest[j] == config[j + 1]);
        }
        lemma_first_value_decides(rest, key, i - 1);
    }
}

/// A key that no pair has is not set, and its default stands.
pub proof fn lemma_unset(
    config: Seq<(Seq<char>, Seq<char>)>,
    key: Seq<char>,
    default: Seq<char>,
)
    requires
        forall|j: int| 0 <= j < config.len() ==> (#[trigger] config[j]).0 != key,
    ensures
        first_value(config, key) is None,
        setting(config, key) is None,
        setting_or(config, key, default) == default,
    decreases config.len(),
{
    if config.len() > 0 {
        let rest = config.drop_first();
        assert(config[0].0 != key);
        assert forall|j: int| 0 <= j < rest.len() implies (#[trigger] rest[j]).0 != key by {
            assert(rest[j] == config[j + 1]);
        }
        lemma_unset(rest, key, default);
    }
}

/// A time limit that is set is the one that counts, in milliseconds; thirty
/// seconds stand where none is set; and a limit of zero is refused.
pub proof fn lemma_time_limit_is_the_one_set(config: Seq<(Seq<char>, Seq<char>)>, ms: u32)
    ensures
        setting(config, "timeout-ms"@) is None ==> timeout_in(config) == Ok::<u32, Seq<char>>(
            30_000,
        ),
        setting(config, "timeout-ms"@) == Some(number::decimal(ms as nat)) && ms > 0
            ==> timeout_in(config) == Ok::<u32, Seq<char>>(ms),
        setting(config, "timeout-ms"@) == Some(number::decimal(ms as nat)) && ms == 0
            ==> timeout_in(config) is Err,
        timeout_in(config) matches Ok(limit) ==> limit > 0,
{
    number::lemma_digits_round_trip(ms as nat, 10);
    number::lemma_digits_chars(ms as nat, 10);
    assert(number::digit_value(number::decimal(ms as nat)[0], 10) is Some);
}

} // verus!

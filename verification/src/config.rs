//! Configuration of the service.
//!
//! Every setting has a default; a setting that is given (by the program,
//! from an environment variable of the same name) replaces it, and a
//! numeric setting that does not parse as a number of its type is ignored.
//!
//! | Setting | Default |
//! |---------|---------|
//! | `MQTT_BROKER` | `homeassistant` |
//! | `MQTT_PORT` | `1883` |
//! | `MQTT_USERNAME` | none |
//! | `MQTT_PASSWORD` | none |
//! | `SUBSCRIBE_TOPIC` | `custom-service/in` |
//! | `PUBLISH_TOPIC` | `flowpulse/out` |
//! | `CLIENT_ID` | `flowpulse-mqtt` |
//! | `PULSES_PER_LITER` | `433` |
use vstd::prelude::*;
use vstd::string::StringExecFns;

verus! {

/// Service configuration.
#[derive(Debug, Clone)]
pub struct Config {
    /// MQTT broker host or IP address
    pub mqtt_broker: String,
    /// MQTT broker port
    pub mqtt_port: u16,
    /// Optional MQTT username
    pub mqtt_username: Option<String>,
    /// Optional MQTT password
    pub mqtt_password: Option<String>,
    /// Topic to subscribe to for sensor input
    pub subscribe_topic: String,
    /// MQTT client ID
    pub client_id: String,
    /// Topic to publish flow rates to
    pub publish_topic: String,
    /// Number of pulses per litre, for the flow calculation
    pub pulses_per_liter: u32,
}

/// The given setting, or the default when it is absent.
pub open spec fn or_default(value: Option<String>, default: Seq<char>) -> Seq<char> {
    match value {
        Some(v) => v@,
        None => default,
    }
}

/// The given numeric setting if it parses as a number of at most `max`,
/// else the default.
pub open spec fn number_or_default(value: Option<String>, max: int, default: int) -> int {
    match value {
        Some(v) => match parse_unsigned(v@, max) {
            Some(n) => n,
            None => default,
        },
        None => default,
    }
}

/// Whether `c` is an ASCII decimal digit.
pub open spec fn is_digit(c: char) -> bool {
    '0' <= c && c <= '9'
}

/// The value of a string of decimal digits.
pub open spec fn digits_value(s: Seq<char>) -> int
    decreases s.len(),
{
    if s.len() == 0 {
        0
    } else {
        digits_value(s.drop_last()) * 10 + (s.last() as int - '0' as int)
    }
}

/// The digits of an unsigned number in text: the text without one leading
/// `+`, if it has one.
pub open spec fn unsigned_digits(s: Seq<char>) -> Seq<char> {
    if s.len() > 0 && s[0] == '+' {
        s.drop_first()
    } else {
        s
    }
}

/// How text parses as an unsigned integer of at most `max` (as Rust's
/// `str::parse` does for unsigned types): an optional `+`, then one or more
/// ASCII digits, whose value must not exceed `max`.
pub open spec fn parse_unsigned(s: Seq<char>, max: int) -> Option<int> {
    let d = unsigned_digits(s);
    if d.len() > 0 && (forall|i: int| 0 <= i < d.len() ==> is_digit(#[trigger] d[i]))
        && digits_value(d) <= max {
        Some(digits_value(d))
    } else {
        None
    }
}

/// The decimal digits of `n`, most significant first, without leading zeros.
pub open spec fn decimal(n: nat) -> Seq<char>
    decreases n,
{
    if n < 10 {
        seq![digit_char(n)]
    } else {
        decimal(n / 10).push(digit_char(n % 10))
    }
}

/// The ASCII digit for `d < 10`.
pub open spec fn digit_char(d: nat) -> char {
    ('0' as nat + d) as char
}

/// What `validate` rejects, and with which message: the first of an empty
/// broker, an empty input topic, an empty output topic, zero pulses per
/// litre; `None` if the configuration is valid.
pub open spec fn validation_error(c: Config) -> Option<Seq<char>> {
    if c.mqtt_broker@.len() == 0 {
        Some("MQTT_BROKER cannot be empty"@)
    } else if c.subscribe_topic@.len() == 0 {
        Some("SUBSCRIBE_TOPIC cannot be empty"@)
    } else if c.publish_topic@.len() == 0 {
        Some("PUBLISH_TOPIC cannot be empty"@)
    } else if c.pulses_per_liter == 0 {
        Some("PULSES_PER_LITER must be greater than 0"@)
    } else {
        None
    }
}

/// A configuration is rejected only for a missing setting: it is valid
/// exactly when the broker, the input topic and the output topic are
/// non-empty and the pulses per litre are not zero, whatever their values
/// otherwise (any port, client id, credentials, and any nonzero pulses per
/// litre). When it is rejected, the message names the first missing
/// setting, in the order broker, input topic, output topic, pulses per
/// litre.
pub proof fn lemma_valid_exactly_when_complete(c: Config)
    ensures
        validation_error(c) is None <==> (c.mqtt_broker@.len() > 0 && c.subscribe_topic@.len() > 0
            && c.publish_topic@.len() > 0 && c.pulses_per_liter > 0),
        c.mqtt_broker@.len() == 0 ==> validation_error(c) == Some("MQTT_BROKER cannot be empty"@),
        c.mqtt_broker@.len() > 0 && c.subscribe_topic@.len() == 0 ==> validation_error(c) == Some(
            "SUBSCRIBE_TOPIC cannot be empty"@,
        ),
        c.mqtt_broker@.len() > 0 && c.subscribe_topic@.len() > 0 && c.publish_topic@.len() == 0
            ==> validation_error(c) == Some("PUBLISH_TOPIC cannot be empty"@),
        c.mqtt_broker@.len() > 0 && c.subscribe_topic@.len() > 0 && c.publish_topic@.len() > 0
            && c.pulses_per_liter == 0 ==> validation_error(c) == Some(
            "PULSES_PER_LITER must be greater than 0"@,
        ),
{
}

impl Config {
    /// The configuration from the given settings, each `None` when not set:
    /// a text setting replaces its default, a numeric one does when it
    /// parses (see the module's table of defaults).
    pub fn from_settings(
        mqtt_broker: Option<String>,
        mqtt_port: Option<String>,
        mqtt_username: Option<String>,
        mqtt_password: Option<String>,
        subscribe_topic: Option<String>,
        client_id: Option<String>,
        publish_topic: Option<String>,
        pulses_per_liter: Option<String>,
    ) -> (c: Config)
        ensures
            c.mqtt_broker@ == or_default(mqtt_broker, "homeassistant"@),
            c.mqtt_port == number_or_default(mqtt_port, u16::MAX as int, 1883),
            c.mqtt_username == mqtt_username,
            c.mqtt_password == mqtt_password,
            c.subscribe_topic@ == or_default(subscribe_topic, "custom-service/in"@),
            c.client_id@ == or_default(client_id, "flowpulse-mqtt"@),
            c.publish_topic@ == or_default(publish_topic, "flowpulse/out"@),
            c.pulses_per_liter == number_or_default(pulses_per_liter, u32::MAX as int, 433),
    {
        Config {
            mqtt_broker: text_or_default(mqtt_broker, "homeassistant"),
            mqtt_port: parse_port(mqtt_port, 1883),
            mqtt_username,
            mqtt_password,
            subscribe_topic: text_or_default(subscribe_topic, "custom-service/in"),
            client_id: text_or_default(client_id, "flowpulse-mqtt"),
            publish_topic: text_or_default(publish_topic, "flowpulse/out"),
            pulses_per_liter: parse_u32(pulses_per_liter, 433),
        }
    }

    /// A configuration for tests.
    pub fn test_config() -> (c: Config)
        ensures
            c.mqtt_broker@ == "test-broker"@,
            c.mqtt_port == 1883,
            c.mqtt_username is None,
            c.mqtt_password is None,
            c.subscribe_topic@ == "test/in"@,
            c.client_id@ == "test-client"@,
            c.publish_topic@ == "test/out"@,
            c.pulses_per_liter == 433,
    {
        Config {
            mqtt_broker: String::from_str("test-broker"),
            mqtt_port: 1883,
            mqtt_username: None,
            mqtt_password: None,
            subscribe_topic: String::from_str("test/in"),
            client_id: String::from_str("test-client"),
            publish_topic: String::from_str("test/out"),
            pulses_per_liter: 433,
        }
    }

    /// Checks the configuration: `Ok` when it is valid, else the message of
    /// the first problem (see `validation_error`).
    pub fn validate(&self) -> (res: Result<(), String>)
        ensures
            match validation_error(*self) {
                None => res is Ok,
                Some(msg) => res matches Err(e) && e@ == msg,
            },
            res is Ok <==> (self.mqtt_broker@.len() > 0 && self.subscribe_topic@.len() > 0
                && self.publish_topic@.len() > 0 && self.pulses_per_liter > 0),
    {
        proof {
            lemma_valid_exactly_when_complete(*self);
        }
        if self.mqtt_broker.as_str().is_empty() {
            return Err(String::from_str("MQTT_BROKER cannot be empty"));
        }
        if self.subscribe_topic.as_str().is_empty() {
            return Err(String::from_str("SUBSCRIBE_TOPIC cannot be empty"));
        }
        if self.publish_topic.as_str().is_empty() {
            return Err(String::from_str("PUBLISH_TOPIC cannot be empty"));
        }
        if self.pulses_per_liter == 0 {
            return Err(String::from_str("PULSES_PER_LITER must be greater than 0"));
        }
        Ok(())
    }

    /// `broker:port`, for display.
    pub fn connection_string(&self) -> (s: String)
        ensures
            s@ == self.mqtt_broker@ + ":"@ + decimal(self.mqtt_port as nat),
    {
        let mut s = self.mqtt_broker.clone();
        s.append(":");
        append_decimal(&mut s, self.mqtt_port as u64);
        s
    }
}

/// The setting if given, else the default.
fn text_or_default(value: Option<String>, default: &str) -> (s: String)
    ensures
        s@ == or_default(value, default@),
{
    match value {
        Some(v) => v,
        None => String::from_str(default),
    }
}

/// The port setting if given and it parses as a `u16`, else `default`.
pub fn parse_port(value: Option<String>, default: u16) -> (port: u16)
    ensures
        port == number_or_default(value, u16::MAX as int, default as int),
{
    match value {
        Some(v) => match parse_unsigned_text(v.as_str(), u16::MAX as u64) {
            Some(n) => n as u16,
            None => default,
        },
        None => default,
    }
}

/// The setting if given and it parses as a `u32`, else `default`.
pub fn parse_u32(value: Option<String>, default: u32) -> (n: u32)
    ensures
        n == number_or_default(value, u32::MAX as int, default as int),
{
    match value {
        Some(v) => match parse_unsigned_text(v.as_str(), u32::MAX as u64) {
            Some(n) => n as u32,
            None => default,
        },
        None => default,
    }
}

/// A longer run of digits is worth at least as much as its prefix.
proof fn lemma_digits_value_prefix(s: Seq<char>, k: int)
    requires
        0 <= k <= s.len(),
        forall|i: int| 0 <= i < s.len() ==> is_digit(#[trigger] s[i]),
    ensures
        0 <= digits_value(s.take(k)) <= digits_value(s),
    decreases s.len() - k,
{
    if k < s.len() {
        lemma_digits_value_prefix(s, k + 1);
        assert(s.take(k + 1).drop_last() =~= s.take(k));
        assert(is_digit(s[k]));
    } else {
        assert(s.take(k) =~= s);
        lemma_digits_value_nonneg(s);
    }
}

/// A run of digits has a nonnegative value.
proof fn lemma_digits_value_nonneg(s: Seq<char>)
    requires
        forall|i: int| 0 <= i < s.len() ==> is_digit(#[trigger] s[i]),
    ensures
        digits_value(s) >= 0,
    decreases s.len(),
{
    if s.len() > 0 {
        assert(is_digit(s[s.len() - 1]));
        lemma_digits_value_nonneg(s.drop_last());
    }
}

/// Parses `text` as an unsigned integer of at most `max` (see
/// `parse_unsigned`).
pub fn parse_unsigned_text(text: &str, max: u64) -> (res: Option<u64>)
    ensures
        match parse_unsigned(text@, max as int) {
            Some(n) => 0 <= n <= max && res == Some(n as u64),
            None => res is None,
        },
{
    let len = text.unicode_len();
    let mut start: usize = 0;
    if len > 0 && text.get_char(0) == '+' {
        start = 1;
    }
    let ghost d = unsigned_digits(text@);
    assert(d =~= text@.subrange(start as int, len as int));
    if start == len {
        return None;
    }
    let mut value: u64 = 0;
    let mut i: usize = start;
    assert(d.take(0) =~= Seq::<char>::empty());
    while i < len
        invariant
            start <= i <= len,
            len == text@.len(),
            d =~= text@.subrange(start as int, len as int),
            d == unsigned_digits(text@),
            forall|j: int| 0 <= j < i - start ==> is_digit(#[trigger] d[j]),
            value == digits_value(d.take(i - start)),
            value <= max,
        decreases len - i,
    {
        let c = text.get_char(i);
        assert(d[i - start] == c);
        if c < '0' || c > '9' {
            assert(!is_digit(d[i - start]));
            assert(!(forall|j: int| 0 <= j < d.len() ==> is_digit(#[trigger] d[j])));
            return None;
        }
        let digit: u64 = (c as u64) - ('0' as u64);
        assert(d.take(i + 1 - start).drop_last() =~= d.take(i - start));
        assert(d.take(i + 1 - start).last() == c);
        assert(digits_value(d.take(i + 1 - start)) == value * 10 + digit);
        let too_big = if value > max / 10 {
            true
        } else {
            assert(value * 10 <= max) by (nonlinear_arith)
                requires
                    value <= max / 10,
            ;
            digit > max - value * 10
        };
        if too_big {
            proof {
                assert(value * 10 + digit > max) by (nonlinear_arith)
                    requires
                        value > max / 10 || value * 10 + digit > max,
                ;
                if forall|j: int| 0 <= j < d.len() ==> is_digit(#[trigger] d[j]) {
                    lemma_digits_value_prefix(d, i + 1 - start);
                }
            }
            return None;
        }
        value = value * 10 + digit;
        i = i + 1;
    }
    assert(d.take(len - start) =~= d);
    proof {
        lemma_digits_value_nonneg(d);
    }
    Some(value)
}

/// The digit string for `d < 10`.
fn digit_str(d: u64) -> (s: &'static str)
    requires
        d < 10,
    ensures
        s@ == seq![digit_char(d as nat)],
{
    proof {
        reveal_strlit("0");
        reveal_strlit("1");
        reveal_strlit("2");
        reveal_strlit("3");
        reveal_strlit("4");
        reveal_strlit("5");
        reveal_strlit("6");
        reveal_strlit("7");
        reveal_strlit("8");
        reveal_strlit("9");
    }
    match d {
        0 => "0",
        1 => "1",
        2 => "2",
        3 => "3",
        4 => "4",
        5 => "5",
        6 => "6",
        7 => "7",
        8 => "8",
        _ => "9",
    }
}

/// Appends the decimal digits of `n` to `s`.
pub fn append_decimal(s: &mut String, n: u64)
    ensures
        final(s)@ == old(s)@ + decimal(n as nat),
    decreases n,
{
    if n >= 10 {
        append_decimal(s, n / 10);
        s.append(digit_str(n % 10));
        assert(decimal(n as nat) == decimal((n / 10) as nat).push(digit_char((n % 10) as nat)));
    } else {
        s.append(digit_str(n));
    }
}

} // verus!

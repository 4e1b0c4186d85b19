//! The configuration of the service, and how it is checked.
//!
//! Whoever reads the configuration file says of each setting whether it was
//! found and whether it had the right type. From that, the functions here
//! decide whether the configuration stands, and which error is reported where
//! it does not.

use crate::encrypted_cred::{EncryptedCredential, MAX_CREDENTIAL_LEN};
use crate::error::{GSError, GSErrorView};
use crate::instance::{bearer, header_text_valid, GrafanaInstance};
use vstd::prelude::*;
use vstd::string::*;
use vstd::utf8::encode_utf8;

verus! {

/// What the configuration file holds under one key.
#[derive(Debug, Clone, PartialEq, Eq)]
pub enum Setting<T> {
    /// The key is not there.
    Missing,
    /// The key is there, with a value of another type.
    WrongType,
    /// The value.
    Found(T),
}

/// One entry of `instances` as the configuration file holds it.
#[derive(Debug, Clone, PartialEq, Eq)]
pub struct RawInstance {
    pub url: Setting<String>,
    pub api_token: Setting<String>,
}

/// The configuration file, setting by setting.
#[derive(Debug, Clone, PartialEq, Eq)]
pub struct RawConfig {
    pub sync_tag: Setting<String>,
    pub sync_rate_mins: Setting<u64>,
    pub instances: Setting<Vec<RawInstance>>,
}

/// The configuration of the service.
pub struct Config {
    pub instances: Vec<GrafanaInstance>,
    pub sync_tag: String,
    pub sync_rate_mins: u64,
}

/// The decimal digit `d`.
pub open spec fn digit_char(d: nat) -> char {
    if d == 0 {
        '0'
    } else if d == 1 {
        '1'
    } else if d == 2 {
        '2'
    } else if d == 3 {
        '3'
    } else if d == 4 {
        '4'
    } else if d == 5 {
        '5'
    } else if d == 6 {
        '6'
    } else if d == 7 {
        '7'
    } else if d == 8 {
        '8'
    } else {
        '9'
    }
}

/// `n` in decimal digits, without leading zeros.
pub open spec fn decimal_text(n: nat) -> Seq<char>
    decreases n,
{
    if n < 10 {
        seq![digit_char(n)]
    } else {
        decimal_text(n / 10).push(digit_char(n % 10))
    }
}

/// The key of the setting `field` of the entry `index` of `instances`.
pub open spec fn instance_key(index: nat, field: Seq<char>) -> Seq<char> {
    "instances["@ + decimal_text(index) + "]."@ + field
}

/// What is wrong with a setting that should hold a value of the type `wanted`
/// under `key`, if anything.
pub open spec fn setting_error<T>(setting: Setting<T>, key: Seq<char>, wanted: Seq<char>)
    -> Option<GSErrorView> {
    match setting {
        Setting::Missing => Some(GSErrorView::ConfigKeyMissing(key)),
        Setting::WrongType => Some(GSErrorView::ConfigKeyTypeWrong(key, wanted)),
        Setting::Found(_) => None,
    }
}

/// What is wrong with the entry `index` of `instances`, if anything that can
/// be told from the entry alone: its address is looked at first, then its API
/// token, then whether the token can stand in a header.
pub open spec fn instance_error(raw: RawInstance, index: nat) -> Option<GSErrorView> {
    if setting_error(raw.url, instance_key(index, "url"@), "String"@) is Some {
        setting_error(raw.url, instance_key(index, "url"@), "String"@)
    } else if setting_error(raw.api_token, instance_key(index, "api_token"@), "String"@) is Some {
        setting_error(raw.api_token, instance_key(index, "api_token"@), "String"@)
    } else if !header_text_valid(bearer(raw.api_token->Found_0@)) {
        Some(GSErrorView::InvalidHeader)
    } else {
        None
    }
}

/// Whether `instance` is the instance that the entry `raw` describes.
pub open spec fn describes(raw: RawInstance, instance: GrafanaInstance) -> bool {
    &&& raw.url is Found
    &&& raw.api_token is Found
    &&& instance.spec_base_url() == raw.url->Found_0@
    &&& instance.spec_api_token() == raw.api_token->Found_0@
}

/// Whether the API token of `raw`, if it has one, is short enough to be
/// encrypted.
pub open spec fn token_fits(raw: RawInstance) -> bool {
    raw.api_token matches Setting::Found(token) ==> encode_utf8(token@).len()
        <= MAX_CREDENTIAL_LEN
}

/// The text of one decimal digit.
fn digit(d: usize) -> (r: &'static str)
    requires
        d < 10,
    ensures
        r@ == seq![digit_char(d as nat)],
{
    proof {
        reveal_strlit("0");
        reveal_strlit("1");
        reveal_strlit("2");
        reveal_strlit("3");
        reveal_strlit("4");
        reveal_strlit("5");
        reveal_strlit("6");
        reveal_strlit("7");
        reveal_strlit("8");
        reveal_strlit("9");
    }
    let r = if d == 0 {
        "0"
    } else if d == 1 {
        "1"
    } else if d == 2 {
        "2"
    } else if d == 3 {
        "3"
    } else if d == 4 {
        "4"
    } else if d == 5 {
        "5"
    } else if d == 6 {
        "6"
    } else if d == 7 {
        "7"
    } else if d == 8 {
        "8"
    } else {
        "9"
    };
    assert(r@ =~= seq![digit_char(d as nat)]);
    r
}

/// `n` in decimal digits.
pub fn decimal(n: usize) -> (r: String)
    ensures
        r@ == decimal_text(n as nat),
    decreases n,
{
    if n < 10 {
        String::from_str(digit(n))
    } else {
        let r = decimal(n / 10).concat(digit(n % 10));
        assert(r@ =~= decimal_text(n as nat / 10).push(digit_char(n as nat % 10)));
        r
    }
}

/// The key of the setting `field` of the entry `index` of `instances`.
fn key_of(index: usize, field: &str) -> (r: String)
    ensures
        r@ == instance_key(index as nat, field@),
{
    String::from_str("instances[").concat(decimal(index).as_str()).concat("].").concat(field)
}

impl Config {
    /// The text under `key`, or the error that says what is wrong with the
    /// setting.
    pub fn read_string_from_config(setting: &Setting<String>, key: &str) -> (r: Result<
        String,
        GSError,
    >)
        ensures
            match r {
                Ok(v) => setting matches Setting::Found(s) && v@ == s@,
                Err(e) => Some(e@) == setting_error(*setting, key@, "String"@),
            },
    {
        match setting {
            Setting::Missing => Err(GSError::ConfigKeyMissing(String::from_str(key))),
            Setting::WrongType => Err(
                GSError::ConfigKeyTypeWrong(String::from_str(key), "String"),
            ),
            Setting::Found(v) => Ok(v.clone()),
        }
    }

    /// The number under `key`, or the error that says what is wrong with the
    /// setting.
    pub fn read_u64_from_config(setting: &Setting<u64>, key: &str) -> (r: Result<u64, GSError>)
        ensures
            match r {
                Ok(v) => *setting == Setting::Found(v),
                Err(e) => Some(e@) == setting_error(*setting, key@, "u64"@),
            },
    {
        match setting {
            Setting::Missing => Err(GSError::ConfigKeyMissing(String::from_str(key))),
            Setting::WrongType => Err(GSError::ConfigKeyTypeWrong(String::from_str(key), "u64")),
            Setting::Found(v) => Ok(*v),
        }
    }

    /// The instance that the entry `index` of `instances` describes.
    pub fn instance_from(raw: &RawInstance, index: usize) -> (r: Result<GrafanaInstance, GSError>)
        requires
            token_fits(*raw),
        ensures
            match r {
                Ok(instance) => instance_error(*raw, index as nat) is None && describes(
                    *raw,
                    instance,
                ),
                Err(e) => Some(e@) == instance_error(*raw, index as nat) || (instance_error(
                    *raw,
                    index as nat,
                ) is None && e is RequestError),
            },
    {
        let url = match Self::read_string_from_config(&raw.url, key_of(index, "url").as_str()) {
            Ok(url) => url,
            Err(e) => {
                return Err(e);
            },
        };
        let api_token = match Self::read_string_from_config(
            &raw.api_token,
            key_of(index, "api_token").as_str(),
        ) {
            Ok(token) => token,
            Err(e) => {
                return Err(e);
            },
        };
        GrafanaInstance::new(url, EncryptedCredential::new(api_token))
    }

    /// The instances that `instances` describes, in its order. Where the key
    /// is missing there are none, and that is no error. The first entry with
    /// which something is wrong ends the work with its error.
    pub fn collect_instances(setting: &Setting<Vec<RawInstance>>) -> (r: Result<
        Vec<GrafanaInstance>,
        GSError,
    >)
        requires
            setting matches Setting::Found(list) ==> forall|i: int|
                0 <= i < list.len() ==> token_fits(#[trigger] list[i]),
        ensures
            setting is Missing ==> (r matches Ok(instances) && instances.len() == 0),
            setting is WrongType ==> (r matches Err(e) && e@ == GSErrorView::ConfigKeyTypeWrong(
                "instances"@,
                "Sequence"@,
            )),
            setting matches Setting::Found(list) ==> (list.len() == 0 ==> r is Ok),
            setting matches Setting::Found(list) ==> match r {
                Ok(instances) => {
                    &&& instances.len() == list.len()
                    &&& forall|i: int|
                        0 <= i < list.len() ==> instance_error(#[trigger] list[i], i as nat)
                            is None && describes(list[i], instances[i])
                },
                Err(e) => exists|i: int|
                    {
                        &&& 0 <= i < list.len()
                        &&& forall|j: int|
                            0 <= j < i ==> instance_error(#[trigger] list[j], j as nat) is None
                        &&& Some(e@) == instance_error(#[trigger] list[i], i as nat) || (
                        instance_error(list[i], i as nat) is None && e is RequestError)
                    },
            },
    {
        let mut instances: Vec<GrafanaInstance> = Vec::new();
        let list = match setting {
            Setting::Missing => {
                return Ok(instances);
            },
            Setting::WrongType => {
                return Err(
                    GSError::ConfigKeyTypeWrong(String::from_str("instances"), "Sequence"),
                );
            },
            Setting::Found(list) => list,
        };
        let mut i: usize = 0;
        while i < list.len()
            invariant
                i <= list.len(),
                instances.len() == i,
                *setting == Setting::Found(*list),
                forall|k: int| 0 <= k < list.len() ==> token_fits(#[trigger] list[k]),
                forall|k: int|
                    0 <= k < i ==> instance_error(#[trigger] list[k], k as nat) is None
                        && describes(list[k], instances[k]),
            decreases list.len() - i,
        {
            match Self::instance_from(&list[i], i) {
                Ok(instance) => {
                    instances.push(instance);
                },
                Err(e) => {
                    return Err(e);
                },
            }
            i += 1;
        }
        Ok(instances)
    }

    /// The configuration that `raw` describes. The settings are looked at in
    /// this order: `sync_tag`, `sync_rate_mins`, `instances`; the first with
    /// which something is wrong ends the work with its error. Within
    /// `instances` that is the error of the first faulty entry, or the error
    /// with which no HTTP client could be built for an entry that is sound.
    pub fn from_raw(raw: &RawConfig) -> (r: Result<Config, GSError>)
        requires
            raw.instances matches Setting::Found(list) ==> forall|i: int|
                0 <= i < list.len() ==> token_fits(#[trigger] list[i]),
        ensures
            setting_error(raw.sync_tag, "sync_tag"@, "String"@) matches Some(e) ==> (r matches Err(
                got,
            ) && got@ == e),
            raw.sync_tag is Found ==> (setting_error(
                raw.sync_rate_mins,
                "sync_rate_mins"@,
                "u64"@,
            ) matches Some(e) ==> (r matches Err(got) && got@ == e)),
            raw.sync_tag is Found && raw.sync_rate_mins is Found && raw.instances is WrongType
                ==> (r matches Err(got) && got@ == GSErrorView::ConfigKeyTypeWrong(
                "instances"@,
                "Sequence"@,
            )),
            raw.sync_tag is Found && raw.sync_rate_mins is Found && raw.instances is Missing
                ==> (r matches Ok(config) && config.instances.len() == 0),
            raw.sync_tag is Found && raw.sync_rate_mins is Found ==> (raw.instances matches Setting::Found(
                list,
            ) ==> (list.len() == 0 ==> r is Ok)),
            raw.sync_tag is Found && raw.sync_rate_mins is Found ==> (raw.instances matches Setting::Found(
                list,
            ) ==> (r matches Err(e) ==> exists|i: int|
                {
                    &&& 0 <= i < list.len()
                    &&& forall|j: int|
                        0 <= j < i ==> instance_error(#[trigger] list[j], j as nat) is None
                    &&& Some(e@) == instance_error(#[trigger] list[i], i as nat) || (
                    instance_error(list[i], i as nat) is None && e is RequestError)
                })),
            r matches Ok(config) ==> {
                &&& raw.sync_tag matches Setting::Found(tag) && config.sync_tag@ == tag@
                &&& raw.sync_rate_mins == Setting::Found(config.sync_rate_mins)
                &&& raw.instances matches Setting::Found(list) ==> {
                    &&& config.instances.len() == list.len()
                    &&& forall|i: int|
                        0 <= i < list.len() ==> instance_error(#[trigger] list[i], i as nat)
                            is None && describes(list[i], config.instances[i])
                }
            },
    {
        let sync_tag = match Self::read_string_from_config(&raw.sync_tag, "sync_tag") {
            Ok(v) => v,
            Err(e) => {
                return Err(e);
            },
        };
        let sync_rate_mins = match Self::read_u64_from_config(
            &raw.sync_rate_mins,
            "sync_rate_mins",
        ) {
            Ok(v) => v,
            Err(e) => {
                return Err(e);
            },
        };
        let instances = match Self::collect_instances(&raw.instances) {
            Ok(v) => v,
            Err(e) => {
                return Err(e);
            },
        };
        Ok(Config { sync_tag, instances, sync_rate_mins })
    }
}

} // verus!

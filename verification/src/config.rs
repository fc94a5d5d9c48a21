//! The settings of the static generator, read from the environment: where the database is,
//! where the files go, and the bucket they may be uploaded to.

use vstd::prelude::*;
use crate::text::{chars_of, push_str, string_from};

verus! {

/// Where and how the generated files are uploaded to an R2 bucket.
pub struct R2Config {
    pub endpoint_url: String,
    pub bucket: String,
    pub access_key_id: String,
    pub secret_access_key: String,
}

/// The generator's settings.
pub struct Config {
    pub database_url: String,
    pub output_directory: String,
    pub r2: Option<R2Config>,
}

/// Why the settings cannot be used.
#[derive(Clone, Copy, Debug, PartialEq, Eq)]
pub enum ConfigError {
    NoDatabaseUrl,
    R2PartlyConfigured,
}

impl ConfigError {
    /// The message the generator stops with.
    pub fn message(&self) -> (text: &'static str)
        ensures
            text@ == match *self {
                ConfigError::NoDatabaseUrl => "neither FOOTICAL_DATABASE_URL nor DATABASE_URL is set"@,
                ConfigError::R2PartlyConfigured => "R2 is partially configured — set all of R2_ACCOUNT_ID, R2_BUCKET, R2_ACCESS_KEY_ID, R2_SECRET_ACCESS_KEY or none of them"@,
            },
    {
        match self {
            ConfigError::NoDatabaseUrl => "neither FOOTICAL_DATABASE_URL nor DATABASE_URL is set",
            ConfigError::R2PartlyConfigured => "R2 is partially configured — set all of R2_ACCOUNT_ID, R2_BUCKET, R2_ACCESS_KEY_ID, R2_SECRET_ACCESS_KEY or none of them",
        }
    }
}

/// The endpoint of an R2 account.
pub open spec fn r2_endpoint_text(account_id: Seq<char>) -> Seq<char> {
    "https://"@ + account_id + ".r2.cloudflarestorage.com"@
}

/// The upload settings from the four R2 variables: none when none is set, all four when all
/// are, and an error when only some are.
pub fn r2_config_from(
    account_id: Option<String>,
    bucket: Option<String>,
    access_key_id: Option<String>,
    secret_access_key: Option<String>,
) -> (r2: Result<Option<R2Config>, ConfigError>)
    ensures
        match r2 {
            Ok(None) => account_id is None && bucket is None && access_key_id is None
                && secret_access_key is None,
            Ok(Some(c)) => account_id is Some && bucket == Some(c.bucket) && access_key_id == Some(
                c.access_key_id,
            ) && secret_access_key == Some(c.secret_access_key) && c.endpoint_url@
                == r2_endpoint_text(account_id->0@),
            Err(e) => e == ConfigError::R2PartlyConfigured && !(account_id is None && bucket is None
                && access_key_id is None && secret_access_key is None) && !(account_id is Some
                && bucket is Some && access_key_id is Some && secret_access_key is Some),
        },
{
    match (account_id, bucket, access_key_id, secret_access_key) {
        (None, None, None, None) => Ok(None),
        (Some(account_id), Some(bucket), Some(access_key_id), Some(secret_access_key)) => {
            let mut endpoint: Vec<char> = Vec::new();
            push_str(&mut endpoint, "https://");
            push_str(&mut endpoint, account_id.as_str());
            push_str(&mut endpoint, ".r2.cloudflarestorage.com");
            Ok(
                Some(
                    R2Config {
                        endpoint_url: string_from(&endpoint),
                        bucket,
                        access_key_id,
                        secret_access_key,
                    },
                ),
            )
        },
        _ => Err(ConfigError::R2PartlyConfigured),
    }
}

/// The generator's settings from its environment: the database address from
/// `FOOTICAL_DATABASE_URL`, else `DATABASE_URL`; the output directory from `OUTPUT_DIR`, else
/// `output`; and the upload settings. A missing database address is reported first.
pub fn config_from(
    footical_database_url: Option<String>,
    database_url: Option<String>,
    output_dir: Option<String>,
    r2_account_id: Option<String>,
    r2_bucket: Option<String>,
    r2_access_key_id: Option<String>,
    r2_secret_access_key: Option<String>,
) -> (config: Result<Config, ConfigError>)
    ensures
        footical_database_url is None && database_url is None ==> config == Err::<
            Config,
            ConfigError,
        >(ConfigError::NoDatabaseUrl),
        config matches Ok(c) ==> c.database_url == (match footical_database_url {
            Some(u) => u,
            None => database_url->0,
        }) && c.output_directory@ == (match output_dir {
            Some(d) => d@,
            None => "output"@,
        }),
        (footical_database_url is Some || database_url is Some) ==> (config is Ok <==> !(
        !(r2_account_id is None && r2_bucket is None && r2_access_key_id is None
            && r2_secret_access_key is None) && !(r2_account_id is Some && r2_bucket is Some
            && r2_access_key_id is Some && r2_secret_access_key is Some))),
        config matches Err(e) ==> (e == ConfigError::NoDatabaseUrl <==> (footical_database_url is None
            && database_url is None)),
        config matches Ok(c) ==> (c.r2 is None <==> (r2_account_id is None && r2_bucket is None
            && r2_access_key_id is None && r2_secret_access_key is None)),
        config matches Ok(c) ==> (c.r2 matches Some(r) ==> r2_account_id is Some && r2_bucket
            == Some(r.bucket) && r2_access_key_id == Some(r.access_key_id) && r2_secret_access_key
            == Some(r.secret_access_key) && r.endpoint_url@ == r2_endpoint_text(
            r2_account_id->0@,
        )),
{
    let database_url = match footical_database_url {
        Some(u) => u,
        None => match database_url {
            Some(u) => u,
            None => return Err(ConfigError::NoDatabaseUrl),
        },
    };
    let output_directory = match output_dir {
        Some(d) => d,
        None => string_from(&chars_of("output")),
    };
    match r2_config_from(r2_account_id, r2_bucket, r2_access_key_id, r2_secret_access_key) {
        Ok(r2) => Ok(Config { database_url, output_directory, r2 }),
        Err(e) => Err(e),
    }
}

// ----- what is uploaded -----

/// The extension of a file name as std's `Path::extension` finds it: the text after the last
/// `.`, unless that dot starts the name (for the name `..` std finds none, where this finds
/// the empty text; neither is `ics`).
pub open spec fn extension_of(name: Seq<char>) -> Option<Seq<char>>
    decreases name.len(),
{
    if name.len() == 0 {
        None
    } else if name.last() == '.' && name.len() > 1 {
        Some(Seq::empty())
    } else {
        match extension_of(name.drop_last()) {
            Some(e) => Some(e.push(name.last())),
            None => None,
        }
    }
}

/// Whether a generated file is a calendar, to be uploaded under its own name.
pub fn is_calendar_file(name: &str) -> (calendar: bool)
    ensures
        calendar == (extension_of(name@) == Some("ics"@)),
{
    let chars = chars_of(name);
    let mut i: usize = chars.len();
    // walk back to the last dot
    while i > 0 && chars[i - 1] != '.'
        invariant
            i <= chars@.len(),
            forall|k: int| i <= k < chars@.len() ==> chars@[k] != '.',
        decreases i,
    {
        i = i - 1;
    }
    proof {
        lemma_extension_after_last_dot(chars@, i as int);
    }
    if i <= 1 {
        false
    } else {
        let tail = crate::text::slice_chars(&chars, i, chars.len());
        crate::text::chars_equal(&tail, &chars_of("ics"))
    }
}

proof fn lemma_extension_after_last_dot(name: Seq<char>, i: int)
    requires
        0 <= i <= name.len(),
        i == 0 || name[i - 1] == '.',
        forall|k: int| i <= k < name.len() ==> name[k] != '.',
    ensures
        extension_of(name) == (if i <= 1 {
            None
        } else {
            Some(name.subrange(i, name.len() as int))
        }),
    decreases name.len(),
{
    if name.len() == 0 {
    } else if name.last() == '.' && name.len() > 1 {
        assert(i == name.len());
        assert(name.subrange(i, name.len() as int) =~= Seq::<char>::empty());
    } else if i == name.len() {
        // the name ends in its only dot, or holds none
        if i == 1 {
            assert(name.drop_last().len() == 0);
        } else {
            assert(i == 0);
        }
    } else {
        lemma_extension_after_last_dot(name.drop_last(), i);
        if i > 1 {
            assert(name.subrange(i, name.len() as int) =~= name.drop_last().subrange(
                i,
                name.len() - 1,
            ).push(name.last()));
        }
    }
}

} // verus!

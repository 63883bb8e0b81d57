//! Where a package's configuration comes from: a file named on the command
//! line, the package's own metadata, or the defaults.
use vstd::prelude::*;
use vstd::string::StringExecFns;
use crate::model::Package;
use crate::text::str_eq;

verus! {

/// The members of the JSON object that `text` holds, in the order in which
/// `serde_json::Map` lists them, each with its value written back as compact
/// JSON text; none when `text` is not a JSON object.
pub uninterp spec fn json_object_members(text: Seq<char>) -> Option<Seq<(Seq<char>, Seq<char>)>>;

/// The views of a list of name/value pairs.
pub open spec fn pair_texts(s: Seq<(String, String)>) -> Seq<(Seq<char>, Seq<char>)> {
    s.map_values(|m: (String, String)| (m.0@, m.1@))
}

/// Reads the members of a JSON object.
///
/// Trusted: calls `serde_json::from_str` to parse `text` as a
/// `serde_json::Map<String, Value>`, and writes each member's value back with
/// `Value`'s `Display` (compact JSON). The contract says that the result is
/// the named function of `text`, and nothing more: what counts as an object
/// and how values are written is serde_json's.
#[verifier::external_body]
fn json_object_members_of(text: &str) -> (r: Option<Vec<(String, String)>>)
    ensures
        match r {
            Some(v) => json_object_members(text@) == Some(pair_texts(v@)),
            None => json_object_members(text@) is None,
        },
{
    match serde_json::from_str::<serde_json::Map<String, serde_json::Value>>(text) {
        Ok(map) => Some(map.into_iter().map(|(k, v)| (k, v.to_string())).collect()),
        Err(_) => None,
    }
}

/// The key under `[package.metadata]` that holds the tool's configuration.
pub open spec fn config_key() -> Seq<char> {
    "cargo_check_external_types"@
}

/// The value of the first member named `key`.
pub open spec fn member_value(members: Seq<(Seq<char>, Seq<char>)>, key: Seq<char>) -> Option<Seq<char>>
    decreases members.len(),
{
    if members.len() == 0 {
        None
    } else if members[0].0 == key {
        Some(members[0].1)
    } else {
        member_value(members.drop_first(), key)
    }
}

/// The configuration, as JSON text, that a package's metadata holds for the
/// tool: none when the metadata is not an object or has no such member.
pub open spec fn metadata_config(metadata: Seq<char>) -> Option<Seq<char>> {
    match json_object_members(metadata) {
        Some(members) => member_value(members, config_key()),
        None => None,
    }
}

proof fn lemma_member_value(members: Seq<(Seq<char>, Seq<char>)>, key: Seq<char>)
    ensures
        forall|i: int| 0 <= i < members.len() && members[i].0 == key
            && (forall|j: int| 0 <= j < i ==> members[j].0 != key)
            ==> member_value(members, key) == Some(members[i].1),
        (forall|i: int| 0 <= i < members.len() ==> members[i].0 != key) ==> member_value(members, key) is None,
    decreases members.len(),
{
    if members.len() > 0 {
        let rest = members.drop_first();
        lemma_member_value(rest, key);
        assert forall|i: int| 0 <= i < members.len() && members[i].0 == key
            && (forall|j: int| 0 <= j < i ==> members[j].0 != key)
            implies member_value(members, key) == Some(members[i].1) by {
            if i > 0 {
                assert(members[0].0 != key);
                assert(rest[i - 1] == members[i]);
                assert forall|j: int| 0 <= j < i - 1 implies rest[j].0 != key by {
                    assert(rest[j] == members[j + 1]);
                }
            }
        }
        if forall|i: int| 0 <= i < members.len() ==> members[i].0 != key {
            assert(members[0].0 != key);
            assert forall|i: int| 0 <= i < rest.len() implies rest[i].0 != key by {
                assert(rest[i] == members[i + 1]);
            }
        }
    }
}

/// The tool's configuration is found among all members of the package's
/// metadata: when the metadata is a JSON object with a member named
/// `cargo_check_external_types`, the configuration is that member's value,
/// whatever other members come before or after it; without such a member,
/// or when the metadata is no object, there is none.
pub proof fn law_config_member_found_among_all(metadata: Seq<char>)
    ensures
        forall|members: Seq<(Seq<char>, Seq<char>)>, i: int|
            json_object_members(metadata) == Some(members) && 0 <= i < members.len()
                && (#[trigger] members[i]).0 == "cargo_check_external_types"@
                && (forall|j: int| 0 <= j < i ==> members[j].0 != "cargo_check_external_types"@)
                ==> metadata_config(metadata) == Some(members[i].1),
        forall|members: Seq<(Seq<char>, Seq<char>)>|
            json_object_members(metadata) == Some(members)
                && (forall|i: int| 0 <= i < members.len() ==> (#[trigger] members[i]).0 != "cargo_check_external_types"@)
                ==> metadata_config(metadata) is None,
        json_object_members(metadata) is None ==> metadata_config(metadata) is None,
{
    match json_object_members(metadata) {
        Some(members) => lemma_member_value(members, config_key()),
        None => {},
    }
}

/// Where the configuration for a package is read from.
#[derive(Clone, Debug, PartialEq, Eq)]
pub enum ConfigSource {
    /// A TOML file at this path.
    File(String),
    /// This JSON value from the package's metadata.
    Metadata(String),
    /// Nowhere: the defaults apply.
    Default,
}

/// `src` is where the configuration comes from, given the file named on the
/// command line (if any) and the package's metadata.
pub open spec fn is_config_source(src: ConfigSource, config_path: Option<Seq<char>>, metadata: Seq<char>) -> bool {
    match config_path {
        Some(path) => src matches ConfigSource::File(f) && f@ == path,
        None => match metadata_config(metadata) {
            Some(t) => src matches ConfigSource::Metadata(s) && s@ == t,
            None => src is Default,
        },
    }
}

/// Finds the tool's section in a package's metadata. Metadata that is not a
/// JSON object, or that has no such section, gives the defaults.
pub fn resolve_config_for_package(p: &Package) -> (r: ConfigSource)
    ensures
        match metadata_config(p.metadata@) {
            Some(t) => r matches ConfigSource::Metadata(s) && s@ == t,
            None => r is Default,
        },
{
    match json_object_members_of(p.metadata.as_str()) {
        None => ConfigSource::Default,
        Some(members) => {
            let ghost all = pair_texts(members@);
            let n = members.len();
            let mut i: usize = 0;
            assert(all.skip(0) =~= all);
            while i < n
                invariant
                    n == members@.len(),
                    i <= n,
                    all == pair_texts(members@),
                    json_object_members(p.metadata@) == Some(all),
                    member_value(all, config_key()) == member_value(all.skip(i as int), config_key()),
                decreases n - i,
            {
                assert(all.skip(i as int)[0] == all[i as int]);
                if str_eq(members[i].0.as_str(), "cargo_check_external_types") {
                    return ConfigSource::Metadata(members[i].1.clone());
                }
                assert(all.skip(i as int).drop_first() =~= all.skip(i + 1));
                i = i + 1;
            }
            ConfigSource::Default
        },
    }
}

/// The source of a package's configuration: the file named on the command
/// line when there is one (it takes precedence), else the package's metadata.
pub fn config_source(config_path: &Option<String>, p: &Package) -> (r: ConfigSource)
    ensures
        is_config_source(r, match config_path {
            Some(path) => Some(path@),
            None => None,
        }, p.metadata@),
{
    match config_path {
        Some(path) => ConfigSource::File(path.clone()),
        None => resolve_config_for_package(p),
    }
}

} // verus!

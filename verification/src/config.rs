use vstd::prelude::*;

verus! {

use crate::text::lower_ascii;
use configparser::ini::Ini;

/// The credentials, region and endpoint a client is built from.
#[derive(Debug)]
pub struct Config {
    pub aws_access_key_id: String,
    pub aws_secret_access_key: String,
    pub region: String,
    pub endpoint: String,
}

#[verifier::external_type_specification]
#[verifier::external_body]
pub struct ExIni(Ini);

/// What a parsed configuration holds: for each section, for each key,
/// the key's value if it has one.
pub uninterp spec fn ini_sections(ini: Ini) -> Map<Seq<char>, Map<Seq<char>, Option<Seq<char>>>>;

/// The configuration was built by `Ini::new`, so lookups case-fold and
/// nothing cascades from a default section.
pub uninterp spec fn ini_is_default(ini: Ini) -> bool;

/// What parsing a configuration text yields: its sections, or nothing
/// when the text is malformed.
pub uninterp spec fn ini_parsed(text: Seq<char>) -> Option<
    Map<Seq<char>, Map<Seq<char>, Option<Seq<char>>>>,
>;

/// Relies on `configparser::ini::Ini::new`: an empty configuration with
/// the default settings (case-insensitive, no cascading defaults).
#[verifier::external_body]
fn ini_new() -> (r: Ini)
    ensures
        ini_is_default(r),
        ini_sections(r).dom() == Set::<Seq<char>>::empty(),
{
    Ini::new()
}

/// Relies on `configparser::ini::Ini::read`: it parses the text, and on
/// success replaces the stored sections with the parse's result; on
/// failure it returns the parse error.
#[verifier::external_body]
fn ini_read(ini: &mut Ini, text: String) -> (r: Result<(), String>)
    requires
        ini_is_default(*old(ini)),
    ensures
        ini_is_default(*final(ini)),
        r is Ok <==> ini_parsed(text@) is Some,
        r is Ok ==> ini_sections(*final(ini)) == ini_parsed(text@)->0,
{
    match ini.read(text) {
        Ok(_) => Ok(()),
        Err(e) => Err(e),
    }
}

/// Relies on `configparser::ini::Ini::get`: it case-folds the section
/// and the key — the identity here, both being lowercase ASCII — and
/// returns a clone of the stored value. A missing section, a missing
/// key and a key without a value all yield nothing.
#[verifier::external_body]
fn ini_get(ini: &Ini, section: &str, key: &str) -> (r: Option<String>)
    requires
        ini_is_default(*ini),
        lower_ascii(section@),
        lower_ascii(key@),
    ensures
        r is Some <==> ini_lookup(ini_sections(*ini), section@, key@) is Some,
        r is Some ==> r->0@ == ini_lookup(ini_sections(*ini), section@, key@)->0,
{
    ini.get(section, key)
}

/// The stored value of `key` under `section`, if both exist and the key
/// has one.
pub open spec fn ini_lookup(
    m: Map<Seq<char>, Map<Seq<char>, Option<Seq<char>>>>,
    section: Seq<char>,
    key: Seq<char>,
) -> Option<Seq<char>> {
    if m.contains_key(section) && m[section].contains_key(key) {
        m[section][key]
    } else {
        None
    }
}

/// A present value reads as itself; an absent one reads `None`.
pub open spec fn value_or_none(v: Option<Seq<char>>) -> Seq<char> {
    match v {
        Some(s) => s,
        None => "None"@,
    }
}

/// Reads a configuration value out of a lookup result: a value that is
/// there is taken as it stands, anything absent reads `None`. Never
/// empty-handed.
pub fn get_value(value: Option<&Option<String>>) -> (r: Option<String>)
    ensures
        r is Some,
        r->0@ == match value {
            Some(o) => match o {
                Some(v) => v@,
                None => "None"@,
            },
            None => "None"@,
        },
{
    match value {
        Some(opt) => match opt {
            Some(v) => Some(v.clone()),
            None => Some("None".to_owned()),
        },
        None => Some("None".to_owned()),
    }
}

/// Parses a credentials text into a [`Config`]: each of the four keys
/// is looked up in the `default` section, and a key that is absent or
/// empty reads `None`. A malformed text is rejected with the parse
/// error.
pub fn parser(text: String) -> (r: Result<Config, String>)
    ensures
        r is Ok <==> ini_parsed(text@) is Some,
        r is Ok ==> ({
            let m = ini_parsed(text@)->0;
            let c = r->Ok_0;
            &&& c.aws_access_key_id@ == value_or_none(
                ini_lookup(m, "default"@, "aws_access_key_id"@),
            )
            &&& c.aws_secret_access_key@ == value_or_none(
                ini_lookup(m, "default"@, "aws_secret_access_key"@),
            )
            &&& c.region@ == value_or_none(ini_lookup(m, "default"@, "region"@))
            &&& c.endpoint@ == value_or_none(ini_lookup(m, "default"@, "endpoint"@))
        }),
{
    proof {
        reveal_strlit("default");
        reveal_strlit("aws_access_key_id");
        reveal_strlit("aws_secret_access_key");
        reveal_strlit("region");
        reveal_strlit("endpoint");
        assert(lower_ascii("default"@));
        assert(lower_ascii("aws_access_key_id"@));
        assert(lower_ascii("aws_secret_access_key"@));
        assert(lower_ascii("region"@));
        assert(lower_ascii("endpoint"@));
    }
    let mut ini = ini_new();
    match ini_read(&mut ini, text) {
        Ok(_) => {},
        Err(e) => {
            return Err(e);
        },
    }
    let g0 = ini_get(&ini, "default", "aws_access_key_id");
    let g1 = ini_get(&ini, "default", "aws_secret_access_key");
    let g2 = ini_get(&ini, "default", "region");
    let g3 = ini_get(&ini, "default", "endpoint");
    let v0 = get_value(Some(&g0));
    let v1 = get_value(Some(&g1));
    let v2 = get_value(Some(&g2));
    let v3 = get_value(Some(&g3));
    Ok(
        Config {
            aws_access_key_id: v0.unwrap(),
            aws_secret_access_key: v1.unwrap(),
            region: v2.unwrap(),
            endpoint: v3.unwrap(),
        },
    )
}

} // verus!

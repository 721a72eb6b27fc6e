use vstd::prelude::*;
use vstd::string::*;
use crate::rules::{
    default_rules, get_default_rules, property_keys, registry_lookup, rule_from_str, Rule, RuleConfigurationError, RuleInstance,
    RuleProperties, RulePropertyValue,
};

verus! {

/// A rule as a configuration document: its bare name, or a map whose reserved key
/// `rule` gives the name and whose other keys give properties. The map is held as
/// the entries in the order in which they were read, repeats included.
#[derive(Debug, PartialEq, Eq)]
pub enum RuleDocument {
    Name(String),
    Object(Vec<(String, RulePropertyValue)>),
}

/// Why a document does not decode to a rule.
#[derive(Debug, PartialEq, Eq)]
pub enum DecodeError {
    /// The registry knows no rule of this name.
    InvalidRuleName(String),
    /// The map has no `rule` entry.
    MissingRuleField,
    /// The map has a second `rule` entry.
    DuplicateRuleField,
    /// The map repeats this property.
    DuplicateProperty(String),
    /// The `rule` entry does not hold text.
    RuleNameNotText,
    /// The rule refused the properties.
    Configuration(RuleConfigurationError),
}

/// The reserved key of the verbose form.
pub open spec fn rule_key() -> Seq<char> {
    "rule"@
}

/// The compact form for a rule without properties, else the verbose form: the
/// `rule` entry first, then exactly the rule's properties, in order.
pub open spec fn is_encoding_of(doc: RuleDocument, rule: RuleInstance) -> bool {
    let properties = rule.spec_properties();
    if properties.len() == 0 {
        doc is Name && doc->Name_0@ == rule.spec_name()
    } else {
        &&& doc is Object
        &&& doc->Object_0@.len() == properties.len() + 1
        &&& doc->Object_0@[0].0@ == rule_key()
        &&& match doc->Object_0@[0].1 {
            RulePropertyValue::String(name) => name@ == rule.spec_name(),
            RulePropertyValue::Usize(_) => false,
        }
        &&& doc->Object_0@.skip(1) == properties
    }
}

/// The name and the properties gathered from the first `n` entries of a map, or
/// the first error met on the way.
pub open spec fn gather(entries: Seq<(String, RulePropertyValue)>, n: nat) -> Result<
    (Option<String>, Seq<(String, RulePropertyValue)>),
    DecodeError,
>
    decreases n,
{
    if n == 0 {
        Ok((None, Seq::empty()))
    } else {
        match gather(entries, (n - 1) as nat) {
            Err(e) => Err(e),
            Ok((name, properties)) => {
                let (key, value) = entries[n - 1];
                if key@ == rule_key() {
                    if name is Some {
                        Err(DecodeError::DuplicateRuleField)
                    } else {
                        match value {
                            RulePropertyValue::String(s) => Ok((Some(s), properties)),
                            RulePropertyValue::Usize(_) => Err(DecodeError::RuleNameNotText),
                        }
                    }
                } else if property_keys(properties).contains(key@) {
                    Err(DecodeError::DuplicateProperty(key))
                } else {
                    Ok((name, properties.push((key, value))))
                }
            },
        }
    }
}

/// The default instance registered under `name`, configured with `properties`.
pub open spec fn build_rule(name: String, properties: Seq<(String, RulePropertyValue)>) -> Result<
    RuleInstance,
    DecodeError,
> {
    match registry_lookup(name@) {
        None => Err(DecodeError::InvalidRuleName(name)),
        Some(rule) => match rule.spec_configure(properties) {
            Ok(configured) => Ok(configured),
            Err(e) => Err(DecodeError::Configuration(e)),
        },
    }
}

/// What a document decodes to.
pub open spec fn decode_spec(doc: RuleDocument) -> Result<RuleInstance, DecodeError> {
    match doc {
        RuleDocument::Name(name) => match registry_lookup(name@) {
            Some(rule) => Ok(rule),
            None => Err(DecodeError::InvalidRuleName(name)),
        },
        RuleDocument::Object(entries) => match gather(entries@, entries@.len()) {
            Err(e) => Err(e),
            Ok((None, _)) => Err(DecodeError::MissingRuleField),
            Ok((Some(name), properties)) => build_rule(name, properties),
        },
    }
}

/// Writes a rule as a document.
pub fn encode(rule: &RuleInstance) -> (r: RuleDocument)
    ensures
        is_encoding_of(r, *rule),
{
    let properties = rule.serialize_to_properties();
    let name = String::from_str(rule.get_name());
    if properties.is_empty() {
        RuleDocument::Name(name)
    } else {
        let mut rest = properties.into_entries();
        let mut entries: Vec<(String, RulePropertyValue)> = Vec::new();
        entries.push((String::from_str("rule"), RulePropertyValue::String(name)));
        let ghost tail = rest@;
        entries.append(&mut rest);
        proof {
            reveal_strlit("rule");
            assert(entries@.skip(1) =~= tail);
        }
        RuleDocument::Object(entries)
    }
}

/// Reads a rule from a document: a bare name gives the registered default instance;
/// a map gives the registered instance configured once with the map's other entries.
pub fn decode(doc: &RuleDocument) -> (r: Result<RuleInstance, DecodeError>)
    ensures
        r == decode_spec(*doc),
{
    match doc {
        RuleDocument::Name(name) => match rule_from_str(name.as_str()) {
            Ok(rule) => Ok(rule),
            Err(_) => Err(DecodeError::InvalidRuleName(name.clone())),
        },
        RuleDocument::Object(entries) => {
            let key_rule = String::from_str("rule");
            let mut name: Option<String> = None;
            let mut properties = RuleProperties::new();
            let mut i: usize = 0;
            while i < entries.len()
                invariant
                    i <= entries@.len(),
                    key_rule@ == rule_key(),
                    *doc == RuleDocument::Object(*entries),
                    properties.wf(),
                    gather(entries@, i as nat) == Ok::<
                        (Option<String>, Seq<(String, RulePropertyValue)>),
                        DecodeError,
                    >((name, properties@)),
                decreases entries@.len() - i,
            {
                let key = &entries[i].0;
                let value = &entries[i].1;
                proof {
                    assert(entries@[i as int] == (*key, *value));
                    assert((i + 1) as nat - 1 == i as nat);
                }
                if *key == key_rule {
                    if name.is_some() {
                        proof {
                            assert(gather(entries@, (i + 1) as nat) == Err::<
                                (Option<String>, Seq<(String, RulePropertyValue)>),
                                DecodeError,
                            >(DecodeError::DuplicateRuleField));
                            lemma_gather_error_persists(entries@, (i + 1) as nat, entries@.len());
                        }
                        return Err(DecodeError::DuplicateRuleField);
                    }
                    match value {
                        RulePropertyValue::String(s) => {
                            name = Some(s.clone());
                        },
                        RulePropertyValue::Usize(_) => {
                            proof {
                                lemma_gather_error_persists(entries@, (i + 1) as nat, entries@.len());
                            }
                            return Err(DecodeError::RuleNameNotText);
                        },
                    }
                } else {
                    if !properties.insert(key.clone(), value.duplicate()) {
                        let duplicate = key.clone();
                        proof {
                            lemma_gather_error_persists(entries@, (i + 1) as nat, entries@.len());
                        }
                        return Err(DecodeError::DuplicateProperty(duplicate));
                    }
                }
                i = i + 1;
            }
            match name {
                None => Err(DecodeError::MissingRuleField),
                Some(n) => match rule_from_str(n.as_str()) {
                    Err(_) => Err(DecodeError::InvalidRuleName(n)),
                    Ok(mut rule) => match rule.configure(properties) {
                        Ok(()) => Ok(rule),
                        Err(e) => Err(DecodeError::Configuration(e)),
                    },
                },
            }
        },
    }
}

/// Once gathering has failed, reading further entries keeps that error.
proof fn lemma_gather_error_persists(entries: Seq<(String, RulePropertyValue)>, m: nat, n: nat)
    requires
        m <= n,
        gather(entries, m) is Err,
    ensures
        gather(entries, n) == gather(entries, m),
    decreases n - m,
{
    if m < n {
        lemma_gather_error_persists(entries, m, (n - 1) as nat);
    }
}

/// Writes each rule of a pipeline as a document, in order.
pub fn encode_rules(rules: &Vec<RuleInstance>) -> (r: Vec<RuleDocument>)
    ensures
        r@.len() == rules@.len(),
        forall|i: int| 0 <= i < rules@.len() ==> is_encoding_of(#[trigger] r@[i], rules@[i]),
{
    let mut documents: Vec<RuleDocument> = Vec::new();
    let mut i: usize = 0;
    while i < rules.len()
        invariant
            i <= rules@.len(),
            documents@.len() == i,
            forall|k: int| 0 <= k < i ==> is_encoding_of(#[trigger] documents@[k], rules@[k]),
        decreases rules@.len() - i,
    {
        documents.push(encode(&rules[i]));
        i = i + 1;
    }
    documents
}

/// `r` is what a list of documents decodes to: every rule where each document decodes,
/// else the error of the first document that does not.
pub open spec fn list_decodes_to(
    documents: Seq<RuleDocument>,
    r: Result<Vec<RuleInstance>, DecodeError>,
) -> bool {
    match r {
        Ok(rules) => rules@.len() == documents.len() && forall|i: int|
            0 <= i < documents.len() ==> decode_spec(#[trigger] documents[i]) == Ok::<
                RuleInstance,
                DecodeError,
            >(rules@[i]),
        Err(e) => exists|k: int|
            0 <= k < documents.len() && decode_spec(#[trigger] documents[k]) == Err::<
                RuleInstance,
                DecodeError,
            >(e) && forall|j: int| 0 <= j < k ==> (#[trigger] decode_spec(documents[j])) is Ok,
    }
}

/// Reads a pipeline from a list of documents, each decoded on its own. The first
/// document that fails to decode fails the whole list, with its error.
pub fn decode_rules(documents: &Vec<RuleDocument>) -> (r: Result<Vec<RuleInstance>, DecodeError>)
    ensures
        list_decodes_to(documents@, r),
{
    let mut rules: Vec<RuleInstance> = Vec::new();
    let mut i: usize = 0;
    while i < documents.len()
        invariant
            i <= documents@.len(),
            rules@.len() == i,
            forall|k: int|
                0 <= k < i ==> decode_spec(#[trigger] documents@[k]) == Ok::<RuleInstance, DecodeError>(
                    rules@[k],
                ),
        decreases documents@.len() - i,
    {
        match decode(&documents[i]) {
            Ok(rule) => rules.push(rule),
            Err(e) => {
                proof {
                    assert(forall|j: int| 0 <= j < i ==> (#[trigger] decode_spec(documents@[j])) is Ok);
                    assert(decode_spec(documents@[i as int]) == Err::<RuleInstance, DecodeError>(e));
                }
                return Err(e);
            },
        }
        i = i + 1;
    }
    Ok(rules)
}

/// The pipeline that a configuration gives: the decoded list where there is one,
/// else the default pipeline.
pub fn configured_rules(documents: Option<&Vec<RuleDocument>>) -> (r: Result<
    Vec<RuleInstance>,
    DecodeError,
>)
    ensures
        documents is None ==> r is Ok && r->Ok_0@ == default_rules(),
        documents is Some ==> list_decodes_to(documents->Some_0@, r),
{
    match documents {
        None => Ok(get_default_rules()),
        Some(list) => decode_rules(list),
    }
}

/// Decoding the document that encodes a rule gives a rule of the same name with the
/// same serialized properties.
pub proof fn lemma_round_trip(rule: RuleInstance, doc: RuleDocument)
    requires
        is_encoding_of(doc, rule),
    ensures
        decode_spec(doc) is Ok,
        decode_spec(doc)->Ok_0.spec_name() == rule.spec_name(),
        decode_spec(doc)->Ok_0.spec_properties() == rule.spec_properties(),
{
}

/// Once a `rule` entry holding text has been read, gathering either fails or keeps a name.
proof fn lemma_gather_name_kept(entries: Seq<(String, RulePropertyValue)>, a: int, n: nat)
    requires
        0 <= a < n <= entries.len(),
        entries[a].0@ == rule_key(),
        entries[a].1 is String,
        gather(entries, n) is Ok,
    ensures
        gather(entries, n)->Ok_0.0 is Some,
    decreases n,
{
    if gather(entries, (n - 1) as nat) is Err {
        lemma_gather_error_persists(entries, (n - 1) as nat, n);
    } else if a < n - 1 {
        lemma_gather_name_kept(entries, a, (n - 1) as nat);
    }
}

/// Once a property has been read, gathering either fails or keeps it.
proof fn lemma_gather_property_kept(entries: Seq<(String, RulePropertyValue)>, a: int, n: nat)
    requires
        0 <= a < n <= entries.len(),
        entries[a].0@ != rule_key(),
        gather(entries, n) is Ok,
    ensures
        property_keys(gather(entries, n)->Ok_0.1).contains(entries[a].0@),
    decreases n,
{
    if gather(entries, (n - 1) as nat) is Err {
        lemma_gather_error_persists(entries, (n - 1) as nat, n);
    } else if a < n - 1 {
        lemma_gather_property_kept(entries, a, (n - 1) as nat);
        let props = gather(entries, (n - 1) as nat)->Ok_0.1;
        let k = entries[a].0@;
        let j = choose|j: int| 0 <= j < property_keys(props).len() && property_keys(props)[j] == k;
        let next = gather(entries, n)->Ok_0.1;
        if next != props {
            assert(property_keys(next)[j] == k);
        }
    } else {
        let props = gather(entries, (n - 1) as nat)->Ok_0.1;
        let next = gather(entries, n)->Ok_0.1;
        assert(property_keys(next)[props.len() as int] == entries[a].0@);
    }
}

/// A map with two `rule` entries, the first holding text, fails as a duplicate `rule`
/// field, unless an error came earlier in the map.
pub proof fn lemma_duplicate_rule_field(entries: Vec<(String, RulePropertyValue)>, a: int, b: int)
    requires
        0 <= a < b < entries@.len(),
        entries@[a].0@ == rule_key(),
        entries@[b].0@ == rule_key(),
        entries@[a].1 is String,
        gather(entries@, b as nat) is Ok,
    ensures
        decode_spec(RuleDocument::Object(entries)) == Err::<RuleInstance, DecodeError>(
            DecodeError::DuplicateRuleField,
        ),
{
    lemma_gather_name_kept(entries@, a, b as nat);
    assert((b + 1) as nat - 1 == b as nat);
    lemma_gather_error_persists(entries@, (b + 1) as nat, entries@.len());
}

/// A map that repeats a property fails as a duplicate of that property, unless an
/// error came earlier in the map.
pub proof fn lemma_duplicate_property(entries: Vec<(String, RulePropertyValue)>, a: int, b: int)
    requires
        0 <= a < b < entries@.len(),
        entries@[a].0@ != rule_key(),
        entries@[b].0@ == entries@[a].0@,
        gather(entries@, b as nat) is Ok,
    ensures
        decode_spec(RuleDocument::Object(entries)) == Err::<RuleInstance, DecodeError>(
            DecodeError::DuplicateProperty(entries@[b].0),
        ),
{
    lemma_gather_property_kept(entries@, a, b as nat);
    assert((b + 1) as nat - 1 == b as nat);
    lemma_gather_error_persists(entries@, (b + 1) as nat, entries@.len());
}

/// A map without a `rule` entry fails as a missing `rule` field, unless it repeats a
/// property.
pub proof fn lemma_missing_rule_field(entries: Vec<(String, RulePropertyValue)>)
    requires
        forall|i: int| 0 <= i < entries@.len() ==> (#[trigger] entries@[i]).0@ != rule_key(),
        property_keys(entries@).no_duplicates(),
    ensures
        decode_spec(RuleDocument::Object(entries)) == Err::<RuleInstance, DecodeError>(
            DecodeError::MissingRuleField,
        ),
{
    lemma_gather_all_properties(entries@, entries@.len());
}

/// Without a `rule` entry and without a repeated name, gathering keeps every entry.
proof fn lemma_gather_all_properties(entries: Seq<(String, RulePropertyValue)>, n: nat)
    requires
        n <= entries.len(),
        forall|i: int| 0 <= i < entries.len() ==> (#[trigger] entries[i]).0@ != rule_key(),
        property_keys(entries).no_duplicates(),
    ensures
        gather(entries, n) == Ok::<(Option<String>, Seq<(String, RulePropertyValue)>), DecodeError>(
            (None, entries.take(n as int)),
        ),
    decreases n,
{
    if n > 0 {
        lemma_gather_all_properties(entries, (n - 1) as nat);
        let prev = entries.take(n - 1);
        assert(entries.take(n as int) =~= prev.push(entries[n - 1]));
        if property_keys(prev).contains(entries[n - 1].0@) {
            let j = choose|j: int| 0 <= j < property_keys(prev).len() && property_keys(prev)[j] == entries[n - 1].0@;
            assert(property_keys(entries)[j] == property_keys(entries)[n - 1]);
        }
    } else {
        assert(entries.take(0) =~= Seq::<(String, RulePropertyValue)>::empty());
    }
}

/// A verbose form read from the start: the name from the leading `rule` entry, and
/// every later entry as a property.
proof fn lemma_gather_verbose(entries: Seq<(String, RulePropertyValue)>, name: String, n: nat)
    requires
        1 <= n <= entries.len(),
        entries[0].0@ == rule_key(),
        entries[0].1 == RulePropertyValue::String(name),
        forall|i: int| 1 <= i < entries.len() ==> (#[trigger] entries[i]).0@ != rule_key(),
        property_keys(entries.skip(1)).no_duplicates(),
    ensures
        gather(entries, n) == Ok::<(Option<String>, Seq<(String, RulePropertyValue)>), DecodeError>(
            (Some(name), entries.skip(1).take(n - 1)),
        ),
    decreases n,
{
    if n == 1 {
        assert(gather(entries, 0) == Ok::<
            (Option<String>, Seq<(String, RulePropertyValue)>),
            DecodeError,
        >((None, Seq::empty())));
        assert(entries.skip(1).take(0) =~= Seq::<(String, RulePropertyValue)>::empty());
    } else {
        lemma_gather_verbose(entries, name, (n - 1) as nat);
        let rest = entries.skip(1);
        let prev = rest.take(n - 2);
        assert(rest.take(n - 1) =~= prev.push(entries[n - 1]));
        assert(rest[n - 2] == entries[n - 1]);
        if property_keys(prev).contains(entries[n - 1].0@) {
            let j = choose|j: int| 0 <= j < property_keys(prev).len() && property_keys(prev)[j] == entries[n - 1].0@;
            assert(property_keys(rest)[j] == property_keys(rest)[n - 2]);
        }
    }
}

/// A map whose first entry is `rule` holding a name, followed by properties of distinct
/// names other than `rule`, decodes to the rule registered under that name, configured
/// once with exactly those properties in that order.
pub proof fn lemma_decode_verbose(entries: Vec<(String, RulePropertyValue)>, name: String)
    requires
        entries@.len() >= 1,
        entries@[0].0@ == rule_key(),
        entries@[0].1 == RulePropertyValue::String(name),
        forall|i: int| 1 <= i < entries@.len() ==> (#[trigger] entries@[i]).0@ != rule_key(),
        property_keys(entries@.skip(1)).no_duplicates(),
    ensures
        decode_spec(RuleDocument::Object(entries)) == build_rule(name, entries@.skip(1)),
{
    lemma_gather_verbose(entries@, name, entries@.len());
    assert(entries@.skip(1).take(entries@.len() - 1) =~= entries@.skip(1));
}

} // verus!

//! What the configuration says of the resources of all events.
//!
//! Default attributes are added to what an event tells of its resource, where it does not tell them
//! itself. A service name or version of the configuration comes in place of any other.
use vstd::prelude::*;
use vstd::string::*;
use crate::config::OtlpConfig;
use crate::metrics::{make_text_pair, text_pair};
use crate::ordered::{list_entries, ordered_entries};
use crate::proto::{KeyValue, SpecKeyValue};
use crate::service::header_views;
use crate::text::same_text;
use crate::views::{group_views, view_option, views};

verus! {

broadcast use group_views;

/// What is said of all resources.
#[derive(Clone, Debug)]
pub struct ResourceSettings {
    /// Attributes for resources that do not have them.
    pub defaults: Vec<(String, String)>,
    /// The service name of all resources.
    pub service_name: Option<String>,
    /// The service version of all resources.
    pub service_version: Option<String>,
}

/// What a `ResourceSettings` says.
#[verifier::ext_equal]
pub struct SpecResourceSettings {
    pub defaults: Seq<(Seq<char>, Seq<char>)>,
    pub service_name: Option<Seq<char>>,
    pub service_version: Option<Seq<char>>,
}

impl View for ResourceSettings {
    type V = SpecResourceSettings;

    open spec fn view(&self) -> SpecResourceSettings {
        SpecResourceSettings {
            defaults: header_views(self.defaults@),
            service_name: view_option(self.service_name),
            service_version: view_option(self.service_version),
        }
    }
}

/// What a configuration says of all resources.
pub open spec fn settings_of(config: OtlpConfig) -> SpecResourceSettings {
    SpecResourceSettings {
        defaults: ordered_entries(config.resource_attributes),
        service_name: view_option(config.service_name),
        service_version: view_option(config.service_version),
    }
}

/// Settings that say nothing.
pub open spec fn no_settings() -> SpecResourceSettings {
    SpecResourceSettings { defaults: Seq::empty(), service_name: None, service_version: None }
}

/// Whether one of the attributes has a key.
pub open spec fn has_key(attributes: Seq<SpecKeyValue>, key: Seq<char>) -> bool {
    exists|i: int| 0 <= i < attributes.len() && (#[trigger] attributes[i]).key == key
}

/// The attributes with one more, unless its key is there already.
pub open spec fn with_default(
    attributes: Seq<SpecKeyValue>,
    key: Seq<char>,
    text: Seq<char>,
) -> Seq<SpecKeyValue> {
    if has_key(attributes, key) {
        attributes
    } else {
        attributes.push(text_pair(key, text))
    }
}

/// The attributes with all defaults whose keys they do not have.
pub open spec fn with_defaults(
    attributes: Seq<SpecKeyValue>,
    defaults: Seq<(Seq<char>, Seq<char>)>,
) -> Seq<SpecKeyValue>
    decreases defaults.len(),
{
    if defaults.len() == 0 {
        attributes
    } else {
        let before = with_defaults(attributes, defaults.drop_last());
        with_default(before, defaults.last().0, defaults.last().1)
    }
}

/// The attributes but for those with a key.
pub open spec fn without_key(attributes: Seq<SpecKeyValue>, key: Seq<char>) -> Seq<SpecKeyValue>
    decreases attributes.len(),
{
    if attributes.len() == 0 {
        Seq::empty()
    } else if attributes.last().key == key {
        without_key(attributes.drop_last(), key)
    } else {
        without_key(attributes.drop_last(), key).push(attributes.last())
    }
}

/// The attributes with a text, where there is one, in place of all else that stands under a key.
pub open spec fn with_override(
    attributes: Seq<SpecKeyValue>,
    key: Seq<char>,
    text: Option<Seq<char>>,
) -> Seq<SpecKeyValue> {
    match text {
        Some(text) => without_key(attributes, key).push(text_pair(key, text)),
        None => attributes,
    }
}

/// The attributes of a resource of which an event tells `told`.
pub open spec fn applied(settings: SpecResourceSettings, told: Seq<SpecKeyValue>) -> Seq<
    SpecKeyValue,
> {
    let all = with_defaults(told, settings.defaults);
    let named = with_override(all, "service.name"@, settings.service_name);
    with_override(named, "service.version"@, settings.service_version)
}

/// Whether one of the attributes has a key.
fn find_attribute(attributes: &Vec<KeyValue>, key: &str) -> (found: bool)
    ensures
        found == has_key(views(attributes@), key@),
{
    let ghost all = views(attributes@);
    let mut i: usize = 0;
    while i < attributes.len()
        invariant
            i <= attributes@.len(),
            all == views(attributes@),
            forall|j: int| 0 <= j < i ==> (#[trigger] all[j]).key != key@,
        decreases attributes@.len() - i,
    {
        assert(all[i as int] == attributes@[i as int]@);
        if same_text(attributes[i].key.as_str(), key) {
            return true;
        }
        i = i + 1;
    }
    false
}

/// Puts a text, where there is one, in place of all else that stands under a key.
fn override_attribute(attributes: Vec<KeyValue>, key: &str, text: &Option<String>) -> (result: Vec<
    KeyValue,
>)
    ensures
        views(result@) == with_override(views(attributes@), key@, view_option(*text)),
{
    match text {
        Some(text) => {
            let ghost all = views(attributes@);
            let mut kept: Vec<KeyValue> = Vec::new();
            for attribute in iter: attributes
                invariant
                    iter.seq() == attributes@,
                    all == views(attributes@),
                    views(kept@) == without_key(all.take(iter.index() as int), key@),
            {
                assert(all.take(iter.index() + 1).drop_last() =~= all.take(iter.index() as int));
                assert(all[iter.index() as int] == attribute@);
                if !same_text(attribute.key.as_str(), key) {
                    kept.push(attribute);
                }
            }
            assert(all.take(all.len() as int) =~= all);
            kept.push(make_text_pair(key.to_owned(), text.clone()));
            kept
        },
        None => attributes,
    }
}

impl ResourceSettings {
    /// Reads a configuration.
    pub fn new(config: &OtlpConfig) -> (settings: Self)
        ensures
            settings@ == settings_of(*config),
    {
        ResourceSettings {
            defaults: list_entries(&config.resource_attributes),
            service_name: config.service_name.clone(),
            service_version: config.service_version.clone(),
        }
    }

    /// Settings that say nothing.
    pub fn none() -> (settings: Self)
        ensures
            settings@ == no_settings(),
    {
        let settings = ResourceSettings {
            defaults: Vec::new(),
            service_name: None,
            service_version: None,
        };
        assert(settings@ =~= no_settings());
        settings
    }

    /// Applies the settings to the attributes that an event tells.
    pub fn apply(&self, told: Vec<KeyValue>) -> (attributes: Vec<KeyValue>)
        ensures
            views(attributes@) == applied(self@, views(told@)),
    {
        let ghost defaults = self@.defaults;
        let ghost first = views(told@);
        let mut attributes = told;
        let mut i: usize = 0;
        while i < self.defaults.len()
            invariant
                i <= self.defaults@.len(),
                defaults == header_views(self.defaults@),
                views(attributes@) == with_defaults(first, defaults.take(i as int)),
            decreases self.defaults@.len() - i,
        {
            assert(defaults.take(i + 1).drop_last() =~= defaults.take(i as int));
            if !find_attribute(&attributes, self.defaults[i].0.as_str()) {
                attributes.push(
                    make_text_pair(self.defaults[i].0.clone(), self.defaults[i].1.clone()),
                );
            }
            i = i + 1;
        }
        assert(defaults.take(i as int) =~= defaults);
        let named = override_attribute(attributes, "service.name", &self.service_name);
        override_attribute(named, "service.version", &self.service_version)
    }
}

/// Where nothing is configured, the attributes are those that the event tells.
pub proof fn law_without_settings_nothing_changes(told: Seq<SpecKeyValue>)
    ensures
        applied(no_settings(), told) == told,
{
}

/// What is left without a key: all attributes with other keys, and no others.
proof fn lemma_without_key(attributes: Seq<SpecKeyValue>, key: Seq<char>, attribute: SpecKeyValue)
    ensures
        without_key(attributes, key).contains(attribute) <==> attributes.contains(attribute)
            && attribute.key != key,
    decreases attributes.len(),
{
    if attributes.len() > 0 {
        let rest = attributes.drop_last();
        let last = attributes.last();
        lemma_without_key(rest, key, attribute);
        assert(attributes =~= rest.push(last));
        lemma_contains_push(rest, last, attribute);
        lemma_contains_push(without_key(rest, key), last, attribute);
    }
}

proof fn lemma_contains_push(attributes: Seq<SpecKeyValue>, last: SpecKeyValue, a: SpecKeyValue)
    ensures
        attributes.push(last).contains(a) <==> attributes.contains(a) || a == last,
{
    let all = attributes.push(last);
    if attributes.contains(a) {
        let i = choose|i: int| 0 <= i < attributes.len() && attributes[i] == a;
        assert(all[i] == a);
    }
    if a == last {
        assert(all[attributes.len() as int] == a);
    }
    if all.contains(a) && a != last {
        let i = choose|i: int| 0 <= i < all.len() && all[i] == a;
        assert(attributes[i] == a);
    }
}

/// What an override leaves: under its key its text alone, under all other keys what there was.
proof fn lemma_with_override(
    attributes: Seq<SpecKeyValue>,
    key: Seq<char>,
    text: Option<Seq<char>>,
    a: SpecKeyValue,
)
    ensures
        with_override(attributes, key, text).contains(a) <==> (match text {
            Some(t) => if a.key == key {
                a == text_pair(key, t)
            } else {
                attributes.contains(a)
            },
            None => attributes.contains(a),
        }),
{
    if let Some(t) = text {
        lemma_without_key(attributes, key, a);
        lemma_contains_push(without_key(attributes, key), text_pair(key, t), a);
    }
}

/// Whether the configuration says what stands under a key.
pub open spec fn is_overridden(settings: SpecResourceSettings, key: Seq<char>) -> bool {
    ||| key == "service.name"@ && settings.service_name is Some
    ||| key == "service.version"@ && settings.service_version is Some
}

proof fn lemma_service_keys_differ()
    ensures
        "service.name"@ != "service.version"@,
{
    reveal_strlit("service.name");
    reveal_strlit("service.version");
    assert("service.name"@.len() == 12);
    assert("service.version"@.len() == 15);
}

proof fn lemma_applied(settings: SpecResourceSettings, told: Seq<SpecKeyValue>, a: SpecKeyValue)
    requires
        !is_overridden(settings, a.key),
    ensures
        applied(settings, told).contains(a) <==> with_defaults(told, settings.defaults).contains(a),
{
    let all = with_defaults(told, settings.defaults);
    let named = with_override(all, "service.name"@, settings.service_name);
    lemma_with_override(all, "service.name"@, settings.service_name, a);
    lemma_with_override(named, "service.version"@, settings.service_version, a);
}

/// A service name of the configuration is the only one that a resource has.
pub proof fn law_configured_service_name_is_the_only_one(
    settings: SpecResourceSettings,
    told: Seq<SpecKeyValue>,
    name: Seq<char>,
    a: SpecKeyValue,
)
    requires
        settings.service_name == Some(name),
        a.key == "service.name"@,
    ensures
        applied(settings, told).contains(a) <==> a == text_pair("service.name"@, name),
{
    lemma_service_keys_differ();
    let all = with_defaults(told, settings.defaults);
    let named = with_override(all, "service.name"@, settings.service_name);
    lemma_with_override(all, "service.name"@, settings.service_name, a);
    lemma_with_override(named, "service.version"@, settings.service_version, a);
}

/// A service version of the configuration is the only one that a resource has.
pub proof fn law_configured_service_version_is_the_only_one(
    settings: SpecResourceSettings,
    told: Seq<SpecKeyValue>,
    version: Seq<char>,
    a: SpecKeyValue,
)
    requires
        settings.service_version == Some(version),
        a.key == "service.version"@,
    ensures
        applied(settings, told).contains(a) <==> a == text_pair("service.version"@, version),
{
    lemma_service_keys_differ();
    let all = with_defaults(told, settings.defaults);
    let named = with_override(all, "service.name"@, settings.service_name);
    lemma_with_override(all, "service.name"@, settings.service_name, a);
    lemma_with_override(named, "service.version"@, settings.service_version, a);
}

proof fn lemma_defaults_keep(
    told: Seq<SpecKeyValue>,
    defaults: Seq<(Seq<char>, Seq<char>)>,
    a: SpecKeyValue,
)
    ensures
        told.contains(a) ==> with_defaults(told, defaults).contains(a),
        has_key(told, a.key) && with_defaults(told, defaults).contains(a) ==> told.contains(a),
        has_key(told, a.key) ==> has_key(with_defaults(told, defaults), a.key),
    decreases defaults.len(),
{
    if defaults.len() > 0 {
        let before = with_defaults(told, defaults.drop_last());
        let (key, text) = defaults.last();
        lemma_defaults_keep(told, defaults.drop_last(), a);
        lemma_contains_push(before, text_pair(key, text), a);
        if has_key(before, a.key) {
            let i = choose|i: int| 0 <= i < before.len() && (#[trigger] before[i]).key == a.key;
            assert(before.push(text_pair(key, text))[i].key == a.key);
        }
    }
}

/// What an event tells of its resource stays, but for a service name or version that the
/// configuration gives; and nothing else comes under the keys that it tells.
pub proof fn law_told_attributes_stay(
    settings: SpecResourceSettings,
    told: Seq<SpecKeyValue>,
    a: SpecKeyValue,
)
    requires
        has_key(told, a.key),
        !is_overridden(settings, a.key),
    ensures
        applied(settings, told).contains(a) <==> told.contains(a),
{
    lemma_applied(settings, told, a);
    lemma_defaults_keep(told, settings.defaults, a);
}

proof fn lemma_default_added(
    told: Seq<SpecKeyValue>,
    defaults: Seq<(Seq<char>, Seq<char>)>,
    i: int,
    a: SpecKeyValue,
)
    requires
        0 <= i < defaults.len(),
        a.key == defaults[i].0,
        !has_key(told, a.key),
        forall|j: int| 0 <= j < i ==> (#[trigger] defaults[j]).0 != a.key,
    ensures
        with_defaults(told, defaults).contains(a) <==> a == text_pair(
            defaults[i].0,
            defaults[i].1,
        ),
        has_key(with_defaults(told, defaults), a.key),
    decreases defaults.len(),
{
    let rest = defaults.drop_last();
    let before = with_defaults(told, rest);
    let (key, text) = defaults.last();
    let pair = text_pair(key, text);
    lemma_contains_push(before, pair, a);
    if i < rest.len() {
        lemma_default_added(told, rest, i, a);
        let k = choose|k: int| 0 <= k < before.len() && (#[trigger] before[k]).key == a.key;
        assert(before.push(pair)[k].key == a.key);
    } else {
        lemma_default_absent(told, rest, a.key);
        assert(before.push(pair)[before.len() as int].key == a.key);
        if before.contains(a) {
            let k = choose|k: int| 0 <= k < before.len() && before[k] == a;
            assert(before[k].key == a.key);
        }
    }
}

proof fn lemma_default_absent(
    told: Seq<SpecKeyValue>,
    defaults: Seq<(Seq<char>, Seq<char>)>,
    key: Seq<char>,
)
    requires
        !has_key(told, key),
        forall|j: int| 0 <= j < defaults.len() ==> (#[trigger] defaults[j]).0 != key,
    ensures
        !has_key(with_defaults(told, defaults), key),
    decreases defaults.len(),
{
    if defaults.len() > 0 {
        let rest = defaults.drop_last();
        let before = with_defaults(told, rest);
        assert forall|j: int| 0 <= j < rest.len() implies (#[trigger] rest[j]).0 != key by {
            assert(rest[j] == defaults[j]);
        }
        lemma_default_absent(told, rest, key);
        assert(defaults[defaults.len() - 1].0 != key);
        let all = before.push(text_pair(defaults.last().0, defaults.last().1));
        if has_key(all, key) {
            let k = choose|k: int| 0 <= k < all.len() && (#[trigger] all[k]).key == key;
            if k < before.len() {
                assert(before[k].key == key);
            }
        }
    }
}

/// A default attribute is on every resource of which the event does not tell it, but for a service
/// name or version that the configuration gives.
pub proof fn law_defaults_fill_in(
    settings: SpecResourceSettings,
    told: Seq<SpecKeyValue>,
    i: int,
    a: SpecKeyValue,
)
    requires
        0 <= i < settings.defaults.len(),
        a.key == settings.defaults[i].0,
        forall|j: int| 0 <= j < i ==> (#[trigger] settings.defaults[j]).0 != a.key,
        !has_key(told, a.key),
        !is_overridden(settings, a.key),
    ensures
        applied(settings, told).contains(a) <==> a == text_pair(
            settings.defaults[i].0,
            settings.defaults[i].1,
        ),
{
    lemma_applied(settings, told, a);
    lemma_default_added(told, settings.defaults, i, a);
}

}

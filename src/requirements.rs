//! Resource needs and recommendations declared by a function.

use crate::strmap::{inserted, lemma_inserted_lookup, lookup, text_eq, StrMap};
use vstd::prelude::*;

verus! {

/// A named resource with its value kept verbatim (units such as "256MB" or
/// "30s" are not parsed), and an optional description.
#[derive(Debug, Clone)]
pub struct Resource {
    /// Name of the resource ("memory", "timeout", ...).
    pub name: String,
    /// Value of the resource, with its unit if it has one.
    pub value: String,
    /// Description for documentation.
    pub description: Option<String>,
}

/// Whether `o` holds exactly the text `t`.
pub open spec fn holds_text(o: Option<String>, t: Seq<char>) -> bool {
    match o {
        Some(s) => s@ == t,
        None => false,
    }
}

/// The text of an optional string.
pub open spec fn opt_text(o: Option<String>) -> Option<Seq<char>> {
    match o {
        Some(s) => Some(s@),
        None => None,
    }
}

/// Whether two optional strings hold the same text, or are both absent.
pub fn opt_text_eq(a: &Option<String>, b: &Option<String>) -> (r: bool)
    ensures
        r == (opt_text(*a) == opt_text(*b)),
{
    match (a, b) {
        (Some(x), Some(y)) => text_eq(x.as_str(), y.as_str()),
        (None, None) => true,
        _ => false,
    }
}

impl PartialEq for Resource {
    fn eq(&self, other: &Resource) -> (r: bool)
        ensures
            r == (self.name@ == other.name@ && self.value@ == other.value@ && opt_text(
                self.description,
            ) == opt_text(other.description)),
    {
        text_eq(self.name.as_str(), other.name.as_str()) && text_eq(
            self.value.as_str(),
            other.value.as_str(),
        ) && opt_text_eq(&self.description, &other.description)
    }
}

impl vstd::std_specs::cmp::PartialEqSpecImpl for Resource {
    open spec fn obeys_eq_spec() -> bool {
        true
    }

    open spec fn eq_spec(&self, other: &Resource) -> bool {
        self.name@ == other.name@ && self.value@ == other.value@ && opt_text(self.description)
            == opt_text(other.description)
    }
}

impl Resource {
    /// A resource without description.
    pub fn new(name: &str, value: &str) -> (r: Resource)
        ensures
            r.name@ == name@,
            r.value@ == value@,
            r.description is None,
    {
        Resource { name: name.to_owned(), value: value.to_owned(), description: None }
    }

    /// The same resource with the given description.
    pub fn with_description(self, description: &str) -> (r: Resource)
        ensures
            r.name == self.name,
            r.value == self.value,
            holds_text(r.description, description@),
    {
        Resource { description: Some(description.to_owned()), ..self }
    }
}

/// Resource recommendations and requirements, supported platforms and the
/// environment variables a function reads.
#[derive(Debug, Clone)]
pub struct Requirements {
    /// Recommended resources, by name.
    pub recommended: StrMap<Resource>,
    /// Required resources, by name.
    pub required: StrMap<Resource>,
    /// Supported platform identifiers, in declaration order.
    pub platforms: Vec<String>,
    /// Names of environment variables used, in declaration order.
    pub environment: Vec<String>,
}

/// Whether the list `s` holds the text `t`.
pub open spec fn list_contains(s: Seq<String>, t: Seq<char>) -> bool {
    exists|i: int| 0 <= i < s.len() && s[i]@ == t
}

impl Requirements {
    /// Each resource map holds a name once.
    pub open spec fn wf(&self) -> bool {
        self.recommended.wf() && self.required.wf()
    }

    /// No resources, platforms or environment variables.
    pub fn new() -> (r: Requirements)
        ensures
            r.recommended@.len() == 0,
            r.required@.len() == 0,
            r.platforms@.len() == 0,
            r.environment@.len() == 0,
            r.wf(),
    {
        Requirements {
            recommended: StrMap::new(),
            required: StrMap::new(),
            platforms: Vec::new(),
            environment: Vec::new(),
        }
    }

    /// Adds a recommended resource; one under the same name is replaced.
    pub fn recommend(self, resource: Resource) -> (r: Requirements)
        ensures
            r.recommended@ == inserted(self.recommended@, resource.name, resource),
            self.recommended.wf() ==> r.recommended.wf(),
            r.required == self.required,
            r.platforms == self.platforms,
            r.environment == self.environment,
    {
        let mut r = self;
        let key = resource.name.clone();
        r.recommended.insert(key, resource);
        r
    }

    /// Adds a required resource; one under the same name is replaced.
    pub fn require(self, resource: Resource) -> (r: Requirements)
        ensures
            r.required@ == inserted(self.required@, resource.name, resource),
            self.required.wf() ==> r.required.wf(),
            r.recommended == self.recommended,
            r.platforms == self.platforms,
            r.environment == self.environment,
    {
        let mut r = self;
        let key = resource.name.clone();
        r.required.insert(key, resource);
        r
    }

    /// Appends a supported platform (no deduplication).
    pub fn platform(self, platform: &str) -> (r: Requirements)
        ensures
            r.platforms@.len() == self.platforms@.len() + 1,
            r.platforms@.drop_last() == self.platforms@,
            r.platforms@.last()@ == platform@,
            r.recommended == self.recommended,
            r.required == self.required,
            r.environment == self.environment,
    {
        let mut r = self;
        r.platforms.push(platform.to_owned());
        proof {
            assert(r.platforms@.drop_last() =~= self.platforms@);
        }
        r
    }

    /// Appends an environment variable name (no deduplication).
    pub fn env_var(self, name: &str) -> (r: Requirements)
        ensures
            r.environment@.len() == self.environment@.len() + 1,
            r.environment@.drop_last() == self.environment@,
            r.environment@.last()@ == name@,
            r.recommended == self.recommended,
            r.required == self.required,
            r.platforms == self.platforms,
    {
        let mut r = self;
        r.environment.push(name.to_owned());
        proof {
            assert(r.environment@.drop_last() =~= self.environment@);
        }
        r
    }

    /// The recommended resource with the given name.
    pub fn get_recommended(&self, name: &str) -> (r: Option<&Resource>)
        ensures
            match r {
                Some(x) => lookup(self.recommended@, name@) == Some(*x),
                None => lookup(self.recommended@, name@) == None::<Resource>,
            },
    {
        self.recommended.get(name)
    }

    /// The required resource with the given name.
    pub fn get_required(&self, name: &str) -> (r: Option<&Resource>)
        ensures
            match r {
                Some(x) => lookup(self.required@, name@) == Some(*x),
                None => lookup(self.required@, name@) == None::<Resource>,
            },
    {
        self.required.get(name)
    }

    /// Whether `platform` is among the supported platforms.
    pub fn supports_platform(&self, platform: &str) -> (r: bool)
        ensures
            r == list_contains(self.platforms@, platform@),
    {
        let mut i: usize = 0;
        while i < self.platforms.len()
            invariant
                i <= self.platforms@.len(),
                forall|j: int| 0 <= j < i ==> self.platforms@[j]@ != platform@,
            decreases self.platforms.len() - i,
        {
            if crate::strmap::text_eq(self.platforms[i].as_str(), platform) {
                return true;
            }
            i = i + 1;
        }
        false
    }
}

/// Recommending two resources under one name keeps a single entry for that
/// name, holding the later resource, and leaves the other entries as the first
/// recommendation left them; recommending under a new name keeps every entry
/// there was and adds one.
pub proof fn lemma_recommend_accumulates(s: Seq<(String, Resource)>, a: Resource, b: Resource)
    ensures
        a.name@ == b.name@ ==> {
            let once = inserted(s, a.name, a);
            let twice = inserted(once, b.name, b);
            &&& twice.len() == once.len()
            &&& lookup(twice, a.name@) == Some(b)
            &&& forall|k: Seq<char>| k != a.name@ ==> lookup(twice, k) == lookup(once, k)
        },
        lookup(s, a.name@) is None ==> {
            let once = inserted(s, a.name, a);
            &&& once.len() == s.len() + 1
            &&& lookup(once, a.name@) == Some(a)
            &&& forall|k: Seq<char>| k != a.name@ ==> lookup(once, k) == lookup(s, k)
        },
{
    lemma_inserted_lookup(s, a.name, a);
    let once = inserted(s, a.name, a);
    lemma_inserted_lookup(once, b.name, b);
}

} // verus!

//! Plugin metadata, errors, hook points and the plugin catalog.

pub mod hooks;
pub mod registry;


use vstd::prelude::*;

verus! {

/// Errors raised by the plugin system.
#[derive(Debug)]
pub enum PluginError {
    /// A plugin with this name is already registered
    AlreadyRegistered(String),
    /// No plugin with this name is registered
    NotFound(String),
    /// A hook reported a failure
    HookFailed(String),
    /// Any other failure
    General(String),
}

/// Descriptive metadata of a plugin.
#[derive(Debug)]
pub struct PluginMetadata {
    /// Unique plugin name
    pub name: String,
    /// Plugin version
    pub version: String,
    /// Plugin author
    pub author: String,
    /// Short description
    pub description: String,
    /// Capabilities the plugin offers
    pub capabilities: Vec<String>,
}

/// The plain value of a plugin's metadata: name, version, author,
/// description and capabilities.
pub struct MetadataView {
    pub name: Seq<char>,
    pub version: Seq<char>,
    pub author: Seq<char>,
    pub description: Seq<char>,
    pub capabilities: Seq<Seq<char>>,
}

impl View for PluginMetadata {
    type V = MetadataView;

    open spec fn view(&self) -> MetadataView {
        MetadataView {
            name: self.name@,
            version: self.version@,
            author: self.author@,
            description: self.description@,
            capabilities: self.capabilities.deep_view(),
        }
    }
}

/// A copy of a list of strings.
pub fn copy_strings(v: &Vec<String>) -> (r: Vec<String>)
    ensures
        r@ == v@,
        r.deep_view() == v.deep_view(),
{
    let mut out: Vec<String> = Vec::new();
    let mut i: usize = 0;
    while i < v.len()
        invariant
            i <= v@.len(),
            out@.len() == i,
            forall|j: int| 0 <= j < i ==> (#[trigger] out@[j]) == v@[j],
        decreases v@.len() - i,
    {
        out.push(v[i].clone());
        i = i + 1;
    }
    assert(out@ =~= v@);
    assert(out.deep_view() =~= v.deep_view());
    out
}

/// Whether a list of strings holds `s`.
pub fn contains_str(v: &Vec<String>, s: &str) -> (r: bool)
    ensures
        r == v.deep_view().contains(s@),
{
    let mut i: usize = 0;
    while i < v.len()
        invariant
            i <= v@.len(),
            forall|j: int| 0 <= j < i ==> (#[trigger] v@[j])@ != s@,
        decreases v@.len() - i,
    {
        if crate::text::str_eq(v[i].as_str(), s) {
            assert(v.deep_view()[i as int] == s@);
            return true;
        }
        i = i + 1;
    }
    proof {
        if v.deep_view().contains(s@) {
            let j = choose|j: int| 0 <= j < v.deep_view().len() && v.deep_view()[j] == s@;
            assert(v@[j]@ == s@);
        }
    }
    false
}

impl PluginMetadata {
    /// A copy of the metadata.
    pub fn duplicate(&self) -> (m: Self)
        ensures
            m@ == self@,
    {
        PluginMetadata {
            name: self.name.clone(),
            version: self.version.clone(),
            author: self.author.clone(),
            description: self.description.clone(),
            capabilities: copy_strings(&self.capabilities),
        }
    }
}

impl Clone for PluginMetadata {
    fn clone(&self) -> (m: Self)
        ensures
            m@ == self@,
    {
        self.duplicate()
    }
}

/// Builder of plugin metadata.
pub struct PluginBuilder {
    metadata: PluginMetadata,
}

impl View for PluginBuilder {
    type V = MetadataView;

    closed spec fn view(&self) -> MetadataView {
        self.metadata@
    }
}

impl PluginBuilder {
    /// Start building metadata for a plugin with a name and a version; the
    /// author and description start empty, with no capabilities.
    pub fn new(name: &str, version: &str) -> (b: Self)
        ensures
            b@.name == name@,
            b@.version == version@,
            b@.author == Seq::<char>::empty(),
            b@.description == Seq::<char>::empty(),
            b@.capabilities == Seq::<Seq<char>>::empty(),
    {
        let capabilities: Vec<String> = Vec::new();
        assert(capabilities.deep_view() =~= Seq::<Seq<char>>::empty());
        PluginBuilder {
            metadata: PluginMetadata {
                name: String::from_str(name),
                version: String::from_str(version),
                author: String::new(),
                description: String::new(),
                capabilities,
            },
        }
    }

    /// Set the author.
    pub fn author(self, author: &str) -> (b: Self)
        ensures
            b@ == (MetadataView { author: author@, ..self@ }),
    {
        let mut metadata = self.metadata;
        metadata.author = String::from_str(author);
        PluginBuilder { metadata }
    }

    /// Set the description.
    pub fn description(self, description: &str) -> (b: Self)
        ensures
            b@ == (MetadataView { description: description@, ..self@ }),
    {
        let mut metadata = self.metadata;
        metadata.description = String::from_str(description);
        PluginBuilder { metadata }
    }

    /// Add a capability.
    pub fn capability(self, capability: &str) -> (b: Self)
        ensures
            b@ == (MetadataView { capabilities: self@.capabilities.push(capability@), ..self@ }),
    {
        let mut metadata = self.metadata;
        metadata.capabilities.push(String::from_str(capability));
        proof {
            assert(metadata.capabilities.deep_view() =~= self@.capabilities.push(capability@));
        }
        PluginBuilder { metadata }
    }

    /// The metadata built so far.
    pub fn build(self) -> (m: PluginMetadata)
        ensures
            m@ == self@,
    {
        self.metadata
    }
}

} // verus!

//! Edge types for connecting nodes in the memory graph, with typed
//! properties that are stored in an edge's string property map.

use vstd::prelude::*;
use crate::ids::{EdgeId, NodeId, Timestamp, rfc3339_text, rfc3339_parsed, rfc3339_round_trips};
use crate::json::{json_of_strings, strings_of_json, json_of_string_map, string_map_of_json};
use crate::props::PropertyMap;
use crate::text::{decimal, parse_unsigned, bool_text, parse_bool_spec, lowercase_of, is_ascii_text, ascii_lowercase};

verus! {

/// Types of edges that can connect nodes.
#[derive(Debug, Clone, Copy, PartialEq, Eq, Structural, Hash)]
pub enum EdgeType {
    /// Connects sequential prompts in a conversation (Prompt → Prompt)
    Follows,
    /// Links a response to its originating prompt (Response → Prompt)
    RespondsTo,
    /// Tracks which agent handled a prompt (Prompt → Agent)
    HandledBy,
    /// Links a prompt to the session it belongs to (Prompt → Session)
    PartOf,
    /// Links a response to the tools it invoked (Response → ToolInvocation)
    Invokes,
    /// Links a response to the agent it handed off to (Response → Agent)
    TransfersTo,
    /// Links a prompt to the template it was created from (Prompt → Template)
    Instantiates,
    /// Links a template to its parent template (Template → Template)
    Inherits,
    /// Links a prompt to external context sources (Prompt → ExternalContext)
    References,
}

// ===== Priority =====

/// Priority level for agent handoffs.
#[derive(Debug, Clone, Copy, PartialEq, Eq, Structural, Hash)]
pub enum Priority {
    /// Low priority - can be handled later
    Low,
    /// Normal priority - standard handling
    Normal,
    /// High priority - expedited handling
    High,
    /// Critical priority - immediate attention required
    Critical,
}

/// The text of a priority.
pub open spec fn priority_text(p: Priority) -> Seq<char> {
    match p {
        Priority::Low => "low"@,
        Priority::Normal => "normal"@,
        Priority::High => "high"@,
        Priority::Critical => "critical"@,
    }
}

/// The priority whose text is exactly `s`.
pub open spec fn priority_named(s: Seq<char>) -> Option<Priority> {
    if s == "low"@ {
        Some(Priority::Low)
    } else if s == "normal"@ {
        Some(Priority::Normal)
    } else if s == "high"@ {
        Some(Priority::High)
    } else if s == "critical"@ {
        Some(Priority::Critical)
    } else {
        None
    }
}

/// What `Priority::from_str` gives: the priority named by the lowercase
/// form of the text.
pub open spec fn priority_parsed(s: Seq<char>) -> Option<Priority> {
    match priority_named(s) {
        Some(p) => Some(p),
        None => priority_named(lowercase_of(s)),
    }
}

/// Error text for an unknown priority.
pub open spec fn invalid_priority_text(s: Seq<char>) -> Seq<char> {
    "Invalid priority: "@ + s
}

/// Match a string against the known names of a priority.
fn priority_from_name(s: &str) -> (r: Option<Priority>)
    ensures
        r == priority_named(s@),
{
    if crate::text::str_eq(s, "low") {
        Some(Priority::Low)
    } else if crate::text::str_eq(s, "normal") {
        Some(Priority::Normal)
    } else if crate::text::str_eq(s, "high") {
        Some(Priority::High)
    } else if crate::text::str_eq(s, "critical") {
        Some(Priority::Critical)
    } else {
        None
    }
}

impl Priority {
    /// The priority's lowercase name.
    pub fn to_string(&self) -> (s: String)
        ensures
            s@ == priority_text(*self),
    {
        match self {
            Priority::Low => String::from_str("low"),
            Priority::Normal => String::from_str("normal"),
            Priority::High => String::from_str("high"),
            Priority::Critical => String::from_str("critical"),
        }
    }

    /// Parse a priority name, ignoring case.
    pub fn from_str(s: &str) -> (r: Result<Priority, String>)
        ensures
            r matches Ok(p) ==> priority_parsed(s@) == Some(p),
            r matches Err(e) ==> priority_parsed(s@) is None && e@ == invalid_priority_text(s@),
            r is Ok == priority_parsed(s@) is Some,
            is_ascii_text(s@) ==> lowercase_of(s@) == ascii_lowercase(s@),
    {
        let lower = crate::text::to_lowercase(s);
        // A name already in lowercase needs no case folding.
        match priority_from_name(s) {
            Some(p) => Ok(p),
            None => {
                match priority_from_name(lower.as_str()) {
                    Some(p) => Ok(p),
                    None => {
                        let msg = String::from_str("Invalid priority: ");
                        Err(msg.concat(s))
                    },
                }
            },
        }
    }
}

impl std::str::FromStr for Priority {
    type Err = String;

    fn from_str(s: &str) -> Result<Priority, String> {
        Priority::from_str(s)
    }
}

/// Every priority's text reads back as that priority.
pub proof fn lemma_priority_round_trip(p: Priority)
    ensures
        priority_parsed(priority_text(p)) == Some(p),
{
    reveal_strlit("low");
    reveal_strlit("normal");
    reveal_strlit("high");
    reveal_strlit("critical");
    assert("low"@.len() == 3 && "normal"@.len() == 6 && "high"@.len() == 4 && "critical"@.len() == 8);
}

// ===== ContextType =====

/// Type of external context being referenced.
#[derive(Debug, Clone, Copy, PartialEq, Eq, Structural, Hash)]
pub enum ContextType {
    /// Document file (PDF, DOCX, etc.)
    Document,
    /// Web page or URL
    WebPage,
    /// Database query result
    Database,
    /// Vector database search result
    VectorSearch,
    /// Previous conversation or memory
    Memory,
}

/// The text of a context type.
pub open spec fn context_type_text(c: ContextType) -> Seq<char> {
    match c {
        ContextType::Document => "document"@,
        ContextType::WebPage => "webpage"@,
        ContextType::Database => "database"@,
        ContextType::VectorSearch => "vector_search"@,
        ContextType::Memory => "memory"@,
    }
}

/// The context type with the name `s` (`vectorsearch` is accepted too).
pub open spec fn context_type_named(s: Seq<char>) -> Option<ContextType> {
    if s == "document"@ {
        Some(ContextType::Document)
    } else if s == "webpage"@ {
        Some(ContextType::WebPage)
    } else if s == "database"@ {
        Some(ContextType::Database)
    } else if s == "vector_search"@ || s == "vectorsearch"@ {
        Some(ContextType::VectorSearch)
    } else if s == "memory"@ {
        Some(ContextType::Memory)
    } else {
        None
    }
}

/// What `ContextType::from_str` gives: the context type named by the
/// lowercase form of the text.
pub open spec fn context_type_parsed(s: Seq<char>) -> Option<ContextType> {
    match context_type_named(s) {
        Some(c) => Some(c),
        None => context_type_named(lowercase_of(s)),
    }
}

fn context_type_from_name(s: &str) -> (r: Option<ContextType>)
    ensures
        r == context_type_named(s@),
{
    if crate::text::str_eq(s, "document") {
        Some(ContextType::Document)
    } else if crate::text::str_eq(s, "webpage") {
        Some(ContextType::WebPage)
    } else if crate::text::str_eq(s, "database") {
        Some(ContextType::Database)
    } else if crate::text::str_eq(s, "vector_search") || crate::text::str_eq(s, "vectorsearch") {
        Some(ContextType::VectorSearch)
    } else if crate::text::str_eq(s, "memory") {
        Some(ContextType::Memory)
    } else {
        None
    }
}

impl ContextType {
    /// The context type's lowercase name.
    pub fn to_string(&self) -> (s: String)
        ensures
            s@ == context_type_text(*self),
    {
        match self {
            ContextType::Document => String::from_str("document"),
            ContextType::WebPage => String::from_str("webpage"),
            ContextType::Database => String::from_str("database"),
            ContextType::VectorSearch => String::from_str("vector_search"),
            ContextType::Memory => String::from_str("memory"),
        }
    }

    /// Parse a context type name, ignoring case.
    pub fn from_str(s: &str) -> (r: Result<ContextType, String>)
        ensures
            r matches Ok(c) ==> context_type_parsed(s@) == Some(c),
            r matches Err(e) ==> context_type_parsed(s@) is None && e@ == "Invalid context type: "@ + s@,
            r is Ok == context_type_parsed(s@) is Some,
            is_ascii_text(s@) ==> lowercase_of(s@) == ascii_lowercase(s@),
    {
        let lower = crate::text::to_lowercase(s);
        match context_type_from_name(s) {
            Some(c) => Ok(c),
            None => {
                match context_type_from_name(lower.as_str()) {
                    Some(c) => Ok(c),
                    None => {
                        let msg = String::from_str("Invalid context type: ");
                        Err(msg.concat(s))
                    },
                }
            },
        }
    }
}

impl std::str::FromStr for ContextType {
    type Err = String;

    fn from_str(s: &str) -> Result<ContextType, String> {
        ContextType::from_str(s)
    }
}

/// Every context type's text reads back as that context type.
pub proof fn lemma_context_type_round_trip(c: ContextType)
    ensures
        context_type_parsed(context_type_text(c)) == Some(c),
{
    reveal_strlit("document");
    reveal_strlit("webpage");
    reveal_strlit("database");
    reveal_strlit("vector_search");
    reveal_strlit("vectorsearch");
    reveal_strlit("memory");
    assert("document"@.len() == 8 && "webpage"@.len() == 7 && "database"@.len() == 8);
    assert("vector_search"@.len() == 13 && "vectorsearch"@.len() == 12 && "memory"@.len() == 6);
    assert("document"@[1] != "database"@[1]);
}

/// A property of an optional boolean text: its value, or `false` when it is
/// missing or not a boolean.
pub open spec fn bool_or_false(m: Map<Seq<char>, Seq<char>>, key: Seq<char>) -> bool {
    if m.contains_key(key) {
        match parse_bool_spec(m[key]) {
            Some(b) => b,
            None => false,
        }
    } else {
        false
    }
}

/// Read an optional boolean property, defaulting to `false`.
fn get_bool_or_false(props: &PropertyMap, key: &str) -> (r: bool)
    ensures
        r == bool_or_false(props@, key@),
{
    match props.get(key) {
        Some(v) => match crate::text::parse_bool(v.as_str()) {
            Some(b) => b,
            None => false,
        },
        None => false,
    }
}

// ===== InvokesProperties =====

/// Properties for INVOKES edge (Response → ToolInvocation).
#[derive(Debug, Clone, Copy, PartialEq, Eq, Structural)]
pub struct InvokesProperties {
    /// Order in which this tool was invoked (0-indexed)
    pub invocation_order: u32,
    /// Whether the tool invocation succeeded
    pub success: bool,
    /// Whether this tool invocation was required for the response
    pub required: bool,
}

/// The property map of INVOKES properties.
pub open spec fn invokes_map(p: InvokesProperties) -> Map<Seq<char>, Seq<char>> {
    Map::empty()
        .insert("invocation_order"@, decimal(p.invocation_order as nat))
        .insert("success"@, bool_text(p.success))
        .insert("required"@, bool_text(p.required))
}

/// What `InvokesProperties::from_properties` reads from a property map.
pub open spec fn invokes_from_map(m: Map<Seq<char>, Seq<char>>) -> Result<InvokesProperties, Seq<char>> {
    let order = if m.contains_key("invocation_order"@) {
        parse_unsigned(m["invocation_order"@], u32::MAX as nat)
    } else {
        None
    };
    match order {
        Some(o) => Ok(InvokesProperties {
            invocation_order: o as u32,
            success: bool_or_false(m, "success"@),
            required: bool_or_false(m, "required"@),
        }),
        None => Err("Missing or invalid invocation_order"@),
    }
}

impl InvokesProperties {
    /// Create new invocation properties.
    pub fn new(invocation_order: u32, success: bool, required: bool) -> (p: Self)
        ensures
            p == (InvokesProperties { invocation_order, success, required }),
    {
        InvokesProperties { invocation_order, success, required }
    }

    /// Convert to a property map for storage.
    pub fn to_properties(&self) -> (m: PropertyMap)
        ensures
            m@ == invokes_map(*self),
    {
        let mut m = PropertyMap::new();
        m.insert(String::from_str("invocation_order"), crate::text::u64_to_string(self.invocation_order as u64));
        m.insert(String::from_str("success"), crate::text::bool_to_string(self.success));
        m.insert(String::from_str("required"), crate::text::bool_to_string(self.required));
        m
    }

    /// Parse from a property map; the invocation order is required.
    pub fn from_properties(props: &PropertyMap) -> (r: Result<Self, String>)
        ensures
            r matches Ok(p) ==> invokes_from_map(props@) == Ok::<InvokesProperties, Seq<char>>(p),
            r matches Err(e) ==> invokes_from_map(props@) == Err::<InvokesProperties, Seq<char>>(e@),
    {
        let order = match props.get("invocation_order") {
            Some(v) => crate::text::parse_u32(v.as_str()),
            None => None,
        };
        match order {
            Some(invocation_order) => {
                let success = get_bool_or_false(props, "success");
                let required = get_bool_or_false(props, "required");
                Ok(InvokesProperties { invocation_order, success, required })
            },
            None => Err(String::from_str("Missing or invalid invocation_order")),
        }
    }
}

// ===== TransfersToProperties =====

/// Properties for TRANSFERS_TO edge (Response → Agent).
#[derive(Debug, Clone)]
pub struct TransfersToProperties {
    /// Reason for the agent handoff
    pub handoff_reason: String,
    /// Summary of conversation context up to this point
    pub context_summary: String,
    /// Priority level of the handoff
    pub priority: Priority,
}

impl View for TransfersToProperties {
    type V = (Seq<char>, Seq<char>, Priority);

    open spec fn view(&self) -> (Seq<char>, Seq<char>, Priority) {
        (self.handoff_reason@, self.context_summary@, self.priority)
    }
}

/// The property map of TRANSFERS_TO properties.
pub open spec fn transfers_to_map(p: (Seq<char>, Seq<char>, Priority)) -> Map<Seq<char>, Seq<char>> {
    Map::empty()
        .insert("handoff_reason"@, p.0)
        .insert("context_summary"@, p.1)
        .insert("priority"@, priority_text(p.2))
}

/// What `TransfersToProperties::from_properties` reads from a property map.
pub open spec fn transfers_to_from_map(m: Map<Seq<char>, Seq<char>>) -> Result<(Seq<char>, Seq<char>, Priority), Seq<char>> {
    if !m.contains_key("handoff_reason"@) {
        Err("Missing handoff_reason"@)
    } else if !m.contains_key("context_summary"@) {
        Err("Missing context_summary"@)
    } else {
        let priority = if m.contains_key("priority"@) {
            match priority_parsed(m["priority"@]) {
                Some(p) => p,
                None => Priority::Normal,
            }
        } else {
            Priority::Normal
        };
        Ok((m["handoff_reason"@], m["context_summary"@], priority))
    }
}

impl TransfersToProperties {
    /// Create new transfer properties.
    pub fn new(handoff_reason: String, context_summary: String, priority: Priority) -> (p: Self)
        ensures
            p@ == (handoff_reason@, context_summary@, priority),
    {
        TransfersToProperties { handoff_reason, context_summary, priority }
    }

    /// Convert to a property map for storage.
    pub fn to_properties(&self) -> (m: PropertyMap)
        ensures
            m@ == transfers_to_map(self@),
    {
        let mut m = PropertyMap::new();
        m.insert(String::from_str("handoff_reason"), self.handoff_reason.clone());
        m.insert(String::from_str("context_summary"), self.context_summary.clone());
        m.insert(String::from_str("priority"), self.priority.to_string());
        m
    }

    /// Parse from a property map; the reason and the summary are required,
    /// an unknown or missing priority reads as normal.
    pub fn from_properties(props: &PropertyMap) -> (r: Result<Self, String>)
        ensures
            r matches Ok(p) ==> transfers_to_from_map(props@) == Ok::<(Seq<char>, Seq<char>, Priority), Seq<char>>(p@),
            r matches Err(e) ==> transfers_to_from_map(props@) == Err::<(Seq<char>, Seq<char>, Priority), Seq<char>>(e@),
    {
        let handoff_reason = match props.get("handoff_reason") {
            Some(v) => v.clone(),
            None => { return Err(String::from_str("Missing handoff_reason")); },
        };
        let context_summary = match props.get("context_summary") {
            Some(v) => v.clone(),
            None => { return Err(String::from_str("Missing context_summary")); },
        };
        let priority = match props.get("priority") {
            Some(v) => match Priority::from_str(v.as_str()) {
                Ok(p) => p,
                Err(_) => Priority::Normal,
            },
            None => Priority::Normal,
        };
        Ok(TransfersToProperties { handoff_reason, context_summary, priority })
    }
}

// ===== InheritsProperties =====

fn empty_strings() -> (v: Vec<String>)
    ensures
        v.deep_view() == Seq::<Seq<char>>::empty(),
{
    let v: Vec<String> = Vec::new();
    assert(v.deep_view() =~= Seq::<Seq<char>>::empty());
    v
}

/// Properties for INHERITS edge (Template → Template).
#[derive(Debug)]
pub struct InheritsProperties {
    /// Sections that were overridden in the child template
    pub override_sections: Vec<String>,
    /// Semantic diff between parent and child versions
    pub version_diff: String,
    /// Depth of inheritance (1 = direct parent, 2+ = ancestor)
    pub inheritance_depth: u32,
}

impl View for InheritsProperties {
    type V = (Seq<Seq<char>>, Seq<char>, u32);

    open spec fn view(&self) -> (Seq<Seq<char>>, Seq<char>, u32) {
        (self.override_sections.deep_view(), self.version_diff@, self.inheritance_depth)
    }
}

/// The property map of INHERITS properties.
pub open spec fn inherits_map(p: (Seq<Seq<char>>, Seq<char>, u32)) -> Map<Seq<char>, Seq<char>> {
    Map::empty()
        .insert("override_sections"@, json_of_strings(p.0))
        .insert("version_diff"@, p.1)
        .insert("inheritance_depth"@, decimal(p.2 as nat))
}

/// What `InheritsProperties::from_properties` reads from a property map:
/// the version diff is required; unreadable sections read as none and an
/// unreadable depth as 1.
pub open spec fn inherits_from_map(m: Map<Seq<char>, Seq<char>>) -> Result<(Seq<Seq<char>>, Seq<char>, u32), Seq<char>> {
    let sections = if m.contains_key("override_sections"@) {
        match strings_of_json(m["override_sections"@]) {
            Some(v) => v,
            None => Seq::empty(),
        }
    } else {
        Seq::empty()
    };
    if !m.contains_key("version_diff"@) {
        Err("Missing version_diff"@)
    } else {
        let depth = if m.contains_key("inheritance_depth"@) {
            match parse_unsigned(m["inheritance_depth"@], u32::MAX as nat) {
                Some(d) => d as u32,
                None => 1u32,
            }
        } else {
            1u32
        };
        Ok((sections, m["version_diff"@], depth))
    }
}

impl InheritsProperties {
    /// Create new inheritance properties.
    pub fn new(override_sections: Vec<String>, version_diff: String, inheritance_depth: u32) -> (p: Self)
        ensures
            p@ == (override_sections.deep_view(), version_diff@, inheritance_depth),
    {
        InheritsProperties { override_sections, version_diff, inheritance_depth }
    }

    /// Convert to a property map for storage.
    pub fn to_properties(&self) -> (m: PropertyMap)
        ensures
            m@ == inherits_map(self@),
            strings_of_json(json_of_strings(self@.0)) == Some(self@.0),
    {
        let mut m = PropertyMap::new();
        m.insert(String::from_str("override_sections"), crate::json::encode_strings(&self.override_sections));
        m.insert(String::from_str("version_diff"), self.version_diff.clone());
        m.insert(String::from_str("inheritance_depth"), crate::text::u64_to_string(self.inheritance_depth as u64));
        m
    }

    /// Parse from a property map.
    pub fn from_properties(props: &PropertyMap) -> (r: Result<Self, String>)
        ensures
            r matches Ok(p) ==> inherits_from_map(props@) == Ok::<(Seq<Seq<char>>, Seq<char>, u32), Seq<char>>(p@),
            r matches Err(e) ==> inherits_from_map(props@) == Err::<(Seq<Seq<char>>, Seq<char>, u32), Seq<char>>(e@),
    {
        let override_sections = match props.get("override_sections") {
            Some(v) => match crate::json::decode_strings(v.as_str()) {
                Some(list) => list,
                None => empty_strings(),
            },
            None => empty_strings(),
        };
        let version_diff = match props.get("version_diff") {
            Some(v) => v.clone(),
            None => { return Err(String::from_str("Missing version_diff")); },
        };
        let inheritance_depth = match props.get("inheritance_depth") {
            Some(v) => match crate::text::parse_u32(v.as_str()) {
                Some(d) => d,
                None => 1,
            },
            None => 1,
        };
        Ok(InheritsProperties { override_sections, version_diff, inheritance_depth })
    }
}

// ===== InstantiatesProperties =====

/// Properties for INSTANTIATES edge (Prompt → Template).
#[derive(Debug, Clone)]
pub struct InstantiatesProperties {
    /// Version of the template that was used
    pub template_version: String,
    /// Variable bindings used during instantiation
    pub variable_bindings: PropertyMap,
    /// When the template was instantiated
    pub instantiation_time: Timestamp,
}

impl View for InstantiatesProperties {
    type V = (Seq<char>, Map<Seq<char>, Seq<char>>, Timestamp);

    open spec fn view(&self) -> (Seq<char>, Map<Seq<char>, Seq<char>>, Timestamp) {
        (self.template_version@, self.variable_bindings@, self.instantiation_time)
    }
}

/// The property map of INSTANTIATES properties.
pub open spec fn instantiates_map(p: (Seq<char>, Map<Seq<char>, Seq<char>>, Timestamp)) -> Map<Seq<char>, Seq<char>> {
    Map::empty()
        .insert("template_version"@, p.0)
        .insert("variable_bindings"@, json_of_string_map(p.1))
        .insert("instantiation_time"@, rfc3339_text(p.2))
}

impl InstantiatesProperties {
    /// Create new instantiation properties, stamped with the current time.
    pub fn new(template_version: String, variable_bindings: PropertyMap) -> (p: Self)
        ensures
            p@.0 == template_version@,
            p@.1 == variable_bindings@,
    {
        InstantiatesProperties { template_version, variable_bindings, instantiation_time: Timestamp::now() }
    }

    /// Convert to a property map for storage. The bindings and the time
    /// read back as they were (the time when it lies in the years 0000 to
    /// 9999 and is no leap second).
    pub fn to_properties(&self) -> (m: PropertyMap)
        ensures
            m@ == instantiates_map(self@),
            string_map_of_json(m@["variable_bindings"@]) == Some(self.variable_bindings@),
            rfc3339_round_trips(self.instantiation_time) ==> rfc3339_parsed(m@["instantiation_time"@]) == Some(self.instantiation_time),
    {
        let mut m = PropertyMap::new();
        m.insert(String::from_str("template_version"), self.template_version.clone());
        let bindings = crate::json::encode_string_map(&self.variable_bindings);
        let ghost bv = bindings@;
        m.insert(String::from_str("variable_bindings"), bindings);
        let time = crate::ids::timestamp_to_rfc3339(self.instantiation_time);
        let ghost tv = time@;
        m.insert(String::from_str("instantiation_time"), time);
        proof {
            reveal_strlit("variable_bindings");
            reveal_strlit("instantiation_time");
            assert("variable_bindings"@.len() != "instantiation_time"@.len());
        }
        assert(m@["variable_bindings"@] == bv);
        assert(m@["instantiation_time"@] == tv);
        m
    }

    /// Parse from a property map. The template version is required; bindings
    /// that do not read as a JSON object are empty, and a missing or
    /// unreadable instantiation time reads as the current time.
    pub fn from_properties(props: &PropertyMap) -> (r: Result<Self, String>)
        ensures
            r is Err <==> !props@.contains_key("template_version"@),
            r matches Err(e) ==> e@ == "Missing template_version"@,
            r matches Ok(p) ==> {
                &&& p@.0 == props@["template_version"@]
                &&& p@.1 == (if props@.contains_key("variable_bindings"@) {
                        match string_map_of_json(props@["variable_bindings"@]) {
                            Some(b) => b,
                            None => Map::empty(),
                        }
                    } else {
                        Map::empty()
                    })
                &&& props@.contains_key("instantiation_time"@) && rfc3339_parsed(props@["instantiation_time"@]) is Some
                    ==> Some(p@.2) == rfc3339_parsed(props@["instantiation_time"@])
            },
    {
        let template_version = match props.get("template_version") {
            Some(v) => v.clone(),
            None => { return Err(String::from_str("Missing template_version")); },
        };
        let variable_bindings = match props.get("variable_bindings") {
            Some(v) => match crate::json::decode_string_map(v.as_str()) {
                Some(m) => m,
                None => PropertyMap::new(),
            },
            None => PropertyMap::new(),
        };
        let instantiation_time = match props.get("instantiation_time") {
            Some(v) => match crate::ids::timestamp_from_rfc3339(v.as_str()) {
                Some(t) => t,
                None => Timestamp::now(),
            },
            None => Timestamp::now(),
        };
        Ok(InstantiatesProperties { template_version, variable_bindings, instantiation_time })
    }
}

} // verus!

verus! {

/// Reading back the property map of INVOKES properties gives the same
/// properties.
pub proof fn lemma_invokes_round_trip(p: InvokesProperties)
    ensures
        invokes_from_map(invokes_map(p)) == Ok::<InvokesProperties, Seq<char>>(p),
{
    reveal_strlit("invocation_order");
    reveal_strlit("success");
    reveal_strlit("required");
    assert("invocation_order"@.len() == 16 && "success"@.len() == 7 && "required"@.len() == 8);
    crate::text::lemma_decimal_round_trip(p.invocation_order as nat, u32::MAX as nat);
    crate::text::lemma_bool_round_trip(p.success);
    crate::text::lemma_bool_round_trip(p.required);
}

/// Reading back the property map of TRANSFERS_TO properties gives the same
/// properties.
pub proof fn lemma_transfers_to_round_trip(p: (Seq<char>, Seq<char>, Priority))
    ensures
        transfers_to_from_map(transfers_to_map(p)) == Ok::<(Seq<char>, Seq<char>, Priority), Seq<char>>(p),
{
    reveal_strlit("handoff_reason");
    reveal_strlit("context_summary");
    reveal_strlit("priority");
    assert("handoff_reason"@.len() == 14 && "context_summary"@.len() == 15 && "priority"@.len() == 8);
    lemma_priority_round_trip(p.2);
}

/// Reading back the property map of INHERITS properties gives the same
/// properties, given that the JSON text of the sections reads back as the
/// sections (which `InheritsProperties::to_properties` establishes for every
/// map it writes).
pub proof fn lemma_inherits_round_trip(p: (Seq<Seq<char>>, Seq<char>, u32))
    requires
        strings_of_json(json_of_strings(p.0)) == Some(p.0),
    ensures
        inherits_from_map(inherits_map(p)) == Ok::<(Seq<Seq<char>>, Seq<char>, u32), Seq<char>>(p),
{
    reveal_strlit("override_sections");
    reveal_strlit("version_diff");
    reveal_strlit("inheritance_depth");
    assert("override_sections"@.len() == 17 && "version_diff"@.len() == 12 && "inheritance_depth"@.len() == 17);
    assert("override_sections"@[0] != "inheritance_depth"@[0]);
    crate::text::lemma_decimal_round_trip(p.2 as nat, u32::MAX as nat);
}

} // verus!

verus! {

/// An edge connecting two nodes in the graph.
#[derive(Debug, Clone)]
pub struct Edge {
    /// Unique edge identifier
    pub id: EdgeId,
    /// Source node ID
    pub from: NodeId,
    /// Target node ID
    pub to: NodeId,
    /// Type of relationship
    pub edge_type: EdgeType,
    /// When the edge was created
    pub created_at: Timestamp,
    /// Additional properties for this edge
    pub properties: PropertyMap,
}

impl Edge {
    /// Create a new edge between two nodes, with no properties.
    pub fn new(from: NodeId, to: NodeId, edge_type: EdgeType) -> (e: Self)
        ensures
            e.from == from,
            e.to == to,
            e.edge_type == edge_type,
            e.properties@ == Map::<Seq<char>, Seq<char>>::empty(),
    {
        Edge {
            id: EdgeId::new(),
            from,
            to,
            edge_type,
            created_at: Timestamp::now(),
            properties: PropertyMap::new(),
        }
    }

    /// Create an edge with the given properties.
    pub fn with_properties(from: NodeId, to: NodeId, edge_type: EdgeType, properties: PropertyMap) -> (e: Self)
        ensures
            e.from == from,
            e.to == to,
            e.edge_type == edge_type,
            e.properties@ == properties@,
    {
        Edge {
            id: EdgeId::new(),
            from,
            to,
            edge_type,
            created_at: Timestamp::now(),
            properties,
        }
    }

    /// Add a property to the edge, replacing an earlier value of the key.
    pub fn add_property(&mut self, key: String, value: String)
        ensures
            final(self).properties@ == old(self).properties@.insert(key@, value@),
            final(self).id == old(self).id,
            final(self).from == old(self).from,
            final(self).to == old(self).to,
            final(self).edge_type == old(self).edge_type,
            final(self).created_at == old(self).created_at,
    {
        self.properties.insert(key, value);
    }

    /// The value of a property.
    pub fn get_property(&self, key: &str) -> (r: Option<&String>)
        ensures
            r is Some == self.properties@.contains_key(key@),
            r matches Some(v) ==> v@ == self.properties@[key@],
    {
        self.properties.get(key)
    }

    /// An INSTANTIATES edge (prompt → template) carrying typed properties.
    pub fn instantiates(from: NodeId, to: NodeId, properties: InstantiatesProperties) -> (e: Self)
        ensures
            e.from == from,
            e.to == to,
            e.edge_type == EdgeType::Instantiates,
            e.properties@ == instantiates_map(properties@),
    {
        Self::with_properties(from, to, EdgeType::Instantiates, properties.to_properties())
    }

    /// An INHERITS edge (template → parent template) carrying typed properties.
    pub fn inherits(from: NodeId, to: NodeId, properties: InheritsProperties) -> (e: Self)
        ensures
            e.from == from,
            e.to == to,
            e.edge_type == EdgeType::Inherits,
            e.properties@ == inherits_map(properties@),
            strings_of_json(json_of_strings(properties@.0)) == Some(properties@.0),
    {
        let props = properties.to_properties();
        proof {
            reveal_strlit("override_sections");
            reveal_strlit("version_diff");
            reveal_strlit("inheritance_depth");
            assert("override_sections"@.len() == 17 && "version_diff"@.len() == 12 && "inheritance_depth"@.len() == 17);
            assert("override_sections"@[0] != "inheritance_depth"@[0]);
        }
        Self::with_properties(from, to, EdgeType::Inherits, props)
    }

    /// An INVOKES edge (response → tool invocation) carrying typed properties.
    pub fn invokes(from: NodeId, to: NodeId, properties: InvokesProperties) -> (e: Self)
        ensures
            e.from == from,
            e.to == to,
            e.edge_type == EdgeType::Invokes,
            e.properties@ == invokes_map(properties),
    {
        Self::with_properties(from, to, EdgeType::Invokes, properties.to_properties())
    }

    /// A TRANSFERS_TO edge (response → agent) carrying typed properties.
    pub fn transfers_to(from: NodeId, to: NodeId, properties: TransfersToProperties) -> (e: Self)
        ensures
            e.from == from,
            e.to == to,
            e.edge_type == EdgeType::TransfersTo,
            e.properties@ == transfers_to_map(properties@),
    {
        Self::with_properties(from, to, EdgeType::TransfersTo, properties.to_properties())
    }

    /// The INSTANTIATES properties of the edge: `None` when the edge has
    /// another type or its properties do not parse.
    pub fn get_instantiates_properties(&self) -> (r: Option<InstantiatesProperties>)
        ensures
            self.edge_type != EdgeType::Instantiates ==> r is None,
            self.edge_type == EdgeType::Instantiates ==> (r is Some <==> self.properties@.contains_key("template_version"@)),
            r matches Some(p) ==> p@.0 == self.properties@["template_version"@],
    {
        if self.edge_type != EdgeType::Instantiates {
            return None;
        }
        match InstantiatesProperties::from_properties(&self.properties) {
            Ok(p) => Some(p),
            Err(_) => None,
        }
    }

    /// The INHERITS properties of the edge: `None` when the edge has another
    /// type or its properties do not parse.
    pub fn get_inherits_properties(&self) -> (r: Option<InheritsProperties>)
        ensures
            self.edge_type != EdgeType::Inherits ==> r is None,
            self.edge_type == EdgeType::Inherits ==> (r is Some <==> inherits_from_map(self.properties@) is Ok),
            r matches Some(p) ==> inherits_from_map(self.properties@) == Ok::<(Seq<Seq<char>>, Seq<char>, u32), Seq<char>>(p@),
    {
        if self.edge_type != EdgeType::Inherits {
            return None;
        }
        match InheritsProperties::from_properties(&self.properties) {
            Ok(p) => Some(p),
            Err(_) => None,
        }
    }

    /// The INVOKES properties of the edge: `None` when the edge has another
    /// type or its properties do not parse.
    pub fn get_invokes_properties(&self) -> (r: Option<InvokesProperties>)
        ensures
            self.edge_type != EdgeType::Invokes ==> r is None,
            self.edge_type == EdgeType::Invokes ==> r == (match invokes_from_map(self.properties@) {
                Ok(p) => Some(p),
                Err(_) => None,
            }),
    {
        if self.edge_type != EdgeType::Invokes {
            return None;
        }
        match InvokesProperties::from_properties(&self.properties) {
            Ok(p) => Some(p),
            Err(_) => None,
        }
    }

    /// The TRANSFERS_TO properties of the edge: `None` when the edge has
    /// another type or its properties do not parse.
    pub fn get_transfers_to_properties(&self) -> (r: Option<TransfersToProperties>)
        ensures
            self.edge_type != EdgeType::TransfersTo ==> r is None,
            self.edge_type == EdgeType::TransfersTo ==> (r is Some <==> transfers_to_from_map(self.properties@) is Ok),
            r matches Some(p) ==> transfers_to_from_map(self.properties@) == Ok::<(Seq<char>, Seq<char>, Priority), Seq<char>>(p@),
    {
        if self.edge_type != EdgeType::TransfersTo {
            return None;
        }
        match TransfersToProperties::from_properties(&self.properties) {
            Ok(p) => Some(p),
            Err(_) => None,
        }
    }
}

/// A typed edge reads back the properties it was built with: for INVOKES,
/// TRANSFERS_TO and INHERITS edges, extracting the properties of an edge
/// made by the typed builder gives the properties given to it.
pub proof fn lemma_typed_edges_round_trip(
    invokes: InvokesProperties,
    transfers: (Seq<char>, Seq<char>, Priority),
    inherits: (Seq<Seq<char>>, Seq<char>, u32),
)
    requires
        strings_of_json(json_of_strings(inherits.0)) == Some(inherits.0),
    ensures
        invokes_from_map(invokes_map(invokes)) == Ok::<InvokesProperties, Seq<char>>(invokes),
        transfers_to_from_map(transfers_to_map(transfers)) == Ok::<(Seq<char>, Seq<char>, Priority), Seq<char>>(transfers),
        inherits_from_map(inherits_map(inherits)) == Ok::<(Seq<Seq<char>>, Seq<char>, u32), Seq<char>>(inherits),
{
    lemma_invokes_round_trip(invokes);
    lemma_transfers_to_round_trip(transfers);
    lemma_inherits_round_trip(inherits);
}

/// Whether two edges hold the same values, properties compared by their
/// contents.
pub open spec fn same_edge(a: Edge, b: Edge) -> bool {
    &&& a.id == b.id
    &&& a.from == b.from
    &&& a.to == b.to
    &&& a.edge_type == b.edge_type
    &&& a.created_at == b.created_at
    &&& a.properties@ == b.properties@
}

impl Edge {
    /// A copy of the edge.
    pub fn duplicate(&self) -> (e: Self)
        ensures
            same_edge(e, *self),
    {
        Edge {
            id: self.id,
            from: self.from,
            to: self.to,
            edge_type: self.edge_type,
            created_at: self.created_at,
            properties: self.properties.duplicate(),
        }
    }
}

/// Each priority is written as its own name in lowercase, and that name reads back as it.
pub proof fn lemma_priority_names(v: Priority)
    ensures
        priority_text(v) == "low"@ <==> v == Priority::Low,
        priority_text(v) == "normal"@ <==> v == Priority::Normal,
        priority_text(v) == "high"@ <==> v == Priority::High,
        priority_text(v) == "critical"@ <==> v == Priority::Critical,
        priority_named("low"@) == Some(Priority::Low),
        priority_named("normal"@) == Some(Priority::Normal),
        priority_named("high"@) == Some(Priority::High),
        priority_named("critical"@) == Some(Priority::Critical),
{
    reveal_strlit("low");
    reveal_strlit("normal");
    reveal_strlit("high");
    reveal_strlit("critical");
    assert("low"@.len() != "normal"@.len());
    assert("low"@.len() != "high"@.len());
    assert("low"@.len() != "critical"@.len());
    assert("normal"@.len() != "high"@.len());
    assert("normal"@.len() != "critical"@.len());
    assert("high"@.len() != "critical"@.len());
}

/// Each context type is written as its own name in lowercase (words joined by `_`), and that name reads back as it.
pub proof fn lemma_context_type_names(v: ContextType)
    ensures
        context_type_text(v) == "document"@ <==> v == ContextType::Document,
        context_type_text(v) == "webpage"@ <==> v == ContextType::WebPage,
        context_type_text(v) == "database"@ <==> v == ContextType::Database,
        context_type_text(v) == "vector_search"@ <==> v == ContextType::VectorSearch,
        context_type_text(v) == "memory"@ <==> v == ContextType::Memory,
        context_type_named("document"@) == Some(ContextType::Document),
        context_type_named("webpage"@) == Some(ContextType::WebPage),
        context_type_named("database"@) == Some(ContextType::Database),
        context_type_named("vector_search"@) == Some(ContextType::VectorSearch),
        context_type_named("memory"@) == Some(ContextType::Memory),
        context_type_named("vectorsearch"@) == Some(ContextType::VectorSearch),
{
    reveal_strlit("document");
    reveal_strlit("webpage");
    reveal_strlit("database");
    reveal_strlit("vector_search");
    reveal_strlit("memory");
    assert("document"@.len() != "webpage"@.len());
    assert("document"@[1] != "database"@[1]);
    assert("document"@.len() != "vector_search"@.len());
    assert("document"@.len() != "memory"@.len());
    assert("webpage"@.len() != "database"@.len());
    assert("webpage"@.len() != "vector_search"@.len());
    assert("webpage"@.len() != "memory"@.len());
    assert("database"@.len() != "vector_search"@.len());
    assert("database"@.len() != "memory"@.len());
    assert("vector_search"@.len() != "memory"@.len());
    reveal_strlit("vectorsearch");
    assert("vectorsearch"@.len() != "memory"@.len());
}

} // verus!

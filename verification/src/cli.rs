//! The output choices of the command-line tool and the text of its
//! reports on a graph.

use vstd::prelude::*;
use crate::error::{Error, error_text};
use crate::graph::{MemoryGraph, first_session_index, has_session, node_refs, session_nodes};
use crate::ids::{SessionId, Timestamp, uuid_parse_outcome, uuid_text};
use crate::nodes::{ConversationSession, Node};
use crate::storage::StorageStats;
use crate::text::{ascii_lowercase, decimal, is_ascii_text, lowercase_of, str_eq, to_lowercase, u64_to_string};

verus! {

/// What chrono's `format("%Y-%m-%d %H:%M:%S")` writes for a time in UTC;
/// the empty text for a time chrono cannot represent.
pub uninterp spec fn datetime_text(t: Timestamp) -> Seq<char>;

/// Write a time in UTC as `YYYY-MM-DD HH:MM:SS` with chrono.
///
/// Trusted: the text is `datetime_text` of the time, a function of the time
/// alone; a time outside chrono's range gives the empty string.
#[verifier::external_body]
pub(crate) fn format_datetime(t: Timestamp) -> (r: String)
    ensures
        r@ == datetime_text(t),
{
    match chrono::DateTime::from_timestamp(t.seconds, t.nanos) {
        Some(dt) => dt.format("%Y-%m-%d %H:%M:%S").to_string(),
        None => String::new(),
    }
}

/// How the tool prints its results.
#[derive(Debug, Clone, Copy, PartialEq, Eq, Structural)]
pub enum OutputFormat {
    /// Human-readable text
    Text,
    /// JSON
    Json,
}

/// The message for an output format the tool does not know.
pub open spec fn format_error_text(s: Seq<char>) -> Seq<char> {
    "Invalid format: "@ + s + ". Use 'text' or 'json'"@
}

impl OutputFormat {
    /// Read an output format, ignoring case.
    pub fn parse(s: &str) -> (r: Result<OutputFormat, String>)
        ensures
            lowercase_of(s@) == "text"@ ==> r == Ok::<OutputFormat, String>(OutputFormat::Text),
            lowercase_of(s@) == "json"@ ==> r == Ok::<OutputFormat, String>(OutputFormat::Json),
            lowercase_of(s@) != "text"@ && lowercase_of(s@) != "json"@ ==> (r matches Err(m) && m@ == format_error_text(s@)),
            is_ascii_text(s@) ==> lowercase_of(s@) == ascii_lowercase(s@),
    {
        proof {
            reveal_strlit("text");
            reveal_strlit("json");
            assert("text"@[0] != "json"@[0]);
        }
        let lower = to_lowercase(s);
        if str_eq(lower.as_str(), "text") {
            Ok(OutputFormat::Text)
        } else if str_eq(lower.as_str(), "json") {
            Ok(OutputFormat::Json)
        } else {
            let mut m = String::from_str("Invalid format: ");
            m.append(s);
            m.append(". Use 'text' or 'json'");
            Err(m)
        }
    }
}

impl std::str::FromStr for OutputFormat {
    type Err = String;

    fn from_str(s: &str) -> Result<OutputFormat, String> {
        OutputFormat::parse(s)
    }
}

/// `n` spaces.
pub open spec fn spaces(n: nat) -> Seq<char> {
    Seq::new(n, |_i: int| ' ')
}

/// A text padded with spaces on the right to at least `width` characters,
/// as `{:width}` does.
pub open spec fn pad_to(s: Seq<char>, width: nat) -> Seq<char> {
    if s.len() >= width { s } else { s + spaces((width - s.len()) as nat) }
}

/// Pad a text with spaces on the right to at least `width` characters.
pub fn padded(s: &str, width: usize) -> (r: String)
    ensures
        r@ == pad_to(s@, width as nat),
{
    let mut r = String::from_str(s);
    let n = s.unicode_len();
    if n >= width {
        return r;
    }
    let mut i: usize = n;
    proof { reveal_strlit(" "); }
    assert(s@ + spaces(0) =~= s@);
    while i < width
        invariant
            n == s@.len(),
            n <= i <= width,
            r@ == s@ + spaces((i - n) as nat),
        decreases width - i,
    {
        let ghost before = r@;
        r.append(" ");
        proof { reveal_strlit(" "); }
        assert(s@ + spaces((i + 1 - n) as nat) =~= before + " "@);
        i = i + 1;
    }
    r
}

/// A label padded to `width`, a space, and a value.
pub open spec fn field_line(label: Seq<char>, width: nat, value: Seq<char>) -> Seq<char> {
    pad_to(label, width) + " "@ + value
}

fn field(label: &str, width: usize, value: &str) -> (r: String)
    ensures
        r@ == field_line(label@, width as nat, value@),
{
    let mut r = padded(label, width);
    r.append(" ");
    r.append(value);
    proof { reveal_strlit(" "); }
    assert(r@ =~= field_line(label@, width as nat, value@));
    r
}

/// The report of the `stats` command in text.
pub open spec fn stats_lines(stats: StorageStats) -> Seq<Seq<char>> {
    seq![
        "Database Statistics"@,
        "==================="@,
        field_line("Total Nodes:"@, 20, decimal(stats.node_count as nat)),
        field_line("Total Edges:"@, 20, decimal(stats.edge_count as nat)),
        field_line("Total Sessions:"@, 20, decimal(stats.session_count as nat)),
    ]
}

/// The lines the `stats` command prints in text.
pub fn stats_report(stats: &StorageStats) -> (r: Vec<String>)
    ensures
        r.deep_view() == stats_lines(*stats),
{
    let mut r: Vec<String> = Vec::new();
    r.push(String::from_str("Database Statistics"));
    r.push(String::from_str("==================="));
    let nodes = u64_to_string(stats.node_count);
    r.push(field("Total Nodes:", 20, nodes.as_str()));
    let edges = u64_to_string(stats.edge_count);
    r.push(field("Total Edges:", 20, edges.as_str()));
    let sessions = u64_to_string(stats.session_count);
    r.push(field("Total Sessions:", 20, sessions.as_str()));
    assert(r.deep_view() =~= stats_lines(*stats));
    r
}

/// What the `verify` command prints once the counts are read.
pub open spec fn verify_lines(stats: StorageStats) -> Seq<Seq<char>> {
    seq![
        "✓ Verified "@ + decimal(stats.node_count as nat) + " nodes"@,
        "✓ Verified "@ + decimal(stats.edge_count as nat) + " edges"@,
        "✓ Verified "@ + decimal(stats.session_count as nat) + " sessions"@,
        Seq::empty(),
        "✓ Database verification complete"@,
    ]
}

fn counted(prefix: &str, n: u64, suffix: &str) -> (r: String)
    ensures
        r@ == prefix@ + decimal(n as nat) + suffix@,
{
    let mut r = String::from_str(prefix);
    let digits = u64_to_string(n);
    r.append(digits.as_str());
    r.append(suffix);
    r
}

/// The lines the `verify` command prints once the counts are read.
pub fn verify_report(stats: &StorageStats) -> (r: Vec<String>)
    ensures
        r.deep_view() == verify_lines(*stats),
{
    let mut r: Vec<String> = Vec::new();
    r.push(counted("✓ Verified ", stats.node_count, " nodes"));
    r.push(counted("✓ Verified ", stats.edge_count, " edges"));
    r.push(counted("✓ Verified ", stats.session_count, " sessions"));
    r.push(String::new());
    r.push(String::from_str("✓ Database verification complete"));
    assert(r.deep_view() =~= verify_lines(*stats));
    r
}

/// The line of one metadata entry of a session.
pub open spec fn meta_line(key: Seq<char>, value: Seq<char>) -> Seq<char> {
    "  "@ + pad_to(key + ":"@, 13) + " "@ + value
}

/// The line of one tag of a session.
pub open spec fn tag_line(tag: Seq<char>) -> Seq<char> {
    "  - "@ + tag
}

/// The report of the `session` command in text, for a session with
/// `node_count` nodes: its identifier, times and node count, then its
/// metadata in the map's order, then its tags.
pub open spec fn session_lines(s: ConversationSession, node_count: nat) -> Seq<Seq<char>> {
    seq![
        "Session: "@ + uuid_text(s.id.value),
        "===================="@,
        field_line("Created:"@, 15, datetime_text(s.created_at)),
        field_line("Updated:"@, 15, datetime_text(s.updated_at)),
        field_line("Nodes:"@, 15, decimal(node_count)),
        Seq::empty(),
        "Metadata:"@,
    ]
        + s.metadata.entry_seq().map_values(|p: (String, String)| meta_line(p.0@, p.1@))
        + seq![Seq::empty(), "Tags:"@]
        + s.tags@.map_values(|t: String| tag_line(t@))
}

/// The lines the `session` command prints in text for a session with
/// `node_count` nodes.
pub fn session_report(session: &ConversationSession, node_count: usize) -> (r: Vec<String>)
    ensures
        r.deep_view() == session_lines(*session, node_count as nat),
{
    let mut r: Vec<String> = Vec::new();
    let mut title = String::from_str("Session: ");
    let id = session.id.to_string();
    title.append(id.as_str());
    r.push(title);
    r.push(String::from_str("===================="));
    let created = format_datetime(session.created_at);
    r.push(field("Created:", 15, created.as_str()));
    let updated = format_datetime(session.updated_at);
    r.push(field("Updated:", 15, updated.as_str()));
    let count = u64_to_string(node_count as u64);
    r.push(field("Nodes:", 15, count.as_str()));
    r.push(String::new());
    r.push(String::from_str("Metadata:"));
    let ghost head = r.deep_view();
    assert(head =~= seq![
        "Session: "@ + uuid_text(session.id.value),
        "===================="@,
        field_line("Created:"@, 15, datetime_text(session.created_at)),
        field_line("Updated:"@, 15, datetime_text(session.updated_at)),
        field_line("Nodes:"@, 15, decimal(node_count as nat)),
        Seq::empty(),
        "Metadata:"@,
    ]);
    let pairs = session.metadata.to_pairs();
    let ghost entries = session.metadata.entry_seq();
    let ghost metas = entries.map_values(|p: (String, String)| meta_line(p.0@, p.1@));
    let mut i: usize = 0;
    while i < pairs.len()
        invariant
            i <= pairs@.len(),
            pairs@.len() == entries.len(),
            forall|j: int| 0 <= j < pairs@.len() ==> (#[trigger] pairs@[j]).0@ == entries[j].0@ && pairs@[j].1@ == entries[j].1@,
            metas == entries.map_values(|p: (String, String)| meta_line(p.0@, p.1@)),
            r.deep_view() == head + metas.take(i as int),
        decreases pairs@.len() - i,
    {
        let mut key = String::from_str(pairs[i].0.as_str());
        key.append(":");
        let mut line = String::from_str("  ");
        let pad = padded(key.as_str(), 13);
        line.append(pad.as_str());
        line.append(" ");
        line.append(pairs[i].1.as_str());
        proof {
            reveal_strlit("  ");
            reveal_strlit(":");
            reveal_strlit(" ");
        }
        let ghost before = r.deep_view();
        r.push(line);
        assert(r.deep_view() =~= head + metas.take(i + 1)) by {
            assert(metas.take(i + 1) =~= metas.take(i as int).push(metas[i as int]));
            assert(before.push(line@) =~= r.deep_view());
        }
        i = i + 1;
    }
    assert(metas.take(pairs@.len() as int) =~= metas);
    r.push(String::new());
    r.push(String::from_str("Tags:"));
    let ghost mid = r.deep_view();
    assert(mid =~= head + metas + seq![Seq::<char>::empty(), "Tags:"@]);
    let ghost tags = session.tags@.map_values(|t: String| tag_line(t@));
    let mut k: usize = 0;
    while k < session.tags.len()
        invariant
            k <= session.tags@.len(),
            tags == session.tags@.map_values(|t: String| tag_line(t@)),
            r.deep_view() == mid + tags.take(k as int),
        decreases session.tags@.len() - k,
    {
        let mut line = String::from_str("  - ");
        line.append(session.tags[k].as_str());
        let ghost before = r.deep_view();
        r.push(line);
        assert(r.deep_view() =~= mid + tags.take(k + 1)) by {
            assert(tags.take(k + 1) =~= tags.take(k as int).push(tags[k as int]));
            assert(before.push(line@) =~= r.deep_view());
        }
        k = k + 1;
    }
    assert(tags.take(session.tags@.len() as int) =~= tags);
    assert(r.deep_view() =~= session_lines(*session, node_count as nat));
    r
}

/// Why a command of the tool failed.
#[derive(Debug)]
pub enum CommandError {
    /// The identifier is no UUID: uuid's own message
    BadId(String),
    /// The graph refused the request
    Graph(Error),
}

/// What the tool prints for a failed command: uuid's message for a bad
/// identifier, the graph error's text otherwise.
pub open spec fn command_error_text(e: &CommandError) -> Seq<char> {
    match e {
        CommandError::BadId(m) => m@,
        CommandError::Graph(g) => error_text(g),
    }
}

impl CommandError {
    /// The text the tool prints for the failure.
    pub fn to_string(&self) -> (s: String)
        ensures
            s@ == command_error_text(self),
    {
        match self {
            CommandError::BadId(m) => m.clone(),
            CommandError::Graph(g) => g.to_string(),
        }
    }
}

/// The `session` command on a graph, in text: the session named by
/// `session_id` and the number of its nodes; an error when the text is no
/// UUID (with uuid's own message) or no such session is stored.
pub fn session_command(graph: &MemoryGraph, session_id: &str) -> (r: Result<Vec<String>, CommandError>)
    ensures
        uuid_parse_outcome(session_id@) matches Err(msg) ==> (r matches Err(CommandError::BadId(m)) && m@ == msg),
        uuid_parse_outcome(session_id@) matches Ok(v) ==> {
            let sid = crate::ids::SessionId { value: v };
            &&& !has_session(graph.node_seq(), sid) ==> (r matches Err(CommandError::Graph(Error::SessionNotFound(m)))
                && m@ == uuid_text(v))
            &&& has_session(graph.node_seq(), sid) ==> (r matches Ok(lines)
                && graph.node_seq()[first_session_index(graph.node_seq(), sid)] matches Node::Session(s)
                && lines.deep_view() == session_lines(s, session_nodes(graph.node_seq(), sid).len()))
        },
{
    let sid = match SessionId::parse(session_id) {
        Ok(s) => s,
        Err(m) => return Err(CommandError::BadId(m)),
    };
    let session = match graph.get_session(sid) {
        Ok(s) => s,
        Err(e) => return Err(CommandError::Graph(e)),
    };
    let nodes = graph.get_session_nodes(sid);
    proof { assert(node_refs(nodes@).len() == nodes@.len()); }
    Ok(session_report(session, nodes.len()))
}

} // verus!

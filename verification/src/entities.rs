//! Domain entities: logs, detected errors, frame timings, widget snapshots, finders.

use vstd::prelude::*;

verus! {

/// The character view of an optional string.
pub open spec fn opt_view(o: Option<String>) -> Option<Seq<char>> {
    match o {
        Some(s) => Some(s@),
        None => None,
    }
}

/// Clones an optional string, keeping its characters.
pub fn clone_opt(o: &Option<String>) -> (r: Option<String>)
    ensures
        opt_view(r) == opt_view(*o),
{
    match o {
        Some(s) => Some(s.clone()),
        None => None,
    }
}

/// Where a captured log line came from.
#[derive(Debug, Clone, PartialEq)]
pub enum LogSource {
    Stdout,
    Stderr,
    Logging { level: Option<i64>, logger_name: Option<String> },
}

/// A log line captured passively since the connection was established.
#[derive(Debug, Clone, PartialEq)]
pub struct LogEntry {
    pub timestamp_ms: i64,
    pub source: LogSource,
    pub message: String,
}

/// The label naming a log source.
pub open spec fn spec_source_label(source: LogSource) -> Seq<char> {
    match source {
        LogSource::Stdout => "stdout"@,
        LogSource::Stderr => "stderr"@,
        LogSource::Logging { .. } => "logging"@,
    }
}

impl LogEntry {
    /// `"stdout"`, `"stderr"` or `"logging"`, after the entry's source.
    pub fn source_label(&self) -> (r: &'static str)
        ensures
            r@ == spec_source_label(self.source),
    {
        match &self.source {
            LogSource::Stdout => "stdout",
            LogSource::Stderr => "stderr",
            LogSource::Logging { .. } => "logging",
        }
    }
}

/// Optional filter over the accumulated log buffer.
#[derive(Debug, Clone)]
pub struct LogFilter {
    pub contains: Option<String>,
    pub source: Option<String>,
    pub limit: usize,
}

impl Default for LogFilter {
    fn default() -> (r: Self)
        ensures
            r.contains is None,
            r.source is None,
            r.limit == 0,
    {
        LogFilter { contains: None, source: None, limit: 0 }
    }
}

/// Mechanism by which an unhandled exception was detected.
#[derive(Debug, Clone, Copy, PartialEq, Eq, Structural)]
pub enum ErrorSource {
    /// Parsed from the stdout/stderr text the app printed.
    StdoutHeuristic,
    /// Captured by pausing the isolate on the exception.
    ExceptionPause,
}

/// An unhandled exception detected in the connected app.
#[derive(Debug, Clone, PartialEq)]
pub struct FlutterError {
    pub timestamp_ms: i64,
    pub message: String,
    pub stack_trace: Option<String>,
    pub source: ErrorSource,
    /// How many consecutive times the same error repeated.
    pub occurrences: u32,
}

/// Abstract value of a `FlutterError`, its texts viewed as characters.
pub struct FlutterErrorView {
    pub timestamp_ms: i64,
    pub message: Seq<char>,
    pub stack_trace: Option<Seq<char>>,
    pub source: ErrorSource,
    pub occurrences: u32,
}

impl View for FlutterError {
    type V = FlutterErrorView;

    open spec fn view(&self) -> FlutterErrorView {
        FlutterErrorView {
            timestamp_ms: self.timestamp_ms,
            message: self.message@,
            stack_trace: opt_view(self.stack_trace),
            source: self.source,
            occurrences: self.occurrences,
        }
    }
}

/// Timing of one frame derived from raw timeline events.
#[derive(Debug, Clone, Copy, PartialEq, Eq, Structural)]
pub struct FrameTiming {
    pub frame_number: u64,
    pub build_duration_us: u64,
    pub raster_duration_us: u64,
    pub is_janky: bool,
}

/// Aggregate performance summary over a window of frames.
#[derive(Debug, Clone, PartialEq)]
pub struct PerformanceReport {
    pub frame_count: u32,
    pub janky_count: u32,
    pub avg_build_us: u64,
    pub avg_raster_us: u64,
    pub worst_frame: Option<FrameTiming>,
    pub frames: Vec<FrameTiming>,
}

/// What `start_control` had to touch to make the app controllable.
#[derive(Debug, Clone, PartialEq)]
pub struct StartControlOutcome {
    /// Path (project root + entrypoint) of the entrypoint evaluated or patched.
    pub entrypoint_path: String,
    /// The entrypoint already had Flutter Driver enabled before the call.
    pub already_enabled: bool,
    /// `flutter_driver` had to be added to `pubspec.yaml`; the operation stops there.
    pub pubspec_updated: bool,
    /// A Hot Restart was triggered on the main isolate.
    pub hot_restart_triggered: bool,
    /// After the Hot Restart the entrypoint was restored to its original content.
    pub reverted: bool,
}

/// Simplified node of a Flutter UI tree, compact enough for an LLM's context.
#[derive(Debug, PartialEq)]
pub struct WidgetNode {
    pub widget_type: String,
    pub key: Option<String>,
    pub text: Option<String>,
    pub tooltip: Option<String>,
    pub semantics_label: Option<String>,
    pub is_interactive: bool,
    pub children: Vec<WidgetNode>,
}

/// Abstract value of a `WidgetNode`, its texts viewed as characters.
pub struct WidgetNodeView {
    pub widget_type: Seq<char>,
    pub key: Option<Seq<char>>,
    pub text: Option<Seq<char>>,
    pub tooltip: Option<Seq<char>>,
    pub semantics_label: Option<Seq<char>>,
    pub is_interactive: bool,
    pub children: Seq<WidgetNodeView>,
}

pub open spec fn node_view(n: WidgetNode) -> WidgetNodeView
    decreases n,
{
    WidgetNodeView {
        widget_type: n.widget_type@,
        key: opt_view(n.key),
        text: opt_view(n.text),
        tooltip: opt_view(n.tooltip),
        semantics_label: opt_view(n.semantics_label),
        is_interactive: n.is_interactive,
        children: nodes_view(n.children@),
    }
}

pub open spec fn nodes_view(s: Seq<WidgetNode>) -> Seq<WidgetNodeView>
    decreases s,
{
    if s.len() == 0 {
        Seq::empty()
    } else {
        nodes_view(s.drop_last()).push(node_view(s.last()))
    }
}

pub proof fn lemma_nodes_view_len(s: Seq<WidgetNode>)
    ensures
        nodes_view(s).len() == s.len(),
    decreases s.len(),
{
    if s.len() > 0 {
        lemma_nodes_view_len(s.drop_last());
    }
}

pub proof fn lemma_nodes_view_index(s: Seq<WidgetNode>, i: int)
    requires
        0 <= i < s.len(),
    ensures
        nodes_view(s).len() == s.len(),
        nodes_view(s)[i] == node_view(s[i]),
    decreases s.len(),
{
    lemma_nodes_view_len(s);
    if i < s.len() - 1 {
        lemma_nodes_view_index(s.drop_last(), i);
    }
}

impl View for WidgetNode {
    type V = WidgetNodeView;

    open spec fn view(&self) -> WidgetNodeView {
        node_view(*self)
    }
}

impl WidgetNode {
    /// A leaf of type `widget_type` without key, texts or children.
    pub fn new(widget_type: &str, is_interactive: bool) -> (r: Self)
        ensures
            r@ == (WidgetNodeView {
                widget_type: widget_type@,
                key: None,
                text: None,
                tooltip: None,
                semantics_label: None,
                is_interactive,
                children: Seq::empty(),
            }),
    {
        let r = WidgetNode {
            widget_type: String::from_str(widget_type),
            key: None,
            text: None,
            tooltip: None,
            semantics_label: None,
            is_interactive,
            children: Vec::new(),
        };
        assert(r.children@ == Seq::<WidgetNode>::empty());
        r
    }

    /// The node with its key set.
    pub fn with_key(self, key: &str) -> (r: Self)
        ensures
            r@ == (WidgetNodeView { key: Some(key@), ..self@ }),
    {
        WidgetNode { key: Some(String::from_str(key)), ..self }
    }

    /// The node with its text set.
    pub fn with_text(self, text: &str) -> (r: Self)
        ensures
            r@ == (WidgetNodeView { text: Some(text@), ..self@ }),
    {
        WidgetNode { text: Some(String::from_str(text)), ..self }
    }

    /// The node with its tooltip set.
    pub fn with_tooltip(self, tooltip: &str) -> (r: Self)
        ensures
            r@ == (WidgetNodeView { tooltip: Some(tooltip@), ..self@ }),
    {
        WidgetNode { tooltip: Some(String::from_str(tooltip)), ..self }
    }

    /// The node with its semantics label set.
    pub fn with_semantics_label(self, label: &str) -> (r: Self)
        ensures
            r@ == (WidgetNodeView { semantics_label: Some(label@), ..self@ }),
    {
        WidgetNode { semantics_label: Some(String::from_str(label)), ..self }
    }

    /// Appends a child.
    pub fn add_child(&mut self, child: WidgetNode)
        ensures
            final(self)@ == (WidgetNodeView { children: old(self)@.children.push(child@), ..old(self)@ }),
    {
        let ghost before = self.children@;
        self.children.push(child);
        assert(self.children@.drop_last() == before);
    }

    /// A deep copy of the node.
    pub fn deep_clone(&self) -> (r: Self)
        ensures
            r@ == self@,
        decreases self,
    {
        let mut kids: Vec<WidgetNode> = Vec::new();
        let mut i: usize = 0;
        while i < self.children.len()
            invariant
                i <= self.children.len(),
                nodes_view(kids@) == nodes_view(self.children@.take(i as int)),
            decreases self.children.len() - i,
        {
            let c = self.children[i].deep_clone();
            let ghost before = kids@;
            kids.push(c);
            proof {
                assert(kids@.drop_last() == before);
                let t = self.children@.take(i + 1);
                assert(t.drop_last() == self.children@.take(i as int));
            }
            i = i + 1;
        }
        assert(self.children@.take(self.children.len() as int) == self.children@);
        WidgetNode {
            widget_type: self.widget_type.clone(),
            key: clone_opt(&self.key),
            text: clone_opt(&self.text),
            tooltip: clone_opt(&self.tooltip),
            semantics_label: clone_opt(&self.semantics_label),
            is_interactive: self.is_interactive,
            children: kids,
        }
    }
}

} // verus!

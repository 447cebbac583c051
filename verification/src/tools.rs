//! The tool registry: a name-to-capability table that unifies tools run in
//! this process with tools proxied to an external tool server. Every
//! capability exposes its own definition at registration time, dispatch is
//! by exact name, and a duplicate registration overwrites the previous
//! binding — the last writer wins.
use vstd::prelude::*;
use vstd::string::*;

use crate::jsonfmt::{push_json_string, spec_json_string};
use crate::jsonio::{json_as_string, json_get, json_parse, spec_field_str, spec_json_parse};
use crate::protocol::{MCPTool, MCPToolView};
use crate::strutil::{push_str_chars, string_from_chars};

verus! {

/// What a tool advertises: its name, a description, and the JSON schema of
/// its parameters, held as schema text.
pub struct Function {
    pub name: String,
    pub description: String,
    pub parameters: String,
}

pub ghost struct FunctionView {
    pub name: Seq<char>,
    pub description: Seq<char>,
    pub parameters: Seq<char>,
}

impl View for Function {
    type V = FunctionView;

    open spec fn view(&self) -> FunctionView {
        FunctionView {
            name: self.name@,
            description: self.description@,
            parameters: self.parameters@,
        }
    }
}

/// A tool definition as the completion endpoint expects it: the kind tag
/// (the text `function` on the wire) and the function it describes.
pub struct Tool {
    pub tool_kind: String,
    pub function: Function,
}

pub ghost struct ToolView {
    pub tool_kind: Seq<char>,
    pub function: FunctionView,
}

impl View for Tool {
    type V = ToolView;

    open spec fn view(&self) -> ToolView {
        ToolView { tool_kind: self.tool_kind@, function: self.function@ }
    }
}

impl DeepView for Tool {
    type V = ToolView;

    open spec fn deep_view(&self) -> ToolView {
        self.view()
    }
}

/// An exact copy of a tool definition.
pub fn duplicate_tool(t: &Tool) -> (r: Tool)
    ensures
        r@ == t@,
{
    Tool {
        tool_kind: t.tool_kind.clone(),
        function: Function {
            name: t.function.name.clone(),
            description: t.function.description.clone(),
            parameters: t.function.parameters.clone(),
        },
    }
}

/// What executes a tool: one of the built-in local operations, or a proxy
/// that forwards to a remote tool (named as the server knows it) on the
/// protocol client at index `server`.
#[derive(Debug)]
pub enum Capability {
    Shell,
    Calculator,
    FileRead,
    FileWrite,
    Remote { server: usize, tool_name: String },
}

pub ghost enum CapabilityView {
    Shell,
    Calculator,
    FileRead,
    FileWrite,
    Remote { server: usize, tool_name: Seq<char> },
}

impl View for Capability {
    type V = CapabilityView;

    open spec fn view(&self) -> CapabilityView {
        match self {
            Capability::Shell => CapabilityView::Shell,
            Capability::Calculator => CapabilityView::Calculator,
            Capability::FileRead => CapabilityView::FileRead,
            Capability::FileWrite => CapabilityView::FileWrite,
            Capability::Remote { server, tool_name } => CapabilityView::Remote {
                server: *server,
                tool_name: tool_name@,
            },
        }
    }
}

/// An exact copy of a capability.
pub fn duplicate_capability(c: &Capability) -> (r: Capability)
    ensures
        r@ == c@,
{
    match c {
        Capability::Shell => Capability::Shell,
        Capability::Calculator => Capability::Calculator,
        Capability::FileRead => Capability::FileRead,
        Capability::FileWrite => Capability::FileWrite,
        Capability::Remote { server, tool_name } => Capability::Remote {
            server: *server,
            tool_name: tool_name.clone(),
        },
    }
}

/// One registry binding: a definition and the capability that backs it.
/// The binding's name is the definition's function name.
pub struct RegistryEntry {
    pub definition: Tool,
    pub capability: Capability,
}

pub ghost struct RegistryEntryView {
    pub definition: ToolView,
    pub capability: CapabilityView,
}

impl View for RegistryEntry {
    type V = RegistryEntryView;

    open spec fn view(&self) -> RegistryEntryView {
        RegistryEntryView { definition: self.definition@, capability: self.capability@ }
    }
}

impl DeepView for RegistryEntry {
    type V = RegistryEntryView;

    open spec fn deep_view(&self) -> RegistryEntryView {
        self.view()
    }
}

/// The name a registry entry is bound under.
pub open spec fn spec_entry_name(e: RegistryEntryView) -> Seq<char> {
    e.definition.function.name
}

/// The first binding under `name`, scanning in order.
pub open spec fn spec_lookup(es: Seq<RegistryEntryView>, name: Seq<char>) -> Option<
    RegistryEntryView,
>
    decreases es.len(),
{
    if es.len() == 0 {
        None
    } else if spec_entry_name(es[0]) == name {
        Some(es[0])
    } else {
        spec_lookup(es.drop_first(), name)
    }
}

/// Registering `e` replaces the first binding under its name, or appends
/// `e` when its name is new.
pub open spec fn spec_register(es: Seq<RegistryEntryView>, e: RegistryEntryView) -> Seq<
    RegistryEntryView,
>
    decreases es.len(),
{
    if es.len() == 0 {
        seq![e]
    } else if spec_entry_name(es[0]) == spec_entry_name(e) {
        seq![e] + es.drop_first()
    } else {
        seq![es[0]] + spec_register(es.drop_first(), e)
    }
}

/// Scanning past entries bound under other names leaves a lookup alone.
proof fn lemma_lookup_skip(es: Seq<RegistryEntryView>, name: Seq<char>, i: int)
    requires
        0 <= i <= es.len(),
        forall|k: int| 0 <= k < i ==> spec_entry_name(#[trigger] es[k]) != name,
    ensures
        spec_lookup(es, name) == spec_lookup(es.skip(i), name),
    decreases i,
{
    if i > 0 {
        assert(spec_entry_name(es[0]) != name);
        assert(spec_lookup(es, name) == spec_lookup(es.drop_first(), name));
        assert(es.drop_first().skip(i - 1) =~= es.skip(i));
        assert forall|k: int| 0 <= k < i - 1 implies spec_entry_name(
            #[trigger] es.drop_first()[k],
        ) != name by {
            assert(es.drop_first()[k] == es[k + 1]);
        }
        lemma_lookup_skip(es.drop_first(), name, i - 1);
        assert(spec_lookup(es.drop_first(), name) == spec_lookup(
            es.drop_first().skip(i - 1),
            name,
        ));
        assert(spec_lookup(es.drop_first().skip(i - 1), name) == spec_lookup(es.skip(i), name));
    } else {
        assert(es.skip(0) =~= es);
    }
}

/// Scanning past entries bound under other names leaves a registration's
/// effect on the remainder.
proof fn lemma_register_skip(es: Seq<RegistryEntryView>, e: RegistryEntryView, i: int)
    requires
        0 <= i <= es.len(),
        forall|k: int| 0 <= k < i ==> spec_entry_name(#[trigger] es[k]) != spec_entry_name(e),
    ensures
        spec_register(es, e) == es.take(i) + spec_register(es.skip(i), e),
    decreases i,
{
    if i == 0 {
        assert(es.skip(0) =~= es);
        assert(es.take(0) + spec_register(es, e) =~= spec_register(es, e));
    } else {
        assert(spec_entry_name(es[0]) != spec_entry_name(e));
        assert forall|k: int| 0 <= k < i - 1 implies spec_entry_name(
            #[trigger] es.drop_first()[k],
        ) != spec_entry_name(e) by {
            assert(es.drop_first()[k] == es[k + 1]);
        }
        lemma_register_skip(es.drop_first(), e, i - 1);
        assert(es.drop_first().skip(i - 1) =~= es.skip(i));
        assert(es.drop_first().take(i - 1) =~= es.take(i).drop_first());
        assert(seq![es[0]] + (es.take(i).drop_first() + spec_register(es.skip(i), e)) =~= es.take(
            i,
        ) + spec_register(es.skip(i), e));
    }
}

/// Law: the last writer wins. After registering `e`, looking its name up
/// finds exactly `e`, and every other name resolves as it did before.
pub proof fn lemma_register_lookup(
    es: Seq<RegistryEntryView>,
    e: RegistryEntryView,
    name: Seq<char>,
)
    ensures
        spec_lookup(spec_register(es, e), name) == if name == spec_entry_name(e) {
            Some(e)
        } else {
            spec_lookup(es, name)
        },
    decreases es.len(),
{
    if es.len() == 0 {
        assert(spec_register(es, e) == seq![e]);
        assert(spec_register(es, e)[0] == e);
        assert(spec_register(es, e).len() == 1);
        if name != spec_entry_name(e) {
            assert(spec_register(es, e).drop_first() =~= Seq::<RegistryEntryView>::empty());
            assert(spec_lookup(spec_register(es, e).drop_first(), name) is None);
            assert(spec_lookup(spec_register(es, e), name) is None);
        }
    } else if spec_entry_name(es[0]) == spec_entry_name(e) {
        let r = seq![e] + es.drop_first();
        assert(spec_register(es, e) == r);
        assert(r[0] == e);
        assert(r.len() > 0);
        if name != spec_entry_name(e) {
            assert(r.drop_first() =~= es.drop_first());
            assert(spec_lookup(r, name) == spec_lookup(es.drop_first(), name));
            assert(spec_lookup(es, name) == spec_lookup(es.drop_first(), name));
        }
    } else {
        lemma_register_lookup(es.drop_first(), e, name);
        let r = seq![es[0]] + spec_register(es.drop_first(), e);
        assert(spec_register(es, e) == r);
        assert(r[0] == es[0]);
        assert(r.len() > 0);
        assert(r.drop_first() =~= spec_register(es.drop_first(), e));
        if name == spec_entry_name(es[0]) {
            assert(spec_lookup(r, name) == Some(es[0]));
            assert(spec_lookup(es, name) == Some(es[0]));
        } else {
            assert(spec_lookup(r, name) == spec_lookup(spec_register(es.drop_first(), e), name));
            assert(spec_lookup(es, name) == spec_lookup(es.drop_first(), name));
        }
    }
}

/// How a tool call fails at the registry: the name is bound to nothing, or
/// the bound operation itself failed.
#[derive(Debug)]
pub enum ToolError {
    NotFound { name: String },
    ExecutionFailed { message: String },
}

impl ToolError {
    /// The error text surfaced to the transcript.
    pub fn describe(&self) -> (r: String)
        ensures
            match self {
                ToolError::NotFound { name } => r@ == "Tool "@ + name@ + " not found"@,
                ToolError::ExecutionFailed { message } => r@ == message@,
            },
    {
        match self {
            ToolError::NotFound { name } => {
                let mut out: Vec<char> = Vec::new();
                push_str_chars(&mut out, "Tool ");
                push_str_chars(&mut out, name.as_str());
                push_str_chars(&mut out, " not found");
                string_from_chars(&out)
            },
            ToolError::ExecutionFailed { message } => message.clone(),
        }
    }
}

/// The registry: bindings in registration order, names unique.
pub struct ToolRegistry {
    pub entries: Vec<RegistryEntry>,
}

/// No two bindings share a name.
pub open spec fn spec_names_unique(es: Seq<RegistryEntryView>) -> bool {
    forall|i: int, j: int|
        0 <= i < j < es.len() ==> spec_entry_name(#[trigger] es[i]) != spec_entry_name(
            #[trigger] es[j],
        )
}

impl ToolRegistry {
    pub open spec fn wf(&self) -> bool {
        spec_names_unique(self.entries.deep_view())
    }

    /// An empty registry.
    pub fn empty() -> (r: ToolRegistry)
        ensures
            r.entries.deep_view() =~= Seq::<RegistryEntryView>::empty(),
            r.wf(),
    {
        ToolRegistry { entries: Vec::new() }
    }

    /// Bind `entry` under its name: the first binding under that name is
    /// replaced in place, a new name is appended. The last writer wins.
    pub fn register(&mut self, entry: RegistryEntry)
        requires
            old(self).wf(),
        ensures
            final(self).entries.deep_view() == spec_register(
                old(self).entries.deep_view(),
                entry@,
            ),
            final(self).wf(),
    {
        let n = self.entries.len();
        let mut i: usize = 0;
        while i < n
            invariant
                n == self.entries@.len(),
                i <= n,
                self.entries.deep_view() == old(self).entries.deep_view(),
                spec_names_unique(self.entries.deep_view()),
                forall|k: int|
                    0 <= k < i ==> spec_entry_name(
                        #[trigger] self.entries.deep_view()[k],
                    ) != spec_entry_name(entry@),
            decreases n - i,
        {
            let ghost es = self.entries.deep_view();
            let ghost ev = entry@;
            let same = crate::strutil::str_eq(
                self.entries[i].definition.function.name.as_str(),
                entry.definition.function.name.as_str(),
            );
            proof {
                assert(es[i as int] == self.entries@[i as int]@);
                assert(spec_entry_name(es[i as int]) == self.entries@[
                    i as int
                ].definition.function.name@);
                assert(spec_entry_name(ev) == entry.definition.function.name@);
            }
            if same {
                proof {
                    assert(spec_entry_name(es[i as int]) == spec_entry_name(ev));
                    lemma_register_skip(es, ev, i as int);
                    assert(es.skip(i as int)[0] == es[i as int]);
                    assert(es.skip(i as int).len() > 0);
                    assert(spec_register(es.skip(i as int), ev) == seq![ev] + es.skip(
                        i as int,
                    ).drop_first());
                    assert(es.skip(i as int).drop_first() =~= es.skip(i as int + 1));
                }
                self.entries[i] = entry;
                proof {
                    assert(self.entries.deep_view() =~= es.update(i as int, ev));
                    assert(es.take(i as int) + (seq![ev] + es.skip(i as int + 1)) =~= es.update(
                        i as int,
                        ev,
                    ));
                    assert forall|a: int, b: int|
                        0 <= a < b < es.update(i as int, ev).len() implies spec_entry_name(
                        #[trigger] es.update(i as int, ev)[a],
                    ) != spec_entry_name(#[trigger] es.update(i as int, ev)[b]) by {
                        assert(spec_entry_name(es[i as int]) == spec_entry_name(ev));
                        assert(spec_entry_name(es[a]) != spec_entry_name(es[b]));
                    }
                }
                return ;
            }
            i = i + 1;
        }
        let ghost es = self.entries.deep_view();
        let ghost ev = entry@;
        proof {
            lemma_register_skip(es, ev, n as int);
            assert(es.skip(n as int) =~= Seq::<RegistryEntryView>::empty());
            assert(es.take(n as int) =~= es);
            assert(spec_register(Seq::<RegistryEntryView>::empty(), ev) == seq![ev]);
        }
        self.entries.push(entry);
        proof {
            assert(self.entries.deep_view() =~= es.push(ev));
            assert(es + seq![ev] =~= es.push(ev));
            assert forall|a: int, b: int|
                0 <= a < b < es.push(ev).len() implies spec_entry_name(
                #[trigger] es.push(ev)[a],
            ) != spec_entry_name(#[trigger] es.push(ev)[b]) by {
                if b == es.len() {
                    assert(spec_entry_name(es[a]) != spec_entry_name(ev));
                } else {
                    assert(spec_entry_name(es[a]) != spec_entry_name(es[b]));
                }
            }
        }
    }

    /// The capability bound under `name`, or `NotFound` when nothing is.
    pub fn resolve(&self, name: &String) -> (r: Result<Capability, ToolError>)
        ensures
            match r {
                Ok(c) => {
                    &&& spec_lookup(self.entries.deep_view(), name@) is Some
                    &&& c@ == spec_lookup(self.entries.deep_view(), name@)->0.capability
                },
                Err(e) => {
                    &&& spec_lookup(self.entries.deep_view(), name@) is None
                    &&& e matches ToolError::NotFound { name: n } && n@ == name@
                },
            },
    {
        let ghost es = self.entries.deep_view();
        let n = self.entries.len();
        let mut i: usize = 0;
        while i < n
            invariant
                n == self.entries@.len(),
                es == self.entries.deep_view(),
                i <= n,
                forall|k: int| 0 <= k < i ==> spec_entry_name(#[trigger] es[k]) != name@,
            decreases n - i,
    {
            if crate::strutil::str_eq(
                self.entries[i].definition.function.name.as_str(),
                name.as_str(),
            ) {
                proof {
                    lemma_lookup_skip(es, name@, i as int);
                    assert(es.skip(i as int)[0] == es[i as int]);
                }
                return Ok(duplicate_capability(&self.entries[i].capability));
            }
            i = i + 1;
        }
        proof {
            lemma_lookup_skip(es, name@, n as int);
            assert(es.skip(n as int) =~= Seq::<RegistryEntryView>::empty());
        }
        Err(ToolError::NotFound { name: name.clone() })
    }

    /// The capability bound under `name`, or — for a name bound to
    /// nothing — exactly the error text the transcript shows for an
    /// unknown tool. An unknown tool thereby still yields a result text
    /// for its `tool` message, and the turn never aborts.
    pub fn resolve_or_error_text(&self, name: &String) -> (r: Result<Capability, String>)
        ensures
            match r {
                Ok(c) => {
                    &&& spec_lookup(self.entries.deep_view(), name@) is Some
                    &&& c@ == spec_lookup(self.entries.deep_view(), name@)->0.capability
                },
                Err(t) => {
                    &&& spec_lookup(self.entries.deep_view(), name@) is None
                    &&& t@ == "Tool "@ + name@ + " not found"@
                },
            },
    {
        match self.resolve(name) {
            Ok(c) => Ok(c),
            Err(e) => Err(e.describe()),
        }
    }

    /// The definitions of every binding, in registration order.
    pub fn get_tool_definitions(&self) -> (r: Vec<Tool>)
        ensures
            r.deep_view() == spec_definitions(self.entries.deep_view()),
    {
        let mut out: Vec<Tool> = Vec::new();
        let n = self.entries.len();
        let mut i: usize = 0;
        while i < n
            invariant
                n == self.entries@.len(),
                i <= n,
                out@.len() == i,
                forall|k: int| 0 <= k < i ==> out@[k]@ == self.entries.deep_view()[k].definition,
            decreases n - i,
        {
            out.push(duplicate_tool(&self.entries[i].definition));
            i = i + 1;
        }
        proof {
            assert(out.deep_view() =~= spec_definitions(self.entries.deep_view()));
        }
        out
    }
}

/// The definitions of the given bindings, in order.
pub open spec fn spec_definitions(es: Seq<RegistryEntryView>) -> Seq<ToolView> {
    Seq::new(es.len(), |i: int| es[i].definition)
}

/// Law: the advertised definitions are a function of the registry's
/// bindings alone, so two reads of an unmodified registry yield the same
/// list.
pub proof fn lemma_definitions_stable(
    es: Seq<RegistryEntryView>,
    d1: Seq<ToolView>,
    d2: Seq<ToolView>,
)
    requires
        d1 == spec_definitions(es),
        d2 == spec_definitions(es),
    ensures
        d1 == d2,
{
}

/// The parameter schema of the shell tool.
pub open spec fn spec_shell_schema() -> Seq<char> {
    "{\"type\":\"object\",\"properties\":{\"command\":{\"type\":\"string\",\"description\":\"The shell command to execute\"}},\"required\":[\"command\"]}"@
}

/// The parameter schema of the calculator tool.
pub open spec fn spec_calculator_schema() -> Seq<char> {
    "{\"type\":\"object\",\"properties\":{\"expression\":{\"type\":\"string\",\"description\":\"Mathematical expression to evaluate\"}},\"required\":[\"expression\"]}"@
}

/// The parameter schema of the file-reading tool.
pub open spec fn spec_read_file_schema() -> Seq<char> {
    "{\"type\":\"object\",\"properties\":{\"path\":{\"type\":\"string\",\"description\":\"Path to the file to read\"}},\"required\":[\"path\"]}"@
}

/// The parameter schema of the file-writing tool.
pub open spec fn spec_write_file_schema() -> Seq<char> {
    "{\"type\":\"object\",\"properties\":{\"path\":{\"type\":\"string\",\"description\":\"Path to the file to write\"},\"content\":{\"type\":\"string\",\"description\":\"Content to write to the file\"}},\"required\":[\"path\",\"content\"]}"@
}

/// The definition of the shell tool.
pub open spec fn spec_shell_def() -> ToolView {
    ToolView {
        tool_kind: "function"@,
        function: FunctionView {
            name: "shell"@,
            description: "Execute a shell command"@,
            parameters: spec_shell_schema(),
        },
    }
}

/// The definition of the calculator tool.
pub open spec fn spec_calculator_def() -> ToolView {
    ToolView {
        tool_kind: "function"@,
        function: FunctionView {
            name: "calculator"@,
            description: "Perform mathematical calculations"@,
            parameters: spec_calculator_schema(),
        },
    }
}

/// The definition of the file-reading tool.
pub open spec fn spec_read_file_def() -> ToolView {
    ToolView {
        tool_kind: "function"@,
        function: FunctionView {
            name: "read_file"@,
            description: "Read contents of a file"@,
            parameters: spec_read_file_schema(),
        },
    }
}

/// The definition of the file-writing tool.
pub open spec fn spec_write_file_def() -> ToolView {
    ToolView {
        tool_kind: "function"@,
        function: FunctionView {
            name: "write_file"@,
            description: "Write content to a file"@,
            parameters: spec_write_file_schema(),
        },
    }
}

/// The bindings a fresh registry holds, in order.
pub open spec fn spec_builtin_entries() -> Seq<RegistryEntryView> {
    seq![
        RegistryEntryView { definition: spec_shell_def(), capability: CapabilityView::Shell },
        RegistryEntryView {
            definition: spec_calculator_def(),
            capability: CapabilityView::Calculator,
        },
        RegistryEntryView { definition: spec_read_file_def(), capability: CapabilityView::FileRead },
        RegistryEntryView {
            definition: spec_write_file_def(),
            capability: CapabilityView::FileWrite,
        },
    ]
}

fn build_tool(tool_kind: &str, name: &str, description: &str, parameters: &str) -> (r: Tool)
    ensures
        r@.tool_kind == tool_kind@,
        r@.function.name == name@,
        r@.function.description == description@,
        r@.function.parameters == parameters@,
{
    Tool {
        tool_kind: String::from_str(tool_kind),
        function: Function {
            name: String::from_str(name),
            description: String::from_str(description),
            parameters: String::from_str(parameters),
        },
    }
}

/// The built-in local capability that runs a shell command and captures
/// its combined output.
pub struct ShellTool;

impl ShellTool {
    pub fn name(&self) -> (r: String)
        ensures
            r@ == "shell"@,
    {
        String::from_str("shell")
    }

    pub fn definition(&self) -> (r: Tool)
        ensures
            r@ == spec_shell_def(),
    {
        build_tool(
            "function",
            "shell",
            "Execute a shell command",
            "{\"type\":\"object\",\"properties\":{\"command\":{\"type\":\"string\",\"description\":\"The shell command to execute\"}},\"required\":[\"command\"]}",
        )
    }
}

/// The built-in local capability that evaluates an arithmetic expression
/// through an external evaluator.
pub struct CalculatorTool;

impl CalculatorTool {
    pub fn name(&self) -> (r: String)
        ensures
            r@ == "calculator"@,
    {
        String::from_str("calculator")
    }

    pub fn definition(&self) -> (r: Tool)
        ensures
            r@ == spec_calculator_def(),
    {
        build_tool(
            "function",
            "calculator",
            "Perform mathematical calculations",
            "{\"type\":\"object\",\"properties\":{\"expression\":{\"type\":\"string\",\"description\":\"Mathematical expression to evaluate\"}},\"required\":[\"expression\"]}",
        )
    }
}

/// The built-in local capability that reads a whole file.
pub struct FileReadTool;

impl FileReadTool {
    pub fn name(&self) -> (r: String)
        ensures
            r@ == "read_file"@,
    {
        String::from_str("read_file")
    }

    pub fn definition(&self) -> (r: Tool)
        ensures
            r@ == spec_read_file_def(),
    {
        build_tool(
            "function",
            "read_file",
            "Read contents of a file",
            "{\"type\":\"object\",\"properties\":{\"path\":{\"type\":\"string\",\"description\":\"Path to the file to read\"}},\"required\":[\"path\"]}",
        )
    }
}

/// The built-in local capability that writes a whole file, truncating.
pub struct FileWriteTool;

impl FileWriteTool {
    pub fn name(&self) -> (r: String)
        ensures
            r@ == "write_file"@,
    {
        String::from_str("write_file")
    }

    pub fn definition(&self) -> (r: Tool)
        ensures
            r@ == spec_write_file_def(),
    {
        build_tool(
            "function",
            "write_file",
            "Write content to a file",
            "{\"type\":\"object\",\"properties\":{\"path\":{\"type\":\"string\",\"description\":\"Path to the file to write\"},\"content\":{\"type\":\"string\",\"description\":\"Content to write to the file\"}},\"required\":[\"path\",\"content\"]}",
        )
    }
}

impl ToolRegistry {
    /// A registry holding the four built-in tools.
    pub fn new() -> (r: ToolRegistry)
        ensures
            r.entries.deep_view() == spec_builtin_entries(),
            r.wf(),
    {
        let mut entries: Vec<RegistryEntry> = Vec::new();
        entries.push(
            RegistryEntry { definition: ShellTool.definition(), capability: Capability::Shell },
        );
        entries.push(
            RegistryEntry {
                definition: CalculatorTool.definition(),
                capability: Capability::Calculator,
            },
        );
        entries.push(
            RegistryEntry {
                definition: FileReadTool.definition(),
                capability: Capability::FileRead,
            },
        );
        entries.push(
            RegistryEntry {
                definition: FileWriteTool.definition(),
                capability: Capability::FileWrite,
            },
        );
        let r = ToolRegistry { entries };
        proof {
            assert(r.entries.deep_view() =~= spec_builtin_entries());
            reveal_strlit("shell");
            reveal_strlit("calculator");
            reveal_strlit("read_file");
            reveal_strlit("write_file");
            assert("shell"@.len() == 5 && "calculator"@.len() == 10 && "read_file"@.len() == 9
                && "write_file"@.len() == 10);
            assert("calculator"@ != "write_file"@) by {
                assert("calculator"@[0] == 'c' && "write_file"@[0] == 'w');
            }
            assert(r.wf());
        }
        r
    }
}

/// The definition advertised for a remote tool: its own name and schema,
/// and its description where it gave one, a fixed text where it did not.
pub fn mcp_tool_definition(t: &MCPTool) -> (r: Tool)
    ensures
        r@.tool_kind == "function"@,
        r@.function.name == t@.name,
        r@.function.parameters == t@.input_schema,
        r@.function.description == (match t@.description {
            Some(d) => d,
            None => "MCP tool"@,
        }),
{
    let description = match &t.description {
        Some(d) => d.clone(),
        None => String::from_str("MCP tool"),
    };
    Tool {
        tool_kind: String::from_str("function"),
        function: Function {
            name: t.name.clone(),
            description,
            parameters: t.input_schema.clone(),
        },
    }
}

/// The registry binding for one remote tool on the protocol client at
/// index `server`.
pub open spec fn spec_remote_entry(server: usize, t: MCPToolView) -> RegistryEntryView {
    RegistryEntryView {
        definition: ToolView {
            tool_kind: "function"@,
            function: FunctionView {
                name: t.name,
                description: match t.description {
                    Some(d) => d,
                    None => "MCP tool"@,
                },
                parameters: t.input_schema,
            },
        },
        capability: CapabilityView::Remote { server, tool_name: t.name },
    }
}

/// Registering a server's tools binds each in turn, first to last; a tool
/// sharing a name with an earlier binding overwrites it.
pub open spec fn spec_register_all(
    es: Seq<RegistryEntryView>,
    server: usize,
    ts: Seq<MCPToolView>,
) -> Seq<RegistryEntryView>
    decreases ts.len(),
{
    if ts.len() == 0 {
        es
    } else {
        spec_register_all(spec_register(es, spec_remote_entry(server, ts[0])), server, ts.drop_first())
    }
}

/// Registering one more tool registers it after the others.
proof fn lemma_register_all_push(
    es: Seq<RegistryEntryView>,
    server: usize,
    ts: Seq<MCPToolView>,
    t: MCPToolView,
)
    ensures
        spec_register_all(es, server, ts.push(t)) == spec_register(
            spec_register_all(es, server, ts),
            spec_remote_entry(server, t),
        ),
    decreases ts.len(),
{
    if ts.len() == 0 {
        assert(ts.push(t)[0] == t);
        assert(ts.push(t).drop_first() =~= Seq::<MCPToolView>::empty());
        let es1 = spec_register(es, spec_remote_entry(server, t));
        assert(spec_register_all(es, server, ts.push(t)) == spec_register_all(
            es1,
            server,
            ts.push(t).drop_first(),
        ));
        assert(spec_register_all(es1, server, Seq::<MCPToolView>::empty()) == es1);
    } else {
        assert(ts.push(t)[0] == ts[0]);
        assert(ts.push(t).drop_first() =~= ts.drop_first().push(t));
        lemma_register_all_push(
            spec_register(es, spec_remote_entry(server, ts[0])),
            server,
            ts.drop_first(),
            t,
        );
    }
}

impl ToolRegistry {
    /// Bind every tool a server advertised, in the order it listed them,
    /// as remote proxies on the protocol client at index `server`.
    pub fn register_server_tools(&mut self, server: usize, tools: &Vec<MCPTool>)
        requires
            old(self).wf(),
        ensures
            final(self).entries.deep_view() == spec_register_all(
                old(self).entries.deep_view(),
                server,
                tools.deep_view(),
            ),
            final(self).wf(),
    {
        let n = tools.len();
        let mut i: usize = 0;
        while i < n
            invariant
                n == tools@.len(),
                i <= n,
                self.wf(),
                self.entries.deep_view() == spec_register_all(
                    old(self).entries.deep_view(),
                    server,
                    tools.deep_view().take(i as int),
                ),
            decreases n - i,
        {
            let t = &tools[i];
            let entry = RegistryEntry {
                definition: mcp_tool_definition(t),
                capability: Capability::Remote { server, tool_name: t.name.clone() },
            };
            proof {
                assert(tools.deep_view()[i as int] == tools@[i as int]@);
                assert(entry@ == spec_remote_entry(server, tools.deep_view()[i as int]));
            }
            self.register(entry);
            proof {
                lemma_register_all_push(
                    old(self).entries.deep_view(),
                    server,
                    tools.deep_view().take(i as int),
                    tools.deep_view()[i as int],
                );
                assert(tools.deep_view().take(i as int + 1) =~= tools.deep_view().take(
                    i as int,
                ).push(tools.deep_view()[i as int]));
            }
            i = i + 1;
        }
        proof {
            assert(tools.deep_view().take(n as int) =~= tools.deep_view());
        }
    }
}

/// The JSON object advertising one tool to the model: the kind tag and the
/// function's name, description, and schema (spliced in as schema text).
pub open spec fn spec_tool_def_json(t: ToolView) -> Seq<char> {
    "{\"type\":"@ + spec_json_string(t.tool_kind) + ",\"function\":{\"name\":"@
        + spec_json_string(t.function.name) + ",\"description\":"@ + spec_json_string(
        t.function.description,
    ) + ",\"parameters\":"@ + t.function.parameters + "}}"@
}

/// The comma-separated list of the given tool definitions, in order.
pub open spec fn spec_tool_def_list(ts: Seq<ToolView>) -> Seq<char>
    decreases ts.len(),
{
    if ts.len() == 0 {
        Seq::empty()
    } else if ts.len() == 1 {
        spec_tool_def_json(ts[0])
    } else {
        spec_tool_def_json(ts[0]) + seq![','] + spec_tool_def_list(ts.drop_first())
    }
}

/// Listing one more definition appends a comma (when anything came before
/// it) and then its encoding.
pub proof fn lemma_tool_def_list_push(ts: Seq<ToolView>, t: ToolView)
    ensures
        spec_tool_def_list(ts.push(t)) == if ts.len() == 0 {
            spec_tool_def_json(t)
        } else {
            spec_tool_def_list(ts) + seq![','] + spec_tool_def_json(t)
        },
    decreases ts.len(),
{
    if ts.len() == 0 {
        assert(ts.push(t)[0] == t);
    } else {
        lemma_tool_def_list_push(ts.drop_first(), t);
        assert(ts.push(t).drop_first() =~= ts.drop_first().push(t));
        assert(ts.push(t)[0] == ts[0]);
        if ts.len() == 1 {
            assert(spec_tool_def_list(ts.push(t)) =~= spec_tool_def_list(ts) + seq![',']
                + spec_tool_def_json(t));
        } else {
            assert(spec_tool_def_json(ts[0]) + seq![','] + (spec_tool_def_list(ts.drop_first())
                + seq![','] + spec_tool_def_json(t)) =~= (spec_tool_def_json(ts[0]) + seq![',']
                + spec_tool_def_list(ts.drop_first())) + seq![','] + spec_tool_def_json(t));
        }
    }
}

/// The JSON array advertising the given tool definitions, in order.
pub open spec fn spec_tools_json(ts: Seq<ToolView>) -> Seq<char> {
    seq!['['] + spec_tool_def_list(ts) + seq![']']
}

fn push_tool_def_json(out: &mut Vec<char>, t: &Tool)
    ensures
        final(out)@ == old(out)@ + spec_tool_def_json(t@),
{
    push_str_chars(out, "{\"type\":");
    push_json_string(out, t.tool_kind.as_str());
    push_str_chars(out, ",\"function\":{\"name\":");
    push_json_string(out, t.function.name.as_str());
    push_str_chars(out, ",\"description\":");
    push_json_string(out, t.function.description.as_str());
    push_str_chars(out, ",\"parameters\":");
    push_str_chars(out, t.function.parameters.as_str());
    push_str_chars(out, "}}");
    proof {
        assert(out@ =~= old(out)@ + spec_tool_def_json(t@));
    }
}

/// Encode the tool catalogue as the JSON array the completion request
/// carries under `tools`.
pub fn encode_tools_json(ts: &Vec<Tool>) -> (r: String)
    ensures
        r@ == spec_tools_json(ts.deep_view()),
{
    let mut out: Vec<char> = Vec::new();
    out.push('[');
    let mut i: usize = 0;
    while i < ts.len()
        invariant
            i <= ts@.len(),
            out@ == seq!['['] + spec_tool_def_list(ts.deep_view().take(i as int)),
        decreases ts@.len() - i,
    {
        let ghost mid = out@;
        if i > 0 {
            out.push(',');
        }
        push_tool_def_json(&mut out, &ts[i]);
        proof {
            let parts = ts.deep_view().take(i as int);
            let p = spec_tool_def_json(ts@[i as int]@);
            lemma_tool_def_list_push(parts, ts.deep_view()[i as int]);
            assert(ts.deep_view()[i as int] == ts@[i as int]@);
            assert(ts.deep_view().take(i as int + 1) =~= parts.push(ts.deep_view()[i as int]));
            if i > 0 {
                assert(out@ =~= mid + seq![','] + p);
                assert(out@ =~= seq!['['] + (spec_tool_def_list(parts) + seq![','] + p));
            } else {
                assert(parts.len() == 0);
                assert(mid =~= seq!['[']);
                assert(out@ =~= seq!['['] + p);
            }
            assert(out@ =~= seq!['['] + spec_tool_def_list(ts.deep_view().take(i as int + 1)));
        }
        i = i + 1;
    }
    out.push(']');
    proof {
        assert(ts.deep_view().take(ts@.len() as int) =~= ts.deep_view());
        assert(out@ =~= spec_tools_json(ts.deep_view()));
    }
    string_from_chars(&out)
}

/// The error text for a tool argument object that lacks a required field.
pub open spec fn spec_missing_param(key: Seq<char>) -> Seq<char> {
    "Missing "@ + key + " parameter"@
}

/// Read the required string field `key` out of a tool's argument text:
/// the string under `key`, exactly when the text parses as JSON and
/// holds one; the error otherwise names what was missing, or reports
/// unparseable arguments.
pub fn string_arg(args: &str, key: &str) -> (r: Result<String, String>)
    ensures
        match spec_json_parse(args@) {
            None => r matches Err(m) && m@ == "invalid tool arguments"@,
            Some(d) => match spec_field_str(d, key@) {
                Some(v) => r matches Ok(o) && o@ == v,
                None => r matches Err(m) && m@ == spec_missing_param(key@),
            },
        },
{
    let doc = match json_parse(args) {
        Some(d) => d,
        None => {
            return Err(String::from_str("invalid tool arguments"));
        },
    };
    match json_get(&doc, key) {
        Some(v) => match json_as_string(v) {
            Some(s) => Ok(s),
            None => Err(missing_param_error(key)),
        },
        None => Err(missing_param_error(key)),
    }
}

/// The error text for a missing tool parameter.
pub fn missing_param_error(key: &str) -> (r: String)
    ensures
        r@ == spec_missing_param(key@),
{
    let mut out: Vec<char> = Vec::new();
    push_str_chars(&mut out, "Missing ");
    push_str_chars(&mut out, key);
    push_str_chars(&mut out, " parameter");
    string_from_chars(&out)
}

/// The error text a failed tool execution surfaces in the transcript.
pub fn error_result_text(detail: &str) -> (r: String)
    ensures
        r@ == "Error: "@ + detail@,
{
    let mut out: Vec<char> = Vec::new();
    push_str_chars(&mut out, "Error: ");
    push_str_chars(&mut out, detail);
    string_from_chars(&out)
}

/// The text a shell run surfaces: both captured streams, labelled.
pub fn shell_output_text(stdout_text: &str, stderr_text: &str) -> (r: String)
    ensures
        r@ == "stdout:\n"@ + stdout_text@ + "\nstderr:\n"@ + stderr_text@,
{
    let mut out: Vec<char> = Vec::new();
    push_str_chars(&mut out, "stdout:\n");
    push_str_chars(&mut out, stdout_text);
    push_str_chars(&mut out, "\nstderr:\n");
    push_str_chars(&mut out, stderr_text);
    string_from_chars(&out)
}

/// The text a calculator run surfaces: the expression and its answer.
pub fn calculator_result_text(expression: &str, answer: &str) -> (r: String)
    ensures
        r@ == expression@ + " = "@ + answer@,
{
    let mut out: Vec<char> = Vec::new();
    push_str_chars(&mut out, expression);
    push_str_chars(&mut out, " = ");
    push_str_chars(&mut out, answer);
    string_from_chars(&out)
}

/// The text a file write surfaces.
pub fn file_written_text(path: &str) -> (r: String)
    ensures
        r@ == "File written to "@ + path@,
{
    let mut out: Vec<char> = Vec::new();
    push_str_chars(&mut out, "File written to ");
    push_str_chars(&mut out, path);
    string_from_chars(&out)
}

} // verus!

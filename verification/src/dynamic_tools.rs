//! Client-executed tools that the operator registers: which are accepted, how they are announced,
//! which calls may run, and what a run is worth.

use vstd::prelude::*;
use vstd::string::*;
use crate::goals_queue::texts;
use crate::json::{array_view, at, Json, JsonView};
use crate::native_services::{absolute, is_absolute};
use crate::protocol::{DynamicToolCallParams, ToolCallView};
use crate::schema::{check_value, compile_schema, schema_compiles, value_fault};
use crate::schema_shape::{is_usable, unbounded, usable};
use crate::steady::steady;
use crate::text::{blank, chars_of, is_blank, same};

verus! {

/// The most a tool reads or writes.
pub const MAX_BYTES: usize = 1_048_576;

/// The most calls that may run or wait for delivery.
pub const MAX_CONCURRENT: usize = 16;

/// How long a tool may run unless configured otherwise.
pub fn default_timeout() -> (r: u64)
    ensures
        r == 30_000,
{
    30_000
}

#[derive(Debug, Clone)]
pub struct DynamicToolNamespaceConfig {
    pub name: String,
    pub description: String,
    pub tools: Vec<DynamicToolConfig>,
}

#[derive(Debug)]
pub struct DynamicToolConfig {
    pub name: String,
    pub description: String,
    pub input_schema: Json,
    /// Absolute executable path; arguments are passed directly without a shell.
    pub command: String,
    /// Explicit working directory, independent of any thread's worktree.
    pub cwd: String,
    pub args: Vec<String>,
    pub timeout_ms: u64,
}

pub struct ToolView {
    pub name: Seq<char>,
    pub description: Seq<char>,
    pub input_schema: JsonView,
    pub command: Seq<char>,
    pub cwd: Seq<char>,
    pub args: Seq<Seq<char>>,
    pub timeout_ms: u64,
}

impl View for DynamicToolConfig {
    type V = ToolView;

    open spec fn view(&self) -> ToolView {
        ToolView {
            name: self.name@,
            description: self.description@,
            input_schema: self.input_schema@,
            command: self.command@,
            cwd: self.cwd@,
            args: texts(self.args@),
            timeout_ms: self.timeout_ms,
        }
    }
}

pub struct NamespaceView {
    pub name: Seq<char>,
    pub description: Seq<char>,
    pub tools: Seq<ToolView>,
}

impl View for DynamicToolNamespaceConfig {
    type V = NamespaceView;

    open spec fn view(&self) -> NamespaceView {
        NamespaceView {
            name: self.name@,
            description: self.description@,
            tools: self.tools@.map_values(|tool: DynamicToolConfig| tool@),
        }
    }
}

impl Clone for DynamicToolConfig {
    fn clone(&self) -> (r: DynamicToolConfig)
        ensures
            r@ == self@,
    {
        let mut args: Vec<String> = Vec::new();
        let mut i: usize = 0;
        while i < self.args.len()
            invariant
                i <= self.args@.len(),
                args@.len() == i,
                forall|k: int| 0 <= k < i ==> (#[trigger] args@[k])@ == self.args@[k]@,
            decreases self.args@.len() - i,
        {
            args.push(self.args[i].clone());
            i += 1;
        }
        assert(texts(args@) =~= texts(self.args@));
        DynamicToolConfig {
            name: self.name.clone(),
            description: self.description.clone(),
            input_schema: self.input_schema.clone(),
            command: self.command.clone(),
            cwd: self.cwd.clone(),
            args,
            timeout_ms: self.timeout_ms,
        }
    }
}

/// A letter, a digit or an underscore, in ASCII.
pub open spec fn name_char(c: char) -> bool {
    ('a' <= c && c <= 'z') || ('A' <= c && c <= 'Z') || ('0' <= c && c <= '9') || c == '_'
}

/// An identifier of at most 64 characters.
pub open spec fn identifier(name: Seq<char>) -> bool {
    &&& 0 < name.len() <= 64
    &&& forall|i: int| 0 <= i < name.len() ==> name_char(#[trigger] name[i])
    &&& !('0' <= name[0] && name[0] <= '9')
}

pub fn valid_name(name: &str) -> (r: bool)
    ensures
        r == identifier(name@),
{
    let chars = chars_of(name);
    if chars.len() == 0 || chars.len() > 64 {
        return false;
    }
    let mut i: usize = 0;
    while i < chars.len()
        invariant
            i <= chars@.len(),
            chars@ == name@,
            forall|k: int| 0 <= k < i ==> name_char(#[trigger] chars@[k]),
        decreases chars@.len() - i,
    {
        let c: char = chars[i];
        if !(('a' <= c && c <= 'z') || ('A' <= c && c <= 'Z') || ('0' <= c && c <= '9') || c == '_') {
            assert(!name_char(name@[i as int]));
            return false;
        }
        i += 1;
    }
    let first: char = chars[0];
    !('0' <= first && first <= '9')
}

/// Why a configuration is refused.
pub enum ConfigFault {
    Namespaces,
    Tool(Seq<char>),
    Unbounded(Seq<char>),
    Schema(Seq<char>),
    Duplicate,
}

pub open spec fn tool_complaint(name: Seq<char>) -> Seq<char> {
    "invalid dynamic tool "@ + name + ": require identifier name, absolute command/cwd, timeout_ms 1..3600000"@
}

pub open spec fn schema_complaint(name: Seq<char>, complaint: Seq<char>) -> Seq<char> {
    "invalid inputSchema for "@ + name + ": "@ + complaint
}

/// Whether a message tells a fault.
pub open spec fn tells(message: Seq<char>, fault: ConfigFault) -> bool {
    match fault {
        ConfigFault::Namespaces => message
            == "dynamic tool namespaces must have unique identifier names and at least one tool"@,
        ConfigFault::Tool(name) => message == tool_complaint(name),
        ConfigFault::Unbounded(name) => message == schema_complaint(name, unbounded()),
        ConfigFault::Schema(name) => exists|complaint: Seq<char>| message == #[trigger] schema_complaint(name, complaint),
        ConfigFault::Duplicate => message == "duplicate dynamic tool name in namespace"@,
    }
}

/// A tool that may be registered at all.
pub open spec fn sound_tool(tool: ToolView) -> bool {
    &&& identifier(tool.name)
    &&& absolute(tool.command)
    &&& absolute(tool.cwd)
    &&& 1 <= tool.timeout_ms <= 3_600_000
}

/// The tools by namespace, in the order they were registered.
pub open spec fn named(tools: Seq<(Seq<char>, ToolView)>, namespace: Seq<char>, name: Seq<char>) -> bool {
    exists|i: int| 0 <= i < tools.len() && (#[trigger] tools[i]).0 == namespace && tools[i].1.name == name
}

/// Why a tool cannot be registered beside `tools`, its schema compiling or not.
pub open spec fn tool_fault(
    tools: Seq<(Seq<char>, ToolView)>,
    namespace: Seq<char>,
    tool: ToolView,
    compiles: bool,
) -> Option<ConfigFault> {
    if !sound_tool(tool) {
        Some(ConfigFault::Tool(tool.name))
    } else if !usable(tool.input_schema) {
        Some(ConfigFault::Unbounded(tool.name))
    } else if !compiles {
        Some(ConfigFault::Schema(tool.name))
    } else if named(tools, namespace, tool.name) {
        Some(ConfigFault::Duplicate)
    } else {
        None
    }
}

/// The tools after those of `list` were registered under `namespace`.
pub open spec fn with_tools(tools: Seq<(Seq<char>, ToolView)>, namespace: Seq<char>, list: Seq<ToolView>) -> Result<
    Seq<(Seq<char>, ToolView)>,
    ConfigFault,
>
    decreases list.len(),
{
    if list.len() == 0 {
        Ok(tools)
    } else {
        match with_tools(tools, namespace, list.drop_last()) {
            Err(fault) => Err(fault),
            Ok(before) => match tool_fault(before, namespace, list.last(), schema_compiles(list.last().input_schema)) {
                Some(fault) => Err(fault),
                None => Ok(before.push((namespace, list.last()))),
            },
        }
    }
}

/// How a tool is announced: by name, description and schema alone.
pub open spec fn tool_spec(tool: ToolView) -> JsonView {
    JsonView::Object(
        map![
            "type"@ => JsonView::Text("function"@),
            "name"@ => JsonView::Text(tool.name),
            "description"@ => JsonView::Text(tool.description),
            "inputSchema"@ => tool.input_schema,
        ],
    )
}

pub open spec fn namespace_spec(namespace: NamespaceView) -> JsonView {
    JsonView::Object(
        map![
            "type"@ => JsonView::Text("namespace"@),
            "name"@ => JsonView::Text(namespace.name),
            "description"@ => JsonView::Text(namespace.description),
            "tools"@ => JsonView::Array(namespace.tools.map_values(|tool: ToolView| tool_spec(tool))),
        ],
    )
}

/// What is registered, and how it is announced.
pub struct RegistryView {
    pub tools: Seq<(Seq<char>, ToolView)>,
    pub specs: Seq<JsonView>,
}

pub open spec fn name_taken(namespaces: Seq<NamespaceView>, name: Seq<char>) -> bool {
    exists|i: int| 0 <= i < namespaces.len() && (#[trigger] namespaces[i]).name == name
}

/// What a configuration registers.
pub open spec fn configured(namespaces: Seq<NamespaceView>) -> Result<RegistryView, ConfigFault>
    decreases namespaces.len(),
{
    if namespaces.len() == 0 {
        Ok(RegistryView { tools: Seq::empty(), specs: Seq::empty() })
    } else {
        let last = namespaces.last();
        match configured(namespaces.drop_last()) {
            Err(fault) => Err(fault),
            Ok(before) => if !identifier(last.name) || name_taken(namespaces.drop_last(), last.name) || last.tools.len()
                == 0 {
                Err(ConfigFault::Namespaces)
            } else {
                match with_tools(before.tools, last.name, last.tools) {
                    Err(fault) => Err(fault),
                    Ok(tools) => Ok(RegistryView { tools, specs: before.specs.push(namespace_spec(last)) }),
                }
            },
        }
    }
}

/// A registered tool.
#[derive(Debug)]
pub struct Executor {
    pub namespace: String,
    pub config: DynamicToolConfig,
}

/// What the operator registered, for the lifetime of one app-server.
#[derive(Debug)]
pub struct Registry {
    executors: Vec<Executor>,
    specs: Vec<Json>,
}

pub open spec fn executor_views(executors: Seq<Executor>) -> Seq<(Seq<char>, ToolView)> {
    executors.map_values(|e: Executor| (e.namespace@, e.config@))
}

impl View for Registry {
    type V = RegistryView;

    closed spec fn view(&self) -> RegistryView {
        RegistryView { tools: executor_views(self.executors@), specs: array_view(self.specs@) }
    }
}

impl Registry {
    /// Only what was checked is registered.
    pub open spec fn wf(&self) -> bool {
        sound_tools(self@.tools)
    }
}

impl Default for Registry {
    fn default() -> (r: Registry)
        ensures
            r.wf(),
            r@ == (RegistryView { tools: Seq::empty(), specs: Seq::empty() }),
    {
        let r = Registry { executors: Vec::new(), specs: Vec::new() };
        assert(executor_views(r.executors@) =~= Seq::empty());
        r
    }
}

/// The first executor under a namespace and name.
fn place_of(executors: &Vec<Executor>, namespace: &str, name: &str) -> (r: Option<usize>)
    ensures
        match r {
            Some(i) => i < executors@.len() && executors@[i as int].namespace@ == namespace@ && executors@[i as int].config.name@
                == name@,
            None => !named(executor_views(executors@), namespace@, name@),
        },
{
    let mut i: usize = 0;
    while i < executors.len()
        invariant
            i <= executors@.len(),
            forall|k: int|
                0 <= k < i ==> !((#[trigger] executors@[k]).namespace@ == namespace@ && executors@[k].config.name@ == name@),
        decreases executors@.len() - i,
    {
        if same(executors[i].namespace.as_str(), namespace) && same(executors[i].config.name.as_str(), name) {
            return Some(i);
        }
        i += 1;
    }
    assert forall|k: int| 0 <= k < executor_views(executors@).len() implies !((#[trigger] executor_views(executors@)[k]).0
        == namespace@ && executor_views(executors@)[k].1.name == name@) by {
        assert(executors@[k].namespace@ == executor_views(executors@)[k].0);
    }
    None
}

fn schema_refusal(name: &str, complaint: &str) -> (r: String)
    ensures
        r@ == schema_complaint(name@, complaint@),
{
    let mut message = "invalid inputSchema for ".to_owned();
    message.append(name);
    message.append(": ");
    message.append(complaint);
    message
}

/// Whether a tool may be registered as far as it stands alone: its schema has yet to be compiled.
fn check_shape(tool: &DynamicToolConfig) -> (r: Result<(), String>)
    ensures
        if !sound_tool(tool@) {
            r matches Err(message) && message@ == tool_complaint(tool@.name)
        } else if !usable(tool@.input_schema) {
            r matches Err(message) && message@ == schema_complaint(tool@.name, unbounded())
        } else {
            r is Ok
        },
{
    if !valid_name(tool.name.as_str()) || !is_absolute(tool.command.as_str()) || !is_absolute(tool.cwd.as_str())
        || tool.timeout_ms < 1 || tool.timeout_ms > 3_600_000 {
        let mut message = "invalid dynamic tool ".to_owned();
        message.append(tool.name.as_str());
        message.append(": require identifier name, absolute command/cwd, timeout_ms 1..3600000");
        return Err(message);
    }
    if !is_usable(&tool.input_schema) {
        return Err(schema_refusal(tool.name.as_str(), "its references or keywords have no bound"));
    }
    Ok(())
}

/// A check of one tool, `compiled` being what came of compiling its schema.
pub fn check_tool(registry: &Registry, namespace: &str, tool: &DynamicToolConfig, compiled: Result<(), String>) -> (r: Result<
    (),
    String,
>)
    ensures
        match tool_fault(registry@.tools, namespace@, tool@, compiled is Ok) {
            None => r is Ok,
            Some(ConfigFault::Schema(name)) => r matches Err(message) && message@ == schema_complaint(name, compiled->Err_0@),
            Some(fault) => r matches Err(message) && tells(message@, fault),
        },
{
    check_shape(tool)?;
    if let Err(complaint) = compiled {
        return Err(schema_refusal(tool.name.as_str(), complaint.as_str()));
    }
    match place_of(&registry.executors, namespace, tool.name.as_str()) {
        Some(i) => {
            proof {
                let views = executor_views(registry.executors@);
                assert(views[i as int].0 == namespace@ && views[i as int].1.name == tool@.name);
            }
            Err("duplicate dynamic tool name in namespace".to_owned())
        },
        None => Ok(()),
    }
}

fn announce_tool(tool: &DynamicToolConfig) -> (r: Json)
    ensures
        r@ == tool_spec(tool@),
{
    let spec = Json::object().with("type", Json::text("function")).with("name", Json::text(tool.name.as_str())).with(
        "description",
        Json::text(tool.description.as_str()),
    ).with("inputSchema", tool.input_schema.clone());
    assert(spec@ =~= tool_spec(tool@));
    spec
}

/// A fault among the first tools is the fault of all of them.
proof fn lemma_first_tool_fault(tools: Seq<(Seq<char>, ToolView)>, namespace: Seq<char>, list: Seq<ToolView>, k: int)
    requires
        0 <= k <= list.len(),
        with_tools(tools, namespace, list.take(k)) is Err,
    ensures
        with_tools(tools, namespace, list) == with_tools(tools, namespace, list.take(k)),
    decreases list.len() - k,
{
    if k < list.len() {
        assert(list.take(k + 1).drop_last() =~= list.take(k));
        lemma_first_tool_fault(tools, namespace, list, k + 1);
    } else {
        assert(list.take(k) =~= list);
    }
}

/// A fault among the first namespaces is the fault of the configuration.
proof fn lemma_first_fault(namespaces: Seq<NamespaceView>, k: int)
    requires
        0 <= k <= namespaces.len(),
        configured(namespaces.take(k)) is Err,
    ensures
        configured(namespaces) == configured(namespaces.take(k)),
    decreases namespaces.len() - k,
{
    if k < namespaces.len() {
        assert(namespaces.take(k + 1).drop_last() =~= namespaces.take(k));
        lemma_first_fault(namespaces, k + 1);
    } else {
        assert(namespaces.take(k) =~= namespaces);
    }
}

pub open spec fn namespace_views(namespaces: Seq<DynamicToolNamespaceConfig>) -> Seq<NamespaceView> {
    namespaces.map_values(|n: DynamicToolNamespaceConfig| n@)
}

fn taken_before(namespaces: &Vec<DynamicToolNamespaceConfig>, end: usize, name: &str) -> (r: bool)
    requires
        end <= namespaces@.len(),
    ensures
        r == name_taken(namespace_views(namespaces@).take(end as int), name@),
{
    let ghost earlier = namespace_views(namespaces@).take(end as int);
    let mut i: usize = 0;
    while i < end
        invariant
            i <= end <= namespaces@.len(),
            earlier == namespace_views(namespaces@).take(end as int),
            forall|k: int| 0 <= k < i ==> (#[trigger] earlier[k]).name != name@,
        decreases end - i,
    {
        assert(earlier[i as int].name == namespaces@[i as int].name@);
        if same(namespaces[i].name.as_str(), name) {
            return true;
        }
        i += 1;
    }
    false
}

impl Registry {
    /// Registers one namespace's tools after it was found acceptable itself.
    fn add_tools(&mut self, namespace: &DynamicToolNamespaceConfig) -> (r: Result<Vec<Json>, String>)
        ensures
            final(self)@.specs == old(self)@.specs,
            match with_tools(old(self)@.tools, namespace@.name, namespace@.tools) {
                Ok(tools) => r matches Ok(specs) && final(self)@.tools == tools && array_view(specs@)
                    == namespace@.tools.map_values(|tool: ToolView| tool_spec(tool)),
                Err(fault) => r matches Err(message) && tells(message@, fault),
            },
    {
        let ghost before = self@;
        let ghost list = namespace@.tools;
        let mut specs: Vec<Json> = Vec::new();
        let mut j: usize = 0;
        assert(list.take(0) =~= Seq::<ToolView>::empty());
        assert(array_view(specs@) =~= list.take(0).map_values(|tool: ToolView| tool_spec(tool)));
        while j < namespace.tools.len()
            invariant
                j <= namespace.tools@.len(),
                before == old(self)@,
                list == namespace@.tools,
                list.len() == namespace.tools@.len(),
                self@.specs == before.specs,
                with_tools(before.tools, namespace@.name, list.take(j as int)) == Ok::<
                    Seq<(Seq<char>, ToolView)>,
                    ConfigFault,
                >(self@.tools),
                array_view(specs@) == list.take(j as int).map_values(|tool: ToolView| tool_spec(tool)),
            decreases namespace.tools@.len() - j,
        {
            let tool = &namespace.tools[j];
            let compiled = match check_shape(tool) {
                Ok(()) => compile_schema(&tool.input_schema),
                Err(message) => Err(message),
            };
            assert(list[j as int] == tool@);
            assert(list.take(j + 1).drop_last() =~= list.take(j as int));
            assert(list.take(j + 1).last() == tool@);
            let ghost complaint = compiled->Err_0@;
            if let Err(message) = check_tool(self, namespace.name.as_str(), tool, compiled) {
                proof {
                    lemma_first_tool_fault(before.tools, namespace@.name, list, j + 1);
                    let fault = tool_fault(self@.tools, namespace@.name, tool@, schema_compiles(tool@.input_schema))->0;
                    if let ConfigFault::Schema(name) = fault {
                        assert(message@ == schema_complaint(name, complaint));
                    }
                    assert(tells(message@, fault));
                }
                return Err(message);
            }
            let spec = announce_tool(tool);
            let ghost shown = specs@;
            specs.push(spec);
            assert(specs@.drop_last() =~= shown);
            assert(array_view(specs@) == array_view(shown).push(tool_spec(tool@)));
            assert(array_view(specs@) =~= list.take(j + 1).map_values(|tool: ToolView| tool_spec(tool)));
            let ghost registered = self@.tools;
            self.executors.push(Executor { namespace: namespace.name.clone(), config: tool.clone() });
            assert(self@.tools =~= registered.push((namespace@.name, tool@)));
            j += 1;
        }
        assert(list.take(list.len() as int) =~= list);
        Ok(specs)
    }

    /// Registers what the operator configured. The first fault refuses the whole configuration.
    pub fn from_config(namespaces: Vec<DynamicToolNamespaceConfig>) -> (r: Result<Registry, String>)
        ensures
            match configured(namespace_views(namespaces@)) {
                Ok(registry) => r matches Ok(found) && found@ == registry && found.wf(),
                Err(fault) => r matches Err(message) && tells(message@, fault),
            },
    {
        let ghost all = namespace_views(namespaces@);
        let mut registry = Registry::default();
        let mut i: usize = 0;
        assert(all.take(0) =~= Seq::<NamespaceView>::empty());
        while i < namespaces.len()
            invariant
                i <= namespaces@.len(),
                all == namespace_views(namespaces@),
                configured(all.take(i as int)) == Ok::<RegistryView, ConfigFault>(registry@),
            decreases namespaces@.len() - i,
        {
            let namespace = &namespaces[i];
            assert(all[i as int] == namespace@);
            assert(all.take(i + 1).drop_last() =~= all.take(i as int));
            assert(all.take(i + 1).last() == namespace@);
            assert(namespace@.tools.len() == namespace.tools@.len());
            if !valid_name(namespace.name.as_str()) || taken_before(&namespaces, i, namespace.name.as_str())
                || namespace.tools.len() == 0 {
                proof {
                    lemma_first_fault(all, i + 1);
                }
                return Err("dynamic tool namespaces must have unique identifier names and at least one tool".to_owned());
            }
            let ghost before = registry@;
            let tools = match registry.add_tools(namespace) {
                Ok(tools) => tools,
                Err(message) => {
                    proof {
                        lemma_first_fault(all, i + 1);
                    }
                    return Err(message);
                },
            };
            let spec = Json::object().with("type", Json::text("namespace")).with(
                "name",
                Json::text(namespace.name.as_str()),
            ).with("description", Json::text(namespace.description.as_str())).with("tools", Json::Array(tools));
            assert(spec@ =~= namespace_spec(namespace@));
            let ghost shown = registry.specs@;
            let ghost added = registry@.tools;
            registry.specs.push(spec);
            assert(registry.specs@.drop_last() =~= shown);
            assert(registry@.specs =~= before.specs.push(namespace_spec(namespace@)));
            assert(registry@.tools =~= added);
            i += 1;
        }
        assert(all.take(all.len() as int) =~= all);
        proof {
            law_registered_tools_are_sound(all);
        }
        Ok(registry)
    }

    /// How the tools are announced.
    pub fn specs(&self) -> (r: &Vec<Json>)
        ensures
            array_view(r@) == self@.specs,
    {
        &self.specs
    }
}

/// Every registered tool is sound, its schema is usable and compiles, and no two tools share namespace
/// and name.
pub open spec fn sound_tools(tools: Seq<(Seq<char>, ToolView)>) -> bool {
    &&& forall|i: int|
        0 <= i < tools.len() ==> sound_tool((#[trigger] tools[i]).1) && usable(tools[i].1.input_schema) && schema_compiles(
            tools[i].1.input_schema,
        )
    &&& forall|i: int, j: int|
        0 <= i < j < tools.len() ==> !((#[trigger] tools[i]).0 == (#[trigger] tools[j]).0 && tools[i].1.name == tools[j].1.name)
}

proof fn lemma_with_tools_sound(tools: Seq<(Seq<char>, ToolView)>, namespace: Seq<char>, list: Seq<ToolView>)
    requires
        sound_tools(tools),
    ensures
        with_tools(tools, namespace, list) matches Ok(after) ==> sound_tools(after) && after == tools + list.map_values(
            |tool: ToolView| (namespace, tool),
        ),
    decreases list.len(),
{
    if list.len() == 0 {
        assert(tools + list.map_values(|tool: ToolView| (namespace, tool)) =~= tools);
    } else {
        lemma_with_tools_sound(tools, namespace, list.drop_last());
        if let Ok(after) = with_tools(tools, namespace, list) {
            let before = with_tools(tools, namespace, list.drop_last())->Ok_0;
            assert(after =~= tools + list.map_values(|tool: ToolView| (namespace, tool)));
            assert forall|i: int, j: int| 0 <= i < j < after.len() implies !((#[trigger] after[i]).0 == (#[trigger] after[j]).0
                && after[i].1.name == after[j].1.name) by {
                if j == before.len() {
                    assert(before[i] == after[i]);
                } else {
                    assert(before[i] == after[i] && before[j] == after[j]);
                }
            }
        }
    }
}

/// Whatever is registered is sound: identifiers for names, absolute command and working directory, a
/// bounded time, a usable schema that compiles, and no name twice in a namespace.
pub proof fn law_registered_tools_are_sound(namespaces: Seq<NamespaceView>)
    ensures
        configured(namespaces) matches Ok(registry) ==> sound_tools(registry.tools) && registry.specs.len()
            == namespaces.len(),
    decreases namespaces.len(),
{
    if namespaces.len() > 0 {
        law_registered_tools_are_sound(namespaces.drop_last());
        if let Ok(before) = configured(namespaces.drop_last()) {
            lemma_with_tools_sound(before.tools, namespaces.last().name, namespaces.last().tools);
        }
    }
}

/// Announcements never reveal how a tool is run: tools that differ only in command, working directory,
/// arguments or time are announced alike.
pub proof fn law_announcements_hide_executables(
    tool: ToolView,
    command: Seq<char>,
    cwd: Seq<char>,
    args: Seq<Seq<char>>,
    timeout_ms: u64,
)
    ensures
        tool_spec(ToolView { command, cwd, args, timeout_ms, ..tool }) == tool_spec(tool),
{
}

/// The namespace a call names; none is the empty one.
pub open spec fn call_namespace(call: ToolCallView) -> Seq<char> {
    match call.namespace {
        Some(namespace) => namespace,
        None => Seq::empty(),
    }
}

/// A call that names its thread, its turn and itself.
pub open spec fn addressed(call: ToolCallView) -> bool {
    !blank(call.thread_id) && !blank(call.turn_id) && !blank(call.call_id)
}

pub open spec fn unknown_tool(call: ToolCallView) -> Seq<char> {
    "No configured client executor for "@ + call_namespace(call) + "."@ + call.tool
}

pub open spec fn argument_complaint(place: Seq<char>) -> Seq<char> {
    "dynamic tool arguments do not match inputSchema at "@ + place
}

/// The tool a call may run: the one registered under its namespace and name.
pub open spec fn tool_for(tools: Seq<(Seq<char>, ToolView)>, call: ToolCallView) -> Option<ToolView>
    decreases tools.len(),
{
    if tools.len() == 0 {
        None
    } else if tools[0].0 == call_namespace(call) && tools[0].1.name == call.tool {
        Some(tools[0].1)
    } else {
        tool_for(tools.drop_first(), call)
    }
}

/// The tool is one that was registered, under just the namespace and name that the call gives.
pub proof fn law_only_registered_tools_run(tools: Seq<(Seq<char>, ToolView)>, call: ToolCallView)
    ensures
        tool_for(tools, call) matches Some(tool) ==> tool.name == call.tool && tools.contains((call_namespace(call), tool)),
        tool_for(tools, call) is None <==> !named(tools, call_namespace(call), call.tool),
    decreases tools.len(),
{
    if tools.len() > 0 {
        let rest = tools.drop_first();
        law_only_registered_tools_run(rest, call);
        if tools[0].0 == call_namespace(call) && tools[0].1.name == call.tool {
            assert(tools[0] == (call_namespace(call), tools[0].1));
        } else {
            if let Some(tool) = tool_for(rest, call) {
                let k = choose|k: int| 0 <= k < rest.len() && rest[k] == (call_namespace(call), tool);
                assert(tools[k + 1] == rest[k]);
                assert(named(tools, call_namespace(call), call.tool));
            } else if named(tools, call_namespace(call), call.tool) {
                let k = choose|k: int|
                    0 <= k < tools.len() && (#[trigger] tools[k]).0 == call_namespace(call) && tools[k].1.name == call.tool;
                assert(rest[k - 1] == tools[k]);
            }
        }
    }
}

fn is_addressed(params: &DynamicToolCallParams) -> (r: bool)
    ensures
        r == addressed(params@),
{
    !is_blank(params.thread_id.as_str()) && !is_blank(params.turn_id.as_str()) && !is_blank(params.call_id.as_str())
}

/// How a check of a call's arguments turned out, as far as it is settled: of arguments that are not
/// steady, either outcome is possible.
pub open spec fn judged(tool: ToolView, call: ToolCallView, place: Option<Seq<char>>) -> bool {
    steady(call.arguments) ==> place == value_fault(tool.input_schema, call.arguments)
}

impl Registry {
    fn find(&self, params: &DynamicToolCallParams) -> (r: Option<&DynamicToolConfig>)
        ensures
            match tool_for(self@.tools, params@) {
                Some(tool) => r matches Some(found) && found@ == tool,
                None => r is None,
            },
    {
        let namespace = match &params.namespace {
            Some(namespace) => namespace.as_str(),
            None => "",
        };
        proof {
            reveal_strlit("");
            assert(namespace@ =~= call_namespace(params@));
        }
        let ghost all = self@.tools;
        assert(all.skip(0) =~= all);
        let mut i: usize = 0;
        while i < self.executors.len()
            invariant
                i <= self.executors@.len(),
                all == executor_views(self.executors@),
                namespace@ == call_namespace(params@),
                tool_for(all, params@) == tool_for(all.skip(i as int), params@),
            decreases self.executors@.len() - i,
        {
            assert(all.skip(i as int)[0] == all[i as int]);
            assert(all.skip(i as int).drop_first() =~= all.skip(i + 1));
            let executor = &self.executors[i];
            if same(executor.namespace.as_str(), namespace) && same(executor.config.name.as_str(), params.tool.as_str()) {
                return Some(&executor.config);
            }
            i += 1;
        }
        None
    }

    /// The tool a call may run, `verdict` being how its arguments fare against the tool's schema.
    pub fn executor_with(&self, params: &DynamicToolCallParams, verdict: Result<(), String>) -> (r: Result<
        DynamicToolConfig,
        String,
    >)
        ensures
            if !addressed(params@) {
                r matches Err(message) && message@ == "dynamic tool call requires threadId, turnId and callId"@
            } else {
                match tool_for(self@.tools, params@) {
                    None => r matches Err(message) && message@ == unknown_tool(params@),
                    Some(tool) => match verdict {
                        Ok(()) => r matches Ok(found) && found@ == tool,
                        Err(place) => r matches Err(message) && message@ == argument_complaint(place@),
                    },
                }
            },
    {
        if !is_addressed(params) {
            return Err("dynamic tool call requires threadId, turnId and callId".to_owned());
        }
        match self.find(params) {
            None => {
                let mut message = "No configured client executor for ".to_owned();
                if let Some(namespace) = &params.namespace {
                    message.append(namespace.as_str());
                }
                proof {
                    assert("No configured client executor for "@ + Seq::<char>::empty()
                        =~= "No configured client executor for "@);
                }
                message.append(".");
                message.append(params.tool.as_str());
                Err(message)
            },
            Some(tool) => match verdict {
                Ok(()) => Ok(tool.clone()),
                Err(place) => {
                    let mut message = "dynamic tool arguments do not match inputSchema at ".to_owned();
                    message.append(place.as_str());
                    Err(message)
                },
            },
        }
    }

    /// The tool a call may run: it names its thread, turn and call, it is registered, and its arguments
    /// meet the schema.
    pub fn executor(&self, params: &DynamicToolCallParams) -> (r: Result<DynamicToolConfig, String>)
        requires
            self.wf(),
        ensures
            if !addressed(params@) {
                r matches Err(message) && message@ == "dynamic tool call requires threadId, turnId and callId"@
            } else {
                match tool_for(self@.tools, params@) {
                    None => r matches Err(message) && message@ == unknown_tool(params@),
                    Some(tool) => match r {
                        Ok(found) => found@ == tool && judged(tool, params@, None),
                        Err(message) => exists|place: Seq<char>|
                            message@ == #[trigger] argument_complaint(place) && judged(tool, params@, Some(place)),
                    },
                }
            },
    {
        if !is_addressed(params) {
            return self.executor_with(params, Ok(()));
        }
        let verdict = match self.find(params) {
            Some(tool) => {
                proof {
                    law_only_registered_tools_run(self@.tools, params@);
                    let at = choose|at: int|
                        0 <= at < self@.tools.len() && self@.tools[at] == (call_namespace(params@), tool@);
                    assert(usable(self@.tools[at].1.input_schema));
                }
                check_value(&tool.input_schema, &params.arguments)
            },
            None => Ok(()),
        };
        let ghost place = verdict->Err_0@;
        let r = self.executor_with(params, verdict);
        proof {
            if r is Err && tool_for(self@.tools, params@) is Some {
                assert(r->Err_0@ == argument_complaint(place));
            }
        }
        r
    }
}

/// The names of an announcement's members are told apart.
proof fn lemma_announcement_names()
    ensures
        "type"@ != "name"@,
        "type"@ != "description"@,
        "type"@ != "inputSchema"@,
        "name"@ != "description"@,
        "name"@ != "inputSchema"@,
        "description"@ != "inputSchema"@,
        "type"@ != "tools"@,
        "name"@ != "tools"@,
        "description"@ != "tools"@,
{
    reveal_strlit("type");
    reveal_strlit("name");
    reveal_strlit("description");
    reveal_strlit("inputSchema");
    reveal_strlit("tools");
    assert("type"@[0] != "name"@[0]);
    assert("type"@.len() != "description"@.len());
    assert("type"@.len() != "inputSchema"@.len());
    assert("name"@.len() != "description"@.len());
    assert("name"@.len() != "inputSchema"@.len());
    assert("description"@[0] != "inputSchema"@[0]);
    assert("type"@.len() != "tools"@.len());
    assert("name"@.len() != "tools"@.len());
    assert("description"@.len() != "tools"@.len());
}

/// Names are spelled one character at a time: a letter or an underscore to begin with, then letters, digits and
/// underscores, up to the sixty-fourth.
pub proof fn law_names_are_spelled(name: Seq<char>, c: char)
    ensures
        !identifier(Seq::empty()),
        identifier(seq![c]) <==> ('a' <= c && c <= 'z') || ('A' <= c && c <= 'Z') || c == '_',
        name.len() > 0 ==> (identifier(name.push(c)) <==> identifier(name) && name.len() < 64 && (('a' <= c && c <= 'z') || (
        'A' <= c && c <= 'Z') || ('0' <= c && c <= '9') || c == '_')),
{
    assert(seq![c][0] == c);
    if name.len() > 0 {
        let longer = name.push(c);
        assert(longer[longer.len() - 1] == c);
        assert(forall|i: int| 0 <= i < name.len() ==> longer[i] == name[i]);
        assert(longer[0] == name[0]);
        if identifier(longer) {
            assert forall|i: int| 0 <= i < name.len() implies name_char(#[trigger] name[i]) by {
                assert(name_char(longer[i]));
            }
            assert(name_char(longer[longer.len() - 1]));
        }
    }
}

/// With no tool under the namespace yet, its tools are registered exactly where each of them may be and no two
/// share a name.
proof fn lemma_which_tools_are_taken(tools: Seq<(Seq<char>, ToolView)>, namespace: Seq<char>, list: Seq<ToolView>)
    requires
        forall|i: int| 0 <= i < tools.len() ==> (#[trigger] tools[i]).0 != namespace,
    ensures
        with_tools(tools, namespace, list) is Ok <==> {
            &&& forall|k: int|
                0 <= k < list.len() ==> sound_tool(#[trigger] list[k]) && usable(list[k].input_schema) && schema_compiles(
                    list[k].input_schema,
                )
            &&& forall|k: int, l: int| 0 <= k < l < list.len() ==> (#[trigger] list[k]).name != (#[trigger] list[l]).name
        },
        with_tools(tools, namespace, list) matches Ok(after) ==> after == tools + list.map_values(
            |tool: ToolView| (namespace, tool),
        ),
    decreases list.len(),
{
    if list.len() > 0 {
        let front = list.drop_last();
        let last = list.last();
        lemma_which_tools_are_taken(tools, namespace, front);
        assert(forall|k: int| 0 <= k < front.len() ==> front[k] == list[k]);
        assert(list[list.len() - 1] == last);
        if let Ok(before) = with_tools(tools, namespace, front) {
            assert(before == tools + front.map_values(|tool: ToolView| (namespace, tool)));
            assert(named(before, namespace, last.name) <==> exists|k: int|
                0 <= k < front.len() && (#[trigger] front[k]).name == last.name) by {
                if named(before, namespace, last.name) {
                    let i = choose|i: int|
                        0 <= i < before.len() && (#[trigger] before[i]).0 == namespace && before[i].1.name == last.name;
                    if i < tools.len() {
                        assert(before[i] == tools[i]);
                    }
                    assert(front[i - tools.len()].name == last.name);
                }
                if exists|k: int| 0 <= k < front.len() && (#[trigger] front[k]).name == last.name {
                    let k = choose|k: int| 0 <= k < front.len() && (#[trigger] front[k]).name == last.name;
                    assert(before[tools.len() + k] == (namespace, front[k]));
                }
            }
            assert(before.push((namespace, last)) =~= tools + list.map_values(|tool: ToolView| (namespace, tool)));
        }
        if forall|k: int| 0 <= k < list.len() ==> sound_tool(#[trigger] list[k]) && usable(list[k].input_schema)
            && schema_compiles(list[k].input_schema) {
            assert forall|k: int| 0 <= k < front.len() implies sound_tool(#[trigger] front[k]) && usable(
                front[k].input_schema,
            ) && schema_compiles(front[k].input_schema) by {
                assert(front[k] == list[k]);
            }
        }
        if forall|k: int, l: int| 0 <= k < l < list.len() ==> (#[trigger] list[k]).name != (#[trigger] list[l]).name {
            assert forall|k: int, l: int| 0 <= k < l < front.len() implies (#[trigger] front[k]).name != (
            #[trigger] front[l]).name by {
                assert(front[k] == list[k] && front[l] == list[l]);
            }
            assert forall|k: int| 0 <= k < front.len() implies (#[trigger] front[k]).name != last.name by {
                assert(list[k].name != list[list.len() - 1].name);
            }
        }
        if with_tools(tools, namespace, list) is Ok {
            assert forall|k: int| 0 <= k < list.len() implies sound_tool(#[trigger] list[k]) && usable(list[k].input_schema)
                && schema_compiles(list[k].input_schema) by {
                if k < front.len() {
                    assert(front[k] == list[k]);
                }
            }
            assert forall|k: int, l: int| 0 <= k < l < list.len() implies (#[trigger] list[k]).name != (
            #[trigger] list[l]).name by {
                assert(front[k] == list[k]);
                if l < front.len() {
                    assert(front[l] == list[l]);
                }
            }
        }
    }
}

/// What a configuration that is taken registers and announces.
proof fn lemma_what_is_registered(namespaces: Seq<NamespaceView>)
    ensures
        configured(namespaces) matches Ok(registry) ==> {
            &&& registry.specs.len() == namespaces.len()
            &&& forall|i: int| 0 <= i < namespaces.len() ==> #[trigger] registry.specs[i] == namespace_spec(namespaces[i])
            &&& forall|i: int, k: int|
                0 <= i < namespaces.len() && 0 <= k < namespaces[i].tools.len() ==> registry.tools.contains(
                    (namespaces[i].name, #[trigger] namespaces[i].tools[k]),
                )
            &&& forall|j: int|
                0 <= j < registry.tools.len() ==> exists|i: int, k: int|
                    0 <= i < namespaces.len() && 0 <= k < namespaces[i].tools.len() && #[trigger] registry.tools[j] == (
                        namespaces[i].name,
                        #[trigger] namespaces[i].tools[k],
                    )
        },
        configured(namespaces) is Ok <==> {
            &&& forall|i: int| 0 <= i < namespaces.len() ==> identifier((#[trigger] namespaces[i]).name) && namespaces[i].tools.len() > 0
            &&& forall|i: int, j: int|
                0 <= i < j < namespaces.len() ==> (#[trigger] namespaces[i]).name != (#[trigger] namespaces[j]).name
            &&& forall|i: int, k: int|
                0 <= i < namespaces.len() && 0 <= k < namespaces[i].tools.len() ==> sound_tool(
                    #[trigger] namespaces[i].tools[k],
                ) && usable(namespaces[i].tools[k].input_schema) && schema_compiles(namespaces[i].tools[k].input_schema)
            &&& forall|i: int, k: int, l: int|
                0 <= i < namespaces.len() && 0 <= k < l < namespaces[i].tools.len() ==> (#[trigger] namespaces[i].tools[k]).name
                    != (#[trigger] namespaces[i].tools[l]).name
        },
    decreases namespaces.len(),
{
    if namespaces.len() > 0 {
        let front = namespaces.drop_last();
        let last = namespaces.last();
        lemma_what_is_registered(front);
        assert(forall|i: int| 0 <= i < front.len() ==> front[i] == namespaces[i]);
        assert(namespaces[namespaces.len() - 1] == last);
        if let Ok(before) = configured(front) {
            if !name_taken(front, last.name) {
                assert forall|j: int| 0 <= j < before.tools.len() implies (#[trigger] before.tools[j]).0 != last.name by {
                    let (i, k) = choose|i: int, k: int|
                        0 <= i < front.len() && 0 <= k < front[i].tools.len() && before.tools[j] == (
                            front[i].name,
                            #[trigger] front[i].tools[k],
                        );
                    assert(front[i].name != last.name);
                }
                lemma_which_tools_are_taken(before.tools, last.name, last.tools);
                if let Ok(tools) = with_tools(before.tools, last.name, last.tools) {
                    let added = last.tools.map_values(|tool: ToolView| (last.name, tool));
                    assert(tools == before.tools + added);
                    assert forall|i: int, k: int|
                        0 <= i < namespaces.len() && 0 <= k < namespaces[i].tools.len() implies tools.contains(
                        (namespaces[i].name, #[trigger] namespaces[i].tools[k]),
                    ) by {
                        if i < front.len() {
                            assert(front[i] == namespaces[i]);
                            let pair = (front[i].name, front[i].tools[k]);
                            assert(before.tools.contains(pair));
                            let j = choose|j: int| 0 <= j < before.tools.len() && before.tools[j] == pair;
                            assert(tools[j] == pair);
                        } else {
                            assert(tools[before.tools.len() + k] == (last.name, last.tools[k]));
                        }
                    }
                    assert forall|j: int| 0 <= j < tools.len() implies exists|i: int, k: int|
                        0 <= i < namespaces.len() && 0 <= k < namespaces[i].tools.len() && #[trigger] tools[j] == (
                            namespaces[i].name,
                            #[trigger] namespaces[i].tools[k],
                        ) by {
                        if j < before.tools.len() {
                            assert(tools[j] == before.tools[j]);
                            let (i, k) = choose|i: int, k: int|
                                0 <= i < front.len() && 0 <= k < front[i].tools.len() && before.tools[j] == (
                                    front[i].name,
                                    #[trigger] front[i].tools[k],
                                );
                            assert(front[i] == namespaces[i]);
                            assert(tools[j] == (namespaces[i].name, namespaces[i].tools[k]));
                        } else {
                            let i = namespaces.len() - 1;
                            let k = j - before.tools.len();
                            assert(tools[j] == (namespaces[i].name, namespaces[i].tools[k]));
                        }
                    }
                }
            }
        }
        let fine = |list: Seq<NamespaceView>|
            {
                &&& forall|i: int| 0 <= i < list.len() ==> identifier((#[trigger] list[i]).name) && list[i].tools.len() > 0
                &&& forall|i: int, j: int| 0 <= i < j < list.len() ==> (#[trigger] list[i]).name != (#[trigger] list[j]).name
                &&& forall|i: int, k: int|
                    0 <= i < list.len() && 0 <= k < list[i].tools.len() ==> sound_tool(#[trigger] list[i].tools[k]) && usable(
                        list[i].tools[k].input_schema,
                    ) && schema_compiles(list[i].tools[k].input_schema)
                &&& forall|i: int, k: int, l: int|
                    0 <= i < list.len() && 0 <= k < l < list[i].tools.len() ==> (#[trigger] list[i].tools[k]).name != (
                    #[trigger] list[i].tools[l]).name
            };
        if fine(namespaces) {
            assert forall|i: int| 0 <= i < front.len() implies identifier((#[trigger] front[i]).name)
                && front[i].tools.len() > 0 by {
                assert(front[i] == namespaces[i]);
            }
            assert forall|i: int, j: int| 0 <= i < j < front.len() implies (#[trigger] front[i]).name != (
            #[trigger] front[j]).name by {
                assert(front[i] == namespaces[i] && front[j] == namespaces[j]);
            }
            assert forall|i: int, k: int|
                0 <= i < front.len() && 0 <= k < front[i].tools.len() implies sound_tool(#[trigger] front[i].tools[k]) && usable(
                front[i].tools[k].input_schema,
            ) && schema_compiles(front[i].tools[k].input_schema) by {
                assert(front[i].tools[k] == namespaces[i].tools[k]);
            }
            assert forall|i: int, k: int, l: int|
                0 <= i < front.len() && 0 <= k < l < front[i].tools.len() implies (#[trigger] front[i].tools[k]).name != (
            #[trigger] front[i].tools[l]).name by {
                assert(front[i].tools[k] == namespaces[i].tools[k] && front[i].tools[l] == namespaces[i].tools[l]);
            }
            assert(configured(front) is Ok);
            assert(!name_taken(front, last.name)) by {
                if name_taken(front, last.name) {
                    let i = choose|i: int| 0 <= i < front.len() && (#[trigger] front[i]).name == last.name;
                    assert(namespaces[i].name != namespaces[namespaces.len() - 1].name);
                }
            }
            let z = namespaces.len() - 1;
            assert forall|k: int| 0 <= k < last.tools.len() implies sound_tool(#[trigger] last.tools[k]) && usable(
                last.tools[k].input_schema,
            ) && schema_compiles(last.tools[k].input_schema) by {
                assert(last.tools[k] == namespaces[z].tools[k]);
            }
            assert forall|k: int, l: int| 0 <= k < l < last.tools.len() implies (#[trigger] last.tools[k]).name != (
            #[trigger] last.tools[l]).name by {
                assert(last.tools[k] == namespaces[z].tools[k] && last.tools[l] == namespaces[z].tools[l]);
            }
            assert(configured(namespaces) is Ok);
        }
        if configured(namespaces) is Ok {
            assert(configured(front) is Ok);
            assert forall|i: int, j: int| 0 <= i < j < namespaces.len() implies (#[trigger] namespaces[i]).name != (
            #[trigger] namespaces[j]).name by {
                assert(front[i] == namespaces[i]);
                if j < front.len() {
                    assert(front[j] == namespaces[j]);
                } else {
                    assert(front[i].name != last.name);
                }
            }
            assert forall|i: int| 0 <= i < namespaces.len() implies identifier((#[trigger] namespaces[i]).name)
                && namespaces[i].tools.len() > 0 by {
                if i < front.len() {
                    assert(front[i] == namespaces[i]);
                }
            }
            assert forall|i: int, k: int|
                0 <= i < namespaces.len() && 0 <= k < namespaces[i].tools.len() implies sound_tool(
                #[trigger] namespaces[i].tools[k],
            ) && usable(namespaces[i].tools[k].input_schema) && schema_compiles(namespaces[i].tools[k].input_schema) by {
                if i < front.len() {
                    assert(front[i].tools[k] == namespaces[i].tools[k]);
                } else {
                    assert(last.tools[k] == namespaces[i].tools[k]);
                }
            }
            assert forall|i: int, k: int, l: int|
                0 <= i < namespaces.len() && 0 <= k < l < namespaces[i].tools.len() implies (
            #[trigger] namespaces[i].tools[k]).name != (#[trigger] namespaces[i].tools[l]).name by {
                if i < front.len() {
                    assert(front[i].tools[k] == namespaces[i].tools[k] && front[i].tools[l] == namespaces[i].tools[l]);
                } else {
                    assert(last.tools[k] == namespaces[i].tools[k] && last.tools[l] == namespaces[i].tools[l]);
                }
            }
        }
    }
}

/// A configuration is taken exactly where every namespace has a name of its own and some tools, and every tool
/// has a name of its own in its namespace, an absolute command and working directory, a time of at most an hour,
/// and a usable schema that compiles.
pub proof fn law_configurations_are_taken_whole(namespaces: Seq<NamespaceView>)
    ensures
        configured(namespaces) is Ok <==> {
            &&& forall|i: int| 0 <= i < namespaces.len() ==> identifier((#[trigger] namespaces[i]).name) && namespaces[i].tools.len() > 0
            &&& forall|i: int, j: int|
                0 <= i < j < namespaces.len() ==> (#[trigger] namespaces[i]).name != (#[trigger] namespaces[j]).name
            &&& forall|i: int, k: int|
                0 <= i < namespaces.len() && 0 <= k < namespaces[i].tools.len() ==> {
                    let tool = #[trigger] namespaces[i].tools[k];
                    &&& identifier(tool.name)
                    &&& absolute(tool.command)
                    &&& absolute(tool.cwd)
                    &&& 0 < tool.timeout_ms <= 3_600_000
                    &&& usable(tool.input_schema)
                    &&& schema_compiles(tool.input_schema)
                }
            &&& forall|i: int, k: int, l: int|
                0 <= i < namespaces.len() && 0 <= k < l < namespaces[i].tools.len() ==> (#[trigger] namespaces[i].tools[k]).name
                    != (#[trigger] namespaces[i].tools[l]).name
        },
{
    lemma_what_is_registered(namespaces);
}

/// What is announced can be called: whoever takes the namespace and the tool's name from an announcement reaches
/// the tool it tells of, the one that was configured there, described and bounded as it says.
pub proof fn law_announced_tools_are_found(namespaces: Seq<NamespaceView>, i: int, k: int, call: ToolCallView)
    requires
        0 <= i < namespaces.len(),
        0 <= k < namespaces[i].tools.len(),
    ensures
        configured(namespaces) matches Ok(registry) ==> {
            let tool = namespaces[i].tools[k];
            &&& registry.specs.len() == namespaces.len()
            &&& at(registry.specs[i], "type"@) == JsonView::Text("namespace"@)
            &&& at(registry.specs[i], "name"@) == JsonView::Text(namespaces[i].name)
            &&& at(registry.specs[i], "description"@) == JsonView::Text(namespaces[i].description)
            &&& at(registry.specs[i], "tools"@) matches JsonView::Array(told) && {
                &&& told.len() == namespaces[i].tools.len()
                &&& at(told[k], "type"@) == JsonView::Text("function"@)
                &&& at(told[k], "description"@) == JsonView::Text(tool.description)
                &&& at(told[k], "inputSchema"@) == tool.input_schema
                &&& at(told[k], "name"@) == JsonView::Text(tool.name)
                &&& (call.namespace matches Some(under) && at(registry.specs[i], "name"@) == JsonView::Text(under) && at(
                    told[k],
                    "name"@,
                ) == JsonView::Text(call.tool)) ==> tool_for(registry.tools, call) == Some(tool)
            }
        },
{
    lemma_announcement_names();
    if let Ok(registry) = configured(namespaces) {
        lemma_what_is_registered(namespaces);
        law_registered_tools_are_sound(namespaces);
        let tool = namespaces[i].tools[k];
        let told = namespaces[i].tools.map_values(|tool: ToolView| tool_spec(tool));
        assert(registry.specs[i] == namespace_spec(namespaces[i]));
        assert(told[k] == tool_spec(tool));
        assert(registry.tools.contains((namespaces[i].name, namespaces[i].tools[k])));
        if call.namespace == Some(namespaces[i].name) && call.tool == tool.name {
            law_only_registered_tools_run(registry.tools, call);
            let j = choose|j: int| 0 <= j < registry.tools.len() && registry.tools[j] == (namespaces[i].name, tool);
            assert(registry.tools[j].0 == call_namespace(call) && registry.tools[j].1.name == call.tool);
            assert(named(registry.tools, call_namespace(call), call.tool));
            let found = tool_for(registry.tools, call)->0;
            assert(registry.tools.contains((call_namespace(call), found)));
            let l = choose|l: int| 0 <= l < registry.tools.len() && registry.tools[l] == (call_namespace(call), found);
            assert(registry.tools[l].0 == registry.tools[j].0 && registry.tools[l].1.name == registry.tools[j].1.name);
            assert(l == j);
        }
    }
}

/// A call without a namespace reaches nothing that was configured, and one that lacks its thread, its turn or
/// itself is not addressed.
pub proof fn law_calls_are_addressed_in_full(namespaces: Seq<NamespaceView>, call: ToolCallView)
    ensures
        configured(namespaces) matches Ok(registry) ==> call.namespace is None ==> tool_for(registry.tools, call) is None,
        addressed(call) <==> !(blank(call.thread_id) || blank(call.turn_id) || blank(call.call_id)),
{
    if let Ok(registry) = configured(namespaces) {
        if call.namespace is None {
            lemma_what_is_registered(namespaces);
            law_only_registered_tools_run(registry.tools, call);
            if named(registry.tools, call_namespace(call), call.tool) {
                let j = choose|j: int|
                    0 <= j < registry.tools.len() && (#[trigger] registry.tools[j]).0 == call_namespace(call)
                        && registry.tools[j].1.name == call.tool;
                let (i, k) = choose|i: int, k: int|
                    0 <= i < namespaces.len() && 0 <= k < namespaces[i].tools.len() && registry.tools[j] == (
                        namespaces[i].name,
                        #[trigger] namespaces[i].tools[k],
                    );
                assert(identifier(namespaces[i].name));
            }
        }
    }
}

/// Refusals name what they are about: the tool and its fault, the call's namespace and name, the place among the
/// arguments.
pub proof fn law_refusals_name_their_subject(
    message: Seq<char>,
    name: Seq<char>,
    call: ToolCallView,
    namespace: Seq<char>,
    place: Seq<char>,
)
    requires
        call.namespace == Some(namespace),
    ensures
        tells(message, ConfigFault::Tool(name)) || tells(message, ConfigFault::Unbounded(name)) || tells(
            message,
            ConfigFault::Schema(name),
        ) ==> exists|before: Seq<char>, after: Seq<char>| message == #[trigger] (before + name + after),
        tells(message, ConfigFault::Unbounded(name)) ==> unbounded().is_suffix_of(message),
        exists|before: Seq<char>| unknown_tool(call) == #[trigger] (before + namespace + "."@ + call.tool),
        exists|before: Seq<char>| argument_complaint(place) == #[trigger] (before + place),
{
    let limits = ": require identifier name, absolute command/cwd, timeout_ms 1..3600000"@;
    if message == tool_complaint(name) {
        assert(message == "invalid dynamic tool "@ + name + limits);
    }
    if message == schema_complaint(name, unbounded()) {
        assert(message =~= "invalid inputSchema for "@ + name + (": "@ + unbounded()));
    }
    if exists|complaint: Seq<char>| message == #[trigger] schema_complaint(name, complaint) {
        let complaint = choose|complaint: Seq<char>| message == #[trigger] schema_complaint(name, complaint);
        assert(message =~= "invalid inputSchema for "@ + name + (": "@ + complaint));
    }
    assert(unknown_tool(call) == "No configured client executor for "@ + namespace + "."@ + call.tool);
    assert(argument_complaint(place) == "dynamic tool arguments do not match inputSchema at "@ + place);
}

/// Arguments are judged by the called tool's own schema: those that meet it pass, and of those that fail it the
/// place is told.
pub proof fn law_arguments_are_judged_by_the_tools_schema(tool: ToolView, call: ToolCallView, place: Seq<char>)
    requires
        steady(call.arguments),
    ensures
        judged(tool, call, None) <==> value_fault(tool.input_schema, call.arguments) is None,
        judged(tool, call, Some(place)) <==> value_fault(tool.input_schema, call.arguments) == Some(place),
{
}

} // verus!

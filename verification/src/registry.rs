//! The tool catalog: built-ins first, then dynamically configured tools,
//! keyed by name, with built-ins shadowing dynamic tools of the same
//! name.  Arguments are validated against a tool's JSON Schema before
//! any execution plan is handed out.

use vstd::prelude::*;
use crate::config::{LocalToolConfig, LocalToolsConfig};
use crate::json::{json_ser, JsonValue};
use crate::strutil::{concat_strs, starts_with_seq};

verus! {

/// Process-wide settings of the local tool subsystem.
#[derive(Debug, Clone)]
pub struct LocalSettings {
    /// The sandbox root, an absolute path.
    pub base_dir: String,
    pub max_file_size_bytes: u64,
    pub verbose: bool,
}

impl LocalSettings {
    /// Builds the settings from configuration: the configured base
    /// directory with `${VAR}` references expanded, the home directory
    /// when none is configured (or the expansion is empty), and `.` as
    /// the last resort.
    pub fn from_config(
        config: &LocalToolsConfig,
        verbose: bool,
        env: &Vec<(String, String)>,
        home: Option<String>,
    ) -> (r: Self)
        requires
            config.max_file_size_mb <= 17592186044415,
        ensures
            r.verbose == verbose,
            r.max_file_size_bytes == config.max_file_size_mb * 1048576,
            match config.base_dir {
                Some(bd) => {
                    let expanded = crate::envsub::env_expand(
                        bd@,
                        0,
                        crate::envsub::env_view(env@),
                    );
                    if expanded.len() > 0 {
                        r.base_dir@ == expanded
                    } else {
                        match home {
                            Some(h) => r.base_dir@ == h@,
                            None => r.base_dir@ == "."@,
                        }
                    }
                },
                None => match home {
                    Some(h) => r.base_dir@ == h@,
                    None => r.base_dir@ == "."@,
                },
            },
    {
        let base_dir = match &config.base_dir {
            Some(bd) => {
                let expanded = crate::envsub::expand_env_var_in_string(bd.as_str(), env);
                if !expanded.as_str().is_empty() {
                    proof {
                        assert(expanded@.len() > 0);
                    }
                    expanded
                } else {
                    proof {
                        assert(expanded@.len() == 0);
                    }
                    match home {
                        Some(h) => h,
                        None => ".".to_owned(),
                    }
                }
            },
            None => match home {
                Some(h) => h,
                None => ".".to_owned(),
            },
        };
        LocalSettings {
            base_dir,
            max_file_size_bytes: config.max_file_size_mb * 1048576,
            verbose,
        }
    }
}

/// How a registered tool runs.
#[derive(Debug, Clone)]
pub enum ToolKind {
    /// The built-in file reader.
    BuiltinReadFile,
    /// A dynamically configured script or command tool.
    Dynamic(LocalToolConfig),
}

/// One registered tool.
#[derive(Debug, Clone)]
pub struct LocalTool {
    pub name: String,
    pub description: String,
    pub input_schema: JsonValue,
    pub kind: ToolKind,
}

/// Whether the registry is well formed: no two tools share a name.
pub open spec fn wf_registry(tools: Seq<LocalTool>) -> bool {
    forall|i: int, j: int|
        0 <= i < j < tools.len() ==> (#[trigger] tools[i]).name@ != (#[trigger] tools[j]).name@
}

/// Whether a tool named `name` is enabled in the configuration list: the
/// first entry of that name decides; absence means enabled.
pub open spec fn spec_tool_enabled(tools: Seq<LocalToolConfig>, name: Seq<char>) -> bool
    decreases tools,
{
    if tools.len() == 0 {
        true
    } else if tools[0].name@ == name {
        tools[0].enabled
    } else {
        spec_tool_enabled(tools.drop_first(), name)
    }
}

/// Whether `names` holds `name`.
pub open spec fn name_taken(names: Seq<Seq<char>>, name: Seq<char>) -> bool {
    exists|i: int| 0 <= i < names.len() && names[i] == name
}

/// The names of the registered tools, in order.
pub open spec fn spec_reg_names(tools: Seq<LocalTool>) -> Seq<Seq<char>> {
    tools.map_values(|t: LocalTool| t.name@)
}

/// The configured entries that registration admits, walking the list in
/// order with `taken` the names already claimed: an entry registers
/// exactly when it is enabled, declares a type, bears an unclaimed name
/// and has the fields its type requires; a registered entry claims its
/// name.
pub open spec fn spec_selected_tools(
    tools: Seq<LocalToolConfig>,
    taken: Seq<Seq<char>>,
) -> Seq<LocalToolConfig>
    decreases tools,
{
    if tools.len() == 0 {
        Seq::empty()
    } else {
        let tc = tools[0];
        if tc.enabled && tc.tool_type is Some && !name_taken(taken, tc.name@)
            && spec_dynamic_tool_valid(tc) {
            seq![tc] + spec_selected_tools(tools.drop_first(), taken.push(tc.name@))
        } else {
            spec_selected_tools(tools.drop_first(), taken)
        }
    }
}

/// The names the enabled built-ins claim before dynamic registration.
pub open spec fn spec_builtin_names(config: LocalToolsConfig) -> Seq<Seq<char>> {
    if spec_tool_enabled(config.tools@, "read_file"@) {
        seq!["read_file"@]
    } else {
        Seq::empty()
    }
}

/// The configured entries that end up registered, in order.
pub open spec fn spec_selected(config: LocalToolsConfig) -> Seq<LocalToolConfig> {
    spec_selected_tools(config.tools@, spec_builtin_names(config))
}

/// The dynamic configurations held by the registry slots from `from` on.
pub open spec fn dyn_cfgs(tools: Seq<LocalTool>, from: int) -> Seq<LocalToolConfig> {
    tools.skip(from).map_values(|t: LocalTool| t.kind->Dynamic_0)
}

/// The catalog of callable tools.
pub struct LocalToolRegistry {
    tools: Vec<LocalTool>,
    settings: LocalSettings,
}

/// Whether the fields a dynamic tool needs for its declared type are all
/// present: a script tool needs an interpreter and a script source, a
/// command tool needs a command; both need a description, an input
/// schema and a type of `script` or `command`.
pub open spec fn spec_dynamic_tool_valid(tc: LocalToolConfig) -> bool {
    &&& tc.tool_type is Some
    &&& (tc.tool_type->Some_0@ == "script"@ || tc.tool_type->Some_0@ == "command"@)
    &&& tc.description is Some
    &&& tc.input_schema is Some
    &&& (tc.tool_type->Some_0@ == "script"@ ==> tc.interpreter is Some && (tc.script is Some
        || tc.script_path is Some))
    &&& (tc.tool_type->Some_0@ == "command"@ ==> tc.command is Some)
}

impl LocalToolRegistry {
    /// The registered tools, in registration order.
    pub closed spec fn spec_tools(&self) -> Seq<LocalTool> {
        self.tools@
    }

    /// The settings the registry was built with.
    pub closed spec fn spec_settings(&self) -> LocalSettings {
        self.settings
    }

    /// Whether no two registered tools share a name.
    pub open spec fn wf(&self) -> bool {
        wf_registry(self.spec_tools())
    }

    /// Builds the registry: built-ins first (gated by their `enabled`
    /// flag in the configuration), then exactly the configured dynamic
    /// tools that [`spec_selected`] admits, in configuration order, each
    /// carrying its configured description, input schema and
    /// configuration.  A rejected entry is skipped; the rest still
    /// register.
    pub fn new(config: LocalToolsConfig, settings: LocalSettings) -> (r: Self)
        ensures
            r.wf(),
            r.spec_settings() == settings,
            r.spec_tools().len() == spec_builtin_names(config).len() + spec_selected(
                config,
            ).len(),
            spec_tool_enabled(config.tools@, "read_file"@) ==> spec_builtin_names(config).len()
                == 1 && r.spec_tools()[0].name@ == "read_file"@ && r.spec_tools()[0].kind
                is BuiltinReadFile && r.spec_tools()[0].input_schema@ == spec_read_file_schema()
                && r.spec_tools()[0].description@
                == "Read and return the contents of a file. Limited to files within the base directory and under the size limit."@,
            !spec_tool_enabled(config.tools@, "read_file"@) ==> spec_builtin_names(
                config,
            ).len() == 0,
            forall|i: int|
                0 <= i < spec_selected(config).len() ==> {
                    let t = r.spec_tools()[spec_builtin_names(config).len() + i];
                    let tc = #[trigger] spec_selected(config)[i];
                    &&& t.kind == ToolKind::Dynamic(tc)
                    &&& t.name@ == tc.name@
                    &&& t.description == tc.description->Some_0
                    &&& t.input_schema@ == tc.input_schema->Some_0@
                },
            forall|i: int|
                0 <= i < r.spec_tools().len() && (#[trigger] r.spec_tools()[i]).kind is Dynamic
                    ==> spec_dynamic_tool_valid(r.spec_tools()[i].kind->Dynamic_0)
                    && r.spec_tools()[i].kind->Dynamic_0.enabled,
    {
        let mut registry = LocalToolRegistry { tools: Vec::new(), settings };
        let read_file_enabled = tool_enabled_in(&config.tools, "read_file");
        if read_file_enabled {
            let schema = read_file_schema();
            let tool = LocalTool {
                name: "read_file".to_owned(),
                description:
                    "Read and return the contents of a file. Limited to files within the base directory and under the size limit.".to_owned(),
                input_schema: schema,
                kind: ToolKind::BuiltinReadFile,
            };
            registry.tools.push(tool);
        }
        let ghost bl = spec_builtin_names(config).len() as int;
        let mut rest = config.tools;
        proof {
            assert(rest@ == config.tools@);
            if read_file_enabled {
                assert(spec_reg_names(registry.tools@) =~= spec_builtin_names(config));
            } else {
                assert(spec_reg_names(registry.tools@) =~= spec_builtin_names(config));
            }
            assert(registry.tools@.skip(bl) =~= Seq::<LocalTool>::empty());
            assert(dyn_cfgs(registry.tools@, bl) =~= Seq::<LocalToolConfig>::empty());
            assert(spec_selected(config) =~= dyn_cfgs(registry.tools@, bl)
                + spec_selected_tools(rest@, spec_reg_names(registry.tools@)));
        }
        while rest.len() > 0
            invariant
                wf_registry(registry.tools@),
                registry.settings == settings,
                read_file_enabled == spec_tool_enabled(config.tools@, "read_file"@),
                bl == spec_builtin_names(config).len(),
                bl <= registry.tools@.len(),
                read_file_enabled ==> bl == 1 && registry.tools@[0].name@ == "read_file"@
                    && registry.tools@[0].kind is BuiltinReadFile
                    && registry.tools@[0].input_schema@ == spec_read_file_schema()
                    && registry.tools@[0].description@
                    == "Read and return the contents of a file. Limited to files within the base directory and under the size limit."@,
                !read_file_enabled ==> bl == 0,
                forall|i: int|
                    bl <= i < registry.tools@.len() ==> {
                        let t = #[trigger] registry.tools@[i];
                        &&& t.kind is Dynamic
                        &&& spec_dynamic_tool_valid(t.kind->Dynamic_0)
                        &&& t.kind->Dynamic_0.enabled
                        &&& t.name@ == t.kind->Dynamic_0.name@
                        &&& t.description == t.kind->Dynamic_0.description->Some_0
                        &&& t.input_schema@ == t.kind->Dynamic_0.input_schema->Some_0@
                    },
                spec_selected(config) == dyn_cfgs(registry.tools@, bl) + spec_selected_tools(
                    rest@,
                    spec_reg_names(registry.tools@),
                ),
            decreases rest.len(),
        {
            let ghost names_old = spec_reg_names(registry.tools@);
            let ghost tools_old = registry.tools@;
            let ghost rest_old = rest@;
            let tc = rest.remove(0);
            let ghost tc0 = tc;
            proof {
                assert(tc0 == rest_old[0]);
                assert(rest@ =~= rest_old.drop_first());
            }
            if tc.enabled && tc.tool_type.is_some() && !contains_name(
                &registry.tools,
                tc.name.as_str(),
            ) {
                proof {
                    assert(!name_taken(names_old, tc0.name@)) by {
                        if name_taken(names_old, tc0.name@) {
                            let i = choose|i: int|
                                0 <= i < names_old.len() && names_old[i] == tc0.name@;
                            assert(tools_old[i].name@ == tc0.name@);
                        }
                    };
                }
                match try_build_dynamic_tool(tc) {
                    Some(tool) => {
                        registry.tools.push(tool);
                        proof {
                            assert(spec_selected_tools(rest_old, names_old) == seq![tc0]
                                + spec_selected_tools(
                                rest_old.drop_first(),
                                names_old.push(tc0.name@),
                            ));
                            assert(spec_reg_names(registry.tools@) =~= names_old.push(
                                tc0.name@,
                            ));
                            assert(dyn_cfgs(registry.tools@, bl) =~= dyn_cfgs(tools_old, bl)
                                + seq![tc0]) by {
                                assert(registry.tools@.skip(bl) =~= tools_old.skip(bl) + seq![
                                    registry.tools@.last(),
                                ]);
                            };
                            assert(spec_selected(config) =~= dyn_cfgs(registry.tools@, bl)
                                + spec_selected_tools(rest@, spec_reg_names(registry.tools@)));
                        }
                    },
                    None => {
                        proof {
                            assert(spec_selected_tools(rest_old, names_old)
                                == spec_selected_tools(rest_old.drop_first(), names_old));
                        }
                    },
                }
            } else {
                proof {
                    if tc0.enabled && tc0.tool_type is Some && spec_dynamic_tool_valid(tc0) {
                        assert(name_taken(names_old, tc0.name@)) by {
                            let i = choose|i: int|
                                0 <= i < tools_old.len() && (#[trigger] tools_old[i]).name@
                                    == tc0.name@;
                            assert(spec_reg_names(tools_old)[i] == tc0.name@);
                        };
                    }
                    assert(spec_selected_tools(rest_old, names_old) == spec_selected_tools(
                        rest_old.drop_first(),
                        names_old,
                    ));
                }
            }
        }
        proof {
            assert(rest@ =~= Seq::<LocalToolConfig>::empty());
            assert(spec_selected_tools(rest@, spec_reg_names(registry.tools@)) =~= Seq::<
                LocalToolConfig,
            >::empty());
            assert(spec_selected(config) =~= dyn_cfgs(registry.tools@, bl));
            assert(dyn_cfgs(registry.tools@, bl).len() == registry.tools@.len() - bl);
            assert(forall|i: int|
                0 <= i < spec_selected(config).len() ==> #[trigger] spec_selected(config)[i]
                    == registry.tools@[bl + i].kind->Dynamic_0) by {
                assert(forall|i: int|
                    0 <= i < dyn_cfgs(registry.tools@, bl).len() ==> #[trigger] dyn_cfgs(
                        registry.tools@,
                        bl,
                    )[i] == registry.tools@[bl + i].kind->Dynamic_0);
            };
        }
        registry
    }

    /// The tool named `name`, if registered.
    pub fn get<'a>(&'a self, name: &str) -> (r: Option<&'a LocalTool>)
        ensures
            match r {
                Some(t) => exists|i: int|
                    0 <= i < self.spec_tools().len() && *t == self.spec_tools()[i]
                        && (#[trigger] self.spec_tools()[i]).name@ == name@,
                None => forall|i: int|
                    0 <= i < self.spec_tools().len() ==> (#[trigger] self.spec_tools()[i]).name@
                        != name@,
            },
    {
        let n = self.tools.len();
        let mut i: usize = 0;
        while i < n
            invariant
                0 <= i <= n,
                n == self.tools@.len(),
                forall|k: int|
                    0 <= k < i ==> (#[trigger] self.tools@[k]).name@ != name@,
            decreases n - i,
        {
            if crate::json::streq(self.tools[i].name.as_str(), name) {
                return Some(&self.tools[i]);
            }
            i += 1;
        }
        None
    }

    /// All registered tools, in registration order.
    pub fn list<'a>(&'a self) -> (r: Vec<&'a LocalTool>)
        ensures
            r@.len() == self.spec_tools().len(),
            forall|i: int|
                0 <= i < r@.len() ==> *(#[trigger] r@[i]) == self.spec_tools()[i],
    {
        let n = self.tools.len();
        let mut out: Vec<&LocalTool> = Vec::new();
        let mut i: usize = 0;
        while i < n
            invariant
                0 <= i <= n,
                n == self.tools@.len(),
                out@.len() == i,
                forall|k: int| 0 <= k < i ==> *(#[trigger] out@[k]) == self.tools@[k],
            decreases n - i,
        {
            out.push(&self.tools[i]);
            i += 1;
        }
        out
    }

    /// The settings the registry was built with.
    pub fn settings<'a>(&'a self) -> (r: &'a LocalSettings)
        ensures
            *r == self.spec_settings(),
    {
        &self.settings
    }
}

/// Whether a tool named `name` is enabled in the configuration list.
fn tool_enabled_in(tools: &Vec<LocalToolConfig>, name: &str) -> (r: bool)
    ensures
        r == spec_tool_enabled(tools@, name@),
{
    let n = tools.len();
    proof {
        assert(tools@.skip(0) =~= tools@);
    }
    let mut i: usize = 0;
    while i < n
        invariant
            0 <= i <= n,
            n == tools@.len(),
            spec_tool_enabled(tools@, name@) == spec_tool_enabled(tools@.skip(i as int), name@),
        decreases n - i,
    {
        proof {
            assert(tools@.skip(i as int)[0] == tools@[i as int]);
            assert(tools@.skip(i as int).drop_first() =~= tools@.skip(i as int + 1));
        }
        if crate::json::streq(tools[i].name.as_str(), name) {
            return tools[i].enabled;
        }
        i += 1;
    }
    proof {
        assert(tools@.skip(n as int) =~= Seq::<LocalToolConfig>::empty());
    }
    true
}

/// Whether some registered tool bears `name`.
fn contains_name(tools: &Vec<LocalTool>, name: &str) -> (r: bool)
    ensures
        r == exists|i: int| 0 <= i < tools@.len() && (#[trigger] tools@[i]).name@ == name@,
{
    let n = tools.len();
    let mut i: usize = 0;
    while i < n
        invariant
            0 <= i <= n,
            n == tools@.len(),
            forall|k: int| 0 <= k < i ==> (#[trigger] tools@[k]).name@ != name@,
        decreases n - i,
    {
        if crate::json::streq(tools[i].name.as_str(), name) {
            return true;
        }
        i += 1;
    }
    false
}

/// Builds the registry entry for a dynamic tool, when its required
/// fields are present.
fn try_build_dynamic_tool(tc: LocalToolConfig) -> (r: Option<LocalTool>)
    ensures
        match r {
            Some(t) => {
                &&& spec_dynamic_tool_valid(tc)
                &&& t.name@ == tc.name@
                &&& t.description == tc.description->Some_0
                &&& t.input_schema@ == tc.input_schema->Some_0@
                &&& t.kind is Dynamic
                &&& t.kind->Dynamic_0 == tc
            },
            None => !spec_dynamic_tool_valid(tc),
        },
{
    let type_ok = match &tc.tool_type {
        Some(t) => {
            let is_script = crate::json::streq(t.as_str(), "script");
            let is_command = crate::json::streq(t.as_str(), "command");
            is_script || is_command
        },
        None => false,
    };
    if !type_ok {
        return None;
    }
    if tc.description.is_none() || tc.input_schema.is_none() {
        return None;
    }
    let is_script = match &tc.tool_type {
        Some(t) => crate::json::streq(t.as_str(), "script"),
        None => false,
    };
    if is_script {
        if tc.interpreter.is_none() || (tc.script.is_none() && tc.script_path.is_none()) {
            return None;
        }
    } else {
        proof {
            reveal_strlit("script");
            reveal_strlit("command");
            assert(tc.tool_type->Some_0@ != "script"@);
        }
        if tc.command.is_none() {
            return None;
        }
    }
    proof {
        reveal_strlit("script");
        reveal_strlit("command");
        assert("script"@ != "command"@) by {
            assert("script"@.len() == 6);
            assert("command"@.len() == 7);
        };
        assert(spec_dynamic_tool_valid(tc));
    }
    let name = tc.name.clone();
    let description = match &tc.description {
        Some(d) => d.clone(),
        None => String::new(),
    };
    let input_schema = match &tc.input_schema {
        Some(s) => s.clone(),
        None => JsonValue::Null,
    };
    Some(LocalTool { name, description, input_schema, kind: ToolKind::Dynamic(tc) })
}

/// The value of the built-in file reader's input schema: an object with
/// one required string member `path`, and no other members.
pub open spec fn spec_read_file_schema() -> crate::json::JsonV {
    crate::json::JsonV::Obj(
        seq![
            ("type"@, crate::json::JsonV::Str("object"@)),
            (
                "properties"@,
                crate::json::JsonV::Obj(
                    seq![
                        (
                            "path"@,
                            crate::json::JsonV::Obj(
                                seq![
                                    ("type"@, crate::json::JsonV::Str("string"@)),
                                    (
                                        "description"@,
                                        crate::json::JsonV::Str(
                                            "Path to the file to read (relative to base directory)"@,
                                        ),
                                    ),
                                ],
                            ),
                        ),
                    ],
                ),
            ),
            ("required"@, crate::json::JsonV::Arr(seq![crate::json::JsonV::Str("path"@)])),
            ("additionalProperties"@, crate::json::JsonV::Bool(false)),
        ],
    )
}

/// The names of configured entries that declare a type and are enabled
/// but lack a field their type requires, in order.  Registration skips
/// these.
pub open spec fn spec_rejected_names(tools: Seq<LocalToolConfig>) -> Seq<Seq<char>>
    decreases tools,
{
    if tools.len() == 0 {
        Seq::empty()
    } else {
        let tc = tools[0];
        if tc.enabled && tc.tool_type is Some && !spec_dynamic_tool_valid(tc) {
            seq![tc.name@] + spec_rejected_names(tools.drop_first())
        } else {
            spec_rejected_names(tools.drop_first())
        }
    }
}

/// Whether a dynamic tool entry has the fields its declared type
/// requires (see [`spec_dynamic_tool_valid`]).
fn dynamic_tool_valid(tc: &LocalToolConfig) -> (r: bool)
    ensures
        r == spec_dynamic_tool_valid(*tc),
{
    let type_ok = match &tc.tool_type {
        Some(t) => {
            let is_script = crate::json::streq(t.as_str(), "script");
            let is_command = crate::json::streq(t.as_str(), "command");
            is_script || is_command
        },
        None => false,
    };
    if !type_ok {
        return false;
    }
    if tc.description.is_none() || tc.input_schema.is_none() {
        return false;
    }
    let is_script = match &tc.tool_type {
        Some(t) => crate::json::streq(t.as_str(), "script"),
        None => false,
    };
    proof {
        assert("script"@ != "command"@) by {
            reveal_strlit("script");
            reveal_strlit("command");
            assert("script"@.len() == 6);
            assert("command"@.len() == 7);
        };
    }
    if is_script {
        tc.interpreter.is_some() && (tc.script.is_some() || tc.script_path.is_some())
    } else {
        tc.command.is_some()
    }
}

/// The names of the configured tools that registration will reject for
/// missing fields, in order, so a caller can warn about them.
pub fn rejected_tool_names(config: &LocalToolsConfig) -> (r: Vec<String>)
    ensures
        r@.map_values(|s: String| s@) == spec_rejected_names(config.tools@),
{
    let n = config.tools.len();
    let mut out: Vec<String> = Vec::new();
    proof {
        assert(config.tools@.skip(0) =~= config.tools@);
        assert(out@.map_values(|s: String| s@) =~= Seq::<Seq<char>>::empty());
    }
    let mut i: usize = 0;
    while i < n
        invariant
            0 <= i <= n,
            n == config.tools@.len(),
            spec_rejected_names(config.tools@) == out@.map_values(|s: String| s@)
                + spec_rejected_names(config.tools@.skip(i as int)),
        decreases n - i,
    {
        let tc = &config.tools[i];
        proof {
            assert(config.tools@.skip(i as int)[0] == config.tools@[i as int]);
            assert(config.tools@.skip(i as int).drop_first() =~= config.tools@.skip(
                i as int + 1,
            ));
        }
        if tc.enabled && tc.tool_type.is_some() && !dynamic_tool_valid(tc) {
            out.push(tc.name.clone());
            proof {
                assert(out@.map_values(|s: String| s@) =~= out@.drop_last().map_values(
                    |s: String| s@,
                ) + seq![config.tools@[i as int].name@]);
            }
        }
        i += 1;
    }
    proof {
        assert(config.tools@.skip(n as int) =~= Seq::<LocalToolConfig>::empty());
        assert(out@.map_values(|s: String| s@) =~= spec_rejected_names(config.tools@));
    }
    out
}

/// The input schema of the built-in file reader, as
/// [`spec_read_file_schema`] says.
pub fn read_file_schema() -> (r: JsonValue)
    ensures
        r@ == spec_read_file_schema(),
{
    let mut path_member: Vec<(String, JsonValue)> = Vec::new();
    path_member.push(("type".to_owned(), JsonValue::Str("string".to_owned())));
    path_member.push(
        (
            "description".to_owned(),
            JsonValue::Str("Path to the file to read (relative to base directory)".to_owned()),
        ),
    );
    let mut properties: Vec<(String, JsonValue)> = Vec::new();
    properties.push(("path".to_owned(), JsonValue::Obj(path_member)));
    let mut required: Vec<JsonValue> = Vec::new();
    required.push(JsonValue::Str("path".to_owned()));
    let mut schema: Vec<(String, JsonValue)> = Vec::new();
    schema.push(("type".to_owned(), JsonValue::Str("object".to_owned())));
    schema.push(("properties".to_owned(), JsonValue::Obj(properties)));
    schema.push(("required".to_owned(), JsonValue::Arr(required)));
    schema.push(("additionalProperties".to_owned(), JsonValue::Bool(false)));
    let r = JsonValue::Obj(schema);
    proof {
        crate::json::lemma_pair_views_of_len(path_member@);
        crate::json::lemma_pair_views_of_index(path_member@, 0);
        crate::json::lemma_pair_views_of_index(path_member@, 1);
        crate::json::lemma_pair_views_of_len(properties@);
        crate::json::lemma_pair_views_of_index(properties@, 0);
        crate::json::lemma_views_of_len(required@);
        crate::json::lemma_views_of_index(required@, 0);
        crate::json::lemma_pair_views_of_len(schema@);
        crate::json::lemma_pair_views_of_index(schema@, 0);
        crate::json::lemma_pair_views_of_index(schema@, 1);
        crate::json::lemma_pair_views_of_index(schema@, 2);
        crate::json::lemma_pair_views_of_index(schema@, 3);
        assert(crate::json::pair_views_of(path_member@) =~= seq![
            ("type"@, crate::json::JsonV::Str("string"@)),
            (
                "description"@,
                crate::json::JsonV::Str("Path to the file to read (relative to base directory)"@),
            ),
        ]);
        assert(crate::json::pair_views_of(properties@) =~= seq![
            ("path"@, crate::json::JsonV::Obj(crate::json::pair_views_of(path_member@))),
        ]);
        assert(crate::json::views_of(required@) =~= seq![crate::json::JsonV::Str("path"@)]);
        assert(crate::json::pair_views_of(schema@) =~= seq![
            ("type"@, crate::json::JsonV::Str("object"@)),
            ("properties"@, crate::json::JsonV::Obj(crate::json::pair_views_of(properties@))),
            ("required"@, crate::json::JsonV::Arr(crate::json::views_of(required@))),
            ("additionalProperties"@, crate::json::JsonV::Bool(false)),
        ]);
        assert(r@ =~~= spec_read_file_schema());
    }
    r
}

} // verus!

verus! {

/// The outcome of a draft-7 schema check, as values: either the schema
/// itself failed to compile, or a list of violation messages (empty for
/// a valid instance).
pub struct SchemaCheck {
    pub schema_error: Option<String>,
    pub violations: Vec<String>,
}

/// The mathematical value of a [`SchemaCheck`].
pub struct SchemaCheckV {
    pub schema_error: Option<Seq<char>>,
    pub violations: Seq<Seq<char>>,
}

impl View for SchemaCheck {
    type V = SchemaCheckV;

    open spec fn view(&self) -> SchemaCheckV {
        SchemaCheckV {
            schema_error: match self.schema_error {
                Some(e) => Some(e@),
                None => None,
            },
            violations: self.violations@.map_values(|s: String| s@),
        }
    }
}

/// The draft-7 check of the instance text against the schema text: a
/// function of the two JSON texts alone.
pub uninterp spec fn schema_check_of(schema: Seq<char>, instance: Seq<char>) -> SchemaCheckV;

/// Relies on `serde_json::from_str` to read the two JSON texts and on
/// `jsonschema`'s draft-7 validator (`draft7::new`, `iter_errors`): an
/// uncompilable schema is reported as such, and each violation is
/// reported as `<json-pointer>: <description>`.
#[verifier::external_body]
fn run_schema_check(schema_json: &str, instance_json: &str) -> (r: SchemaCheck)
    ensures
        r@ == schema_check_of(schema_json@, instance_json@),
{
    let parsed = serde_json::from_str::<serde_json::Value>(schema_json).and_then(
        |s| serde_json::from_str::<serde_json::Value>(instance_json).map(|i| (s, i)),
    );
    match parsed {
        Ok((schema, instance)) => match jsonschema::draft7::new(&schema) {
            Ok(v) => SchemaCheck {
                schema_error: None,
                violations: v.iter_errors(&instance).map(
                    |e| format!("{}: {}", e.instance_path(), e),
                ).collect(),
            },
            Err(e) => SchemaCheck { schema_error: Some(format!("{}", e)), violations: Vec::new() },
        },
        Err(e) => SchemaCheck { schema_error: Some(format!("{}", e)), violations: Vec::new() },
    }
}

/// The messages joined with `"; "` between them.
pub open spec fn spec_join_semicolon(v: Seq<Seq<char>>) -> Seq<char>
    decreases v,
{
    if v.len() == 0 {
        Seq::empty()
    } else if v.len() == 1 {
        v[0]
    } else {
        v[0] + "; "@ + spec_join_semicolon(v.drop_first())
    }
}

/// Joins the messages with `"; "` between them.
fn join_semicolon(v: &Vec<String>) -> (r: String)
    ensures
        r@ == spec_join_semicolon(v@.map_values(|s: String| s@)),
{
    let ghost vw = v@.map_values(|s: String| s@);
    let n = v.len();
    let mut out = String::new();
    let mut i: usize = 0;
    proof {
        assert(vw.skip(0) =~= vw);
    }
    while i < n
        invariant
            0 <= i <= n,
            n == v@.len(),
            vw == v@.map_values(|s: String| s@),
            vw.len() == n,
            i == 0 ==> out@ == Seq::<char>::empty(),
            1 <= i < n ==> spec_join_semicolon(vw) == out@ + "; "@ + spec_join_semicolon(
                vw.skip(i as int),
            ),
            i == n && n > 0 ==> spec_join_semicolon(vw) == out@,
        decreases n - i,
    {
        proof {
            assert(vw.skip(i as int)[0] == vw[i as int]);
            assert(vw.skip(i as int).drop_first() =~= vw.skip(i as int + 1));
        }
        let ghost out0 = out@;
        if i > 0 {
            out.append("; ");
        }
        out.append(v[i].as_str());
        i += 1;
        proof {
            if i == 1 {
                assert(vw.skip(0) =~= vw);
                if n == 1 {
                    assert(spec_join_semicolon(vw) == vw[0]);
                    assert(out@ =~= vw[0]);
                } else {
                    assert(vw.drop_first() =~= vw.skip(1));
                    assert(spec_join_semicolon(vw) =~= out@ + "; "@ + spec_join_semicolon(
                        vw.skip(1),
                    ));
                }
            } else {
                if i == n {
                    assert(vw.skip(i as int - 1).len() == 1);
                    assert(spec_join_semicolon(vw.skip(i as int - 1)) == vw[i as int - 1]);
                    assert(spec_join_semicolon(vw) =~= out@);
                } else {
                    assert(vw.skip(i as int - 1).len() > 1);
                    assert(spec_join_semicolon(vw) =~= out@ + "; "@ + spec_join_semicolon(
                        vw.skip(i as int),
                    ));
                }
            }
        }
    }
    proof {
        if n == 0 {
            assert(vw =~= Seq::<Seq<char>>::empty());
        }
        assert(out@ =~= spec_join_semicolon(vw));
    }
    out
}

/// The schema check of `args` against `tool`'s input schema, over the
/// compact JSON texts of both.
pub open spec fn spec_args_check(tool: LocalTool, args: JsonValue) -> SchemaCheckV {
    schema_check_of(json_ser(tool.input_schema@), json_ser(args@))
}

/// Whether `args` passes `tool`'s schema.
pub open spec fn spec_args_valid(tool: LocalTool, args: JsonValue) -> bool {
    let c = spec_args_check(tool, args);
    c.schema_error is None && c.violations.len() == 0
}

impl LocalToolRegistry {
    /// Validates a call's arguments against the named tool's input
    /// schema, draft-7, before any execution.  An unknown tool and an
    /// uncompilable schema are errors; a violating instance yields all
    /// violations joined into one message.
    pub fn validate_arguments(&self, tool_name: &str, arguments: &JsonValue) -> (r: Result<
        (),
        String,
    >)
        requires
            self.wf(),
        ensures
            (forall|i: int|
                0 <= i < self.spec_tools().len() ==> (#[trigger] self.spec_tools()[i]).name@
                    != tool_name@) ==> r is Err && r->Err_0@ == "Tool '"@ + tool_name@
                + "' not found"@,
            forall|i: int|
                0 <= i < self.spec_tools().len() && (#[trigger] self.spec_tools()[i]).name@
                    == tool_name@ ==> {
                    let c = spec_args_check(self.spec_tools()[i], *arguments);
                    &&& (r is Ok <==> spec_args_valid(self.spec_tools()[i], *arguments))
                    &&& (c.schema_error is Some ==> r is Err && starts_with_seq(
                        r->Err_0@,
                        "Invalid tool schema: "@,
                    ))
                    &&& (c.schema_error is None && c.violations.len() > 0 ==> r is Err
                        && r->Err_0@ == spec_join_semicolon(c.violations))
                },
    {
        let tool = match self.get(tool_name) {
            Some(t) => t,
            None => {
                let m1 = concat_strs("Tool '", tool_name);
                let m = concat_strs(m1.as_str(), "' not found");
                proof {
                    assert(m@ =~= "Tool '"@ + tool_name@ + "' not found"@);
                }
                return Err(m);
            },
        };
        proof {
            assert(forall|i: int|
                0 <= i < self.spec_tools().len() && (#[trigger] self.spec_tools()[i]).name@
                    == tool_name@ ==> self.spec_tools()[i] == *tool);
        }
        let schema_json = crate::json::to_json_string(&tool.input_schema);
        let args_json = crate::json::to_json_string(arguments);
        let check = run_schema_check(schema_json.as_str(), args_json.as_str());
        match check.schema_error {
            Some(e) => {
                let m = concat_strs("Invalid tool schema: ", e.as_str());
                proof {
                    assert(starts_with_seq(m@, "Invalid tool schema: "@)) by {
                        assert(m@.subrange(0, "Invalid tool schema: "@.len() as int)
                            =~= "Invalid tool schema: "@);
                    };
                }
                Err(m)
            },
            None => {
                if check.violations.len() == 0 {
                    proof {
                        assert(check@.violations.len() == 0);
                    }
                    Ok(())
                } else {
                    let m = join_semicolon(&check.violations);
                    proof {
                        assert(check@.violations.len() > 0);
                    }
                    Err(m)
                }
            },
        }
    }
}

/// The function-calling descriptor of one tool:
/// `{"type": "function", "function": {name, description, parameters}}`.
pub open spec fn spec_descriptor_of(t: LocalTool) -> crate::json::JsonV {
    crate::json::JsonV::Obj(
        seq![
            ("type"@, crate::json::JsonV::Str("function"@)),
            (
                "function"@,
                crate::json::JsonV::Obj(
                    seq![
                        ("name"@, crate::json::JsonV::Str(t.name@)),
                        ("description"@, crate::json::JsonV::Str(t.description@)),
                        ("parameters"@, t.input_schema@),
                    ],
                ),
            ),
        ],
    )
}

/// Maps each registered tool to its function-calling descriptor, in
/// registration order.
pub fn format_tools_for_llm(registry: &LocalToolRegistry) -> (r: Vec<JsonValue>)
    ensures
        r@.len() == registry.spec_tools().len(),
        forall|i: int|
            0 <= i < r@.len() ==> (#[trigger] r@[i])@ == spec_descriptor_of(
                registry.spec_tools()[i],
            ),
{
    let tools = registry.list();
    let n = tools.len();
    let mut out: Vec<JsonValue> = Vec::new();
    let mut i: usize = 0;
    while i < n
        invariant
            0 <= i <= n,
            n == tools@.len(),
            tools@.len() == registry.spec_tools().len(),
            forall|k: int|
                0 <= k < tools@.len() ==> *(#[trigger] tools@[k]) == registry.spec_tools()[k],
            out@.len() == i,
            forall|k: int|
                0 <= k < i ==> (#[trigger] out@[k])@ == spec_descriptor_of(
                    registry.spec_tools()[k],
                ),
        decreases n - i,
    {
        let t = tools[i];
        let mut function: Vec<(String, JsonValue)> = Vec::new();
        function.push(("name".to_owned(), JsonValue::Str(t.name.clone())));
        function.push(("description".to_owned(), JsonValue::Str(t.description.clone())));
        function.push(("parameters".to_owned(), t.input_schema.clone()));
        let mut descriptor: Vec<(String, JsonValue)> = Vec::new();
        descriptor.push(("type".to_owned(), JsonValue::Str("function".to_owned())));
        descriptor.push(("function".to_owned(), JsonValue::Obj(function)));
        let d = JsonValue::Obj(descriptor);
        proof {
            crate::json::lemma_pair_views_of_len(function@);
            crate::json::lemma_pair_views_of_index(function@, 0);
            crate::json::lemma_pair_views_of_index(function@, 1);
            crate::json::lemma_pair_views_of_index(function@, 2);
            crate::json::lemma_pair_views_of_len(descriptor@);
            crate::json::lemma_pair_views_of_index(descriptor@, 0);
            crate::json::lemma_pair_views_of_index(descriptor@, 1);
            assert(crate::json::pair_views_of(function@) =~= seq![
                ("name"@, crate::json::JsonV::Str(t.name@)),
                ("description"@, crate::json::JsonV::Str(t.description@)),
                ("parameters"@, t.input_schema@),
            ]);
            assert(crate::json::pair_views_of(descriptor@) =~= seq![
                ("type"@, crate::json::JsonV::Str("function"@)),
                (
                    "function"@,
                    crate::json::JsonV::Obj(crate::json::pair_views_of(function@)),
                ),
            ]);
            assert(d@ =~~= spec_descriptor_of(registry.spec_tools()[i as int]));
        }
        out.push(d);
        i += 1;
    }
    out
}

} // verus!

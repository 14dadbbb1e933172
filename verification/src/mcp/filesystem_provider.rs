//! The filesystem tools of an MCP server, as the agent offers and guards
//! them: which tools are offered in which mode, under which names, and which
//! paths a call may touch.  Talking to the server, resolving paths on disk
//! and asking the user are left to the caller.
use vstd::prelude::*;
use vstd::string::*;
use crate::api::{opt_text, FunctionDefModel, ToolDef, ToolDefModel, tool_def_views};
use crate::bash_runner::{inside_some_root, BashRunner};
use crate::config::{FilesystemConfig, FilesystemMode};
use crate::text::{append_str, str_chars, str_eq, string_from_chars, string_views};

verus! {

#[verifier::external_type_specification]
#[verifier::external_body]
pub struct ExGlob(globset::Glob);

#[verifier::external_type_specification]
#[verifier::external_body]
pub struct ExGlobSetBuilder(globset::GlobSetBuilder);

#[verifier::external_type_specification]
#[verifier::external_body]
pub struct ExGlobSet(globset::GlobSet);

/// Whether `globset::Glob::new` accepts a pattern.
pub uninterp spec fn glob_pattern_valid(pattern: Seq<char>) -> bool;

/// The pattern a glob was made from (`Glob::glob`).
pub uninterp spec fn glob_source(g: globset::Glob) -> Seq<char>;

/// The patterns added to a set builder, in order.
pub uninterp spec fn builder_patterns(b: globset::GlobSetBuilder) -> Seq<Seq<char>>;

/// Whether `GlobSetBuilder::build` succeeds on these patterns (it fails
/// when the matcher it compiles would be too large).
pub uninterp spec fn glob_set_builds(patterns: Seq<Seq<char>>) -> bool;

/// The patterns of a built set, in order.
pub uninterp spec fn glob_set_patterns(s: globset::GlobSet) -> Seq<Seq<char>>;

/// Whether a path matches one glob pattern.
pub uninterp spec fn glob_match(pattern: Seq<char>, path: Seq<char>) -> bool;

/// The characters of some patterns, all together.
pub open spec fn total_chars(ps: Seq<Seq<char>>) -> nat
    decreases ps.len(),
{
    if ps.len() == 0 {
        0
    } else {
        total_chars(ps.drop_last()) + ps.last().len()
    }
}

/// `globset::Glob::new`: the glob of a pattern, or the error text when the
/// pattern is not a valid glob.
#[verifier::external_body]
fn glob_new(pattern: &str) -> (r: Result<globset::Glob, String>)
    ensures
        r is Ok <==> glob_pattern_valid(pattern@),
        r matches Ok(g) ==> glob_source(g) == pattern@,
{
    match globset::Glob::new(pattern) {
        Ok(g) => Ok(g),
        Err(e) => Err(e.to_string()),
    }
}

/// `globset::GlobSetBuilder::new`: a builder with no patterns.
#[verifier::external_body]
fn glob_set_builder() -> (b: globset::GlobSetBuilder)
    ensures
        builder_patterns(b) == Seq::<Seq<char>>::empty(),
{
    globset::GlobSetBuilder::new()
}

/// `GlobSetBuilder::add`: the glob joins the builder's patterns.
#[verifier::external_body]
fn glob_set_add(b: &mut globset::GlobSetBuilder, g: globset::Glob)
    ensures
        builder_patterns(*final(b)) == builder_patterns(*old(b)).push(glob_source(g)),
{
    b.add(g);
}

/// `GlobSetBuilder::build`: the set of the added globs, or the error text
/// when the compiled matcher would be too large.  The literal matchers it
/// builds unwrap `AhoCorasick::new`, which fails only when its state ids
/// overflow (about 2^31 states, fewer than the bytes of the literals), so
/// the patterns here hold far fewer characters than that.
#[verifier::external_body]
fn glob_set_build(b: &globset::GlobSetBuilder) -> (r: Result<globset::GlobSet, String>)
    requires
        total_chars(builder_patterns(*b)) <= 100_000_000,
    ensures
        r is Ok <==> glob_set_builds(builder_patterns(*b)),
        r matches Ok(set) ==> glob_set_patterns(set) == builder_patterns(*b),
{
    match b.build() {
        Ok(set) => Ok(set),
        Err(e) => Err(e.to_string()),
    }
}

/// `GlobSet::is_match` on a path given as text: whether any glob of the set
/// matches it.
#[verifier::external_body]
fn glob_set_is_match(set: &globset::GlobSet, path: &str) -> (r: bool)
    ensures
        r == (exists|k: int| 0 <= k < glob_set_patterns(*set).len() && glob_match(#[trigger] glob_set_patterns(*set)[k], path@)),
{
    set.is_match(path)
}

/// The tools that change files.
pub open spec fn spec_is_write_tool(name: Seq<char>) -> bool {
    name == "write_file"@ || name == "edit_file"@ || name == "create_directory"@ || name
        == "move_file"@
}

pub fn is_write_tool(name: &str) -> (b: bool)
    ensures
        b == spec_is_write_tool(name@),
{
    str_eq(name, "write_file") || str_eq(name, "edit_file") || str_eq(name, "create_directory")
        || str_eq(name, "move_file")
}

/// A tool that an MCP server offers.  The input schema is JSON text.
#[derive(Debug, Clone)]
pub struct McpTool {
    pub name: String,
    pub description: Option<String>,
    pub input_schema: Option<String>,
}

/// `mcp__<server id>__<tool name>`.
pub open spec fn spec_namespaced(server_id: Seq<char>, tool: Seq<char>) -> Seq<char> {
    "mcp__"@ + server_id + "__"@ + tool
}

pub fn namespaced_name(server_id: &str, tool: &str) -> (r: String)
    ensures
        r@ == spec_namespaced(server_id@, tool@),
{
    let mut v = str_chars("mcp__");
    append_str(&mut v, server_id);
    append_str(&mut v, "__");
    append_str(&mut v, tool);
    string_from_chars(v.as_slice())
}

/// The tools offered in a mode: all of them, but no write tool when read-only.
pub open spec fn offered(mode: FilesystemMode, tools: Seq<McpTool>) -> Seq<McpTool>
    decreases tools.len(),
{
    if tools.len() == 0 {
        Seq::empty()
    } else {
        let prev = offered(mode, tools.drop_last());
        if mode == FilesystemMode::ReadOnly && spec_is_write_tool(tools.last().name@) {
            prev
        } else {
            prev.push(tools.last())
        }
    }
}

/// The definition of an offered tool: its namespaced name, its description
/// (its name when it has none) and its input schema.
pub open spec fn tool_definition(server_id: Seq<char>, t: McpTool) -> ToolDefModel {
    ToolDefModel {
        kind: "function"@,
        function: FunctionDefModel {
            name: spec_namespaced(server_id, t.name@),
            description: match t.description {
                Some(d) => d@,
                None => t.name@,
            },
            parameters: opt_text(t.input_schema),
            strict: None,
        },
    }
}

pub struct McpToolProvider {
    pub server_id: String,
    pub definitions: Vec<ToolDef>,
    /// Namespaced name and the server's own name of each offered tool.
    pub tool_map: Vec<(String, String)>,
    pub config: FilesystemConfig,
    pub deny_glob: globset::GlobSet,
}

impl McpToolProvider {
    pub open spec fn deny_patterns(&self) -> Seq<Seq<char>> {
        glob_set_patterns(self.deny_glob)
    }

    /// The provider of a server's tools: every deny pattern must be a valid
    /// glob (else the first invalid one's error) and the set of them must
    /// build, and the offered tools get their namespaced definitions.
    pub fn new(config: FilesystemConfig, server_id: String, tools: Vec<McpTool>) -> (r: Result<Self, String>)
        requires
            total_chars(string_views(config.deny_patterns@)) <= 100_000_000,
        ensures
            r is Ok <==> (forall|k: int|
                0 <= k < config.deny_patterns@.len() ==> glob_pattern_valid(
                    #[trigger] config.deny_patterns@[k]@,
                )) && glob_set_builds(string_views(config.deny_patterns@)),
            r matches Ok(p) ==> {
                let o = offered(config.mode, tools@);
                &&& p.server_id == server_id
                &&& p.config == config
                &&& p.deny_patterns() == string_views(config.deny_patterns@)
                &&& tool_def_views(p.definitions@) == o.map_values(
                    |t: McpTool| tool_definition(server_id@, t),
                )
                &&& p.tool_map@.len() == o.len()
                &&& forall|k: int|
                    0 <= k < o.len() ==> (#[trigger] p.tool_map@[k]).0@ == spec_namespaced(
                        server_id@,
                        o[k].name@,
                    ) && p.tool_map@[k].1@ == o[k].name@
            },
    {
        let mut builder = glob_set_builder();
        let mut i: usize = 0;
        while i < config.deny_patterns.len()
            invariant
                i <= config.deny_patterns@.len(),
                total_chars(string_views(config.deny_patterns@)) <= 100_000_000,
                forall|k: int| 0 <= k < i ==> glob_pattern_valid(#[trigger] config.deny_patterns@[k]@),
                builder_patterns(builder) == string_views(config.deny_patterns@).take(i as int),
            decreases config.deny_patterns.len() - i,
        {
            match glob_new(config.deny_patterns[i].as_str()) {
                Ok(g) => {
                    glob_set_add(&mut builder, g);
                    assert(string_views(config.deny_patterns@).take(i + 1) =~= string_views(
                        config.deny_patterns@,
                    ).take(i as int).push(config.deny_patterns@[i as int]@));
                },
                Err(e) => {
                    return Err(e);
                },
            }
            i = i + 1;
        }
        assert(string_views(config.deny_patterns@).take(config.deny_patterns@.len() as int) =~= string_views(
            config.deny_patterns@,
        ));
        let deny_glob = match glob_set_build(&builder) {
            Ok(set) => set,
            Err(e) => {
                return Err(e);
            },
        };
        let mut definitions: Vec<ToolDef> = Vec::new();
        let mut tool_map: Vec<(String, String)> = Vec::new();
        let mut j: usize = 0;
        let ghost sid = server_id@;
        assert(tools@.take(0) =~= Seq::<McpTool>::empty());
        while j < tools.len()
            invariant
                j <= tools@.len(),
                sid == server_id@,
                tool_def_views(definitions@) == offered(config.mode, tools@.take(j as int)).map_values(
                    |t: McpTool| tool_definition(sid, t),
                ),
                tool_map@.len() == offered(config.mode, tools@.take(j as int)).len(),
                forall|k: int|
                    0 <= k < tool_map@.len() ==> (#[trigger] tool_map@[k]).0@ == spec_namespaced(
                        sid,
                        offered(config.mode, tools@.take(j as int))[k].name@,
                    ) && tool_map@[k].1@ == offered(config.mode, tools@.take(j as int))[k].name@,
            decreases tools.len() - j,
        {
            let ghost before_o = offered(config.mode, tools@.take(j as int));
            assert(tools@.take(j + 1).drop_last() =~= tools@.take(j as int));
            assert(tools@.take(j + 1).last() == tools@[j as int]);
            let t = &tools[j];
            let skip = match config.mode {
                FilesystemMode::ReadOnly => is_write_tool(t.name.as_str()),
                _ => false,
            };
            if !skip {
                let name = namespaced_name(server_id.as_str(), t.name.as_str());
                let description = match &t.description {
                    Some(d) => d.clone(),
                    None => t.name.clone(),
                };
                let mut def = ToolDef::function(name.clone(), description);
                def.function.parameters = crate::api::clone_text(&t.input_schema);
                assert(def@ == tool_definition(sid, tools@[j as int]));
                let ghost dv = tool_def_views(definitions@);
                let ghost def_view = def@;
                definitions.push(def);
                tool_map.push((name, t.name.clone()));
                proof {
                    let o = offered(config.mode, tools@.take(j + 1));
                    assert(o == before_o.push(tools@[j as int]));
                    assert(tool_def_views(definitions@) =~= dv.push(def_view));
                    assert(o.map_values(|t: McpTool| tool_definition(sid, t)) =~= before_o.map_values(
                        |t: McpTool| tool_definition(sid, t),
                    ).push(tool_definition(sid, tools@[j as int])));
                    assert(tool_def_views(definitions@) =~= o.map_values(
                        |t: McpTool| tool_definition(sid, t),
                    ));
                }
            } else {
                proof {
                    assert(offered(config.mode, tools@.take(j + 1)) == before_o);
                }
            }
            j = j + 1;
        }
        assert(tools@.take(tools@.len() as int) =~= tools@);
        let p = McpToolProvider { server_id, definitions, tool_map, config, deny_glob };
        Ok(p)
    }

    pub fn id(&self) -> (r: &str)
        ensures
            r@ == self.server_id@,
    {
        self.server_id.as_str()
    }

    /// The server's own name of an offered tool.
    pub fn original_name(&self, namespaced: &str) -> (r: Option<String>)
        ensures
            match r {
                Some(n) => exists|k: int|
                    0 <= k < self.tool_map@.len() && (#[trigger] self.tool_map@[k]).0@
                        == namespaced@ && self.tool_map@[k].1@ == n@,
                None => forall|k: int|
                    0 <= k < self.tool_map@.len() ==> (#[trigger] self.tool_map@[k]).0@
                        != namespaced@,
            },
    {
        let mut i: usize = 0;
        while i < self.tool_map.len()
            invariant
                i <= self.tool_map@.len(),
                forall|k: int| 0 <= k < i ==> (#[trigger] self.tool_map@[k]).0@ != namespaced@,
            decreases self.tool_map.len() - i,
        {
            if str_eq(self.tool_map[i].0.as_str(), namespaced) {
                return Some(self.tool_map[i].1.clone());
            }
            i = i + 1;
        }
        None
    }

    /// Write tools cannot run in read-only mode.
    pub fn check_mode(&self, original_name: &str) -> (r: Result<(), String>)
        ensures
            r is Err <==> (spec_is_write_tool(original_name@) && self.config.mode
                == FilesystemMode::ReadOnly),
            r matches Err(m) ==> m@ == "Tool '"@ + original_name@ + "' is not available in read-only mode"@,
    {
        if is_write_tool(original_name) && self.config.mode == FilesystemMode::ReadOnly {
            let mut v = str_chars("Tool '");
            append_str(&mut v, original_name);
            append_str(&mut v, "' is not available in read-only mode");
            Err(string_from_chars(v.as_slice()))
        } else {
            Ok(())
        }
    }

    /// Whether the user is asked before the call runs.
    pub fn needs_confirmation(&self, original_name: &str) -> (b: bool)
        ensures
            b == match self.config.confirm {
                crate::config::ConfirmationPolicy::Never => false,
                crate::config::ConfirmationPolicy::Writes => spec_is_write_tool(original_name@),
                crate::config::ConfirmationPolicy::Always => true,
            },
    {
        self.config.confirm.should_confirm(is_write_tool(original_name))
    }

    /// Whether a path, as the model gave it, matches a deny pattern.
    pub fn is_denied(&self, path: &str) -> (b: bool)
        ensures
            b == exists|k: int| 0 <= k < self.deny_patterns().len() && glob_match(#[trigger] self.deny_patterns()[k], path@),
    {
        glob_set_is_match(&self.deny_glob, path)
    }

    /// Checks one path of a call: its resolved canonical form (or why it
    /// could not be resolved) must lie under a canonical root, and the path
    /// as given must match no deny pattern.
    pub fn validate_single_path(
        &self,
        path: &str,
        canonical: Result<String, String>,
        canonical_roots: &Vec<String>,
    ) -> (r: Result<(), String>)
        ensures
            match canonical {
                Err(e) => r == Err::<(), String>(e),
                Ok(c) => if !inside_some_root(c@, string_views(canonical_roots@)) {
                    r matches Err(m) && m@ == "path is outside allowed roots: "@ + path@
                } else if exists|k: int|
                    0 <= k < self.deny_patterns().len() && glob_match(#[trigger] self.deny_patterns()[k], path@) {
                    r matches Err(m) && m@ == "path matches deny pattern: "@ + path@
                } else {
                    r is Ok
                },
            },
    {
        let c = match canonical {
            Err(e) => {
                return Err(e);
            },
            Ok(c) => c,
        };
        if !BashRunner::cwd_is_inside_allowed_root(c.as_str(), canonical_roots) {
            let mut v = str_chars("path is outside allowed roots: ");
            append_str(&mut v, path);
            return Err(string_from_chars(v.as_slice()));
        }
        if self.is_denied(path) {
            let mut v = str_chars("path matches deny pattern: ");
            append_str(&mut v, path);
            return Err(string_from_chars(v.as_slice()));
        }
        Ok(())
    }
}

} // verus!

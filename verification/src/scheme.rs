//! Pieces of scheme files, the shared breakpoint list and the user's scheme
//! management file.
use vstd::prelude::*;
use crate::smap::entries_view;
use crate::text::{push_str, push_dec_i64, dec_int};
use crate::xml::{xml_escape, xml_escape_spec, push_xml_escaped, indent_text, write_indent, multiline_start_text,
    write_multiline_start, end_tag_text, write_end_tag, bool_xml, bool_xml_spec};

verus! {

/// An environment variable of a scheme action.
pub struct EnvironmentVariable {
    pub variable: String,
    pub value: String,
    pub enabled: bool,
}

/// The attributes written for an environment variable.
pub open spec fn env_var_attrs(v: EnvironmentVariable) -> Seq<(Seq<char>, Seq<char>)> {
    seq![
        ("key"@, xml_escape_spec(v.variable@)),
        ("value"@, xml_escape_spec(v.value@)),
        ("isEnabled"@, bool_xml_spec(v.enabled)),
    ]
}

/// The first `n` environment variables as written.
pub open spec fn env_items(vs: Seq<EnvironmentVariable>, n: int, indent: nat) -> Seq<char>
    decreases n,
{
    if n <= 0 || n > vs.len() {
        Seq::empty()
    } else {
        env_items(vs, n - 1, indent) + multiline_start_text(indent + 1, "EnvironmentVariable"@, env_var_attrs(vs[n - 1]))
            + end_tag_text(indent + 1, "EnvironmentVariable"@)
    }
}

/// The environment variables element; nothing when there are none.
pub open spec fn environment_variables_text(vs: Seq<EnvironmentVariable>, indent: nat) -> Seq<char> {
    if vs.len() == 0 {
        Seq::empty()
    } else {
        indent_text(indent) + "<EnvironmentVariables>\n"@ + env_items(vs, vs.len() as int, indent) + end_tag_text(
            indent,
            "EnvironmentVariables"@,
        )
    }
}

/// Appends the environment variables of an action.
pub fn write_environment_variables(output: &mut String, variables: &Vec<EnvironmentVariable>, indent: usize)
    requires
        indent + 1 < usize::MAX,
    ensures
        final(output)@ == old(output)@ + environment_variables_text(variables@, indent as nat),
{
    if variables.len() == 0 {
        return;
    }
    write_indent(output, indent);
    push_str(output, "<EnvironmentVariables>\n");
    let ghost start = output@;
    let mut i: usize = 0;
    while i < variables.len()
        invariant
            indent + 1 < usize::MAX,
            i <= variables@.len(),
            output@ == start + env_items(variables@, i as int, indent as nat),
        decreases variables.len() - i,
    {
        let v = &variables[i];
        let mut attrs: Vec<(String, String)> = Vec::new();
        attrs.push(("key".to_owned(), xml_escape(v.variable.as_str())));
        attrs.push(("value".to_owned(), xml_escape(v.value.as_str())));
        attrs.push(("isEnabled".to_owned(), bool_xml(v.enabled).to_owned()));
        proof {
            assert(entries_view(attrs@) =~= env_var_attrs(variables@[i as int]));
        }
        write_multiline_start(output, indent + 1, "EnvironmentVariable", &attrs);
        write_end_tag(output, indent + 1, "EnvironmentVariable");
        i = i + 1;
    }
    write_end_tag(output, indent, "EnvironmentVariables");
}

/// The attributes written for a command line argument.
pub open spec fn argument_attrs(a: (String, bool)) -> Seq<(Seq<char>, Seq<char>)> {
    seq![("argument"@, xml_escape_spec(a.0@)), ("isEnabled"@, bool_xml_spec(a.1))]
}

/// The first `n` command line arguments as written.
pub open spec fn argument_items(args: Seq<(String, bool)>, n: int, indent: nat) -> Seq<char>
    decreases n,
{
    if n <= 0 || n > args.len() {
        Seq::empty()
    } else {
        argument_items(args, n - 1, indent) + multiline_start_text(indent + 1, "CommandLineArgument"@, argument_attrs(args[n - 1]))
            + end_tag_text(indent + 1, "CommandLineArgument"@)
    }
}

/// The command line arguments element, written even when empty.
pub open spec fn command_line_arguments_text(args: Seq<(String, bool)>, indent: nat) -> Seq<char> {
    indent_text(indent) + "<CommandLineArguments>\n"@ + argument_items(args, args.len() as int, indent) + end_tag_text(
        indent,
        "CommandLineArguments"@,
    )
}

/// Appends the command line arguments of an action, each with whether it is
/// enabled.
pub fn write_command_line_arguments(output: &mut String, arguments: &Vec<(String, bool)>, indent: usize)
    requires
        indent + 1 < usize::MAX,
    ensures
        final(output)@ == old(output)@ + command_line_arguments_text(arguments@, indent as nat),
{
    write_indent(output, indent);
    push_str(output, "<CommandLineArguments>\n");
    let ghost start = output@;
    let mut i: usize = 0;
    while i < arguments.len()
        invariant
            indent + 1 < usize::MAX,
            i <= arguments@.len(),
            output@ == start + argument_items(arguments@, i as int, indent as nat),
        decreases arguments.len() - i,
    {
        let mut attrs: Vec<(String, String)> = Vec::new();
        attrs.push(("argument".to_owned(), xml_escape(arguments[i].0.as_str())));
        attrs.push(("isEnabled".to_owned(), bool_xml(arguments[i].1).to_owned()));
        proof {
            assert(entries_view(attrs@) =~= argument_attrs(arguments@[i as int]));
        }
        write_multiline_start(output, indent + 1, "CommandLineArgument", &attrs);
        write_end_tag(output, indent + 1, "CommandLineArgument");
        i = i + 1;
    }
    write_end_tag(output, indent, "CommandLineArguments");
}

/// The actions a target of a scheme's build action is built for.
#[derive(PartialEq, Eq, Structural, Clone, Copy)]
pub enum BuildType {
    Testing,
    Running,
    Profiling,
    Archiving,
    Analyzing,
}

/// Whether a build type is among those listed.
pub fn has_build_type(types: &Vec<BuildType>, t: BuildType) -> (r: bool)
    ensures
        r == types@.contains(t),
{
    let mut i: usize = 0;
    while i < types.len()
        invariant
            i <= types@.len(),
            forall|k: int| 0 <= k < i ==> types@[k] != t,
        decreases types.len() - i,
    {
        if types[i] == t {
            return true;
        }
        i = i + 1;
    }
    false
}

/// The attributes of a build action entry: whether the target is built for
/// each action.
pub open spec fn build_entry_attrs(types: Seq<BuildType>) -> Seq<(Seq<char>, Seq<char>)> {
    seq![
        ("buildForTesting"@, bool_xml_spec(types.contains(BuildType::Testing))),
        ("buildForRunning"@, bool_xml_spec(types.contains(BuildType::Running))),
        ("buildForProfiling"@, bool_xml_spec(types.contains(BuildType::Profiling))),
        ("buildForArchiving"@, bool_xml_spec(types.contains(BuildType::Archiving))),
        ("buildForAnalyzing"@, bool_xml_spec(types.contains(BuildType::Analyzing))),
    ]
}

/// Appends the start tag of a build action entry.
pub fn write_build_action_entry_start(output: &mut String, indent: usize, build_types: &Vec<BuildType>)
    requires
        indent < usize::MAX,
    ensures
        final(output)@ == old(output)@ + multiline_start_text(
            indent as nat,
            "BuildActionEntry"@,
            build_entry_attrs(build_types@),
        ),
{
    let mut attrs: Vec<(String, String)> = Vec::new();
    attrs.push(("buildForTesting".to_owned(), bool_xml(has_build_type(build_types, BuildType::Testing)).to_owned()));
    attrs.push(("buildForRunning".to_owned(), bool_xml(has_build_type(build_types, BuildType::Running)).to_owned()));
    attrs.push(("buildForProfiling".to_owned(), bool_xml(has_build_type(build_types, BuildType::Profiling)).to_owned()));
    attrs.push(("buildForArchiving".to_owned(), bool_xml(has_build_type(build_types, BuildType::Archiving)).to_owned()));
    attrs.push(("buildForAnalyzing".to_owned(), bool_xml(has_build_type(build_types, BuildType::Analyzing)).to_owned()));
    proof {
        assert(entries_view(attrs@) =~= build_entry_attrs(build_types@));
    }
    write_multiline_start(output, indent, "BuildActionEntry", &attrs);
}

/// What a breakpoint stops on.
pub enum BreakpointType {
    File { path: String, line: i64, column: Option<i64> },
    Exception,
    SwiftError,
    OpenGLError,
    Symbolic { symbol: Option<String>, module: Option<String> },
    IdeConstraintError,
    IdeTestFailure,
    RuntimeIssue,
}

/// A shared breakpoint.
pub struct Breakpoint {
    pub breakpoint_type: BreakpointType,
    pub enabled: bool,
    pub ignore_count: i64,
    pub continue_after_running_actions: bool,
    pub condition: Option<String>,
}

/// The extension identifier Xcode gives each kind of breakpoint.
pub open spec fn extension_id_spec(t: BreakpointType) -> Seq<char> {
    match t {
        BreakpointType::File { .. } => "Xcode.Breakpoint.FileBreakpoint"@,
        BreakpointType::Exception => "Xcode.Breakpoint.ExceptionBreakpoint"@,
        BreakpointType::SwiftError => "Xcode.Breakpoint.SwiftErrorBreakpoint"@,
        BreakpointType::OpenGLError => "Xcode.Breakpoint.OpenGLErrorBreakpoint"@,
        BreakpointType::Symbolic { .. } => "Xcode.Breakpoint.SymbolicBreakpoint"@,
        BreakpointType::IdeConstraintError => "Xcode.Breakpoint.IDEConstraintErrorBreakpoint"@,
        BreakpointType::IdeTestFailure => "Xcode.Breakpoint.IDETestFailureBreakpoint"@,
        BreakpointType::RuntimeIssue => "Xcode.Breakpoint.RuntimeIssueBreakpoint"@,
    }
}

/// The extension identifier of a kind of breakpoint.
pub fn breakpoint_extension_id(breakpoint_type: &BreakpointType) -> (r: &'static str)
    ensures
        r@ == extension_id_spec(*breakpoint_type),
{
    match breakpoint_type {
        BreakpointType::File { .. } => "Xcode.Breakpoint.FileBreakpoint",
        BreakpointType::Exception => "Xcode.Breakpoint.ExceptionBreakpoint",
        BreakpointType::SwiftError => "Xcode.Breakpoint.SwiftErrorBreakpoint",
        BreakpointType::OpenGLError => "Xcode.Breakpoint.OpenGLErrorBreakpoint",
        BreakpointType::Symbolic { .. } => "Xcode.Breakpoint.SymbolicBreakpoint",
        BreakpointType::IdeConstraintError => "Xcode.Breakpoint.IDEConstraintErrorBreakpoint",
        BreakpointType::IdeTestFailure => "Xcode.Breakpoint.IDETestFailureBreakpoint",
        BreakpointType::RuntimeIssue => "Xcode.Breakpoint.RuntimeIssueBreakpoint",
    }
}

/// An attribute written inline: ` name="value"`.
pub open spec fn inline_attr(name: Seq<char>, value: Seq<char>) -> Seq<char> {
    " "@ + name + "=\""@ + value + "\""@
}

/// The attributes that depend on what a breakpoint stops on.
pub open spec fn breakpoint_type_attrs(t: BreakpointType) -> Seq<char> {
    match t {
        BreakpointType::File { path, line, column } => inline_attr("filePath"@, xml_escape_spec(path@))
            + inline_attr("startingLineNumber"@, dec_int(line as int)) + inline_attr("endingLineNumber"@, dec_int(line as int))
            + match column {
            Some(c) => inline_attr("startingColumnNumber"@, dec_int(c as int)) + inline_attr(
                "endingColumnNumber"@,
                dec_int(c as int),
            ),
            None => Seq::empty(),
        },
        BreakpointType::Symbolic { symbol, module } => (match symbol {
            Some(s) => inline_attr("symbolName"@, xml_escape_spec(s@)),
            None => Seq::empty(),
        }) + match module {
            Some(m) => inline_attr("moduleName"@, xml_escape_spec(m@)),
            None => Seq::empty(),
        },
        _ => Seq::empty(),
    }
}

/// A breakpoint as written in the breakpoint list.
pub open spec fn breakpoint_text(b: Breakpoint) -> Seq<char> {
    "      <BreakpointProxy BreakpointExtensionID=\""@ + extension_id_spec(b.breakpoint_type)
        + "\">\n         <BreakpointContent"@ + inline_attr("shouldBeEnabled"@, bool_xml_spec(b.enabled))
        + inline_attr("ignoreCount"@, dec_int(b.ignore_count as int)) + inline_attr(
        "continueAfterRunningActions"@,
        bool_xml_spec(b.continue_after_running_actions),
    ) + (match b.condition {
        Some(c) => inline_attr("condition"@, xml_escape_spec(c@)),
        None => Seq::empty(),
    }) + breakpoint_type_attrs(b.breakpoint_type) + "/>\n      </BreakpointProxy>\n"@
}

/// The first `n` breakpoints as written.
pub open spec fn breakpoint_items(bs: Seq<Breakpoint>, n: int) -> Seq<char>
    decreases n,
{
    if n <= 0 || n > bs.len() {
        Seq::empty()
    } else {
        breakpoint_items(bs, n - 1) + breakpoint_text(bs[n - 1])
    }
}

/// The shared breakpoint list.
pub open spec fn breakpoints_xml_spec(bs: Seq<Breakpoint>) -> Seq<char> {
    "<?xml version=\"1.0\" encoding=\"UTF-8\"?>\n"@ + "<Bucket type=\"1\" version=\"2.0\">\n   <Breakpoints>\n"@
        + breakpoint_items(bs, bs.len() as int) + "   </Breakpoints>\n</Bucket>\n"@
}

/// Appends an inline attribute whose value is written as given.
fn push_inline_attr(output: &mut String, name: &str, value: &str)
    ensures
        final(output)@ == old(output)@ + inline_attr(name@, value@),
{
    push_str(output, " ");
    output.append(name);
    push_str(output, "=\"");
    output.append(value);
    push_str(output, "\"");
}

/// Appends an inline attribute whose value is a number.
fn push_inline_int(output: &mut String, name: &str, value: i64)
    ensures
        final(output)@ == old(output)@ + inline_attr(name@, dec_int(value as int)),
{
    push_str(output, " ");
    output.append(name);
    push_str(output, "=\"");
    push_dec_i64(output, value);
    push_str(output, "\"");
}

/// Appends the attributes that depend on what a breakpoint stops on.
fn write_breakpoint_type_attrs(output: &mut String, t: &BreakpointType)
    ensures
        final(output)@ == old(output)@ + breakpoint_type_attrs(*t),
{
    match t {
        BreakpointType::File { path, line, column } => {
            let p = xml_escape(path.as_str());
            push_inline_attr(output, "filePath", p.as_str());
            push_inline_int(output, "startingLineNumber", *line);
            push_inline_int(output, "endingLineNumber", *line);
            if let Some(c) = column {
                push_inline_int(output, "startingColumnNumber", *c);
                push_inline_int(output, "endingColumnNumber", *c);
            }
        }
        BreakpointType::Symbolic { symbol, module } => {
            if let Some(s) = symbol {
                let e = xml_escape(s.as_str());
                push_inline_attr(output, "symbolName", e.as_str());
            }
            if let Some(m) = module {
                let e = xml_escape(m.as_str());
                push_inline_attr(output, "moduleName", e.as_str());
            }
        }
        _ => {}
    }
}

/// Appends one breakpoint.
fn write_breakpoint(output: &mut String, b: &Breakpoint)
    ensures
        final(output)@ == old(output)@ + breakpoint_text(*b),
{
    push_str(output, "      <BreakpointProxy BreakpointExtensionID=\"");
    push_str(output, breakpoint_extension_id(&b.breakpoint_type));
    push_str(output, "\">\n         <BreakpointContent");
    push_inline_attr(output, "shouldBeEnabled", bool_xml(b.enabled));
    push_inline_int(output, "ignoreCount", b.ignore_count);
    push_inline_attr(output, "continueAfterRunningActions", bool_xml(b.continue_after_running_actions));
    if let Some(c) = &b.condition {
        let e = xml_escape(c.as_str());
        push_inline_attr(output, "condition", e.as_str());
    }
    write_breakpoint_type_attrs(output, &b.breakpoint_type);
    push_str(output, "/>\n      </BreakpointProxy>\n");
}

/// The shared breakpoint list of a project.
pub fn breakpoints_xml(breakpoints: &Vec<Breakpoint>) -> (r: String)
    ensures
        r@ == breakpoints_xml_spec(breakpoints@),
{
    let mut output = String::new();
    push_str(&mut output, "<?xml version=\"1.0\" encoding=\"UTF-8\"?>\n");
    push_str(&mut output, "<Bucket type=\"1\" version=\"2.0\">\n   <Breakpoints>\n");
    let ghost start = output@;
    let mut i: usize = 0;
    while i < breakpoints.len()
        invariant
            i <= breakpoints@.len(),
            output@ == start + breakpoint_items(breakpoints@, i as int),
        decreases breakpoints.len() - i,
    {
        write_breakpoint(&mut output, &breakpoints[i]);
        i = i + 1;
    }
    push_str(&mut output, "   </Breakpoints>\n</Bucket>\n");
    output
}

/// Whether a scheme is shared, shown, and where it is ordered, for the
/// user's scheme management file.
pub struct SchemeManagementState {
    pub name: String,
    pub shared: bool,
    pub is_shown: Option<bool>,
    pub order_hint: Option<i64>,
}

/// The key naming a scheme's file in the scheme management file.
pub open spec fn management_key_text(name: Seq<char>, shared: bool) -> Seq<char> {
    "\t\t<key>"@ + xml_escape_spec(name) + ".xcscheme"@ + (if shared {
        "_^#shared#^_"@
    } else {
        Seq::empty()
    }) + "</key>\n"@
}

/// Whether a scheme is shown, when that is set.
pub open spec fn management_shown_text(is_shown: Option<bool>) -> Seq<char> {
    match is_shown {
        Some(b) => "\t\t\t<key>isShown</key>\n"@ + "\t\t\t<"@ + (if b { "true"@ } else { "false"@ }) + " />\n"@,
        None => Seq::empty(),
    }
}

/// Where a scheme is ordered, when that is set.
pub open spec fn management_hint_text(order_hint: Option<i64>) -> Seq<char> {
    match order_hint {
        Some(h) => "\t\t\t<key>orderHint</key>\n"@ + "\t\t\t<integer>"@ + dec_int(h as int) + "</integer>\n"@,
        None => Seq::empty(),
    }
}

/// The entry of one scheme in the scheme management file.
pub open spec fn management_state_text(s: SchemeManagementState) -> Seq<char> {
    management_key_text(s.name@, s.shared) + "\t\t<dict>\n"@ + management_shown_text(s.is_shown)
        + management_hint_text(s.order_hint) + "\t\t</dict>\n"@
}

/// The first `n` scheme entries as written.
pub open spec fn management_items(states: Seq<SchemeManagementState>, n: int) -> Seq<char>
    decreases n,
{
    if n <= 0 || n > states.len() {
        Seq::empty()
    } else {
        management_items(states, n - 1) + management_state_text(states[n - 1])
    }
}

/// The lines a property list starts with.
pub open spec fn plist_header() -> Seq<char> {
    "<?xml version=\"1.0\" encoding=\"UTF-8\"?>\n"@ + "<!DOCTYPE plist PUBLIC \"-//Apple//DTD PLIST 1.0//EN\" "@
        + "\"http://www.apple.com/DTDs/PropertyList-1.0.dtd\">\n"@
}

/// The scheme management file.
pub open spec fn scheme_management_plist_spec(states: Seq<SchemeManagementState>) -> Seq<char> {
    plist_header() + "<plist version=\"1.0\">\n<dict>\n"@ + "\t<key>SchemeUserState</key>\n\t<dict>\n"@
        + management_items(states, states.len() as int) + "\t</dict>\n</dict>\n</plist>\n"@
}

/// Appends the lines a property list starts with.
pub fn push_plist_header(output: &mut String)
    ensures
        final(output)@ == old(output)@ + plist_header(),
{
    push_str(output, "<?xml version=\"1.0\" encoding=\"UTF-8\"?>\n");
    push_str(output, "<!DOCTYPE plist PUBLIC \"-//Apple//DTD PLIST 1.0//EN\" ");
    push_str(output, "\"http://www.apple.com/DTDs/PropertyList-1.0.dtd\">\n");
}

fn write_management_key(output: &mut String, name: &str, shared: bool)
    ensures
        final(output)@ == old(output)@ + management_key_text(name@, shared),
{
    push_str(output, "\t\t<key>");
    push_xml_escaped(output, name);
    push_str(output, ".xcscheme");
    if shared {
        push_str(output, "_^#shared#^_");
    }
    push_str(output, "</key>\n");
}

fn write_management_shown(output: &mut String, is_shown: Option<bool>)
    ensures
        final(output)@ == old(output)@ + management_shown_text(is_shown),
{
    if let Some(is_shown) = is_shown {
        push_str(output, "\t\t\t<key>isShown</key>\n");
        push_str(output, "\t\t\t<");
        if is_shown {
            push_str(output, "true");
        } else {
            push_str(output, "false");
        }
        push_str(output, " />\n");
    }
}

fn write_management_hint(output: &mut String, order_hint: Option<i64>)
    ensures
        final(output)@ == old(output)@ + management_hint_text(order_hint),
{
    if let Some(order_hint) = order_hint {
        push_str(output, "\t\t\t<key>orderHint</key>\n");
        push_str(output, "\t\t\t<integer>");
        push_dec_i64(output, order_hint);
        push_str(output, "</integer>\n");
    }
}

/// Appends the entry of one scheme.
fn write_management_state(output: &mut String, state: &SchemeManagementState)
    ensures
        final(output)@ == old(output)@ + management_state_text(*state),
{
    write_management_key(output, state.name.as_str(), state.shared);
    push_str(output, "\t\t<dict>\n");
    write_management_shown(output, state.is_shown);
    write_management_hint(output, state.order_hint);
    push_str(output, "\t\t</dict>\n");
}

/// The scheme management file for the given scheme states.
pub fn scheme_management_plist(states: &Vec<SchemeManagementState>) -> (r: String)
    ensures
        r@ == scheme_management_plist_spec(states@),
{
    let mut output = String::new();
    push_plist_header(&mut output);
    push_str(&mut output, "<plist version=\"1.0\">\n<dict>\n");
    push_str(&mut output, "\t<key>SchemeUserState</key>\n\t<dict>\n");
    let ghost start = output@;
    let mut i: usize = 0;
    while i < states.len()
        invariant
            i <= states@.len(),
            output@ == start + management_items(states@, i as int),
        decreases states.len() - i,
    {
        write_management_state(&mut output, &states[i]);
        i = i + 1;
    }
    push_str(&mut output, "\t</dict>\n</dict>\n</plist>\n");
    output
}

} // verus!

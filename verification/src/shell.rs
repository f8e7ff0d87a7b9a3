//! The definition builder's command surface: how it launches, where its default files
//! live, the commands it runs, and the interactive menu and forms that produce them.
use vstd::prelude::*;

use crate::storage::{has_extension, path_has_extension};
use crate::text::{
    chars_less, chars_of, lemma_lex_order, lex_lt, push_str, spec_trim, string_from_chars,
    trim_whitespace,
};

verus! {

/// How the builder runs: the interactive shell, one command, or printing help.
#[derive(Debug, Clone, Copy, PartialEq, Eq, Structural)]
pub enum LaunchMode {
    InteractiveShell,
    Direct,
    Help,
}

/// A command given on the command line, with its optional paths.
#[derive(Debug)]
pub enum Command {
    Pack { output: Option<String> },
    BuildTridXml { input: Option<String>, output: Option<String> },
    Inspect { input: Option<String> },
    InspectTridXml { input: Option<String> },
    Normalize { input: Option<String>, output: Option<String> },
    Verify { left: String, right: String },
}

/// A command runs directly; without one, a terminal on both ends opens the shell unless
/// output is silenced, and anything else prints help.
pub fn determine_launch_mode(
    command: Option<&Command>,
    silent: bool,
    stdin_is_terminal: bool,
    stdout_is_terminal: bool,
) -> (r: LaunchMode)
    ensures
        command is Some ==> r == LaunchMode::Direct,
        command is None && !silent && stdin_is_terminal && stdout_is_terminal ==> r
            == LaunchMode::InteractiveShell,
        command is None && !(!silent && stdin_is_terminal && stdout_is_terminal) ==> r
            == LaunchMode::Help,
{
    if command.is_some() {
        LaunchMode::Direct
    } else if !silent && stdin_is_terminal && stdout_is_terminal {
        LaunchMode::InteractiveShell
    } else {
        LaunchMode::Help
    }
}

/// `name` under directory `base`, joined with a backslash as Windows paths are. The
/// separator is a backslash on every host: the tool's paths are Windows paths, so this
/// differs from joining with the host's separator (a slash on Unix).
pub open spec fn spec_join(base: Seq<char>, name: Seq<char>) -> Seq<char> {
    if base.len() == 0 {
        name
    } else if base.last() == '\\' || base.last() == '/' {
        base + name
    } else {
        base + seq!['\\'] + name
    }
}

/// `name` under directory `base`, joined with a backslash as Windows paths are, on every
/// host (see `spec_join`).
pub fn join_path(base: &str, name: &str) -> (r: String)
    ensures
        r@ == spec_join(base@, name@),
{
    let b = chars_of(base);
    let mut out: Vec<char> = Vec::new();
    push_str(&mut out, base);
    if b.len() > 0 && b[b.len() - 1] != '\\' && b[b.len() - 1] != '/' {
        out.push('\\');
    }
    push_str(&mut out, name);
    string_from_chars(out.as_slice())
}

/// The folders the builder reads sources from, writes packages to and logs into.
#[derive(Debug, Clone, PartialEq, Eq)]
pub struct BuilderPaths {
    pub package_dir: String,
    pub output_dir: String,
    pub logs_dir: String,
}

impl BuilderPaths {
    /// The default paths under a base folder: its `package`, `output` and `logs` folders,
    /// each unless overridden.
    pub fn from_base(
        base_dir: &str,
        package_dir: Option<String>,
        output_dir: Option<String>,
        logs_dir: Option<String>,
    ) -> (r: BuilderPaths)
        ensures
            r.package_dir@ == (match package_dir {
                Some(p) => p@,
                None => spec_join(base_dir@, "package"@),
            }),
            r.output_dir@ == (match output_dir {
                Some(p) => p@,
                None => spec_join(base_dir@, "output"@),
            }),
            r.logs_dir@ == (match logs_dir {
                Some(p) => p@,
                None => spec_join(base_dir@, "logs"@),
            }),
    {
        BuilderPaths {
            package_dir: match package_dir {
                Some(p) => p,
                None => join_path(base_dir, "package"),
            },
            output_dir: match output_dir {
                Some(p) => p,
                None => join_path(base_dir, "output"),
            },
            logs_dir: match logs_dir {
                Some(p) => p,
                None => join_path(base_dir, "logs"),
            },
        }
    }

    /// The default TrID source: the `triddefs_xml.7z` archive in the package folder.
    pub fn default_trid_input_path(&self) -> (r: String)
        ensures
            r@ == spec_join(self.package_dir@, "triddefs_xml.7z"@),
    {
        join_path(self.package_dir.as_str(), "triddefs_xml.7z")
    }

    /// The default package file: `filedefs.rpkg` in the output folder.
    pub fn default_package_output_path(&self) -> (r: String)
        ensures
            r@ == spec_join(self.output_dir@, "filedefs.rpkg"@),
    {
        join_path(self.output_dir.as_str(), "filedefs.rpkg")
    }
}

/// The TrID source to use in a package folder, given what it holds: the
/// `triddefs_xml.7z` archive, else the `triddefs_xml` folder, else the first `.7z` file,
/// else the first `.xml` file, else the folder itself.
pub fn resolve_default_trid_source(
    package_dir: &str,
    archive_exists: bool,
    directory_exists: bool,
    first_archive: Option<String>,
    first_xml: Option<String>,
) -> (r: String)
    ensures
        archive_exists ==> r@ == spec_join(package_dir@, "triddefs_xml.7z"@),
        !archive_exists && directory_exists ==> r@ == spec_join(package_dir@, "triddefs_xml"@),
        !archive_exists && !directory_exists ==> r@ == (match first_archive {
            Some(a) => a@,
            None => match first_xml {
                Some(x) => x@,
                None => package_dir@,
            },
        }),
{
    if archive_exists {
        return join_path(package_dir, "triddefs_xml.7z");
    }
    if directory_exists {
        return join_path(package_dir, "triddefs_xml");
    }
    match first_archive {
        Some(a) => a,
        None => match first_xml {
            Some(x) => x,
            None => package_dir.to_owned(),
        },
    }
}

/// The first of `paths` in path order whose file name has extension `extension`
/// (ASCII case ignored), or `None` when none has. The paths are the entries of one
/// folder, so path order is the order of their texts.
pub fn first_matching_file(paths: &[String], extension: &str) -> (r: Option<String>)
    ensures
        match r {
            None => forall|i: int| 0 <= i < paths@.len() ==> !path_has_extension(#[trigger] paths@[i]@, extension@),
            Some(p) => exists|i: int|
                0 <= i < paths@.len() && #[trigger] paths@[i]@ == p@ && path_has_extension(p@, extension@)
                && forall|j: int|
                    0 <= j < paths@.len() && path_has_extension(#[trigger] paths@[j]@, extension@)
                        ==> !lex_lt(paths@[j]@, p@),
        },
{
    let mut best: Option<usize> = None;
    let mut i: usize = 0;
    while i < paths.len()
        invariant
            i <= paths@.len(),
            match best {
                None => forall|k: int| 0 <= k < i ==> !path_has_extension(#[trigger] paths@[k]@, extension@),
                Some(b) => (b as int) < i && path_has_extension(paths@[b as int]@, extension@) && forall|k: int|
                    0 <= k < i && path_has_extension(#[trigger] paths@[k]@, extension@) ==> !lex_lt(
                        paths@[k]@,
                        paths@[b as int]@,
                    ),
            },
        decreases paths@.len() - i,
    {
        if has_extension(paths[i].as_str(), extension) {
            match best {
                None => {
                    proof {
                        lemma_lex_order(paths@[i as int]@, paths@[i as int]@, paths@[i as int]@);
                    }
                    best = Some(i);
                },
                Some(b) => {
                    let a = chars_of(paths[i].as_str());
                    let c = chars_of(paths[b].as_str());
                    if chars_less(a.as_slice(), c.as_slice()) {
                        proof {
                            assert forall|k: int|
                                0 <= k < i + 1 && path_has_extension(#[trigger] paths@[k]@, extension@)
                                    implies !lex_lt(paths@[k]@, paths@[i as int]@) by {
                                lemma_lex_order(paths@[k]@, paths@[i as int]@, paths@[b as int]@);
                                lemma_lex_order(paths@[i as int]@, paths@[i as int]@, paths@[i as int]@);
                            }
                        }
                        best = Some(i);
                    } else {
                        proof {
                            lemma_lex_order(paths@[b as int]@, paths@[i as int]@, paths@[b as int]@);
                        }
                    }
                },
            }
        }
        i = i + 1;
    }
    match best {
        None => None,
        Some(b) => Some(paths[b].clone()),
    }
}

/// A command the builder runs, with its paths resolved.
#[derive(Debug, Clone, PartialEq, Eq)]
pub enum BuilderAction {
    Pack { output: String },
    BuildTridXml { input: String, output: String },
    Inspect { input: String },
    InspectTridXml { input: String },
    Normalize { input: String, output: String },
    Verify { left: String, right: String },
    SyncEmbedded { input: String, output: String, check: bool },
}

impl BuilderAction {
    /// The title of the report the command produces.
    pub fn title(&self) -> (r: &'static str)
        ensures
            r@ == match self {
                BuilderAction::Pack { .. } => "Bundled Package"@,
                BuilderAction::BuildTridXml { .. } => "Build Complete"@,
                BuilderAction::Inspect { .. } => "Package Summary"@,
                BuilderAction::InspectTridXml { .. } => "Transformation Preview"@,
                BuilderAction::Normalize { .. } => "Normalized Package"@,
                BuilderAction::Verify { .. } => "Verification"@,
                BuilderAction::SyncEmbedded { .. } => "Embedded Package Sync"@,
            },
    {
        match self {
            BuilderAction::Pack { .. } => "Bundled Package",
            BuilderAction::BuildTridXml { .. } => "Build Complete",
            BuilderAction::Inspect { .. } => "Package Summary",
            BuilderAction::InspectTridXml { .. } => "Transformation Preview",
            BuilderAction::Normalize { .. } => "Normalized Package",
            BuilderAction::Verify { .. } => "Verification",
            BuilderAction::SyncEmbedded { .. } => "Embedded Package Sync",
        }
    }
}

fn or_default(value: Option<String>, default: String) -> (r: String)
    ensures
        r@ == (match value {
            Some(v) => v@,
            None => default@,
        }),
{
    match value {
        Some(v) => v,
        None => default,
    }
}

/// The action a command asks for, its missing paths filled with the defaults: the
/// package file for outputs and package inputs, the TrID source for TrID inputs.
pub fn resolve_action(command: Command, paths: &BuilderPaths) -> (r: BuilderAction)
    ensures
        match command {
            Command::Pack { output } => r matches BuilderAction::Pack { output: o } && o@ == (match output {
                Some(v) => v@,
                None => spec_join(paths.output_dir@, "filedefs.rpkg"@),
            }),
            Command::BuildTridXml { input, output } => r matches BuilderAction::BuildTridXml {
                input: i,
                output: o,
            } && i@ == (match input {
                Some(v) => v@,
                None => spec_join(paths.package_dir@, "triddefs_xml.7z"@),
            }) && o@ == (match output {
                Some(v) => v@,
                None => spec_join(paths.output_dir@, "filedefs.rpkg"@),
            }),
            Command::Inspect { input } => r matches BuilderAction::Inspect { input: i } && i@ == (match input {
                Some(v) => v@,
                None => spec_join(paths.output_dir@, "filedefs.rpkg"@),
            }),
            Command::InspectTridXml { input } => r matches BuilderAction::InspectTridXml { input: i }
                && i@ == (match input {
                Some(v) => v@,
                None => spec_join(paths.package_dir@, "triddefs_xml.7z"@),
            }),
            Command::Normalize { input, output } => r matches BuilderAction::Normalize {
                input: i,
                output: o,
            } && i@ == (match input {
                Some(v) => v@,
                None => spec_join(paths.output_dir@, "filedefs.rpkg"@),
            }) && o@ == (match output {
                Some(v) => v@,
                None => spec_join(paths.output_dir@, "filedefs.rpkg"@),
            }),
            Command::Verify { left, right } => r matches BuilderAction::Verify { left: l, right: g }
                && l@ == left@ && g@ == right@,
        },
{
    match command {
        Command::Pack { output } => BuilderAction::Pack {
            output: or_default(output, paths.default_package_output_path()),
        },
        Command::BuildTridXml { input, output } => BuilderAction::BuildTridXml {
            input: or_default(input, paths.default_trid_input_path()),
            output: or_default(output, paths.default_package_output_path()),
        },
        Command::Inspect { input } => BuilderAction::Inspect {
            input: or_default(input, paths.default_package_output_path()),
        },
        Command::InspectTridXml { input } => BuilderAction::InspectTridXml {
            input: or_default(input, paths.default_trid_input_path()),
        },
        Command::Normalize { input, output } => BuilderAction::Normalize {
            input: or_default(input, paths.default_package_output_path()),
            output: or_default(output, paths.default_package_output_path()),
        },
        Command::Verify { left, right } => BuilderAction::Verify { left, right },
    }
}

/// An entry of the interactive menu.
#[derive(Debug, Clone, Copy, PartialEq, Eq, Structural)]
pub enum MenuAction {
    Pack,
    BuildTridXml,
    Inspect,
    InspectTridXml,
    Normalize,
    Verify,
    ViewLogs,
    Exit,
}

/// The menu entries in order.
pub const MENU_ITEMS: [MenuAction; 8] = [
    MenuAction::Pack,
    MenuAction::BuildTridXml,
    MenuAction::Inspect,
    MenuAction::InspectTridXml,
    MenuAction::Normalize,
    MenuAction::Verify,
    MenuAction::ViewLogs,
    MenuAction::Exit,
];

impl MenuAction {
    /// The entry's menu title.
    pub fn title(self) -> (r: &'static str)
        ensures
            r@ == match self {
                MenuAction::Pack => "Pack bundled runtime package"@,
                MenuAction::BuildTridXml => "Build reduced package from TrID XML"@,
                MenuAction::Inspect => "Inspect package"@,
                MenuAction::InspectTridXml => "Inspect TrID XML source"@,
                MenuAction::Normalize => "Normalize package"@,
                MenuAction::Verify => "Verify package equality"@,
                MenuAction::ViewLogs => "View logs"@,
                MenuAction::Exit => "Exit"@,
            },
    {
        match self {
            MenuAction::Pack => "Pack bundled runtime package",
            MenuAction::BuildTridXml => "Build reduced package from TrID XML",
            MenuAction::Inspect => "Inspect package",
            MenuAction::InspectTridXml => "Inspect TrID XML source",
            MenuAction::Normalize => "Normalize package",
            MenuAction::Verify => "Verify package equality",
            MenuAction::ViewLogs => "View logs",
            MenuAction::Exit => "Exit",
        }
    }

    /// The entry's subtitle; the log entry's depends on whether the log pane is shown.
    pub fn subtitle(self, logs_visible: bool) -> (r: &'static str)
        ensures
            r@ == match self {
                MenuAction::Pack => "Write bundled runtime package to output"@,
                MenuAction::BuildTridXml => "Use package/ as default source and output/filedefs.rpkg"@,
                MenuAction::Inspect => "Inspect the current package output"@,
                MenuAction::InspectTridXml => "Preview reductions without writing output"@,
                MenuAction::Normalize => "Decode and re-encode an existing package"@,
                MenuAction::Verify => "Compare two packages semantically"@,
                MenuAction::ViewLogs => if logs_visible {
                    "Hide the live log pane"@
                } else {
                    "Show the live log pane"@
                },
                MenuAction::Exit => "Leave the Rheo shell"@,
            },
    {
        match self {
            MenuAction::Pack => "Write bundled runtime package to output",
            MenuAction::BuildTridXml => "Use package/ as default source and output/filedefs.rpkg",
            MenuAction::Inspect => "Inspect the current package output",
            MenuAction::InspectTridXml => "Preview reductions without writing output",
            MenuAction::Normalize => "Decode and re-encode an existing package",
            MenuAction::Verify => "Compare two packages semantically",
            MenuAction::ViewLogs => if logs_visible {
                "Hide the live log pane"
            } else {
                "Show the live log pane"
            },
            MenuAction::Exit => "Leave the Rheo shell",
        }
    }

    /// The title of the entry's form.
    pub fn form_title(self) -> (r: &'static str)
        ensures
            r@ == match self {
                MenuAction::Pack => "Pack bundled runtime package"@,
                MenuAction::BuildTridXml => "Build reduced package"@,
                MenuAction::Inspect => "Inspect package"@,
                MenuAction::InspectTridXml => "Inspect TrID XML source"@,
                MenuAction::Normalize => "Normalize package"@,
                MenuAction::Verify => "Verify package equality"@,
                MenuAction::ViewLogs => "View logs"@,
                MenuAction::Exit => "Exit"@,
            },
    {
        match self {
            MenuAction::Pack => "Pack bundled runtime package",
            MenuAction::BuildTridXml => "Build reduced package",
            MenuAction::Inspect => "Inspect package",
            MenuAction::InspectTridXml => "Inspect TrID XML source",
            MenuAction::Normalize => "Normalize package",
            MenuAction::Verify => "Verify package equality",
            MenuAction::ViewLogs => "View logs",
            MenuAction::Exit => "Exit",
        }
    }
}

/// An editable field of a command form.
#[derive(Debug)]
pub struct FormField {
    pub label: &'static str,
    pub value: String,
    pub required: bool,
    pub help: &'static str,
}

/// A command form: the action, its fields, the selected field, and whether it is edited.
#[derive(Debug)]
pub struct FormState {
    pub action: MenuAction,
    pub fields: Vec<FormField>,
    pub selected: usize,
    pub editing: bool,
}

fn field(label: &'static str, value: String, required: bool, help: &'static str) -> (f: FormField)
    ensures
        f.label == label,
        f.value@ == value@,
        f.required == required,
        f.help == help,
{
    FormField { label, value, required, help }
}

/// A form field as values: its label, value, whether it is required, and its help text.
pub type FieldView = (Seq<char>, Seq<char>, bool, Seq<char>);

/// A form field as values.
pub open spec fn field_view(f: FormField) -> FieldView {
    (f.label@, f.value@, f.required, f.help@)
}

/// Form fields as values.
pub open spec fn form_fields_view(fields: Seq<FormField>) -> Seq<FieldView> {
    fields.map_values(|f: FormField| field_view(f))
}

/// The labels, default values and help texts of the fields of an action's form.
pub open spec fn form_defaults(action: MenuAction, paths: BuilderPaths) -> Seq<(Seq<char>, Seq<char>, Seq<char>)> {
    let trid = spec_join(paths.package_dir@, "triddefs_xml.7z"@);
    let package = spec_join(paths.output_dir@, "filedefs.rpkg"@);
    match action {
        MenuAction::Pack => seq![("Output"@, package, "Destination package file"@)],
        MenuAction::BuildTridXml => seq![
            ("Input"@, trid, "Source .7z, XML, or directory"@),
            ("Output"@, package, "Destination package file"@),
        ],
        MenuAction::Inspect => seq![("Input"@, package, "Package file to inspect"@)],
        MenuAction::InspectTridXml => seq![("Input"@, trid, "Source .7z, XML, or directory"@)],
        MenuAction::Normalize => seq![
            ("Input"@, package, "Package file to normalize"@),
            ("Output"@, package, "Destination package file"@),
        ],
        MenuAction::Verify => seq![
            ("Left"@, package, "First package file"@),
            ("Right"@, Seq::empty(), "Second package file"@),
        ],
        MenuAction::ViewLogs | MenuAction::Exit => Seq::empty(),
    }
}

/// The fields of a fresh form for an action: its defaults, all required.
pub open spec fn default_fields(action: MenuAction, paths: BuilderPaths) -> Seq<FieldView> {
    form_defaults(action, paths).map_values(
        |d: (Seq<char>, Seq<char>, Seq<char>)| (d.0, d.1, true, d.2),
    )
}

impl FormState {
    /// The form of an action, its fields filled with the default paths, all required, the
    /// first selected and none edited.
    pub fn new(action: MenuAction, paths: &BuilderPaths) -> (r: FormState)
        ensures
            r.action == action,
            r.selected == 0,
            !r.editing,
            form_fields_view(r.fields@) == default_fields(action, *paths),
    {
        let mut fields: Vec<FormField> = Vec::new();
        match action {
            MenuAction::Pack => {
                fields.push(field("Output", paths.default_package_output_path(), true, "Destination package file"));
            },
            MenuAction::BuildTridXml => {
                fields.push(field("Input", paths.default_trid_input_path(), true, "Source .7z, XML, or directory"));
                fields.push(field("Output", paths.default_package_output_path(), true, "Destination package file"));
            },
            MenuAction::Inspect => {
                fields.push(field("Input", paths.default_package_output_path(), true, "Package file to inspect"));
            },
            MenuAction::InspectTridXml => {
                fields.push(field("Input", paths.default_trid_input_path(), true, "Source .7z, XML, or directory"));
            },
            MenuAction::Normalize => {
                fields.push(field("Input", paths.default_package_output_path(), true, "Package file to normalize"));
                fields.push(field("Output", paths.default_package_output_path(), true, "Destination package file"));
            },
            MenuAction::Verify => {
                fields.push(field("Left", paths.default_package_output_path(), true, "First package file"));
                fields.push(field("Right", String::new(), true, "Second package file"));
            },
            MenuAction::ViewLogs | MenuAction::Exit => {},
        }
        let r = FormState { action, fields, selected: 0, editing: false };
        assert(form_fields_view(r.fields@) =~= default_fields(action, *paths));
        r
    }

    /// The action the form describes, with its field values trimmed; an error names the
    /// first required field left blank, or says that the entry launches no command.
    pub fn to_action(&self) -> (r: Result<BuilderAction, String>)
        ensures
            match spec_form_error(self.action, form_fields_view(self.fields@)) {
                Some(m) => r matches Err(e) && e@ == m,
                None => r matches Ok(a) && action_matches(a, self.action, self.fields@),
            },
    {
        let ghost fv = form_fields_view(self.fields@);
        for k in 0..self.fields.len()
            invariant
                forall|j: int| 0 <= j < k ==> !(#[trigger] self.fields@[j]).required || spec_trim(
                    self.fields@[j].value@,
                ).len() > 0,
                fv == form_fields_view(self.fields@),
                first_blank_from(fv, 0) == first_blank_from(fv, k as int),
        {
            let f = &self.fields[k];
            assert(fv[k as int] == field_view(*f));
            let trimmed = trim_whitespace(chars_of(f.value.as_str()).as_slice());
            if f.required && trimmed.len() == 0 {
                let mut out: Vec<char> = Vec::new();
                push_str(&mut out, f.label);
                push_str(&mut out, " is required.");
                return Err(string_from_chars(out.as_slice()));
            }
        }
        proof {
            assert(first_blank_from(fv, fv.len() as int) == -1);
        }
        let n = self.fields.len();
        let not_a_command = "This menu item does not launch a command.".to_owned();
        match self.action {
            MenuAction::Pack => {
                if n < 1 {
                    return Err(not_a_command);
                }
                Ok(BuilderAction::Pack { output: trimmed_value(&self.fields[0]) })
            },
            MenuAction::BuildTridXml => {
                if n < 2 {
                    return Err(not_a_command);
                }
                Ok(BuilderAction::BuildTridXml {
                    input: trimmed_value(&self.fields[0]),
                    output: trimmed_value(&self.fields[1]),
                })
            },
            MenuAction::Inspect => {
                if n < 1 {
                    return Err(not_a_command);
                }
                Ok(BuilderAction::Inspect { input: trimmed_value(&self.fields[0]) })
            },
            MenuAction::InspectTridXml => {
                if n < 1 {
                    return Err(not_a_command);
                }
                Ok(BuilderAction::InspectTridXml { input: trimmed_value(&self.fields[0]) })
            },
            MenuAction::Normalize => {
                if n < 2 {
                    return Err(not_a_command);
                }
                Ok(BuilderAction::Normalize {
                    input: trimmed_value(&self.fields[0]),
                    output: trimmed_value(&self.fields[1]),
                })
            },
            MenuAction::Verify => {
                if n < 2 {
                    return Err(not_a_command);
                }
                Ok(BuilderAction::Verify {
                    left: trimmed_value(&self.fields[0]),
                    right: trimmed_value(&self.fields[1]),
                })
            },
            MenuAction::ViewLogs | MenuAction::Exit => Err(not_a_command),
        }
    }
}

/// Index of the first required field at or after `i` whose trimmed value is empty, or -1.
pub open spec fn first_blank_from(fields: Seq<FieldView>, i: int) -> int
    decreases fields.len() - i,
{
    if i < 0 || i >= fields.len() {
        -1
    } else if fields[i].2 && spec_trim(fields[i].1).len() == 0 {
        i
    } else {
        first_blank_from(fields, i + 1)
    }
}

/// Why a form launches no command: the first required field left blank, else an entry
/// that launches no command (or a form missing the fields its action reads); `None` when
/// it launches one.
pub open spec fn spec_form_error(action: MenuAction, fields: Seq<FieldView>) -> Option<Seq<char>> {
    let b = first_blank_from(fields, 0);
    if b >= 0 {
        Some(fields[b].0 + " is required."@)
    } else if action == MenuAction::ViewLogs || action == MenuAction::Exit || fields.len()
        < required_fields(action) {
        Some("This menu item does not launch a command."@)
    } else {
        None
    }
}

/// How many fields an action's form reads.
pub open spec fn required_fields(action: MenuAction) -> nat {
    match action {
        MenuAction::Pack | MenuAction::Inspect | MenuAction::InspectTridXml => 1,
        MenuAction::BuildTridXml | MenuAction::Normalize | MenuAction::Verify => 2,
        MenuAction::ViewLogs | MenuAction::Exit => 0,
    }
}

/// Whether `a` is the command of `action` with the trimmed values of `fields`.
pub open spec fn action_matches(a: BuilderAction, action: MenuAction, fields: Seq<FormField>) -> bool {
    match action {
        MenuAction::Pack => a matches BuilderAction::Pack { output } && output@ == spec_trim(fields[0].value@),
        MenuAction::BuildTridXml => a matches BuilderAction::BuildTridXml { input, output } && input@
            == spec_trim(fields[0].value@) && output@ == spec_trim(fields[1].value@),
        MenuAction::Inspect => a matches BuilderAction::Inspect { input } && input@ == spec_trim(
            fields[0].value@,
        ),
        MenuAction::InspectTridXml => a matches BuilderAction::InspectTridXml { input } && input@
            == spec_trim(fields[0].value@),
        MenuAction::Normalize => a matches BuilderAction::Normalize { input, output } && input@
            == spec_trim(fields[0].value@) && output@ == spec_trim(fields[1].value@),
        MenuAction::Verify => a matches BuilderAction::Verify { left, right } && left@ == spec_trim(
            fields[0].value@,
        ) && right@ == spec_trim(fields[1].value@),
        MenuAction::ViewLogs | MenuAction::Exit => false,
    }
}

fn trimmed_value(f: &FormField) -> (r: String)
    ensures
        r@ == spec_trim(f.value@),
{
    let t = trim_whitespace(chars_of(f.value.as_str()).as_slice());
    string_from_chars(t.as_slice())
}

} // verus!

//! The interactive shell of the definition builder as a state machine: which screen is
//! shown, what each key does there, and what a finished command leaves on screen. The
//! terminal drawing, the key source and the command runner drive it from outside.
use vstd::prelude::*;

use crate::report::{CommandReport, ReportStatus, fields_view};
use crate::shell::{
    action_matches, default_fields, form_fields_view, spec_form_error, BuilderAction, BuilderPaths,
    FieldView, FormState, MenuAction, MENU_ITEMS,
};
use crate::mime::{lemma_split_lines_nonempty, spec_split_lines};
use crate::repo::split_lines;
use crate::text::{chars_of, copy_chars, push_str, string_from_chars};

verus! {

/// The key a key event is about.
#[derive(Debug, Clone, Copy, PartialEq, Eq, Structural)]
pub enum KeyCode {
    Up,
    Down,
    Enter,
    Esc,
    Backspace,
    Char(char),
    F(u8),
    Other,
}

/// Whether a key was pressed, repeated or released.
#[derive(Debug, Clone, Copy, PartialEq, Eq, Structural)]
pub enum KeyEventKind {
    Press,
    Repeat,
    Release,
}

/// The modifier keys held during a key event.
#[derive(Debug, Clone, Copy, PartialEq, Eq, Structural)]
pub struct KeyModifiers {
    pub control: bool,
    pub alt: bool,
}

impl KeyModifiers {
    /// No modifier held.
    pub fn none() -> (r: KeyModifiers)
        ensures
            !r.control && !r.alt,
    {
        KeyModifiers { control: false, alt: false }
    }

    /// Control held.
    pub fn control() -> (r: KeyModifiers)
        ensures
            r.control && !r.alt,
    {
        KeyModifiers { control: true, alt: false }
    }
}

/// A key event.
#[derive(Debug, Clone, Copy, PartialEq, Eq, Structural)]
pub struct KeyEvent {
    pub code: KeyCode,
    pub modifiers: KeyModifiers,
    pub kind: KeyEventKind,
}

impl KeyEvent {
    /// A key press.
    pub fn new(code: KeyCode, modifiers: KeyModifiers) -> (r: KeyEvent)
        ensures
            r.code == code,
            r.modifiers == modifiers,
            r.kind == KeyEventKind::Press,
    {
        KeyEvent { code, modifiers, kind: KeyEventKind::Press }
    }
}

/// Whether a key leaves the shell from any screen: Ctrl+C.
pub open spec fn spec_is_exit_key(key: KeyEvent) -> bool {
    key.code == KeyCode::Char('c') && key.modifiers.control
}

/// Whether a key leaves the shell from any screen: Ctrl+C.
pub fn is_exit_key(key: KeyEvent) -> (r: bool)
    ensures
        r == spec_is_exit_key(key),
{
    match key.code {
        KeyCode::Char(c) => c == 'c' && key.modifiers.control,
        _ => false,
    }
}

/// Whether a key event is acted on: presses and repeats are, releases are not.
pub fn is_actionable_key(key: KeyEvent) -> (r: bool)
    ensures
        r == (key.kind != KeyEventKind::Release),
{
    match key.kind {
        KeyEventKind::Release => false,
        _ => true,
    }
}

/// The screen shown while a command runs.
#[derive(Debug)]
pub struct RunningScreen {
    pub title: String,
}

/// The screen that shows how a command ended.
#[derive(Debug)]
pub struct ResultScreen {
    pub title: String,
    pub status: ReportStatus,
    pub lines: Vec<String>,
}

/// The closing line of a result screen.
pub open spec fn return_hint() -> Seq<char> {
    "Press Enter to return to the main menu."@
}

/// `s` padded with spaces on the right to `width` characters.
pub open spec fn pad_right(s: Seq<char>, width: nat) -> Seq<char> {
    if s.len() >= width {
        s
    } else {
        s + Seq::new((width - s.len()) as nat, |i: int| ' ')
    }
}

/// A report line: the label padded to twenty characters, a space, and the value.
pub open spec fn report_line(field: (Seq<char>, Seq<char>)) -> Seq<char> {
    pad_right(field.0, 20) + " "@ + field.1
}

/// The lines of the result screen of a report.
pub open spec fn report_lines(fields: Seq<(Seq<char>, Seq<char>)>) -> Seq<Seq<char>> {
    seq![Seq::empty()] + fields.map_values(|f: (Seq<char>, Seq<char>)| report_line(f)) + seq![
        Seq::empty(),
        return_hint(),
    ]
}

/// The lines of the result screen of an error.
pub open spec fn error_lines(error: Seq<char>) -> Seq<Seq<char>> {
    seq![Seq::empty(), error, Seq::empty(), return_hint()]
}

fn report_line_text(label: &str, value: &str) -> (r: String)
    ensures
        r@ == report_line((label@, value@)),
{
    let mut out: Vec<char> = Vec::new();
    push_str(&mut out, label);
    let n = out.len();
    if n < 20 {
        let mut i: usize = n;
        while i < 20
            invariant
                n <= i <= 20,
                n == label@.len(),
                out@ == label@ + Seq::new((i - n) as nat, |j: int| ' '),
            decreases 20 - i,
        {
            out.push(' ');
            i = i + 1;
            assert(out@ =~= label@ + Seq::new((i - n) as nat, |j: int| ' '));
        }
    }
    push_str(&mut out, " ");
    push_str(&mut out, value);
    proof {
        reveal_strlit(" ");
        assert(out@ =~= pad_right(label@, 20) + " "@ + value@);
    }
    string_from_chars(out.as_slice())
}

fn empty_string() -> (r: String)
    ensures
        r@ == Seq::<char>::empty(),
{
    String::new()
}

impl ResultScreen {
    /// The result screen of a finished command's report.
    pub fn from_report(report: CommandReport) -> (r: ResultScreen)
        ensures
            r.title@ == report.title@,
            r.status == report.status,
            r.lines@.map_values(|l: String| l@) == report_lines(fields_view(report.fields@)),
    {
        let mut lines: Vec<String> = Vec::new();
        lines.push(empty_string());
        let mut i: usize = 0;
        while i < report.fields.len()
            invariant
                i <= report.fields@.len(),
                lines@.map_values(|l: String| l@) == seq![Seq::<char>::empty()] + fields_view(
                    report.fields@,
                ).take(i as int).map_values(|f: (Seq<char>, Seq<char>)| report_line(f)),
            decreases report.fields@.len() - i,
        {
            let line = report_line_text(report.fields[i].label.as_str(), report.fields[i].value.as_str());
            let ghost prev = lines@;
            assert(fields_view(report.fields@)[i as int] == (report.fields@[i as int].label@, report.fields@[i as int].value@));
            lines.push(line);
            assert(lines@ == prev.push(line));
            assert(lines@.map_values(|l: String| l@) =~= prev.map_values(|l: String| l@).push(line@));
            i = i + 1;
            assert(fields_view(report.fields@).take(i as int) =~= fields_view(report.fields@).take(
                i - 1,
            ).push(fields_view(report.fields@)[i - 1]));
            assert(lines@.map_values(|l: String| l@) =~= seq![Seq::<char>::empty()] + fields_view(
                report.fields@,
            ).take(i as int).map_values(|f: (Seq<char>, Seq<char>)| report_line(f)));
        }
        assert(fields_view(report.fields@).take(i as int) =~= fields_view(report.fields@));
        lines.push(empty_string());
        lines.push("Press Enter to return to the main menu.".to_owned());
        let r = ResultScreen { title: report.title, status: report.status, lines };
        assert(r.lines@.map_values(|l: String| l@) =~= report_lines(fields_view(report.fields@)));
        r
    }

    /// The result screen of a command that failed with `error`.
    pub fn from_error(error: String) -> (r: ResultScreen)
        ensures
            r.title@ == "Command Failed"@,
            r.status == ReportStatus::Warning,
            r.lines@.map_values(|l: String| l@) == error_lines(error@),
    {
        let ghost e = error@;
        let mut lines: Vec<String> = Vec::new();
        lines.push(empty_string());
        lines.push(error);
        lines.push(empty_string());
        lines.push("Press Enter to return to the main menu.".to_owned());
        let r = ResultScreen { title: "Command Failed".to_owned(), status: ReportStatus::Warning, lines };
        assert(r.lines@.map_values(|l: String| l@) =~= error_lines(e));
        r
    }
}

impl ResultScreen {
    /// The lines the screen shows.
    pub fn lines(&self) -> (r: Vec<String>)
        ensures
            r@.map_values(|l: String| l@) == self.lines@.map_values(|l: String| l@),
    {
        let mut out: Vec<String> = Vec::new();
        let mut i: usize = 0;
        while i < self.lines.len()
            invariant
                i <= self.lines@.len(),
                out@.map_values(|l: String| l@) == self.lines@.take(i as int).map_values(|l: String| l@),
            decreases self.lines@.len() - i,
        {
            let line = string_from_chars(chars_of(self.lines[i].as_str()).as_slice());
            let ghost prev = out@;
            out.push(line);
            assert(out@.map_values(|l: String| l@) =~= prev.map_values(|l: String| l@).push(line@));
            i = i + 1;
            assert(self.lines@.take(i as int).map_values(|l: String| l@) =~= self.lines@.take(
                i - 1,
            ).map_values(|l: String| l@).push(self.lines@[i - 1]@));
        }
        assert(self.lines@.take(i as int) =~= self.lines@);
        out
    }
}

/// What the shell shows.
#[derive(Debug)]
pub enum Screen {
    Menu,
    Form(FormState),
    Running(RunningScreen),
    Result(ResultScreen),
}

impl Screen {
    /// The screen's heading.
    pub fn title(&self) -> (r: &'static str)
        ensures
            r@ == match self {
                Screen::Menu => "Main Menu"@,
                Screen::Form(_) => "Configure Command"@,
                Screen::Running(_) => "Running Command"@,
                Screen::Result(_) => "Results"@,
            },
    {
        match self {
            Screen::Menu => "Main Menu",
            Screen::Form(_) => "Configure Command",
            Screen::Running(_) => "Running Command",
            Screen::Result(_) => "Results",
        }
    }

    /// The name of the shell's mode on this screen, as the status bar shows it.
    pub fn mode_name(&self) -> (r: &'static str)
        ensures
            r@ == match self {
                Screen::Menu => "Shell"@,
                Screen::Form(_) => "Configure"@,
                Screen::Running(_) => "Working"@,
                Screen::Result(_) => "Results"@,
            },
    {
        match self {
            Screen::Menu => "Shell",
            Screen::Form(_) => "Configure",
            Screen::Running(_) => "Working",
            Screen::Result(_) => "Results",
        }
    }
}

/// A screen as values.
pub enum ScreenView {
    Menu,
    Form { action: MenuAction, fields: Seq<FieldView>, selected: int, editing: bool },
    Running { title: Seq<char> },
    Result { title: Seq<char>, status: ReportStatus, lines: Seq<Seq<char>> },
}

/// A screen as values.
pub open spec fn screen_view(s: Screen) -> ScreenView {
    match s {
        Screen::Menu => ScreenView::Menu,
        Screen::Form(f) => ScreenView::Form {
            action: f.action,
            fields: form_fields_view(f.fields@),
            selected: f.selected as int,
            editing: f.editing,
        },
        Screen::Running(r) => ScreenView::Running { title: r.title@ },
        Screen::Result(r) => ScreenView::Result {
            title: r.title@,
            status: r.status,
            lines: r.lines@.map_values(|l: String| l@),
        },
    }
}

/// The interactive shell's state.
#[derive(Debug)]
pub struct ShellApp {
    pub paths: BuilderPaths,
    pub log_path: String,
    pub screen: Screen,
    pub menu_index: usize,
    pub show_logs: bool,
    pub log_lines: Vec<String>,
    pub tick: usize,
    pub should_exit: bool,
}

/// The part of the shell's state that keys change, as values.
pub struct ShellView {
    pub screen: ScreenView,
    pub menu_index: int,
    pub show_logs: bool,
    pub should_exit: bool,
}

/// The shell's key-driven state as values.
pub open spec fn shell_view(app: ShellApp) -> ShellView {
    ShellView {
        screen: screen_view(app.screen),
        menu_index: app.menu_index as int,
        show_logs: app.show_logs,
        should_exit: app.should_exit,
    }
}

/// The number of menu entries.
pub open spec fn menu_len() -> int {
    8
}

/// The menu entry at `i`.
pub open spec fn menu_item(i: int) -> MenuAction {
    if i == 0 {
        MenuAction::Pack
    } else if i == 1 {
        MenuAction::BuildTridXml
    } else if i == 2 {
        MenuAction::Inspect
    } else if i == 3 {
        MenuAction::InspectTridXml
    } else if i == 4 {
        MenuAction::Normalize
    } else if i == 5 {
        MenuAction::Verify
    } else if i == 6 {
        MenuAction::ViewLogs
    } else {
        MenuAction::Exit
    }
}

/// Whether a key toggles the log pane.
pub open spec fn is_log_key(code: KeyCode) -> bool {
    code == KeyCode::Char('l') || code == KeyCode::Char('L')
}

/// Whether a key runs the form's command.
pub open spec fn is_run_key(code: KeyCode) -> bool {
    code == KeyCode::Char('r') || code == KeyCode::Char('R') || code == KeyCode::F(5)
}

/// The title of the command a form's action runs.
pub open spec fn command_title(action: MenuAction) -> Seq<char> {
    match action {
        MenuAction::Pack => "Bundled Package"@,
        MenuAction::BuildTridXml => "Build Complete"@,
        MenuAction::Inspect => "Package Summary"@,
        MenuAction::InspectTridXml => "Transformation Preview"@,
        MenuAction::Normalize => "Normalized Package"@,
        MenuAction::Verify => "Verification"@,
        MenuAction::ViewLogs | MenuAction::Exit => Seq::empty(),
    }
}

/// `v` with the log pane toggled.
pub open spec fn toggled(v: ShellView) -> ShellView {
    ShellView { show_logs: !v.show_logs, ..v }
}

/// What a key does on the menu.
pub open spec fn menu_step(v: ShellView, code: KeyCode, paths: BuilderPaths) -> ShellView {
    match code {
        KeyCode::Up => ShellView { menu_index: if v.menu_index > 0 { v.menu_index - 1 } else { 0 }, ..v },
        KeyCode::Down => ShellView {
            menu_index: if v.menu_index + 1 < menu_len() { v.menu_index + 1 } else { menu_len() - 1 },
            ..v
        },
        KeyCode::Enter => {
            let item = menu_item(v.menu_index);
            if item == MenuAction::ViewLogs {
                toggled(v)
            } else if item == MenuAction::Exit {
                ShellView { should_exit: true, ..v }
            } else {
                ShellView {
                    screen: ScreenView::Form {
                        action: item,
                        fields: default_fields(item, paths),
                        selected: 0,
                        editing: false,
                    },
                    ..v
                }
            }
        },
        KeyCode::Esc => ShellView { should_exit: true, ..v },
        _ => if is_log_key(code) {
            toggled(v)
        } else {
            v
        },
    }
}

/// A field's value with `c` appended.
pub open spec fn with_value(f: FieldView, value: Seq<char>) -> FieldView {
    (f.0, value, f.2, f.3)
}

/// What a key does on a form whose selected field is being edited.
pub open spec fn editing_step(
    v: ShellView,
    key: KeyEvent,
    action: MenuAction,
    fields: Seq<FieldView>,
    selected: int,
) -> ShellView {
    let f = fields[selected];
    match key.code {
        KeyCode::Enter | KeyCode::Esc => ShellView {
            screen: ScreenView::Form { action, fields, selected, editing: false },
            ..v
        },
        KeyCode::Backspace => ShellView {
            screen: ScreenView::Form {
                action,
                fields: fields.update(
                    selected,
                    with_value(f, if f.1.len() > 0 { f.1.drop_last() } else { f.1 }),
                ),
                selected,
                editing: true,
            },
            ..v
        },
        KeyCode::Char(c) => if !key.modifiers.control && !key.modifiers.alt {
            ShellView {
                screen: ScreenView::Form {
                    action,
                    fields: fields.update(selected, with_value(f, f.1.push(c))),
                    selected,
                    editing: true,
                },
                ..v
            }
        } else {
            v
        },
        _ => v,
    }
}

/// What a key does on a form that is not being edited.
pub open spec fn form_step(
    v: ShellView,
    code: KeyCode,
    action: MenuAction,
    fields: Seq<FieldView>,
    selected: int,
) -> ShellView {
    match code {
        KeyCode::Up => ShellView {
            screen: ScreenView::Form {
                action,
                fields,
                selected: if selected > 0 { selected - 1 } else { 0 },
                editing: false,
            },
            ..v
        },
        KeyCode::Down => ShellView {
            screen: ScreenView::Form {
                action,
                fields,
                selected: if selected + 1 < fields.len() { selected + 1 } else { fields.len() - 1 },
                editing: false,
            },
            ..v
        },
        KeyCode::Enter => ShellView {
            screen: ScreenView::Form { action, fields, selected, editing: true },
            ..v
        },
        KeyCode::Esc => ShellView { screen: ScreenView::Menu, ..v },
        _ => if is_run_key(code) {
            match spec_form_error(action, fields) {
                Some(m) => ShellView {
                    screen: ScreenView::Result {
                        title: "Command Failed"@,
                        status: ReportStatus::Warning,
                        lines: error_lines(m),
                    },
                    ..v
                },
                None => ShellView { screen: ScreenView::Running { title: command_title(action) }, ..v },
            }
        } else if is_log_key(code) {
            toggled(v)
        } else {
            v
        },
    }
}

/// What a key does to the shell.
pub open spec fn spec_step(v: ShellView, key: KeyEvent, paths: BuilderPaths) -> ShellView {
    if spec_is_exit_key(key) {
        ShellView { should_exit: true, ..v }
    } else {
        match v.screen {
            ScreenView::Menu => menu_step(v, key.code, paths),
            ScreenView::Form { action, fields, selected, editing } => if editing {
                editing_step(v, key, action, fields, selected)
            } else {
                form_step(v, key.code, action, fields, selected)
            },
            ScreenView::Running { .. } => if is_log_key(key.code) {
                toggled(v)
            } else {
                v
            },
            ScreenView::Result { .. } => match key.code {
                KeyCode::Enter | KeyCode::Esc => ShellView { screen: ScreenView::Menu, ..v },
                _ => if is_log_key(key.code) {
                    toggled(v)
                } else {
                    v
                },
            },
        }
    }
}

/// Whether a key starts the command of the form on screen.
pub open spec fn starts_command(app: ShellApp, key: KeyEvent) -> bool {
    &&& !spec_is_exit_key(key)
    &&& app.screen is Form
    &&& !app.screen->Form_0.editing
    &&& is_run_key(key.code)
    &&& spec_form_error(app.screen->Form_0.action, form_fields_view(app.screen->Form_0.fields@)) is None
}

impl ShellApp {
    /// The shell's consistency: the menu cursor is on an entry, and a form on screen is one
    /// of a command, with its fields and a selected field among them.
    pub open spec fn wf(&self) -> bool {
        &&& self.menu_index < 8
        &&& self.screen matches Screen::Form(f) ==> {
            &&& f.action != MenuAction::ViewLogs
            &&& f.action != MenuAction::Exit
            &&& f.fields.len() >= 1
            &&& f.selected < f.fields.len()
        }
    }

    /// A shell on the main menu, logs hidden.
    pub fn new(paths: BuilderPaths, log_path: String) -> (r: ShellApp)
        ensures
            r.wf(),
            r.paths == paths,
            r.log_path@ == log_path@,
            r.screen is Menu,
            r.menu_index == 0,
            !r.show_logs,
            r.log_lines@.len() == 0,
            r.tick == 0,
            !r.should_exit,
    {
        ShellApp {
            paths,
            log_path,
            screen: Screen::Menu,
            menu_index: 0,
            show_logs: false,
            log_lines: Vec::new(),
            tick: 0,
            should_exit: false,
        }
    }

    /// Advances the animation counter, wrapping at the largest value.
    pub fn tick(&mut self)
        ensures
            final(self).tick == (if old(self).tick == usize::MAX { 0 } else { old(self).tick + 1 }),
            shell_view(*final(self)) == shell_view(*old(self)),
            final(self).paths == old(self).paths,
            final(self).log_path == old(self).log_path,
            final(self).log_lines == old(self).log_lines,
            final(self).wf() == old(self).wf(),
    {
        self.tick = if self.tick == usize::MAX { 0 } else { self.tick + 1 };
    }

    /// Acts on a key. Ctrl+C leaves from anywhere; on the menu the arrows move, Enter opens
    /// the entry's form (or toggles logs, or leaves), Esc leaves; on a form the arrows move
    /// between fields, Enter edits one (typing, Backspace, and Enter or Esc to stop), `r`
    /// or F5 runs the command and Esc goes back; a result goes back on Enter or Esc; `l`
    /// toggles the log pane. When the key starts a command, the command is returned and
    /// the running screen shown; the caller runs it and calls `finish`.
    pub fn handle_key(&mut self, key: KeyEvent) -> (r: Option<BuilderAction>)
        requires
            old(self).wf(),
        ensures
            final(self).wf(),
            shell_view(*final(self)) == spec_step(shell_view(*old(self)), key, old(self).paths),
            final(self).paths == old(self).paths,
            final(self).log_path == old(self).log_path,
            final(self).log_lines == old(self).log_lines,
            final(self).tick == old(self).tick,
            r is Some <==> starts_command(*old(self), key),
            r matches Some(a) ==> action_matches(
                a,
                old(self).screen->Form_0.action,
                old(self).screen->Form_0.fields@,
            ),
    {
        if is_exit_key(key) {
            self.should_exit = true;
            return None;
        }
        let ghost v = shell_view(*self);
        let mut screen = Screen::Menu;
        std::mem::swap(&mut screen, &mut self.screen);
        assert(screen_view(screen) == v.screen);
        match screen {
            Screen::Menu => {
                self.handle_menu_key(key.code);
                None
            },
            Screen::Form(form) => self.handle_form_key(form, key),
            Screen::Running(running) => {
                self.screen = Screen::Running(running);
                if is_log(key.code) {
                    self.show_logs = !self.show_logs;
                }
                None
            },
            Screen::Result(result) => {
                match key.code {
                    KeyCode::Enter | KeyCode::Esc => {},
                    _ => {
                        self.screen = Screen::Result(result);
                        if is_log(key.code) {
                            self.show_logs = !self.show_logs;
                        }
                    },
                }
                None
            },
        }
    }

    fn handle_menu_key(&mut self, code: KeyCode)
        requires
            old(self).menu_index < 8,
            old(self).screen is Menu,
        ensures
            final(self).wf(),
            shell_view(*final(self)) == menu_step(shell_view(*old(self)), code, old(self).paths),
            final(self).paths == old(self).paths,
            final(self).log_path == old(self).log_path,
            final(self).log_lines == old(self).log_lines,
            final(self).tick == old(self).tick,
    {
        match code {
            KeyCode::Up => {
                if self.menu_index > 0 {
                    self.menu_index = self.menu_index - 1;
                }
            },
            KeyCode::Down => {
                if self.menu_index + 1 < 8 {
                    self.menu_index = self.menu_index + 1;
                }
            },
            KeyCode::Enter => {
                let item = MENU_ITEMS[self.menu_index];
                assert(item == menu_item(self.menu_index as int));
                match item {
                    MenuAction::ViewLogs => {
                        self.show_logs = !self.show_logs;
                    },
                    MenuAction::Exit => {
                        self.should_exit = true;
                    },
                    _ => {
                        let form = FormState::new(item, &self.paths);
                        assert(form.fields@.len() == form_fields_view(form.fields@).len());
                        assert(default_fields(item, self.paths).len() >= 1);
                        self.screen = Screen::Form(form);
                    },
                }
            },
            KeyCode::Esc => {
                self.should_exit = true;
            },
            _ => {
                if is_log(code) {
                    self.show_logs = !self.show_logs;
                }
            },
        }
    }

    fn handle_form_key(&mut self, form: FormState, key: KeyEvent) -> (r: Option<BuilderAction>)
        requires
            old(self).menu_index < 8,
            form.action != MenuAction::ViewLogs,
            form.action != MenuAction::Exit,
            form.fields.len() >= 1,
            form.selected < form.fields.len(),
            !spec_is_exit_key(key),
        ensures
            final(self).wf(),
            shell_view(*final(self)) == spec_step(
                ShellView { screen: screen_view(Screen::Form(form)), ..shell_view(*old(self)) },
                key,
                old(self).paths,
            ),
            final(self).paths == old(self).paths,
            final(self).log_path == old(self).log_path,
            final(self).log_lines == old(self).log_lines,
            final(self).tick == old(self).tick,
            r is Some <==> (!form.editing && is_run_key(key.code) && spec_form_error(
                form.action,
                form_fields_view(form.fields@),
            ) is None),
            r matches Some(a) ==> action_matches(a, form.action, form.fields@),
    {
        let mut form = form;
        if form.editing {
            match key.code {
                KeyCode::Enter | KeyCode::Esc => {
                    form.editing = false;
                },
                KeyCode::Backspace => {
                    let sel = form.selected;
                    let cs = chars_of(form.fields[sel].value.as_str());
                    let mut kept: Vec<char> = Vec::new();
                    let n = cs.len();
                    let keep = if n > 0 { n - 1 } else { 0 };
                    let mut i: usize = 0;
                    while i < keep
                        invariant
                            i <= keep <= n == cs@.len(),
                            kept@ == cs@.take(i as int),
                        decreases keep - i,
                    {
                        kept.push(cs[i]);
                        i = i + 1;
                        assert(kept@ =~= cs@.take(i as int));
                    }
                    let new_value = string_from_chars(kept.as_slice());
                    proof {
                        if n > 0 {
                            assert(cs@.take(keep as int) =~= cs@.drop_last());
                        } else {
                            assert(cs@.take(0) =~= cs@);
                        }
                    }
                    set_field_value(&mut form.fields, sel, new_value);
                },
                KeyCode::Char(c) => {
                    if !key.modifiers.control && !key.modifiers.alt {
                        let sel = form.selected;
                        let mut cs = chars_of(form.fields[sel].value.as_str());
                        cs.push(c);
                        let new_value = string_from_chars(cs.as_slice());
                        set_field_value(&mut form.fields, sel, new_value);
                    }
                },
                _ => {},
            }
            self.screen = Screen::Form(form);
            return None;
        }
        match key.code {
            KeyCode::Up => {
                if form.selected > 0 {
                    form.selected = form.selected - 1;
                }
                self.screen = Screen::Form(form);
                None
            },
            KeyCode::Down => {
                if form.selected + 1 < form.fields.len() {
                    form.selected = form.selected + 1;
                }
                self.screen = Screen::Form(form);
                None
            },
            KeyCode::Enter => {
                form.editing = true;
                self.screen = Screen::Form(form);
                None
            },
            KeyCode::Esc => {
                self.screen = Screen::Menu;
                None
            },
            _ => {
                if is_run(key.code) {
                    match form.to_action() {
                        Ok(action) => {
                            let title = action.title().to_owned();
                            proof {
                                assert(title@ == command_title(form.action));
                            }
                            self.screen = Screen::Running(RunningScreen { title });
                            Some(action)
                        },
                        Err(error) => {
                            self.screen = Screen::Result(ResultScreen::from_error(error));
                            None
                        },
                    }
                } else {
                    if is_log(key.code) {
                        self.show_logs = !self.show_logs;
                    }
                    self.screen = Screen::Form(form);
                    None
                }
            },
        }
    }

    /// Shows how the running command ended: its report, or its error. Another screen is
    /// left as it is.
    pub fn finish(&mut self, result: Result<CommandReport, String>)
        requires
            old(self).wf(),
        ensures
            final(self).wf(),
            old(self).screen is Running ==> match result {
                Ok(report) => screen_view(final(self).screen) == (ScreenView::Result {
                    title: report.title@,
                    status: report.status,
                    lines: report_lines(fields_view(report.fields@)),
                }),
                Err(e) => screen_view(final(self).screen) == (ScreenView::Result {
                    title: "Command Failed"@,
                    status: ReportStatus::Warning,
                    lines: error_lines(e@),
                }),
            },
            !(old(self).screen is Running) ==> shell_view(*final(self)) == shell_view(*old(self)),
            final(self).menu_index == old(self).menu_index,
            final(self).show_logs == old(self).show_logs,
            final(self).should_exit == old(self).should_exit,
            final(self).paths == old(self).paths,
            final(self).log_path == old(self).log_path,
            final(self).log_lines == old(self).log_lines,
            final(self).tick == old(self).tick,
    {
        let running = match &self.screen {
            Screen::Running(_) => true,
            _ => false,
        };
        if running {
            self.screen = match result {
                Ok(report) => Screen::Result(ResultScreen::from_report(report)),
                Err(error) => Screen::Result(ResultScreen::from_error(error)),
            };
        }
    }
}

/// Ctrl+C leaves the shell from every screen, and changes nothing else.
pub proof fn lemma_exit_key_leaves(v: ShellView, key: KeyEvent, paths: BuilderPaths)
    requires
        spec_is_exit_key(key),
    ensures
        spec_step(v, key, paths).should_exit,
        spec_step(v, key, paths).screen == v.screen,
        spec_step(v, key, paths).menu_index == v.menu_index,
        spec_step(v, key, paths).show_logs == v.show_logs,
{
}

/// `l` toggles the log pane and keeps the screen, on every screen but a field being edited
/// (where it is typed).
pub proof fn lemma_log_key_keeps_screen(v: ShellView, key: KeyEvent, paths: BuilderPaths)
    requires
        key.code == KeyCode::Char('l') || key.code == KeyCode::Char('L'),
        !(v.screen matches ScreenView::Form { editing, .. } && editing),
    ensures
        spec_step(v, key, paths).show_logs == !v.show_logs,
        spec_step(v, key, paths).screen == v.screen,
        spec_step(v, key, paths).should_exit == v.should_exit,
        spec_step(v, key, paths).menu_index == v.menu_index,
{
}

fn is_log(code: KeyCode) -> (r: bool)
    ensures
        r == is_log_key(code),
{
    match code {
        KeyCode::Char(c) => c == 'l' || c == 'L',
        _ => false,
    }
}

fn is_run(code: KeyCode) -> (r: bool)
    ensures
        r == is_run_key(code),
{
    match code {
        KeyCode::Char(c) => c == 'r' || c == 'R',
        KeyCode::F(n) => n == 5,
        _ => false,
    }
}

fn set_field_value(fields: &mut Vec<crate::shell::FormField>, i: usize, value: String)
    requires
        i < old(fields)@.len(),
    ensures
        final(fields)@.len() == old(fields)@.len(),
        form_fields_view(final(fields)@) == form_fields_view(old(fields)@).update(
            i as int,
            (old(fields)@[i as int].label@, value@, old(fields)@[i as int].required, old(fields)@[i as int].help@),
        ),
{
    let label = fields[i].label;
    let required = fields[i].required;
    let help = fields[i].help;
    fields.set(i, crate::shell::FormField { label, value, required, help });
    assert(form_fields_view(fields@) =~= form_fields_view(old(fields)@).update(
        i as int,
        (old(fields)@[i as int].label@, value@, old(fields)@[i as int].required, old(fields)@[i as int].help@),
    ));
}

/// A line as `str::lines` gives it: a line that ended in a line feed loses one carriage
/// return before it.
pub open spec fn strip_cr(l: Seq<char>) -> Seq<char> {
    if l.len() > 0 && l.last() == '\r' {
        l.drop_last()
    } else {
        l
    }
}

/// The lines of `s` as `str::lines` gives them: split at line feeds, a carriage return
/// before a line feed dropped, and no empty last line after a final line feed.
pub open spec fn text_lines(s: Seq<char>) -> Seq<Seq<char>> {
    let parts = spec_split_lines(s);
    let ended = parts.drop_last().map_values(|l: Seq<char>| strip_cr(l));
    if parts.last().len() == 0 {
        ended
    } else {
        ended.push(parts.last())
    }
}

/// The last `max` of `lines`, or all of them when there are no more.
pub open spec fn last_n(lines: Seq<Seq<char>>, max: nat) -> Seq<Seq<char>> {
    if lines.len() > max {
        lines.skip(lines.len() - max)
    } else {
        lines
    }
}

/// The last `max_lines` lines of a log file's contents.
pub fn tail_log_lines(contents: &str, max_lines: usize) -> (r: Vec<String>)
    ensures
        r@.map_values(|l: String| l@) == last_n(text_lines(contents@), max_lines as nat),
{
    let parts = split_lines(contents);
    proof {
        lemma_split_lines_nonempty(contents@);
    }
    let ghost pv = parts@.map_values(|l: Vec<char>| l@);
    let ghost all = text_lines(contents@);
    let n = parts.len();
    assert(pv[n - 1] == parts@[n - 1]@);
    let count: usize = if parts[n - 1].len() == 0 {
        n - 1
    } else {
        n
    };
    assert(all.len() == count);
    assert forall|k: int| 0 <= k < count implies #[trigger] all[k] == if k < n - 1 {
        strip_cr(pv[k])
    } else {
        pv[k]
    } by {
        if k < n - 1 {
            assert(pv.drop_last()[k] == pv[k]);
        }
    }
    let start: usize = if count > max_lines {
        count - max_lines
    } else {
        0
    };
    let mut out: Vec<String> = Vec::new();
    let mut i: usize = start;
    while i < count
        invariant
            start <= i <= count <= n,
            n == parts@.len(),
            count == all.len(),
            pv == parts@.map_values(|l: Vec<char>| l@),
            forall|k: int| 0 <= k < count ==> #[trigger] all[k] == if k < n - 1 {
                strip_cr(pv[k])
            } else {
                pv[k]
            },
            out@.map_values(|l: String| l@) == all.subrange(start as int, i as int),
        decreases count - i,
    {
        let piece = &parts[i];
        assert(pv[i as int] == piece@);
        let len = piece.len();
        let end: usize = if i < n - 1 && len > 0 && piece[len - 1] == '\r' {
            len - 1
        } else {
            len
        };
        let line = string_from_chars(copy_chars(piece.as_slice(), 0, end).as_slice());
        assert(line@ == all[i as int]) by {
            assert(piece@.subrange(0, len as int) =~= piece@);
            assert(piece@.subrange(0, len - 1) =~= piece@.drop_last());
        }
        let ghost prev = out@;
        out.push(line);
        assert(out@.map_values(|l: String| l@) =~= prev.map_values(|l: String| l@).push(line@));
        i = i + 1;
        assert(all.subrange(start as int, i as int) =~= all.subrange(start as int, i - 1).push(all[i - 1]));
    }
    assert(all.subrange(start as int, count as int) =~= last_n(all, max_lines as nat));
    out
}

} // verus!

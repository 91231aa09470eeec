//! The session facade: one mutation/query surface gluing together the menu
//! tree, navigation, dispatch, the command history, the output buffer, the
//! input buffer and the mode machine.
//!
//! Action handlers run through a host-supplied [`ActionRunner`]: the host
//! calls the handler (driving an asynchronous one to completion before
//! returning) and hands back its optional message. The session owns every
//! other piece of state.

use vstd::prelude::*;
use crate::chars::{
    chars_eq, chars_of_str, fold_case, fold_chars, head_of, lemma_fold_idempotent,
    split_command, string_of_chars, trim, trim_spec,
};
use crate::error::IstariError;
use crate::history::{history_add, CommandHistory};
use crate::menu::{
    duplicate_witness, find_item, first_fault, menu_valid, reserved_witness, ItemPayload, Menu,
};
use crate::menu_manager::MenuManager;
use crate::output::{lemma_appended_pushed, pushed_msg, same_output, OutputBuffer};
use crate::types::{ActionRunner, Mode, RenderMode};

verus! {

use vstd::string::StringExecFns;

/// Whether a folded command word asks to quit.
pub open spec fn is_quit_command(c: Seq<char>) -> bool {
    c == "quit"@ || c == "exit"@ || c == "q"@
}

/// Whether a folded command word asks to go back.
pub open spec fn is_back_command(c: Seq<char>) -> bool {
    c == "back"@ || c == "b"@
}

fn is_quit(cmd: &Vec<char>) -> (r: bool)
    ensures
        r == is_quit_command(cmd@),
{
    let w = chars_of_str("quit");
    if chars_eq(cmd, &w) {
        return true;
    }
    let w = chars_of_str("exit");
    if chars_eq(cmd, &w) {
        return true;
    }
    let w = chars_of_str("q");
    chars_eq(cmd, &w)
}

fn is_back(cmd: &Vec<char>) -> (r: bool)
    ensures
        r == is_back_command(cmd@),
{
    let w = chars_of_str("back");
    if chars_eq(cmd, &w) {
        return true;
    }
    let w = chars_of_str("b");
    chars_eq(cmd, &w)
}

/// One interactive session over a host state of type `T`.
pub struct Istari<T> {
    /// The menu tree and the current position in it.
    pub manager: MenuManager,
    /// Host state, handed to action handlers.
    pub state: T,
    /// Messages produced by dispatch and handlers.
    pub output: OutputBuffer,
    /// Past submitted command lines.
    pub history: CommandHistory,
    /// Command entry vs. output scrolling.
    pub current_mode: Mode,
    /// The line being typed, as characters.
    pub input_buffer: Vec<char>,
    /// Whether the host should draw the input line.
    pub show_input: bool,
    /// Which renderer the host should use.
    pub render_mode: RenderMode,
}

impl<T> Istari<T> {
    /// The navigation path is valid and the history cursor in range.
    pub open spec fn wf(&self) -> bool {
        self.manager.wf() && self.history.wf()
    }

    /// Validate the tree and build a session at its root: command mode, empty
    /// buffers, a history capacity of 100, and the full-screen renderer.
    pub fn new(root_menu: Menu, state: T) -> (r: Result<Istari<T>, IstariError>)
        ensures
            r is Ok <==> menu_valid(root_menu),
            r matches Ok(app) ==> ({
                &&& app.wf()
                &&& app.manager.root == root_menu
                &&& app.manager.path@.len() == 0
                &&& app.state == state
                &&& app.output.messages@.len() == 0
                &&& !app.output.dirty
                &&& app.history.entries@.len() == 0
                &&& app.history.cursor is None
                &&& app.history.capacity == 100
                &&& app.current_mode == Mode::Command
                &&& app.input_buffer@.len() == 0
                &&& !app.show_input
                &&& app.render_mode == RenderMode::TUI
            }),
            r matches Err(IstariError::ReservedCommand(k, t)) ==> reserved_witness(root_menu, k@, t@)
                && first_fault(root_menu) == Some((false, k@, t@)),
            r matches Err(IstariError::DuplicateCommand(k, t)) ==> duplicate_witness(
                root_menu,
                k@,
                t@,
            ) && first_fault(root_menu) == Some((true, k@, t@)),
    {
        match MenuManager::new(root_menu) {
            Ok(manager) => Ok(
                Istari {
                    manager,
                    state,
                    output: OutputBuffer::new(),
                    history: CommandHistory::new(100),
                    current_mode: Mode::Command,
                    input_buffer: Vec::new(),
                    show_input: false,
                    render_mode: RenderMode::TUI,
                },
            ),
            Err(e) => Err(e),
        }
    }

    /// The same session with another renderer.
    pub fn with_render_mode(self, mode: RenderMode) -> (r: Istari<T>)
        ensures
            r == (Istari { render_mode: mode, ..self }),
    {
        Istari { render_mode: mode, ..self }
    }

    /// The same session keeping at most `size` history entries.
    pub fn with_max_history_size(self, size: usize) -> (r: Istari<T>)
        ensures
            r == (Istari { history: (CommandHistory { capacity: size, ..self.history }), ..self }),
    {
        let mut s = self;
        s.history.capacity = size;
        s
    }

    /// Which renderer the host should use.
    pub fn render_mode(&self) -> (r: RenderMode)
        ensures
            r == self.render_mode,
    {
        self.render_mode
    }

    /// The menu the session currently points at.
    pub fn current_menu(&self) -> (r: &Menu)
        requires
            self.wf(),
        ensures
            *r == self.manager.current(),
    {
        self.manager.current_menu()
    }

    /// All output messages, oldest first.
    pub fn output_messages(&self) -> (r: &Vec<String>)
        ensures
            r == self.output.messages,
    {
        &self.output.messages
    }

    /// Append one output message and mark the output dirty.
    pub fn add_output(&mut self, message: String)
        ensures
            *final(self) == (Istari {
                output: (OutputBuffer {
                    messages: final(self).output.messages,
                    dirty: true,
                }),
                ..*old(self)
            }),
            final(self).output.messages@ == old(self).output.messages@.push(message),
    {
        self.output.append(message);
    }

    /// Whether new output arrived since the last check; checking clears the
    /// flag.
    pub fn has_new_output(&mut self) -> (r: bool)
        ensures
            r == old(self).output.dirty,
            *final(self) == (Istari {
                output: (OutputBuffer { messages: old(self).output.messages, dirty: false }),
                ..*old(self)
            }),
    {
        self.output.take_dirty()
    }

    /// Drop all output messages and clear the dirty flag.
    pub fn clear_output_messages(&mut self)
        ensures
            final(self).output.messages@.len() == 0,
            !final(self).output.dirty,
            *final(self) == (Istari { output: final(self).output, ..*old(self) }),
    {
        self.output.clear();
    }

    /// Run the host's tick callback: it may mutate the state and append
    /// messages; new messages mark the output dirty.
    pub fn tick<D: ActionRunner<T>>(&mut self, runner: &mut D, delta_ms: u64)
        requires
            old(self).wf(),
        ensures
            final(self).wf(),
            final(self).manager == old(self).manager,
            final(self).history == old(self).history,
            final(self).current_mode == old(self).current_mode,
            final(self).input_buffer == old(self).input_buffer,
            final(self).show_input == old(self).show_input,
            final(self).render_mode == old(self).render_mode,
            final(self).output.dirty == (old(self).output.dirty
                || final(self).output.messages@.len() > old(self).output.messages@.len()),
    {
        let before = self.output.messages.len();
        runner.run_tick(&mut self.state, &mut self.output.messages, delta_ms);
        if self.output.messages.len() > before {
            self.output.dirty = true;
        }
    }

    /// The current mode.
    pub fn mode(&self) -> (r: Mode)
        ensures
            r == self.current_mode,
    {
        self.current_mode
    }

    /// Flip between command and scroll mode.
    pub fn toggle_mode(&mut self)
        ensures
            *final(self) == (Istari { current_mode: old(self).current_mode.toggled(), ..*old(self) }),
    {
        self.current_mode = match self.current_mode {
            Mode::Command => Mode::Scroll,
            Mode::Scroll => Mode::Command,
        };
    }

    /// Force a mode.
    pub fn set_mode(&mut self, mode: Mode)
        ensures
            *final(self) == (Istari { current_mode: mode, ..*old(self) }),
    {
        self.current_mode = mode;
    }

    /// The line being typed.
    pub fn input_buffer(&self) -> (r: String)
        ensures
            r@ == self.input_buffer@,
    {
        string_of_chars(&self.input_buffer)
    }

    /// Append one character to the line being typed.
    pub fn add_to_input_buffer(&mut self, c: char)
        ensures
            *final(self) == (Istari { input_buffer: final(self).input_buffer, ..*old(self) }),
            final(self).input_buffer@ == old(self).input_buffer@.push(c),
    {
        self.input_buffer.push(c);
    }

    /// Clear the line being typed.
    pub fn clear_input_buffer(&mut self)
        ensures
            *final(self) == (Istari { input_buffer: final(self).input_buffer, ..*old(self) }),
            final(self).input_buffer@.len() == 0,
    {
        self.input_buffer.clear();
    }

    /// Remove the last character of the line being typed, if any.
    pub fn backspace_input_buffer(&mut self)
        ensures
            *final(self) == (Istari { input_buffer: final(self).input_buffer, ..*old(self) }),
            old(self).input_buffer@.len() > 0 ==> final(self).input_buffer@ == old(
                self,
            ).input_buffer@.drop_last(),
            old(self).input_buffer@.len() == 0 ==> final(self).input_buffer@ == old(
                self,
            ).input_buffer@,
    {
        let _ = self.input_buffer.pop();
    }

    /// Flip whether the host should draw the input line.
    pub fn toggle_show_input(&mut self)
        ensures
            *final(self) == (Istari { show_input: !old(self).show_input, ..*old(self) }),
    {
        self.show_input = !self.show_input;
    }

    /// Whether the host should draw the input line.
    pub fn show_input(&self) -> (r: bool)
        ensures
            r == self.show_input,
    {
        self.show_input
    }

    /// Record what a handler returned: its message is appended and marks the
    /// output dirty; a silent handler (no message) changes nothing.
    pub fn apply_action_result(&mut self, result: Option<String>)
        ensures
            match result {
                Some(m) => *final(self) == (Istari { output: final(self).output, ..*old(self) })
                    && pushed_msg(old(self).output, final(self).output, m@),
                None => *final(self) == *old(self),
            },
    {
        if let Some(m) = result {
            let ghost pre = self.output;
            self.output.append(m);
            proof {
                lemma_appended_pushed(pre, self.output, m);
            }
        }
    }

    /// What one raw-key dispatch does to a session: `self` is the state
    /// before, `post` the state after, `r` the continue flag. The key is
    /// matched case-insensitively against the current menu first; an
    /// unmatched `q` ends the session at the root and advises elsewhere, an
    /// unmatched `b` goes back, anything else reports an unknown command.
    pub open spec fn key_dispatched(self, post: Istari<T>, key: Seq<char>, r: bool) -> bool {
        &&& post.current_mode == self.current_mode
        &&& post.show_input == self.show_input
        &&& post.render_mode == self.render_mode
        &&& post.history == self.history
        &&& post.input_buffer == self.input_buffer
        &&& post.manager.root == self.manager.root
        &&& match find_item(self.manager.current().items@, fold_case(key)) {
            Some(i) => r == true && (match self.manager.current().items@[i].payload {
                ItemPayload::Submenu(sub) => ({
                    &&& post.manager.path@ == self.manager.path@.push(i as usize)
                    &&& post.manager.current() == sub
                    &&& same_output(self.output, post.output)
                    &&& post.state == self.state
                }),
                ItemPayload::Action(_) => post.manager == self.manager && (same_output(
                    self.output,
                    post.output,
                ) || (exists|m: Seq<char>| pushed_msg(self.output, post.output, m))),
            }),
            None => ({
                let c = fold_case(key);
                &&& post.state == self.state
                &&& (c == "q"@ ==> ({
                    &&& post.manager == self.manager
                    &&& r == (self.manager.path@.len() > 0)
                    &&& (self.manager.path@.len() == 0 ==> same_output(self.output, post.output))
                    &&& (self.manager.path@.len() > 0 ==> pushed_msg(
                        self.output,
                        post.output,
                        "Use 'b' to return to previous menu, or navigate to root menu to quit"@,
                    ))
                }))
                &&& (c != "q"@ && c == "b"@ ==> ({
                    &&& r == true
                    &&& (self.manager.path@.len() > 0 ==> post.manager.path@
                        == self.manager.path@.drop_last() && same_output(self.output, post.output))
                    &&& (self.manager.path@.len() == 0 ==> post.manager == self.manager
                        && pushed_msg(self.output, post.output, "Already at root menu"@))
                }))
                &&& (c != "q"@ && c != "b"@ ==> ({
                    &&& r == true
                    &&& post.manager == self.manager
                    &&& pushed_msg(self.output, post.output, "Unknown command: "@ + key)
                }))
            }),
        }
    }

    /// Process one raw key with optional parameter text, without touching the
    /// input buffer or the history; see [`Istari::key_dispatched`] for what it
    /// does. Returns false exactly when the session should end.
    pub fn handle_key_with_params<D: ActionRunner<T>>(
        &mut self,
        key: &str,
        params: Option<&str>,
        runner: &mut D,
    ) -> (r: bool)
        requires
            old(self).wf(),
        ensures
            final(self).wf(),
            old(self).key_dispatched(*final(self), key@, r),
    {
        let kc = chars_of_str(key);
        let cmd = fold_chars(&kc);
        let cmd_str = string_of_chars(&cmd);
        proof {
            lemma_fold_idempotent(key@);
        }
        if self.manager.navigate_to_submenu(cmd_str.as_str()) {
            return true;
        }
        if self.manager.has_action(cmd_str.as_str()) {
            let res = self.manager.execute_action(cmd_str.as_str(), &mut self.state, params, runner);
            self.apply_action_result(res);
            return true;
        }
        let w = chars_of_str("q");
        if chars_eq(&cmd, &w) {
            if self.manager.is_at_root() {
                return false;
            }
            let ghost pre = self.output;
            let msg = String::from_str(
                "Use 'b' to return to previous menu, or navigate to root menu to quit",
            );
            self.output.append(msg);
            proof {
                lemma_appended_pushed(pre, self.output, msg);
            }
            return true;
        }
        let w = chars_of_str("b");
        if chars_eq(&cmd, &w) {
            if !self.manager.navigate_back() {
                let ghost pre = self.output;
                let msg = String::from_str("Already at root menu");
                self.output.append(msg);
                proof {
                    lemma_appended_pushed(pre, self.output, msg);
                }
            }
            return true;
        }
        let ghost pre = self.output;
        let mut msg = String::from_str("Unknown command: ");
        msg.append(key);
        self.output.append(msg);
        proof {
            lemma_appended_pushed(pre, self.output, msg);
        }
        true
    }

    /// Process one raw key without parameter text; see
    /// [`Istari::key_dispatched`] for what it does.
    pub fn handle_key<D: ActionRunner<T>>(&mut self, key: &str, runner: &mut D) -> (r: bool)
        requires
            old(self).wf(),
        ensures
            final(self).wf(),
            old(self).key_dispatched(*final(self), key@, r),
    {
        self.handle_key_with_params(key, None, runner)
    }

    /// Submit the input buffer as one command line: trim it, record it in the
    /// history, split off the parameter text, fold the command word, then
    /// dispatch — quit words end the session at the root and advise elsewhere,
    /// back words go up one menu, anything else is matched against the current
    /// menu, entering a submenu, running an action, or reporting an unknown
    /// command. The input buffer is cleared. Returns false exactly when the
    /// session should end.
    pub fn process_input_buffer<D: ActionRunner<T>>(&mut self, runner: &mut D) -> (r: bool)
        requires
            old(self).wf(),
        ensures
            final(self).wf(),
            final(self).current_mode == old(self).current_mode,
            final(self).show_input == old(self).show_input,
            final(self).render_mode == old(self).render_mode,
            final(self).manager.root == old(self).manager.root,
            final(self).history.capacity == old(self).history.capacity,
            old(self).input_buffer@.len() == 0 ==> *final(self) == *old(self) && r == true,
            old(self).input_buffer@.len() > 0 ==> ({
                let t = trim_spec(old(self).input_buffer@);
                let c = fold_case(head_of(t));
                &&& final(self).input_buffer@.len() == 0
                &&& final(self).history.view_entries() == history_add(
                    old(self).history.view_entries(),
                    old(self).history.capacity as int,
                    t,
                )
                &&& final(self).history.cursor is None
                &&& (is_quit_command(c) ==> ({
                    &&& final(self).manager == old(self).manager
                    &&& final(self).state == old(self).state
                    &&& r == (old(self).manager.path@.len() > 0)
                    &&& (old(self).manager.path@.len() == 0 ==> same_output(
                        old(self).output,
                        final(self).output,
                    ))
                    &&& (old(self).manager.path@.len() > 0 ==> pushed_msg(
                        old(self).output,
                        final(self).output,
                        "Use 'back' to return to previous menu, or navigate to root menu to quit"@,
                    ))
                }))
                &&& (!is_quit_command(c) && is_back_command(c) ==> ({
                    &&& r == true
                    &&& final(self).state == old(self).state
                    &&& (old(self).manager.path@.len() > 0 ==> final(self).manager.path@ == old(
                        self,
                    ).manager.path@.drop_last() && same_output(old(self).output, final(self).output))
                    &&& (old(self).manager.path@.len() == 0 ==> final(self).manager == old(
                        self,
                    ).manager && pushed_msg(
                        old(self).output,
                        final(self).output,
                        "Already at root menu"@,
                    ))
                }))
                &&& (!is_quit_command(c) && !is_back_command(c) ==> r == true && (match find_item(
                    old(self).manager.current().items@,
                    c,
                ) {
                    Some(i) => match old(self).manager.current().items@[i].payload {
                        ItemPayload::Submenu(sub) => ({
                            &&& final(self).manager.path@ == old(self).manager.path@.push(
                                i as usize,
                            )
                            &&& final(self).manager.current() == sub
                            &&& same_output(old(self).output, final(self).output)
                            &&& final(self).state == old(self).state
                        }),
                        ItemPayload::Action(_) => final(self).manager == old(self).manager && (
                        same_output(old(self).output, final(self).output) || (exists|m: Seq<char>|
                            pushed_msg(old(self).output, final(self).output, m))),
                    },
                    None => ({
                        &&& final(self).manager == old(self).manager
                        &&& final(self).state == old(self).state
                        &&& pushed_msg(
                            old(self).output,
                            final(self).output,
                            "Unknown command: "@ + c,
                        )
                    }),
                }))
            }),
    {
        if self.input_buffer.len() == 0 {
            return true;
        }
        let trimmed = trim(&self.input_buffer);
        let trimmed_str = string_of_chars(&trimmed);
        self.history.add(trimmed_str);
        let (head, params_vec) = split_command(&trimmed);
        let cmd = fold_chars(&head);
        proof {
            lemma_fold_idempotent(head@);
        }
        let params_string: Option<String> = match &params_vec {
            Some(p) => Some(string_of_chars(p)),
            None => None,
        };
        let mut result = true;
        if is_quit(&cmd) {
            if self.manager.is_at_root() {
                result = false;
            } else {
                let ghost pre = self.output;
                let msg = String::from_str(
                    "Use 'back' to return to previous menu, or navigate to root menu to quit",
                );
                self.output.append(msg);
                proof {
                    lemma_appended_pushed(pre, self.output, msg);
                }
            }
        } else if is_back(&cmd) {
            if !self.manager.navigate_back() {
                let ghost pre = self.output;
                let msg = String::from_str("Already at root menu");
                self.output.append(msg);
                proof {
                    lemma_appended_pushed(pre, self.output, msg);
                }
            }
        } else {
            let cmd_str = string_of_chars(&cmd);
            if self.manager.navigate_to_submenu(cmd_str.as_str()) {
            } else if self.manager.has_action(cmd_str.as_str()) {
                let params_ref: Option<&str> = match &params_string {
                    Some(s) => Some(s.as_str()),
                    None => None,
                };
                let res = self.manager.execute_action(
                    cmd_str.as_str(),
                    &mut self.state,
                    params_ref,
                    runner,
                );
                self.apply_action_result(res);
            } else {
                let ghost pre = self.output;
                let mut msg = String::from_str("Unknown command: ");
                msg.append(cmd_str.as_str());
                self.output.append(msg);
                proof {
                    lemma_appended_pushed(pre, self.output, msg);
                }
            }
        }
        self.input_buffer.clear();
        result
    }

    /// Step the history cursor to an older entry and copy it into the input
    /// buffer; with no history, nothing happens.
    pub fn history_up(&mut self)
        requires
            old(self).wf(),
        ensures
            final(self).wf(),
            final(self).manager == old(self).manager,
            final(self).state == old(self).state,
            final(self).output == old(self).output,
            final(self).current_mode == old(self).current_mode,
            final(self).show_input == old(self).show_input,
            final(self).render_mode == old(self).render_mode,
            final(self).history.entries == old(self).history.entries,
            final(self).history.capacity == old(self).history.capacity,
            match old(self).history.cursor {
                None => {
                    if old(self).history.entries@.len() == 0 {
                        *final(self) == *old(self)
                    } else {
                        &&& final(self).history.cursor == Some(
                            (old(self).history.entries@.len() - 1) as usize,
                        )
                        &&& final(self).input_buffer@ == old(self).history.entries@.last()@
                    }
                },
                Some(p) => ({
                    let q = if p > 0 {
                        (p - 1) as usize
                    } else {
                        0
                    };
                    &&& final(self).history.cursor == Some(q)
                    &&& final(self).input_buffer@ == old(self).history.entries@[q as int]@
                }),
            },
    {
        let r = self.history.up();
        match r {
            Some(s) => {
                self.input_buffer = chars_of_str(s.as_str());
            },
            None => {},
        }
    }

    /// Step the history cursor to a newer entry and copy it into the input
    /// buffer; stepping past the newest entry stops browsing and clears the
    /// input buffer.
    pub fn history_down(&mut self)
        requires
            old(self).wf(),
        ensures
            final(self).wf(),
            final(self).manager == old(self).manager,
            final(self).state == old(self).state,
            final(self).output == old(self).output,
            final(self).current_mode == old(self).current_mode,
            final(self).show_input == old(self).show_input,
            final(self).render_mode == old(self).render_mode,
            final(self).history.entries == old(self).history.entries,
            final(self).history.capacity == old(self).history.capacity,
            match old(self).history.cursor {
                None => *final(self) == *old(self),
                Some(p) => {
                    if p + 1 < old(self).history.entries@.len() {
                        &&& final(self).history.cursor == Some((p + 1) as usize)
                        &&& final(self).input_buffer@ == old(self).history.entries@[p + 1]@
                    } else {
                        &&& final(self).history.cursor is None
                        &&& final(self).input_buffer@.len() == 0
                    }
                },
            },
    {
        let was_browsing = self.history.is_browsing();
        let r = self.history.down();
        match r {
            Some(s) => {
                self.input_buffer = chars_of_str(s.as_str());
            },
            None => {
                if was_browsing {
                    self.input_buffer = Vec::new();
                }
            },
        }
    }

    /// Stop browsing the history; the input buffer is left alone.
    pub fn exit_history_browsing(&mut self)
        ensures
            *final(self) == (Istari {
                history: (CommandHistory { cursor: None, ..old(self).history }),
                ..*old(self)
            }),
    {
        self.history.exit_browsing();
    }
}

} // verus!

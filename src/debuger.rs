//! The text of the lines that the reporting sink shows.
use vstd::prelude::*;
use vstd::string::StringExecFns;

use crate::text::{lemma_repeat_len, repeat, repeat_spec};

verus! {

/// The source of the lines that the reporting sink shows.
pub trait MoniDebugerConfig {
    spec fn spec_start_message(&self) -> Seq<char>;

    spec fn spec_success_message(&self) -> Seq<char>;

    spec fn spec_error_message(&self) -> Seq<char>;

    spec fn spec_execute_message(&self, command: Seq<char>) -> Seq<char>;

    spec fn spec_line_message(&self) -> Seq<char>;

    /// The line shown when watching starts.
    fn start_message(&self) -> (r: String)
        ensures
            r@ == self.spec_start_message(),
    ;

    /// The line shown before the output of a successful action.
    fn success_message(&self) -> (r: String)
        ensures
            r@ == self.spec_success_message(),
    ;

    /// The line shown before the output of a failed action.
    fn error_message(&self) -> (r: String)
        ensures
            r@ == self.spec_error_message(),
    ;

    /// The line shown before running `command`.
    fn execute_message(&self, command: &str) -> (r: String)
        ensures
            r@ == self.spec_execute_message(command@),
    ;

    /// The separator line.
    fn line_message(&self) -> (r: String)
        ensures
            r@ == self.spec_line_message(),
    ;
}

/// `message` framed by separators on both sides so that every framed message
/// of the same title has the same length: each side holds `separator_len`
/// plus half the difference between the title's length and the message's,
/// and an odd difference adds one `-` at the end.
pub open spec fn framed(title: Seq<char>, separator: Seq<char>, separator_len: nat, message: Seq<char>) -> Seq<char> {
    let diff = title.len() - message.len();
    let side = repeat_spec(separator, separator_len + (diff / 2) as nat);
    if diff % 2 != 0 {
        side + message + side + seq!['-']
    } else {
        side + message + side
    }
}

/// `message` as the default framing frames it.
pub open spec fn default_framed(message: Seq<char>) -> Seq<char> {
    framed(" start monitaring "@, "-"@, 25, message)
}

/// The start banner of the default framing.
pub open spec fn default_start_line() -> Seq<char> {
    let edge = default_framed(repeat_spec("-"@, " start monitaring "@.len()));
    "\n"@ + edge + "\n"@ + default_framed(" start monitaring "@) + "\n"@ + edge + "\n"@
}

/// The default framing: a title of ` start monitaring ` between runs of `-`.
pub struct DefaultMoniDebugMessage {
    title: String,
    separator: String,
    separator_len: usize,
}

impl DefaultMoniDebugMessage {
    /// The title.
    pub closed spec fn spec_title(&self) -> Seq<char> {
        self.title@
    }

    /// The separator.
    pub closed spec fn spec_separator(&self) -> Seq<char> {
        self.separator@
    }

    /// The base count of separators on each side.
    pub closed spec fn spec_separator_len(&self) -> nat {
        self.separator_len as nat
    }

    /// The fields hold the default framing.
    #[verifier::type_invariant]
    pub closed spec fn wf(&self) -> bool {
        &&& self.spec_title() == " start monitaring "@
        &&& self.spec_separator() == "-"@
        &&& self.spec_separator_len() == 25
    }

    /// `message` framed with this title and separator.
    pub open spec fn spec_make(&self, message: Seq<char>) -> Seq<char> {
        framed(self.spec_title(), self.spec_separator(), self.spec_separator_len(), message)
    }

    /// The start banner.
    pub open spec fn spec_start_line(&self) -> Seq<char> {
        let edge = self.spec_make(repeat_spec(self.spec_separator(), self.spec_title().len()));
        "\n"@ + edge + "\n"@ + self.spec_make(self.spec_title()) + "\n"@ + edge + "\n"@
    }

    /// The default framing.
    pub fn new() -> (r: DefaultMoniDebugMessage)
        ensures
            r.spec_title() == " start monitaring "@,
            r.spec_separator() == "-"@,
            r.spec_separator_len() == 25,
    {
        DefaultMoniDebugMessage {
            title: String::from_str(" start monitaring "),
            separator: String::from_str("-"),
            separator_len: 25,
        }
    }

    fn calc_added_separator_len(&self, message: &str) -> (r: usize)
        requires
            message@.len() <= self.spec_title().len(),
        ensures
            r == self.spec_separator_len() + (self.spec_title().len() - message@.len()) / 2,
    {
        proof {
            use_type_invariant(self);
            reveal_strlit(" start monitaring ");
        }
        let diff = self.title.as_str().unicode_len() - message.unicode_len();
        self.separator_len + (diff / 2)
    }

    fn make_message(&self, message: &str) -> (r: String)
        requires
            message@.len() <= self.spec_title().len(),
        ensures
            r@ == self.spec_make(message@),
    {
        proof {
            use_type_invariant(self);
            reveal_strlit(" start monitaring ");
            reveal_strlit("-");
        }
        let separator_len = self.calc_added_separator_len(message);
        let side = repeat(self.separator.as_str(), separator_len);
        let diff = self.title.as_str().unicode_len() - message.unicode_len();
        let framed = String::from_str(side.as_str()).concat(message).concat(side.as_str());
        if diff % 2 != 0 {
            framed.concat("-")
        } else {
            framed
        }
    }

    /// The start banner: the framed title between two framed rows of
    /// separators, each on a line of its own.
    pub fn make_start_line_message(&self) -> (r: String)
        ensures
            r@ == self.spec_start_line(),
    {
        proof {
            use_type_invariant(self);
            reveal_strlit(" start monitaring ");
            reveal_strlit("-");
            lemma_repeat_len(self.spec_separator(), self.spec_title().len());
            assert(self.spec_title().len() * 1 == self.spec_title().len());
        }
        let row = repeat(self.separator.as_str(), self.title.as_str().unicode_len());
        let edge = self.make_message(row.as_str());
        let middle = self.make_message(self.title.as_str());
        String::from_str("\n").concat(edge.as_str()).concat("\n").concat(middle.as_str()).concat(
            "\n",
        ).concat(edge.as_str()).concat("\n")
    }

    /// The word shown before a command.
    pub fn make_execute_command_line_message(&self) -> (r: String)
        ensures
            r@ == "execute "@,
    {
        String::from_str("execute ")
    }

    /// The framed separator line.
    pub fn make_line_message(&self) -> (r: String)
        ensures
            r@ == self.spec_make("--"@),
    {
        proof {
            use_type_invariant(self);
            reveal_strlit(" start monitaring ");
            reveal_strlit("--");
        }
        self.make_message("--")
    }

    /// The framed success line.
    pub fn make_ok_line_message(&self) -> (r: String)
        ensures
            r@ == self.spec_make(" ok "@),
    {
        proof {
            use_type_invariant(self);
            reveal_strlit(" start monitaring ");
            reveal_strlit(" ok ");
        }
        self.make_message(" ok ")
    }

    /// The framed error line.
    pub fn make_error_line_message(&self) -> (r: String)
        ensures
            r@ == self.spec_make(" error "@),
    {
        proof {
            use_type_invariant(self);
            reveal_strlit(" start monitaring ");
            reveal_strlit(" error ");
        }
        self.make_message(" error ")
    }

    /// The framed execute line, on a line of its own.
    pub fn make_execute_line_message(&self) -> (r: String)
        ensures
            r@ == "\n"@ + self.spec_make(" execute "@) + "\n"@,
    {
        proof {
            use_type_invariant(self);
            reveal_strlit(" start monitaring ");
            reveal_strlit(" execute ");
        }
        let m = self.make_message(" execute ");
        String::from_str("\n").concat(m.as_str()).concat("\n")
    }
}

impl Default for DefaultMoniDebugMessage {
    fn default() -> (r: DefaultMoniDebugMessage)
        ensures
            r.spec_title() == " start monitaring "@,
            r.spec_separator() == "-"@,
            r.spec_separator_len() == 25,
    {
        DefaultMoniDebugMessage::new()
    }
}

impl MoniDebugerConfig for DefaultMoniDebugMessage {
    open spec fn spec_start_message(&self) -> Seq<char> {
        self.spec_start_line()
    }

    open spec fn spec_success_message(&self) -> Seq<char> {
        self.spec_make(" ok "@)
    }

    open spec fn spec_error_message(&self) -> Seq<char> {
        self.spec_make(" error "@)
    }

    open spec fn spec_execute_message(&self, command: Seq<char>) -> Seq<char> {
        "execute "@
    }

    open spec fn spec_line_message(&self) -> Seq<char> {
        self.spec_make("--"@)
    }

    fn start_message(&self) -> (r: String) {
        self.make_start_line_message()
    }

    fn success_message(&self) -> (r: String) {
        self.make_ok_line_message()
    }

    fn error_message(&self) -> (r: String) {
        self.make_error_line_message()
    }

    fn execute_message(&self, command: &str) -> (r: String) {
        self.make_execute_command_line_message()
    }

    fn line_message(&self) -> (r: String) {
        self.make_line_message()
    }
}

/// The lines that the reporting sink shows at each point of the watch.
pub struct MoniDebuger {
    title: String,
    separator: String,
    success: String,
    error: String,
    execute: String,
}

impl MoniDebuger {
    /// The line shown when watching starts.
    pub closed spec fn spec_title(&self) -> Seq<char> {
        self.title@
    }

    /// The separator line.
    pub closed spec fn spec_separator(&self) -> Seq<char> {
        self.separator@
    }

    /// The line shown before the output of a successful action.
    pub closed spec fn spec_success(&self) -> Seq<char> {
        self.success@
    }

    /// The line shown before the output of a failed action.
    pub closed spec fn spec_error(&self) -> Seq<char> {
        self.error@
    }

    /// The text put before a command about to run.
    pub closed spec fn spec_execute(&self) -> Seq<char> {
        self.execute@
    }

    pub fn new(title: &str, separator: &str, success: &str, error: &str, execute: &str) -> (r:
        MoniDebuger)
        ensures
            r.spec_title() == title@,
            r.spec_separator() == separator@,
            r.spec_success() == success@,
            r.spec_error() == error@,
            r.spec_execute() == execute@,
    {
        MoniDebuger {
            title: String::from_str(title),
            separator: String::from_str(separator),
            success: String::from_str(success),
            error: String::from_str(error),
            execute: String::from_str(execute),
        }
    }

    /// The lines of `config`; the command text is its execute message for an
    /// empty command.
    pub fn from_config<C: MoniDebugerConfig>(config: &C) -> (r: MoniDebuger)
        ensures
            r.spec_title() == config.spec_start_message(),
            r.spec_separator() == config.spec_line_message(),
            r.spec_success() == config.spec_success_message(),
            r.spec_error() == config.spec_error_message(),
            r.spec_execute() == config.spec_execute_message(""@),
    {
        MoniDebuger {
            title: config.start_message(),
            separator: config.line_message(),
            success: config.success_message(),
            error: config.error_message(),
            execute: config.execute_message(""),
        }
    }

    /// The line shown when watching starts.
    pub fn start_line(&self) -> (r: &str)
        ensures
            r@ == self.spec_title(),
    {
        self.title.as_str()
    }

    /// The separator line.
    pub fn separator_line(&self) -> (r: &str)
        ensures
            r@ == self.spec_separator(),
    {
        self.separator.as_str()
    }

    /// The line shown before the output of a successful action.
    pub fn ok_line(&self) -> (r: &str)
        ensures
            r@ == self.spec_success(),
    {
        self.success.as_str()
    }

    /// The line shown before the output of a failed action.
    pub fn error_line(&self) -> (r: &str)
        ensures
            r@ == self.spec_error(),
    {
        self.error.as_str()
    }

    /// The line shown before `command` runs: the execute text, a space, and
    /// the command.
    pub fn execute_command_line(&self, command: &str) -> (r: String)
        ensures
            r@ == self.spec_execute() + " "@ + command@,
    {
        String::from_str(self.execute.as_str()).concat(" ").concat(command)
    }
}

impl Default for MoniDebuger {
    fn default() -> (r: MoniDebuger)
        ensures
            r.spec_title() == "start"@,
            r.spec_separator() == "-----------------------"@,
            r.spec_success() == "success"@,
            r.spec_error() == "error"@,
            r.spec_execute() == "execute"@,
    {
        MoniDebuger::new("start", "-----------------------", "success", "error", "execute")
    }
}

} // verus!

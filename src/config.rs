//! Configurations of a watch: the JSON file's fields, the command line's
//! options, and the watch they describe.
use vstd::prelude::*;
use vstd::string::StringExecFns;

use crate::command::MoniExecuteCommand;
use crate::debuger::{
    default_framed, default_start_line, DefaultMoniDebugMessage, MoniDebuger, MoniDebugerConfig,
};
use crate::pattern::{regex_compiles, ConfigError};
use crate::searcher::{kinds_of, FileSearcherBuilder};
use crate::store::FileSize;
use crate::text::{
    contains_char, replace, replace_spec, split_char, split_spec, trim, trim_spec, views,
};
use crate::watch::Moni;

verus! {

/// The placeholder that an execute message holds for the command.
pub const MONI_EXECUTE_COMMAND_MARK: &'static str = "MONI_EXE";

/// The lines of the reporting sink as a configuration file gives them; each
/// one left out has a default.
pub struct MoniDebugerConfigJson {
    pub title: Option<String>,
    pub success: Option<String>,
    pub error: Option<String>,
    pub line: Option<String>,
    pub execute: Option<String>,
}

/// The text of `o`, or `default` where it is `None`.
pub open spec fn text_or(o: Option<String>, default: Seq<char>) -> Seq<char> {
    match o {
        Some(s) => s@,
        None => default,
    }
}

/// A copy of the text of `o`, or `default` where it is `None`.
fn owned_or(o: &Option<String>, default: &str) -> (r: String)
    ensures
        r@ == text_or(*o, default@),
{
    match o {
        Some(s) => s.clone(),
        None => String::from_str(default),
    }
}

impl MoniDebugerConfigJson {
    /// The lines of the default framing, with an execute message that puts
    /// the command after ` execute `.
    pub fn from_message(message: &DefaultMoniDebugMessage) -> (r: MoniDebugerConfigJson)
        ensures
            r.title is Some && r.title.unwrap()@ == message.spec_start_message(),
            r.success is Some && r.success.unwrap()@ == message.spec_success_message(),
            r.error is Some && r.error.unwrap()@ == message.spec_error_message(),
            r.line is Some && r.line.unwrap()@ == message.spec_line_message(),
            r.execute is Some && r.execute.unwrap()@ == " execute "@ + MONI_EXECUTE_COMMAND_MARK@,
    {
        MoniDebugerConfigJson {
            title: Some(message.start_message()),
            success: Some(message.success_message()),
            error: Some(message.error_message()),
            line: Some(message.line_message()),
            execute: Some(String::from_str(" execute ").concat(MONI_EXECUTE_COMMAND_MARK)),
        }
    }
}

impl MoniDebugerConfig for MoniDebugerConfigJson {
    open spec fn spec_start_message(&self) -> Seq<char> {
        text_or(self.title, " start monitaring "@)
    }

    open spec fn spec_success_message(&self) -> Seq<char> {
        text_or(self.success, " success "@)
    }

    open spec fn spec_error_message(&self) -> Seq<char> {
        text_or(self.error, " error "@)
    }

    /// The separator line with `*` for `-`, then on the next line the execute
    /// text with the command for its placeholder.
    open spec fn spec_execute_message(&self, command: Seq<char>) -> Seq<char> {
        replace_spec(self.spec_line_message(), "-"@, "*"@) + "\n"@ + match self.execute {
            Some(e) => replace_spec(e@, MONI_EXECUTE_COMMAND_MARK@, command),
            None => " execute "@,
        }
    }

    open spec fn spec_line_message(&self) -> Seq<char> {
        text_or(self.line, " --- "@)
    }

    fn start_message(&self) -> (r: String) {
        owned_or(&self.title, " start monitaring ")
    }

    fn success_message(&self) -> (r: String) {
        owned_or(&self.success, " success ")
    }

    fn error_message(&self) -> (r: String) {
        owned_or(&self.error, " error ")
    }

    fn execute_message(&self, command: &str) -> (r: String) {
        proof {
            reveal_strlit("-");
            reveal_strlit("MONI_EXE");
        }
        let line = self.line_message();
        let starred = replace(line.as_str(), "-", "*");
        let text = match &self.execute {
            Some(e) => replace(e.as_str(), MONI_EXECUTE_COMMAND_MARK, command),
            None => String::from_str(" execute "),
        };
        starred.concat("\n").concat(text.as_str())
    }

    fn line_message(&self) -> (r: String) {
        owned_or(&self.line, " --- ")
    }
}

/// The texts of `o`, or none where it is `None`.
pub open spec fn opt_views(o: Option<Vec<String>>) -> Seq<Seq<char>> {
    match o {
        Some(v) => views(v@),
        None => Seq::empty(),
    }
}

/// The filter rules and command that a configuration describes hold in a
/// watch that has just been built.
pub open spec fn describes(
    m: &Moni,
    workspace: Option<Seq<char>>,
    target_extensions: Seq<Seq<char>>,
    ignore_filenames: Seq<Seq<char>>,
    ignore_extensions: Seq<Seq<char>>,
    ignore_path_words: Seq<Seq<char>>,
    execute_command: Seq<char>,
) -> bool {
    let f = m.spec_searcher();
    &&& m.store() == Map::<Seq<char>, FileSize>::empty()
    &&& !m.spec_use_callback()
    &&& m.spec_command() == Some(execute_command)
    &&& m.interval() == (0u64, 100_000_000u32)
    &&& f.spec_root() == match workspace {
        Some(w) => w,
        None => "./"@,
    }
    &&& f.targets() == kinds_of(target_extensions)
    &&& f.ignored_filenames() == ignore_filenames
    &&& f.ignored_extensions() == kinds_of(ignore_extensions)
    &&& f.ignored_patterns() == ignore_path_words
}

/// Every pattern compiles.
pub open spec fn all_compile(patterns: Seq<Seq<char>>) -> bool {
    forall|i: int| 0 <= i < patterns.len() ==> regex_compiles(#[trigger] patterns[i])
}

/// The watch that settings describe, with the command template as its
/// action: rooted at `workspace` (`./` where it is `None`), each list left
/// out being empty. An error where an ignore pattern does not compile.
pub fn moni_from_settings(
    workspace: Option<&str>,
    target_extensions: Option<Vec<String>>,
    ignore_filenames: Option<Vec<String>>,
    ignore_extensions: Option<Vec<String>>,
    ignore_path_words: Option<Vec<String>>,
    execute_command: &str,
) -> (r: Result<Moni, ConfigError>)
    ensures
        r is Ok <==> all_compile(opt_views(ignore_path_words)),
        r is Ok ==> describes(
            &r->Ok_0,
            match workspace {
                Some(w) => Some(w@),
                None => None,
            },
            opt_views(target_extensions),
            opt_views(ignore_filenames),
            opt_views(ignore_extensions),
            opt_views(ignore_path_words),
            execute_command@,
        ),
{
    let mut builder = FileSearcherBuilder::new();
    match workspace {
        Some(w) => builder.set_root(w),
        None => builder.set_root("./"),
    }
    match ignore_filenames {
        Some(v) => builder.set_ignore_files(v),
        None => {},
    }
    match ignore_path_words {
        Some(v) => {
            let ghost words = v@;
            match builder.set_ignore_re(v) {
                Ok(()) => {
                    assert forall|i: int| 0 <= i < words.len() implies regex_compiles(
                        #[trigger] views(words)[i],
                    ) by {
                        assert(regex_compiles(words[i]@));
                    }
                },
                Err(e) => {
                    proof {
                        let i = choose|i: int| 0 <= i < words.len() && !regex_compiles(words[i]@);
                        assert(views(words)[i] == words[i]@);
                    }
                    return Err(e);
                },
            }
        },
        None => {},
    }
    match target_extensions {
        Some(v) => builder.set_target_extensions(v),
        None => {},
    }
    match ignore_extensions {
        Some(v) => builder.set_ignore_extensions(v),
        None => {},
    }
    assert(kinds_of(Seq::<Seq<char>>::empty()) =~= Seq::<crate::extensions::Extension>::empty());
    let searcher = builder.build();
    Ok(Moni::new(searcher, Some(MoniExecuteCommand::new(execute_command)), false))
}

/// The items of a list option: split at `,` where it holds one; else split
/// at ` ` with each piece trimmed, where it holds one; else the whole text.
pub open spec fn split_space_or_comma_spec(source: Seq<char>) -> Seq<Seq<char>> {
    if source.contains(',') {
        split_spec(source, ',')
    } else if source.contains(' ') {
        split_spec(source, ' ').map_values(|p: Seq<char>| trim_spec(p))
    } else {
        seq![source]
    }
}

/// The items of a list option.
pub fn split_space_or_comma(source: &str) -> (r: Vec<String>)
    ensures
        views(r@) == split_space_or_comma_spec(source@),
{
    if contains_char(source, ',') {
        return split_char(source, ',');
    }
    if contains_char(source, ' ') {
        let pieces = split_char(source, ' ');
        let mut out: Vec<String> = Vec::new();
        let mut i: usize = 0;
        while i < pieces.len()
            invariant
                i <= pieces@.len(),
                views(out@) == views(pieces@).subrange(0, i as int).map_values(
                    |p: Seq<char>| trim_spec(p),
                ),
            decreases pieces@.len() - i,
        {
            let t = trim(pieces[i].as_str());
            let ghost before = out@;
            out.push(t);
            assert(views(out@) =~= views(before).push(trim_spec(views(pieces@)[i as int])));
            i = i + 1;
            assert(views(out@) =~= views(pieces@).subrange(0, i as int).map_values(
                |p: Seq<char>| trim_spec(p),
            ));
        }
        assert(views(pieces@).subrange(0, i as int) =~= views(pieces@));
        return out;
    }
    let mut out: Vec<String> = Vec::new();
    out.push(String::from_str(source));
    assert(views(out@) =~= seq![source@]);
    out
}

/// The items of an optional list option.
fn opt_split(source: &Option<String>) -> (r: Option<Vec<String>>)
    ensures
        match *source {
            Some(s) => r is Some && views(r->Some_0@) == split_space_or_comma_spec(s@),
            None => r is None,
        },
{
    match source {
        Some(s) => Some(split_space_or_comma(s.as_str())),
        None => None,
    }
}

/// A copy of a list of strings.
fn clone_strings(v: &Vec<String>) -> (r: Vec<String>)
    ensures
        views(r@) == views(v@),
{
    let mut out: Vec<String> = Vec::new();
    let mut i: usize = 0;
    while i < v.len()
        invariant
            i <= v@.len(),
            views(out@) == views(v@).subrange(0, i as int),
        decreases v@.len() - i,
    {
        let c = v[i].clone();
        let ghost before = out@;
        out.push(c);
        assert(views(out@) =~= views(before).push(views(v@)[i as int]));
        i = i + 1;
        assert(views(out@) =~= views(v@).subrange(0, i as int));
    }
    assert(views(v@).subrange(0, i as int) =~= views(v@));
    out
}

/// A copy of an optional list of strings.
fn clone_opt_strings(v: &Option<Vec<String>>) -> (r: Option<Vec<String>>)
    ensures
        r is Some == v is Some,
        opt_views(r) == opt_views(*v),
{
    match v {
        Some(v) => Some(clone_strings(v)),
        None => None,
    }
}

/// Borrowed views of a list of strings.
pub fn string_vec_to_str_vec<'a>(string_vec: &'a Vec<String>) -> (r: Vec<&'a str>)
    ensures
        r@.map_values(|s: &str| s@) == views(string_vec@),
{
    let mut out: Vec<&'a str> = Vec::new();
    let mut i: usize = 0;
    while i < string_vec.len()
        invariant
            i <= string_vec@.len(),
            out@.map_values(|s: &str| s@) == views(string_vec@).subrange(0, i as int),
        decreases string_vec@.len() - i,
    {
        let piece = string_vec[i].as_str();
        let ghost before = out@;
        out.push(piece);
        assert(out@.map_values(|s: &str| s@) =~= before.map_values(|s: &str| s@).push(
            views(string_vec@)[i as int],
        ));
        i = i + 1;
        assert(out@.map_values(|s: &str| s@) =~= views(string_vec@).subrange(0, i as int));
    }
    assert(views(string_vec@).subrange(0, i as int) =~= views(string_vec@));
    out
}

/// Borrowed views of an optional list of strings.
pub fn opt_string_vec_to_str_vec<'a>(string_vec: Option<&'a Vec<String>>) -> (r: Option<Vec<&'a str>>)
    ensures
        match string_vec {
            Some(v) => r is Some && r->Some_0@.map_values(|s: &str| s@) == views(v@),
            None => r is None,
        },
{
    match string_vec {
        Some(v) => Some(string_vec_to_str_vec(v)),
        None => None,
    }
}

/// The settings of a configuration file.
pub struct MoniJson {
    pub workspace: Option<String>,
    pub target_extensions: Option<Vec<String>>,
    pub ignore_filenames: Option<Vec<String>>,
    pub ignore_extensions: Option<Vec<String>>,
    pub ignore_path_words: Option<Vec<String>>,
    pub debug_message: Option<MoniDebugerConfigJson>,
    pub execute_command: String,
}

impl MoniJson {
    /// Whether the file sets the reporting lines.
    pub fn is_set_debug_message(&self) -> (r: bool)
        ensures
            r == self.debug_message is Some,
    {
        self.debug_message.is_some()
    }

    /// The reporting lines: those the file sets, else the default framing's.
    pub fn debug_message(&self) -> (r: MoniDebuger)
        ensures
            self.debug_message is Some ==> ({
                let c = self.debug_message->Some_0;
                &&& r.spec_title() == c.spec_start_message()
                &&& r.spec_separator() == c.spec_line_message()
                &&& r.spec_success() == c.spec_success_message()
                &&& r.spec_error() == c.spec_error_message()
                &&& r.spec_execute() == c.spec_execute_message(""@)
            }),
            self.debug_message is None ==> ({
                &&& r.spec_title() == default_start_line()
                &&& r.spec_separator() == default_framed("--"@)
                &&& r.spec_success() == default_framed(" ok "@)
                &&& r.spec_error() == default_framed(" error "@)
                &&& r.spec_execute() == replace_spec(default_framed("--"@), "-"@, "*"@) + "\n"@
                    + replace_spec(
                    " execute "@ + MONI_EXECUTE_COMMAND_MARK@,
                    MONI_EXECUTE_COMMAND_MARK@,
                    ""@,
                )
            }),
    {
        match &self.debug_message {
            Some(config) => MoniDebuger::from_config(config),
            None => {
                let message = DefaultMoniDebugMessage::new();
                MoniDebuger::from_config(&MoniDebugerConfigJson::from_message(&message))
            },
        }
    }

    /// The root directory, if the file sets one.
    pub fn workspace(&self) -> (r: Option<&str>)
        ensures
            match self.workspace {
                Some(w) => r is Some && r->Some_0@ == w@,
                None => r is None,
            },
    {
        match &self.workspace {
            Some(w) => Some(w.as_str()),
            None => None,
        }
    }

    /// The watch that the file describes; an error where an ignore pattern
    /// does not compile.
    pub fn to_moni(&self) -> (r: Result<Moni, ConfigError>)
        ensures
            r is Ok <==> all_compile(opt_views(self.ignore_path_words)),
            r is Ok ==> describes(
                &r->Ok_0,
                match self.workspace {
                    Some(w) => Some(w@),
                    None => None,
                },
                opt_views(self.target_extensions),
                opt_views(self.ignore_filenames),
                opt_views(self.ignore_extensions),
                opt_views(self.ignore_path_words),
                self.execute_command@,
            ),
    {
        moni_from_settings(
            self.workspace(),
            clone_opt_strings(&self.target_extensions),
            clone_opt_strings(&self.ignore_filenames),
            clone_opt_strings(&self.ignore_extensions),
            clone_opt_strings(&self.ignore_path_words),
            self.execute_command.as_str(),
        )
    }
}

/// A configuration file's settings, held for building a watch.
pub struct MoniJsonConfig {
    pub json_content: MoniJson,
}

impl MoniJsonConfig {
    /// The watch that the file describes; an error where an ignore pattern
    /// does not compile.
    pub fn to_moni(&self) -> (r: Result<Moni, ConfigError>)
        ensures
            r is Ok <==> all_compile(opt_views(self.json_content.ignore_path_words)),
            r is Ok ==> describes(
                &r->Ok_0,
                match self.json_content.workspace {
                    Some(w) => Some(w@),
                    None => None,
                },
                opt_views(self.json_content.target_extensions),
                opt_views(self.json_content.ignore_filenames),
                opt_views(self.json_content.ignore_extensions),
                opt_views(self.json_content.ignore_path_words),
                self.json_content.execute_command@,
            ),
    {
        self.json_content.to_moni()
    }
}

/// The settings of the command line, each list as one text of items split by
/// `,` or ` `.
pub struct MoniCli {
    pub workspace: Option<String>,
    pub target_extensions: Option<String>,
    pub ignore_filenames: Option<String>,
    pub ignore_extensions: Option<String>,
    pub ignore_path_words: Option<String>,
    pub execute_command: String,
}

/// The items of an optional list option, none where it is `None`.
pub open spec fn opt_items(o: Option<String>) -> Seq<Seq<char>> {
    match o {
        Some(s) => split_space_or_comma_spec(s@),
        None => Seq::empty(),
    }
}

impl MoniCli {
    /// The excluded extensions given.
    pub fn ignore_extensions(&self) -> (r: Option<Vec<String>>)
        ensures
            r is Some == self.ignore_extensions is Some,
            opt_views(r) == opt_items(self.ignore_extensions),
    {
        opt_split(&self.ignore_extensions)
    }

    /// The excluded filenames given.
    pub fn ignore_filenames(&self) -> (r: Option<Vec<String>>)
        ensures
            r is Some == self.ignore_filenames is Some,
            opt_views(r) == opt_items(self.ignore_filenames),
    {
        opt_split(&self.ignore_filenames)
    }

    /// The excluded patterns given.
    pub fn ignore_path_words(&self) -> (r: Option<Vec<String>>)
        ensures
            r is Some == self.ignore_path_words is Some,
            opt_views(r) == opt_items(self.ignore_path_words),
    {
        opt_split(&self.ignore_path_words)
    }

    /// The allow-list of extensions given.
    pub fn target_extensions(&self) -> (r: Option<Vec<String>>)
        ensures
            r is Some == self.target_extensions is Some,
            opt_views(r) == opt_items(self.target_extensions),
    {
        opt_split(&self.target_extensions)
    }

    /// The reporting lines of the command line: the plain defaults.
    pub fn debug_message(&self) -> (r: MoniDebuger)
        ensures
            r.spec_title() == "start"@,
            r.spec_separator() == "-----------------------"@,
            r.spec_success() == "success"@,
            r.spec_error() == "error"@,
            r.spec_execute() == "execute"@,
    {
        MoniDebuger::default()
    }

    /// The watch that the options describe; an error where an ignore pattern
    /// does not compile.
    pub fn to_moni(&self) -> (r: Result<Moni, ConfigError>)
        ensures
            r is Ok <==> all_compile(opt_items(self.ignore_path_words)),
            r is Ok ==> describes(
                &r->Ok_0,
                match self.workspace {
                    Some(w) => Some(w@),
                    None => None,
                },
                opt_items(self.target_extensions),
                opt_items(self.ignore_filenames),
                opt_items(self.ignore_extensions),
                opt_items(self.ignore_path_words),
                self.execute_command@,
            ),
    {
        let workspace = match &self.workspace {
            Some(w) => Some(w.as_str()),
            None => None,
        };
        moni_from_settings(
            workspace,
            self.target_extensions(),
            self.ignore_filenames(),
            self.ignore_extensions(),
            self.ignore_path_words(),
            self.execute_command.as_str(),
        )
    }
}

} // verus!

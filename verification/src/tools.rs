//! The built-in tools' fixed traits (name, description, whether destructive or safe to run
//! concurrently), how each reads its arguments, and the results and messages each gives.
//! Running commands and touching files is left to the caller.
use vstd::prelude::*;
use vstd::string::*;
use crate::edit::{replace_unique, edit_outcome, edit_success_text, EditError};
use crate::text::{prefixed, same_text, decimal, usize_to_text};
use crate::coordinator::{new_task_id, is_task_id};
use crate::stream::{decode_lossy, utf8_lossy};

verus! {

/// Who calls a tool and how.
#[derive(Debug)]
pub struct ToolUseContext {
    pub agent_id: Option<String>,
    pub is_non_interactive_session: bool,
}

/// A tool argument as the tools read it: a string, or some other JSON value.
#[derive(Debug)]
pub enum ArgValue {
    Str(String),
    Other,
}

/// The JSON object a tool is called with, as its (key, value) pairs; each key once. A call
/// whose input is not an object has no pairs.
#[derive(Debug)]
pub struct ToolInput {
    pub entries: Vec<(String, ArgValue)>,
}

/// The string value of `key`, if the input has that key with a string value.
pub open spec fn str_arg(entries: Seq<(String, ArgValue)>, key: Seq<char>) -> Option<Seq<char>>
    decreases entries.len(),
{
    if entries.len() == 0 {
        None
    } else if entries[0].0@ == key {
        match entries[0].1 {
            ArgValue::Str(s) => Some(s@),
            ArgValue::Other => None,
        }
    } else {
        str_arg(entries.drop_first(), key)
    }
}

impl ToolInput {
    /// The string value of `key`, if any (`args.get(key).and_then(|v| v.as_str())`).
    pub fn get_str(&self, key: &str) -> (r: Option<String>)
        ensures
            match r {
                Some(s) => str_arg(self.entries@, key@) == Some(s@),
                None => str_arg(self.entries@, key@) is None,
            },
    {
        let mut i: usize = 0;
        assert(self.entries@.subrange(0, self.entries@.len() as int) =~= self.entries@);
        while i < self.entries.len()
            invariant
                i <= self.entries@.len(),
                str_arg(self.entries@, key@) == str_arg(self.entries@.subrange(i as int, self.entries@.len() as int), key@),
            decreases self.entries@.len() - i,
        {
            proof {
                let rest = self.entries@.subrange(i as int, self.entries@.len() as int);
                assert(rest[0] == self.entries@[i as int]);
                assert(rest.drop_first() =~= self.entries@.subrange(i + 1, self.entries@.len() as int));
            }
            if same_text(self.entries[i].0.as_str(), key) {
                return match &self.entries[i].1 {
                    ArgValue::Str(s) => Some(s.clone()),
                    ArgValue::Other => None,
                };
            }
            i = i + 1;
        }
        None
    }

    /// The string value of `key`, or the error that says it is required.
    fn required(&self, key: &str) -> (r: Result<String, String>)
        ensures
            match str_arg(self.entries@, key@) {
                Some(s) => r matches Ok(v) && v@ == s,
                None => r matches Err(e) && e@ == key@ + " is required and must be a string"@,
            },
    {
        match self.get_str(key) {
            Some(s) => Ok(s),
            None => {
                let mut e = String::from_str(key);
                e.append(" is required and must be a string");
                Err(e)
            },
        }
    }
}

/// Runs a bash command and reports its output.
pub struct BashTool;

/// What a bash command gave: its output streams as text, and its exit code.
#[derive(Debug)]
pub struct BashReport {
    pub stdout: String,
    pub stderr: String,
    pub exit_code: i32,
}

impl BashTool {
    pub fn name(&self) -> (s: &'static str)
        ensures
            s@ == "Bash"@,
    {
        "Bash"
    }

    pub fn description(&self) -> (s: String)
        ensures
            s@ == "Executes a bash command in the local environment and returns stdout, stderr, and exit code."@,
    {
        String::from_str("Executes a bash command in the local environment and returns stdout, stderr, and exit code.")
    }

    /// Running a command can change anything.
    pub fn is_destructive(&self, input: &ToolInput) -> (b: bool)
        ensures
            b,
    {
        true
    }

    pub fn is_concurrency_safe(&self, input: &ToolInput) -> (b: bool)
        ensures
            !b,
    {
        false
    }

    /// The command to run: the `command` argument, which is required.
    pub fn command(&self, args: &ToolInput) -> (r: Result<String, String>)
        ensures
            match str_arg(args.entries@, "command"@) {
                Some(s) => r matches Ok(v) && v@ == s,
                None => r matches Err(e) && e@ == "command"@ + " is required and must be a string"@,
            },
    {
        args.required("command")
    }

    /// The report of a finished command: its output decoded (invalid UTF-8 replaced), and
    /// its exit code, or -1 when it was ended by a signal.
    pub fn report(&self, stdout: &[u8], stderr: &[u8], code: Option<i32>) -> (r: BashReport)
        ensures
            r.stdout@ == utf8_lossy(stdout@),
            r.stderr@ == utf8_lossy(stderr@),
            r.exit_code == (match code { Some(c) => c, None => -1i32 }),
    {
        BashReport {
            stdout: decode_lossy(stdout),
            stderr: decode_lossy(stderr),
            exit_code: match code {
                Some(c) => c,
                None => -1,
            },
        }
    }
}

/// Starts a worker agent on a subtask.
pub struct AgentTool {}

/// A worker agent launched by the agent tool.
#[derive(Debug)]
pub struct AgentLaunch {
    pub prompt: String,
    pub description: String,
    pub task_id: String,
    pub message: String,
}

impl AgentTool {
    pub fn name(&self) -> (s: &'static str)
        ensures
            s@ == "Agent"@,
    {
        "Agent"
    }

    pub fn description(&self) -> (s: String)
        ensures
            s@ == "Spawns a new worker agent to run a subtask in parallel."@,
    {
        String::from_str("Spawns a new worker agent to run a subtask in parallel.")
    }

    pub fn is_destructive(&self, input: &ToolInput) -> (b: bool)
        ensures
            !b,
    {
        false
    }

    /// Workers run independently of each other.
    pub fn is_concurrency_safe(&self, input: &ToolInput) -> (b: bool)
        ensures
            b,
    {
        true
    }

    /// Launches a worker: the `prompt` argument is required, the `description` argument
    /// defaults to "subtask", and the worker gets a fresh task id that the message names.
    pub fn call(&self, args: &ToolInput) -> (r: Result<AgentLaunch, String>)
        ensures
            match str_arg(args.entries@, "prompt"@) {
                None => r matches Err(e) && e@ == "prompt"@ + " is required and must be a string"@,
                Some(p) => r matches Ok(l) && l.prompt@ == p
                    && l.description@ == (match str_arg(args.entries@, "description"@) {
                        Some(d) => d,
                        None => "subtask"@,
                    })
                    && is_task_id(l.task_id@)
                    && l.message@ == "Worker agent spawned with ID: "@ + l.task_id@
                        + ". Result will be delivered as a user message with <task-notification> when complete."@,
            },
    {
        let prompt = match args.required("prompt") {
            Ok(p) => p,
            Err(e) => return Err(e),
        };
        let description = match args.get_str("description") {
            Some(d) => d,
            None => String::from_str("subtask"),
        };
        let task_id = new_task_id();
        let mut message = prefixed("Worker agent spawned with ID: ", task_id.as_str());
        message.append(". Result will be delivered as a user message with <task-notification> when complete.");
        Ok(AgentLaunch { prompt, description, task_id, message })
    }
}

/// The message that a file could not be read.
pub fn read_failure_message(path: &str, err: &str) -> (s: String)
    ensures
        s@ == "Failed to read file '"@ + path@ + "': "@ + err@,
{
    let mut s = prefixed("Failed to read file '", path);
    s.append("': ");
    s.append(err);
    s
}

/// Reads a file.
pub struct FileReadTool;

impl FileReadTool {
    pub fn name(&self) -> (s: &'static str)
        ensures
            s@ == "FileRead"@,
    {
        "FileRead"
    }

    pub fn description(&self) -> (s: String)
        ensures
            s@ == "Reads the contents of a file at the specified absolute_path."@,
    {
        String::from_str("Reads the contents of a file at the specified absolute_path.")
    }

    pub fn is_destructive(&self, input: &ToolInput) -> (b: bool)
        ensures
            !b,
    {
        false
    }

    pub fn is_concurrency_safe(&self, input: &ToolInput) -> (b: bool)
        ensures
            !b,
    {
        false
    }

    /// The file to read: the `absolute_path` argument, which is required.
    pub fn path(&self, args: &ToolInput) -> (r: Result<String, String>)
        ensures
            match str_arg(args.entries@, "absolute_path"@) {
                Some(s) => r matches Ok(v) && v@ == s,
                None => r matches Err(e) && e@ == "absolute_path"@ + " is required and must be a string"@,
            },
    {
        args.required("absolute_path")
    }
}

/// What an edit of a file asks for.
#[derive(Debug)]
pub struct FileEditRequest {
    pub path: String,
    pub search: String,
    pub replace: String,
}

/// The refusal text of the edit tool.
pub open spec fn tool_edit_error_text(path: Seq<char>, e: EditError) -> Seq<char> {
    match e {
        EditError::NotFound => "The specified search_string was not found in the file '"@ + path + "'"@,
        EditError::Ambiguous(n) => "The search_string appears "@ + decimal(n as nat)
            + " times in the file. Please provide a more specific search string to ensure unique replacement."@,
    }
}

/// Edits a file by a unique search and replace.
pub struct FileEditTool;

impl FileEditTool {
    pub fn name(&self) -> (s: &'static str)
        ensures
            s@ == "FileEdit"@,
    {
        "FileEdit"
    }

    pub fn description(&self) -> (s: String)
        ensures
            s@ == "Applies targeted search-and-replace edits to a file. It searches for the exact text in `search_string` and replaces it with `replace_string`."@,
    {
        String::from_str(
            "Applies targeted search-and-replace edits to a file. It searches for the exact text in `search_string` and replaces it with `replace_string`.",
        )
    }

    /// Editing changes a file.
    pub fn is_destructive(&self, input: &ToolInput) -> (b: bool)
        ensures
            b,
    {
        true
    }

    pub fn is_concurrency_safe(&self, input: &ToolInput) -> (b: bool)
        ensures
            !b,
    {
        false
    }

    /// The edit asked for: the `absolute_path`, `search_string` and `replace_string`
    /// arguments, each required, checked in that order.
    pub fn request(&self, args: &ToolInput) -> (r: Result<FileEditRequest, String>)
        ensures
            match (str_arg(args.entries@, "absolute_path"@), str_arg(args.entries@, "search_string"@),
                str_arg(args.entries@, "replace_string"@)) {
                (None, _, _) => r matches Err(e) && e@ == "absolute_path"@ + " is required and must be a string"@,
                (Some(_), None, _) => r matches Err(e) && e@ == "search_string"@ + " is required and must be a string"@,
                (Some(_), Some(_), None) => r matches Err(e) && e@ == "replace_string"@ + " is required and must be a string"@,
                (Some(p), Some(s), Some(t)) => r matches Ok(q) && q.path@ == p && q.search@ == s && q.replace@ == t,
            },
    {
        let path = match args.required("absolute_path") {
            Ok(p) => p,
            Err(e) => return Err(e),
        };
        let search = match args.required("search_string") {
            Ok(p) => p,
            Err(e) => return Err(e),
        };
        let replace = match args.required("replace_string") {
            Ok(p) => p,
            Err(e) => return Err(e),
        };
        Ok(FileEditRequest { path, search, replace })
    }

    /// Applies the edit to the file's text `content`: the new text and the report, or the
    /// refusal when the search string does not occur exactly once.
    pub fn apply(&self, req: &FileEditRequest, content: &str) -> (r: Result<(String, String), String>)
        ensures
            match edit_outcome(content@, req.search@, req.replace@) {
                Ok(t) => r matches Ok((c, m)) && c@ == t && m@ == edit_success_text(req.path@),
                Err(e) => r matches Err(m) && m@ == tool_edit_error_text(req.path@, e),
            },
    {
        match replace_unique(content, req.search.as_str(), req.replace.as_str()) {
            Ok(t) => Ok((t, prefixed("Successfully replaced 1 occurrence in ", req.path.as_str()))),
            Err(EditError::NotFound) => {
                let mut m = prefixed("The specified search_string was not found in the file '", req.path.as_str());
                m.append("'");
                Err(m)
            },
            Err(EditError::Ambiguous(n)) => {
                let mut m = prefixed("The search_string appears ", usize_to_text(n).as_str());
                m.append(" times in the file. Please provide a more specific search string to ensure unique replacement.");
                Err(m)
            },
        }
    }

    /// The message that the edited file could not be written.
    pub fn write_failure_message(&self, path: &str, err: &str) -> (s: String)
        ensures
            s@ == "Failed to write to file '"@ + path@ + "': "@ + err@,
    {
        let mut s = prefixed("Failed to write to file '", path);
        s.append("': ");
        s.append(err);
        s
    }
}

/// Lists the files that match a glob.
pub struct GlobTool;

impl GlobTool {
    pub fn name(&self) -> (s: &'static str)
        ensures
            s@ == "Glob"@,
    {
        "Glob"
    }

    pub fn description(&self) -> (s: String)
        ensures
            s@ == "Searches for files matching a glob pattern."@,
    {
        String::from_str("Searches for files matching a glob pattern.")
    }

    pub fn is_destructive(&self, input: &ToolInput) -> (b: bool)
        ensures
            !b,
    {
        false
    }

    pub fn is_concurrency_safe(&self, input: &ToolInput) -> (b: bool)
        ensures
            !b,
    {
        false
    }

    /// The glob: the `pattern` argument, which is required.
    pub fn pattern(&self, args: &ToolInput) -> (r: Result<String, String>)
        ensures
            match str_arg(args.entries@, "pattern"@) {
                Some(s) => r matches Ok(v) && v@ == s,
                None => r matches Err(e) && e@ == "pattern"@ + " is required and must be a string"@,
            },
    {
        args.required("pattern")
    }

    /// The message that the glob is invalid.
    pub fn pattern_error(&self, pattern: &str, err: &str) -> (s: String)
        ensures
            s@ == "Invalid glob pattern '"@ + pattern@ + "': "@ + err@,
    {
        let mut s = prefixed("Invalid glob pattern '", pattern);
        s.append("': ");
        s.append(err);
        s
    }

    /// The matched paths, in the order found; paths that could not be read are skipped.
    pub fn matches(&self, found: Vec<Result<String, String>>) -> (r: Vec<String>)
        ensures
            r@.map_values(|s: String| s@) == found@.filter(|x: Result<String, String>| x is Ok)
                .map_values(|x: Result<String, String>| x->Ok_0@),
    {
        let mut out: Vec<String> = Vec::new();
        let mut i: usize = 0;
        let ghost ok = |x: Result<String, String>| x is Ok;
        let ghost txt = |x: Result<String, String>| x->Ok_0@;
        assert(found@.subrange(0, 0).filter(ok) =~= Seq::<Result<String, String>>::empty());
        while i < found.len()
            invariant
                i <= found@.len(),
                ok == (|x: Result<String, String>| x is Ok),
                txt == (|x: Result<String, String>| x->Ok_0@),
                out@.map_values(|s: String| s@) == found@.subrange(0, i as int).filter(ok).map_values(txt),
            decreases found@.len() - i,
        {
            let ghost before = out@;
            proof {
                assert(found@.subrange(0, i + 1).drop_last() =~= found@.subrange(0, i as int));
                reveal(Seq::filter);
            }
            match &found[i] {
                Ok(p) => {
                    out.push(p.clone());
                    proof {
                        assert(found@.subrange(0, i + 1).filter(ok) =~= found@.subrange(0, i as int).filter(ok).push(found@[i as int]));
                        assert(out@.map_values(|s: String| s@) =~= before.map_values(|s: String| s@).push(p@));
                    }
                },
                Err(_) => {
                    proof {
                        assert(found@.subrange(0, i + 1).filter(ok) =~= found@.subrange(0, i as int).filter(ok));
                    }
                },
            }
            i = i + 1;
        }
        assert(found@.subrange(0, found@.len() as int) =~= found@);
        out
    }
}

} // verus!

//! The fixed set of tools the remote service may invoke: their specs and the
//! validation of a call's arguments into a file operation.
use vstd::prelude::*;
use vstd::string::StringExecFns;

verus! {

/// The tools this agent offers.
#[derive(Debug, Clone, Copy, PartialEq, Eq, Structural)]
pub enum Tool {
    Read,
    Write,
}

/// The name under which a tool is offered and invoked.
pub open spec fn tool_name(t: Tool) -> Seq<char> {
    match t {
        Tool::Read => "Read"@,
        Tool::Write => "Write"@,
    }
}

/// One named argument of a tool's schema.
#[derive(Debug, Clone)]
pub struct ParamSpec {
    pub name: String,
    pub kind: String,
    pub description: String,
    pub required: bool,
}

/// The static descriptor of a tool sent with every request.
#[derive(Debug, Clone)]
pub struct ToolSpec {
    pub name: String,
    pub description: String,
    pub params: Vec<ParamSpec>,
}

/// A parameter's content as plain sequences: name, type, description, required.
pub open spec fn param_view(p: ParamSpec) -> (Seq<char>, Seq<char>, Seq<char>, bool) {
    (p.name@, p.kind@, p.description@, p.required)
}

/// The parameters that each tool declares, in order.
pub open spec fn tool_params(t: Tool) -> Seq<(Seq<char>, Seq<char>, Seq<char>, bool)> {
    match t {
        Tool::Read => seq![("file_path"@, "string"@, "The path to the file to read"@, true)],
        Tool::Write => seq![
            ("file_path"@, "string"@, "The path of the file to write to"@, true),
            ("content"@, "string"@, "The content to write to the file"@, true),
        ],
    }
}

pub open spec fn tool_description(t: Tool) -> Seq<char> {
    match t {
        Tool::Read => "Read and return the contents of a file"@,
        Tool::Write => "Write content to a file"@,
    }
}

/// Whether `s` is exactly the spec of tool `t`.
pub open spec fn is_spec_of(s: ToolSpec, t: Tool) -> bool {
    &&& s.name@ == tool_name(t)
    &&& s.description@ == tool_description(t)
    &&& s.params@.len() == tool_params(t).len()
    &&& forall|i: int| 0 <= i < s.params@.len() ==> param_view(#[trigger] s.params@[i]) == tool_params(t)[i]
}

fn param(name: &str, description: &str) -> (r: ParamSpec)
    ensures
        param_view(r) == (name@, "string"@, description@, true),
{
    ParamSpec {
        name: name.to_owned(),
        kind: "string".to_owned(),
        description: description.to_owned(),
        required: true,
    }
}

impl Tool {
    /// The tool offered under `name`, if any.
    pub fn from_name(name: &String) -> (r: Option<Tool>)
        ensures
            match r {
                Some(t) => tool_name(t) == name@,
                None => forall|t: Tool| tool_name(t) != name@,
            },
    {
        if *name == "Read".to_owned() {
            Some(Tool::Read)
        } else if *name == "Write".to_owned() {
            Some(Tool::Write)
        } else {
            proof {
                assert(tool_name(Tool::Read) != name@);
                assert(tool_name(Tool::Write) != name@);
            }
            None
        }
    }

    /// The descriptor of this tool, as offered to the remote service.
    pub fn to_spec(&self) -> (r: ToolSpec)
        ensures
            is_spec_of(r, *self),
    {
        match self {
            Tool::Read => {
                let mut params: Vec<ParamSpec> = Vec::new();
                params.push(param("file_path", "The path to the file to read"));
                ToolSpec {
                    name: "Read".to_owned(),
                    description: "Read and return the contents of a file".to_owned(),
                    params,
                }
            },
            Tool::Write => {
                let mut params: Vec<ParamSpec> = Vec::new();
                params.push(param("file_path", "The path of the file to write to"));
                params.push(param("content", "The content to write to the file"));
                ToolSpec {
                    name: "Write".to_owned(),
                    description: "Write content to a file".to_owned(),
                    params,
                }
            },
        }
    }
}

/// The specs of every tool, in the stable order Read, Write.
pub fn specs() -> (r: Vec<ToolSpec>)
    ensures
        r@.len() == 2,
        is_spec_of(r@[0], Tool::Read),
        is_spec_of(r@[1], Tool::Write),
{
    let mut r: Vec<ToolSpec> = Vec::new();
    r.push(Tool::Read.to_spec());
    r.push(Tool::Write.to_spec());
    r
}


/// The key/value map that a JSON text denotes when it is an object whose values
/// are all strings; `None` for any other text.
pub uninterp spec fn string_map_of(s: Seq<char>) -> Option<Map<Seq<char>, Seq<char>>>;

/// Whether the pairs list exactly the entries of `m`.
pub open spec fn lists_entries(v: Seq<(String, String)>, m: Map<Seq<char>, Seq<char>>) -> bool {
    &&& forall|i: int| 0 <= i < v.len() ==> m.contains_key(#[trigger] v[i].0@) && m[v[i].0@] == v[i].1@
    &&& forall|k: Seq<char>| #[trigger] m.contains_key(k) ==> exists|i: int| 0 <= i < v.len() && v[i].0@ == k
}

/// Relies on serde_json::from_str into a HashMap<String, String>: it succeeds
/// exactly on a JSON object of string values, and the map holds each key once.
#[verifier::external_body]
fn parse_string_map(s: &str) -> (r: Option<Vec<(String, String)>>)
    ensures
        match r {
            None => string_map_of(s@).is_none(),
            Some(v) => string_map_of(s@).is_some() && lists_entries(v@, string_map_of(s@).unwrap()),
        },
{
    serde_json::from_str::<std::collections::HashMap<String, String>>(s).ok().map(
        |m| m.into_iter().collect(),
    )
}

/// Index `i` holds the first pair whose key is `k`.
pub open spec fn is_first(v: Seq<(String, String)>, k: Seq<char>, i: int) -> bool {
    &&& 0 <= i < v.len()
    &&& v[i].0@ == k
    &&& forall|j: int| 0 <= j < i ==> v[j].0@ != k
}

/// The value of the first pair whose key is `k`, if any.
pub open spec fn first_value(v: Seq<(String, String)>, k: Seq<char>) -> Option<Seq<char>> {
    if exists|i: int| is_first(v, k, i) {
        Some(v[choose|i: int| is_first(v, k, i)].1@)
    } else {
        None
    }
}

proof fn lemma_first_unique(v: Seq<(String, String)>, k: Seq<char>, i: int)
    requires
        is_first(v, k, i),
    ensures
        first_value(v, k) == Some(v[i].1@),
{
    let c = choose|c: int| is_first(v, k, c);
    assert(is_first(v, k, c));
    if c < i {
        assert(v[c].0@ != k);
    } else if i < c {
        assert(v[i].0@ != k);
    }
}

/// The value of the first pair whose key is `key`.
fn lookup(pairs: &Vec<(String, String)>, key: &String) -> (r: Option<String>)
    ensures
        r matches Some(v) ==> first_value(pairs@, key@) == Some(v@),
        r is None ==> first_value(pairs@, key@) is None,
{
    let mut i: usize = 0;
    while i < pairs.len()
        invariant
            i <= pairs@.len(),
            forall|j: int| 0 <= j < i ==> pairs@[j].0@ != key@,
        decreases pairs@.len() - i,
    {
        if pairs[i].0 == *key {
            proof { lemma_first_unique(pairs@, key@, i as int); }
            return Some(pairs[i].1.clone());
        }
        i = i + 1;
    }
    proof {
        if exists|i: int| is_first(pairs@, key@, i) {
            let c = choose|c: int| is_first(pairs@, key@, c);
            assert(pairs@[c].0@ != key@);
        }
    }
    None
}

/// The arguments a tool reads from its call.
#[derive(Debug, Clone, Copy, PartialEq, Eq, Structural)]
pub enum ArgName {
    FilePath,
    Content,
}

pub open spec fn arg_key(a: ArgName) -> Seq<char> {
    match a {
        ArgName::FilePath => "file_path"@,
        ArgName::Content => "content"@,
    }
}

/// Why a tool call could not be turned into an operation.
#[derive(Debug, Clone, Copy, PartialEq, Eq, Structural)]
pub enum ToolError {
    /// The arguments are not a JSON object of string values.
    MalformedArguments,
    /// A required argument is absent.
    MissingArgument(ArgName),
}

/// The filesystem operation a tool call asks for.
#[derive(Debug, Clone)]
pub enum FileOp {
    Read { file_path: String },
    Write { file_path: String, content: String },
}

/// A file operation as plain sequences.
pub enum FileOpModel {
    Read(Seq<char>),
    Write(Seq<char>, Seq<char>),
}

impl View for FileOp {
    type V = FileOpModel;

    open spec fn view(&self) -> FileOpModel {
        match self {
            FileOp::Read { file_path } => FileOpModel::Read(file_path@),
            FileOp::Write { file_path, content } => FileOpModel::Write(file_path@, content@),
        }
    }
}

/// The operation that tool `t` asks for, given the values of its arguments.
pub open spec fn op_from(t: Tool, file_path: Option<Seq<char>>, content: Option<Seq<char>>) -> Result<
    FileOpModel,
    ToolError,
> {
    match file_path {
        None => Err(ToolError::MissingArgument(ArgName::FilePath)),
        Some(f) => match t {
            Tool::Read => Ok(FileOpModel::Read(f)),
            Tool::Write => match content {
                None => Err(ToolError::MissingArgument(ArgName::Content)),
                Some(c) => Ok(FileOpModel::Write(f, c)),
            },
        },
    }
}

/// The value of `k` in `m`, if present.
pub open spec fn entry(m: Map<Seq<char>, Seq<char>>, k: Seq<char>) -> Option<Seq<char>> {
    if m.contains_key(k) {
        Some(m[k])
    } else {
        None
    }
}

/// The operation that tool `t` asks for given raw arguments `args`.
pub open spec fn planned_op(t: Tool, args: Seq<char>) -> Result<FileOpModel, ToolError> {
    match string_map_of(args) {
        None => Err(ToolError::MalformedArguments),
        Some(m) => op_from(t, entry(m, arg_key(ArgName::FilePath)), entry(m, arg_key(ArgName::Content))),
    }
}

pub open spec fn op_result_view(r: Result<FileOp, ToolError>) -> Result<FileOpModel, ToolError> {
    match r {
        Ok(op) => Ok(op@),
        Err(e) => Err(e),
    }
}

/// A tool invocation: which tool, and its raw JSON arguments.
#[derive(Debug, Clone)]
pub struct FunctionCall {
    pub name: Tool,
    pub arguments: String,
    pub content: Option<String>,
}

/// A key that occurs has a first occurrence.
proof fn lemma_first_exists(v: Seq<(String, String)>, k: Seq<char>, i: int)
    requires
        0 <= i < v.len(),
        v[i].0@ == k,
    ensures
        exists|c: int| is_first(v, k, c),
    decreases i,
{
    if forall|j: int| 0 <= j < i ==> v[j].0@ != k {
        assert(is_first(v, k, i));
    } else {
        let j = choose|j: int| 0 <= j < i && v[j].0@ == k;
        lemma_first_exists(v, k, j);
    }
}

/// When the pairs list the entries of `m`, the first value under a key is
/// its value in `m`.
proof fn lemma_first_is_entry(v: Seq<(String, String)>, m: Map<Seq<char>, Seq<char>>, k: Seq<char>)
    requires
        lists_entries(v, m),
    ensures
        first_value(v, k) == entry(m, k),
{
    if exists|i: int| is_first(v, k, i) {
        let c = choose|c: int| is_first(v, k, c);
        assert(m.contains_key(v[c].0@));
    } else if m.contains_key(k) {
        let i = choose|i: int| 0 <= i < v.len() && v[i].0@ == k;
        lemma_first_exists(v, k, i);
    }
}

/// The operation that `tool` asks for, given its arguments as key/value pairs;
/// under a repeated key the first value counts.
pub fn op_from_pairs(tool: Tool, args: &Vec<(String, String)>) -> (r: Result<FileOp, ToolError>)
    ensures
        op_result_view(r) == op_from(tool, first_value(args@, arg_key(ArgName::FilePath)), first_value(args@, arg_key(ArgName::Content))),
{
    let file_path = match lookup(args, &"file_path".to_owned()) {
        None => return Err(ToolError::MissingArgument(ArgName::FilePath)),
        Some(f) => f,
    };
    match tool {
        Tool::Read => Ok(FileOp::Read { file_path }),
        Tool::Write => match lookup(args, &"content".to_owned()) {
            None => Err(ToolError::MissingArgument(ArgName::Content)),
            Some(content) => Ok(FileOp::Write { file_path, content }),
        },
    }
}

impl FunctionCall {
    /// Validates the call's arguments and returns the file operation it asks
    /// for; a malformed payload or an absent required argument is an error.
    pub fn execute(&self) -> (r: Result<FileOp, ToolError>)
        ensures
            op_result_view(r) == planned_op(self.name, self.arguments@),
    {
        match parse_string_map(self.arguments.as_str()) {
            None => Err(ToolError::MalformedArguments),
            Some(pairs) => {
                proof {
                    let m = string_map_of(self.arguments@).unwrap();
                    lemma_first_is_entry(pairs@, m, arg_key(ArgName::FilePath));
                    lemma_first_is_entry(pairs@, m, arg_key(ArgName::Content));
                }
                op_from_pairs(self.name, &pairs)
            },
        }
    }
}

pub open spec fn error_text(e: ToolError) -> Seq<char> {
    match e {
        ToolError::MalformedArguments => "Error: the arguments are not a JSON object of strings"@,
        ToolError::MissingArgument(a) => "Error: missing required argument "@ + arg_key(a),
    }
}

pub open spec fn read_text(r: Result<Seq<char>, Seq<char>>) -> Seq<char> {
    match r {
        Ok(c) => c,
        Err(e) => "Error reading file: "@ + e,
    }
}

pub open spec fn write_text(r: Result<(), Seq<char>>) -> Seq<char> {
    match r {
        Ok(_) => "file written succesfully"@,
        Err(e) => "Error creating file: "@ + e,
    }
}

impl ToolError {
    /// The text that reports this error to the conversation.
    pub fn message(&self) -> (r: String)
        ensures
            r@ == error_text(*self),
    {
        match self {
            ToolError::MalformedArguments => "Error: the arguments are not a JSON object of strings".to_owned(),
            ToolError::MissingArgument(ArgName::FilePath) => "Error: missing required argument ".to_owned().concat("file_path"),
            ToolError::MissingArgument(ArgName::Content) => "Error: missing required argument ".to_owned().concat("content"),
        }
    }
}

/// A Write of `content` to `path`, and a later Read of `path`, name the same
/// file; when the file system returns the written text, the Read reports
/// exactly that text.
pub proof fn lemma_write_then_read(path: Seq<char>, content: Seq<char>)
    ensures
        op_from(Tool::Write, Some(path), Some(content)) == Ok::<FileOpModel, ToolError>(
            FileOpModel::Write(path, content),
        ),
        forall|c: Option<Seq<char>>|
            op_from(Tool::Read, Some(path), c) == Ok::<FileOpModel, ToolError>(FileOpModel::Read(path)),
        read_text(Ok(content)) == content,
{
}

/// The tool result content for a read: the file's text itself, or the error's
/// description.
pub fn read_content(r: Result<String, String>) -> (c: String)
    ensures
        c@ == read_text(
            match r {
                Ok(s) => Ok(s@),
                Err(e) => Err(e@),
            },
        ),
{
    match r {
        Ok(s) => s,
        Err(e) => "Error reading file: ".to_owned().concat(e.as_str()),
    }
}

/// The tool result content for a write: a short success note, or the error's
/// description.
pub fn write_content(r: Result<(), String>) -> (c: String)
    ensures
        c@ == write_text(
            match r {
                Ok(_) => Ok(()),
                Err(e) => Err(e@),
            },
        ),
{
    match r {
        Ok(_) => "file written succesfully".to_owned(),
        Err(e) => "Error creating file: ".to_owned().concat(e.as_str()),
    }
}

} // verus!

//! Errors of the file manager.
use vstd::prelude::*;
use crate::digits::{push_char, push_str};

verus! {

/// Everything that can go wrong; paths and outside error messages are carried as text.
#[derive(Debug, Clone, PartialEq, Eq)]
pub enum FxError {
    Io(String),
    GetItem,
    OpenItem(String),
    OpenNewWindow(String),
    DefaultEditor,
    TomlDe,
    TomlSer,
    WalkDir,
    Encode,
    PutItem(String),
    RemoveItem(String),
    TooSmallWindowSize,
    Log,
    Panic,
    Dirs(String),
    Arg(String),
    Unpack(String),
    Nix(String),
    Config(String),
    InvalidPath,
    Utf8,
}

/// The message shown for an error.
pub open spec fn spec_message(e: FxError) -> Seq<char> {
    match e {
        FxError::Io(s) => "Error: "@ + s@,
        FxError::GetItem => "Error: Cannot get item info"@,
        FxError::OpenItem(s) => "Error: Cannot open item -> "@ + s@,
        FxError::OpenNewWindow(s) => "Error: "@ + s@,
        FxError::DefaultEditor => "Error: Cannot open the default editor"@,
        FxError::TomlDe => "Error: Cannot deserialize toml"@,
        FxError::TomlSer => "Error: Cannot serialize toml"@,
        FxError::WalkDir => "Error: Cannot read directory"@,
        FxError::Encode => "Error: Incorrect encoding"@,
        FxError::PutItem(s) => "Error: Cannot copy -> "@ + debug_quoted(s@),
        FxError::RemoveItem(s) => "Error: Cannot remove -> "@ + debug_quoted(s@),
        FxError::TooSmallWindowSize => "Error: Too small window size"@,
        FxError::Log => "Error: Cannot initialize logger"@,
        FxError::Panic => "Error: Felix panicked"@,
        FxError::Dirs(s) => "Error: "@ + s@,
        FxError::Arg(s) => "Error: "@ + s@,
        FxError::Unpack(s) => "Error: "@ + s@,
        FxError::Nix(s) => "Error: "@ + s@,
        FxError::Config(s) => "Error: "@ + s@,
        FxError::InvalidPath => "Error: Invalid path"@,
        FxError::Utf8 => "Error: Invalid UTF-8"@,
    }
}

/// A character as it is shown between quotes: quotes, backslashes, tabs,
/// carriage returns, line feeds and NUL escaped with a backslash.
pub open spec fn escaped_char(c: char) -> Seq<char> {
    if c == '"' {
        seq!['\\', '"']
    } else if c == '\\' {
        seq!['\\', '\\']
    } else if c == '\n' {
        seq!['\\', 'n']
    } else if c == '\r' {
        seq!['\\', 'r']
    } else if c == '\t' {
        seq!['\\', 't']
    } else if c == '\0' {
        seq!['\\', '0']
    } else {
        seq![c]
    }
}

/// The characters of `s`, escaped.
pub open spec fn escaped(s: Seq<char>) -> Seq<char>
    decreases s.len(),
{
    if s.len() == 0 {
        Seq::empty()
    } else {
        escaped(s.drop_last()) + escaped_char(s.last())
    }
}

/// A path between double quotes, as its debug form shows it.
pub open spec fn debug_quoted(s: Seq<char>) -> Seq<char> {
    seq!['"'] + escaped(s) + seq!['"']
}

/// The path between double quotes, with special characters escaped.
fn quoted(prefix: &str, s: &String) -> (r: String)
    ensures
        r@ == prefix@ + debug_quoted(s@),
{
    let mut r = String::from_str(prefix);
    push_char(&mut r, '"');
    let t = s.as_str();
    let len = t.unicode_len();
    let mut i: usize = 0;
    while i < len
        invariant
            len == t@.len(),
            t@ == s@,
            i <= len,
            r@ == prefix@ + seq!['"'] + escaped(t@.take(i as int)),
        decreases len - i,
    {
        let c = t.get_char(i);
        if c == '"' || c == '\\' {
            push_char(&mut r, '\\');
            push_char(&mut r, c);
        } else if c == '\n' {
            push_char(&mut r, '\\');
            push_char(&mut r, 'n');
        } else if c == '\r' {
            push_char(&mut r, '\\');
            push_char(&mut r, 'r');
        } else if c == '\t' {
            push_char(&mut r, '\\');
            push_char(&mut r, 't');
        } else if c == '\0' {
            push_char(&mut r, '\\');
            push_char(&mut r, '0');
        } else {
            push_char(&mut r, c);
        }
        proof {
            assert(t@.take(i + 1).drop_last() =~= t@.take(i as int));
            assert(t@.take(i + 1).last() == c);
            assert(r@ =~= prefix@ + seq!['"'] + escaped(t@.take(i + 1)));
        }
        i = i + 1;
    }
    push_char(&mut r, '"');
    proof {
        assert(t@.take(len as int) =~= t@);
        assert(r@ =~= prefix@ + debug_quoted(s@));
    }
    r
}

fn prefixed(prefix: &str, s: &String) -> (r: String)
    ensures
        r@ == prefix@ + s@,
{
    let mut r = String::from_str(prefix);
    push_str(&mut r, s.as_str());
    r
}

impl FxError {
    /// The message shown for this error (what `Display` prints).
    pub fn message(&self) -> (r: String)
        ensures
            r@ == spec_message(*self),
    {
        match self {
            FxError::Io(s) => prefixed("Error: ", s),
            FxError::GetItem => String::from_str("Error: Cannot get item info"),
            FxError::OpenItem(s) => prefixed("Error: Cannot open item -> ", s),
            FxError::OpenNewWindow(s) => prefixed("Error: ", s),
            FxError::DefaultEditor => String::from_str("Error: Cannot open the default editor"),
            FxError::TomlDe => String::from_str("Error: Cannot deserialize toml"),
            FxError::TomlSer => String::from_str("Error: Cannot serialize toml"),
            FxError::WalkDir => String::from_str("Error: Cannot read directory"),
            FxError::Encode => String::from_str("Error: Incorrect encoding"),
            FxError::PutItem(s) => quoted("Error: Cannot copy -> ", s),
            FxError::RemoveItem(s) => quoted("Error: Cannot remove -> ", s),
            FxError::TooSmallWindowSize => String::from_str("Error: Too small window size"),
            FxError::Log => String::from_str("Error: Cannot initialize logger"),
            FxError::Panic => String::from_str("Error: Felix panicked"),
            FxError::Dirs(s) => prefixed("Error: ", s),
            FxError::Arg(s) => prefixed("Error: ", s),
            FxError::Unpack(s) => prefixed("Error: ", s),
            FxError::Nix(s) => prefixed("Error: ", s),
            FxError::Config(s) => prefixed("Error: ", s),
            FxError::InvalidPath => String::from_str("Error: Invalid path"),
            FxError::Utf8 => String::from_str("Error: Invalid UTF-8"),
        }
    }
}

} // verus!

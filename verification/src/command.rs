//! The command line (`:`): what a typed line asks for.
use vstd::prelude::*;
use crate::digits::push_char;
use crate::functions::string_views;

verus! {

/// Whether `c` has the Unicode `White_Space` property (PropList.txt): the
/// controls U+0009 to U+000D, the space, U+0085, the no-break space U+00A0,
/// U+1680, U+2000 to U+200A, the line and paragraph separators U+2028 and
/// U+2029, U+202F, U+205F and the ideographic space U+3000.
pub open spec fn white_space(c: char) -> bool {
    let u = c as u32;
    ||| 0x09 <= u <= 0x0D
    ||| u == 0x20
    ||| u == 0x85
    ||| u == 0xA0
    ||| u == 0x1680
    ||| 0x2000 <= u <= 0x200A
    ||| u == 0x2028
    ||| u == 0x2029
    ||| u == 0x202F
    ||| u == 0x205F
    ||| u == 0x3000
}

/// `char::is_whitespace`: whether the character has the Unicode `White_Space`
/// property, the code points that `white_space` lists.
#[verifier::external_body]
fn is_white_space(c: char) -> (b: bool)
    ensures
        b == white_space(c),
{
    c.is_whitespace()
}

/// The words of `rest` after the finished words `acc` and the current word
/// `cur`: maximal runs of characters that are not white space.
pub open spec fn ws_words_from(acc: Seq<Seq<char>>, cur: Seq<char>, rest: Seq<char>) -> Seq<Seq<char>>
    decreases rest.len(),
{
    if rest.len() == 0 {
        if cur.len() > 0 {
            acc.push(cur)
        } else {
            acc
        }
    } else if white_space(rest[0]) {
        ws_words_from(if cur.len() > 0 { acc.push(cur) } else { acc }, Seq::empty(), rest.drop_first())
    } else {
        ws_words_from(acc, cur.push(rest[0]), rest.drop_first())
    }
}

/// The words of a line, as `str::split_whitespace` gives them.
pub open spec fn ws_words(s: Seq<char>) -> Seq<Seq<char>> {
    ws_words_from(Seq::empty(), Seq::empty(), s)
}

/// Split a line at white space.
pub fn split_whitespace(s: &str) -> (r: Vec<String>)
    ensures
        string_views(r@) == ws_words(s@),
{
    let mut result: Vec<String> = Vec::new();
    let mut cur = String::new();
    let len = s.unicode_len();
    let mut k: usize = 0;
    proof {
        assert(s@.skip(0) =~= s@);
        assert(string_views(result@) =~= Seq::<Seq<char>>::empty());
    }
    while k < len
        invariant
            len == s@.len(),
            k <= len,
            ws_words(s@) == ws_words_from(string_views(result@), cur@, s@.skip(k as int)),
        decreases len - k,
    {
        let c = s.get_char(k);
        proof {
            assert(s@.skip(k as int)[0] == c);
            assert(s@.skip(k as int).drop_first() =~= s@.skip(k + 1));
        }
        if is_white_space(c) {
            if cur.as_str().unicode_len() > 0 {
                let ghost before = string_views(result@);
                let ghost w = cur@;
                result.push(cur);
                proof {
                    assert(string_views(result@) =~= before.push(w));
                }
                cur = String::new();
            } else {
                proof {
                    assert(cur@ =~= Seq::<char>::empty());
                }
            }
        } else {
            push_char(&mut cur, c);
        }
        k = k + 1;
    }
    proof {
        assert(s@.skip(len as int).len() == 0);
    }
    if cur.as_str().unicode_len() > 0 {
        let ghost before = string_views(result@);
        let ghost w = cur@;
        result.push(cur);
        proof {
            assert(string_views(result@) =~= before.push(w));
        }
    }
    result
}

/// What a command line asks for.
#[derive(Debug, Clone, PartialEq, Eq)]
pub enum Command {
    /// Nothing was typed.
    Nothing,
    /// `q`: quit.
    Quit,
    /// `cd` or `z` alone: go to the home directory.
    Home,
    /// `e`: reload the current directory.
    Reload,
    /// `h`: show help.
    Help,
    /// `reg`: show the registers.
    Registers,
    /// `trash`: go to the trash directory.
    Trash,
    /// `empty`: empty the trash directory.
    EmptyTrash,
    /// `config`: go to the directory of the configuration file.
    Config,
    /// `cd <path>`: go to the path.
    Cd(String),
    /// `z <keyword>...`: jump to the directory that zoxide finds for the keywords.
    Zoxide(Vec<String>),
    /// Anything else: run the words as a shell command.
    Shell(Vec<String>),
}

/// What the words of a command line ask for.
pub open spec fn spec_command(words: Seq<Seq<char>>, r: Command) -> bool {
    if words.len() == 0 {
        r == Command::Nothing
    } else if words.len() == 1 && words[0] == "q"@ {
        r == Command::Quit
    } else if words.len() == 1 && (words[0] == "cd"@ || words[0] == "z"@) {
        r == Command::Home
    } else if words.len() == 1 && words[0] == "e"@ {
        r == Command::Reload
    } else if words.len() == 1 && words[0] == "h"@ {
        r == Command::Help
    } else if words.len() == 1 && words[0] == "reg"@ {
        r == Command::Registers
    } else if words.len() == 1 && words[0] == "trash"@ {
        r == Command::Trash
    } else if words.len() == 1 && words[0] == "empty"@ {
        r == Command::EmptyTrash
    } else if words.len() == 1 && words[0] == "config"@ {
        r == Command::Config
    } else if words.len() == 2 && words[0] == "cd"@ {
        r matches Command::Cd(p) && p@ == words[1]
    } else if words.len() >= 2 && words[0] == "z"@ {
        r matches Command::Zoxide(k) && string_views(k@) == words.skip(1)
    } else {
        r matches Command::Shell(w) && string_views(w@) == words
    }
}

/// Read a command line.
pub fn parse_command(line: &str) -> (r: Command)
    ensures
        spec_command(ws_words(line@), r),
{
    let words = split_whitespace(line);
    let ghost w = string_views(words@);
    if words.len() == 0 {
        return Command::Nothing;
    }
    proof {
        assert(w[0] == words@[0]@);
    }
    if words.len() == 1 {
        let first = words[0].as_str();
        if crate::keymap::str_eq(first, "q") {
            return Command::Quit;
        } else if crate::keymap::str_eq(first, "cd") || crate::keymap::str_eq(first, "z") {
            return Command::Home;
        } else if crate::keymap::str_eq(first, "e") {
            return Command::Reload;
        } else if crate::keymap::str_eq(first, "h") {
            return Command::Help;
        } else if crate::keymap::str_eq(first, "reg") {
            return Command::Registers;
        } else if crate::keymap::str_eq(first, "trash") {
            return Command::Trash;
        } else if crate::keymap::str_eq(first, "empty") {
            return Command::EmptyTrash;
        } else if crate::keymap::str_eq(first, "config") {
            return Command::Config;
        }
    } else if words.len() == 2 && crate::keymap::str_eq(words[0].as_str(), "cd") {
        proof {
            assert(w[1] == words@[1]@);
        }
        return Command::Cd(words[1].clone());
    } else if crate::keymap::str_eq(words[0].as_str(), "z") {
        let mut keywords: Vec<String> = Vec::new();
        let mut i: usize = 1;
        while i < words.len()
            invariant
                1 <= i <= words@.len(),
                w == string_views(words@),
                string_views(keywords@) == w.subrange(1, i as int),
            decreases words@.len() - i,
        {
            let ghost before = string_views(keywords@);
            keywords.push(words[i].clone());
            proof {
                assert(string_views(keywords@) =~= before.push(w[i as int]));
                assert(w.subrange(1, i + 1) =~= w.subrange(1, i as int).push(w[i as int]));
            }
            i = i + 1;
        }
        proof {
            assert(w.subrange(1, w.len() as int) =~= w.skip(1));
        }
        return Command::Zoxide(keywords);
    }
    Command::Shell(words)
}

} // verus!

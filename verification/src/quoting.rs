//! Texts inside the scripts that ask for more rights: quoted so that what
//! reads the script gets back exactly the text.
use crate::lines::{join, joined};
use crate::text::{followed_by, lemma_replaced_concat, replace, replaced, texts};
use vstd::prelude::*;

verus! {

// ---------------------------------------------------------------------------
// PowerShell
// ---------------------------------------------------------------------------

/// The text between single quotes: each single quote in it is doubled.
pub open spec fn powershell_quoted(value: Seq<char>) -> Seq<char> {
    replaced(value, '\'', "''"@)
}

/// Prepares a text to stand between single quotes in PowerShell.
pub fn powershell_single_quote(value: &str) -> (r: String)
    ensures
        r@ == powershell_quoted(value@),
{
    replace(value, '\'', "''")
}

/// What PowerShell reads between two single quotes: a doubled quote is one,
/// and a quote that is not doubled does not belong there.
pub open spec fn powershell_read(s: Seq<char>) -> Option<Seq<char>>
    decreases s.len(),
{
    if s.len() == 0 {
        Some(Seq::empty())
    } else if s[0] != '\'' {
        match powershell_read(s.skip(1)) {
            Some(rest) => Some(seq![s[0]] + rest),
            None => None,
        }
    } else if s.len() > 1 && s[1] == '\'' {
        match powershell_read(s.skip(2)) {
            Some(rest) => Some(seq!['\''] + rest),
            None => None,
        }
    } else {
        None
    }
}

/// PowerShell reads back the text that was quoted for it.
pub proof fn law_powershell_quoting(value: Seq<char>)
    ensures
        powershell_read(powershell_quoted(value)) == Some(value),
    decreases value.len(),
{
    reveal_strlit("''");
    let s = powershell_quoted(value);
    if value.len() == 0 {
        assert(s =~= Seq::<char>::empty());
        assert(value =~= Seq::<char>::empty());
    } else {
        let rest = powershell_quoted(value.skip(1));
        law_powershell_quoting(value.skip(1));
        assert(value =~= seq![value[0]] + value.skip(1));
        if value[0] == '\'' {
            assert(s.skip(2) =~= rest);
        } else {
            assert(s.skip(1) =~= rest);
        }
    }
}

// ---------------------------------------------------------------------------
// AppleScript
// ---------------------------------------------------------------------------

/// The text between double quotes: each backslash and each double quote in it
/// stands behind a backslash.
pub open spec fn applescript_escaped(value: Seq<char>) -> Seq<char> {
    replaced(replaced(value, '\\', "\\\\"@), '"', "\\\""@)
}

/// Prepares a text to stand between double quotes in AppleScript.
pub fn applescript_escape(value: &str) -> (r: String)
    ensures
        r@ == applescript_escaped(value@),
{
    replace(replace(value, '\\', "\\\\").as_str(), '"', "\\\"")
}

/// What AppleScript reads between two double quotes: behind a backslash a
/// backslash or a double quote, and no double quote alone.
pub open spec fn applescript_read(s: Seq<char>) -> Option<Seq<char>>
    decreases s.len(),
{
    if s.len() == 0 {
        Some(Seq::empty())
    } else if s[0] == '"' {
        None
    } else if s[0] != '\\' {
        match applescript_read(s.skip(1)) {
            Some(rest) => Some(seq![s[0]] + rest),
            None => None,
        }
    } else if s.len() > 1 && (s[1] == '\\' || s[1] == '"') {
        match applescript_read(s.skip(2)) {
            Some(rest) => Some(seq![s[1]] + rest),
            None => None,
        }
    } else {
        None
    }
}

/// AppleScript reads back the text that was escaped for it.
pub proof fn law_applescript_escaping(value: Seq<char>)
    ensures
        applescript_read(applescript_escaped(value)) == Some(value),
    decreases value.len(),
{
    reveal_strlit("\\\\");
    reveal_strlit("\\\"");
    reveal_with_fuel(replaced, 3);
    let s = applescript_escaped(value);
    if value.len() == 0 {
        assert(s =~= Seq::<char>::empty());
        assert(value =~= Seq::<char>::empty());
    } else {
        let first = if value[0] == '\\' {
            "\\\\"@
        } else {
            seq![value[0]]
        };
        let inner = replaced(value.skip(1), '\\', "\\\\"@);
        let rest = applescript_escaped(value.skip(1));
        law_applescript_escaping(value.skip(1));
        lemma_replaced_concat(first, inner, '"', "\\\""@);
        assert(s == replaced(first, '"', "\\\""@) + rest);
        assert(value =~= seq![value[0]] + value.skip(1));
        if value[0] == '\\' {
            assert(first.skip(1) =~= seq!['\\']);
            assert(first.skip(1).skip(1) =~= Seq::<char>::empty());
            assert(replaced(first, '"', "\\\""@) =~= "\\\\"@);
            assert(s.skip(2) =~= rest);
        } else if value[0] == '"' {
            assert(first.skip(1) =~= Seq::<char>::empty());
            assert(replaced(first, '"', "\\\""@) =~= "\\\""@);
            assert(s.skip(2) =~= rest);
        } else {
            assert(first.skip(1) =~= Seq::<char>::empty());
            assert(replaced(first, '"', "\\\""@) =~= first);
            assert(s.skip(1) =~= rest);
        }
    }
}

// ---------------------------------------------------------------------------
// The shell
// ---------------------------------------------------------------------------

/// The text as one word for the shell: between single quotes, with each
/// single quote in it between double quotes.
pub open spec fn shell_quoted(value: Seq<char>) -> Seq<char> {
    "'"@ + replaced(value, '\'', "'\"'\"'"@) + "'"@
}

/// Quotes a text as one word for the shell.
pub fn shell_quote(value: &str) -> (r: String)
    ensures
        r@ == shell_quoted(value@),
{
    let mut r = followed_by("'", replace(value, '\'', "'\"'\"'").as_str());
    r.append("'");
    r
}

/// The words, quoted, with a space between them.
pub open spec fn shell_line(words: Seq<Seq<char>>) -> Seq<char> {
    joined(words.map_values(|w: Seq<char>| shell_quoted(w)), " "@)
}

/// The command line that runs `executable` with `args`.
pub fn shell_join(executable: &str, args: &Vec<String>) -> (r: String)
    ensures
        r@ == shell_line(seq![executable@] + texts(args@)),
{
    let mut parts: Vec<String> = Vec::new();
    parts.push(shell_quote(executable));
    let ghost words = seq![executable@] + texts(args@);
    let ghost quoted = words.map_values(|w: Seq<char>| shell_quoted(w));
    assert(texts(parts@) =~= quoted.take(1));
    for i in 0..args.len()
        invariant
            words == seq![executable@] + texts(args@),
            quoted == words.map_values(|w: Seq<char>| shell_quoted(w)),
            texts(parts@) == quoted.take(i + 1),
    {
        let part = shell_quote(args[i].as_str());
        let ghost before = texts(parts@);
        let ghost text = part@;
        parts.push(part);
        assert(texts(parts@) =~= before.push(text));
        assert(words[i + 1] == args@[i as int]@);
        assert(texts(parts@) =~= quoted.take(i + 2));
    }
    assert(quoted.take(quoted.len() as int) =~= quoted);
    join(&parts, " ")
}

/// Where the shell stands while it reads a line.
pub enum ShellMode {
    /// Between words.
    Between,
    /// In a word, outside quotes.
    Word,
    /// Between single quotes.
    Single,
    /// Between double quotes.
    Double,
}

/// The words that the shell reads in a line, of which `word` has been read of
/// the present word and `words` of those before. Only quoted text is read;
/// anything else outside quotes but spaces, and what is special inside double
/// quotes, gives none.
pub open spec fn shell_read(
    s: Seq<char>,
    mode: ShellMode,
    word: Seq<char>,
    words: Seq<Seq<char>>,
) -> Option<Seq<Seq<char>>>
    decreases s.len(),
{
    if s.len() == 0 {
        match mode {
            ShellMode::Between => Some(words),
            ShellMode::Word => Some(words.push(word)),
            _ => None,
        }
    } else {
        let rest = s.skip(1);
        match mode {
            ShellMode::Between => if s[0] == ' ' {
                shell_read(rest, ShellMode::Between, Seq::empty(), words)
            } else if s[0] == '\'' {
                shell_read(rest, ShellMode::Single, Seq::empty(), words)
            } else if s[0] == '"' {
                shell_read(rest, ShellMode::Double, Seq::empty(), words)
            } else {
                None
            },
            ShellMode::Word => if s[0] == ' ' {
                shell_read(rest, ShellMode::Between, Seq::empty(), words.push(word))
            } else if s[0] == '\'' {
                shell_read(rest, ShellMode::Single, word, words)
            } else if s[0] == '"' {
                shell_read(rest, ShellMode::Double, word, words)
            } else {
                None
            },
            ShellMode::Single => if s[0] == '\'' {
                shell_read(rest, ShellMode::Word, word, words)
            } else {
                shell_read(rest, ShellMode::Single, word.push(s[0]), words)
            },
            ShellMode::Double => if s[0] == '"' {
                shell_read(rest, ShellMode::Word, word, words)
            } else if s[0] == '$' || s[0] == '`' || s[0] == '\\' {
                None
            } else {
                shell_read(rest, ShellMode::Double, word.push(s[0]), words)
            },
        }
    }
}

/// Between single quotes the shell reads a quoted text back.
proof fn lemma_shell_reads_body(
    value: Seq<char>,
    rest: Seq<char>,
    word: Seq<char>,
    words: Seq<Seq<char>>,
)
    ensures
        shell_read(
            replaced(value, '\'', "'\"'\"'"@) + rest,
            ShellMode::Single,
            word,
            words,
        ) == shell_read(rest, ShellMode::Single, word + value, words),
    decreases value.len(),
{
    reveal_strlit("'\"'\"'");
    let body = replaced(value, '\'', "'\"'\"'"@);
    if value.len() == 0 {
        assert(body + rest =~= rest);
        assert(word + value =~= word);
    } else {
        let tail = replaced(value.skip(1), '\'', "'\"'\"'"@);
        let s = body + rest;
        lemma_shell_reads_body(value.skip(1), rest, word.push(value[0]), words);
        assert(word.push(value[0]) + value.skip(1) =~= word + value);
        if value[0] == '\'' {
            let s1 = s.skip(1);
            let s2 = s1.skip(1);
            let s3 = s2.skip(1);
            let s4 = s3.skip(1);
            let s5 = s4.skip(1);
            assert(s[0] == '\'' && s1[0] == '"' && s2[0] == '\'' && s3[0] == '"' && s4[0]
                == '\'');
            assert(s5 =~= tail + rest);
            assert(shell_read(s4, ShellMode::Word, word.push('\''), words) == shell_read(
                s5,
                ShellMode::Single,
                word.push('\''),
                words,
            ));
            assert(shell_read(s3, ShellMode::Double, word.push('\''), words) == shell_read(
                s4,
                ShellMode::Word,
                word.push('\''),
                words,
            ));
            assert(shell_read(s2, ShellMode::Double, word, words) == shell_read(
                s3,
                ShellMode::Double,
                word.push('\''),
                words,
            ));
            assert(shell_read(s1, ShellMode::Word, word, words) == shell_read(
                s2,
                ShellMode::Double,
                word,
                words,
            ));
        } else {
            assert(s.skip(1) =~= tail + rest);
            assert(s[0] == value[0]);
        }
    }
}

/// The shell reads a quoted text as one word.
proof fn lemma_shell_reads_word(value: Seq<char>, rest: Seq<char>, words: Seq<Seq<char>>)
    ensures
        shell_read(shell_quoted(value) + rest, ShellMode::Between, Seq::empty(), words)
            == shell_read(rest, ShellMode::Word, value, words),
{
    reveal_strlit("'");
    let body = replaced(value, '\'', "'\"'\"'"@);
    let s = shell_quoted(value) + rest;
    let closing = "'"@ + rest;
    assert(s.skip(1) =~= body + closing);
    lemma_shell_reads_body(value, closing, Seq::empty(), words);
    assert(Seq::<char>::empty() + value =~= value);
    assert(closing.skip(1) =~= rest);
}

proof fn lemma_shell_reads_line(line: Seq<Seq<char>>, words: Seq<Seq<char>>)
    requires
        line.len() > 0,
    ensures
        shell_read(shell_line(line), ShellMode::Between, Seq::empty(), words) == Some(words + line),
    decreases line.len(),
{
    reveal_strlit(" ");
    let quoted = line.map_values(|w: Seq<char>| shell_quoted(w));
    let none = Seq::<char>::empty();
    if line.len() == 1 {
        assert(shell_line(line) =~= shell_quoted(line[0]) + none);
        lemma_shell_reads_word(line[0], none, words);
        assert(words.push(line[0]) =~= words + line);
    } else {
        let tail = line.skip(1);
        let rest = " "@ + shell_line(tail);
        assert(quoted.skip(1) =~= tail.map_values(|w: Seq<char>| shell_quoted(w)));
        assert(shell_line(line) =~= shell_quoted(line[0]) + rest);
        lemma_shell_reads_word(line[0], rest, words);
        assert(rest.skip(1) =~= shell_line(tail));
        lemma_shell_reads_line(tail, words.push(line[0]));
        assert(words.push(line[0]) + tail =~= words + line);
    }
}

/// The shell reads back exactly the words of a command line that was put
/// together for it.
pub proof fn law_shell_quoting(words: Seq<Seq<char>>)
    requires
        words.len() > 0,
    ensures
        shell_read(shell_line(words), ShellMode::Between, Seq::empty(), Seq::empty()) == Some(
            words,
        ),
{
    lemma_shell_reads_line(words, Seq::empty());
    assert(Seq::<Seq<char>>::empty() + words =~= words);
}

} // verus!

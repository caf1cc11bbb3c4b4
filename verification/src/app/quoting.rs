//! Words that a shell reads back as they are.
use vstd::prelude::*;
use vstd::string::*;

use crate::grammar;

use crate::text;

verus! {

/// The characters that mean nothing to a shell.
pub open spec fn is_plain(c: char) -> bool {
    ||| 'a' <= c <= 'z'
    ||| 'A' <= c <= 'Z'
    ||| '0' <= c <= '9'
    ||| c == '.'
    ||| c == '_'
    ||| c == '/'
    ||| c == '@'
    ||| c == '+'
    ||| c == '-'
}

/// `word` with every single quote closing the quotation, standing escaped
/// outside it, and opening it again.
pub open spec fn requoted(word: Seq<char>) -> Seq<char>
    decreases word.len(),
{
    if word.len() == 0 {
        word
    } else {
        let before = requoted(word.drop_last());
        if word.last() == '\'' {
            before + seq!['\'', '\\', '\'', '\'']
        } else {
            before.push(word.last())
        }
    }
}

/// `word` bare where a shell takes every character of it for itself, and in
/// single quotes otherwise.
pub open spec fn shell_word(word: Seq<char>) -> Seq<char> {
    if word.len() > 0 && forall|i: int| 0 <= i < word.len() ==> is_plain(#[trigger] word[i]) {
        word
    } else {
        seq!['\''] + requoted(word) + seq!['\'']
    }
}

/// How to spell `branch` behind `perch` so that it goes there.
pub open spec fn go_there(branch: Seq<char>) -> Seq<char> {
    if grammar::verb_of(branch) is Some {
        "-- "@ + shell_word(branch)
    } else {
        shell_word(branch)
    }
}

fn is_plain_char(c: char) -> (r: bool)
    ensures
        r == is_plain(c),
{
    ('a' <= c && c <= 'z') || ('A' <= c && c <= 'Z') || ('0' <= c && c <= '9') || c == '.' || c
        == '_' || c == '/' || c == '@' || c == '+' || c == '-'
}

/// Renders `word` so that a shell reads it as the single literal it is. Git
/// allows `$`, backticks, `;` and `&` in a ref name, so a printed command
/// must not run what a branch is called.
pub fn shell_quote(word: &str) -> (r: String)
    ensures
        r@ == shell_word(word@),
{
    let cs: Vec<char> = text::chars_of(word);
    let mut safe: bool = cs.len() > 0;
    let mut i: usize = 0;
    while i < cs.len() && safe
        invariant
            cs@ == word@,
            i <= cs@.len(),
            safe ==> cs@.len() > 0 && forall|j: int| 0 <= j < i ==> is_plain(#[trigger] cs@[j]),
            !safe ==> cs@.len() == 0 || exists|j: int| 0 <= j < i && !is_plain(#[trigger] cs@[j]),
        decreases cs@.len() - i,
    {
        if !is_plain_char(cs[i]) {
            safe = false;
        }
        i += 1;
    }
    if safe {
        return word.to_owned();
    }
    let mut r: String = String::new();
    r.push('\'');
    let mut i: usize = 0;
    assert(word@.take(0) =~= Seq::empty());
    assert(r@ =~= seq!['\''] + requoted(word@.take(0)));
    while i < cs.len()
        invariant
            cs@ == word@,
            i <= cs@.len(),
            r@ == seq!['\''] + requoted(word@.take(i as int)),
        decreases cs@.len() - i,
    {
        let ghost had = requoted(word@.take(i as int));
        assert(word@.take(i + 1).drop_last() =~= word@.take(i as int));
        if cs[i] == '\'' {
            r.push('\'');
            r.push('\\');
            r.push('\'');
            r.push('\'');
            assert(r@ =~= seq!['\''] + (had + seq!['\'', '\\', '\'', '\'']));
        } else {
            r.push(cs[i]);
            assert(r@ =~= seq!['\''] + had.push(cs@[i as int]));
        }
        i += 1;
    }
    assert(word@.take(i as int) =~= word@);
    r.push('\'');
    assert(r@ =~= seq!['\''] + requoted(word@) + seq!['\'']);
    r
}

/// How to spell `branch` as the argument of a bare `perch`, so that telling
/// someone to run it reaches the branch. One named after a verb needs the
/// `--`, by the same facts that a command line is read with.
pub fn go_there_argument(branch: &str) -> (r: String)
    ensures
        r@ == go_there(branch@),
{
    let quoted: String = shell_quote(branch);
    if grammar::needs_top_level_escape(branch) {
        text::joined("-- ", &quoted)
    } else {
        quoted
    }
}

// ---------------------------------------------------------------------------
// What a shell makes of it
// ---------------------------------------------------------------------------

/// Where a shell stands while it reads one word.
pub enum Quoting {
    Outside,
    Inside,
    Escaped,
}

/// A shell's state after the characters of one word: how it is quoting, and
/// what the word says so far. `None` where a character would end the word or
/// be expanded.
pub open spec fn shell_after(typed: Seq<char>) -> Option<(Quoting, Seq<char>)>
    decreases typed.len(),
{
    if typed.len() == 0 {
        Some((Quoting::Outside, Seq::empty()))
    } else {
        let c = typed.last();
        match shell_after(typed.drop_last()) {
            None => None,
            Some((Quoting::Inside, said)) => if c == '\'' {
                Some((Quoting::Outside, said))
            } else {
                Some((Quoting::Inside, said.push(c)))
            },
            Some((Quoting::Escaped, said)) => Some((Quoting::Outside, said.push(c))),
            Some((Quoting::Outside, said)) => if c == '\'' {
                Some((Quoting::Inside, said))
            } else if c == '\\' {
                Some((Quoting::Escaped, said))
            } else if is_plain(c) {
                Some((Quoting::Outside, said.push(c)))
            } else {
                None
            },
        }
    }
}

/// The one literal that a shell reads `typed` as: it is not empty, and its
/// quotation is closed.
pub open spec fn shell_reads(typed: Seq<char>) -> Option<Seq<char>> {
    match shell_after(typed) {
        Some((Quoting::Outside, said)) if typed.len() > 0 => Some(said),
        _ => None,
    }
}

proof fn lemma_plain_after(word: Seq<char>)
    requires
        forall|i: int| 0 <= i < word.len() ==> is_plain(#[trigger] word[i]),
    ensures
        shell_after(word) == Some((Quoting::Outside, word)),
    decreases word.len(),
{
    if word.len() > 0 {
        lemma_plain_after(word.drop_last());
        assert(is_plain(word[word.len() - 1]));
        assert(word.drop_last().push(word.last()) =~= word);
    }
}

proof fn lemma_requoted_after(word: Seq<char>)
    ensures
        shell_after(seq!['\''] + requoted(word)) == Some((Quoting::Inside, word)),
    decreases word.len(),
{
    let q = seq!['\''];
    if word.len() == 0 {
        assert(q + requoted(word) =~= q);
        assert(q.drop_last() =~= Seq::empty());
        assert(shell_after(q.drop_last()) == Some((Quoting::Outside, Seq::<char>::empty())));
        assert(word =~= Seq::empty());
    } else {
        lemma_requoted_after(word.drop_last());
        let a = q + requoted(word.drop_last());
        let whole = q + requoted(word);
        assert(word.drop_last().push(word.last()) =~= word);
        if word.last() == '\'' {
            let b = a.push('\'');
            let c = b.push('\\');
            let d = c.push('\'');
            let e = d.push('\'');
            assert(whole =~= e);
            assert(b.drop_last() =~= a);
            assert(c.drop_last() =~= b);
            assert(d.drop_last() =~= c);
            assert(e.drop_last() =~= d);
            assert(shell_after(b) == Some((Quoting::Outside, word.drop_last())));
            assert(shell_after(c) == Some((Quoting::Escaped, word.drop_last())));
            assert(shell_after(d) == Some((Quoting::Outside, word)));
        } else {
            assert(whole =~= a.push(word.last()));
            assert(whole.drop_last() =~= a);
        }
    }
}

/// Whatever a word holds, a shell reads its quoted form as that word and
/// nothing else.
pub proof fn quoted_word_reads_back(word: Seq<char>)
    ensures
        shell_reads(shell_word(word)) == Some(word),
{
    if word.len() > 0 && forall|i: int| 0 <= i < word.len() ==> is_plain(#[trigger] word[i]) {
        lemma_plain_after(word);
    } else {
        lemma_requoted_after(word);
        let a = seq!['\''] + requoted(word);
        assert(shell_word(word) =~= a.push('\''));
        assert(a.push('\'').drop_last() =~= a);
    }
}

/// Going where `go_there` says reaches the branch: the words it spells, read
/// by the grammar, ask to go to that branch. Git gives no branch a name that
/// looks like an option.
pub proof fn go_there_reaches_the_branch(branch: Seq<char>)
    requires
        !grammar::looks_like_option(branch),
    ensures
        grammar::parse_spec(
            if grammar::verb_of(branch) is Some {
                seq!["--"@, branch]
            } else {
                seq![branch]
            },
        ) == Ok::<_, grammar::GrammarError<Seq<char>>>(
            grammar::navigation(grammar::Verb::Go, Some(branch)),
        ),
{
    reveal_strlit("--help");
    reveal_strlit("-h");
    reveal_strlit("--version");
    reveal_strlit("-V");
    reveal_strlit("--complete");
    reveal_strlit("--");
    reveal_strlit("br");
    reveal_strlit("wt");
    let words = seq!["--"@, branch];
    assert(words.skip(1) =~= seq![branch]);
    if grammar::verb_of(branch) is Some {
        assert("--"@.len() == 2 && "--help"@.len() == 6 && "-h"@.len() == 2);
        assert("--"@[1] == '-' && "-h"@[1] == 'h' && "-V"@[1] == 'V');
    }
}

} // verus!

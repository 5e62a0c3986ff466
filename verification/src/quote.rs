//! Quoting for a POSIX shell, and what the shell makes of the result.

use vstd::prelude::*;

use crate::text;

verus! {

/// The text with each single quote replaced by `'\''`: the quote is closed, an
/// escaped quote follows, and the quote is opened again.
pub open spec fn escaped(s: Seq<char>) -> Seq<char>
    decreases s.len(),
{
    if s.len() == 0 {
        Seq::<char>::empty()
    } else if s.last() == '\'' {
        escaped(s.drop_last()) + seq!['\'', '\\', '\'', '\'']
    } else {
        escaped(s.drop_last()).push(s.last())
    }
}

/// The text between single quotes, with the single quotes in it escaped.
pub open spec fn single_quoted(s: Seq<char>) -> Seq<char> {
    seq!['\''] + escaped(s) + seq!['\'']
}

/// Whether the shell takes `c` as it stands wherever it occurs.
pub open spec fn is_plain(c: char) -> bool {
    ||| 'a' <= c && c <= 'z'
    ||| 'A' <= c && c <= 'Z'
    ||| '0' <= c && c <= '9'
    ||| c == '-' || c == '_' || c == '.' || c == '/' || c == '=' || c == ':'
}

/// Whether the text can stand in a command line without quotes.
pub open spec fn all_plain(s: Seq<char>) -> bool {
    s.len() > 0 && forall|i: int| 0 <= i < s.len() ==> is_plain(#[trigger] s[i])
}

/// The text as one word of a command line: as it stands where that is possible,
/// else between quotes.
pub open spec fn word_of(s: Seq<char>) -> Seq<char> {
    if all_plain(s) {
        s
    } else {
        single_quoted(s)
    }
}

/// The words of an argument vector, with a space between each two.
pub open spec fn command_words(args: Seq<Seq<char>>) -> Seq<char> {
    text::join(args.map_values(|a: Seq<char>| word_of(a)), seq![' '])
}

/// Where the shell is while it reads a command line.
pub enum ReadingMode {
    Plain,
    Quoted,
    Escaped,
    /// The line holds something that is more than words.
    Beyond,
}

/// What the shell has read of a command line.
pub struct Reading {
    pub words: Seq<Seq<char>>,
    pub word: Option<Seq<char>>,
    pub mode: ReadingMode,
}

impl Reading {
    /// The word that is being read, or the empty one.
    pub open spec fn current(self) -> Seq<char> {
        match self.word {
            Some(w) => w,
            None => Seq::<char>::empty(),
        }
    }

    /// What the shell does with the next character, where it stays with words,
    /// spaces, single quotes and backslashes.
    pub open spec fn step(self, c: char) -> Reading {
        match self.mode {
            ReadingMode::Quoted => if c == '\'' {
                Reading { mode: ReadingMode::Plain, ..self }
            } else {
                Reading { word: Some(self.current().push(c)), ..self }
            },
            ReadingMode::Escaped => Reading {
                word: Some(self.current().push(c)),
                mode: ReadingMode::Plain,
                ..self
            },
            ReadingMode::Beyond => self,
            ReadingMode::Plain => if c == ' ' {
                match self.word {
                    Some(w) => Reading { words: self.words.push(w), word: None, ..self },
                    None => self,
                }
            } else if c == '\'' {
                Reading { word: Some(self.current()), mode: ReadingMode::Quoted, ..self }
            } else if c == '\\' {
                Reading { word: Some(self.current()), mode: ReadingMode::Escaped, ..self }
            } else if is_plain(c) {
                Reading { word: Some(self.current().push(c)), ..self }
            } else {
                Reading { mode: ReadingMode::Beyond, ..self }
            },
        }
    }

    /// What the shell has read after the whole of `line`.
    pub open spec fn run(self, line: Seq<char>) -> Reading
        decreases line.len(),
    {
        if line.len() == 0 {
            self
        } else {
            self.run(line.drop_last()).step(line.last())
        }
    }
}

/// The words that a POSIX shell splits `line` into, where the line is made of
/// plain characters, spaces, single quotes and backslashes outside quotes, with
/// anything between the quotes; `None` for another line.
pub open spec fn shell_words(line: Seq<char>) -> Option<Seq<Seq<char>>> {
    let start = Reading {
        words: Seq::<Seq<char>>::empty(),
        word: None,
        mode: ReadingMode::Plain,
    };
    let end = start.run(line);
    match (end.mode, end.word) {
        (ReadingMode::Plain, Some(w)) => Some(end.words.push(w)),
        (ReadingMode::Plain, None) => Some(end.words),
        _ => None,
    }
}

proof fn run_appends(r: Reading, a: Seq<char>, b: Seq<char>)
    ensures
        r.run(a + b) == r.run(a).run(b),
    decreases b.len(),
{
    if b.len() == 0 {
        assert(a + b =~= a);
    } else {
        run_appends(r, a, b.drop_last());
        assert((a + b).drop_last() =~= a + b.drop_last());
        assert((a + b).last() == b.last());
    }
}

proof fn run_one(r: Reading, c: char)
    ensures
        r.run(seq![c]) == r.step(c),
{
    assert(seq![c].drop_last() =~= Seq::<char>::empty());
    assert(r.run(seq![c].drop_last()) == r);
}

proof fn run_escaped(r: Reading, s: Seq<char>)
    requires
        r.mode is Quoted,
        r.word is Some,
    ensures
        r.run(escaped(s)) == (Reading { word: Some(r.current() + s), ..r }),
    decreases s.len(),
{
    if s.len() == 0 {
        assert(r.current() + s =~= r.current());
    } else {
        let front = escaped(s.drop_last());
        run_escaped(r, s.drop_last());
        let mid = r.run(front);
        assert((r.current() + s.drop_last()).push(s.last()) =~= r.current() + s);
        if s.last() == '\'' {
            let tail = seq!['\'', '\\', '\'', '\''];
            run_appends(r, front, tail);
            run_one(mid, '\'');
            let a = mid.run(seq!['\'']);
            run_appends(mid, seq!['\''], seq!['\\']);
            run_one(a, '\\');
            let b = a.run(seq!['\\']);
            run_appends(mid, seq!['\''] + seq!['\\'], seq!['\'']);
            run_one(b, '\'');
            let c = b.run(seq!['\'']);
            run_appends(mid, seq!['\''] + seq!['\\'] + seq!['\''], seq!['\'']);
            run_one(c, '\'');
            assert(seq!['\''] + seq!['\\'] + seq!['\''] + seq!['\''] =~= tail);
        } else {
            run_appends(r, front, seq![s.last()]);
            run_one(mid, s.last());
            assert(front.push(s.last()) =~= front + seq![s.last()]);
        }
    }
}

proof fn run_plain(r: Reading, s: Seq<char>)
    requires
        r.mode is Plain,
        forall|i: int| 0 <= i < s.len() ==> is_plain(#[trigger] s[i]),
        s.len() > 0,
    ensures
        r.run(s) == (Reading { word: Some(r.current() + s), ..r }),
    decreases s.len(),
{
    if s.len() == 1 {
        run_one(r, s[0]);
        assert(s =~= seq![s[0]]);
        assert(r.current().push(s[0]) =~= r.current() + s);
    } else {
        let front = s.drop_last();
        assert forall|i: int| 0 <= i < front.len() implies is_plain(#[trigger] front[i]) by {
            assert(front[i] == s[i]);
        }
        run_plain(r, front);
        assert(is_plain(s[s.len() - 1]));
        assert((r.current() + front).push(s.last()) =~= r.current() + s);
    }
}

proof fn run_single_quoted(r: Reading, s: Seq<char>)
    requires
        r.mode is Plain,
        r.word is None,
    ensures
        r.run(single_quoted(s)) == (Reading { word: Some(s), ..r }),
{
    let open = r.run(seq!['\'']);
    run_one(r, '\'');
    run_escaped(open, s);
    run_appends(r, seq!['\''], escaped(s));
    let mid = open.run(escaped(s));
    run_appends(r, seq!['\''] + escaped(s), seq!['\'']);
    run_one(mid, '\'');
    assert(Seq::<char>::empty() + s =~= s);
}

proof fn run_word(r: Reading, s: Seq<char>)
    requires
        r.mode is Plain,
        r.word is None,
    ensures
        r.run(word_of(s)) == (Reading { word: Some(s), ..r }),
{
    if all_plain(s) {
        run_plain(r, s);
        assert(Seq::<char>::empty() + s =~= s);
    } else {
        run_single_quoted(r, s);
    }
}

/// A quoted string is read back by the shell as the one word that it quotes,
/// whatever the string holds.
pub proof fn quoted_reads_back(s: Seq<char>)
    ensures
        shell_words(single_quoted(s)) == Some(seq![s]),
        shell_words(word_of(s)) == Some(seq![s]),
{
    let start = Reading {
        words: Seq::<Seq<char>>::empty(),
        word: None,
        mode: ReadingMode::Plain,
    };
    run_single_quoted(start, s);
    run_word(start, s);
    assert(Seq::<Seq<char>>::empty().push(s) =~= seq![s]);
}

proof fn run_words(r: Reading, pieces: Seq<Seq<char>>, args: Seq<Seq<char>>)
    requires
        r.mode is Plain,
        r.word is None,
        args.len() > 0,
        pieces.len() == args.len(),
        forall|i: int|
            0 <= i < args.len() ==> #[trigger] pieces[i] == word_of(args[i]) || pieces[i]
                == single_quoted(args[i]),
    ensures
        r.run(text::join(pieces, seq![' '])) == (Reading {
            words: r.words + args.drop_last(),
            word: Some(args.last()),
            ..r
        }),
    decreases args.len(),
{
    let last = args.last();
    if args.len() == 1 {
        assert(pieces[0] == word_of(args[0]) || pieces[0] == single_quoted(args[0]));
        run_word(r, last);
        run_single_quoted(r, last);
        assert(r.words + args.drop_last() =~= r.words);
    } else {
        let front = pieces.drop_last();
        run_words(r, front, args.drop_last());
        let a = r.run(text::join(front, seq![' ']));
        run_appends(r, text::join(front, seq![' ']), seq![' ']);
        run_one(a, ' ');
        let b = a.step(' ');
        assert(b.words =~= r.words + args.drop_last());
        run_appends(r, text::join(front, seq![' ']) + seq![' '], pieces.last());
        assert(pieces[args.len() - 1] == word_of(args[args.len() - 1]) || pieces[args.len() - 1]
            == single_quoted(args[args.len() - 1]));
        run_word(b, last);
        run_single_quoted(b, last);
    }
}

/// Quoted arguments with spaces between them are read back by the shell as those
/// arguments, no more and no fewer.
pub proof fn quoted_words_read_back(pieces: Seq<Seq<char>>, args: Seq<Seq<char>>)
    requires
        args.len() > 0,
        pieces.len() == args.len(),
        forall|i: int|
            0 <= i < args.len() ==> #[trigger] pieces[i] == word_of(args[i]) || pieces[i]
                == single_quoted(args[i]),
    ensures
        shell_words(text::join(pieces, seq![' '])) == Some(args),
{
    let start = Reading {
        words: Seq::<Seq<char>>::empty(),
        word: None,
        mode: ReadingMode::Plain,
    };
    run_words(start, pieces, args);
    assert((Seq::<Seq<char>>::empty() + args.drop_last()).push(args.last()) =~= args);
}

/// The text between single quotes, with the single quotes in it escaped.
pub fn single_quote(s: &str) -> (out: String)
    ensures
        out@ == single_quoted(s@),
{
    let chars = text::chars_of(s);
    let mut out = String::new();
    out.push('\'');
    assert(out@ =~= seq!['\''] + escaped(s@.take(0)));
    let n: usize = chars.len();
    let mut i: usize = 0;
    while i < n
        invariant
            i <= n,
            n == chars@.len(),
            chars@ == s@,
            out@ == seq!['\''] + escaped(s@.take(i as int)),
        decreases n - i,
    {
        let c = chars[i];
        let ghost front = escaped(s@.take(i as int));
        assert(s@.take(i + 1).drop_last() =~= s@.take(i as int));
        if c == '\'' {
            out.push('\'');
            out.push('\\');
            out.push('\'');
            out.push('\'');
            assert(out@ =~= seq!['\''] + (front + seq!['\'', '\\', '\'', '\'']));
        } else {
            out.push(c);
            assert(out@ =~= seq!['\''] + front.push(c));
        }
        i += 1;
    }
    assert(s@.take(n as int) =~= s@);
    out.push('\'');
    assert(out@ =~= single_quoted(s@));
    out
}

fn plain(c: char) -> (yes: bool)
    ensures
        yes == is_plain(c),
{
    (c >= 'a' && c <= 'z') || (c >= 'A' && c <= 'Z') || (c >= '0' && c <= '9') || c == '-' || c
        == '_' || c == '.' || c == '/' || c == '=' || c == ':'
}

/// The text as one word of a command line: as it stands where that is possible,
/// else between quotes.
pub fn quote_word(s: &str) -> (out: String)
    ensures
        out@ == word_of(s@),
{
    let chars = text::chars_of(s);
    let n: usize = chars.len();
    if n == 0 {
        return single_quote(s);
    }
    let mut i: usize = 0;
    while i < n
        invariant
            i <= n,
            n == chars@.len(),
            chars@ == s@,
            forall|j: int| 0 <= j < i ==> is_plain(#[trigger] s@[j]),
        decreases n - i,
    {
        if !plain(chars[i]) {
            assert(!is_plain(s@[i as int]));
            return single_quote(s);
        }
        i += 1;
    }
    s.to_owned()
}

/// The words of an argument vector, with a space between each two.
pub fn quote_command(args: &Vec<String>) -> (out: String)
    ensures
        out@ == command_words(text::views(args@)),
{
    let mut words: Vec<String> = Vec::new();
    let n: usize = args.len();
    let mut i: usize = 0;
    while i < n
        invariant
            i <= n,
            n == args@.len(),
            words@.len() == i,
            forall|j: int| 0 <= j < i ==> (#[trigger] words@[j])@ == word_of(args@[j]@),
        decreases n - i,
    {
        words.push(quote_word(args[i].as_str()));
        i += 1;
    }
    proof {
        reveal_strlit(" ");
        assert(" "@ =~= seq![' ']);
        assert(text::views(words@) =~= text::views(args@).map_values(
            |a: Seq<char>| word_of(a),
        ));
    }
    text::join_strings(&words, " ")
}

proof fn escaped_adds_up(a: Seq<char>, b: Seq<char>)
    ensures
        escaped(a + b) == escaped(a) + escaped(b),
    decreases b.len(),
{
    if b.len() == 0 {
        assert(a + b =~= a);
        assert(escaped(a) + escaped(b) =~= escaped(a));
    } else {
        escaped_adds_up(a, b.drop_last());
        assert((a + b).drop_last() =~= a + b.drop_last());
        assert(escaped(a + b) =~= escaped(a) + escaped(b));
    }
}

proof fn nothing_to_escape(s: Seq<char>)
    requires
        !s.contains('\''),
    ensures
        escaped(s) == s,
    decreases s.len(),
{
    if s.len() > 0 {
        assert(s.contains(s.last()));
        assert forall|i: int| 0 <= i < s.drop_last().len() implies s.drop_last()[i] != '\'' by {
            assert(s.contains(s[i]));
        }
        nothing_to_escape(s.drop_last());
        assert(escaped(s) =~= s);
    }
}

/// A word stands without quotes exactly where it is not empty and made of ASCII
/// letters and digits and of `-`, `_`, `.`, `/`, `=` and `:` alone. Every other word
/// stands between single quotes, as it is but for the single quotes in it, each of
/// which is closed, escaped and opened again.
pub proof fn only_harmless_words_stand_bare(s: Seq<char>, t: Seq<char>)
    ensures
        ({
            let harmless = forall|i: int|
                0 <= i < s.len() ==> ('a' <= #[trigger] s[i] <= 'z' || 'A' <= s[i] <= 'Z' || '0'
                    <= s[i] <= '9' || s[i] == '-' || s[i] == '_' || s[i] == '.' || s[i] == '/'
                    || s[i] == '=' || s[i] == ':');
            &&& s.len() > 0 && harmless ==> word_of(s) == s
            &&& s.len() == 0 || !harmless ==> word_of(s) == single_quoted(s)
            &&& single_quoted(s)[0] == '\'' && single_quoted(s).last() == '\''
            &&& !s.contains('\'') ==> single_quoted(s) == seq!['\''] + s + seq!['\'']
            &&& single_quoted(s + seq!['\''] + t) == single_quoted(s) + seq!['\\', '\'']
                + single_quoted(t)
        }),
{
    if !s.contains('\'') {
        nothing_to_escape(s);
    }
    escaped_adds_up(s, seq!['\'']);
    escaped_adds_up(s + seq!['\''], t);
    reveal_with_fuel(escaped, 2);
    assert(seq!['\''].drop_last() =~= Seq::<char>::empty());
    assert(escaped(seq!['\'']) =~= seq!['\'', '\\', '\'', '\'']);
    assert(single_quoted(s + seq!['\''] + t) =~= single_quoted(s) + seq!['\\', '\'']
        + single_quoted(t));
}

proof fn stays_beyond(r: Reading, line: Seq<char>)
    requires
        r.mode is Beyond,
    ensures
        r.run(line).mode is Beyond,
    decreases line.len(),
{
    if line.len() > 0 {
        stays_beyond(r, line.drop_last());
    }
}

/// The shell is not trusted with more than words: a line with a bare character
/// that is none of the harmless ones, a space, a quote or a backslash is not
/// taken to be made of words.
pub proof fn bare_specials_are_more_than_words(before: Seq<char>, c: char, after: Seq<char>)
    requires
        forall|i: int|
            0 <= i < before.len() ==> #[trigger] before[i] != '\'' && before[i] != '\\',
        !('a' <= c <= 'z' || 'A' <= c <= 'Z' || '0' <= c <= '9' || c == '-' || c == '_' || c == '.'
            || c == '/' || c == '=' || c == ':' || c == ' ' || c == '\'' || c == '\\'),
    ensures
        shell_words(before.push(c) + after) is None,
{
    let start = Reading {
        words: Seq::<Seq<char>>::empty(),
        word: None,
        mode: ReadingMode::Plain,
    };
    stays_bare(start, before);
    run_appends(start, before.push(c), after);
    assert(before.push(c).drop_last() =~= before);
    stays_beyond(start.run(before.push(c)), after);
}

proof fn stays_bare(r: Reading, line: Seq<char>)
    requires
        r.mode is Plain,
        forall|i: int| 0 <= i < line.len() ==> #[trigger] line[i] != '\'' && line[i] != '\\',
    ensures
        r.run(line).mode is Plain || r.run(line).mode is Beyond,
    decreases line.len(),
{
    if line.len() > 0 {
        assert forall|i: int| 0 <= i < line.drop_last().len() implies #[trigger] line.drop_last()[i]
            != '\'' && line.drop_last()[i] != '\\' by {
            assert(line.drop_last()[i] == line[i]);
        }
        stays_bare(r, line.drop_last());
        assert(line[line.len() - 1] == line.last());
    }
}

}

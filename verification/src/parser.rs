//! The command-line tokenizer.
//!
//! A line is split on unquoted spaces and tabs. Single and double quotes
//! toggle quote mode; inside quotes the other quote character, whitespace
//! and newlines are literal. Backslash escapes differ by mode (see `lex`).
//! A token never touched by quotes is tilde-expanded when it is `~` or
//! starts with `~/`. Input that ends inside a quote is not an error: the
//! caller is told which character is still open so it can append another
//! line and parse again.

use vstd::prelude::*;
use vstd::string::StrSliceExecFns;
use vstd::string::StringExecFns;
use crate::error::ShellError;
use crate::strutil::{chars_of_str, string_from_chars, str_eq, str_has_prefix, is_prefix_of};

verus! {

/// One parsed command line: the command name and its arguments in order.
#[derive(Debug, Clone, PartialEq)]
pub struct Command {
    pub name: String,
    pub args: Vec<String>,
}

/// The tokenizer. Tilde expansion uses the home directory value given at
/// construction; a parser built by `new` has none and leaves `~` alone.
pub struct CommandParser {
    home: Option<String>,
}

/// The characters that `trim_spec` strips from the ends of the input:
/// the Unicode whitespace set.
pub open spec fn is_space_char(c: char) -> bool {
    ||| c == ' ' || c == '\t' || c == '\n' || c == '\r'
    ||| c == '\u{0B}' || c == '\u{0C}'
    ||| c == '\u{85}' || c == '\u{A0}' || c == '\u{1680}'
    ||| ('\u{2000}' <= c && c <= '\u{200A}')
    ||| c == '\u{2028}' || c == '\u{2029}'
    ||| c == '\u{202F}' || c == '\u{205F}' || c == '\u{3000}'
}

/// `s` with leading whitespace removed.
pub open spec fn trim_front(s: Seq<char>) -> Seq<char>
    decreases s.len(),
{
    if s.len() > 0 && is_space_char(s[0]) {
        trim_front(s.drop_first())
    } else {
        s
    }
}

/// `s` with trailing whitespace removed.
pub open spec fn trim_back(s: Seq<char>) -> Seq<char>
    decreases s.len(),
{
    if s.len() > 0 && is_space_char(s[s.len() - 1]) {
        trim_back(s.drop_last())
    } else {
        s
    }
}

/// `s` with whitespace removed from both ends.
pub open spec fn trim_spec(s: Seq<char>) -> Seq<char> {
    trim_back(trim_front(s))
}

/// What a word never touched by quotes becomes: `~` is the home directory,
/// a `~/` prefix is replaced by the home directory and a slash, anything
/// else — or any word when no home directory is known — is unchanged.
pub open spec fn expand_tilde_spec(w: Seq<char>, home: Option<Seq<char>>) -> Seq<char> {
    match home {
        Option::None => w,
        Option::Some(h) => if w == seq!['~'] {
            h
        } else if w.len() >= 2 && w[0] == '~' && w[1] == '/' {
            h + seq!['/'] + w.skip(2)
        } else {
            w
        },
    }
}

/// The tokenizer's running state: finished tokens, the token being built,
/// whether that token has touched a quote (which exempts it from tilde
/// expansion), and the currently open quote character, if any.
pub struct LexState {
    pub parts: Seq<Seq<char>>,
    pub cur: Seq<char>,
    pub had_quotes: bool,
    pub quote: Option<char>,
}

/// The state before any character is read.
pub open spec fn init_state() -> LexState {
    LexState { parts: Seq::empty(), cur: Seq::empty(), had_quotes: false, quote: Option::None }
}

/// `st` with `c` appended to the token being built.
pub open spec fn st_push(st: LexState, c: char) -> LexState {
    LexState { parts: st.parts, cur: st.cur.push(c), had_quotes: st.had_quotes, quote: st.quote }
}

/// `st` with the open-quote character replaced.
pub open spec fn st_quote(st: LexState, q: Option<char>, hq: bool) -> LexState {
    LexState { parts: st.parts, cur: st.cur, had_quotes: hq, quote: q }
}

/// Close the token being built, if it is non-empty: expand it unless it
/// touched quotes, append it to the finished tokens, and start afresh.
/// An empty token is kept open, and keeps its quote mark.
pub open spec fn flush_state(st: LexState, home: Option<Seq<char>>) -> LexState {
    if st.cur.len() == 0 {
        st
    } else {
        LexState {
            parts: st.parts.push(
                if st.had_quotes {
                    st.cur
                } else {
                    expand_tilde_spec(st.cur, home)
                },
            ),
            cur: Seq::empty(),
            had_quotes: false,
            quote: st.quote,
        }
    }
}

/// What tokenizing produces: the finished tokens; the signal that input
/// ended with a quote (or a backslash inside quotes) still open, carrying
/// that character; or the malformed case of a backslash that ends the
/// input outside quotes.
pub enum LexOutcome {
    Tokens(Seq<Seq<char>>),
    Incomplete(char),
    Dangling,
}

/// The outcome when the input ends in state `st`: an open quote is reported
/// as incomplete; otherwise a non-empty pending token is flushed, and when
/// the pending token is empty but earlier tokens exist — the input ended
/// with an empty quoted string — an empty token is appended.
pub open spec fn finish_state(st: LexState, home: Option<Seq<char>>) -> LexOutcome {
    match st.quote {
        Option::Some(q) => LexOutcome::Incomplete(q),
        Option::None => LexOutcome::Tokens(
            if st.cur.len() > 0 {
                st.parts.push(
                    if st.had_quotes {
                        st.cur
                    } else {
                        expand_tilde_spec(st.cur, home)
                    },
                )
            } else if st.parts.len() > 0 {
                st.parts.push(Seq::empty())
            } else {
                st.parts
            },
        ),
    }
}

/// The tokenizer itself, one character class at a time, from position `i`
/// of `s` in state `st`.
///
/// Quotes toggle quote mode; the other quote character inside quotes is
/// literal. Backslash inside quotes maps `n`/`t`/`r` to the control
/// character, keeps an escaped backslash or quote, splices away a
/// backslash-newline pair, and keeps both characters otherwise; outside
/// quotes it keeps an escaped space, splices away backslash-newline, and
/// otherwise keeps only the following character. A backslash with nothing
/// after it is incomplete input inside quotes and malformed outside.
/// Unquoted whitespace (space, tab or newline) closes the pending token.
pub open spec fn lex(s: Seq<char>, i: int, st: LexState, home: Option<Seq<char>>) -> LexOutcome
    decreases s.len() - i,
{
    if i < 0 || i >= s.len() {
        finish_state(st, home)
    } else {
        let c = s[i];
        if c == '"' || c == '\'' {
            match st.quote {
                Option::None => lex(s, i + 1, st_quote(st, Option::Some(c), true), home),
                Option::Some(q) => if q == c {
                    lex(s, i + 1, st_quote(st, Option::None, st.had_quotes), home)
                } else {
                    lex(s, i + 1, st_push(st, c), home)
                },
            }
        } else if c == '\\' {
            if i + 1 >= s.len() {
                if st.quote is Some {
                    LexOutcome::Incomplete('\\')
                } else {
                    LexOutcome::Dangling
                }
            } else {
                let d = s[i + 1];
                if st.quote is Some {
                    if d == 'n' {
                        lex(s, i + 2, st_push(st, '\n'), home)
                    } else if d == 't' {
                        lex(s, i + 2, st_push(st, '\t'), home)
                    } else if d == 'r' {
                        lex(s, i + 2, st_push(st, '\r'), home)
                    } else if d == '\\' || d == '"' || d == '\'' {
                        lex(s, i + 2, st_push(st, d), home)
                    } else if d == '\n' {
                        lex(s, i + 2, st, home)
                    } else {
                        lex(s, i + 2, st_push(st_push(st, '\\'), d), home)
                    }
                } else {
                    if d == ' ' {
                        lex(s, i + 2, st_push(st, ' '), home)
                    } else if d == '\n' {
                        lex(s, i + 2, st, home)
                    } else {
                        lex(s, i + 2, st_push(st, d), home)
                    }
                }
            }
        } else if c == '\n' || c == ' ' || c == '\t' {
            if st.quote is Some {
                lex(s, i + 1, st_push(st, c), home)
            } else {
                lex(s, i + 1, flush_state(st, home), home)
            }
        } else {
            lex(s, i + 1, st_push(st, c), home)
        }
    }
}

/// What `parse` computes for a given input and home directory.
pub open spec fn parse_outcome(input: Seq<char>, home: Option<Seq<char>>) -> LexOutcome {
    lex(trim_spec(input), 0, init_state(), home)
}

/// An `Option<String>` seen as an optional character sequence.
pub open spec fn opt_view(h: Option<String>) -> Option<Seq<char>> {
    match h {
        Option::None => Option::None,
        Option::Some(s) => Option::Some(s@),
    }
}

proof fn lemma_trim_front_range(s: Seq<char>, start: int)
    requires
        0 <= start <= s.len(),
        forall|j: int| 0 <= j < start ==> is_space_char(s[j]),
        start == s.len() || !is_space_char(s[start]),
    ensures
        trim_front(s) =~= s.skip(start),
    decreases start,
{
    if start == 0 {
        if s.len() == 0 || !is_space_char(s[0]) {
            assert(trim_front(s) == s);
        }
    } else {
        assert(is_space_char(s[0]));
        let t = s.drop_first();
        assert(t =~= s.skip(1));
        lemma_trim_front_range(t, start - 1);
        assert(t.skip(start - 1) =~= s.skip(start));
    }
}

proof fn lemma_trim_back_range(s: Seq<char>, end: int)
    requires
        0 <= end <= s.len(),
        forall|j: int| end <= j < s.len() ==> is_space_char(s[j]),
        end == 0 || !is_space_char(s[end - 1]),
    ensures
        trim_back(s) =~= s.take(end),
    decreases s.len(),
{
    if end == s.len() {
        if s.len() == 0 || !is_space_char(s[s.len() - 1]) {
            assert(trim_back(s) == s);
            assert(s.take(end) =~= s);
        }
    } else {
        assert(is_space_char(s[s.len() - 1]));
        let t = s.drop_last();
        assert(t =~= s.take(s.len() - 1));
        lemma_trim_back_range(t, end);
        assert(t.take(end) =~= s.take(end));
    }
}

proof fn lemma_trim_range(s: Seq<char>, start: int, end: int)
    requires
        0 <= start <= end <= s.len(),
        forall|j: int| 0 <= j < start ==> is_space_char(s[j]),
        forall|j: int| end <= j < s.len() ==> is_space_char(s[j]),
        start == end || !is_space_char(s[start]),
        start == end || !is_space_char(s[end - 1]),
        start == s.len() || start < end || end == start,
    ensures
        trim_spec(s) =~= s.subrange(start, end),
{
    if start == end {
        // everything is whitespace
        if start == s.len() {
            lemma_trim_front_range(s, start);
            assert(trim_front(s) =~= s.skip(start));
            assert(s.skip(start).len() == 0);
            lemma_trim_back_range(s.skip(start), 0);
        } else {
            // start == end < len means s[start] is both before end (space) and at start
            // cannot happen unless all spaces; handle by trimming front to len
            lemma_trim_front_range(s, s.len() as int);
            assert(trim_front(s) =~= s.skip(s.len() as int));
            lemma_trim_back_range(s.skip(s.len() as int), 0);
            assert(s.subrange(start, end).len() == 0);
        }
    } else {
        lemma_trim_front_range(s, start);
        let t = s.skip(start);
        assert(trim_front(s) =~= t);
        lemma_trim_back_range(t, end - start);
        assert(t.take(end - start) =~= s.subrange(start, end));
    }
}

/// A character with no special meaning to the tokenizer: not whitespace,
/// not a quote, not a backslash.
pub open spec fn plain_char(c: char) -> bool {
    !is_space_char(c) && c != '"' && c != '\'' && c != '\\'
}

/// A word the tokenizer reproduces verbatim: non-empty, made of plain
/// characters, and exempt from tilde expansion because it does not start
/// with `~`.
pub open spec fn plain_word(w: Seq<char>) -> bool {
    &&& w.len() > 0
    &&& (forall|i: int| 0 <= i < w.len() ==> plain_char(w[i]))
    &&& w[0] != '~'
}

/// The words joined with single spaces, in order.
pub open spec fn join_words(ws: Seq<Seq<char>>) -> Seq<char>
    decreases ws.len(),
{
    if ws.len() == 0 {
        Seq::empty()
    } else if ws.len() == 1 {
        ws[0]
    } else {
        ws[0] + seq![' '] + join_words(ws.skip(1))
    }
}

proof fn lemma_lex_plain_run(
    s: Seq<char>,
    i: int,
    j: int,
    st: LexState,
    home: Option<Seq<char>>,
)
    requires
        0 <= i <= j <= s.len(),
        st.quote is None,
        forall|k: int| i <= k < j ==> plain_char(s[k]),
    ensures
        lex(s, i, st, home) == lex(
            s,
            j,
            LexState {
                parts: st.parts,
                cur: st.cur + s.subrange(i, j),
                had_quotes: st.had_quotes,
                quote: Option::None,
            },
            home,
        ),
    decreases j - i,
{
    if i == j {
        assert(st.cur + s.subrange(i, j) =~= st.cur);
        assert(LexState {
            parts: st.parts,
            cur: st.cur + s.subrange(i, j),
            had_quotes: st.had_quotes,
            quote: Option::None,
        } == st);
    } else {
        let c = s[i];
        assert(plain_char(c));
        assert(lex(s, i, st, home) == lex(s, i + 1, st_push(st, c), home));
        lemma_lex_plain_run(s, i + 1, j, st_push(st, c), home);
        assert(st_push(st, c).cur + s.subrange(i + 1, j) =~= st.cur + s.subrange(i, j));
    }
}

proof fn lemma_plain_word_not_tilde(w: Seq<char>, home: Option<Seq<char>>)
    requires
        plain_word(w),
    ensures
        expand_tilde_spec(w, home) == w,
{
    if w == seq!['~'] {
        assert(w[0] == '~');
    }
}

proof fn lemma_lex_join(
    s: Seq<char>,
    i: int,
    parts: Seq<Seq<char>>,
    ws: Seq<Seq<char>>,
    home: Option<Seq<char>>,
)
    requires
        0 <= i <= s.len(),
        s.skip(i) == join_words(ws),
        ws.len() > 0,
        forall|k: int| 0 <= k < ws.len() ==> plain_word(ws[k]),
    ensures
        lex(
            s,
            i,
            LexState { parts, cur: Seq::empty(), had_quotes: false, quote: Option::None },
            home,
        ) == LexOutcome::Tokens(parts + ws),
    decreases ws.len(),
{
    let st = LexState { parts, cur: Seq::empty(), had_quotes: false, quote: Option::None };
    let w = ws[0];
    assert(plain_word(w));
    let j = i + w.len();
    if ws.len() == 1 {
        assert(join_words(ws) == w);
        assert(s.len() == j);
        assert forall|k: int| i <= k < j implies s[k] == s.skip(i)[k - i] && plain_char(
            #[trigger] s[k],
        ) by {
            assert(s.skip(i)[k - i] == s[k]);
            assert(s.skip(i)[k - i] == join_words(ws)[k - i]);
            assert(join_words(ws)[k - i] == w[k - i]);
        }
        lemma_lex_plain_run(s, i, j, st, home);
        let stw = LexState {
            parts,
            cur: Seq::empty() + s.subrange(i, j),
            had_quotes: false,
            quote: Option::None,
        };
        assert(stw.cur =~= w);
        lemma_plain_word_not_tilde(w, home);
        assert(lex(s, j, stw, home) == finish_state(stw, home));
        assert(parts.push(w) =~= parts + ws);
    } else {
        let rest = ws.skip(1);
        assert(join_words(ws) == w + seq![' '] + join_words(rest));
        assert forall|k: int| i <= k < j implies s[k] == s.skip(i)[k - i] && plain_char(
            #[trigger] s[k],
        ) by {
            assert(s.skip(i)[k - i] == s[k]);
            assert(s.skip(i)[k - i] == join_words(ws)[k - i]);
            assert(join_words(ws)[k - i] == w[k - i]);
        }
        assert(j + 1 <= s.len()) by {
            assert(join_words(ws).len() >= w.len() + 1);
        }
        lemma_lex_plain_run(s, i, j, st, home);
        let stw = LexState {
            parts,
            cur: Seq::empty() + s.subrange(i, j),
            had_quotes: false,
            quote: Option::None,
        };
        assert(stw.cur =~= w);
        assert(s[j] == s.skip(i)[w.len() as int]);
        assert(s.skip(i)[w.len() as int] == ' ');
        lemma_plain_word_not_tilde(w, home);
        assert(w.len() > 0);
        let stf = flush_state(stw, home);
        assert(stf.parts =~= parts.push(w));
        assert(lex(s, j, stw, home) == lex(s, j + 1, stf, home));
        assert(s.skip(j + 1) =~= join_words(rest)) by {
            assert(forall|k: int| 0 <= k < s.len() - j - 1 ==> s.skip(j + 1)[k] == s[j + 1 + k]
                && s[j + 1 + k] == s.skip(i)[w.len() + 1 + k] && s.skip(i)[w.len() + 1 + k]
                == join_words(rest)[k]);
        }
        assert(forall|k: int| 0 <= k < rest.len() ==> plain_word(rest[k]));
        lemma_lex_join(s, j + 1, parts.push(w), rest, home);
        let stf2 = LexState {
            parts: parts.push(w),
            cur: Seq::empty(),
            had_quotes: false,
            quote: Option::None,
        };
        assert(stf == stf2);
        assert(parts.push(w) + rest =~= parts + ws);
    }
}

proof fn lemma_join_first_last(ws: Seq<Seq<char>>)
    requires
        ws.len() > 0,
        forall|k: int| 0 <= k < ws.len() ==> plain_word(ws[k]),
    ensures
        join_words(ws).len() > 0,
        join_words(ws)[0] == ws[0][0],
        plain_char(join_words(ws)[join_words(ws).len() - 1]),
    decreases ws.len(),
{
    let s = join_words(ws);
    if ws.len() == 1 {
        assert(s == ws[0]);
        assert(plain_char(s[s.len() - 1]));
    } else {
        let rest = ws.skip(1);
        assert(forall|k: int| 0 <= k < rest.len() ==> plain_word(rest[k]));
        lemma_join_first_last(rest);
        let tail = join_words(rest);
        assert(s == ws[0] + seq![' '] + tail);
        assert(s[0] == ws[0][0]);
        assert(s[s.len() - 1] == tail[tail.len() - 1]);
    }
}

/// Round-trip law: any command line that parses into plain words — each
/// non-empty, free of whitespace, quotes and backslashes, and not starting
/// with `~` — can be re-joined with single spaces and re-parsed, and the
/// second parse yields exactly the same tokens (so in particular the same
/// token count). Tokens that carry quoted whitespace or quote characters
/// are outside this law: re-joining them does not reproduce them.
pub proof fn lemma_round_trip(input: Seq<char>, home: Option<Seq<char>>, toks: Seq<Seq<char>>)
    requires
        parse_outcome(input, home) == LexOutcome::Tokens(toks),
        toks.len() > 0,
        forall|k: int| 0 <= k < toks.len() ==> plain_word(toks[k]),
    ensures
        parse_outcome(join_words(toks), home) == LexOutcome::Tokens(toks),
{
    let s = join_words(toks);
    lemma_join_first_last(toks);
    assert(!is_space_char(s[0]));
    assert(!is_space_char(s[s.len() - 1]));
    assert(trim_front(s) == s);
    assert(trim_back(s) == s);
    assert(trim_spec(s) == s);
    assert(s.skip(0) =~= join_words(toks));
    lemma_lex_join(s, 0, Seq::empty(), toks, home);
    assert(Seq::empty() + toks =~= toks);
    assert(init_state() == LexState {
        parts: Seq::<Seq<char>>::empty(),
        cur: Seq::<char>::empty(),
        had_quotes: false,
        quote: Option::<char>::None,
    });
}

fn is_space(c: char) -> (b: bool)
    ensures
        b == is_space_char(c),
{
    c == ' ' || c == '\t' || c == '\n' || c == '\r' || c == '\u{0B}' || c == '\u{0C}' || c
        == '\u{85}' || c == '\u{A0}' || c == '\u{1680}' || ('\u{2000}' <= c && c <= '\u{200A}')
        || c == '\u{2028}' || c == '\u{2029}' || c == '\u{202F}' || c == '\u{205F}' || c
        == '\u{3000}'
}

fn flush_token(parts: &mut Vec<String>, cur: &mut Vec<char>, hq: &mut bool, home: &Option<String>)
    ensures
        ({
            let st0 = LexState {
                parts: old(parts).deep_view(),
                cur: old(cur)@,
                had_quotes: *old(hq),
                quote: Option::None,
            };
            let st1 = flush_state(st0, opt_view(*home));
            final(parts).deep_view() == st1.parts && final(cur)@ == st1.cur && *final(hq)
                == st1.had_quotes
        }),
{
    if cur.len() > 0 {
        let word_str = string_from_chars(cur);
        let pushed = if !*hq {
            expand_tilde_word(word_str.as_str(), home)
        } else {
            word_str
        };
        let ghost pv = pushed@;
        parts.push(pushed);
        cur.clear();
        *hq = false;
        proof {
            assert(parts.deep_view() =~= old(parts).deep_view().push(pv));
        }
    }
}

/// Tilde expansion of one whole word, against an optional home directory:
/// exactly `~` becomes the home directory, a leading `~/` is replaced by
/// the home directory and `/`, and any other word is returned unchanged.
pub fn expand_tilde_word(word: &str, home: &Option<String>) -> (r: String)
    ensures
        r@ == expand_tilde_spec(word@, opt_view(*home)),
{
    match home {
        Option::None => {
            let r = String::from_str(word);
            r
        },
        Option::Some(h) => {
            if str_eq(word, "~") {
                proof {
                    reveal_strlit("~");
                    assert(word@ =~= seq!['~']);
                }
                h.clone()
            } else if str_has_prefix(word, "~/") {
                proof {
                    reveal_strlit("~/");
                    reveal_strlit("/");
                }
                let n = word.unicode_len();
                let rest = word.substring_char(2, n);
                let mut r = h.clone();
                r.append("/");
                r.append(rest);
                proof {
                    assert(word@.len() >= 2 && word@[0] == '~' && word@[1] == '/');
                    assert(r@ =~= h@ + seq!['/'] + word@.skip(2));
                }
                r
            } else {
                proof {
                    reveal_strlit("~");
                    reveal_strlit("~/");
                    assert("~"@ =~= seq!['~']);
                    assert(word@ != seq!['~']);
                    if word@.len() >= 2 && word@[0] == '~' && word@[1] == '/' {
                        assert(is_prefix_of("~/"@, word@));
                    }
                }
                let r = String::from_str(word);
                r
            }
        },
    }
}

impl CommandParser {
    /// The home directory this parser expands `~` to, if any.
    pub closed spec fn home_view(&self) -> Option<Seq<char>> {
        opt_view(self.home)
    }

    /// A parser with no home directory: `~` is left alone.
    pub fn new() -> (p: Self)
        ensures
            p.home_view() is None,
    {
        CommandParser { home: Option::None }
    }

    /// A parser whose tilde expansion uses the given home directory.
    pub fn with_home(home: Option<String>) -> (p: Self)
        ensures
            p.home_view() == opt_view(home),
    {
        CommandParser { home }
    }

    /// Tokenize one logical input line.
    ///
    /// Whitespace-only input yields `Ok(None)`. Balanced input yields the
    /// command: the first token is its name, the rest its arguments, in
    /// order. Input that ends inside a quote yields
    /// `Err(ShellError::IncompleteInput(q))` with the open quote character
    /// (or `'\\'` for a backslash dangling inside quotes), telling the
    /// caller to append another line and retry. A backslash that ends the
    /// input outside quotes is malformed and yields a parse error.
    pub fn parse(&self, input: &str) -> (r: Result<Option<Command>, ShellError>)
        ensures
            ({
                let out = parse_outcome(input@, self.home_view());
                match out {
                    LexOutcome::Tokens(toks) => {
                        if toks.len() == 0 {
                            r == Ok::<Option<Command>, ShellError>(Option::None)
                        } else {
                            &&& r matches Ok(Some(cmd))
                            &&& cmd.name@ == toks[0]
                            &&& cmd.args.deep_view() == toks.skip(1)
                        }
                    },
                    LexOutcome::Incomplete(c) => r == Err::<Option<Command>, ShellError>(
                        ShellError::IncompleteInput(c),
                    ),
                    LexOutcome::Dangling => r matches Err(ShellError::ParseError(m)) && m@
                        == "unexpected end of input"@,
                }
            }),
    {
        let chars = chars_of_str(input);
        let n = chars.len();
        let mut start: usize = 0;
        while start < n && is_space(chars[start])
            invariant
                start <= n,
                n == chars.len(),
                forall|j: int| 0 <= j < start ==> is_space_char(chars@[j]),
            decreases n - start,
        {
            start = start + 1;
        }
        let mut end: usize = n;
        while end > start && is_space(chars[end - 1])
            invariant
                start <= end <= n,
                n == chars.len(),
                forall|j: int| end <= j < n ==> is_space_char(chars@[j]),
            decreases end,
        {
            end = end - 1;
        }
        let mut t: Vec<char> = Vec::new();
        let mut k: usize = start;
        while k < end
            invariant
                start <= k <= end <= n,
                n == chars.len(),
                t@ == chars@.subrange(start as int, k as int),
            decreases end - k,
        {
            t.push(chars[k]);
            k = k + 1;
            proof {
                assert(t@ =~= chars@.subrange(start as int, k as int));
            }
        }
        proof {
            lemma_trim_range(chars@, start as int, end as int);
            assert(t@ == trim_spec(input@));
        }
        let ghost hv = self.home_view();
        let ghost target = lex(t@, 0, init_state(), hv);
        proof {
            assert(target == parse_outcome(input@, hv));
        }
        let tlen = t.len();
        let mut parts: Vec<String> = Vec::new();
        let mut cur: Vec<char> = Vec::new();
        let mut hq: bool = false;
        let mut q: Option<char> = Option::None;
        let mut i: usize = 0;
        proof {
            assert(parts.deep_view() =~= Seq::<Seq<char>>::empty());
            assert(LexState {
                parts: parts.deep_view(),
                cur: cur@,
                had_quotes: hq,
                quote: q,
            } == init_state());
        }
        while i < tlen
            invariant
                i <= tlen,
                tlen == t.len(),
                hv == opt_view(self.home),
                hv == self.home_view(),
                target == parse_outcome(input@, hv),
                lex(
                    t@,
                    i as int,
                    LexState { parts: parts.deep_view(), cur: cur@, had_quotes: hq, quote: q },
                    hv,
                ) == target,
            decreases tlen - i,
        {
            let ghost i0 = i as int;
            let ghost st0 = LexState {
                parts: parts.deep_view(),
                cur: cur@,
                had_quotes: hq,
                quote: q,
            };
            let c = t[i];
            if c == '"' || c == '\'' {
                match q {
                    Option::None => {
                        q = Option::Some(c);
                        hq = true;
                        proof {
                            assert(LexState {
                                parts: parts.deep_view(),
                                cur: cur@,
                                had_quotes: hq,
                                quote: q,
                            } == st_quote(st0, Option::Some(c), true));
                        }
                    },
                    Option::Some(qc) => {
                        if qc == c {
                            q = Option::None;
                        } else {
                            cur.push(c);
                        }
                    },
                }
                i = i + 1;
            } else if c == '\\' {
                if i + 1 >= tlen {
                    if q.is_some() {
                        proof {
                            assert(lex(t@, i0, st0, hv) == LexOutcome::Incomplete('\\'));
                        }
                        return Err(ShellError::IncompleteInput('\\'));
                    } else {
                        proof {
                            assert(lex(t@, i0, st0, hv) == LexOutcome::Dangling);
                        }
                        return Err(ShellError::ParseError(String::from_str(
                            "unexpected end of input",
                        )));
                    }
                }
                let d = t[i + 1];
                if q.is_some() {
                    if d == 'n' {
                        cur.push('\n');
                    } else if d == 't' {
                        cur.push('\t');
                    } else if d == 'r' {
                        cur.push('\r');
                    } else if d == '\\' || d == '"' || d == '\'' {
                        cur.push(d);
                    } else if d == '\n' {
                        // backslash-newline inside quotes: line continuation, both dropped
                    } else {
                        cur.push('\\');
                        cur.push(d);
                    }
                } else {
                    if d == ' ' {
                        cur.push(' ');
                    } else if d == '\n' {
                        // backslash-newline outside quotes: line continuation, both dropped
                    } else {
                        cur.push(d);
                    }
                }
                i = i + 2;
            } else if c == '\n' || c == ' ' || c == '\t' {
                if q.is_some() {
                    cur.push(c);
                } else {
                    flush_token(&mut parts, &mut cur, &mut hq, &self.home);
                }
                i = i + 1;
            } else {
                cur.push(c);
                i = i + 1;
            }
            proof {
                assert(lex(
                    t@,
                    i as int,
                    LexState { parts: parts.deep_view(), cur: cur@, had_quotes: hq, quote: q },
                    hv,
                ) == lex(t@, i0, st0, hv));
            }
        }
        let ghost stf = LexState { parts: parts.deep_view(), cur: cur@, had_quotes: hq, quote: q };
        proof {
            assert(lex(t@, i as int, stf, hv) == finish_state(stf, hv));
            assert(target == finish_state(stf, hv));
        }
        match q {
            Option::Some(qc) => {
                return Err(ShellError::IncompleteInput(qc));
            },
            Option::None => {},
        }
        if cur.len() > 0 {
            flush_token(&mut parts, &mut cur, &mut hq, &self.home);
        } else if parts.len() > 0 {
            let empty_arg = String::new();
            parts.push(empty_arg);
            proof {
                assert(parts.deep_view() =~= stf.parts.push(Seq::<char>::empty()));
            }
        }
        let ghost toks = parts.deep_view();
        proof {
            assert(target == LexOutcome::Tokens(toks));
        }
        if parts.len() == 0 {
            return Ok(Option::None);
        }
        let name = parts.remove(0);
        proof {
            assert(name@ == toks[0]);
            assert(parts.deep_view() =~= toks.skip(1));
        }
        Ok(Option::Some(Command { name, args: parts }))
    }
}

} // verus!

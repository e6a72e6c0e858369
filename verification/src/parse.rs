//! Parsing of link-listing output (one line per interface) into interface
//! statuses. A line is split on whitespace; the second token, with trailing
//! colons removed, names the interface, and the presence of the token `UP`
//! anywhere in the line marks it up. Lines with fewer than three tokens are
//! skipped.

use vstd::prelude::*;

verus! {

/// Whitespace for the purpose of token splitting: the ASCII characters
/// that separate fields in link-listing output.
pub open spec fn is_ws(c: char) -> bool {
    c == ' ' || c == '\t' || c == '\n' || c == '\r' || c == '\x0b' || c == '\x0c'
}

/// The sequence with its leading whitespace removed.
pub open spec fn skip_ws(s: Seq<char>) -> Seq<char>
    decreases s.len(),
{
    if s.len() == 0 {
        s
    } else if is_ws(s[0]) {
        skip_ws(s.drop_first())
    } else {
        s
    }
}

/// The maximal non-whitespace prefix of the sequence.
pub open spec fn take_tok(s: Seq<char>) -> Seq<char>
    decreases s.len(),
{
    if s.len() == 0 || is_ws(s[0]) {
        Seq::<char>::empty()
    } else {
        seq![s[0]] + take_tok(s.drop_first())
    }
}

proof fn lemma_skip_ws_len(s: Seq<char>)
    ensures
        skip_ws(s).len() <= s.len(),
        skip_ws(s).len() > 0 ==> !is_ws(skip_ws(s)[0]),
    decreases s.len(),
{
    if s.len() > 0 && is_ws(s[0]) {
        lemma_skip_ws_len(s.drop_first());
    }
}

proof fn lemma_take_tok_len(s: Seq<char>)
    ensures
        take_tok(s).len() <= s.len(),
        s.len() > 0 && !is_ws(s[0]) ==> take_tok(s).len() >= 1,
    decreases s.len(),
{
    if s.len() > 0 && !is_ws(s[0]) {
        lemma_take_tok_len(s.drop_first());
    }
}

/// The whitespace-separated tokens of the sequence, in order.
pub open spec fn tokens(s: Seq<char>) -> Seq<Seq<char>>
    decreases s.len(),
    via tokens_decreases
{
    if skip_ws(s).len() == 0 {
        Seq::<Seq<char>>::empty()
    } else {
        let rest = skip_ws(s);
        seq![take_tok(rest)] + tokens(rest.skip(take_tok(rest).len() as int))
    }
}

#[via_fn]
proof fn tokens_decreases(s: Seq<char>) {
    lemma_skip_ws_len(s);
    if skip_ws(s).len() > 0 {
        lemma_take_tok_len(skip_ws(s));
    }
}

proof fn lemma_tokens_skip_one(s: Seq<char>)
    requires
        s.len() > 0,
        is_ws(s[0]),
    ensures
        tokens(s) == tokens(s.drop_first()),
{
    assert(skip_ws(s) == skip_ws(s.drop_first()));
}

proof fn lemma_tokens_head(s: Seq<char>)
    requires
        s.len() > 0,
        !is_ws(s[0]),
    ensures
        tokens(s) == seq![take_tok(s)] + tokens(s.skip(take_tok(s).len() as int)),
        1 <= take_tok(s).len() <= s.len(),
{
    assert(skip_ws(s) == s);
    lemma_take_tok_len(s);
}

proof fn lemma_take_tok_run(s: Seq<char>, j: int)
    requires
        0 <= j <= s.len(),
        forall|k: int| 0 <= k < j ==> !is_ws(s[k]),
        j == s.len() || is_ws(s[j]),
    ensures
        take_tok(s) =~= s.subrange(0, j),
    decreases s.len(),
{
    if j == 0 {
    } else {
        assert(!is_ws(s[0]));
        lemma_take_tok_run(s.drop_first(), j - 1);
        assert(take_tok(s) =~= seq![s[0]] + s.drop_first().subrange(0, j - 1));
    }
}

fn is_ws_char(c: char) -> (b: bool)
    ensures
        b == is_ws(c),
{
    c == ' ' || c == '\t' || c == '\n' || c == '\r' || c == '\x0b' || c == '\x0c'
}

/// Splits a line into its whitespace-separated tokens, in order.
pub fn split_ws(line: &str) -> (toks: Vec<String>)
    ensures
        toks.deep_view() == tokens(line@),
{
    let n = line.unicode_len();
    let mut toks: Vec<String> = Vec::new();
    let mut i: usize = 0;
    proof {
        assert(line@.skip(0) =~= line@);
        assert(toks.deep_view() =~= Seq::<Seq<char>>::empty());
        assert(toks.deep_view() + tokens(line@) =~= tokens(line@));
    }
    while i < n
        invariant
            n == line@.len(),
            i <= n,
            toks.deep_view() + tokens(line@.skip(i as int)) == tokens(line@),
        decreases n - i,
    {
        let c = line.get_char(i);
        if is_ws_char(c) {
            proof {
                lemma_tokens_skip_one(line@.skip(i as int));
                assert(line@.skip(i as int).drop_first() =~= line@.skip(i as int + 1));
            }
            i = i + 1;
        } else {
            let mut j: usize = i + 1;
            while j < n && !is_ws_char(line.get_char(j))
                invariant
                    n == line@.len(),
                    i < j <= n,
                    forall|k: int| i <= k < j ==> !is_ws(line@[k]),
                decreases n - j,
            {
                j = j + 1;
            }
            let tok = line.substring_char(i, j).to_owned();
            let ghost pre = toks.deep_view();
            proof {
                let rest = line@.skip(i as int);
                lemma_tokens_head(rest);
                lemma_take_tok_run(rest, j - i);
                assert(rest.subrange(0, j - i) =~= line@.subrange(i as int, j as int));
                assert(rest.skip(j - i) =~= line@.skip(j as int));
                assert(tokens(rest) == seq![tok@] + tokens(line@.skip(j as int)));
            }
            toks.push(tok);
            proof {
                assert(toks.deep_view() =~= pre + seq![tok@]);
                assert((pre + seq![tok@]) + tokens(line@.skip(j as int)) =~= pre + (seq![tok@]
                    + tokens(line@.skip(j as int))));
            }
            i = j;
        }
    }
    proof {
        assert(line@.skip(n as int) =~= Seq::<char>::empty());
        assert(skip_ws(Seq::<char>::empty()).len() == 0);
        assert(tokens(Seq::<char>::empty()) =~= Seq::<Seq<char>>::empty());
        assert(toks.deep_view() + Seq::<Seq<char>>::empty() =~= toks.deep_view());
    }
    toks
}

/// The sequence with its trailing colons removed.
pub open spec fn trim_colons(t: Seq<char>) -> Seq<char>
    decreases t.len(),
{
    if t.len() > 0 && t.last() == ':' {
        trim_colons(t.drop_last())
    } else {
        t
    }
}

proof fn lemma_trim_colons_run(t: Seq<char>, e: int)
    requires
        0 <= e <= t.len(),
        forall|k: int| e <= k < t.len() ==> t[k] == ':',
        e == 0 || t[e - 1] != ':',
    ensures
        trim_colons(t) =~= t.subrange(0, e),
    decreases t.len(),
{
    if t.len() > 0 && t.last() == ':' {
        assert(e < t.len());
        lemma_trim_colons_run(t.drop_last(), e);
        assert(t.drop_last().subrange(0, e) =~= t.subrange(0, e));
    } else {
        assert(e == t.len());
        assert(t.subrange(0, e) =~= t);
    }
}

/// A trimmed token never ends in a colon.
proof fn lemma_trim_colons_no_trailing(t: Seq<char>)
    ensures
        trim_colons(t).len() > 0 ==> trim_colons(t).last() != ':',
    decreases t.len(),
{
    if t.len() > 0 && t.last() == ':' {
        lemma_trim_colons_no_trailing(t.drop_last());
    }
}

/// A token with any non-colon character keeps a non-empty remainder.
proof fn lemma_trim_colons_nonempty(t: Seq<char>)
    requires
        exists|k: int| 0 <= k < t.len() && t[k] != ':',
    ensures
        trim_colons(t).len() > 0,
    decreases t.len(),
{
    if t.len() > 0 && t.last() == ':' {
        let k = choose|k: int| 0 <= k < t.len() && t[k] != ':';
        assert(k < t.len() - 1);
        assert(t.drop_last()[k] != ':');
        lemma_trim_colons_nonempty(t.drop_last());
    }
}

/// Removes every trailing colon from a token.
pub fn trim_trailing_colons(t: &str) -> (r: String)
    ensures
        r@ == trim_colons(t@),
{
    let n = t.unicode_len();
    let mut e: usize = n;
    while e > 0 && t.get_char(e - 1) == ':'
        invariant
            n == t@.len(),
            e <= n,
            forall|k: int| e <= k < n ==> t@[k] == ':',
        decreases e,
    {
        e = e - 1;
    }
    proof {
        lemma_trim_colons_run(t@, e as int);
    }
    t.substring_char(0, e).to_owned()
}

/// Whether the marker `UP` occurs anywhere in the line — be it the state
/// field or an entry of the flag list the kernel prints between angle
/// brackets.
pub open spec fn contains_up(s: Seq<char>) -> bool {
    exists|i: int| 0 <= i && i + 2 <= s.len() && #[trigger] s.subrange(i, i + 2) == "UP"@
}

/// Whether the marker `UP` occurs anywhere in the line.
fn line_has_up(line: &str) -> (b: bool)
    ensures
        b == contains_up(line@),
{
    proof {
        reveal_strlit("UP");
    }
    let n = line.unicode_len();
    if n < 2 {
        proof {
            if contains_up(line@) {
                let i = choose|i: int|
                    0 <= i && i + 2 <= line@.len() && #[trigger] line@.subrange(i, i + 2)
                        == "UP"@;
                assert(false);
            }
        }
        return false;
    }
    let mut k: usize = 0;
    while k <= n - 2
        invariant
            n == line@.len(),
            2 <= n,
            k <= n - 1,
            "UP"@ == seq!['U', 'P'],
            forall|i: int|
                0 <= i < k ==> !(#[trigger] line@[i] == 'U' && line@[i + 1] == 'P'),
        decreases n - k,
    {
        if line.get_char(k) == 'U' && line.get_char(k + 1) == 'P' {
            proof {
                assert(line@.subrange(k as int, k + 2) =~= "UP"@);
            }
            return true;
        }
        k = k + 1;
    }
    proof {
        assert forall|i: int| 0 <= i && i + 2 <= line@.len() implies #[trigger] line@.subrange(
            i,
            i + 2,
        ) != "UP"@ by {
            assert(i < k);
            if line@.subrange(i, i + 2) == "UP"@ {
                assert(line@.subrange(i, i + 2)[0] == 'U');
                assert(line@.subrange(i, i + 2)[1] == 'P');
            }
        }
    }
    false
}

/// The up/down state of a network interface as reported by one line of
/// link-listing output.
#[derive(Clone, Copy, Debug, PartialEq, Eq, Structural)]
pub enum LinkState {
    Up,
    Down,
}

impl LinkState {
    /// The state as it is reported: `UP` or `DOWN`, nothing else.
    pub fn label(&self) -> (r: &'static str)
        ensures
            self is Up ==> r@ == "UP"@,
            self is Down ==> r@ == "DOWN"@,
    {
        match self {
            LinkState::Up => "UP",
            LinkState::Down => "DOWN",
        }
    }
}

/// One observed network interface: its name and its up/down state. Produced
/// fresh on each observation, never cached.
#[derive(Debug, PartialEq, Eq)]
pub struct InterfaceStatus {
    pub name: String,
    pub state: LinkState,
}

/// What one line of link-listing output denotes: `None` when the line has
/// fewer than three whitespace-separated tokens; otherwise the second token
/// with trailing colons removed, paired with `Up` exactly when the marker
/// `UP` occurs anywhere in the line.
pub open spec fn parse_line_spec(s: Seq<char>) -> Option<(Seq<char>, LinkState)> {
    let toks = tokens(s);
    if toks.len() >= 3 {
        Some(
            (
                trim_colons(toks[1]),
                if contains_up(s) {
                    LinkState::Up
                } else {
                    LinkState::Down
                },
            ),
        )
    } else {
        None
    }
}

/// Parses one line of link-listing output into an interface status, skipping
/// lines with fewer than three tokens.
pub fn parse_interface_line(line: &str) -> (r: Option<InterfaceStatus>)
    ensures
        match r {
            Some(st) => parse_line_spec(line@) == Some((st.name@, st.state)),
            None => parse_line_spec(line@) is None,
        },
{
    let toks = split_ws(line);
    if toks.len() < 3 {
        return None;
    }
    let name = trim_trailing_colons(toks[1].as_str());
    let state = if line_has_up(line) {
        LinkState::Up
    } else {
        LinkState::Down
    };
    Some(InterfaceStatus { name, state })
}

/// The position of the first newline in the sequence, or its length if it
/// holds none.
pub open spec fn first_nl(s: Seq<char>) -> int
    decreases s.len(),
{
    if s.len() == 0 {
        0
    } else if s[0] == '\n' {
        0
    } else {
        1 + first_nl(s.drop_first())
    }
}

proof fn lemma_first_nl_bounds(s: Seq<char>)
    ensures
        0 <= first_nl(s) <= s.len(),
    decreases s.len(),
{
    if s.len() > 0 && s[0] != '\n' {
        lemma_first_nl_bounds(s.drop_first());
    }
}

proof fn lemma_first_nl_at(s: Seq<char>, j: int)
    requires
        0 <= j <= s.len(),
        forall|k: int| 0 <= k < j ==> s[k] != '\n',
        j == s.len() || s[j] == '\n',
    ensures
        first_nl(s) == j,
    decreases s.len(),
{
    if j > 0 {
        assert(s[0] != '\n');
        lemma_first_nl_at(s.drop_first(), j - 1);
    }
}

/// The segments of the sequence as separated by newlines, every segment kept,
/// an empty trailing segment included.
pub open spec fn lines_of(s: Seq<char>) -> Seq<Seq<char>>
    decreases s.len(),
    via lines_of_decreases
{
    let i = first_nl(s);
    if i == s.len() {
        seq![s]
    } else {
        seq![s.take(i)] + lines_of(s.skip(i + 1))
    }
}

#[via_fn]
proof fn lines_of_decreases(s: Seq<char>) {
    lemma_first_nl_bounds(s);
}

/// The interface statuses denoted by a sequence of lines, in order, lines
/// that denote nothing skipped.
pub open spec fn statuses_of_lines(ls: Seq<Seq<char>>) -> Seq<(Seq<char>, LinkState)>
    decreases ls.len(),
{
    if ls.len() == 0 {
        Seq::<(Seq<char>, LinkState)>::empty()
    } else {
        (match parse_line_spec(ls[0]) {
            Some(p) => seq![p],
            None => Seq::<(Seq<char>, LinkState)>::empty(),
        }) + statuses_of_lines(ls.drop_first())
    }
}

/// The interface statuses denoted by a whole link-listing text.
pub open spec fn parse_links_spec(s: Seq<char>) -> Seq<(Seq<char>, LinkState)> {
    statuses_of_lines(lines_of(s))
}

/// The name/state pairs that a sequence of statuses denotes.
pub open spec fn statuses_view(v: Seq<InterfaceStatus>) -> Seq<(Seq<char>, LinkState)> {
    v.map_values(|st: InterfaceStatus| (st.name@, st.state))
}

proof fn lemma_statuses_of_one(l: Seq<char>)
    ensures
        statuses_of_lines(seq![l]) =~= match parse_line_spec(l) {
            Some(p) => seq![p],
            None => Seq::<(Seq<char>, LinkState)>::empty(),
        },
{
    assert(seq![l].drop_first() =~= Seq::<Seq<char>>::empty());
    assert(statuses_of_lines(Seq::<Seq<char>>::empty()) =~= Seq::<(Seq<char>, LinkState)>::empty());
}

proof fn lemma_statuses_of_cons(l: Seq<char>, rest: Seq<Seq<char>>)
    ensures
        statuses_of_lines(seq![l] + rest) =~= (match parse_line_spec(l) {
            Some(p) => seq![p],
            None => Seq::<(Seq<char>, LinkState)>::empty(),
        }) + statuses_of_lines(rest),
{
    let ls = seq![l] + rest;
    assert(ls.len() > 0);
    assert(ls[0] == l);
    assert(ls.drop_first() =~= rest);
}

/// Parses a whole link-listing text, one interface status per line that
/// denotes one, in line order.
pub fn parse_links_output(text: &str) -> (res: Vec<InterfaceStatus>)
    ensures
        statuses_view(res@) == parse_links_spec(text@),
{
    let n = text.unicode_len();
    let mut res: Vec<InterfaceStatus> = Vec::new();
    let mut p: usize = 0;
    let mut done = false;
    proof {
        assert(text@.skip(0) =~= text@);
        assert(statuses_view(res@) =~= Seq::<(Seq<char>, LinkState)>::empty());
    }
    while !done
        invariant
            n == text@.len(),
            p <= n,
            !done ==> statuses_view(res@) + parse_links_spec(text@.skip(p as int))
                == parse_links_spec(text@),
            done ==> statuses_view(res@) == parse_links_spec(text@),
        decreases (if done {
            0int
        } else {
            1int
        }) + (n - p),
    {
        let mut j: usize = p;
        while j < n && text.get_char(j) != '\n'
            invariant
                n == text@.len(),
                p <= j <= n,
                forall|k: int| p <= k < j ==> text@[k] != '\n',
            decreases n - j,
        {
            j = j + 1;
        }
        let line = text.substring_char(p, j);
        let ghost suffix = text@.skip(p as int);
        proof {
            lemma_first_nl_at(suffix, j - p);
            assert(line@ =~= suffix.take(j - p));
        }
        let parsed = parse_interface_line(line);
        let ghost pre = statuses_view(res@);
        let ghost contribution = (match parse_line_spec(line@) {
            Some(q) => seq![q],
            None => Seq::<(Seq<char>, LinkState)>::empty(),
        });
        match parsed {
            Some(st) => {
                res.push(st);
                proof {
                    assert(statuses_view(res@) =~= pre + contribution);
                }
            },
            None => {
                proof {
                    assert(statuses_view(res@) =~= pre + contribution);
                }
            },
        }
        if j == n {
            proof {
                assert(first_nl(suffix) == suffix.len());
                assert(line@ =~= suffix);
                assert(lines_of(suffix) == seq![suffix]);
                lemma_statuses_of_one(suffix);
                assert(parse_links_spec(suffix) =~= contribution);
            }
            done = true;
        } else {
            proof {
                assert(first_nl(suffix) == j - p);
                assert(lines_of(suffix) == seq![suffix.take(j - p)] + lines_of(
                    suffix.skip(j - p + 1),
                ));
                assert(suffix.skip(j - p + 1) =~= text@.skip(j + 1));
                lemma_statuses_of_cons(line@, lines_of(text@.skip(j + 1)));
                assert(parse_links_spec(suffix) =~= contribution + parse_links_spec(
                    text@.skip(j + 1),
                ));
                assert((pre + contribution) + parse_links_spec(text@.skip(j + 1)) =~= pre + (
                contribution + parse_links_spec(text@.skip(j + 1))));
            }
            p = j + 1;
        }
    }
    res
}

/// Every status that a line denotes has state exactly up or down; its name
/// never ends in a colon; and its name is non-empty whenever the line's
/// interface token holds any character besides a colon.
pub proof fn lemma_status_well_formed(s: Seq<char>, name: Seq<char>, st: LinkState)
    requires
        parse_line_spec(s) == Some((name, st)),
    ensures
        st == LinkState::Up || st == LinkState::Down,
        name.len() > 0 ==> name.last() != ':',
        (exists|k: int|
            0 <= k < tokens(s)[1].len() && tokens(s)[1][k] != ':') ==> name.len() > 0,
{
    lemma_trim_colons_no_trailing(tokens(s)[1]);
    if exists|k: int| 0 <= k < tokens(s)[1].len() && tokens(s)[1][k] != ':' {
        lemma_trim_colons_nonempty(tokens(s)[1]);
    }
}

/// Parsing is deterministic, so re-parsing identical link-listing text yields
/// an identical status sequence.
pub proof fn lemma_parse_idempotent(s1: Seq<char>, s2: Seq<char>)
    requires
        s1 == s2,
    ensures
        parse_links_spec(s1) == parse_links_spec(s2),
{
}

} // verus!

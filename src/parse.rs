use vstd::prelude::*;

use crate::config::{copy_opt, entry_views, no_params, string_seqs, EntryView, Params, PatternEntry};
use crate::text::{
    char_seqs, chars_of, join_from, join_words, key_is, key_is_word, lines, lines_state, parse_port,
    port_of, split_words, string_of, words,
};

verus! {

/// The state of parsing: the entries that are complete, and the entry under
/// construction, if a `Host` line has begun one.
pub struct ParseView {
    pub done: Seq<EntryView>,
    pub current: Option<EntryView>,
}

/// The entries of a parse state, the one under construction appended.
pub open spec fn flushed(st: ParseView) -> Seq<EntryView> {
    match st.current {
        Some(e) => st.done.push(e),
        None => st.done,
    }
}

pub open spec fn kw_host() -> Seq<char> {
    seq!['h', 'o', 's', 't']
}

pub open spec fn kw_hostname() -> Seq<char> {
    seq!['h', 'o', 's', 't', 'n', 'a', 'm', 'e']
}

pub open spec fn kw_user() -> Seq<char> {
    seq!['u', 's', 'e', 'r']
}

pub open spec fn kw_port() -> Seq<char> {
    seq!['p', 'o', 'r', 't']
}

pub open spec fn kw_identityfile() -> Seq<char> {
    seq!['i', 'd', 'e', 'n', 't', 'i', 't', 'y', 'f', 'i', 'l', 'e']
}

pub open spec fn kw_proxyjump() -> Seq<char> {
    seq!['p', 'r', 'o', 'x', 'y', 'j', 'u', 'm', 'p']
}

/// The parameters `p` after a line `key value` of their entry: a known key sets
/// its parameter (a port only where the value writes one); other keys change nothing.
pub open spec fn set_param(p: Params, key: Seq<char>, value: Seq<char>) -> Params {
    if key_is(key, kw_hostname()) {
        Params { hostname: Some(value), ..p }
    } else if key_is(key, kw_user()) {
        Params { user: Some(value), ..p }
    } else if key_is(key, kw_port()) {
        match port_of(value) {
            Some(n) => Params { port: Some(n), ..p },
            None => p,
        }
    } else if key_is(key, kw_identityfile()) {
        Params { identity_file: Some(value), ..p }
    } else if key_is(key, kw_proxyjump()) {
        Params { proxy_jump: Some(value), ..p }
    } else {
        p
    }
}

/// The parse state after a line with words `ws`. A line with fewer than two
/// words, or whose first word begins with `#`, changes nothing. A `Host` line
/// completes the entry under construction and begins one with the line's other
/// words as patterns. Any other line sets a parameter of the entry under
/// construction, its value being the other words joined by single spaces.
pub open spec fn apply_line(st: ParseView, ws: Seq<Seq<char>>) -> ParseView {
    if ws.len() < 2 || (ws[0].len() > 0 && ws[0][0] == '#') {
        st
    } else if key_is(ws[0], kw_host()) {
        ParseView {
            done: flushed(st),
            current: Some(EntryView { patterns: ws.drop_first(), params: no_params() }),
        }
    } else {
        match st.current {
            Some(e) => ParseView {
                done: st.done,
                current: Some(
                    EntryView {
                        patterns: e.patterns,
                        params: set_param(e.params, ws[0], join_words(ws.drop_first())),
                    },
                ),
            },
            None => st,
        }
    }
}

/// The parse state after the lines `ls`, from the start.
pub open spec fn parse_lines(ls: Seq<Seq<char>>) -> ParseView
    decreases ls.len(),
{
    if ls.len() == 0 {
        ParseView { done: Seq::empty(), current: None }
    } else {
        apply_line(parse_lines(ls.drop_last()), words(ls.last()))
    }
}

/// The entries that the configuration text `text` holds, in file order.
pub open spec fn parse_entries(text: Seq<char>) -> Seq<EntryView> {
    flushed(parse_lines(lines(text)))
}

/// Parsing in progress: the entries that are complete, and the one under construction.
struct ParseState {
    done: Vec<PatternEntry>,
    current: Option<PatternEntry>,
}

impl View for ParseState {
    type V = ParseView;

    closed spec fn view(&self) -> ParseView {
        ParseView {
            done: entry_views(self.done@),
            current: match self.current {
                Some(e) => Some(e@),
                None => None,
            },
        }
    }
}

/// The entries of `st`, the one under construction appended.
fn finish(st: ParseState) -> (r: Vec<PatternEntry>)
    ensures
        entry_views(r@) == flushed(st@),
{
    let mut done = st.done;
    match st.current {
        Some(e) => {
            let ghost prev = done@;
            done.push(e);
            assert(entry_views(done@) =~= entry_views(prev).push(e@));
        },
        None => {},
    }
    done
}

/// The strings that the words `ws[1..]` spell.
fn pattern_strings(ws: &Vec<Vec<char>>) -> (r: Vec<String>)
    requires
        ws.len() >= 1,
    ensures
        string_seqs(r@) == char_seqs(ws@).drop_first(),
{
    let mut r: Vec<String> = Vec::new();
    let mut k: usize = 1;
    while k < ws.len()
        invariant
            1 <= k <= ws.len(),
            string_seqs(r@) == char_seqs(ws@).subrange(1, k as int),
        decreases ws.len() - k,
    {
        let s = string_of(&ws[k]);
        let ghost prev = r@;
        r.push(s);
        assert(string_seqs(r@) =~= string_seqs(prev).push(s@));
        assert(char_seqs(ws@).subrange(1, k + 1) =~= char_seqs(ws@).subrange(1, k as int).push(
            ws@[k as int]@,
        ));
        k = k + 1;
    }
    assert(char_seqs(ws@).subrange(1, ws.len() as int) =~= char_seqs(ws@).drop_first());
    r
}

/// The entry `e` after a line `key value` under it.
fn set_entry_param(e: PatternEntry, key: &Vec<char>, value: String) -> (r: PatternEntry)
    ensures
        r@ == (EntryView { patterns: e@.patterns, params: set_param(e@.params, key@, value@) }),
{
    let mut e = e;
    if key_is_word(key, &['h', 'o', 's', 't', 'n', 'a', 'm', 'e']) {
        e.hostname = Some(value);
    } else if key_is_word(key, &['u', 's', 'e', 'r']) {
        e.user = Some(value);
    } else if key_is_word(key, &['p', 'o', 'r', 't']) {
        let v = chars_of(value.as_str());
        match parse_port(&v) {
            Some(n) => {
                e.port = Some(n);
            },
            None => {},
        }
    } else if key_is_word(key, &['i', 'd', 'e', 'n', 't', 'i', 't', 'y', 'f', 'i', 'l', 'e']) {
        e.identity_file = Some(value);
    } else if key_is_word(key, &['p', 'r', 'o', 'x', 'y', 'j', 'u', 'm', 'p']) {
        e.proxy_jump = Some(value);
    }
    e
}

/// The parse state after a line whose words are `ws`.
fn parse_line(st: ParseState, ws: &Vec<Vec<char>>) -> (r: ParseState)
    ensures
        r@ == apply_line(st@, char_seqs(ws@)),
{
    if ws.len() < 2 {
        return st;
    }
    let key = &ws[0];
    assert(char_seqs(ws@)[0] == key@);
    if key.len() > 0 && key[0] == '#' {
        return st;
    }
    if key_is_word(key, &['h', 'o', 's', 't']) {
        let patterns = pattern_strings(ws);
        let done = finish(st);
        let e = PatternEntry {
            patterns,
            hostname: None,
            user: None,
            port: None,
            identity_file: None,
            proxy_jump: None,
        };
        ParseState { done, current: Some(e) }
    } else {
        match st.current {
            Some(e) => {
                let value = join_from(ws, 1);
                assert(char_seqs(ws@).subrange(1, ws.len() as int) =~= char_seqs(ws@).drop_first());
                let e2 = set_entry_param(e, key, value);
                ParseState { done: st.done, current: Some(e2) }
            },
            None => ParseState { done: st.done, current: None },
        }
    }
}

/// The entries that the configuration text `content` holds, in file order.
pub fn parse_entries_of(content: &str) -> (r: Vec<PatternEntry>)
    ensures
        entry_views(r@) == parse_entries(content@),
{
    let text = chars_of(content);
    let mut st = ParseState { done: Vec::new(), current: None };
    assert(st@.done =~= Seq::<EntryView>::empty());
    let mut line: Vec<char> = Vec::new();
    let mut i: usize = 0;
    while i < text.len()
        invariant
            i <= text.len(),
            text@ == content@,
            st@ == parse_lines(lines_state(text@.take(i as int)).0),
            line@ == lines_state(text@.take(i as int)).1,
        decreases text.len() - i,
    {
        let c = text[i];
        proof {
            let t = text@.take(i + 1);
            assert(t.drop_last() == text@.take(i as int));
            assert(t.last() == c);
        }
        if c == '\n' {
            let ws = split_words(&line);
            st = parse_line(st, &ws);
            line = Vec::new();
            proof {
                let done = lines_state(text@.take(i as int)).0;
                let open = lines_state(text@.take(i as int)).1;
                assert(done.push(open).drop_last() == done);
            }
        } else {
            line.push(c);
        }
        i = i + 1;
    }
    assert(text@.take(text.len() as int) == text@);
    let ws = split_words(&line);
    st = parse_line(st, &ws);
    proof {
        let done = lines_state(text@).0;
        let open = lines_state(text@).1;
        assert(done.push(open).drop_last() == done);
    }
    finish(st)
}

} // verus!

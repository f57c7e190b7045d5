use vstd::prelude::*;

verus! {

/// Relies on `String::push`: the character is appended at the end.
pub assume_specification[ String::push ](s: &mut String, ch: char)
    ensures
        final(s)@ == old(s)@.push(ch),
;

/// Unicode white space, the characters that separate words on a line.
pub open spec fn is_space(c: char) -> bool {
    let u = c as u32;
    (0x9 <= u <= 0xd) || u == 0x20 || u == 0x85 || u == 0xa0 || u == 0x1680 || (0x2000 <= u
        <= 0x200a) || u == 0x2028 || u == 0x2029 || u == 0x202f || u == 0x205f || u == 0x3000
}

/// Whether `c` is white space.
pub fn char_is_space(c: char) -> (r: bool)
    ensures
        r == is_space(c),
{
    let u = c as u32;
    (0x9 <= u && u <= 0xd) || u == 0x20 || u == 0x85 || u == 0xa0 || u == 0x1680 || (0x2000 <= u
        && u <= 0x200a) || u == 0x2028 || u == 0x2029 || u == 0x202f || u == 0x205f || u == 0x3000
}

/// Splitting `s` into words: the words that are complete, and the word still open
/// at the end of `s` (empty where `s` ends in white space).
pub open spec fn words_state(s: Seq<char>) -> (Seq<Seq<char>>, Seq<char>)
    decreases s.len(),
{
    if s.len() == 0 {
        (Seq::empty(), Seq::empty())
    } else {
        let (done, open) = words_state(s.drop_last());
        let c = s.last();
        if is_space(c) {
            if open.len() > 0 {
                (done.push(open), Seq::empty())
            } else {
                (done, open)
            }
        } else {
            (done, open.push(c))
        }
    }
}

/// Splitting `s` at each `\n`: the lines that are complete, and the line still
/// open at the end of `s`.
pub open spec fn lines_state(s: Seq<char>) -> (Seq<Seq<char>>, Seq<char>)
    decreases s.len(),
{
    if s.len() == 0 {
        (Seq::empty(), Seq::empty())
    } else {
        let (done, open) = lines_state(s.drop_last());
        if s.last() == '\n' {
            (done.push(open), Seq::empty())
        } else {
            (done, open.push(s.last()))
        }
    }
}

/// The pieces of `s` between line breaks, the last one included even where empty.
pub open spec fn lines(s: Seq<char>) -> Seq<Seq<char>> {
    let (done, open) = lines_state(s);
    done.push(open)
}

/// The maximal runs of non-white-space characters of `s`, in order.
pub open spec fn words(s: Seq<char>) -> Seq<Seq<char>> {
    let (done, open) = words_state(s);
    if open.len() > 0 {
        done.push(open)
    } else {
        done
    }
}

/// The words joined by single spaces.
pub open spec fn join_words(ws: Seq<Seq<char>>) -> Seq<char>
    decreases ws.len(),
{
    if ws.len() == 0 {
        Seq::empty()
    } else if ws.len() == 1 {
        ws[0]
    } else {
        join_words(ws.drop_last()).push(' ') + ws.last()
    }
}

/// The code of `c` with ASCII upper case letters taken to lower case.
pub open spec fn ascii_lower(c: char) -> u32 {
    if 'A' <= c <= 'Z' {
        ((c as u32) + 32) as u32
    } else {
        c as u32
    }
}

/// Whether `key` spells the lower-case `word`, ignoring case.
pub open spec fn key_is(key: Seq<char>, word: Seq<char>) -> bool {
    key.len() == word.len() && forall|i: int| 0 <= i < key.len() ==> ascii_lower(#[trigger] key[i]) == word[i] as u32
}

pub open spec fn is_digit(c: char) -> bool {
    '0' <= c <= '9'
}

/// The number that the decimal digits `s` write.
pub open spec fn digits_value(s: Seq<char>) -> int
    decreases s.len(),
{
    if s.len() == 0 {
        0
    } else {
        digits_value(s.drop_last()) * 10 + (s.last() as u32 - '0' as u32)
    }
}

/// Whether every character of `s` is a decimal digit.
pub open spec fn all_digits(s: Seq<char>) -> bool {
    forall|i: int| 0 <= i < s.len() ==> is_digit(#[trigger] s[i])
}

/// The digits of a port value: the value without one leading `+`.
pub open spec fn port_digits(v: Seq<char>) -> Seq<char> {
    if v.len() > 0 && v[0] == '+' {
        v.drop_first()
    } else {
        v
    }
}

/// A port number as written in a configuration value: an optional `+`, then
/// decimal digits whose value lies in 1 to 65535.
pub open spec fn port_of(v: Seq<char>) -> Option<u16> {
    let d = port_digits(v);
    if d.len() > 0 && all_digits(d) && 1 <= digits_value(d) <= 65535 {
        Some(digits_value(d) as u16)
    } else {
        None
    }
}

/// The character sequences that the vectors `v` hold.
pub open spec fn char_seqs(v: Seq<Vec<char>>) -> Seq<Seq<char>> {
    v.map_values(|w: Vec<char>| w@)
}

/// The characters of `s`, in order.
pub fn chars_of(s: &str) -> (r: Vec<char>)
    ensures
        r@ == s@,
{
    let mut r: Vec<char> = Vec::new();
    for c in it: s.chars()
        invariant
            r@ == it.seq().take(it.index() as int),
    {
        r.push(c);
    }
    r
}

/// A string that holds the characters `cs`.
pub fn string_of(cs: &Vec<char>) -> (r: String)
    ensures
        r@ == cs@,
{
    let mut r = String::new();
    let mut i: usize = 0;
    while i < cs.len()
        invariant
            i <= cs.len(),
            r@ == cs@.take(i as int),
        decreases cs.len() - i,
    {
        r.push(cs[i]);
        i = i + 1;
        assert(cs@.take(i as int) == cs@.take(i - 1).push(cs@[i - 1]));
    }
    assert(cs@.take(cs.len() as int) == cs@);
    r
}

/// The words of `line`.
pub fn split_words(line: &Vec<char>) -> (r: Vec<Vec<char>>)
    ensures
        char_seqs(r@) == words(line@),
{
    let mut done: Vec<Vec<char>> = Vec::new();
    let mut open: Vec<char> = Vec::new();
    let mut i: usize = 0;
    while i < line.len()
        invariant
            i <= line.len(),
            (char_seqs(done@), open@) == words_state(line@.take(i as int)),
        decreases line.len() - i,
    {
        let c = line[i];
        proof {
            let t = line@.take(i + 1);
            assert(t.drop_last() == line@.take(i as int));
            assert(t.last() == c);
        }
        if char_is_space(c) {
            if open.len() > 0 {
                let w = open;
                open = Vec::new();
                let ghost old_done = done;
                done.push(w);
                assert(char_seqs(done@) =~= char_seqs(old_done@).push(w@));
            }
        } else {
            open.push(c);
        }
        i = i + 1;
    }
    assert(line@.take(line.len() as int) == line@);
    if open.len() > 0 {
        let ghost old_done = done;
        done.push(open);
        assert(char_seqs(done@) =~= char_seqs(old_done@).push(open@));
    }
    done
}

/// The words `ws[start..]` joined by single spaces.
pub fn join_from(ws: &Vec<Vec<char>>, start: usize) -> (r: String)
    requires
        start <= ws.len(),
    ensures
        r@ == join_words(char_seqs(ws@).subrange(start as int, ws.len() as int)),
{
    let ghost all = char_seqs(ws@);
    let mut r = String::new();
    let mut k: usize = start;
    while k < ws.len()
        invariant
            start <= k <= ws.len(),
            all == char_seqs(ws@),
            r@ == join_words(all.subrange(start as int, k as int)),
        decreases ws.len() - k,
    {
        let w = &ws[k];
        let ghost base = if k > start {
            r@.push(' ')
        } else {
            r@
        };
        if k > start {
            r.push(' ');
        }
        let mut j: usize = 0;
        while j < w.len()
            invariant
                j <= w.len(),
                r@ == base + w@.take(j as int),
            decreases w.len() - j,
        {
            r.push(w[j]);
            j = j + 1;
            assert(w@.take(j as int) == w@.take(j - 1).push(w@[j - 1]));
        }
        proof {
            assert(w@.take(w.len() as int) == w@);
            let next = all.subrange(start as int, k + 1);
            assert(next.drop_last() == all.subrange(start as int, k as int));
            assert(next.last() == w@);
            if k == start {
                assert(all.subrange(start as int, k as int).len() == 0);
            }
        }
        k = k + 1;
    }
    r
}

/// Whether `key` spells the lower-case `word`, ignoring ASCII case.
pub fn key_is_word(key: &Vec<char>, word: &[char]) -> (r: bool)
    ensures
        r == key_is(key@, word@),
{
    if key.len() != word.len() {
        return false;
    }
    let mut i: usize = 0;
    while i < key.len()
        invariant
            i <= key.len(),
            key.len() == word@.len(),
            forall|k: int| 0 <= k < i ==> ascii_lower(#[trigger] key@[k]) == word@[k] as u32,
        decreases key.len() - i,
    {
        let c = key[i];
        let lower = if 'A' <= c && c <= 'Z' {
            (c as u32) + 32
        } else {
            c as u32
        };
        if lower != word[i] as u32 {
            return false;
        }
        i = i + 1;
    }
    true
}

/// The port that the value `v` writes, if it writes one.
pub fn parse_port(v: &Vec<char>) -> (r: Option<u16>)
    ensures
        r == port_of(v@),
{
    let start: usize = if v.len() > 0 && v[0] == '+' {
        1
    } else {
        0
    };
    let ghost d = port_digits(v@);
    assert(d == v@.subrange(start as int, v.len() as int));
    if start == v.len() {
        return None;
    }
    let mut value: u32 = 0;
    let mut too_large = false;
    let mut i: usize = start;
    while i < v.len()
        invariant
            start <= i <= v.len(),
            d == v@.subrange(start as int, v.len() as int),
            d == port_digits(v@),
            forall|k: int| start <= k < i ==> is_digit(#[trigger] v@[k]),
            value <= 65535,
            too_large ==> digits_value(v@.subrange(start as int, i as int)) > 65535,
            !too_large ==> value == digits_value(v@.subrange(start as int, i as int)),
        decreases v.len() - i,
    {
        let c = v[i];
        if !('0' <= c && c <= '9') {
            assert(d[i - start] == v@[i as int]);
            assert(!is_digit(d[i - start]));
            return None;
        }
        proof {
            let p = v@.subrange(start as int, i + 1);
            assert(p.drop_last() == v@.subrange(start as int, i as int));
            assert(p.last() == c);
            assert(digits_value(v@.subrange(start as int, i as int)) >= 0) by {
                lemma_digits_value_nonneg(v@.subrange(start as int, i as int));
            }
        }
        if !too_large {
            let next = value * 10 + (c as u32 - '0' as u32);
            if next > 65535 {
                too_large = true;
            } else {
                value = next;
            }
        }
        i = i + 1;
    }
    assert(all_digits(d)) by {
        assert forall|k: int| 0 <= k < d.len() implies is_digit(#[trigger] d[k]) by {
            assert(d[k] == v@[k + start]);
        }
    }
    if too_large || value == 0 {
        None
    } else {
        Some(value as u16)
    }
}

proof fn lemma_digits_value_nonneg(s: Seq<char>)
    requires
        all_digits(s),
    ensures
        digits_value(s) >= 0,
    decreases s.len(),
{
    if s.len() > 0 {
        let t = s.drop_last();
        assert(all_digits(t)) by {
            assert forall|i: int| 0 <= i < t.len() implies is_digit(#[trigger] t[i]) by {
                assert(t[i] == s[i]);
            }
        }
        lemma_digits_value_nonneg(t);
        assert(is_digit(s[s.len() - 1]));
    }
}

} // verus!

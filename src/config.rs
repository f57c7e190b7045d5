use vstd::prelude::*;

use crate::pattern::{
    contains_wildcard, glob_match, has_no_wildcard, lemma_literal_pattern, lemma_star_matches_all,
    pattern_accepts,
};
use crate::parse::{parse_entries, parse_entries_of};
use crate::text::chars_of;

verus! {

/// Connection parameters that configuration entries set, each possibly unset.
pub struct Params {
    pub hostname: Option<Seq<char>>,
    pub user: Option<Seq<char>>,
    pub port: Option<u16>,
    pub identity_file: Option<Seq<char>>,
    pub proxy_jump: Option<Seq<char>>,
}

/// A host name with the parameters found for it.
pub struct HostView {
    pub host: Seq<char>,
    pub params: Params,
}

/// A configuration stanza: its patterns and the parameters it sets.
pub struct EntryView {
    pub patterns: Seq<Seq<char>>,
    pub params: Params,
}

pub open spec fn opt_view(o: Option<String>) -> Option<Seq<char>> {
    match o {
        Some(s) => Some(s@),
        None => None,
    }
}

pub open spec fn no_params() -> Params {
    Params { hostname: None, user: None, port: None, identity_file: None, proxy_jump: None }
}

/// `a` where it is set, else `b`.
pub open spec fn first_set<T>(a: Option<T>, b: Option<T>) -> Option<T> {
    if a is Some {
        a
    } else {
        b
    }
}

/// The parameters `acc` has, with those it lacks taken from `later`.
pub open spec fn merge_params(acc: Params, later: Params) -> Params {
    Params {
        hostname: first_set(acc.hostname, later.hostname),
        user: first_set(acc.user, later.user),
        port: first_set(acc.port, later.port),
        identity_file: first_set(acc.identity_file, later.identity_file),
        proxy_jump: first_set(acc.proxy_jump, later.proxy_jump),
    }
}

/// Whether some pattern of the entry matches the name.
pub open spec fn entry_matches(e: EntryView, name: Seq<char>) -> bool {
    exists|k: int| 0 <= k < e.patterns.len() && pattern_accepts(#[trigger] e.patterns[k], name)
}

/// Resolving `name` against `entries` in order: `None` where no entry matches;
/// else the name with, for each parameter, the value of the first matching entry
/// that sets it.
pub open spec fn resolve(entries: Seq<EntryView>, name: Seq<char>) -> Option<HostView>
    decreases entries.len(),
{
    if entries.len() == 0 {
        None
    } else {
        let prev = resolve(entries.drop_last(), name);
        let e = entries.last();
        if entry_matches(e, name) {
            let acc = match prev {
                Some(h) => h.params,
                None => no_params(),
            };
            Some(HostView { host: name, params: merge_params(acc, e.params) })
        } else {
            prev
        }
    }
}

/// The literal patterns of `patterns` (those without `*` or `?`), in order, each
/// with the parameters `params`.
pub open spec fn literal_hosts_of(patterns: Seq<Seq<char>>, params: Params) -> Seq<HostView>
    decreases patterns.len(),
{
    if patterns.len() == 0 {
        Seq::empty()
    } else {
        let prev = literal_hosts_of(patterns.drop_last(), params);
        if has_no_wildcard(patterns.last()) {
            prev.push(HostView { host: patterns.last(), params })
        } else {
            prev
        }
    }
}

/// The literal patterns of all entries, in file order, each with its entry's parameters.
pub open spec fn literal_hosts(entries: Seq<EntryView>) -> Seq<HostView>
    decreases entries.len(),
{
    if entries.len() == 0 {
        Seq::empty()
    } else {
        let e = entries.last();
        literal_hosts(entries.drop_last()) + literal_hosts_of(e.patterns, e.params)
    }
}

/// Whether every parameter that `a` sets is set to the same value in `b`.
pub open spec fn params_kept(a: Params, b: Params) -> bool {
    &&& a.hostname is Some ==> b.hostname == a.hostname
    &&& a.user is Some ==> b.user == a.user
    &&& a.port is Some ==> b.port == a.port
    &&& a.identity_file is Some ==> b.identity_file == a.identity_file
    &&& a.proxy_jump is Some ==> b.proxy_jump == a.proxy_jump
}

/// Resolution finds nothing exactly when no entry matches the name; what it
/// finds carries the name itself.
pub proof fn lemma_resolve_none_iff(entries: Seq<EntryView>, name: Seq<char>)
    ensures
        resolve(entries, name) is None <==> forall|i: int|
            0 <= i < entries.len() ==> !entry_matches(#[trigger] entries[i], name),
        resolve(entries, name) is Some ==> resolve(entries, name)->0.host == name,
    decreases entries.len(),
{
    if entries.len() > 0 {
        let prefix = entries.drop_last();
        lemma_resolve_none_iff(prefix, name);
        assert forall|i: int| 0 <= i < prefix.len() implies prefix[i] == entries[i] by {}
        if resolve(entries, name) is None {
            assert forall|i: int| 0 <= i < entries.len() implies !entry_matches(
                #[trigger] entries[i],
                name,
            ) by {
                if i < prefix.len() {
                    assert(prefix[i] == entries[i]);
                }
            }
        }
    }
}

/// Entries added after a match never change a parameter that is already set:
/// resolving with more entries keeps every parameter that the first ones set.
pub proof fn lemma_params_persist(entries: Seq<EntryView>, more: Seq<EntryView>, name: Seq<char>)
    requires
        resolve(entries, name) is Some,
    ensures
        resolve(entries + more, name) is Some,
        params_kept(resolve(entries, name)->0.params, resolve(entries + more, name)->0.params),
    decreases more.len(),
{
    if more.len() > 0 {
        let shorter = more.drop_last();
        lemma_params_persist(entries, shorter, name);
        assert((entries + more).drop_last() =~= entries + shorter);
        assert((entries + more).last() == more.last());
    } else {
        assert(entries + more =~= entries);
    }
}

/// With a single entry whose one pattern is a literal (no `*`, `?` or leading
/// `!`), a name resolves exactly when it equals that pattern.
pub proof fn lemma_literal_entry(p: Seq<char>, params: Params, name: Seq<char>)
    requires
        has_no_wildcard(p),
        !(p.len() > 0 && p[0] == '!'),
    ensures
        resolve(seq![EntryView { patterns: seq![p], params }], name) is Some <==> p == name,
{
    let e = EntryView { patterns: seq![p], params };
    let es = seq![e];
    lemma_literal_pattern(p, name);
    reveal_with_fuel(resolve, 2);
    assert(es.drop_last().len() == 0);
    assert(resolve(es.drop_last(), name) is None);
    assert(es.last() == e);
    assert(e.patterns[0] == p);
    if p == name {
        assert(pattern_accepts(e.patterns[0], name));
    }
    if entry_matches(e, name) {
        let k = choose|k: int| 0 <= k < e.patterns.len() && pattern_accepts(#[trigger] e.patterns[k], name);
        assert(k == 0);
    }
}

/// First match wins: where two entries both match a name and the first sets a
/// user and a port, the result has the first entry's user and port, whatever
/// the second sets or leaves unset.
pub proof fn lemma_first_match_wins(a: EntryView, b: EntryView, name: Seq<char>)
    requires
        entry_matches(a, name),
        entry_matches(b, name),
        a.params.user is Some,
        a.params.port is Some,
    ensures
        resolve(seq![a, b], name) is Some,
        resolve(seq![a, b], name)->0.params.user == a.params.user,
        resolve(seq![a, b], name)->0.params.port == a.params.port,
{
    let es = seq![a, b];
    reveal_with_fuel(resolve, 3);
    assert(es.drop_last() =~= seq![a]);
    assert(seq![a].drop_last().len() == 0);
    assert(es.last() == b);
    assert(seq![a].last() == a);
}

/// Cumulative merge: where two entries both match a name and the first sets no
/// host name, the result takes its host name from the second entry and its user
/// and port from the first.
pub proof fn lemma_cumulative_merge(a: EntryView, b: EntryView, name: Seq<char>)
    requires
        entry_matches(a, name),
        entry_matches(b, name),
        a.params.hostname is None,
    ensures
        resolve(seq![a, b], name) is Some,
        resolve(seq![a, b], name)->0.params.hostname == b.params.hostname,
        resolve(seq![a, b], name)->0.params.user == first_set(a.params.user, b.params.user),
        resolve(seq![a, b], name)->0.params.port == first_set(a.params.port, b.params.port),
{
    let es = seq![a, b];
    reveal_with_fuel(resolve, 3);
    assert(es.drop_last() =~= seq![a]);
    assert(seq![a].drop_last().len() == 0);
    assert(es.last() == b);
    assert(seq![a].last() == a);
}

/// A lone catch-all entry `*` that sets a user resolves every name to that user.
pub proof fn lemma_catch_all_user(params: Params, name: Seq<char>)
    requires
        params.user is Some,
    ensures
        resolve(seq![EntryView { patterns: seq![seq!['*']], params }], name) is Some,
        resolve(seq![EntryView { patterns: seq![seq!['*']], params }], name)->0.params.user
            == params.user,
{
    let e = EntryView { patterns: seq![seq!['*']], params };
    let es = seq![e];
    lemma_star_matches_all(name);
    assert(pattern_accepts(e.patterns[0], name));
    assert(es.drop_last().len() == 0);
    assert(es.last() == e);
    assert(entry_matches(e, name));
    assert(resolve(es.drop_last(), name) is None);
}

/// Listing literal hosts leaves out every pattern that holds `*` or `?`.
pub proof fn lemma_literal_hosts_have_no_wildcard(entries: Seq<EntryView>)
    ensures
        forall|i: int|
            0 <= i < literal_hosts(entries).len() ==> has_no_wildcard(
                #[trigger] literal_hosts(entries)[i].host,
            ),
    decreases entries.len(),
{
    if entries.len() > 0 {
        let e = entries.last();
        lemma_literal_hosts_have_no_wildcard(entries.drop_last());
        lemma_literal_hosts_of_have_no_wildcard(e.patterns, e.params);
        let a = literal_hosts(entries.drop_last());
        let b = literal_hosts_of(e.patterns, e.params);
        assert forall|i: int| 0 <= i < (a + b).len() implies has_no_wildcard(
            #[trigger] (a + b)[i].host,
        ) by {
            if i >= a.len() {
                assert((a + b)[i] == b[i - a.len()]);
            }
        }
    }
}

proof fn lemma_literal_hosts_of_have_no_wildcard(patterns: Seq<Seq<char>>, params: Params)
    ensures
        forall|i: int|
            0 <= i < literal_hosts_of(patterns, params).len() ==> has_no_wildcard(
                #[trigger] literal_hosts_of(patterns, params)[i].host,
            ),
    decreases patterns.len(),
{
    if patterns.len() > 0 {
        lemma_literal_hosts_of_have_no_wildcard(patterns.drop_last(), params);
    }
}

/// Connection parameters for one host name.
#[derive(Debug, Clone)]
pub struct SshHost {
    pub host: String,
    pub hostname: Option<String>,
    pub user: Option<String>,
    pub port: Option<u16>,
    pub identity_file: Option<String>,
    pub proxy_jump: Option<String>,
}

impl View for SshHost {
    type V = HostView;

    open spec fn view(&self) -> HostView {
        HostView {
            host: self.host@,
            params: Params {
                hostname: opt_view(self.hostname),
                user: opt_view(self.user),
                port: self.port,
                identity_file: opt_view(self.identity_file),
                proxy_jump: opt_view(self.proxy_jump),
            },
        }
    }
}

/// One configuration stanza: the patterns of its `Host` line and the
/// parameters set under it.
#[derive(Debug, Clone)]
pub struct PatternEntry {
    pub patterns: Vec<String>,
    pub hostname: Option<String>,
    pub user: Option<String>,
    pub port: Option<u16>,
    pub identity_file: Option<String>,
    pub proxy_jump: Option<String>,
}

pub open spec fn string_seqs(v: Seq<String>) -> Seq<Seq<char>> {
    v.map_values(|s: String| s@)
}

impl View for PatternEntry {
    type V = EntryView;

    open spec fn view(&self) -> EntryView {
        EntryView {
            patterns: string_seqs(self.patterns@),
            params: Params {
                hostname: opt_view(self.hostname),
                user: opt_view(self.user),
                port: self.port,
                identity_file: opt_view(self.identity_file),
                proxy_jump: opt_view(self.proxy_jump),
            },
        }
    }
}

pub open spec fn host_views(v: Seq<SshHost>) -> Seq<HostView> {
    v.map_values(|h: SshHost| h@)
}

pub open spec fn entry_views(v: Seq<PatternEntry>) -> Seq<EntryView> {
    v.map_values(|e: PatternEntry| e@)
}

pub open spec fn opt_host_view(o: Option<SshHost>) -> Option<HostView> {
    match o {
        Some(h) => Some(h@),
        None => None,
    }
}

/// A copy of an optional string.
pub fn copy_opt(o: &Option<String>) -> (r: Option<String>)
    ensures
        r == *o,
{
    match o {
        Some(s) => Some(s.clone()),
        None => None,
    }
}

/// Whether some pattern of `e` matches `name`.
pub fn entry_matches_name(e: &PatternEntry, name: &Vec<char>) -> (r: bool)
    ensures
        r == entry_matches(e@, name@),
{
    let mut k: usize = 0;
    while k < e.patterns.len()
        invariant
            k <= e.patterns.len(),
            forall|m: int| 0 <= m < k ==> !pattern_accepts(#[trigger] e@.patterns[m], name@),
        decreases e.patterns.len() - k,
    {
        let p = chars_of(e.patterns[k].as_str());
        assert(p@ == e@.patterns[k as int]);
        if host_pattern_matches(&p, name) {
            return true;
        }
        k = k + 1;
    }
    false
}

/// Whether the host pattern `pattern` matches `hostname`: a glob, or a negated
/// glob after a leading `!`.
pub fn pattern_matches(pattern: &str, hostname: &str) -> (r: bool)
    ensures
        r == pattern_accepts(pattern@, hostname@),
{
    host_pattern_matches(&chars_of(pattern), &chars_of(hostname))
}

/// Whether the host pattern `p` matches `name`.
pub fn host_pattern_matches(p: &Vec<char>, name: &Vec<char>) -> (r: bool)
    ensures
        r == pattern_accepts(p@, name@),
{
    if p.len() > 0 && p[0] == '!' {
        let mut rest: Vec<char> = Vec::new();
        let mut i: usize = 1;
        while i < p.len()
            invariant
                1 <= i <= p.len(),
                rest@ == p@.subrange(1, i as int),
            decreases p.len() - i,
        {
            rest.push(p[i]);
            i = i + 1;
        }
        assert(rest@ == p@.drop_first());
        !glob_match(&rest, name)
    } else {
        glob_match(p, name)
    }
}

/// The parameters of `e` merged under those of `acc`: `acc` keeps each one it
/// has, and takes from `e` each one it lacks.
fn merge_into(acc: SshHost, e: &PatternEntry) -> (r: SshHost)
    ensures
        r@ == (HostView { host: acc@.host, params: merge_params(acc@.params, e@.params) }),
{
    let mut r = acc;
    if r.hostname.is_none() {
        r.hostname = copy_opt(&e.hostname);
    }
    if r.user.is_none() {
        r.user = copy_opt(&e.user);
    }
    if r.port.is_none() {
        r.port = e.port;
    }
    if r.identity_file.is_none() {
        r.identity_file = copy_opt(&e.identity_file);
    }
    if r.proxy_jump.is_none() {
        r.proxy_jump = copy_opt(&e.proxy_jump);
    }
    r
}

/// The parsed configuration: its entries in file order.
pub struct SshConfig {
    entries: Vec<PatternEntry>,
}

impl View for SshConfig {
    type V = Seq<EntryView>;

    closed spec fn view(&self) -> Seq<EntryView> {
        entry_views(self.entries@)
    }
}

impl SshConfig {
    /// A configuration with no entries.
    pub fn new() -> (r: SshConfig)
        ensures
            r@ == Seq::<EntryView>::empty(),
    {
        let r = SshConfig { entries: Vec::new() };
        assert(r@ =~= Seq::<EntryView>::empty());
        r
    }

    /// Appends the entries that the configuration text `content` holds.
    pub fn parse_config(&mut self, content: &str)
        ensures
            final(self)@ == old(self)@ + parse_entries(content@),
    {
        let mut parsed = parse_entries_of(content);
        let ghost before = self.entries@;
        let ghost added = parsed@;
        self.entries.append(&mut parsed);
        assert(entry_views(self.entries@) =~= entry_views(before) + entry_views(added));
    }

    /// The entries, in file order.
    pub fn entries(&self) -> (r: &Vec<PatternEntry>)
        ensures
            entry_views(r@) == self@,
    {
        &self.entries
    }

    /// The parameters for `name`: for each one, the value of the first entry in
    /// file order that matches `name` and sets it; `None` where no entry matches.
    pub fn get_host(&self, name: &str) -> (r: Option<SshHost>)
        ensures
            opt_host_view(r) == resolve(self@, name@),
    {
        let n = chars_of(name);
        let mut acc: Option<SshHost> = None;
        let mut i: usize = 0;
        while i < self.entries.len()
            invariant
                i <= self.entries.len(),
                n@ == name@,
                opt_host_view(acc) == resolve(self@.take(i as int), name@),
                acc is Some ==> acc->0@.host == name@,
            decreases self.entries.len() - i,
        {
            let e = &self.entries[i];
            proof {
                let t = self@.take(i + 1);
                assert(t.drop_last() == self@.take(i as int));
                assert(t.last() == e@);
            }
            if entry_matches_name(e, &n) {
                let base = match acc {
                    Some(h) => h,
                    None => SshHost {
                        host: name.to_owned(),
                        hostname: None,
                        user: None,
                        port: None,
                        identity_file: None,
                        proxy_jump: None,
                    },
                };
                acc = Some(merge_into(base, e));
            }
            i = i + 1;
        }
        assert(self@.take(self.entries.len() as int) == self@);
        acc
    }

    /// Every pattern without `*` or `?`, in file order, each with the parameters
    /// of its entry; repeated names are kept.
    pub fn get_all_hosts(&self) -> (r: Vec<SshHost>)
        ensures
            host_views(r@) == literal_hosts(self@),
    {
        let mut out: Vec<SshHost> = Vec::new();
        let mut i: usize = 0;
        while i < self.entries.len()
            invariant
                i <= self.entries.len(),
                host_views(out@) == literal_hosts(self@.take(i as int)),
            decreases self.entries.len() - i,
        {
            let e = &self.entries[i];
            let ghost before = host_views(out@);
            let mut k: usize = 0;
            while k < e.patterns.len()
                invariant
                    k <= e.patterns.len(),
                    host_views(out@) == before + literal_hosts_of(
                        e@.patterns.take(k as int),
                        e@.params,
                    ),
                decreases e.patterns.len() - k,
            {
                let p = &e.patterns[k];
                let pc = chars_of(p.as_str());
                proof {
                    let t = e@.patterns.take(k + 1);
                    assert(t.drop_last() == e@.patterns.take(k as int));
                    assert(t.last() == p@);
                }
                if !contains_wildcard(&pc) {
                    let h = SshHost {
                        host: p.clone(),
                        hostname: copy_opt(&e.hostname),
                        user: copy_opt(&e.user),
                        port: e.port,
                        identity_file: copy_opt(&e.identity_file),
                        proxy_jump: copy_opt(&e.proxy_jump),
                    };
                    let ghost prev = out@;
                    out.push(h);
                    assert(host_views(out@) =~= host_views(prev).push(h@));
                }
                k = k + 1;
            }
            proof {
                assert(e@.patterns.take(e.patterns.len() as int) == e@.patterns);
                let t = self@.take(i + 1);
                assert(t.drop_last() == self@.take(i as int));
                assert(t.last() == e@);
            }
            i = i + 1;
        }
        assert(self@.take(self.entries.len() as int) == self@);
        out
    }
}

} // verus!

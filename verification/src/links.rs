//! Parsing and serializing of RFC-5988 style `Link` HTTP header values.
//!
//! A header value is a comma-separated list of segments of the form
//! `<url>; rel="name"[; other-params]`.  Commas inside `<...>` do not
//! separate segments.  The parser extracts the URL between `<` and `>` and
//! the value of the `rel` parameter (quoted or bare, with surrounding
//! whitespace tolerated); a segment missing either part makes the whole
//! header malformed.  When the same relation occurs more than once, the
//! later occurrence wins.

use vstd::prelude::*;

use crate::error::Error;

verus! {

/// One relation parsed from a `Link` header: a relation name mapped to a URL.
pub struct LinkEntry {
    pub rel: String,
    pub url: String,
}

/// The mathematical shape of a [`LinkEntry`].
#[verifier::ext_equal]
pub struct EntryModel {
    pub rel: Seq<char>,
    pub url: Seq<char>,
}

impl View for LinkEntry {
    type V = EntryModel;

    open spec fn view(&self) -> EntryModel {
        EntryModel { rel: self.rel@, url: self.url@ }
    }
}

/// All relations of one parsed `Link` header, in header order.
pub struct Links {
    pub entries: Vec<LinkEntry>,
}

/// The view of a sequence of entries: each entry by its model.
pub open spec fn entries_view(es: Seq<LinkEntry>) -> Seq<EntryModel> {
    es.map_values(|e: LinkEntry| e@)
}

impl View for Links {
    type V = Seq<EntryModel>;

    open spec fn view(&self) -> Seq<EntryModel> {
        entries_view(self.entries@)
    }
}

/// Linear whitespace inside a header value.
pub open spec fn is_lws(c: char) -> bool {
    c == ' ' || c == '\t'
}

/// The in-angle-brackets state after reading one character.
pub open spec fn angle_after(st: bool, c: char) -> bool {
    if c == '<' {
        true
    } else if c == '>' {
        false
    } else {
        st
    }
}

/// Position of the first segment-separating comma: the first comma read
/// outside `<...>`, starting in state `st`.
pub open spec fn first_sep(s: Seq<char>, st: bool) -> Option<int>
    decreases s.len(),
{
    if s.len() == 0 {
        None
    } else if s[0] == ',' && !st {
        Some(0)
    } else {
        match first_sep(s.skip(1), angle_after(st, s[0])) {
            Some(k) => Some(k + 1),
            None => None,
        }
    }
}

/// The in-angle-brackets state after reading all of `s`, starting in `st`.
pub open spec fn angle_end(s: Seq<char>, st: bool) -> bool
    decreases s.len(),
{
    if s.len() == 0 {
        st
    } else {
        angle_end(s.skip(1), angle_after(st, s[0]))
    }
}

/// Position of the first occurrence of `c` in `s`.
pub open spec fn first_pos(s: Seq<char>, c: char) -> Option<int>
    decreases s.len(),
{
    if s.len() == 0 {
        None
    } else if s[0] == c {
        Some(0)
    } else {
        match first_pos(s.skip(1), c) {
            Some(k) => Some(k + 1),
            None => None,
        }
    }
}

/// `s` without leading linear whitespace.
pub open spec fn trimmed_front(s: Seq<char>) -> Seq<char>
    decreases s.len(),
{
    if s.len() > 0 && is_lws(s[0]) {
        trimmed_front(s.skip(1))
    } else {
        s
    }
}

/// `s` without trailing linear whitespace.
pub open spec fn trimmed_back(s: Seq<char>) -> Seq<char>
    decreases s.len(),
{
    if s.len() > 0 && is_lws(s[s.len() - 1]) {
        trimmed_back(s.take(s.len() - 1))
    } else {
        s
    }
}

/// `s` without leading or trailing linear whitespace.
pub open spec fn trimmed(s: Seq<char>) -> Seq<char> {
    trimmed_back(trimmed_front(s))
}

/// A parameter value with one level of surrounding double quotes removed.
pub open spec fn unquoted(v: Seq<char>) -> Seq<char> {
    if v.len() >= 2 && v[0] == '"' && v[v.len() - 1] == '"' {
        v.subrange(1, v.len() - 1)
    } else {
        v
    }
}

/// The relation name carried by one `;`-separated parameter, if the
/// parameter is a `rel=` parameter.
pub open spec fn param_rel(p: Seq<char>) -> Option<Seq<char>> {
    let t = trimmed(p);
    if t.len() >= 4 && t[0] == 'r' && t[1] == 'e' && t[2] == 'l' && t[3] == '=' {
        Some(unquoted(t.skip(4)))
    } else {
        None
    }
}

/// The relation name of a `;`-separated parameter list; when several
/// parameters give a relation, the later one wins.
pub open spec fn params_rel(s: Seq<char>) -> Option<Seq<char>>
    decreases s.len(),
    via params_rel_dec
{
    match first_pos(s, ';') {
        None => param_rel(s),
        Some(k) => match params_rel(s.skip(k + 1)) {
            Some(r) => Some(r),
            None => param_rel(s.take(k)),
        },
    }
}

#[via_fn]
proof fn params_rel_dec(s: Seq<char>) {
    lemma_first_pos_bounds(s, ';');
}

/// The entry described by one header segment: the URL between `<` and `>`
/// and the segment's relation name, or nothing if either is missing.
pub open spec fn segment_entry(seg: Seq<char>) -> Option<EntryModel> {
    let t = trimmed(seg);
    if t.len() == 0 || t[0] != '<' {
        None
    } else {
        match first_pos(t.skip(1), '>') {
            None => None,
            Some(j) => match params_rel(t.skip(1).skip(j + 1)) {
                None => None,
                Some(r) => Some(EntryModel { rel: r, url: t.skip(1).take(j) }),
            },
        }
    }
}

/// The entries of a non-empty header value, segment by segment; nothing if
/// any segment is malformed.
pub open spec fn all_entries(s: Seq<char>) -> Option<Seq<EntryModel>>
    decreases s.len(),
    via all_entries_dec
{
    match first_sep(s, false) {
        None => match segment_entry(s) {
            None => None,
            Some(e) => Some(seq![e]),
        },
        Some(k) => match segment_entry(s.take(k)) {
            None => None,
            Some(e) => match all_entries(s.skip(k + 1)) {
                None => None,
                Some(rest) => Some(seq![e] + rest),
            },
        },
    }
}

#[via_fn]
proof fn all_entries_dec(s: Seq<char>) {
    lemma_first_sep_bounds(s, false);
}

/// What a `Link` header value denotes: its entries in order, or nothing if
/// it is malformed.  An empty value denotes no entries.
pub open spec fn parsed_links(h: Seq<char>) -> Option<Seq<EntryModel>> {
    if h.len() == 0 {
        Some(Seq::empty())
    } else {
        all_entries(h)
    }
}

/// The relation-to-URL mapping of a sequence of entries, later entries
/// overwriting earlier ones.
pub open spec fn rel_map(es: Seq<EntryModel>) -> Map<Seq<char>, Seq<char>>
    decreases es.len(),
{
    if es.len() == 0 {
        Map::empty()
    } else {
        rel_map(es.drop_last()).insert(es.last().rel, es.last().url)
    }
}

/// The serialized text of one entry: `<url>; rel="name"`.
pub open spec fn entry_text(e: EntryModel) -> Seq<char> {
    seq!['<'] + e.url + seq!['>', ';', ' ', 'r', 'e', 'l', '=', '"'] + e.rel + seq!['"']
}

/// The serialized text of a whole header: the entries joined by commas.
pub open spec fn links_text(es: Seq<EntryModel>) -> Seq<char>
    decreases es.len(),
{
    if es.len() == 0 {
        Seq::empty()
    } else if es.len() == 1 {
        entry_text(es[0])
    } else {
        entry_text(es[0]) + seq![','] + links_text(es.skip(1))
    }
}

/// A relation name that serializing keeps intact: nothing that would end a
/// segment, a parameter, a quoted value, or open an angle bracket.
pub open spec fn wf_rel(r: Seq<char>) -> bool {
    forall|i: int|
        0 <= i < r.len() ==> r[i] != ',' && r[i] != ';' && r[i] != '"' && r[i] != '<'
}

/// A URL that serializing keeps intact: nothing that would close the
/// angle-bracketed part early.
pub open spec fn wf_url(u: Seq<char>) -> bool {
    forall|i: int| 0 <= i < u.len() ==> u[i] != '>'
}

pub proof fn lemma_first_pos_bounds(s: Seq<char>, c: char)
    ensures
        match first_pos(s, c) {
            Some(k) => 0 <= k < s.len() && s[k] == c,
            None => true,
        },
    decreases s.len(),
{
    if s.len() > 0 && s[0] != c {
        lemma_first_pos_bounds(s.skip(1), c);
    }
}

pub proof fn lemma_first_sep_bounds(s: Seq<char>, st: bool)
    ensures
        match first_sep(s, st) {
            Some(k) => 0 <= k < s.len() && s[k] == ',',
            None => true,
        },
    decreases s.len(),
{
    if s.len() > 0 && !(s[0] == ',' && !st) {
        lemma_first_sep_bounds(s.skip(1), angle_after(st, s[0]));
    }
}

/// Compares two string slices character for character.
pub(crate) fn str_eq(a: &str, b: &str) -> (r: bool)
    ensures
        r == (a@ == b@),
{
    let an = a.unicode_len();
    let bn = b.unicode_len();
    if an != bn {
        proof {
            assert(a@ != b@) by {
                assert(a@.len() != b@.len());
            }
        }
        return false;
    }
    let mut i: usize = 0;
    while i < an
        invariant
            an == a@.len(),
            an == b@.len(),
            0 <= i <= an,
            forall|j: int| 0 <= j < i ==> a@[j] == b@[j],
        decreases an - i,
    {
        if a.get_char(i) != b.get_char(i) {
            return false;
        }
        i += 1;
    }
    proof {
        assert(a@ =~= b@);
    }
    true
}

/// Position of the first segment-separating comma, starting in state `st`.
fn find_sep(s: &str, st: bool) -> (r: Option<usize>)
    ensures
        match r {
            Some(k) => first_sep(s@, st) == Some(k as int),
            None => first_sep(s@, st) is None,
        },
    decreases s@.len(),
{
    let n = s.unicode_len();
    if n == 0 {
        return None;
    }
    let c = s.get_char(0);
    if c == ',' && !st {
        return Some(0);
    }
    let st2 = if c == '<' {
        true
    } else if c == '>' {
        false
    } else {
        st
    };
    let rest = s.substring_char(1, n);
    proof {
        lemma_first_sep_bounds(rest@, st2);
    }
    match find_sep(rest, st2) {
        Some(k) => Some(k + 1),
        None => None,
    }
}

/// Position of the first occurrence of `c` in `s`.
fn find_pos(s: &str, c: char) -> (r: Option<usize>)
    ensures
        match r {
            Some(k) => first_pos(s@, c) == Some(k as int),
            None => first_pos(s@, c) is None,
        },
    decreases s@.len(),
{
    let n = s.unicode_len();
    if n == 0 {
        return None;
    }
    if s.get_char(0) == c {
        return Some(0);
    }
    let rest = s.substring_char(1, n);
    proof {
        lemma_first_pos_bounds(rest@, c);
    }
    match find_pos(rest, c) {
        Some(k) => Some(k + 1),
        None => None,
    }
}

/// Strips leading linear whitespace.
fn trim_front_ws(s: &str) -> (r: &str)
    ensures
        r@ == trimmed_front(s@),
    decreases s@.len(),
{
    let n = s.unicode_len();
    if n > 0 {
        let c = s.get_char(0);
        if c == ' ' || c == '\t' {
            return trim_front_ws(s.substring_char(1, n));
        }
    }
    s
}

/// Strips trailing linear whitespace.
fn trim_back_ws(s: &str) -> (r: &str)
    ensures
        r@ == trimmed_back(s@),
    decreases s@.len(),
{
    let n = s.unicode_len();
    if n > 0 {
        let c = s.get_char(n - 1);
        if c == ' ' || c == '\t' {
            return trim_back_ws(s.substring_char(0, n - 1));
        }
    }
    s
}

/// Strips leading and trailing linear whitespace.
pub fn trim_ws(s: &str) -> (r: &str)
    ensures
        r@ == trimmed(s@),
{
    trim_back_ws(trim_front_ws(s))
}

/// Strips one level of surrounding double quotes.
fn unquote(v: &str) -> (r: &str)
    ensures
        r@ == unquoted(v@),
{
    let n = v.unicode_len();
    if n >= 2 && v.get_char(0) == '"' && v.get_char(n - 1) == '"' {
        v.substring_char(1, n - 1)
    } else {
        v
    }
}

/// The relation name of one parameter, if it is a `rel=` parameter.
fn parse_param_rel(p: &str) -> (r: Option<String>)
    ensures
        match r {
            Some(x) => param_rel(p@) == Some(x@),
            None => param_rel(p@) is None,
        },
{
    let t = trim_ws(p);
    let n = t.unicode_len();
    if n >= 4 && t.get_char(0) == 'r' && t.get_char(1) == 'e' && t.get_char(2) == 'l'
        && t.get_char(3) == '=' {
        let v = t.substring_char(4, n);
        Some(unquote(v).to_owned())
    } else {
        None
    }
}

/// The relation name of a parameter list; a later `rel=` parameter wins.
fn parse_params_rel(s: &str) -> (r: Option<String>)
    ensures
        match r {
            Some(x) => params_rel(s@) == Some(x@),
            None => params_rel(s@) is None,
        },
    decreases s@.len(),
{
    let n = s.unicode_len();
    match find_pos(s, ';') {
        None => parse_param_rel(s),
        Some(k) => {
            proof {
                lemma_first_pos_bounds(s@, ';');
            }
            let rest = s.substring_char(k + 1, n);
            match parse_params_rel(rest) {
                Some(r) => Some(r),
                None => parse_param_rel(s.substring_char(0, k)),
            }
        },
    }
}

/// Parses one comma-separated segment into its entry.
fn parse_segment(seg: &str) -> (r: Option<LinkEntry>)
    ensures
        match r {
            Some(e) => segment_entry(seg@) == Some(e@),
            None => segment_entry(seg@) is None,
        },
{
    let t = trim_ws(seg);
    let n = t.unicode_len();
    if n == 0 || t.get_char(0) != '<' {
        return None;
    }
    let after = t.substring_char(1, n);
    match find_pos(after, '>') {
        None => None,
        Some(j) => {
            proof {
                lemma_first_pos_bounds(after@, '>');
            }
            let an = after.unicode_len();
            let url = after.substring_char(0, j);
            let params = after.substring_char(j + 1, an);
            proof {
                assert(after@.subrange(0, j as int) =~= t@.skip(1).take(j as int));
                assert(after@.subrange(j + 1, an as int) =~= t@.skip(1).skip(j + 1));
            }
            match parse_params_rel(params) {
                None => None,
                Some(rel) => Some(LinkEntry { rel, url: url.to_owned() }),
            }
        },
    }
}

/// Parses a non-empty header value into its entries.
fn parse_entries(s: &str) -> (r: Option<Vec<LinkEntry>>)
    ensures
        match r {
            Some(v) => all_entries(s@) == Some(entries_view(v@)),
            None => all_entries(s@) is None,
        },
    decreases s@.len(),
{
    let n = s.unicode_len();
    match find_sep(s, false) {
        None => match parse_segment(s) {
            None => None,
            Some(e) => {
                let mut v: Vec<LinkEntry> = Vec::new();
                v.push(e);
                proof {
                    assert(entries_view(v@) =~= seq![e@]);
                }
                Some(v)
            },
        },
        Some(k) => {
            proof {
                lemma_first_sep_bounds(s@, false);
            }
            match parse_segment(s.substring_char(0, k)) {
                None => None,
                Some(e) => {
                    let rest = s.substring_char(k + 1, n);
                    match parse_entries(rest) {
                        None => None,
                        Some(mut v) => {
                            let ghost prev = v@;
                            v.insert(0, e);
                            proof {
                                assert(entries_view(v@) =~= seq![e@] + entries_view(prev));
                            }
                            Some(v)
                        },
                    }
                },
            }
        },
    }
}

/// Parses a `Link` header value into its relations, in header order.
///
/// An empty value yields no relations.  A segment without a `<url>` part or
/// without a `rel` parameter makes the whole header malformed, and the
/// header is then rejected rather than partially used.
pub fn parse_links(h: &str) -> (r: Result<Links, Error>)
    ensures
        match r {
            Ok(l) => parsed_links(h@) == Some(l@),
            Err(e) => parsed_links(h@) is None && e == Error::MalformedLinkHeader,
        },
{
    let n = h.unicode_len();
    if n == 0 {
        let l = Links { entries: Vec::new() };
        proof {
            assert(l@ =~= Seq::<EntryModel>::empty());
        }
        return Ok(l);
    }
    match parse_entries(h) {
        Some(entries) => Ok(Links { entries }),
        None => Err(Error::MalformedLinkHeader),
    }
}

/// In the relation map, the URL of a relation is the URL of its last entry:
/// a later entry for the same relation overwrites an earlier one.
pub proof fn lemma_rel_map_last(es: Seq<EntryModel>, i: int)
    requires
        0 <= i < es.len(),
        forall|j: int| i < j < es.len() ==> es[j].rel != es[i].rel,
    ensures
        rel_map(es).contains_key(es[i].rel),
        rel_map(es)[es[i].rel] == es[i].url,
    decreases es.len(),
{
    if i == es.len() - 1 {
    } else {
        lemma_rel_map_last(es.drop_last(), i);
    }
}

/// A relation no entry names is not in the relation map.
pub proof fn lemma_rel_map_absent(es: Seq<EntryModel>, r: Seq<char>)
    requires
        forall|j: int| 0 <= j < es.len() ==> es[j].rel != r,
    ensures
        !rel_map(es).contains_key(r),
    decreases es.len(),
{
    if es.len() > 0 {
        lemma_rel_map_absent(es.drop_last(), r);
    }
}

impl Links {
    /// Looks a relation up; when the header named it more than once, the
    /// last occurrence wins.
    pub fn get(&self, rel: &str) -> (r: Option<&String>)
        ensures
            match r {
                Some(u) => rel_map(self@).contains_key(rel@) && rel_map(self@)[rel@] == u@,
                None => !rel_map(self@).contains_key(rel@),
            },
    {
        let mut i = self.entries.len();
        while i > 0
            invariant
                i <= self.entries.len(),
                forall|j: int| i <= j < self@.len() ==> self@[j].rel != rel@,
            decreases i,
        {
            i -= 1;
            if str_eq(self.entries[i].rel.as_str(), rel) {
                proof {
                    lemma_rel_map_last(self@, i as int);
                }
                return Some(&self.entries[i].url);
            }
        }
        proof {
            lemma_rel_map_absent(self@, rel@);
        }
        None
    }
}

/// Serializes relations into a `Link` header value: segments of the form
/// `<url>; rel="name"`, joined by commas.
pub fn format_links(l: &Links) -> (r: String)
    ensures
        r@ == links_text(l@),
{
    let r = links_text_from(l, 0);
    proof {
        assert(l@.skip(0) =~= l@);
    }
    r
}

/// Serializes the entries of `l` from position `i` on.
fn links_text_from(l: &Links, i: usize) -> (r: String)
    requires
        i <= l.entries@.len(),
    ensures
        r@ == links_text(l@.skip(i as int)),
    decreases l.entries@.len() - i,
{
    if i == l.entries.len() {
        let r = String::new();
        proof {
            assert(l@.skip(i as int) =~= Seq::<EntryModel>::empty());
        }
        r
    } else {
        let e = &l.entries[i];
        let mut s = String::new();
        s.append("<");
        s.append(e.url.as_str());
        s.append(">; rel=\"");
        s.append(e.rel.as_str());
        s.append("\"");
        proof {
            reveal_strlit("<");
            reveal_strlit(">; rel=\"");
            reveal_strlit("\"");
            assert("<"@ =~= seq!['<']);
            assert(">; rel=\""@ =~= seq!['>', ';', ' ', 'r', 'e', 'l', '=', '"']);
            assert("\""@ =~= seq!['"']);
            assert(s@ =~= entry_text(l@.skip(i as int)[0]));
        }
        if i + 1 < l.entries.len() {
            s.append(",");
            let rest = links_text_from(l, i + 1);
            s.append(rest.as_str());
            proof {
                reveal_strlit(",");
                assert(","@ =~= seq![',']);
                assert(l@.skip(i as int).skip(1) =~= l@.skip(i + 1));
                assert(s@ =~= links_text(l@.skip(i as int)));
            }
        } else {
            proof {
                assert(l@.skip(i as int).len() == 1);
            }
        }
        s
    }
}

} // verus!

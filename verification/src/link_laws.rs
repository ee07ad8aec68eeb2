//! The round-trip law of the `Link` header codec.

use vstd::prelude::*;

use crate::links::{
    all_entries, angle_after, angle_end, entry_text, first_pos, first_sep, is_lws, links_text,
    param_rel, params_rel, parsed_links, segment_entry, trimmed, trimmed_back, trimmed_front,
    unquoted, wf_rel, wf_url, EntryModel,
};

verus! {

/// The final angle state of a concatenation is reached piecewise.
proof fn lemma_angle_end_concat(a: Seq<char>, b: Seq<char>, st: bool)
    ensures
        angle_end(a + b, st) == angle_end(b, angle_end(a, st)),
    decreases a.len(),
{
    if a.len() == 0 {
        assert(a + b =~= b);
    } else {
        assert((a + b).skip(1) =~= a.skip(1) + b);
        assert((a + b)[0] == a[0]);
        lemma_angle_end_concat(a.skip(1), b, angle_after(st, a[0]));
    }
}

/// A separator after a separator-free prefix lies in the suffix, shifted,
/// and is sought in the prefix's final angle state.
proof fn lemma_first_sep_concat(a: Seq<char>, b: Seq<char>, st: bool)
    requires
        first_sep(a, st) is None,
    ensures
        first_sep(a + b, st) == match first_sep(b, angle_end(a, st)) {
            Some(k) => Some(k + a.len()),
            None => None::<int>,
        },
    decreases a.len(),
{
    if a.len() == 0 {
        assert(a + b =~= b);
    } else {
        assert((a + b).skip(1) =~= a.skip(1) + b);
        assert((a + b)[0] == a[0]);
        lemma_first_sep_concat(a.skip(1), b, angle_after(st, a[0]));
    }
}

/// A character absent from a prefix is first found in the suffix, shifted.
proof fn lemma_first_pos_concat(a: Seq<char>, b: Seq<char>, c: char)
    requires
        forall|i: int| 0 <= i < a.len() ==> a[i] != c,
    ensures
        first_pos(a + b, c) == match first_pos(b, c) {
            Some(k) => Some(k + a.len()),
            None => None::<int>,
        },
    decreases a.len(),
{
    if a.len() == 0 {
        assert(a + b =~= b);
    } else {
        assert((a + b).skip(1) =~= a.skip(1) + b);
        assert((a + b)[0] == a[0]);
        lemma_first_pos_concat(a.skip(1), b, c);
    }
}

/// A character absent from a sequence is not found in it.
proof fn lemma_first_pos_absent(s: Seq<char>, c: char)
    requires
        forall|i: int| 0 <= i < s.len() ==> s[i] != c,
    ensures
        first_pos(s, c) is None,
    decreases s.len(),
{
    if s.len() > 0 {
        lemma_first_pos_absent(s.skip(1), c);
    }
}

/// Inside angle brackets, text without `>` separates nothing and keeps the
/// angle state.
proof fn lemma_url_clean(u: Seq<char>)
    requires
        wf_url(u),
    ensures
        first_sep(u, true) is None,
        angle_end(u, true) == true,
    decreases u.len(),
{
    if u.len() > 0 {
        assert(u.skip(1).len() == u.len() - 1);
        assert(forall|i: int| 0 <= i < u.skip(1).len() ==> u.skip(1)[i] == u[i + 1]);
        lemma_url_clean(u.skip(1));
    }
}

/// Outside angle brackets, text without commas or `<` separates nothing
/// and stays outside.
proof fn lemma_flat_clean(s: Seq<char>)
    requires
        forall|i: int| 0 <= i < s.len() ==> s[i] != ',' && s[i] != '<',
    ensures
        first_sep(s, false) is None,
        angle_end(s, false) == false,
    decreases s.len(),
{
    if s.len() > 0 {
        assert(forall|i: int| 0 <= i < s.skip(1).len() ==> s.skip(1)[i] == s[i + 1]);
        lemma_flat_clean(s.skip(1));
    }
}

/// A serialized entry contains no top-level comma and closes every angle
/// bracket it opens.
proof fn lemma_entry_clean(e: EntryModel)
    requires
        wf_rel(e.rel),
        wf_url(e.url),
    ensures
        first_sep(entry_text(e), false) is None,
        angle_end(entry_text(e), false) == false,
{
    let open = seq!['<'];
    let close = seq!['>', ';', ' ', 'r', 'e', 'l', '=', '"'] + e.rel + seq!['"'];
    assert(entry_text(e) =~= open + (e.url + close));

    assert(open.skip(1) =~= Seq::<char>::empty());
    assert(first_sep(Seq::<char>::empty(), true) is None);
    assert(first_sep(open, false) is None);
    assert(angle_end(Seq::<char>::empty(), true) == true);
    assert(angle_end(open, false) == true);

    lemma_url_clean(e.url);

    let flat = seq![';', ' ', 'r', 'e', 'l', '=', '"'] + e.rel + seq!['"'];
    assert(close.skip(1) =~= flat);
    assert(forall|i: int| 0 <= i < flat.len() ==> flat[i] != ',' && flat[i] != '<') by {
        assert(forall|i: int|
            0 <= i < flat.len() && 7 <= i < 7 + e.rel.len() ==> flat[i] == e.rel[i - 7]);
    }
    lemma_flat_clean(flat);
    assert(close[0] == '>');
    assert(first_sep(close, true) is None);
    assert(angle_end(close, true) == false);

    lemma_first_sep_concat(e.url, close, true);
    assert(first_sep(e.url + close, true) is None);
    lemma_angle_end_concat(e.url, close, true);
    assert(angle_end(e.url + close, true) == false);

    lemma_first_sep_concat(open, e.url + close, false);
    lemma_angle_end_concat(open, e.url + close, false);
}

/// Trimming does not touch a text whose first and last characters are not
/// whitespace.
proof fn lemma_trim_id(s: Seq<char>)
    requires
        s.len() > 0,
        !is_lws(s[0]),
        !is_lws(s[s.len() - 1]),
    ensures
        trimmed(s) == s,
{
    assert(trimmed_front(s) == s);
    assert(trimmed_back(s) == s);
}

/// Parsing one serialized entry recovers exactly that entry.
proof fn lemma_parse_entry(e: EntryModel)
    requires
        wf_rel(e.rel),
        wf_url(e.url),
    ensures
        segment_entry(entry_text(e)) == Some(e),
{
    let fe = entry_text(e);
    let tail8 = seq!['>', ';', ' ', 'r', 'e', 'l', '=', '"'];
    assert(fe.len() == e.url.len() + e.rel.len() + 10);
    assert(fe[0] == '<');
    assert(fe[fe.len() - 1] == '"');
    lemma_trim_id(fe);
    let t = trimmed(fe);
    assert(t == fe);

    let after = t.skip(1);
    let rest8 = tail8 + e.rel + seq!['"'];
    assert(after =~= e.url + rest8);
    assert(rest8[0] == '>');
    assert(first_pos(rest8, '>') == Some(0int));
    lemma_first_pos_concat(e.url, rest8, '>');
    assert(first_pos(after, '>') == Some(e.url.len() as int));

    let j = e.url.len() as int;
    assert(after.take(j) =~= e.url);

    let params = after.skip(j + 1);
    let tail7 = seq![';', ' ', 'r', 'e', 'l', '=', '"'];
    assert(params =~= tail7 + e.rel + seq!['"']);

    assert(params[0] == ';');
    assert(first_pos(params, ';') == Some(0int));

    let q = params.skip(1);
    let tail6 = seq![' ', 'r', 'e', 'l', '=', '"'];
    assert(q =~= tail6 + e.rel + seq!['"']);
    let qflat = tail6 + e.rel + seq!['"'];
    assert(forall|i: int| 0 <= i < qflat.len() ==> qflat[i] != ';') by {
        assert(forall|i: int|
            0 <= i < qflat.len() && 6 <= i < 6 + e.rel.len() ==> qflat[i] == e.rel[i - 6]);
    }
    lemma_first_pos_absent(q, ';');
    assert(params_rel(q) == param_rel(q));

    let t5 = seq!['r', 'e', 'l', '=', '"'] + e.rel + seq!['"'];
    assert(q[0] == ' ');
    assert(q.skip(1) =~= t5);
    assert(trimmed_front(q) == trimmed_front(t5));
    assert(t5[0] == 'r');
    assert(trimmed_front(t5) == t5);
    assert(t5[t5.len() - 1] == '"');
    assert(trimmed_back(t5) == t5);
    assert(trimmed(q) == t5);

    assert(t5.len() == e.rel.len() + 6);
    assert(t5[0] == 'r' && t5[1] == 'e' && t5[2] == 'l' && t5[3] == '=');
    let v = t5.skip(4);
    assert(v =~= seq!['"'] + e.rel + seq!['"']);
    assert(v.len() == e.rel.len() + 2);
    assert(v[0] == '"');
    assert(v[v.len() - 1] == '"');
    assert(unquoted(v) =~= e.rel);
    assert(param_rel(q) == Some(e.rel));
    assert(params_rel(params) == Some(e.rel));

    assert(segment_entry(fe) == Some(EntryModel { rel: e.rel, url: after.take(j) }));
    assert(EntryModel { rel: e.rel, url: after.take(j) } =~= e);
}

/// A serialized non-empty entry sequence is non-empty text.
proof fn lemma_links_text_len(es: Seq<EntryModel>)
    requires
        es.len() > 0,
    ensures
        links_text(es).len() >= 10,
    decreases es.len(),
{
    if es.len() > 1 {
        lemma_links_text_len(es.skip(1));
    }
}

/// Round trip of the `Link` header codec: serializing any sequence of
/// well-formed entries and parsing the text back recovers exactly that
/// sequence, entry for entry and URL for URL.  Well-formed means only that
/// a relation name contains no `,`, `;`, `"` or `<` and a URL no `>`:
/// nothing that the serialized form could not carry.
pub proof fn lemma_links_round_trip(es: Seq<EntryModel>)
    requires
        forall|i: int| 0 <= i < es.len() ==> wf_rel(#[trigger] es[i].rel) && wf_url(es[i].url),
    ensures
        parsed_links(links_text(es)) == Some(es),
    decreases es.len(),
{
    if es.len() == 0 {
        assert(links_text(es).len() == 0);
        assert(es =~= Seq::<EntryModel>::empty());
    } else if es.len() == 1 {
        let h = links_text(es);
        assert(h == entry_text(es[0]));
        lemma_entry_clean(es[0]);
        lemma_parse_entry(es[0]);
        assert(h.len() >= 10);
        assert(all_entries(h) == Some(seq![es[0]]));
        assert(seq![es[0]] =~= es);
    } else {
        let fe = entry_text(es[0]);
        let rest = links_text(es.skip(1));
        let h = links_text(es);
        assert(h =~= fe + (seq![','] + rest));

        lemma_entry_clean(es[0]);
        assert(first_sep(seq![','] + rest, false) == Some(0int)) by {
            assert((seq![','] + rest)[0] == ',');
        }
        lemma_first_sep_concat(fe, seq![','] + rest, false);
        assert(first_sep(h, false) == Some(fe.len() as int));

        let k = fe.len() as int;
        assert(h.take(k) =~= fe);
        lemma_parse_entry(es[0]);

        assert(h.skip(k + 1) =~= rest);
        lemma_links_round_trip(es.skip(1));
        lemma_links_text_len(es.skip(1));
        assert(all_entries(rest) == Some(es.skip(1)));

        assert(h.len() >= 10) by {
            lemma_links_text_len(es);
        }
        assert(all_entries(h) == Some(seq![es[0]] + es.skip(1)));
        assert(seq![es[0]] + es.skip(1) =~= es);
    }
}

} // verus!

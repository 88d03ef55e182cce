//! The store's persistence format: every holder is written as one JSON
//! value, and the whole collection as one JSON array. The text produced
//! here is also what the store's search matches query tokens against.
use vstd::prelude::*;

use crate::item_holder::{Item, ItemEvent, ItemEventType, ItemEventV, ItemHolder, ItemHolderV, ItemV};
use crate::record::{Artist, ArtistV, Format, FormatV, Identifier, IdentifierV, Label, LabelV, Record, RecordV, Track, TrackV};
use crate::text::chars_of;

verus! {

broadcast use vstd::std_specs::vec::axiom_vec_index_decreases, vstd::std_specs::vec::axiom_vec_decreases_to_view, vstd::seq::axiom_seq_index_decreases;

/// The decimal digit character for a value below ten.
pub open spec fn dec_digit(d: int) -> char {
    ((48 + d) as u8) as char
}

/// The lower-case hexadecimal digit character for a value below sixteen.
pub open spec fn hex_digit(d: int) -> char {
    if d < 10 {
        ((48 + d) as u8) as char
    } else {
        ((87 + d) as u8) as char
    }
}

/// The decimal representation of a nonnegative integer, most significant
/// digit first, without leading zeroes.
pub open spec fn dec_rep_nat(n: nat) -> Seq<char>
    decreases n,
{
    if n < 10 {
        seq![dec_digit(n as int)]
    } else {
        dec_rep_nat(n / 10).push(dec_digit((n % 10) as int))
    }
}

/// The decimal representation of an integer, `-` first when negative.
pub open spec fn dec_rep_int(n: int) -> Seq<char> {
    if n < 0 {
        seq!['-'] + dec_rep_nat((-n) as nat)
    } else {
        dec_rep_nat(n as nat)
    }
}

/// How one character is written inside a JSON string literal: quote,
/// backslash and control characters are escaped, all else stands as is.
pub open spec fn json_escape_char(c: char) -> Seq<char> {
    if c == '"' {
        seq!['\\', '"']
    } else if c == '\\' {
        seq!['\\', '\\']
    } else if c == '\u{8}' {
        seq!['\\', 'b']
    } else if c == '\u{c}' {
        seq!['\\', 'f']
    } else if c == '\n' {
        seq!['\\', 'n']
    } else if c == '\r' {
        seq!['\\', 'r']
    } else if c == '\t' {
        seq!['\\', 't']
    } else if (c as u32) < 32 {
        seq!['\\', 'u', '0', '0', hex_digit((c as u32) as int / 16), hex_digit((c as u32) as int % 16)]
    } else {
        seq![c]
    }
}

/// The body of a JSON string literal: each character escaped as needed.
pub open spec fn json_escaped(s: Seq<char>) -> Seq<char>
    decreases s,
{
    if s.len() == 0 {
        Seq::empty()
    } else {
        json_escaped(s.drop_last()) + json_escape_char(s.last())
    }
}

/// A JSON string literal carrying the given text.
pub open spec fn json_string(s: Seq<char>) -> Seq<char> {
    seq!['"'] + json_escaped(s) + seq!['"']
}

/// The given pieces of text joined by commas.
pub open spec fn join_comma(elems: Seq<Seq<char>>) -> Seq<char>
    decreases elems,
{
    if elems.len() == 0 {
        Seq::empty()
    } else if elems.len() == 1 {
        elems[0]
    } else {
        join_comma(elems.drop_last()) + seq![','] + elems.last()
    }
}

/// Each element rendered by the given writer, in order.
pub open spec fn jsons<T>(s: Seq<T>, f: spec_fn(T) -> Seq<char>) -> Seq<Seq<char>>
    decreases s,
{
    if s.len() == 0 {
        Seq::empty()
    } else {
        jsons(s.drop_last(), f).push(f(s.last()))
    }
}

/// A JSON array of the elements rendered by the given writer.
pub open spec fn json_array<T>(s: Seq<T>, f: spec_fn(T) -> Seq<char>) -> Seq<char> {
    seq!['['] + join_comma(jsons(s, f)) + seq![']']
}

/// Joining one piece more appends a comma and the piece, unless it is
/// the first.
pub proof fn lemma_join_push(s: Seq<Seq<char>>, x: Seq<char>)
    ensures
        join_comma(s.push(x)) == if s.len() == 0 {
            x
        } else {
            join_comma(s) + seq![','] + x
        },
{
    assert(s.push(x).drop_last() =~= s);
    assert(s.push(x).last() == x);
    if s.len() == 0 {
        assert(join_comma(s.push(x)) == s.push(x)[0]);
    }
}

/// Append every character of the given text.
pub fn push_lit(out: &mut Vec<char>, s: &str)
    ensures
        final(out)@ == old(out)@ + s@,
{
    let cs = chars_of(s);
    let ghost base = out@;
    let mut k: usize = 0;
    while k < cs.len()
        invariant
            k <= cs@.len(),
            cs@ == s@,
            out@ == base + cs@.subrange(0, k as int),
        decreases cs@.len() - k,
    {
        out.push(cs[k]);
        proof {
            assert(out@ =~= base + cs@.subrange(0, k + 1));
        }
        k += 1;
    }
    proof {
        assert(out@ =~= base + s@);
    }
}

/// Append the decimal representation of a nonnegative integer.
pub fn push_u64(out: &mut Vec<char>, n: u64)
    ensures
        final(out)@ == old(out)@ + dec_rep_nat(n as nat),
    decreases n,
{
    if n < 10 {
        out.push((48u8 + (n as u8)) as char);
        proof {
            assert(out@ =~= old(out)@ + dec_rep_nat(n as nat));
        }
    } else {
        push_u64(out, n / 10);
        out.push((48u8 + ((n % 10) as u8)) as char);
        proof {
            assert(out@ =~= old(out)@ + dec_rep_nat(n as nat));
        }
    }
}

/// Append the decimal representation of an integer.
pub fn push_i64(out: &mut Vec<char>, n: i64)
    ensures
        final(out)@ == old(out)@ + dec_rep_int(n as int),
{
    if n >= 0 {
        push_u64(out, n as u64);
    } else {
        out.push('-');
        let m: u64 = if n == i64::MIN {
            9223372036854775808u64
        } else {
            (-n) as u64
        };
        push_u64(out, m);
        proof {
            assert(out@ =~= old(out)@ + dec_rep_int(n as int));
        }
    }
}

/// Append one character of a JSON string body, escaped as needed.
fn push_escaped_char(out: &mut Vec<char>, c: char)
    ensures
        final(out)@ == old(out)@ + json_escape_char(c),
{
    if c == '"' {
        out.push('\\');
        out.push('"');
    } else if c == '\\' {
        out.push('\\');
        out.push('\\');
    } else if c == '\u{8}' {
        out.push('\\');
        out.push('b');
    } else if c == '\u{c}' {
        out.push('\\');
        out.push('f');
    } else if c == '\n' {
        out.push('\\');
        out.push('n');
    } else if c == '\r' {
        out.push('\\');
        out.push('r');
    } else if c == '\t' {
        out.push('\\');
        out.push('t');
    } else if (c as u32) < 32 {
        out.push('\\');
        out.push('u');
        out.push('0');
        out.push('0');
        let hi = (c as u32) / 16;
        let lo = (c as u32) % 16;
        out.push(if hi < 10 {
            (48u8 + (hi as u8)) as char
        } else {
            (87u8 + (hi as u8)) as char
        });
        out.push(if lo < 10 {
            (48u8 + (lo as u8)) as char
        } else {
            (87u8 + (lo as u8)) as char
        });
    } else {
        out.push(c);
    }
    proof {
        assert(out@ =~= old(out)@ + json_escape_char(c));
    }
}

/// Append a JSON string literal carrying the given text.
pub fn push_json_string(out: &mut Vec<char>, s: &str)
    ensures
        final(out)@ == old(out)@ + json_string(s@),
{
    let cs = chars_of(s);
    out.push('"');
    let ghost base = out@;
    let mut k: usize = 0;
    while k < cs.len()
        invariant
            k <= cs@.len(),
            cs@ == s@,
            out@ == base + json_escaped(cs@.subrange(0, k as int)),
        decreases cs@.len() - k,
    {
        push_escaped_char(out, cs[k]);
        proof {
            let pre = cs@.subrange(0, k as int);
            let post = cs@.subrange(0, k + 1);
            assert(post.drop_last() =~= pre);
            assert(post.last() == cs@[k as int]);
            assert(json_escaped(post) == json_escaped(pre) + json_escape_char(cs@[k as int]));
        }
        k += 1;
    }
    out.push('"');
    proof {
        assert(cs@.subrange(0, cs@.len() as int) =~= s@);
        assert(out@ =~= old(out)@ + json_string(s@));
    }
}

/// A rendered sequence has one piece per element.
pub proof fn lemma_jsons_len<T>(s: Seq<T>, f: spec_fn(T) -> Seq<char>)
    ensures
        jsons(s, f).len() == s.len(),
    decreases s,
{
    if s.len() > 0 {
        lemma_jsons_len(s.drop_last(), f);
    }
}

/// How one format is written.
pub open spec fn format_json(f: FormatV) -> Seq<char> {
    "{\"name\":"@ + json_string(f.name) + "}"@
}

/// How one artist credit is written.
pub open spec fn artist_json(a: ArtistV) -> Seq<char> {
    "{\"name\":"@ + json_string(a.name) + ",\"id\":"@ + dec_rep_int(a.id) + "}"@
}

/// How one label is written.
pub open spec fn label_json(l: LabelV) -> Seq<char> {
    "{\"name\":"@ + json_string(l.name) + ",\"catno\":"@ + json_string(l.catno) + "}"@
}

/// How one external identifier is written.
pub open spec fn identifier_json(i: IdentifierV) -> Seq<char> {
    "{\"type\":"@ + json_string(i.type_) + ",\"value\":"@ + json_string(i.value) + "}"@
}

/// How one track is written; sub-tracks nest recursively.
pub open spec fn track_json(t: TrackV) -> Seq<char>
    decreases t,
{
    "{\"position\":"@ + json_string(t.position) + ",\"type_\":"@ + json_string(t.type_)
        + ",\"title\":"@ + json_string(t.title) + ",\"duration\":"@ + json_string(t.duration)
        + ",\"extraartists\":"@ + (match t.extraartists {
        None => "null"@,
        Some(aa) => json_array(aa, |a: ArtistV| artist_json(a)),
    }) + ",\"sub_tracks\":"@ + (match t.sub_tracks {
        None => "null"@,
        Some(ts) => seq!['['] + join_comma(tracks_jsons(ts)) + seq![']'],
    }) + "}"@
}

/// Each track of a list rendered in order.
pub open spec fn tracks_jsons(ts: Seq<TrackV>) -> Seq<Seq<char>>
    decreases ts,
{
    if ts.len() == 0 {
        Seq::empty()
    } else {
        tracks_jsons(ts.drop_last()).push(track_json(ts.last()))
    }
}

/// Each rendered track list has one piece per track.
pub proof fn lemma_tracks_jsons_len(ts: Seq<TrackV>)
    ensures
        tracks_jsons(ts).len() == ts.len(),
    decreases ts,
{
    if ts.len() > 0 {
        lemma_tracks_jsons_len(ts.drop_last());
    }
}

/// How a whole record is written.
pub open spec fn record_json(r: RecordV) -> Seq<char> {
    "{\"id\":"@ + dec_rep_int(r.id) + ",\"year\":"@ + dec_rep_int(r.year) + ",\"title\":"@
        + json_string(r.title) + ",\"formats\":"@ + json_array(
        r.formats,
        |x: FormatV| format_json(x),
    ) + ",\"artists\":"@ + json_array(r.artists, |x: ArtistV| artist_json(x)) + ",\"labels\":"@
        + json_array(r.labels, |x: LabelV| label_json(x)) + ",\"identifiers\":"@ + json_array(
        r.identifiers,
        |x: IdentifierV| identifier_json(x),
    ) + ",\"genres\":"@ + json_array(r.genres, |s: Seq<char>| json_string(s)) + ",\"styles\":"@
        + json_array(r.styles, |s: Seq<char>| json_string(s)) + ",\"tracklist\":"@ + seq!['[']
        + join_comma(tracks_jsons(r.tracklist)) + seq![']'] + "}"@
}

/// How one event kind is written.
pub open spec fn event_kind_json(t: ItemEventType) -> Seq<char> {
    match t {
        ItemEventType::Created => "\"Created\""@,
        ItemEventType::Message => "\"Message\""@,
        ItemEventType::Lent => "\"Lent\""@,
    }
}

/// How one lifecycle event is written.
pub open spec fn event_json(e: ItemEventV) -> Seq<char> {
    "{\"date\":"@ + dec_rep_int(e.date) + ",\"event_type\":"@ + event_kind_json(e.event_type)
        + ",\"message\":"@ + (match e.message {
        None => "null"@,
        Some(m) => json_string(m),
    }) + "}"@
}

/// How one copy is written.
pub open spec fn item_json(i: ItemV) -> Seq<char> {
    "{\"id\":"@ + dec_rep_int(i.id) + ",\"events\":"@ + json_array(
        i.events,
        |e: ItemEventV| event_json(e),
    ) + "}"@
}

/// How one holder is written.
pub open spec fn holder_json(h: ItemHolderV) -> Seq<char> {
    "{\"record\":"@ + record_json(h.record) + ",\"items\":"@ + json_array(
        h.items,
        |i: ItemV| item_json(i),
    ) + "}"@
}

/// How the whole collection is written: one array of holders.
pub open spec fn store_json(hs: Seq<ItemHolderV>) -> Seq<char> {
    json_array(hs, |h: ItemHolderV| holder_json(h))
}

/// Append one format.
fn format_into(out: &mut Vec<char>, f: &Format)
    ensures
        final(out)@ == old(out)@ + format_json(f.deep_view()),
{
    push_lit(out, "{\"name\":");
    push_json_string(out, f.name.as_str());
    push_lit(out, "}");
    proof {
        assert(out@ =~= old(out)@ + format_json(f.deep_view()));
    }
}

/// Append one artist credit.
fn artist_into(out: &mut Vec<char>, a: &Artist)
    ensures
        final(out)@ == old(out)@ + artist_json(a.deep_view()),
{
    push_lit(out, "{\"name\":");
    push_json_string(out, a.name.as_str());
    push_lit(out, ",\"id\":");
    push_i64(out, a.id);
    push_lit(out, "}");
    proof {
        assert(out@ =~= old(out)@ + artist_json(a.deep_view()));
    }
}

/// Append one label.
fn label_into(out: &mut Vec<char>, l: &Label)
    ensures
        final(out)@ == old(out)@ + label_json(l.deep_view()),
{
    push_lit(out, "{\"name\":");
    push_json_string(out, l.name.as_str());
    push_lit(out, ",\"catno\":");
    push_json_string(out, l.catno.as_str());
    push_lit(out, "}");
    proof {
        assert(out@ =~= old(out)@ + label_json(l.deep_view()));
    }
}

/// Append one external identifier.
fn identifier_into(out: &mut Vec<char>, i: &Identifier)
    ensures
        final(out)@ == old(out)@ + identifier_json(i.deep_view()),
{
    push_lit(out, "{\"type\":");
    push_json_string(out, i.type_.as_str());
    push_lit(out, ",\"value\":");
    push_json_string(out, i.value.as_str());
    push_lit(out, "}");
    proof {
        assert(out@ =~= old(out)@ + identifier_json(i.deep_view()));
    }
}

/// Append a JSON array of formats.
fn formats_into(out: &mut Vec<char>, v: &Vec<Format>)
    ensures
        final(out)@ == old(out)@ + json_array(v.deep_view(), |x: FormatV| format_json(x)),
{
    let ghost f = |x: FormatV| format_json(x);
    let ghost dv = v.deep_view();
    out.push('[');
    let ghost base = out@;
    let mut i: usize = 0;
    while i < v.len()
        invariant
            i <= v@.len(),
            dv == v.deep_view(),
            dv.len() == v@.len(),
            f == (|x: FormatV| format_json(x)),
            out@ == base + join_comma(jsons(dv.subrange(0, i as int), f)),
        decreases v@.len() - i,
    {
        proof {
            lemma_jsons_len(dv.subrange(0, i as int), f);
        }
        if i > 0 {
            out.push(',');
        }
        format_into(out, &v[i]);
        proof {
            let pre = dv.subrange(0, i as int);
            let post = dv.subrange(0, i + 1);
            assert(post.drop_last() =~= pre);
            assert(post.last() == dv[i as int]);
            assert(jsons(post, f) == jsons(pre, f).push(f(dv[i as int])));
            lemma_join_push(jsons(pre, f), f(dv[i as int]));
            assert(out@ =~= base + join_comma(jsons(post, f)));
        }
        i += 1;
    }
    out.push(']');
    proof {
        assert(dv.subrange(0, dv.len() as int) =~= dv);
        assert(out@ =~= old(out)@ + json_array(dv, f));
    }
}

/// Append a JSON array of artist credits.
fn artists_into(out: &mut Vec<char>, v: &Vec<Artist>)
    ensures
        final(out)@ == old(out)@ + json_array(v.deep_view(), |x: ArtistV| artist_json(x)),
{
    let ghost f = |x: ArtistV| artist_json(x);
    let ghost dv = v.deep_view();
    out.push('[');
    let ghost base = out@;
    let mut i: usize = 0;
    while i < v.len()
        invariant
            i <= v@.len(),
            dv == v.deep_view(),
            dv.len() == v@.len(),
            f == (|x: ArtistV| artist_json(x)),
            out@ == base + join_comma(jsons(dv.subrange(0, i as int), f)),
        decreases v@.len() - i,
    {
        proof {
            lemma_jsons_len(dv.subrange(0, i as int), f);
        }
        if i > 0 {
            out.push(',');
        }
        artist_into(out, &v[i]);
        proof {
            let pre = dv.subrange(0, i as int);
            let post = dv.subrange(0, i + 1);
            assert(post.drop_last() =~= pre);
            assert(post.last() == dv[i as int]);
            assert(jsons(post, f) == jsons(pre, f).push(f(dv[i as int])));
            lemma_join_push(jsons(pre, f), f(dv[i as int]));
            assert(out@ =~= base + join_comma(jsons(post, f)));
        }
        i += 1;
    }
    out.push(']');
    proof {
        assert(dv.subrange(0, dv.len() as int) =~= dv);
        assert(out@ =~= old(out)@ + json_array(dv, f));
    }
}

/// Append a JSON array of labels.
fn labels_into(out: &mut Vec<char>, v: &Vec<Label>)
    ensures
        final(out)@ == old(out)@ + json_array(v.deep_view(), |x: LabelV| label_json(x)),
{
    let ghost f = |x: LabelV| label_json(x);
    let ghost dv = v.deep_view();
    out.push('[');
    let ghost base = out@;
    let mut i: usize = 0;
    while i < v.len()
        invariant
            i <= v@.len(),
            dv == v.deep_view(),
            dv.len() == v@.len(),
            f == (|x: LabelV| label_json(x)),
            out@ == base + join_comma(jsons(dv.subrange(0, i as int), f)),
        decreases v@.len() - i,
    {
        proof {
            lemma_jsons_len(dv.subrange(0, i as int), f);
        }
        if i > 0 {
            out.push(',');
        }
        label_into(out, &v[i]);
        proof {
            let pre = dv.subrange(0, i as int);
            let post = dv.subrange(0, i + 1);
            assert(post.drop_last() =~= pre);
            assert(post.last() == dv[i as int]);
            assert(jsons(post, f) == jsons(pre, f).push(f(dv[i as int])));
            lemma_join_push(jsons(pre, f), f(dv[i as int]));
            assert(out@ =~= base + join_comma(jsons(post, f)));
        }
        i += 1;
    }
    out.push(']');
    proof {
        assert(dv.subrange(0, dv.len() as int) =~= dv);
        assert(out@ =~= old(out)@ + json_array(dv, f));
    }
}

/// Append a JSON array of external identifiers.
fn identifiers_into(out: &mut Vec<char>, v: &Vec<Identifier>)
    ensures
        final(out)@ == old(out)@ + json_array(v.deep_view(), |x: IdentifierV| identifier_json(x)),
{
    let ghost f = |x: IdentifierV| identifier_json(x);
    let ghost dv = v.deep_view();
    out.push('[');
    let ghost base = out@;
    let mut i: usize = 0;
    while i < v.len()
        invariant
            i <= v@.len(),
            dv == v.deep_view(),
            dv.len() == v@.len(),
            f == (|x: IdentifierV| identifier_json(x)),
            out@ == base + join_comma(jsons(dv.subrange(0, i as int), f)),
        decreases v@.len() - i,
    {
        proof {
            lemma_jsons_len(dv.subrange(0, i as int), f);
        }
        if i > 0 {
            out.push(',');
        }
        identifier_into(out, &v[i]);
        proof {
            let pre = dv.subrange(0, i as int);
            let post = dv.subrange(0, i + 1);
            assert(post.drop_last() =~= pre);
            assert(post.last() == dv[i as int]);
            assert(jsons(post, f) == jsons(pre, f).push(f(dv[i as int])));
            lemma_join_push(jsons(pre, f), f(dv[i as int]));
            assert(out@ =~= base + join_comma(jsons(post, f)));
        }
        i += 1;
    }
    out.push(']');
    proof {
        assert(dv.subrange(0, dv.len() as int) =~= dv);
        assert(out@ =~= old(out)@ + json_array(dv, f));
    }
}

/// Append a JSON array of plain strings.
fn strings_into(out: &mut Vec<char>, v: &Vec<String>)
    ensures
        final(out)@ == old(out)@ + json_array(v.deep_view(), |s: Seq<char>| json_string(s)),
{
    let ghost f = |s: Seq<char>| json_string(s);
    let ghost dv = v.deep_view();
    out.push('[');
    let ghost base = out@;
    let mut i: usize = 0;
    while i < v.len()
        invariant
            i <= v@.len(),
            dv == v.deep_view(),
            dv.len() == v@.len(),
            f == (|s: Seq<char>| json_string(s)),
            out@ == base + join_comma(jsons(dv.subrange(0, i as int), f)),
        decreases v@.len() - i,
    {
        proof {
            lemma_jsons_len(dv.subrange(0, i as int), f);
        }
        if i > 0 {
            out.push(',');
        }
        push_json_string(out, v[i].as_str());
        proof {
            let pre = dv.subrange(0, i as int);
            let post = dv.subrange(0, i + 1);
            assert(post.drop_last() =~= pre);
            assert(post.last() == dv[i as int]);
            assert(jsons(post, f) == jsons(pre, f).push(f(dv[i as int])));
            lemma_join_push(jsons(pre, f), f(dv[i as int]));
            assert(out@ =~= base + join_comma(jsons(post, f)));
        }
        i += 1;
    }
    out.push(']');
    proof {
        assert(dv.subrange(0, dv.len() as int) =~= dv);
        assert(out@ =~= old(out)@ + json_array(dv, f));
    }
}

/// Append one track; sub-tracks nest recursively.
#[verifier::rlimit(100)]
fn track_into(out: &mut Vec<char>, t: &Track)
    ensures
        final(out)@ == old(out)@ + track_json(t.deep_view()),
    decreases *t,
{
    push_lit(out, "{\"position\":");
    push_json_string(out, t.position.as_str());
    push_lit(out, ",\"type_\":");
    push_json_string(out, t.type_.as_str());
    push_lit(out, ",\"title\":");
    push_json_string(out, t.title.as_str());
    push_lit(out, ",\"duration\":");
    push_json_string(out, t.duration.as_str());
    push_lit(out, ",\"extraartists\":");
    match &t.extraartists {
        None => push_lit(out, "null"),
        Some(aa) => artists_into(out, aa),
    }
    push_lit(out, ",\"sub_tracks\":");
    match &t.sub_tracks {
        None => push_lit(out, "null"),
        Some(ts) => tracks_into(out, ts),
    }
    push_lit(out, "}");
    proof {
        assert(out@ =~= old(out)@ + track_json(t.deep_view()));
    }
}

/// Append a JSON array of tracks.
fn tracks_into(out: &mut Vec<char>, v: &Vec<Track>)
    ensures
        final(out)@ == old(out)@ + seq!['['] + join_comma(tracks_jsons(crate::record::tracks_deep_view(v@)))
            + seq![']'],
    decreases *v,
{
    let ghost dv = crate::record::tracks_deep_view(v@);
    proof {
        crate::record::lemma_tracks_deep_view(v@);
    }
    out.push('[');
    let ghost base = out@;
    let mut i: usize = 0;
    while i < v.len()
        invariant
            i <= v@.len(),
            dv == crate::record::tracks_deep_view(v@),
            dv.len() == v@.len(),
            forall|j: int|
                0 <= j < v@.len() ==> dv[j] == crate::record::track_deep_view(v@[j]),
            out@ == base + join_comma(tracks_jsons(dv.subrange(0, i as int))),
        decreases v@.len() - i,
    {
        proof {
            lemma_tracks_jsons_len(dv.subrange(0, i as int));
        }
        if i > 0 {
            out.push(',');
        }
        track_into(out, &v[i]);
        proof {
            let pre = dv.subrange(0, i as int);
            let post = dv.subrange(0, i + 1);
            assert(post.drop_last() =~= pre);
            assert(post.last() == dv[i as int]);
            assert(tracks_jsons(post) == tracks_jsons(pre).push(track_json(dv[i as int])));
            lemma_join_push(tracks_jsons(pre), track_json(dv[i as int]));
            assert(out@ =~= base + join_comma(tracks_jsons(post)));
        }
        i += 1;
    }
    out.push(']');
    proof {
        assert(dv.subrange(0, dv.len() as int) =~= dv);
        assert(out@ =~= old(out)@ + seq!['['] + join_comma(tracks_jsons(dv)) + seq![']']);
    }
}

/// Append a whole record.
#[verifier::rlimit(50)]
fn record_into(out: &mut Vec<char>, r: &Record)
    ensures
        final(out)@ == old(out)@ + record_json(r.deep_view()),
{
    let ghost mut acc: Seq<char> = "{\"id\":"@;
    push_lit(out, "{\"id\":");
    push_i64(out, r.id);
    proof {
        assert(out@ =~= old(out)@ + (acc + dec_rep_int(r.id as int)));
        acc = acc + dec_rep_int(r.id as int);
    }
    push_lit(out, ",\"year\":");
    proof {
        assert(out@ =~= old(out)@ + (acc + ",\"year\":"@));
        acc = acc + ",\"year\":"@;
    }
    push_i64(out, r.year as i64);
    proof {
        assert(out@ =~= old(out)@ + (acc + dec_rep_int(r.year as int)));
        acc = acc + dec_rep_int(r.year as int);
    }
    push_lit(out, ",\"title\":");
    proof {
        assert(out@ =~= old(out)@ + (acc + ",\"title\":"@));
        acc = acc + ",\"title\":"@;
    }
    push_json_string(out, r.title.as_str());
    proof {
        assert(out@ =~= old(out)@ + (acc + json_string(r.title@)));
        acc = acc + json_string(r.title@);
    }
    push_lit(out, ",\"formats\":");
    proof {
        assert(out@ =~= old(out)@ + (acc + ",\"formats\":"@));
        acc = acc + ",\"formats\":"@;
    }
    formats_into(out, &r.formats);
    proof {
        let seg = json_array(r.formats.deep_view(), |x: FormatV| format_json(x));
        assert(out@ =~= old(out)@ + (acc + seg));
        acc = acc + seg;
    }
    push_lit(out, ",\"artists\":");
    proof {
        assert(out@ =~= old(out)@ + (acc + ",\"artists\":"@));
        acc = acc + ",\"artists\":"@;
    }
    artists_into(out, &r.artists);
    proof {
        let seg = json_array(r.artists.deep_view(), |x: ArtistV| artist_json(x));
        assert(out@ =~= old(out)@ + (acc + seg));
        acc = acc + seg;
    }
    push_lit(out, ",\"labels\":");
    proof {
        assert(out@ =~= old(out)@ + (acc + ",\"labels\":"@));
        acc = acc + ",\"labels\":"@;
    }
    labels_into(out, &r.labels);
    proof {
        let seg = json_array(r.labels.deep_view(), |x: LabelV| label_json(x));
        assert(out@ =~= old(out)@ + (acc + seg));
        acc = acc + seg;
    }
    push_lit(out, ",\"identifiers\":");
    proof {
        assert(out@ =~= old(out)@ + (acc + ",\"identifiers\":"@));
        acc = acc + ",\"identifiers\":"@;
    }
    identifiers_into(out, &r.identifiers);
    proof {
        let seg = json_array(r.identifiers.deep_view(), |x: IdentifierV| identifier_json(x));
        assert(out@ =~= old(out)@ + (acc + seg));
        acc = acc + seg;
    }
    push_lit(out, ",\"genres\":");
    proof {
        assert(out@ =~= old(out)@ + (acc + ",\"genres\":"@));
        acc = acc + ",\"genres\":"@;
    }
    strings_into(out, &r.genres);
    proof {
        let seg = json_array(r.genres.deep_view(), |s: Seq<char>| json_string(s));
        assert(out@ =~= old(out)@ + (acc + seg));
        acc = acc + seg;
    }
    push_lit(out, ",\"styles\":");
    proof {
        assert(out@ =~= old(out)@ + (acc + ",\"styles\":"@));
        acc = acc + ",\"styles\":"@;
    }
    strings_into(out, &r.styles);
    proof {
        let seg = json_array(r.styles.deep_view(), |s: Seq<char>| json_string(s));
        assert(out@ =~= old(out)@ + (acc + seg));
        acc = acc + seg;
    }
    push_lit(out, ",\"tracklist\":");
    proof {
        assert(out@ =~= old(out)@ + (acc + ",\"tracklist\":"@));
        acc = acc + ",\"tracklist\":"@;
    }
    tracks_into(out, &r.tracklist);
    proof {
        let seg = seq!['['] + join_comma(tracks_jsons(crate::record::tracks_deep_view(r.tracklist@)))
            + seq![']'];
        assert(out@ =~= old(out)@ + (acc + seg));
        acc = acc + seg;
    }
    push_lit(out, "}");
    proof {
        assert(out@ =~= old(out)@ + (acc + "}"@));
        acc = acc + "}"@;
        assert(acc =~= record_json(r.deep_view()));
    }
}

/// Append one lifecycle event.
fn event_into(out: &mut Vec<char>, e: &ItemEvent)
    ensures
        final(out)@ == old(out)@ + event_json(e.deep_view()),
{
    push_lit(out, "{\"date\":");
    push_i64(out, e.date);
    push_lit(out, ",\"event_type\":");
    match e.event_type {
        ItemEventType::Created => push_lit(out, "\"Created\""),
        ItemEventType::Message => push_lit(out, "\"Message\""),
        ItemEventType::Lent => push_lit(out, "\"Lent\""),
    }
    push_lit(out, ",\"message\":");
    match &e.message {
        None => push_lit(out, "null"),
        Some(m) => push_json_string(out, m.as_str()),
    }
    push_lit(out, "}");
    proof {
        assert(out@ =~= old(out)@ + event_json(e.deep_view()));
    }
}

/// Append a JSON array of lifecycle events.
fn events_into(out: &mut Vec<char>, v: &Vec<ItemEvent>)
    ensures
        final(out)@ == old(out)@ + json_array(v.deep_view(), |e: ItemEventV| event_json(e)),
{
    let ghost f = |e: ItemEventV| event_json(e);
    let ghost dv = v.deep_view();
    out.push('[');
    let ghost base = out@;
    let mut i: usize = 0;
    while i < v.len()
        invariant
            i <= v@.len(),
            dv == v.deep_view(),
            dv.len() == v@.len(),
            f == (|e: ItemEventV| event_json(e)),
            out@ == base + join_comma(jsons(dv.subrange(0, i as int), f)),
        decreases v@.len() - i,
    {
        proof {
            lemma_jsons_len(dv.subrange(0, i as int), f);
        }
        if i > 0 {
            out.push(',');
        }
        event_into(out, &v[i]);
        proof {
            let pre = dv.subrange(0, i as int);
            let post = dv.subrange(0, i + 1);
            assert(post.drop_last() =~= pre);
            assert(post.last() == dv[i as int]);
            assert(jsons(post, f) == jsons(pre, f).push(f(dv[i as int])));
            lemma_join_push(jsons(pre, f), f(dv[i as int]));
            assert(out@ =~= base + join_comma(jsons(post, f)));
        }
        i += 1;
    }
    out.push(']');
    proof {
        assert(dv.subrange(0, dv.len() as int) =~= dv);
        assert(out@ =~= old(out)@ + json_array(dv, f));
    }
}

/// Append one copy.
fn item_into(out: &mut Vec<char>, i: &Item)
    ensures
        final(out)@ == old(out)@ + item_json(i.deep_view()),
{
    push_lit(out, "{\"id\":");
    push_i64(out, i.id);
    push_lit(out, ",\"events\":");
    events_into(out, &i.events);
    push_lit(out, "}");
    proof {
        assert(out@ =~= old(out)@ + item_json(i.deep_view()));
    }
}

/// Append a JSON array of copies.
fn items_into(out: &mut Vec<char>, v: &Vec<Item>)
    ensures
        final(out)@ == old(out)@ + json_array(v.deep_view(), |x: ItemV| item_json(x)),
{
    let ghost f = |x: ItemV| item_json(x);
    let ghost dv = v.deep_view();
    out.push('[');
    let ghost base = out@;
    let mut i: usize = 0;
    while i < v.len()
        invariant
            i <= v@.len(),
            dv == v.deep_view(),
            dv.len() == v@.len(),
            f == (|x: ItemV| item_json(x)),
            out@ == base + join_comma(jsons(dv.subrange(0, i as int), f)),
        decreases v@.len() - i,
    {
        proof {
            lemma_jsons_len(dv.subrange(0, i as int), f);
        }
        if i > 0 {
            out.push(',');
        }
        item_into(out, &v[i]);
        proof {
            let pre = dv.subrange(0, i as int);
            let post = dv.subrange(0, i + 1);
            assert(post.drop_last() =~= pre);
            assert(post.last() == dv[i as int]);
            assert(jsons(post, f) == jsons(pre, f).push(f(dv[i as int])));
            lemma_join_push(jsons(pre, f), f(dv[i as int]));
            assert(out@ =~= base + join_comma(jsons(post, f)));
        }
        i += 1;
    }
    out.push(']');
    proof {
        assert(dv.subrange(0, dv.len() as int) =~= dv);
        assert(out@ =~= old(out)@ + json_array(dv, f));
    }
}

/// The serialized text of one holder, as searched and as persisted.
pub fn holder_text(h: &ItemHolder) -> (r: Vec<char>)
    ensures
        r@ == holder_json(h.deep_view()),
{
    let mut out: Vec<char> = Vec::new();
    push_lit(&mut out, "{\"record\":");
    record_into(&mut out, &h.record);
    push_lit(&mut out, ",\"items\":");
    items_into(&mut out, &h.items);
    push_lit(&mut out, "}");
    proof {
        assert(out@ =~= holder_json(h.deep_view()));
    }
    out
}

/// The serialized text of the whole collection: one JSON array with one
/// element per holder, in store order.
#[verifier::rlimit(100)]
pub fn store_text(v: &Vec<ItemHolder>) -> (r: Vec<char>)
    ensures
        r@ == store_json(v.deep_view()),
{
    let ghost f = |h: ItemHolderV| holder_json(h);
    let ghost dv = v.deep_view();
    let mut out: Vec<char> = Vec::new();
    out.push('[');
    let ghost base = out@;
    let mut i: usize = 0;
    while i < v.len()
        invariant
            i <= v@.len(),
            dv == v.deep_view(),
            dv.len() == v@.len(),
            f == (|h: ItemHolderV| holder_json(h)),
            out@ == base + join_comma(jsons(dv.subrange(0, i as int), f)),
        decreases v@.len() - i,
    {
        proof {
            lemma_jsons_len(dv.subrange(0, i as int), f);
        }
        if i > 0 {
            out.push(',');
        }
        let ht = holder_text(&v[i]);
        let mut k: usize = 0;
        let ghost mid = out@;
        while k < ht.len()
            invariant
                k <= ht@.len(),
                out@ == mid + ht@.subrange(0, k as int),
            decreases ht@.len() - k,
        {
            out.push(ht[k]);
            proof {
                assert(out@ =~= mid + ht@.subrange(0, k + 1));
            }
            k += 1;
        }
        proof {
            assert(ht@.subrange(0, ht@.len() as int) =~= ht@);
            let pre = dv.subrange(0, i as int);
            let post = dv.subrange(0, i + 1);
            assert(post.drop_last() =~= pre);
            assert(post.last() == dv[i as int]);
            assert(jsons(post, f) == jsons(pre, f).push(f(dv[i as int])));
            lemma_join_push(jsons(pre, f), f(dv[i as int]));
            assert(out@ =~= base + join_comma(jsons(post, f)));
        }
        i += 1;
    }
    out.push(']');
    proof {
        assert(dv.subrange(0, dv.len() as int) =~= dv);
        assert(out@ =~= store_json(dv));
    }
    out
}

/// Relies on `String`'s `FromIterator` implementation: collecting
/// characters yields the string of exactly those characters, in order.
#[verifier::external_body]
pub(crate) fn chars_to_string(v: Vec<char>) -> (r: String)
    ensures
        r@ == v@,
{
    String::from_iter(v)
}

} // verus!

//! The plain-text projection of a record for the detail pane: an
//! indented tree of lines built from title, year, artists, formats,
//! genres, styles and the (possibly nested) tracklist.
use vstd::prelude::*;

use crate::json::dec_rep_int;
use crate::record::{Artist, Record, RecordV, Track, TrackV};

verus! {

broadcast use vstd::std_specs::vec::axiom_vec_index_decreases, vstd::std_specs::vec::axiom_vec_decreases_to_view, vstd::seq::axiom_seq_index_decreases;

/// One node of the text tree: a single line, or an indented block.
pub enum TM {
    Line(String),
    Module(Tab),
}

/// An indented block: a list of nodes, each rendered one level deeper.
pub struct Tab {
    pub children: Vec<TM>,
}

#[verifier::ext_equal]
pub enum TMV {
    Line(Seq<char>),
    Module(TabV),
}

#[verifier::ext_equal]
pub struct TabV {
    pub children: Seq<TMV>,
}

pub open spec fn tm_deep_view(m: TM) -> TMV
    decreases m,
{
    match m {
        TM::Line(l) => TMV::Line(l@),
        TM::Module(t) => TMV::Module(tab_deep_view(t)),
    }
}

pub open spec fn tab_deep_view(t: Tab) -> TabV
    decreases t,
{
    TabV { children: tms_deep_view(t.children@) }
}

pub open spec fn tms_deep_view(ms: Seq<TM>) -> Seq<TMV>
    decreases ms,
{
    if ms.len() == 0 {
        Seq::empty()
    } else {
        tms_deep_view(ms.drop_last()).push(tm_deep_view(ms.last()))
    }
}

impl DeepView for TM {
    type V = TMV;

    open spec fn deep_view(&self) -> TMV {
        tm_deep_view(*self)
    }
}

impl DeepView for Tab {
    type V = TabV;

    open spec fn deep_view(&self) -> TabV {
        tab_deep_view(*self)
    }
}

/// The view of a node list equals the element-wise view.
pub proof fn lemma_tms_deep_view(ms: Seq<TM>)
    ensures
        tms_deep_view(ms).len() == ms.len(),
        forall|i: int| 0 <= i < ms.len() ==> tms_deep_view(ms)[i] == tm_deep_view(ms[i]),
    decreases ms.len(),
{
    if ms.len() > 0 {
        lemma_tms_deep_view(ms.drop_last());
    }
}

/// The indentation that one block level adds.
pub open spec fn indent_step() -> Seq<char> {
    "  "@
}

/// The indentation of the given nesting depth: two spaces per level.
pub open spec fn indent_spec(depth: nat) -> Seq<char>
    decreases depth,
{
    if depth == 0 {
        Seq::empty()
    } else {
        indent_spec((depth - 1) as nat) + indent_step()
    }
}

/// The lines of a block rendered under the given accumulated
/// indentation: every line of every child, each prefixed once more.
pub open spec fn tab_lines_spec(t: TabV, ind: Seq<char>) -> Seq<Seq<char>>
    decreases t,
{
    tms_lines_spec(t.children, ind).map_values(|l: Seq<char>| ind + l)
}

/// The lines of a node list, before this level's indentation is added.
pub open spec fn tms_lines_spec(ms: Seq<TMV>, ind: Seq<char>) -> Seq<Seq<char>>
    decreases ms,
{
    if ms.len() == 0 {
        Seq::empty()
    } else {
        tms_lines_spec(ms.drop_last(), ind) + tm_lines_spec(ms.last(), ind)
    }
}

/// The lines one node contributes: itself, or its block one level
/// deeper.
pub open spec fn tm_lines_spec(m: TMV, ind: Seq<char>) -> Seq<Seq<char>>
    decreases m,
{
    match m {
        TMV::Line(l) => seq![l],
        TMV::Module(t) => tab_lines_spec(t, ind + indent_step()),
    }
}

/// The pieces joined by the delimiter, with no delimiter at either end.
pub open spec fn joined(items: Seq<Seq<char>>, delim: Seq<char>) -> Seq<char>
    decreases items,
{
    if items.len() == 0 {
        Seq::empty()
    } else if items.len() == 1 {
        items[0]
    } else {
        joined(items.drop_last(), delim) + delim + items.last()
    }
}

impl TM {
    /// One line holding the title followed by the items, delimited.
    pub fn line_with_title(title: &str, items: Vec<String>, delimiter: &str) -> (r: TM)
        ensures
            tm_deep_view(r) == TMV::Line(title@ + joined(items.deep_view(), delimiter@)),
    {
        let mut out = String::from_str(title);
        let ghost acc = title@;
        let mut i: usize = 0;
        while i < items.len()
            invariant
                i <= items@.len(),
                out@ == title@ + joined(items.deep_view().subrange(0, i as int), delimiter@),
            decreases items@.len() - i,
        {
            if i > 0 {
                out.append(delimiter);
            }
            out.append(items[i].as_str());
            proof {
                let dv = items.deep_view();
                let pre = dv.subrange(0, i as int);
                let post = dv.subrange(0, i + 1);
                assert(post.drop_last() =~= pre);
                assert(post.last() == dv[i as int]);
                assert(dv[i as int] == items@[i as int]@);
                if i > 0 {
                    assert(out@ =~= title@ + joined(post, delimiter@));
                } else {
                    assert(pre.len() == 0);
                    assert(out@ =~= title@ + joined(post, delimiter@));
                }
            }
            i += 1;
        }
        proof {
            assert(items.deep_view().subrange(0, items.deep_view().len() as int)
                =~= items.deep_view());
        }
        TM::Line(out)
    }

    /// An empty line.
    pub fn blank() -> (r: TM)
        ensures
            tm_deep_view(r) == TMV::Line(Seq::<char>::empty()),
    {
        let r = TM::Line(String::new());
        proof {
            assert(tm_deep_view(r) =~= TMV::Line(Seq::<char>::empty()));
        }
        r
    }
}

impl Tab {
    /// A block over the given nodes.
    pub fn new(children: Vec<TM>) -> (r: Tab)
        ensures
            tab_deep_view(r) == (TabV { children: tms_deep_view(children@) }),
    {
        Tab { children }
    }

    /// A block holding one node.
    pub fn single(child: TM) -> (r: Tab)
        ensures
            tab_deep_view(r) == (TabV { children: seq![tm_deep_view(child)] }),
    {
        let ghost cv = tm_deep_view(child);
        let mut children: Vec<TM> = Vec::new();
        children.push(child);
        proof {
            lemma_tms_deep_view(children@);
            assert(tms_deep_view(children@)[0] == cv);
            assert(tms_deep_view(children@) =~= seq![cv]);
        }
        Tab { children }
    }

    /// A block of plain lines.
    pub fn from_strings(children: Vec<String>) -> (r: Tab)
        ensures
            tab_deep_view(r).children.len() == children.deep_view().len(),
            forall|i: int|
                0 <= i < children.deep_view().len() ==> tab_deep_view(r).children[i] == TMV::Line(
                    children.deep_view()[i],
                ),
    {
        let mut out: Vec<TM> = Vec::new();
        let mut i: usize = 0;
        while i < children.len()
            invariant
                i <= children@.len(),
                out@.len() == i,
                forall|j: int|
                    0 <= j < i ==> tm_deep_view(#[trigger] out@[j]) == TMV::Line(
                        children.deep_view()[j],
                    ),
            decreases children@.len() - i,
        {
            let line = TM::Line(children[i].clone());
            proof {
                assert(children.deep_view()[i as int] == children@[i as int]@);
                assert(tm_deep_view(line) == TMV::Line(children.deep_view()[i as int]));
            }
            out.push(line);
            i += 1;
        }
        proof {
            lemma_tms_deep_view(out@);
        }
        Tab { children: out }
    }

    /// The indentation text of the given nesting depth.
    pub fn get_indent(depth: usize) -> (r: String)
        ensures
            r@ == indent_spec(depth as nat),
    {
        let mut out = String::new();
        let mut i: usize = 0;
        while i < depth
            invariant
                i <= depth,
                out@ == indent_spec(i as nat),
            decreases depth - i,
        {
            out.append("  ");
            i += 1;
        }
        out
    }

    /// The block's lines at the given nesting depth, each line indented
    /// once per level it stands under.
    pub fn get_lines(&self, depth: usize) -> (r: Vec<String>)
        ensures
            r.deep_view() == tab_lines_spec(self.deep_view(), indent_spec(depth as nat)),
    {
        let ind = Tab::get_indent(depth);
        self.lines_under(&ind)
    }

    /// The block's lines under the given accumulated indentation.
    fn lines_under(&self, ind: &String) -> (r: Vec<String>)
        ensures
            r.deep_view() == tab_lines_spec(self.deep_view(), ind@),
        decreases *self,
    {
        let ghost children_v = tms_deep_view(self.children@);
        proof {
            lemma_tms_deep_view(self.children@);
        }
        let mut flat: Vec<String> = Vec::new();
        let mut i: usize = 0;
        let n = self.children.len();
        while i < n
            invariant
                i <= n,
                n == self.children@.len(),
                children_v == tms_deep_view(self.children@),
                children_v.len() == n,
                forall|j: int| 0 <= j < n ==> children_v[j] == tm_deep_view(self.children@[j]),
                flat.deep_view() == tms_lines_spec(children_v.subrange(0, i as int), ind@),
            decreases n - i,
        {
            let ghost pre = children_v.subrange(0, i as int);
            let ghost post = children_v.subrange(0, i + 1);
            match &self.children[i] {
                TM::Line(l) => {
                    proof {
                        assert(children_v[i as int] == TMV::Line(l@));
                        assert(tm_lines_spec(children_v[i as int], ind@) =~= seq![l@]);
                    }
                    let ghost fv = flat.deep_view();
                    flat.push(l.clone());
                    proof {
                        assert(flat.deep_view() =~= fv + seq![l@]);
                    }
                },
                TM::Module(t) => {
                    proof {
                        assert(children_v[i as int] == TMV::Module(tab_deep_view(*t)));
                    }
                    let deeper = ind.as_str().to_owned().concat("  ");
                    proof {
                        assert(deeper@ == ind@ + indent_step());
                    }
                    let mut sub = t.lines_under(&deeper);
                    let ghost sv = sub.deep_view();
                    let ghost fv = flat.deep_view();
                    flat.append(&mut sub);
                    proof {
                        assert(flat.deep_view() =~= fv + sv);
                        assert(tm_lines_spec(children_v[i as int], ind@) == sv);
                    }
                },
            }
            proof {
                assert(post.drop_last() =~= pre);
                assert(post.last() == children_v[i as int]);
                assert(flat.deep_view() =~= tms_lines_spec(post, ind@));
            }
            i += 1;
        }
        proof {
            assert(children_v.subrange(0, n as int) =~= children_v);
        }
        let mut out: Vec<String> = Vec::new();
        let mut k: usize = 0;
        let m = flat.len();
        while k < m
            invariant
                k <= m,
                m == flat@.len(),
                flat.deep_view() == tms_lines_spec(children_v, ind@),
                flat.deep_view().len() == m,
                children_v == tms_deep_view(self.children@),
                out@.len() == k,
                forall|j: int| 0 <= j < k ==> (#[trigger] out@[j])@ == ind@ + flat.deep_view()[j],
            decreases m - k,
        {
            let line = ind.as_str().to_owned().concat(flat[k].as_str());
            proof {
                assert(flat.deep_view()[k as int] == flat@[k as int]@);
                assert(line@ == ind@ + flat.deep_view()[k as int]);
            }
            out.push(line);
            k += 1;
        }
        proof {
            assert forall|j: int| 0 <= j < m implies out.deep_view()[j] == ind@
                + flat.deep_view()[j] by {
                assert(out.deep_view()[j] == out@[j]@);
            }
            assert(out.deep_view() =~= tab_lines_spec(self.deep_view(), ind@));
        }
        out
    }
}

/// Appending one node appends its view.
pub proof fn lemma_tms_push(s: Seq<TM>, x: TM)
    ensures
        tms_deep_view(s.push(x)) == tms_deep_view(s).push(tm_deep_view(x)),
{
    assert(s.push(x).drop_last() =~= s);
    assert(s.push(x).last() == x);
}

/// The track's position as printed: followed by a dot, or absent.
pub open spec fn pos_part(t: TrackV) -> Seq<char> {
    if t.position.len() == 0 {
        Seq::empty()
    } else {
        t.position + "."@
    }
}

/// The track's duration as printed: bracketed, or absent.
pub open spec fn dur_part(t: TrackV) -> Seq<char> {
    if t.duration.len() == 0 {
        Seq::empty()
    } else {
        " ["@ + t.duration + "] "@
    }
}

/// One line per artist, holding the artist's name.
pub open spec fn artist_lines(aa: Seq<crate::record::ArtistV>) -> Seq<TMV> {
    aa.map_values(|a: crate::record::ArtistV| TMV::Line(a.name))
}

/// One line per format, holding the format's name.
pub open spec fn format_lines(fs: Seq<crate::record::FormatV>) -> Seq<TMV> {
    fs.map_values(|f: crate::record::FormatV| TMV::Line(f.name))
}

/// The node a track contributes to the tracklist: its heading line,
/// then its credited artists and its sub-tracks as nested blocks, each
/// followed by a separating blank line when present.
pub open spec fn track_module_spec(t: TrackV) -> TMV
    decreases t,
{
    TMV::Module(
        TabV {
            children: seq![TMV::Line(pos_part(t) + dur_part(t) + t.title)] + (match t
                .extraartists {
                None => Seq::empty(),
                Some(aa) => seq![
                    TMV::Module(TabV { children: artist_lines(aa) }),
                    TMV::Line(Seq::empty()),
                ],
            }) + (match t.sub_tracks {
                None => Seq::empty(),
                Some(ts) => track_modules_spec(ts).push(TMV::Line(Seq::empty())),
            }),
        },
    )
}

/// The nodes of a track list, in order.
pub open spec fn track_modules_spec(ts: Seq<TrackV>) -> Seq<TMV>
    decreases ts,
{
    if ts.len() == 0 {
        Seq::empty()
    } else {
        track_modules_spec(ts.drop_last()).push(track_module_spec(ts.last()))
    }
}

/// The text tree of a whole record, before rendering.
pub open spec fn record_tab_spec(r: RecordV) -> TabV {
    TabV {
        children: seq![
            TMV::Line(Seq::<char>::empty()),
            TMV::Line(r.title),
            TMV::Line(Seq::<char>::empty()),
            TMV::Line("Year: "@ + crate::json::dec_rep_int(r.year)),
            TMV::Line("Artists:"@),
            TMV::Module(TabV { children: artist_lines(r.artists) }),
            TMV::Line("Formats:"@),
            TMV::Module(TabV { children: format_lines(r.formats) }),
            TMV::Line("Genres: "@ + joined(r.genres, " | "@)),
            TMV::Line("Styles: "@ + joined(r.styles, " | "@)),
            TMV::Line("Tracklist: "@),
            TMV::Line(Seq::<char>::empty()),
        ] + track_modules_spec(r.tracklist) + seq![
            TMV::Line(Seq::<char>::empty()),
            TMV::Line(Seq::<char>::empty()),
            TMV::Line("Id: "@ + crate::json::dec_rep_int(r.id)),
        ],
    }
}

/// The detail-pane lines of a whole record: its text tree rendered one
/// level in.
pub open spec fn record_lines_spec(r: RecordV) -> Seq<Seq<char>> {
    tab_lines_spec(record_tab_spec(r), indent_spec(1))
}

/// The artists' names, in order.
fn artist_name_strings(aa: &Vec<Artist>) -> (r: Vec<String>)
    ensures
        r.deep_view().len() == aa.deep_view().len(),
        forall|i: int|
            0 <= i < aa.deep_view().len() ==> r.deep_view()[i] == aa.deep_view()[i].name,
{
    let mut out: Vec<String> = Vec::new();
    let mut i: usize = 0;
    while i < aa.len()
        invariant
            i <= aa@.len(),
            out@.len() == i,
            forall|j: int| 0 <= j < i ==> (#[trigger] out@[j])@ == aa.deep_view()[j].name,
        decreases aa@.len() - i,
    {
        proof {
            assert(aa.deep_view()[i as int] == aa@[i as int].deep_view());
        }
        out.push(aa[i].name.clone());
        i += 1;
    }
    proof {
        assert forall|j: int| 0 <= j < out@.len() implies out.deep_view()[j] == aa.deep_view()[j].name by {
            assert(out.deep_view()[j] == out@[j]@);
        }
    }
    out
}

/// The formats' names, in order.
fn format_name_strings(fs: &Vec<crate::record::Format>) -> (r: Vec<String>)
    ensures
        r.deep_view().len() == fs.deep_view().len(),
        forall|i: int|
            0 <= i < fs.deep_view().len() ==> r.deep_view()[i] == fs.deep_view()[i].name,
{
    let mut out: Vec<String> = Vec::new();
    let mut i: usize = 0;
    while i < fs.len()
        invariant
            i <= fs@.len(),
            out@.len() == i,
            forall|j: int| 0 <= j < i ==> (#[trigger] out@[j])@ == fs.deep_view()[j].name,
        decreases fs@.len() - i,
    {
        proof {
            assert(fs.deep_view()[i as int] == fs@[i as int].deep_view());
        }
        out.push(fs[i].name.clone());
        i += 1;
    }
    proof {
        assert forall|j: int| 0 <= j < out@.len() implies out.deep_view()[j] == fs.deep_view()[j].name by {
            assert(out.deep_view()[j] == out@[j]@);
        }
    }
    out
}

/// Append each track's node to the list.
fn push_track_modules(children: &mut Vec<TM>, ts: &Vec<Track>)
    ensures
        tms_deep_view(final(children)@) == tms_deep_view(old(children)@) + track_modules_spec(
            crate::record::tracks_deep_view(ts@),
        ),
    decreases *ts,
{
    let ghost base = tms_deep_view(children@);
    let ghost dv = crate::record::tracks_deep_view(ts@);
    proof {
        crate::record::lemma_tracks_deep_view(ts@);
    }
    let n = ts.len();
    let mut i: usize = 0;
    while i < n
        invariant
            i <= n,
            n == ts@.len(),
            dv == crate::record::tracks_deep_view(ts@),
            dv.len() == n,
            forall|j: int| 0 <= j < n ==> dv[j] == crate::record::track_deep_view(ts@[j]),
            tms_deep_view(children@) == base + track_modules_spec(dv.subrange(0, i as int)),
        decreases n - i,
    {
        let m = ts[i].get_module();
        proof {
            lemma_tms_push(children@, m);
            let pre = dv.subrange(0, i as int);
            let post = dv.subrange(0, i + 1);
            assert(post.drop_last() =~= pre);
            assert(post.last() == dv[i as int]);
            assert(tms_deep_view(children@.push(m)) =~= base + track_modules_spec(post));
        }
        children.push(m);
        i += 1;
    }
    proof {
        assert(dv.subrange(0, n as int) =~= dv);
    }
}

impl Track {
    /// The node this track contributes to the tracklist.
    pub fn get_module(&self) -> (r: TM)
        ensures
            tm_deep_view(r) == track_module_spec(self.deep_view()),
        decreases *self,
    {
        let ghost tv = self.deep_view();
        let mut head = String::new();
        if !self.position.as_str().is_empty() {
            head.append(self.position.as_str());
            head.append(".");
        }
        proof {
            assert(head@ =~= pos_part(tv));
        }
        let ghost head1 = head@;
        if !self.duration.as_str().is_empty() {
            head.append(" [");
            head.append(self.duration.as_str());
            head.append("] ");
        }
        proof {
            assert(head@ =~= pos_part(tv) + dur_part(tv));
        }
        head.append(self.title.as_str());
        proof {
            assert(head@ =~= pos_part(tv) + dur_part(tv) + tv.title);
        }
        let headline = TM::Line(head);
        let ghost hl = tm_deep_view(headline);
        let mut children: Vec<TM> = Vec::new();
        children.push(headline);
        proof {
            lemma_tms_deep_view(children@);
            assert(tms_deep_view(children@) =~= seq![hl]);
        }
        let ghost head_seq = tms_deep_view(children@);
        match &self.extraartists {
            None => {
            },
            Some(artists) => {
                let block = TM::Module(Tab::from_strings(artist_name_strings(artists)));
                proof {
                    assert(tm_deep_view(block)->Module_0.children =~= artist_lines(
                        tv.extraartists->0,
                    ));
                    assert(tm_deep_view(block) == TMV::Module(
                        TabV { children: artist_lines(tv.extraartists->0) },
                    ));
                    lemma_tms_push(children@, block);
                }
                children.push(block);
                let blankline = TM::blank();
                proof {
                    lemma_tms_push(children@, blankline);
                }
                children.push(blankline);
            },
        }
        proof {
            assert(tms_deep_view(children@) =~= head_seq + (match tv.extraartists {
                None => Seq::empty(),
                Some(aa) => seq![
                    TMV::Module(TabV { children: artist_lines(aa) }),
                    TMV::Line(Seq::empty()),
                ],
            }));
        }
        let ghost mid_seq = tms_deep_view(children@);
        match &self.sub_tracks {
            None => {
            },
            Some(subs) => {
                push_track_modules(&mut children, subs);
                let blankline = TM::blank();
                proof {
                    lemma_tms_push(children@, blankline);
                }
                children.push(blankline);
            },
        }
        proof {
            assert(tms_deep_view(children@) =~= head_seq + (match tv.extraartists {
                None => Seq::empty(),
                Some(aa) => seq![
                    TMV::Module(TabV { children: artist_lines(aa) }),
                    TMV::Line(Seq::empty()),
                ],
            }) + (match tv.sub_tracks {
                None => Seq::empty(),
                Some(ts) => track_modules_spec(ts).push(TMV::Line(Seq::empty())),
            }));
        }
        let r = TM::Module(Tab { children });
        proof {
            assert(tm_deep_view(r)->Module_0.children =~= track_module_spec(tv)->Module_0.children);
            assert(tm_deep_view(r) == track_module_spec(tv));
        }
        r
    }
}

impl Record {
    /// The lines of this record's detail pane.
    pub fn get_lines(&self) -> (r: Vec<String>)
        ensures
            r.deep_view() == record_lines_spec(self.deep_view()),
    {
        let ghost rv = self.deep_view();
        let mut children: Vec<TM> = Vec::new();
        children.push(TM::blank());
        children.push(TM::Line(self.title.clone()));
        children.push(TM::blank());
        let mut year_line = String::from_str("Year: ");
        let mut yv: Vec<char> = Vec::new();
        crate::json::push_i64(&mut yv, self.year as i64);
        year_line.append(crate::json::chars_to_string(yv).as_str());
        proof {
            assert(year_line@ == "Year: "@ + crate::json::dec_rep_int(rv.year));
        }
        children.push(TM::Line(year_line));
        children.push(TM::Line(String::from_str("Artists:")));
        let artists_block = TM::Module(Tab::from_strings(artist_name_strings(&self.artists)));
        proof {
            assert(tm_deep_view(artists_block)->Module_0.children =~= artist_lines(rv.artists));
            assert(tm_deep_view(artists_block) == TMV::Module(
                TabV { children: artist_lines(rv.artists) },
            ));
        }
        children.push(artists_block);
        children.push(TM::Line(String::from_str("Formats:")));
        let formats_block = TM::Module(Tab::from_strings(format_name_strings(&self.formats)));
        proof {
            assert(tm_deep_view(formats_block)->Module_0.children =~= format_lines(rv.formats));
            assert(tm_deep_view(formats_block) == TMV::Module(
                TabV { children: format_lines(rv.formats) },
            ));
        }
        children.push(formats_block);
        let genres_line = TM::line_with_title(
            "Genres: ",
            crate::record::duplicate_strings(&self.genres),
            " | ",
        );
        children.push(genres_line);
        let styles_line = TM::line_with_title(
            "Styles: ",
            crate::record::duplicate_strings(&self.styles),
            " | ",
        );
        children.push(styles_line);
        children.push(TM::Line(String::from_str("Tracklist: ")));
        children.push(TM::blank());
        proof {
            lemma_tms_deep_view(children@);
            assert(tms_deep_view(children@) =~= record_tab_spec(rv).children.subrange(0, 12));
        }
        let ghost head_seq = tms_deep_view(children@);
        push_track_modules(&mut children, &self.tracklist);
        let b1 = TM::blank();
        proof {
            lemma_tms_push(children@, b1);
        }
        children.push(b1);
        let b2 = TM::blank();
        proof {
            lemma_tms_push(children@, b2);
        }
        children.push(b2);
        let mut id_line = String::from_str("Id: ");
        let mut idv: Vec<char> = Vec::new();
        crate::json::push_i64(&mut idv, self.id);
        id_line.append(crate::json::chars_to_string(idv).as_str());
        proof {
            assert(id_line@ == "Id: "@ + crate::json::dec_rep_int(rv.id));
        }
        let idm = TM::Line(id_line);
        proof {
            lemma_tms_push(children@, idm);
        }
        children.push(idm);
        proof {
            assert(tms_deep_view(children@) =~= record_tab_spec(rv).children);
        }
        let tab = Tab { children };
        proof {
            assert(tab.deep_view() =~= record_tab_spec(rv));
        }
        tab.get_lines(1)
    }
}

} // verus!

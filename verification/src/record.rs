//! The immutable description of one catalog entry, as fetched from the
//! remote catalog: title, artists, labels, identifiers and the tracklist.
use vstd::prelude::*;

verus! {

broadcast use vstd::std_specs::vec::axiom_vec_index_decreases, vstd::std_specs::vec::axiom_vec_decreases_to_view, vstd::seq::axiom_seq_index_decreases;

/// One media format the entry was released in (e.g. vinyl).
#[derive(Debug, PartialEq)]
pub struct Format {
    pub name: String,
}

/// One label the entry was released under, with its catalog number.
#[derive(Debug, PartialEq)]
pub struct Label {
    pub name: String,
    pub catno: String,
}

/// One external identifier of the entry (e.g. a barcode).
#[derive(Debug, PartialEq)]
pub struct Identifier {
    pub type_: String,
    pub value: String,
}

/// One credited artist, with the remote catalog's id for them.
#[derive(Debug, PartialEq)]
pub struct Artist {
    pub name: String,
    pub id: i64,
}

/// One entry of the tracklist; tracks may carry credited artists and
/// nested sub-tracks of their own.
#[derive(Debug, PartialEq)]
pub struct Track {
    pub position: String,
    pub type_: String,
    pub title: String,
    pub duration: String,
    pub extraartists: Option<Vec<Artist>>,
    pub sub_tracks: Option<Vec<Track>>,
}

/// A catalog entry. Identity is the remote catalog's numeric `id`;
/// the rest is descriptive content, never mutated once constructed.
#[derive(Debug, PartialEq)]
pub struct Record {
    pub id: i64,
    pub year: i32,
    pub title: String,
    pub formats: Vec<Format>,
    pub artists: Vec<Artist>,
    pub labels: Vec<Label>,
    pub identifiers: Vec<Identifier>,
    pub genres: Vec<String>,
    pub styles: Vec<String>,
    pub tracklist: Vec<Track>,
}

#[verifier::ext_equal]
pub struct FormatV {
    pub name: Seq<char>,
}

#[verifier::ext_equal]
pub struct LabelV {
    pub name: Seq<char>,
    pub catno: Seq<char>,
}

#[verifier::ext_equal]
pub struct IdentifierV {
    pub type_: Seq<char>,
    pub value: Seq<char>,
}

#[verifier::ext_equal]
pub struct ArtistV {
    pub name: Seq<char>,
    pub id: int,
}

#[verifier::ext_equal]
pub struct TrackV {
    pub position: Seq<char>,
    pub type_: Seq<char>,
    pub title: Seq<char>,
    pub duration: Seq<char>,
    pub extraartists: Option<Seq<ArtistV>>,
    pub sub_tracks: Option<Seq<TrackV>>,
}

#[verifier::ext_equal]
pub struct RecordV {
    pub id: int,
    pub year: int,
    pub title: Seq<char>,
    pub formats: Seq<FormatV>,
    pub artists: Seq<ArtistV>,
    pub labels: Seq<LabelV>,
    pub identifiers: Seq<IdentifierV>,
    pub genres: Seq<Seq<char>>,
    pub styles: Seq<Seq<char>>,
    pub tracklist: Seq<TrackV>,
}

impl DeepView for Format {
    type V = FormatV;

    open spec fn deep_view(&self) -> FormatV {
        FormatV { name: self.name@ }
    }
}

impl DeepView for Label {
    type V = LabelV;

    open spec fn deep_view(&self) -> LabelV {
        LabelV { name: self.name@, catno: self.catno@ }
    }
}

impl DeepView for Identifier {
    type V = IdentifierV;

    open spec fn deep_view(&self) -> IdentifierV {
        IdentifierV { type_: self.type_@, value: self.value@ }
    }
}

impl DeepView for Artist {
    type V = ArtistV;

    open spec fn deep_view(&self) -> ArtistV {
        ArtistV { name: self.name@, id: self.id as int }
    }
}

pub open spec fn track_deep_view(t: Track) -> TrackV
    decreases t,
{
    TrackV {
        position: t.position@,
        type_: t.type_@,
        title: t.title@,
        duration: t.duration@,
        extraartists: match t.extraartists {
            None => None,
            Some(artists) => Some(artists.deep_view()),
        },
        sub_tracks: match t.sub_tracks {
            None => None,
            Some(subs) => Some(tracks_deep_view(subs@)),
        },
    }
}

pub open spec fn tracks_deep_view(ts: Seq<Track>) -> Seq<TrackV>
    decreases ts,
{
    if ts.len() == 0 {
        Seq::empty()
    } else {
        tracks_deep_view(ts.drop_last()).push(track_deep_view(ts.last()))
    }
}

impl DeepView for Track {
    type V = TrackV;

    open spec fn deep_view(&self) -> TrackV {
        track_deep_view(*self)
    }
}

impl DeepView for Record {
    type V = RecordV;

    open spec fn deep_view(&self) -> RecordV {
        RecordV {
            id: self.id as int,
            year: self.year as int,
            title: self.title@,
            formats: self.formats.deep_view(),
            artists: self.artists.deep_view(),
            labels: self.labels.deep_view(),
            identifiers: self.identifiers.deep_view(),
            genres: self.genres.deep_view(),
            styles: self.styles.deep_view(),
            tracklist: tracks_deep_view(self.tracklist@),
        }
    }
}

/// The view of a whole track list equals the element-wise view.
pub proof fn lemma_tracks_deep_view(ts: Seq<Track>)
    ensures
        tracks_deep_view(ts).len() == ts.len(),
        forall|i: int| 0 <= i < ts.len() ==> tracks_deep_view(ts)[i] == track_deep_view(ts[i]),
    decreases ts.len(),
{
    if ts.len() > 0 {
        lemma_tracks_deep_view(ts.drop_last());
    }
}

impl Artist {
    /// An element-wise copy whose view equals this one's.
    pub fn duplicate(&self) -> (r: Artist)
        ensures
            r.deep_view() == self.deep_view(),
    {
        Artist { name: self.name.clone(), id: self.id }
    }
}

impl Format {
    /// An element-wise copy whose view equals this one's.
    pub fn duplicate(&self) -> (r: Format)
        ensures
            r.deep_view() == self.deep_view(),
    {
        Format { name: self.name.clone() }
    }
}

impl Label {
    /// An element-wise copy whose view equals this one's.
    pub fn duplicate(&self) -> (r: Label)
        ensures
            r.deep_view() == self.deep_view(),
    {
        Label { name: self.name.clone(), catno: self.catno.clone() }
    }
}

impl Identifier {
    /// An element-wise copy whose view equals this one's.
    pub fn duplicate(&self) -> (r: Identifier)
        ensures
            r.deep_view() == self.deep_view(),
    {
        Identifier { type_: self.type_.clone(), value: self.value.clone() }
    }
}

fn duplicate_artists(artists: &Vec<Artist>) -> (r: Vec<Artist>)
    ensures
        r.deep_view() =~= artists.deep_view(),
{
    let mut out: Vec<Artist> = Vec::new();
    let mut i: usize = 0;
    while i < artists.len()
        invariant
            i <= artists.len(),
            out.len() == i,
            forall|j: int| 0 <= j < i ==> out.deep_view()[j] == artists.deep_view()[j],
        decreases artists.len() - i,
    {
        out.push(artists[i].duplicate());
        i += 1;
    }
    out
}

fn duplicate_formats(fs: &Vec<Format>) -> (r: Vec<Format>)
    ensures
        r.deep_view() =~= fs.deep_view(),
{
    let mut out: Vec<Format> = Vec::new();
    let mut i: usize = 0;
    while i < fs.len()
        invariant
            i <= fs.len(),
            out.len() == i,
            forall|j: int| 0 <= j < i ==> out.deep_view()[j] == fs.deep_view()[j],
        decreases fs.len() - i,
    {
        out.push(fs[i].duplicate());
        i += 1;
    }
    out
}

fn duplicate_labels(ls: &Vec<Label>) -> (r: Vec<Label>)
    ensures
        r.deep_view() =~= ls.deep_view(),
{
    let mut out: Vec<Label> = Vec::new();
    let mut i: usize = 0;
    while i < ls.len()
        invariant
            i <= ls.len(),
            out.len() == i,
            forall|j: int| 0 <= j < i ==> out.deep_view()[j] == ls.deep_view()[j],
        decreases ls.len() - i,
    {
        out.push(ls[i].duplicate());
        i += 1;
    }
    out
}

fn duplicate_identifiers(ids: &Vec<Identifier>) -> (r: Vec<Identifier>)
    ensures
        r.deep_view() =~= ids.deep_view(),
{
    let mut out: Vec<Identifier> = Vec::new();
    let mut i: usize = 0;
    while i < ids.len()
        invariant
            i <= ids.len(),
            out.len() == i,
            forall|j: int| 0 <= j < i ==> out.deep_view()[j] == ids.deep_view()[j],
        decreases ids.len() - i,
    {
        out.push(ids[i].duplicate());
        i += 1;
    }
    out
}

pub(crate) fn duplicate_strings(ss: &Vec<String>) -> (r: Vec<String>)
    ensures
        r.deep_view() =~= ss.deep_view(),
{
    let mut out: Vec<String> = Vec::new();
    let mut i: usize = 0;
    while i < ss.len()
        invariant
            i <= ss.len(),
            out.len() == i,
            forall|j: int| 0 <= j < i ==> out.deep_view()[j] == ss.deep_view()[j],
        decreases ss.len() - i,
    {
        out.push(ss[i].clone());
        i += 1;
    }
    out
}

impl Track {
    /// An element-wise copy whose view equals this one's.
    pub fn duplicate(&self) -> (r: Track)
        ensures
            r.deep_view() == self.deep_view(),
        decreases *self,
    {
        let extraartists = match &self.extraartists {
            None => None,
            Some(artists) => Some(duplicate_artists(artists)),
        };
        let sub_tracks = match &self.sub_tracks {
            None => None,
            Some(subs) => Some(duplicate_tracks(subs)),
        };
        let r = Track {
            position: self.position.clone(),
            type_: self.type_.clone(),
            title: self.title.clone(),
            duration: self.duration.clone(),
            extraartists,
            sub_tracks,
        };
        proof {
            assert(r.deep_view() =~= self.deep_view());
        }
        r
    }
}

fn duplicate_tracks(ts: &Vec<Track>) -> (r: Vec<Track>)
    ensures
        tracks_deep_view(r@) =~= tracks_deep_view(ts@),
    decreases *ts,
{
    let mut out: Vec<Track> = Vec::new();
    let mut i: usize = 0;
    proof {
        lemma_tracks_deep_view(ts@);
    }
    while i < ts.len()
        invariant
            i <= ts.len(),
            out.len() == i,
            tracks_deep_view(ts@).len() == ts@.len(),
            forall|j: int| 0 <= j < ts.len() ==> tracks_deep_view(ts@)[j] == track_deep_view(ts@[j]),
            forall|j: int| 0 <= j < i ==> tracks_deep_view(out@)[j] == tracks_deep_view(ts@)[j],
            tracks_deep_view(out@).len() == i,
        decreases ts.len() - i,
    {
        let t = ts[i].duplicate();
        proof {
            lemma_tracks_deep_view(out@.push(t));
            lemma_tracks_deep_view(out@);
        }
        out.push(t);
        i += 1;
    }
    out
}

impl Record {
    /// An element-wise copy whose view equals this one's.
    pub fn duplicate(&self) -> (r: Record)
        ensures
            r.deep_view() == self.deep_view(),
    {
        let r = Record {
            id: self.id,
            year: self.year,
            title: self.title.clone(),
            formats: duplicate_formats(&self.formats),
            artists: duplicate_artists(&self.artists),
            labels: duplicate_labels(&self.labels),
            identifiers: duplicate_identifiers(&self.identifiers),
            genres: duplicate_strings(&self.genres),
            styles: duplicate_strings(&self.styles),
            tracklist: duplicate_tracks(&self.tracklist),
        };
        proof {
            assert(r.deep_view() =~= self.deep_view());
        }
        r
    }
}

} // verus!

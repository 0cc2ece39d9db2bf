//! The text of a song row in a list: indent, now-playing marker, title and
//! artist fitted into their shares of the width (scrolling when too long),
//! the detail of the sort order, and the playlists that hold the song.
use vstd::prelude::*;
use crate::rows::{indent, indent_string, join_comma, names_view, playlist_suffix_at, suffix_spec, SongLabel};
use crate::state::PlaylistDisplayMode;
use crate::style::{display_width, marquee_spec, marquee_window_at, str_width, MARQUEE_GAP_LEN};

verus! {

/// The columns a list takes for its border and highlight symbol.
pub const CHROME_WIDTH: usize = 4;

/// The title's share of a row's text width, in percent.
pub const TITLE_WIDTH_RATIO: usize = 70;

/// The artist's share of a row's text width, in percent.
pub const ARTIST_WIDTH_RATIO: usize = 30;

/// The narrowest window a title or artist gets, room permitting.
pub const MIN_MARQUEE_WIDTH: usize = 6;

/// What a piece of a song row is, which decides how it is styled.
#[derive(Clone, Copy, Debug, PartialEq, Eq)]
pub enum SegmentKind {
    Indent,
    Marker,
    Title,
    Separator,
    Artist,
    Detail,
    Playlists,
    Missing,
}

/// A piece of a song row.
pub struct Segment {
    pub kind: SegmentKind,
    pub text: String,
}

/// The pieces as kinds and texts.
pub open spec fn segments_view(v: Seq<Segment>) -> Seq<(SegmentKind, Seq<char>)> {
    v.map_values(|s: Segment| (s.kind, s.text@))
}

/// `a - b`, or 0 when `b` is larger.
pub open spec fn sat_sub(a: int, b: int) -> int {
    if a > b { a - b } else { 0 }
}

/// A share of `budget` columns: `ratio` percent of it, but at least the
/// narrowest window (or the whole budget when that is narrower).
pub open spec fn share(budget: int, ratio: int) -> int {
    let part = budget * ratio / 100;
    let floor: int = if (MIN_MARQUEE_WIDTH as int) < budget { MIN_MARQUEE_WIDTH as int } else { budget };
    if part > floor { part } else { floor }
}

/// The marker before a song: a note for the song playing, else blanks.
pub open spec fn marker_text(is_current: bool) -> Seq<char> {
    if is_current { "♪ "@ } else { "  "@ }
}

/// A song's label as texts: title, artist, detail.
pub open spec fn label_view(l: SongLabel) -> (Seq<char>, Option<Seq<char>>, Option<Seq<char>>) {
    (
        l.title@,
        match l.artist { Some(a) => Some(a@), None => None },
        match l.detail { Some(d) => Some(d@), None => None },
    )
}

/// The title in its window, then the separator and the artist in its
/// window, from `prefix` columns on, with the columns used after them.
pub open spec fn title_artist(
    label: (Seq<char>, Option<Seq<char>>, Option<Seq<char>>),
    budget: int,
    prefix: int,
    now: nat,
) -> (Seq<(SegmentKind, Seq<char>)>, int) {
    let title = marquee_spec(label.0, share(budget, TITLE_WIDTH_RATIO as int) as nat, now);
    let used = prefix + str_width(title);
    match label.1 {
        Some(a) => {
            let artist = marquee_spec(a, share(budget, ARTIST_WIDTH_RATIO as int) as nat, now);
            (
                seq![(SegmentKind::Title, title), (SegmentKind::Separator, " — "@), (SegmentKind::Artist, artist)],
                used + str_width(" — "@) + str_width(artist),
            )
        },
        None => (seq![(SegmentKind::Title, title)], used),
    }
}

/// The pieces so far followed by the detail in brackets, if any, with the
/// columns used.
pub open spec fn with_detail(parts: (Seq<(SegmentKind, Seq<char>)>, int), detail: Option<Seq<char>>) -> (Seq<(SegmentKind, Seq<char>)>, int) {
    match detail {
        Some(d) => (parts.0.push((SegmentKind::Detail, " ("@ + d + ")"@)), parts.1 + str_width(" ("@ + d + ")"@)),
        None => parts,
    }
}

/// The pieces so far followed, unless hidden, by a dot separator and the
/// playlists that hold the song, fitted into the columns left.
pub open spec fn with_playlists(
    parts: (Seq<(SegmentKind, Seq<char>)>, int),
    content: int,
    playlists: Option<(PlaylistDisplayMode, Seq<Seq<char>>)>,
    now: nat,
) -> Seq<(SegmentKind, Seq<char>)> {
    match playlists {
        Some((mode, names)) => if mode != PlaylistDisplayMode::Hidden {
            let remaining = sat_sub(content, parts.1 + str_width(" · "@));
            match suffix_spec(names, mode, remaining as nat, now) {
                Some(suffix) => parts.0 + seq![(SegmentKind::Separator, " · "@), (SegmentKind::Playlists, suffix)],
                None => parts.0,
            }
        } else {
            parts.0
        },
        None => parts.0,
    }
}

/// The pieces of the label part of a row, from `prefix` columns on, at time
/// `now`: the title and the artist in their windows, the detail, and the
/// playlists.
pub open spec fn label_segments(
    label: (Seq<char>, Option<Seq<char>>, Option<Seq<char>>),
    content: int,
    prefix: int,
    playlists: Option<(PlaylistDisplayMode, Seq<Seq<char>>)>,
    now: nat,
) -> Seq<(SegmentKind, Seq<char>)> {
    let budget = sat_sub(content, prefix);
    with_playlists(with_detail(title_artist(label, budget, prefix, now), label.2), content, playlists, now)
}

/// The pieces of a song row `available` columns wide at time `now`: the
/// indent for its depth (when there is one), the marker, then the label's
/// pieces, or a placeholder when the library no longer has the song.
pub open spec fn row_segments(
    depth: int,
    is_current: bool,
    label: Option<(Seq<char>, Option<Seq<char>>, Option<Seq<char>>)>,
    available: int,
    playlists: Option<(PlaylistDisplayMode, Seq<Seq<char>>)>,
    now: nat,
) -> Seq<(SegmentKind, Seq<char>)> {
    let content = sat_sub(available, CHROME_WIDTH as int);
    let ind = indent(depth);
    let marker = marker_text(is_current);
    let head = if ind.len() > 0 {
        seq![(SegmentKind::Indent, ind), (SegmentKind::Marker, marker)]
    } else {
        seq![(SegmentKind::Marker, marker)]
    };
    let prefix = str_width(ind) + str_width(marker);
    match label {
        Some(l) => head + label_segments(l, content, prefix, playlists, now),
        None => head.push((SegmentKind::Missing, "<missing>"@)),
    }
}

fn segment(kind: SegmentKind, text: String) -> (s: Segment)
    ensures
        s.kind == kind,
        s.text == text,
{
    Segment { kind, text }
}

fn share_of(budget: usize, ratio: usize) -> (r: usize)
    requires
        ratio <= 100,
    ensures
        r == share(budget as int, ratio as int),
        r <= budget,
{
    proof {
        assert((budget as int) * (ratio as int) <= (usize::MAX as int) * 100) by (nonlinear_arith)
            requires ratio <= 100, budget <= usize::MAX;
        assert((budget as int) * (ratio as int) <= (budget as int) * 100) by (nonlinear_arith)
            requires ratio <= 100, budget >= 0;
    }
    let part: u128 = (budget as u128) * (ratio as u128) / 100;
    let floor: usize = if MIN_MARQUEE_WIDTH < budget { MIN_MARQUEE_WIDTH } else { budget };
    if part > floor as u128 { part as usize } else { floor }
}

fn title_artist_segments(label: &SongLabel, budget: usize, prefix: u128, now_ms: u128) -> (r: (Vec<Segment>, u128))
    requires
        prefix <= 2 * (usize::MAX as u128),
        2 * (label.title@.len() + MARQUEE_GAP_LEN) + 1 <= usize::MAX,
        label.artist matches Some(a) ==> 2 * (a@.len() + MARQUEE_GAP_LEN) + 1 <= usize::MAX,
    ensures
        (segments_view(r.0@), r.1 as int) == title_artist(label_view(*label), budget as int, prefix as int, now_ms as nat),
        r.1 <= 5 * (usize::MAX as u128),
{
    let title_max = share_of(budget, TITLE_WIDTH_RATIO);
    let artist_max = share_of(budget, ARTIST_WIDTH_RATIO);
    let title_text = marquee_window_at(label.title, title_max, now_ms);
    let used: u128 = prefix + display_width(title_text.as_str()) as u128;
    let mut v: Vec<Segment> = Vec::new();
    v.push(segment(SegmentKind::Title, title_text));
    match label.artist {
        Some(a) => {
            let artist_text = marquee_window_at(a, artist_max, now_ms);
            let used2 = used + display_width(" — ") as u128 + display_width(artist_text.as_str()) as u128;
            v.push(segment(SegmentKind::Separator, String::from_str(" — ")));
            v.push(segment(SegmentKind::Artist, artist_text));
            proof {
                assert(segments_view(v@) =~= title_artist(label_view(*label), budget as int, prefix as int, now_ms as nat).0);
            }
            (v, used2)
        },
        None => {
            proof {
                assert(segments_view(v@) =~= title_artist(label_view(*label), budget as int, prefix as int, now_ms as nat).0);
            }
            (v, used)
        },
    }
}

fn add_detail(v: &mut Vec<Segment>, used: u128, detail: &Option<String>) -> (u: u128)
    requires
        used <= 5 * (usize::MAX as u128),
    ensures
        (segments_view(final(v)@), u as int) == with_detail((segments_view(old(v)@), used as int),
            match *detail { Some(d) => Some(d@), None => None }),
        u <= 6 * (usize::MAX as u128),
{
    match detail {
        Some(d) => {
            let mut text = String::from_str(" (");
            text.append(d.as_str());
            text.append(")");
            let u = used + display_width(text.as_str()) as u128;
            let ghost tv = text@;
            v.push(segment(SegmentKind::Detail, text));
            proof {
                assert(segments_view(v@) =~= segments_view(old(v)@).push((SegmentKind::Detail, tv)));
            }
            u
        },
        None => used,
    }
}

fn add_playlists(v: &mut Vec<Segment>, used: u128, content: usize, playlists: Option<(PlaylistDisplayMode, &[String])>, now_ms: u128)
    requires
        used <= 6 * (usize::MAX as u128),
        playlists matches Some(p) ==> 2 * (join_comma(names_view(p.1@)).len() + MARQUEE_GAP_LEN) + 1 <= usize::MAX,
    ensures
        segments_view(final(v)@) == with_playlists((segments_view(old(v)@), used as int), content as int,
            match playlists { Some(p) => Some((p.0, names_view(p.1@))), None => None }, now_ms as nat),
{
    match playlists {
        Some((mode, names)) => {
            if mode != PlaylistDisplayMode::Hidden {
                let sep: u128 = display_width(" · ") as u128;
                let remaining: usize = if content as u128 > used + sep { (content as u128 - (used + sep)) as usize } else { 0 };
                match playlist_suffix_at(names, mode, remaining, now_ms) {
                    Some(suffix) => {
                        let ghost sv = suffix@;
                        v.push(segment(SegmentKind::Separator, String::from_str(" · ")));
                        v.push(segment(SegmentKind::Playlists, suffix));
                        proof {
                            assert(segments_view(v@) =~= segments_view(old(v)@) + seq![(SegmentKind::Separator, " · "@), (SegmentKind::Playlists, sv)]);
                        }
                    },
                    None => {},
                }
            }
        },
        None => {},
    }
}

/// The pieces of a song row: its indent, the now-playing marker, and the
/// label fitted into `available_width` columns (less the list's border) at
/// time `now_ms`, with the playlists holding the song when the mode shows
/// them; a placeholder stands for a song the library no longer has.
pub fn song_row_segments(
    depth: usize,
    is_current: bool,
    label: Option<SongLabel>,
    available_width: usize,
    playlists: Option<(PlaylistDisplayMode, &[String])>,
    now_ms: u128,
) -> (v: Vec<Segment>)
    requires
        label matches Some(l) ==> 2 * (l.title@.len() + MARQUEE_GAP_LEN) + 1 <= usize::MAX,
        label matches Some(l) ==> (l.artist matches Some(a) ==> 2 * (a@.len() + MARQUEE_GAP_LEN) + 1 <= usize::MAX),
        playlists matches Some(p) ==> 2 * (join_comma(names_view(p.1@)).len() + MARQUEE_GAP_LEN) + 1 <= usize::MAX,
    ensures
        segments_view(v@) == row_segments(
            depth as int,
            is_current,
            match label { Some(l) => Some(label_view(l)), None => None },
            available_width as int,
            match playlists { Some(p) => Some((p.0, names_view(p.1@))), None => None },
            now_ms as nat,
        ),
{
    let content: usize = if available_width > CHROME_WIDTH { available_width - CHROME_WIDTH } else { 0 };
    let ind = indent_string(depth);
    let marker = if is_current { String::from_str("♪ ") } else { String::from_str("  ") };
    let prefix: u128 = display_width(ind.as_str()) as u128 + display_width(marker.as_str()) as u128;
    let mut v: Vec<Segment> = Vec::new();
    if ind.as_str().unicode_len() > 0 {
        v.push(segment(SegmentKind::Indent, ind));
    }
    v.push(segment(SegmentKind::Marker, marker));
    let ghost head = segments_view(v@);
    proof {
        assert(head =~= (if indent(depth as int).len() > 0 {
            seq![(SegmentKind::Indent, indent(depth as int)), (SegmentKind::Marker, marker_text(is_current))]
        } else {
            seq![(SegmentKind::Marker, marker_text(is_current))]
        }));
    }
    let l = match label {
        None => {
            v.push(segment(SegmentKind::Missing, String::from_str("<missing>")));
            proof {
                assert(segments_view(v@) =~= head.push((SegmentKind::Missing, "<missing>"@)));
            }
            return v;
        },
        Some(l) => l,
    };
    let budget: usize = if content as u128 > prefix { (content as u128 - prefix) as usize } else { 0 };
    let (mut rest, used) = title_artist_segments(&l, budget, prefix, now_ms);
    let used = add_detail(&mut rest, used, &l.detail);
    add_playlists(&mut rest, used, content, playlists, now_ms);
    let ghost tail = segments_view(rest@);
    v.append(&mut rest);
    proof {
        assert(segments_view(v@) =~= head + tail);
    }
    v
}

} // verus!

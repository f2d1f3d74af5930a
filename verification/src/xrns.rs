//! Reading a song out of Renoise's `Song.xml`: song settings, the pattern sequence, the track
//! layout flattened into channels, the pattern cells and the instruments with their samples.
//! Values Renoise stores as decimals (sample volume and panning, envelope positions) are handed
//! on as text.
use vstd::prelude::*;
use vstd::string::*;

use crate::error::Error;
use crate::model::{
    InstrumentData, LoopMode, MasterTrackLineData, PatternData, SampleData, SongData, TrackLineData,
};
use crate::xml::{
    attribute_value, child_flag, child_int, child_of, child_text, children, children_named, find_attribute,
    first_element, node_text, or_default, parse_int, parse_int_spec, parse_xml, XmlDoc, XmlNode,
};

verus! {

/// A pattern cell as plain values.
pub struct CellView {
    pub is_set: bool,
    pub note: Option<Seq<char>>,
    pub instrument: Option<Seq<char>>,
    pub volume: Option<Seq<char>>,
    pub panning: Option<Seq<char>>,
    pub delay: Option<Seq<char>>,
    pub effect_number: Seq<char>,
    pub effect_value: Seq<char>,
}

pub open spec fn opt_view(o: Option<String>) -> Option<Seq<char>> {
    match o {
        Some(s) => Some(s@),
        None => None,
    }
}

pub open spec fn cell_view(c: TrackLineData) -> CellView {
    CellView {
        is_set: c.is_set,
        note: opt_view(c.note),
        instrument: opt_view(c.instrument),
        volume: opt_view(c.volume),
        panning: opt_view(c.panning),
        delay: opt_view(c.delay),
        effect_number: c.effect_number@,
        effect_value: c.effect_value@,
    }
}

pub open spec fn master_view(c: MasterTrackLineData) -> (Seq<char>, Seq<char>) {
    (c.effect_number@, c.effect_value@)
}

/// An empty cell.
pub open spec fn empty_cell() -> CellView {
    CellView {
        is_set: false,
        note: None,
        instrument: None,
        volume: None,
        panning: None,
        delay: None,
        effect_number: Seq::empty(),
        effect_value: Seq::empty(),
    }
}

pub open spec fn usize_max() -> int {
    usize::MAX as int
}

// ---------------------------------------------------------------- song settings and layout

/// The document's root element.
pub open spec fn root_of(nodes: Seq<XmlNode>) -> Option<usize> {
    first_element(nodes, nodes.len() as int)
}

/// The root element is `RenoiseSong`.
pub open spec fn is_song_root(nodes: Seq<XmlNode>) -> bool {
    root_of(nodes) matches Some(r) && nodes[r as int].name@ == "RenoiseSong"@
}

pub open spec fn global_of(nodes: Seq<XmlNode>) -> Option<usize> {
    child_of(nodes, root_of(nodes), "GlobalSongData"@)
}

pub open spec fn sequence_of(nodes: Seq<XmlNode>) -> Option<usize> {
    child_of(nodes, root_of(nodes), "PatternSequence"@)
}

/// The `SequenceEntry` elements of `PatternSequence/SequenceEntries`.
pub open spec fn sequence_entries(nodes: Seq<XmlNode>) -> Seq<usize> {
    match child_of(nodes, sequence_of(nodes), "SequenceEntries"@) {
        Some(e) => children_named(nodes, e as int, "SequenceEntry"@),
        None => Seq::empty(),
    }
}

/// The pattern numbers of the entries `es` that name one in `0..=255`, in order.
pub open spec fn order_values(nodes: Seq<XmlNode>, es: Seq<usize>) -> Seq<u8>
    decreases es.len(),
{
    if es.len() == 0 {
        Seq::empty()
    } else {
        let k = order_values(nodes, es.drop_last());
        match child_int(nodes, Some(es.last()), "Pattern"@, 0, 255) {
            Some(v) => k.push(v as u8),
            None => k,
        }
    }
}

/// The element children of `Tracks`.
pub open spec fn song_tracks(nodes: Seq<XmlNode>) -> Seq<usize> {
    match child_of(nodes, root_of(nodes), "Tracks"@) {
        Some(t) => children(nodes, t as int),
        None => Seq::empty(),
    }
}

/// The note-column count of each `SequencerTrack` among `ts` (1 when not given).
pub open spec fn track_widths(nodes: Seq<XmlNode>, ts: Seq<usize>) -> Seq<usize>
    decreases ts.len(),
{
    if ts.len() == 0 {
        Seq::empty()
    } else {
        let k = track_widths(nodes, ts.drop_last());
        if nodes[ts.last() as int].name@ == "SequencerTrack"@ {
            k.push(or_default(child_int(nodes, Some(ts.last()), "NumberOfVisibleNoteColumns"@, 0, usize_max()), 1) as usize)
        } else {
            k
        }
    }
}

/// The effect-column count of the last `SequencerMasterTrack` among `ts` (1 when not given, 0
/// without one).
pub open spec fn master_columns(nodes: Seq<XmlNode>, ts: Seq<usize>) -> int
    decreases ts.len(),
{
    if ts.len() == 0 {
        0
    } else if nodes[ts.last() as int].name@ == "SequencerMasterTrack"@ {
        or_default(child_int(nodes, Some(ts.last()), "NumberOfVisibleEffectColumns"@, 0, usize_max()), 1)
    } else {
        master_columns(nodes, ts.drop_last())
    }
}

/// The sum of `ws[t..]`.
pub open spec fn rest_sum(ws: Seq<usize>, t: int) -> int
    decreases ws.len() - t,
{
    if t < 0 || t >= ws.len() { 0 } else { ws[t] + rest_sum(ws, t + 1) }
}

/// The channels of the song: every note column of every track.
pub open spec fn song_channels(nodes: Seq<XmlNode>) -> int {
    rest_sum(track_widths(nodes, song_tracks(nodes)), 0)
}

/// The master-track columns the converters read: at most one.
pub open spec fn song_master_columns(nodes: Seq<XmlNode>) -> int {
    if master_columns(nodes, song_tracks(nodes)) < 1 { master_columns(nodes, song_tracks(nodes)) } else { 1 }
}

// ---------------------------------------------------------------- pattern cells

/// The row a `Line` element is for: its `index` attribute read as an unsigned number.
pub open spec fn line_row(nodes: Seq<XmlNode>, l: int) -> Option<int> {
    match attribute_value(nodes[l].attributes@, "index"@) {
        Some(v) => if v.len() > 0 && v[0] == '-' {
            None
        } else {
            match parse_int_spec(v) {
                Some(x) => if 0 <= x <= usize_max() { Some(x) } else { None },
                None => None,
            }
        },
        None => None,
    }
}

/// The effect of a line: the `Number` of its first `EffectColumns/EffectColumn`, with its
/// `Value` (`"00"` when not given).
pub open spec fn line_effect(nodes: Seq<XmlNode>, l: int) -> Option<(Seq<char>, Seq<char>)> {
    let col = child_of(nodes, child_of(nodes, Some(l as usize), "EffectColumns"@), "EffectColumn"@);
    match child_text(nodes, col, "Number"@) {
        Some(num) => Some((num, match child_text(nodes, col, "Value"@) { Some(v) => v, None => "00"@ })),
        None => None,
    }
}

/// The `NoteColumn` elements of a line's `NoteColumns`.
pub open spec fn note_columns(nodes: Seq<XmlNode>, l: int) -> Seq<usize> {
    match child_of(nodes, Some(l as usize), "NoteColumns"@) {
        Some(c) => children_named(nodes, c as int, "NoteColumn"@),
        None => Seq::empty(),
    }
}

/// A cell after a line writes it: the note column `column` (when the line has one for it)
/// supplies note, instrument, volume, panning and delay; the line's effect (when it has one)
/// supplies the effect; the cell is set when any of these is present.
pub open spec fn filled_cell(nodes: Seq<XmlNode>, c: CellView, column: Option<usize>, fx: Option<(Seq<char>, Seq<char>)>) -> CellView {
    let c1 = match column {
        Some(n) => CellView {
            note: child_text(nodes, Some(n), "Note"@),
            instrument: child_text(nodes, Some(n), "Instrument"@),
            volume: child_text(nodes, Some(n), "Volume"@),
            panning: child_text(nodes, Some(n), "Panning"@),
            delay: child_text(nodes, Some(n), "Delay"@),
            ..c
        },
        None => c,
    };
    let c2 = match fx {
        Some((num, val)) => CellView { effect_number: num, effect_value: val, ..c1 },
        None => c1,
    };
    CellView {
        is_set: c2.note is Some || c2.instrument is Some || c2.volume is Some || c2.panning is Some || c2.delay is Some
            || c2.effect_number.len() > 0,
        ..c2
    }
}

/// The cells after line `l` of a track whose channels start at `first` and number `width`.
pub open spec fn apply_line(nodes: Seq<XmlNode>, cells: Seq<CellView>, l: int, nc: int, rows: int, first: int, width: int) -> Seq<CellView> {
    match line_row(nodes, l) {
        Some(row) => if row < rows {
            let notes = note_columns(nodes, l);
            let fx = line_effect(nodes, l);
            Seq::new(cells.len(), |k: int|
                if row * nc + first <= k < row * nc + first + width {
                    let col = k - (row * nc + first);
                    filled_cell(nodes, cells[k], if col < notes.len() { Some(notes[col]) } else { None }, fx)
                } else {
                    cells[k]
                })
        } else {
            cells
        },
        None => cells,
    }
}

/// The cells after the lines `ls` in turn.
pub open spec fn apply_lines(nodes: Seq<XmlNode>, cells: Seq<CellView>, ls: Seq<usize>, nc: int, rows: int, first: int, width: int) -> Seq<CellView>
    decreases ls.len(),
{
    if ls.len() == 0 {
        cells
    } else {
        apply_line(nodes, apply_lines(nodes, cells, ls.drop_last(), nc, rows, first, width), ls.last() as int, nc, rows, first, width)
    }
}

/// The master cells after the lines `ls` in turn: each line of a row the pattern has that has
/// an effect writes it to the row's first column.
pub open spec fn apply_master_lines(nodes: Seq<XmlNode>, cells: Seq<(Seq<char>, Seq<char>)>, ls: Seq<usize>, rows: int) -> Seq<(Seq<char>, Seq<char>)>
    decreases ls.len(),
{
    if ls.len() == 0 {
        cells
    } else {
        let prev = apply_master_lines(nodes, cells, ls.drop_last(), rows);
        match line_row(nodes, ls.last() as int) {
            Some(row) => if row < rows {
                match line_effect(nodes, ls.last() as int) {
                    Some(fx) => prev.update(row, fx),
                    None => prev,
                }
            } else {
                prev
            },
            None => prev,
        }
    }
}

/// The `Line` elements of a track's `Lines`.
pub open spec fn track_lines(nodes: Seq<XmlNode>, t: int) -> Seq<usize> {
    match child_of(nodes, Some(t as usize), "Lines"@) {
        Some(l) => children_named(nodes, l as int, "Line"@),
        None => Seq::empty(),
    }
}

/// Reading a pattern's tracks: the number of pattern tracks read, the first channel of the
/// next one, the cells and the master cells.
pub struct PatternProgress {
    pub track: int,
    pub first: int,
    pub cells: Seq<CellView>,
    pub master: Seq<(Seq<char>, Seq<char>)>,
}

/// Reading one track element `t` of a pattern: a `PatternTrack` fills the channels of the song
/// track of the same rank (none past the last), a `PatternMasterTrack` fills the master
/// column when the song has one.
pub open spec fn apply_track(nodes: Seq<XmlNode>, st: PatternProgress, t: int, widths: Seq<usize>, nc: int, nmc: int, rows: int) -> PatternProgress {
    if nodes[t].name@ == "PatternTrack"@ {
        let width = if 0 <= st.track < widths.len() { widths[st.track] as int } else { 0 };
        PatternProgress {
            track: st.track + 1,
            first: st.first + width,
            cells: apply_lines(nodes, st.cells, track_lines(nodes, t), nc, rows, st.first, width),
            master: st.master,
        }
    } else if nodes[t].name@ == "PatternMasterTrack"@ && nmc > 0 {
        PatternProgress { master: apply_master_lines(nodes, st.master, track_lines(nodes, t), rows), ..st }
    } else {
        st
    }
}

pub open spec fn apply_tracks(nodes: Seq<XmlNode>, st: PatternProgress, ts: Seq<usize>, widths: Seq<usize>, nc: int, nmc: int, rows: int) -> PatternProgress
    decreases ts.len(),
{
    if ts.len() == 0 {
        st
    } else {
        apply_track(nodes, apply_tracks(nodes, st, ts.drop_last(), widths, nc, nmc, rows), ts.last() as int, widths, nc, nmc, rows)
    }
}

/// The rows of pattern element `q` (64 when not given).
pub open spec fn pattern_rows(nodes: Seq<XmlNode>, q: int) -> int {
    or_default(child_int(nodes, Some(q as usize), "NumberOfLines"@, 0, usize_max()), 64)
}

/// The track elements of pattern `q`.
pub open spec fn pattern_tracks(nodes: Seq<XmlNode>, q: int) -> Seq<usize> {
    match child_of(nodes, Some(q as usize), "Tracks"@) {
        Some(t) => children(nodes, t as int),
        None => Seq::empty(),
    }
}

/// The cells of pattern `q`: `rows * nc` track cells and `rows * nmc` master cells, empty
/// unless a line writes them.
pub open spec fn pattern_read(nodes: Seq<XmlNode>, q: int, widths: Seq<usize>, nc: int, nmc: int) -> PatternProgress {
    let rows = pattern_rows(nodes, q);
    let start = PatternProgress {
        track: 0,
        first: 0,
        cells: Seq::new((rows * nc) as nat, |k: int| empty_cell()),
        master: Seq::new((rows * nmc) as nat, |k: int| (Seq::<char>::empty(), Seq::<char>::empty())),
    };
    apply_tracks(nodes, start, pattern_tracks(nodes, q), widths, nc, nmc, rows)
}

/// The pattern read matches pattern element `q`.
pub open spec fn pattern_matches(nodes: Seq<XmlNode>, q: int, widths: Seq<usize>, nc: int, nmc: int, p: PatternData) -> bool {
    let r = pattern_read(nodes, q, widths, nc, nmc);
    &&& p.num_rows == pattern_rows(nodes, q)
    &&& p.tracks_line_data@.map_values(|c: TrackLineData| cell_view(c)) == r.cells
    &&& p.master_track_line_data@.map_values(|c: MasterTrackLineData| master_view(c)) == r.master
}

/// The `Pattern` elements of `PatternPool/Patterns`.
pub open spec fn pattern_nodes(nodes: Seq<XmlNode>) -> Seq<usize> {
    match child_of(nodes, child_of(nodes, root_of(nodes), "PatternPool"@), "Patterns"@) {
        Some(p) => children_named(nodes, p as int, "Pattern"@),
        None => Seq::empty(),
    }
}

/// Every pattern's cell count fits a `usize`.
pub open spec fn patterns_fit(nodes: Seq<XmlNode>, nc: int) -> bool {
    forall|i: int| 0 <= i < pattern_nodes(nodes).len() ==> #[trigger] pattern_rows(nodes, pattern_nodes(nodes)[i] as int) * nc <= usize_max()
}


pub open spec fn pair_view(o: Option<(String, String)>) -> Option<(Seq<char>, Seq<char>)> {
    match o {
        Some((a, b)) => Some((a@, b@)),
        None => None,
    }
}

fn copy_opt(o: &Option<String>) -> (r: Option<String>)
    ensures
        opt_view(r) == opt_view(*o),
{
    match o {
        Some(s) => Some(s.clone()),
        None => None,
    }
}

/// The effect of line `l` (see [`line_effect`]).
fn read_line_effect(doc: &XmlDoc, l: usize) -> (r: Option<(String, String)>)
    requires
        doc.wf(),
        l < doc.nodes@.len(),
    ensures
        pair_view(r) == line_effect(doc.nodes@, l as int),
{
    let cols = doc.child(Some(l), "EffectColumns");
    let col = doc.child(cols, "EffectColumn");
    match doc.child_text(col, "Number") {
        Some(num) => {
            let value = match doc.child_text(col, "Value") {
                Some(v) => v,
                None => "00".to_owned(),
            };
            Some((num, value))
        },
        None => None,
    }
}

/// The row of line `l` (see [`line_row`]).
fn read_line_row(doc: &XmlDoc, l: usize) -> (r: Option<usize>)
    requires
        l < doc.nodes@.len(),
    ensures
        r matches Some(x) ==> line_row(doc.nodes@, l as int) == Some(x as int),
        r is None ==> line_row(doc.nodes@, l as int) is None,
{
    match find_attribute(&doc.nodes[l].attributes, "index") {
        Some(v) => {
            if v.unicode_len() > 0 && v.as_str().get_char(0) == '-' {
                return None;
            }
            match parse_int(v.as_str()) {
                Some(x) => if 0 <= x && x <= usize::MAX as i128 { Some(x as usize) } else { None },
                None => None,
            }
        },
        None => None,
    }
}

/// The note columns of line `l` (see [`note_columns`]).
fn read_note_columns(doc: &XmlDoc, l: usize) -> (r: Vec<usize>)
    requires
        doc.wf(),
        l < doc.nodes@.len(),
    ensures
        r@ == note_columns(doc.nodes@, l as int),
        forall|k: int| 0 <= k < r@.len() ==> #[trigger] r@[k] < doc.nodes@.len(),
{
    match doc.child(Some(l), "NoteColumns") {
        Some(c) => doc.named_children(c, "NoteColumn"),
        None => Vec::new(),
    }
}

/// A cell after a line writes it (see [`filled_cell`]).
fn fill_cell(doc: &XmlDoc, old: &TrackLineData, column: Option<usize>, fx: &Option<(String, String)>) -> (r: TrackLineData)
    requires
        doc.wf(),
        column matches Some(n) ==> n < doc.nodes@.len(),
    ensures
        cell_view(r) == filled_cell(doc.nodes@, cell_view(*old), column, pair_view(*fx)),
{
    let (note, instrument, volume, panning, delay) = match column {
        Some(n) => (
            doc.child_text(Some(n), "Note"),
            doc.child_text(Some(n), "Instrument"),
            doc.child_text(Some(n), "Volume"),
            doc.child_text(Some(n), "Panning"),
            doc.child_text(Some(n), "Delay"),
        ),
        None => (copy_opt(&old.note), copy_opt(&old.instrument), copy_opt(&old.volume), copy_opt(&old.panning), copy_opt(&old.delay)),
    };
    let (effect_number, effect_value) = match fx {
        Some((num, val)) => (num.clone(), val.clone()),
        None => (old.effect_number.clone(), old.effect_value.clone()),
    };
    let is_set = note.is_some() || instrument.is_some() || volume.is_some() || panning.is_some() || delay.is_some()
        || effect_number.unicode_len() > 0;
    TrackLineData { is_set, note, instrument, volume, panning, delay, effect_number, effect_value }
}

/// An empty cell.
fn new_cell() -> (r: TrackLineData)
    ensures
        cell_view(r) == empty_cell(),
{
    TrackLineData {
        is_set: false,
        note: None,
        instrument: None,
        volume: None,
        panning: None,
        delay: None,
        effect_number: String::new(),
        effect_value: String::new(),
    }
}

/// An empty master cell.
fn new_master_cell() -> (r: MasterTrackLineData)
    ensures
        master_view(r) == (Seq::<char>::empty(), Seq::<char>::empty()),
{
    MasterTrackLineData { effect_number: String::new(), effect_value: String::new() }
}

/// Applies the lines of track `t` to the cells (see [`apply_lines`]).
fn read_track_lines(doc: &XmlDoc, cells: &mut Vec<TrackLineData>, t: usize, nc: usize, rows: usize, first: usize, width: usize)
    requires
        doc.wf(),
        t < doc.nodes@.len(),
        first + width <= nc,
        rows * nc <= usize::MAX,
        old(cells)@.len() == rows * nc,
    ensures
        final(cells)@.len() == old(cells)@.len(),
        final(cells)@.map_values(|c: TrackLineData| cell_view(c)) == apply_lines(doc.nodes@,
            old(cells)@.map_values(|c: TrackLineData| cell_view(c)), track_lines(doc.nodes@, t as int), nc as int, rows as int,
            first as int, width as int),
{
    let ghost start = old(cells)@.map_values(|c: TrackLineData| cell_view(c));
    let lines = match doc.child(Some(t), "Lines") {
        Some(l) => doc.named_children(l, "Line"),
        None => Vec::new(),
    };
    assert(lines@ == track_lines(doc.nodes@, t as int));
    let mut i: usize = 0;
    while i < lines.len()
        invariant
            doc.wf(),
            i <= lines@.len(),
            forall|k: int| 0 <= k < lines@.len() ==> #[trigger] lines@[k] < doc.nodes@.len(),
            first + width <= nc,
            rows * nc <= usize::MAX,
            cells@.len() == rows * nc,
            cells@.map_values(|c: TrackLineData| cell_view(c)) == apply_lines(doc.nodes@, start, lines@.take(i as int),
                nc as int, rows as int, first as int, width as int),
        decreases lines@.len() - i,
    {
        let l = lines[i];
        proof {
            assert(lines@.take(i + 1).drop_last() =~= lines@.take(i as int));
        }
        let ghost before = cells@.map_values(|c: TrackLineData| cell_view(c));
        match read_line_row(doc, l) {
            Some(row) => {
                if row < rows {
                    let fx = read_line_effect(doc, l);
                    let notes = read_note_columns(doc, l);
                    assert(row * nc + nc <= rows * nc) by (nonlinear_arith)
                        requires row < rows;
                    let base = row * nc + first;
                    let mut col: usize = 0;
                    while col < width
                        invariant
                            doc.wf(),
                            col <= width,
                            base + width <= rows * nc,
                            rows * nc <= usize::MAX,
                            cells@.len() == rows * nc,
                            forall|k: int| 0 <= k < notes@.len() ==> #[trigger] notes@[k] < doc.nodes@.len(),
                            before.len() == cells@.len(),
                            forall|k: int| 0 <= k < cells@.len() ==> #[trigger] cell_view(cells@[k]) ==
                                if base <= k < base + col {
                                    filled_cell(doc.nodes@, before[k],
                                        if k - base < notes@.len() { Some(notes@[k - base]) } else { None }, pair_view(fx))
                                } else {
                                    before[k]
                                },
                        decreases width - col,
                    {
                        let column = if col < notes.len() { Some(notes[col]) } else { None };
                        let cell = fill_cell(doc, &cells[base + col], column, &fx);
                        let ghost prev = cells@;
                        cells.set(base + col, cell);
                        proof {
                            assert forall|k: int| 0 <= k < cells@.len() implies #[trigger] cell_view(cells@[k]) ==
                                if base <= k < base + col + 1 {
                                    filled_cell(doc.nodes@, before[k],
                                        if k - base < notes@.len() { Some(notes@[k - base]) } else { None }, pair_view(fx))
                                } else {
                                    before[k]
                                } by {
                                if k != base + col {
                                    assert(cells@[k] == prev[k]);
                                }
                            }
                        }
                        col += 1;
                    }
                    proof {
                        assert(cells@.map_values(|c: TrackLineData| cell_view(c)) =~= apply_line(doc.nodes@, before, l as int,
                            nc as int, rows as int, first as int, width as int));
                    }
                }
            },
            None => {},
        }
        i += 1;
    }
    proof {
        assert(lines@.take(i as int) =~= lines@);
    }
}

/// Applies the lines of master track `t` to the master cells, one per row (see
/// [`apply_master_lines`]).
fn read_master_lines(doc: &XmlDoc, master: &mut Vec<MasterTrackLineData>, t: usize, rows: usize)
    requires
        doc.wf(),
        t < doc.nodes@.len(),
        old(master)@.len() == rows,
    ensures
        final(master)@.len() == old(master)@.len(),
        final(master)@.map_values(|c: MasterTrackLineData| master_view(c)) == apply_master_lines(doc.nodes@,
            old(master)@.map_values(|c: MasterTrackLineData| master_view(c)), track_lines(doc.nodes@, t as int), rows as int),
{
    let ghost start = old(master)@.map_values(|c: MasterTrackLineData| master_view(c));
    let lines = match doc.child(Some(t), "Lines") {
        Some(l) => doc.named_children(l, "Line"),
        None => Vec::new(),
    };
    assert(lines@ == track_lines(doc.nodes@, t as int));
    let mut i: usize = 0;
    while i < lines.len()
        invariant
            doc.wf(),
            i <= lines@.len(),
            forall|k: int| 0 <= k < lines@.len() ==> #[trigger] lines@[k] < doc.nodes@.len(),
            master@.len() == rows,
            master@.map_values(|c: MasterTrackLineData| master_view(c)) == apply_master_lines(doc.nodes@, start,
                lines@.take(i as int), rows as int),
        decreases lines@.len() - i,
    {
        let l = lines[i];
        proof {
            assert(lines@.take(i + 1).drop_last() =~= lines@.take(i as int));
        }
        let ghost before = master@.map_values(|c: MasterTrackLineData| master_view(c));
        match read_line_row(doc, l) {
            Some(row) => {
                if row < rows {
                    match read_line_effect(doc, l) {
                        Some((number, value)) => {
                            master.set(row, MasterTrackLineData { effect_number: number, effect_value: value });
                            proof {
                                assert(master@.map_values(|c: MasterTrackLineData| master_view(c)) =~= before.update(row as int,
                                    (number@, value@)));
                            }
                        },
                        None => {},
                    }
                }
            },
            None => {},
        }
        i += 1;
    }
    proof {
        assert(lines@.take(i as int) =~= lines@);
    }
}


proof fn lemma_rest_sum_nonneg(ws: Seq<usize>, t: int)
    ensures
        rest_sum(ws, t) >= 0,
    decreases ws.len() - t,
{
    if 0 <= t < ws.len() {
        lemma_rest_sum_nonneg(ws, t + 1);
    }
}

/// Reads pattern element `q` (see [`pattern_read`]); `None` when its cell count does not fit a
/// `usize`.
fn read_pattern(doc: &XmlDoc, q: usize, widths: &Vec<usize>, nc: usize, nmc: usize) -> (r: Option<PatternData>)
    requires
        doc.wf(),
        q < doc.nodes@.len(),
        nmc <= 1,
        rest_sum(widths@, 0) == nc,
    ensures
        r is None <==> pattern_rows(doc.nodes@, q as int) * nc > usize::MAX,
        r matches Some(p) ==> pattern_matches(doc.nodes@, q as int, widths@, nc as int, nmc as int, p),
{
    let ghost nodes = doc.nodes@;
    let rows: usize = match doc.child_int(Some(q), "NumberOfLines", 0, usize::MAX as i128) {
        Some(v) => v as usize,
        None => 64,
    };
    assert(rows == pattern_rows(nodes, q as int));
    let size = match rows.checked_mul(nc) {
        Some(n) => n,
        None => return None,
    };
    assert(rows * nmc <= rows) by (nonlinear_arith)
        requires nmc <= 1;
    let mut cells: Vec<TrackLineData> = Vec::new();
    let mut k: usize = 0;
    while k < size
        invariant
            k <= size,
            cells@.len() == k,
            forall|j: int| 0 <= j < k ==> #[trigger] cell_view(cells@[j]) == empty_cell(),
        decreases size - k,
    {
        cells.push(new_cell());
        k += 1;
    }
    let msize = rows * nmc;
    let mut master: Vec<MasterTrackLineData> = Vec::new();
    k = 0;
    while k < msize
        invariant
            k <= msize,
            master@.len() == k,
            forall|j: int| 0 <= j < k ==> #[trigger] master_view(master@[j]) == (Seq::<char>::empty(), Seq::<char>::empty()),
        decreases msize - k,
    {
        master.push(new_master_cell());
        k += 1;
    }
    let ghost start = PatternProgress {
        track: 0,
        first: 0,
        cells: Seq::new((rows * nc) as nat, |k: int| empty_cell()),
        master: Seq::new((rows * nmc) as nat, |k: int| (Seq::<char>::empty(), Seq::<char>::empty())),
    };
    assert(cells@.map_values(|c: TrackLineData| cell_view(c)) =~= start.cells);
    assert(master@.map_values(|c: MasterTrackLineData| master_view(c)) =~= start.master);
    let ts = match doc.child(Some(q), "Tracks") {
        Some(t) => doc.children_of(t),
        None => Vec::new(),
    };
    assert(ts@ == pattern_tracks(nodes, q as int));
    let mut track: usize = 0;
    let mut first: usize = 0;
    let mut i: usize = 0;
    while i < ts.len()
        invariant
            doc.wf(),
            nodes == doc.nodes@,
            i <= ts@.len(),
            forall|j: int| 0 <= j < ts@.len() ==> #[trigger] ts@[j] < nodes.len(),
            nmc <= 1,
            rows * nc <= usize::MAX,
            cells@.len() == rows * nc,
            master@.len() == rows * nmc,
            track <= i,
            first + rest_sum(widths@, track as int) == nc,
            ({
                let st = apply_tracks(nodes, start, ts@.take(i as int), widths@, nc as int, nmc as int, rows as int);
                &&& st.track == track
                &&& st.first == first
                &&& st.cells == cells@.map_values(|c: TrackLineData| cell_view(c))
                &&& st.master == master@.map_values(|c: MasterTrackLineData| master_view(c))
            }),
        decreases ts@.len() - i,
    {
        let t = ts[i];
        proof {
            assert(ts@.take(i + 1).drop_last() =~= ts@.take(i as int));
        }
        if str_is(&doc.nodes[t].name, "PatternTrack") {
            let width: usize = if track < widths.len() { widths[track] } else { 0 };
            proof {
                lemma_rest_sum_nonneg(widths@, track + 1);
                lemma_rest_sum_nonneg(widths@, track as int);
            }
            read_track_lines(doc, &mut cells, t, nc, rows, first, width);
            first = first + width;
            track = track + 1;
        } else if str_is(&doc.nodes[t].name, "PatternMasterTrack") && nmc > 0 {
            assert(rows * nmc == rows) by (nonlinear_arith)
                requires nmc == 1;
            read_master_lines(doc, &mut master, t, rows);
        }
        i += 1;
    }
    proof {
        assert(ts@.take(i as int) =~= ts@);
    }
    Some(PatternData { num_rows: rows, tracks_line_data: cells, master_track_line_data: master })
}

/// Whether `s` reads `word`.
fn str_is(s: &String, word: &str) -> (r: bool)
    ensures
        r == (s@ == word@),
{
    crate::xml::str_eq(s.as_str(), word)
}


/// The track layout of the song (see [`track_widths`] and [`master_columns`]).
fn read_track_layout(doc: &XmlDoc, root: Option<usize>) -> (r: (Vec<usize>, usize))
    requires
        doc.wf(),
        root == root_of(doc.nodes@),
        root matches Some(k) ==> k < doc.nodes@.len(),
    ensures
        r.0@ == track_widths(doc.nodes@, song_tracks(doc.nodes@)),
        r.1 == master_columns(doc.nodes@, song_tracks(doc.nodes@)),
{
    let ghost nodes = doc.nodes@;
    let ts = match doc.child(root, "Tracks") {
        Some(t) => doc.children_of(t),
        None => Vec::new(),
    };
    assert(ts@ == song_tracks(nodes));
    let mut widths: Vec<usize> = Vec::new();
    let mut master: usize = 0;
    let mut i: usize = 0;
    while i < ts.len()
        invariant
            doc.wf(),
            nodes == doc.nodes@,
            i <= ts@.len(),
            forall|j: int| 0 <= j < ts@.len() ==> #[trigger] ts@[j] < nodes.len(),
            widths@ == track_widths(nodes, ts@.take(i as int)),
            master == master_columns(nodes, ts@.take(i as int)),
        decreases ts@.len() - i,
    {
        let t = ts[i];
        proof {
            assert(ts@.take(i + 1).drop_last() =~= ts@.take(i as int));
            assert(ts@.take(i + 1).last() == t);
        }
        let ghost before = widths@;
        if str_is(&doc.nodes[t].name, "SequencerTrack") {
            let w = match doc.child_int(Some(t), "NumberOfVisibleNoteColumns", 0, usize::MAX as i128) {
                Some(v) => v as usize,
                None => 1,
            };
            assert(nodes[t as int].name@ != "SequencerMasterTrack"@) by {
                reveal_strlit("SequencerTrack");
                reveal_strlit("SequencerMasterTrack");
                assert("SequencerTrack"@.len() != "SequencerMasterTrack"@.len());
            }
            assert(master_columns(nodes, ts@.take(i + 1)) == master_columns(nodes, ts@.take(i as int)));
            widths.push(w);
            assert(widths@ =~= before.push(w));
        } else if str_is(&doc.nodes[t].name, "SequencerMasterTrack") {
            master = match doc.child_int(Some(t), "NumberOfVisibleEffectColumns", 0, usize::MAX as i128) {
                Some(v) => v as usize,
                None => 1,
            };
        }
        i += 1;
    }
    proof {
        assert(ts@.take(i as int) =~= ts@);
    }
    (widths, master)
}

/// The sum of `ws`, when it fits a `usize`.
fn sum_widths(ws: &Vec<usize>) -> (r: Option<usize>)
    ensures
        r matches Some(v) ==> v == rest_sum(ws@, 0),
        r is None <==> rest_sum(ws@, 0) > usize::MAX,
{
    let n = ws.len();
    let mut total: usize = 0;
    let mut i: usize = 0;
    while i < n
        invariant
            i <= n,
            n == ws@.len(),
            total + rest_sum(ws@, i as int) == rest_sum(ws@, 0),
        decreases n - i,
    {
        proof {
            lemma_rest_sum_nonneg(ws@, i + 1);
        }
        match total.checked_add(ws[i]) {
            Some(t) => total = t,
            None => return None,
        }
        i += 1;
    }
    Some(total)
}

/// The pattern sequence (see [`order_values`]).
fn read_order(doc: &XmlDoc, root: Option<usize>) -> (r: Vec<u8>)
    requires
        doc.wf(),
        root == root_of(doc.nodes@),
        root matches Some(k) ==> k < doc.nodes@.len(),
    ensures
        r@ == order_values(doc.nodes@, sequence_entries(doc.nodes@)),
{
    let ghost nodes = doc.nodes@;
    let seq_node = doc.child(root, "PatternSequence");
    let es = match doc.child(seq_node, "SequenceEntries") {
        Some(e) => doc.named_children(e, "SequenceEntry"),
        None => Vec::new(),
    };
    assert(es@ == sequence_entries(nodes));
    let mut out: Vec<u8> = Vec::new();
    let mut i: usize = 0;
    while i < es.len()
        invariant
            doc.wf(),
            nodes == doc.nodes@,
            i <= es@.len(),
            forall|j: int| 0 <= j < es@.len() ==> #[trigger] es@[j] < nodes.len(),
            out@ == order_values(nodes, es@.take(i as int)),
        decreases es@.len() - i,
    {
        proof {
            assert(es@.take(i + 1).drop_last() =~= es@.take(i as int));
        }
        match doc.child_int(Some(es[i]), "Pattern", 0, 255) {
            Some(v) => out.push(v as u8),
            None => {},
        }
        i += 1;
    }
    proof {
        assert(es@.take(i as int) =~= es@);
    }
    out
}

/// Reads every pattern of the pattern pool; `None` when one has more cells than a `usize`
/// counts.
fn read_patterns(doc: &XmlDoc, root: Option<usize>, widths: &Vec<usize>, nc: usize, nmc: usize) -> (r: Option<Vec<PatternData>>)
    requires
        doc.wf(),
        root == root_of(doc.nodes@),
        root matches Some(k) ==> k < doc.nodes@.len(),
        nmc <= 1,
        rest_sum(widths@, 0) == nc,
    ensures
        r is None <==> !patterns_fit(doc.nodes@, nc as int),
        r matches Some(ps) ==> ps@.len() == pattern_nodes(doc.nodes@).len()
            && forall|i: int| 0 <= i < ps@.len() ==> #[trigger] pattern_matches(doc.nodes@, pattern_nodes(doc.nodes@)[i] as int,
                widths@, nc as int, nmc as int, ps@[i]),
{
    let ghost nodes = doc.nodes@;
    let pool = doc.child(root, "PatternPool");
    let qs = match doc.child(pool, "Patterns") {
        Some(p) => doc.named_children(p, "Pattern"),
        None => Vec::new(),
    };
    assert(qs@ == pattern_nodes(nodes));
    let mut out: Vec<PatternData> = Vec::new();
    let mut i: usize = 0;
    while i < qs.len()
        invariant
            doc.wf(),
            nodes == doc.nodes@,
            qs@ == pattern_nodes(nodes),
            nmc <= 1,
            rest_sum(widths@, 0) == nc,
            i <= qs@.len(),
            forall|j: int| 0 <= j < qs@.len() ==> #[trigger] qs@[j] < nodes.len(),
            out@.len() == i,
            forall|j: int| 0 <= j < i ==> #[trigger] pattern_rows(nodes, qs@[j] as int) * nc <= usize::MAX,
            forall|j: int| 0 <= j < i ==> #[trigger] pattern_matches(nodes, qs@[j] as int, widths@, nc as int, nmc as int, out@[j]),
        decreases qs@.len() - i,
    {
        match read_pattern(doc, qs[i], widths, nc, nmc) {
            Some(p) => {
                let ghost before = out@;
                out.push(p);
                proof {
                    assert forall|j: int| 0 <= j < i + 1 implies #[trigger] pattern_matches(nodes, qs@[j] as int, widths@,
                        nc as int, nmc as int, out@[j]) by {
                        if j < i {
                            assert(out@[j] == before[j]);
                        }
                    }
                }
            },
            None => {
                proof {
                    assert(!(pattern_rows(nodes, pattern_nodes(nodes)[i as int] as int) * nc <= usize::MAX));
                }
                return None;
            },
        }
        i += 1;
    }
    Some(out)
}


// ---------------------------------------------------------------- instruments

/// The `Instrument` elements of `Instruments`.
pub open spec fn instrument_nodes(nodes: Seq<XmlNode>) -> Seq<usize> {
    match child_of(nodes, root_of(nodes), "Instruments"@) {
        Some(l) => children_named(nodes, l as int, "Instrument"@),
        None => Seq::empty(),
    }
}

pub open spec fn generator_of(nodes: Seq<XmlNode>, inst: int) -> Option<usize> {
    child_of(nodes, Some(inst as usize), "SampleGenerator"@)
}

/// The `Sample` elements of an instrument's `SampleGenerator/Samples`.
pub open spec fn sample_nodes(nodes: Seq<XmlNode>, inst: int) -> Seq<usize> {
    match child_of(nodes, generator_of(nodes, inst), "Samples"@) {
        Some(s) => children_named(nodes, s as int, "Sample"@),
        None => Seq::empty(),
    }
}

/// `o`'s text, else the empty text.
pub open spec fn text_or_empty(o: Option<Seq<char>>) -> Seq<char> {
    match o {
        Some(t) => t,
        None => Seq::empty(),
    }
}

/// The loop mode a `LoopMode` text names: `Forward` and `Backward` loop forward, `PingPong`
/// ping-pongs, anything else is off.
pub open spec fn loop_mode_of(t: Option<Seq<char>>) -> LoopMode {
    match t {
        Some(m) => if m == "Forward"@ || m == "Backward"@ {
            LoopMode::Forward
        } else if m == "PingPong"@ {
            LoopMode::PingPong
        } else {
            LoopMode::Off
        },
        None => LoopMode::Off,
    }
}

/// The sample read from `Sample` element `s`: name, loop points and mode, finetune and
/// transpose, and the mapping's base note (48 when not given); everything else as a new
/// sample has it.
pub open spec fn sample_matches(nodes: Seq<XmlNode>, s: int, r: SampleData) -> bool {
    let o = Some(s as usize);
    &&& r.name@ == text_or_empty(child_text(nodes, o, "Name"@))
    &&& r.loop_start == or_default(child_int(nodes, o, "LoopStart"@, 0, u32::MAX as int), 0)
    &&& r.loop_end == or_default(child_int(nodes, o, "LoopEnd"@, 0, u32::MAX as int), 0)
    &&& r.loop_mode == loop_mode_of(child_text(nodes, o, "LoopMode"@))
    &&& r.fine_tune == or_default(child_int(nodes, o, "FineTune"@, -128, 127), 0)
    &&& r.transpose == or_default(child_int(nodes, o, "Transpose"@, -128, 127), 0)
    &&& r.rel_note_number == or_default(child_int(nodes, child_of(nodes, o, "Mapping"@), "BaseNote"@, -128, 127), 48)
    &&& r.default_volume == 64
    &&& r.sample_freq == crate::model::SampleFreqMode::Low
    &&& r.sinc_interpolation_points == 2
    &&& r.header_panning == 0
    &&& !r.column_volume.needs_scaling
    &&& r.column_volume.scaled@.len() == 0
    &&& r.column_volume.trigger_scaled == 0
}

/// The key map after sample `s` (the `si`-th) maps its note range: every note from the
/// mapping's `NoteStart` (0 when not given) to its `NoteEnd` (119 when not given), both capped
/// at 119, that no earlier sample took goes to slot `si` (while the slot fits a byte).
pub open spec fn map_sample(nodes: Seq<XmlNode>, km: Seq<Option<u8>>, s: int, si: int) -> Seq<Option<u8>> {
    match child_of(nodes, Some(s as usize), "Mapping"@) {
        Some(m) => {
            let a = or_default(child_int(nodes, Some(m), "NoteStart"@, 0, usize_max()), 0);
            let b = or_default(child_int(nodes, Some(m), "NoteEnd"@, 0, usize_max()), 119);
            let start = if a < 119 { a } else { 119 };
            let end = if b < 119 { b } else { 119 };
            Seq::new(120, |k: int| if start <= k <= end && km[k] is None && si < 256 { Some(si as u8) } else { km[k] })
        },
        None => km,
    }
}

/// The key map after the first `n` samples `ss` map their ranges, from an empty one.
pub open spec fn key_map_after(nodes: Seq<XmlNode>, ss: Seq<usize>, n: int) -> Seq<Option<u8>>
    decreases n,
{
    if n <= 0 {
        Seq::new(120, |k: int| None)
    } else {
        map_sample(nodes, key_map_after(nodes, ss, n - 1), ss[n - 1] as int, n - 1)
    }
}

/// An instrument envelope as `Song.xml` holds it, its decimal positions as text.
pub struct EnvelopeXml {
    pub enabled: bool,
    /// The `x,y,curve` text of every point.
    pub points: Vec<String>,
    pub fade_out: u16,
    pub sustain_enabled: bool,
    pub sustain_pos: Option<String>,
    pub loop_enabled: bool,
    pub loop_start: Option<String>,
    pub loop_end: Option<String>,
}

/// A sample's volume and panning factors as text.
pub struct SampleXml {
    pub volume: Option<String>,
    pub panning: Option<String>,
}

/// What `Song.xml` gives of an instrument beyond [`InstrumentData`]: its envelopes (none
/// without a sample generator) and its samples' decimal values.
pub struct InstrumentXml {
    pub volume_envelope: Option<EnvelopeXml>,
    pub panning_envelope: Option<EnvelopeXml>,
    pub samples: Vec<SampleXml>,
}

/// A song read from `Song.xml`, with the decimal values of its instruments as text, and the
/// text of its tempo (which Renoise may write with decimals; the song's `initial_bpm` holds it
/// only when it is a whole number).
pub struct SongXml {
    pub song: SongData,
    pub instruments: Vec<InstrumentXml>,
    pub bpm_text: Option<String>,
}

/// The devices among `ds` whose `Target` is `target`.
pub open spec fn targeted(nodes: Seq<XmlNode>, ds: Seq<usize>, target: Seq<char>) -> Seq<usize>
    decreases ds.len(),
{
    if ds.len() == 0 {
        Seq::empty()
    } else {
        let k = targeted(nodes, ds.drop_last(), target);
        if child_text(nodes, Some(ds.last()), "Target"@) == Some(target) { k.push(ds.last()) } else { k }
    }
}

/// The first envelope device of a sample generator for `target` (`Volume` or `Panning`).
pub open spec fn envelope_device(nodes: Seq<XmlNode>, generator: Option<usize>, target: Seq<char>) -> Option<usize> {
    let devices = child_of(nodes, child_of(nodes, child_of(nodes, generator, "ModulationSets"@), "ModulationSet"@), "Devices"@);
    let ds = match devices {
        Some(d) => children_named(nodes, d as int, "SampleCompatibilityModulationDevice"@),
        None => Seq::empty(),
    };
    let t = targeted(nodes, ds, target);
    if t.len() > 0 { Some(t[0]) } else { None }
}

/// The texts of the points among `ps` that have text.
pub open spec fn point_texts(nodes: Seq<XmlNode>, ps: Seq<usize>) -> Seq<Seq<char>>
    decreases ps.len(),
{
    if ps.len() == 0 {
        Seq::empty()
    } else {
        let k = point_texts(nodes, ps.drop_last());
        match node_text(nodes, ps.last() as int) {
            Some(t) => k.push(t),
            None => k,
        }
    }
}

/// The envelope read from device `d` (all off and empty without one).
pub open spec fn envelope_matches(nodes: Seq<XmlNode>, d: Option<usize>, e: EnvelopeXml) -> bool {
    let ps = match child_of(nodes, child_of(nodes, d, "EnvelopeNodes"@), "Points"@) {
        Some(p) => children_named(nodes, p as int, "Point"@),
        None => Seq::empty(),
    };
    &&& e.enabled == child_flag(nodes, d, "EnvelopeIsActive"@)
    &&& e.points@.map_values(|t: String| t@) == point_texts(nodes, ps)
    &&& e.fade_out == or_default(child_int(nodes, child_of(nodes, d, "EnvelopeDecay"@), "Value"@, 0, 65535), 0)
    &&& e.sustain_enabled == child_flag(nodes, d, "EnvelopeSustainIsActive"@)
    &&& opt_view(e.sustain_pos) == child_text(nodes, d, "EnvelopeSustainPos"@)
    &&& e.loop_enabled == (child_text(nodes, d, "EnvelopeLoopMode"@) matches Some(m) && m != "Off"@)
    &&& opt_view(e.loop_start) == child_text(nodes, d, "EnvelopeLoopStart"@)
    &&& opt_view(e.loop_end) == child_text(nodes, d, "EnvelopeLoopEnd"@)
}

/// The instrument read from `Instrument` element `inst`, with what is beside it.
pub open spec fn instrument_matches(nodes: Seq<XmlNode>, inst: int, r: InstrumentData, x: InstrumentXml) -> bool {
    let ss = sample_nodes(nodes, inst);
    let g = generator_of(nodes, inst);
    &&& r.name@ == text_or_empty(child_text(nodes, Some(inst as usize), "Name"@))
    &&& r.key_map@ == key_map_after(nodes, ss, ss.len() as int)
    &&& r.volume_envelope.is_empty()
    &&& r.panning_envelope.is_empty()
    &&& r.samples@.len() == ss.len()
    &&& x.samples@.len() == ss.len()
    &&& forall|i: int| 0 <= i < ss.len() ==> #[trigger] sample_matches(nodes, ss[i] as int, r.samples@[i])
        && opt_view(x.samples@[i].volume) == child_text(nodes, Some(ss[i]), "Volume"@)
        && opt_view(x.samples@[i].panning) == child_text(nodes, Some(ss[i]), "Panning"@)
    &&& (g is None ==> x.volume_envelope is None && x.panning_envelope is None)
    &&& (g is Some ==> (x.volume_envelope matches Some(e) && envelope_matches(nodes, envelope_device(nodes, g, "Volume"@), e)))
    &&& (g is Some ==> (x.panning_envelope matches Some(e) && envelope_matches(nodes, envelope_device(nodes, g, "Panning"@), e)))
}


/// Reads `Sample` element `s` (see [`sample_matches`]).
fn read_sample(doc: &XmlDoc, s: usize) -> (r: SampleData)
    requires
        doc.wf(),
        s < doc.nodes@.len(),
    ensures
        sample_matches(doc.nodes@, s as int, r),
{
    let o = Some(s);
    let mapping = doc.child(o, "Mapping");
    let name = match doc.child_text(o, "Name") {
        Some(t) => t,
        None => String::new(),
    };
    let loop_mode = match doc.child_text(o, "LoopMode") {
        Some(m) => if str_is(&m, "Forward") || str_is(&m, "Backward") {
            LoopMode::Forward
        } else if str_is(&m, "PingPong") {
            LoopMode::PingPong
        } else {
            LoopMode::Off
        },
        None => LoopMode::Off,
    };
    let loop_start = match doc.child_int(o, "LoopStart", 0, u32::MAX as i128) { Some(v) => v as u32, None => 0 };
    let loop_end = match doc.child_int(o, "LoopEnd", 0, u32::MAX as i128) { Some(v) => v as u32, None => 0 };
    let fine_tune = match doc.child_int(o, "FineTune", -128, 127) { Some(v) => v as i8, None => 0 };
    let transpose = match doc.child_int(o, "Transpose", -128, 127) { Some(v) => v as i8, None => 0 };
    let base_note = match doc.child_int(mapping, "BaseNote", -128, 127) { Some(v) => v as i8, None => 48 };
    let base = SampleData::new();
    SampleData { name, loop_start, loop_end, loop_mode, fine_tune, transpose, rel_note_number: base_note, ..base }
}

/// Maps the note range of sample `s` (the `si`-th) into the key map (see [`map_sample`]).
fn map_sample_notes(doc: &XmlDoc, km: &mut [Option<u8>; 120], s: usize, si: usize)
    requires
        doc.wf(),
        s < doc.nodes@.len(),
    ensures
        final(km)@ == map_sample(doc.nodes@, old(km)@, s as int, si as int),
{
    let ghost before = km@;
    match doc.child(Some(s), "Mapping") {
        Some(m) => {
            let a = match doc.child_int(Some(m), "NoteStart", 0, usize::MAX as i128) { Some(v) => v, None => 0 };
            let b = match doc.child_int(Some(m), "NoteEnd", 0, usize::MAX as i128) { Some(v) => v, None => 119 };
            let start: usize = if a < 119 { a as usize } else { 119 };
            let end: usize = if b < 119 { b as usize } else { 119 };
            let mut k: usize = start;
            while k <= end
                invariant
                    start <= k <= 120,
                    k == start || k <= end + 1,
                    end <= 119,
                    km@.len() == 120,
                    forall|j: int| 0 <= j < 120 ==> #[trigger] km@[j] ==
                        if start <= j < k && before[j] is None && si < 256 { Some(si as u8) } else { before[j] },
                decreases end + 1 - k,
            {
                if km[k].is_none() && si < 256 {
                    km.set(k, Some(si as u8));
                }
                k += 1;
            }
            proof {
                assert(km@ =~= map_sample(doc.nodes@, before, s as int, si as int));
            }
        },
        None => {},
    }
}

/// The points among `ps` that have text, as text (see [`point_texts`]).
fn read_points(doc: &XmlDoc, ps: &Vec<usize>) -> (r: Vec<String>)
    requires
        forall|k: int| 0 <= k < ps@.len() ==> #[trigger] ps@[k] < doc.nodes@.len(),
    ensures
        r@.map_values(|t: String| t@) == point_texts(doc.nodes@, ps@),
{
    let mut out: Vec<String> = Vec::new();
    let mut i: usize = 0;
    while i < ps.len()
        invariant
            i <= ps@.len(),
            forall|k: int| 0 <= k < ps@.len() ==> #[trigger] ps@[k] < doc.nodes@.len(),
            out@.map_values(|t: String| t@) == point_texts(doc.nodes@, ps@.take(i as int)),
        decreases ps@.len() - i,
    {
        proof {
            assert(ps@.take(i + 1).drop_last() =~= ps@.take(i as int));
        }
        let ghost before = out@;
        match doc.text_of(ps[i]) {
            Some(t) => {
                out.push(t);
                proof {
                    assert(out@.map_values(|t: String| t@) =~= before.map_values(|t: String| t@).push(out@.last()@));
                }
            },
            None => {},
        }
        i += 1;
    }
    proof {
        assert(ps@.take(i as int) =~= ps@);
    }
    out
}

/// The first envelope device of `generator` for `target` (see [`envelope_device`]).
fn find_envelope_device(doc: &XmlDoc, generator: Option<usize>, target: &str) -> (r: Option<usize>)
    requires
        doc.wf(),
        generator matches Some(g) ==> g < doc.nodes@.len(),
    ensures
        r == envelope_device(doc.nodes@, generator, target@),
        r matches Some(d) ==> d < doc.nodes@.len(),
{
    let ghost nodes = doc.nodes@;
    let sets = doc.child(generator, "ModulationSets");
    let set = doc.child(sets, "ModulationSet");
    let ds = match doc.child(set, "Devices") {
        Some(d) => doc.named_children(d, "SampleCompatibilityModulationDevice"),
        None => Vec::new(),
    };
    assert(ds@ == match child_of(nodes, child_of(nodes, child_of(nodes, generator, "ModulationSets"@), "ModulationSet"@), "Devices"@) {
        Some(d) => children_named(nodes, d as int, "SampleCompatibilityModulationDevice"@),
        None => Seq::<usize>::empty(),
    });
    let mut i: usize = 0;
    while i < ds.len()
        invariant
            doc.wf(),
            nodes == doc.nodes@,
            i <= ds@.len(),
            forall|k: int| 0 <= k < ds@.len() ==> #[trigger] ds@[k] < nodes.len(),
            targeted(nodes, ds@.take(i as int), target@).len() == 0,
            ds@ == match child_of(nodes, child_of(nodes, child_of(nodes, generator, "ModulationSets"@), "ModulationSet"@), "Devices"@) {
                Some(d) => children_named(nodes, d as int, "SampleCompatibilityModulationDevice"@),
                None => Seq::<usize>::empty(),
            },
        decreases ds@.len() - i,
    {
        proof {
            assert(ds@.take(i + 1).drop_last() =~= ds@.take(i as int));
        }
        let matches = match doc.child_text(Some(ds[i]), "Target") {
            Some(t) => crate::xml::str_eq(t.as_str(), target),
            None => false,
        };
        if matches {
            proof {
                assert(targeted(nodes, ds@.take(i + 1), target@) =~= seq![ds@[i as int]]);
                lemma_targeted_prefix(nodes, ds@, target@, i + 1);
            }
            return Some(ds[i]);
        }
        i += 1;
    }
    proof {
        assert(ds@.take(i as int) =~= ds@);
    }
    None
}

proof fn lemma_targeted_prefix(nodes: Seq<XmlNode>, ds: Seq<usize>, target: Seq<char>, m: int)
    requires
        0 < m <= ds.len(),
        targeted(nodes, ds.take(m), target).len() > 0,
    ensures
        targeted(nodes, ds, target).len() > 0,
        targeted(nodes, ds, target)[0] == targeted(nodes, ds.take(m), target)[0],
    decreases ds.len() - m,
{
    if m < ds.len() {
        assert(ds.take(m + 1).drop_last() =~= ds.take(m));
        let a = targeted(nodes, ds.take(m), target);
        let b = targeted(nodes, ds.take(m + 1), target);
        assert(b.len() > 0 && b[0] == a[0]);
        lemma_targeted_prefix(nodes, ds, target, m + 1);
    } else {
        assert(ds.take(m) =~= ds);
    }
}

/// Reads the envelope of device `d` (see [`envelope_matches`]).
fn read_envelope(doc: &XmlDoc, d: Option<usize>) -> (r: EnvelopeXml)
    requires
        doc.wf(),
        d matches Some(k) ==> k < doc.nodes@.len(),
    ensures
        envelope_matches(doc.nodes@, d, r),
{
    let env_nodes = doc.child(d, "EnvelopeNodes");
    let ps = match doc.child(env_nodes, "Points") {
        Some(p) => doc.named_children(p, "Point"),
        None => Vec::new(),
    };
    let points = read_points(doc, &ps);
    let decay = doc.child(d, "EnvelopeDecay");
    let fade_out = match doc.child_int(decay, "Value", 0, 65535) { Some(v) => v as u16, None => 0 };
    let loop_enabled = match doc.child_text(d, "EnvelopeLoopMode") {
        Some(m) => !str_is(&m, "Off"),
        None => false,
    };
    EnvelopeXml {
        enabled: doc.child_flag(d, "EnvelopeIsActive"),
        points,
        fade_out,
        sustain_enabled: doc.child_flag(d, "EnvelopeSustainIsActive"),
        sustain_pos: doc.child_text(d, "EnvelopeSustainPos"),
        loop_enabled,
        loop_start: doc.child_text(d, "EnvelopeLoopStart"),
        loop_end: doc.child_text(d, "EnvelopeLoopEnd"),
    }
}

/// Reads `Instrument` element `inst` (see [`instrument_matches`]).
fn read_instrument(doc: &XmlDoc, inst: usize) -> (r: (InstrumentData, InstrumentXml))
    requires
        doc.wf(),
        inst < doc.nodes@.len(),
    ensures
        instrument_matches(doc.nodes@, inst as int, r.0, r.1),
{
    let ghost nodes = doc.nodes@;
    let mut instrument = InstrumentData::default();
    instrument.name = match doc.child_text(Some(inst), "Name") {
        Some(t) => t,
        None => String::new(),
    };
    let generator = doc.child(Some(inst), "SampleGenerator");
    let (volume_envelope, panning_envelope) = match generator {
        Some(_) => {
            let vd = find_envelope_device(doc, generator, "Volume");
            let pd = find_envelope_device(doc, generator, "Panning");
            (Some(read_envelope(doc, vd)), Some(read_envelope(doc, pd)))
        },
        None => (None, None),
    };
    let ss = match doc.child(generator, "Samples") {
        Some(sn) => doc.named_children(sn, "Sample"),
        None => Vec::new(),
    };
    assert(ss@ == sample_nodes(nodes, inst as int));
    assert(instrument.key_map@ =~= key_map_after(nodes, ss@, 0));
    let mut extra: Vec<SampleXml> = Vec::new();
    let mut i: usize = 0;
    while i < ss.len()
        invariant
            doc.wf(),
            nodes == doc.nodes@,
            ss@ == sample_nodes(nodes, inst as int),
            i <= ss@.len(),
            forall|k: int| 0 <= k < ss@.len() ==> #[trigger] ss@[k] < nodes.len(),
            instrument.key_map@ == key_map_after(nodes, ss@, i as int),
            instrument.name@ == text_or_empty(child_text(nodes, Some(inst), "Name"@)),
            instrument.volume_envelope.is_empty(),
            instrument.panning_envelope.is_empty(),
            instrument.samples@.len() == i,
            extra@.len() == i,
            forall|j: int| 0 <= j < i ==> #[trigger] sample_matches(nodes, ss@[j] as int, instrument.samples@[j]),
            forall|j: int| 0 <= j < i ==> opt_view(#[trigger] extra@[j].volume) == child_text(nodes, Some(ss@[j]), "Volume"@)
                && opt_view(extra@[j].panning) == child_text(nodes, Some(ss@[j]), "Panning"@),
        decreases ss@.len() - i,
    {
        let s = ss[i];
        let sample = read_sample(doc, s);
        let volume = doc.child_text(Some(s), "Volume");
        let panning = doc.child_text(Some(s), "Panning");
        map_sample_notes(doc, &mut instrument.key_map, s, i);
        let ghost before_s = instrument.samples@;
        let ghost before_x = extra@;
        instrument.samples.push(sample);
        extra.push(SampleXml { volume, panning });
        proof {
            assert(sample_matches(nodes, ss@[i as int] as int, instrument.samples@[i as int]));
            assert forall|j: int| 0 <= j < i + 1 implies #[trigger] sample_matches(nodes, ss@[j] as int, instrument.samples@[j]) by {
                if j < i {
                    assert(instrument.samples@[j] == before_s[j]);
                }
            }
            assert forall|j: int| 0 <= j < i + 1 implies opt_view(#[trigger] extra@[j].volume) == child_text(nodes, Some(ss@[j]), "Volume"@)
                && opt_view(extra@[j].panning) == child_text(nodes, Some(ss@[j]), "Panning"@) by {
                if j < i {
                    assert(extra@[j] == before_x[j]);
                }
            }
        }
        i += 1;
    }
    (instrument, InstrumentXml { volume_envelope, panning_envelope, samples: extra })
}


/// Reads every instrument (see [`instrument_matches`]).
fn read_instruments(doc: &XmlDoc, root: Option<usize>) -> (r: (Vec<InstrumentData>, Vec<InstrumentXml>))
    requires
        doc.wf(),
        root == root_of(doc.nodes@),
        root matches Some(k) ==> k < doc.nodes@.len(),
    ensures
        r.0@.len() == instrument_nodes(doc.nodes@).len(),
        r.1@.len() == instrument_nodes(doc.nodes@).len(),
        forall|i: int| 0 <= i < r.0@.len() ==> #[trigger] instrument_matches(doc.nodes@, instrument_nodes(doc.nodes@)[i] as int,
            r.0@[i], r.1@[i]),
{
    let ghost nodes = doc.nodes@;
    let is = match doc.child(root, "Instruments") {
        Some(l) => doc.named_children(l, "Instrument"),
        None => Vec::new(),
    };
    assert(is@ == instrument_nodes(nodes));
    let mut out: Vec<InstrumentData> = Vec::new();
    let mut extra: Vec<InstrumentXml> = Vec::new();
    let mut i: usize = 0;
    while i < is.len()
        invariant
            doc.wf(),
            nodes == doc.nodes@,
            is@ == instrument_nodes(nodes),
            i <= is@.len(),
            forall|k: int| 0 <= k < is@.len() ==> #[trigger] is@[k] < nodes.len(),
            out@.len() == i,
            extra@.len() == i,
            forall|j: int| 0 <= j < i ==> #[trigger] instrument_matches(nodes, is@[j] as int, out@[j], extra@[j]),
        decreases is@.len() - i,
    {
        let (instrument, x) = read_instrument(doc, is[i]);
        let ghost before_o = out@;
        let ghost before_x = extra@;
        out.push(instrument);
        extra.push(x);
        proof {
            assert forall|j: int| 0 <= j < i + 1 implies #[trigger] instrument_matches(nodes, is@[j] as int, out@[j], extra@[j]) by {
                if j < i {
                    assert(out@[j] == before_o[j]);
                    assert(extra@[j] == before_x[j]);
                }
            }
        }
        i += 1;
    }
    (out, extra)
}

// ---------------------------------------------------------------- the song

/// The song's channel count and every pattern's cell count fit a `usize`.
pub open spec fn song_fits(nodes: Seq<XmlNode>) -> bool {
    song_channels(nodes) <= usize_max() && patterns_fit(nodes, song_channels(nodes))
}

/// `x` is the song `Song.xml` describes: the settings of `GlobalSongData` (defaults: 125 beats
/// per minute, 4 lines per beat, 6 ticks per line, engine version 0, compatibility modes off),
/// the pattern sequence and restart position, the channels of all tracks' note columns, at
/// most one master column, every pattern and every instrument.
pub open spec fn song_matches(nodes: Seq<XmlNode>, x: SongXml) -> bool {
    let g = global_of(nodes);
    let s = x.song;
    let ps = pattern_nodes(nodes);
    let is = instrument_nodes(nodes);
    &&& s.name@ == text_or_empty(child_text(nodes, g, "SongName"@))
    &&& s.restart_position == or_default(child_int(nodes, child_of(nodes, sequence_of(nodes), "LoopSelection"@), "CursorPos"@, 0, 65535), 0)
    &&& s.num_channels == song_channels(nodes)
    &&& s.num_master_track_columns == song_master_columns(nodes)
    &&& s.initial_bpm == or_default(child_int(nodes, g, "BeatsPerMin"@, 0, u32::MAX as int), 125)
    &&& opt_view(x.bpm_text) == child_text(nodes, g, "BeatsPerMin"@)
    &&& s.lines_per_beat == or_default(child_int(nodes, g, "LinesPerBeat"@, 0, u32::MAX as int), 4)
    &&& s.ticks_per_line == or_default(child_int(nodes, g, "TicksPerLine"@, 0, u32::MAX as int), 6)
    &&& s.sample_offset_compatibility_mode == child_flag(nodes, g, "SampleOffsetCompatibilityMode"@)
    &&& s.pitch_compatibility_mode == child_flag(nodes, g, "PitchEffectsCompatibilityMode"@)
    &&& s.playback_engine_version == or_default(child_int(nodes, g, "PlaybackEngineVersion"@, i32::MIN as int, i32::MAX as int), 0)
    &&& s.pattern_order_table@ == order_values(nodes, sequence_entries(nodes))
    &&& s.patterns@.len() == ps.len()
    &&& forall|i: int| 0 <= i < ps.len() ==> #[trigger] pattern_matches(nodes, ps[i] as int,
        track_widths(nodes, song_tracks(nodes)), song_channels(nodes), song_master_columns(nodes), s.patterns@[i])
    &&& s.instruments@.len() == is.len()
    &&& x.instruments@.len() == is.len()
    &&& forall|i: int| 0 <= i < is.len() ==> #[trigger] instrument_matches(nodes, is[i] as int, s.instruments@[i], x.instruments@[i])
}

/// The error for a document whose root element is not `RenoiseSong`, for more note columns
/// than a `usize` counts, or for a pattern with more cells than that.
pub open spec fn song_error(nodes: Seq<XmlNode>, e: Error) -> bool {
    e matches Error::MalformedSong(m) && m@ == if !is_song_root(nodes) {
        "the root element is not RenoiseSong"@
    } else if song_channels(nodes) > usize_max() {
        "the tracks have more note columns than a usize counts"@
    } else {
        "a pattern has more cells than a usize counts"@
    }
}

/// Reads the song a parsed `Song.xml` describes. Refuses a document whose root element is not
/// `RenoiseSong`, and sizes no `usize` can count.
pub fn song_from_xml(doc: &XmlDoc) -> (r: Result<SongXml, Error>)
    requires
        doc.wf(),
    ensures
        r is Ok <==> is_song_root(doc.nodes@) && song_fits(doc.nodes@),
        r matches Ok(x) ==> song_matches(doc.nodes@, x),
        r matches Err(e) ==> song_error(doc.nodes@, e),
{
    let ghost nodes = doc.nodes@;
    let root = doc.root_element();
    let is_song = match root {
        Some(k) => str_is(&doc.nodes[k].name, "RenoiseSong"),
        None => false,
    };
    if !is_song {
        return Err(Error::MalformedSong("the root element is not RenoiseSong".to_owned()));
    }
    let global = doc.child(root, "GlobalSongData");
    let (widths, master_columns) = read_track_layout(doc, root);
    let num_channels = match sum_widths(&widths) {
        Some(n) => n,
        None => return Err(Error::MalformedSong("the tracks have more note columns than a usize counts".to_owned())),
    };
    let nmc: usize = if master_columns < 1 { master_columns } else { 1 };
    let patterns = match read_patterns(doc, root, &widths, num_channels, nmc) {
        Some(ps) => ps,
        None => return Err(Error::MalformedSong("a pattern has more cells than a usize counts".to_owned())),
    };
    let (instruments, instrument_extras) = read_instruments(doc, root);
    let name = match doc.child_text(global, "SongName") {
        Some(t) => t,
        None => String::new(),
    };
    let sequence = doc.child(root, "PatternSequence");
    let loop_selection = doc.child(sequence, "LoopSelection");
    let restart_position = match doc.child_int(loop_selection, "CursorPos", 0, 65535) { Some(v) => v as u16, None => 0 };
    let initial_bpm = match doc.child_int(global, "BeatsPerMin", 0, u32::MAX as i128) { Some(v) => v as u32, None => 125 };
    let lines_per_beat = match doc.child_int(global, "LinesPerBeat", 0, u32::MAX as i128) { Some(v) => v as u32, None => 4 };
    let ticks_per_line = match doc.child_int(global, "TicksPerLine", 0, u32::MAX as i128) { Some(v) => v as u32, None => 6 };
    let playback_engine_version = match doc.child_int(global, "PlaybackEngineVersion", i32::MIN as i128, i32::MAX as i128) {
        Some(v) => v as i32,
        None => 0,
    };
    let song = SongData {
        name,
        restart_position,
        num_channels,
        num_master_track_columns: nmc,
        initial_bpm,
        lines_per_beat,
        ticks_per_line,
        sample_offset_compatibility_mode: doc.child_flag(global, "SampleOffsetCompatibilityMode"),
        pitch_compatibility_mode: doc.child_flag(global, "PitchEffectsCompatibilityMode"),
        playback_engine_version,
        pattern_order_table: read_order(doc, root),
        patterns,
        instruments,
    };
    let bpm_text = doc.child_text(global, "BeatsPerMin");
    Ok(SongXml { song, instruments: instrument_extras, bpm_text })
}

/// Parses the text of `Song.xml` (see [`crate::xml::xml_nodes`]) and reads the song it
/// describes (see [`song_from_xml`]).
pub fn read_song_xml(text: &str) -> (r: Result<SongXml, Error>)
    ensures
        crate::xml::xml_nodes(text@) is None ==> (r matches Err(e) && e is Xml),
        crate::xml::xml_nodes(text@) matches Some(nodes) ==> {
            &&& r is Ok <==> is_song_root(nodes) && song_fits(nodes)
            &&& r matches Ok(x) ==> song_matches(nodes, x)
            &&& r matches Err(e) ==> song_error(nodes, e)
        },
{
    let nodes = match parse_xml(text) {
        Ok(n) => n,
        Err(e) => return Err(e),
    };
    let doc = XmlDoc::new(nodes);
    song_from_xml(&doc)
}

} // verus!

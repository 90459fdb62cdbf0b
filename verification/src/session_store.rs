//! The session archive: the records a finished session leaves, their file names and
//! identifiers, and the two text forms they are written in (the archived Markdown and the
//! plain transcript a user exports).

use crate::text::{
    chars_of, control, decimal2, decimal2_string, is_control, join_strings, joined, push_char,
    push_str, str_eq, to_owned, trim, trim_str, views, starts_with_str,
};
use crate::timestamps::{local_minutes_of_rfc3339, parses_as_rfc3339};
use vstd::prelude::*;

verus! {

/// The longest title a session may be renamed to, in characters.
pub const MAX_TITLE_CHARS: usize = 120;

/// One archived turn.
pub struct Segment {
    pub ts: String,
    pub src: String,
    pub tgt: String,
    pub route_id: String,
    pub engine: String,
    pub source_lang: String,
    pub target_lang: String,
}

pub struct Chunk {
    pub started_at: String,
    pub ended_at: Option<String>,
    pub segments: Vec<Segment>,
}

pub struct SessionRoute {
    pub id: String,
    pub input: String,
    pub engine: String,
    pub model: String,
    pub source_lang: String,
    pub target_lang: String,
}

pub struct SessionData {
    pub schema_version: u32,
    pub id: String,
    pub created_at: String,
    pub ended_at: Option<String>,
    pub title: String,
    pub engine: String,
    pub source_lang: String,
    pub target_lang: String,
    pub duration_sec: u64,
    pub routes: Vec<SessionRoute>,
    pub chunks: Vec<Chunk>,
}

pub struct SegmentView {
    pub ts: Seq<char>,
    pub src: Seq<char>,
    pub tgt: Seq<char>,
    pub route_id: Seq<char>,
    pub engine: Seq<char>,
    pub source_lang: Seq<char>,
    pub target_lang: Seq<char>,
}

impl View for Segment {
    type V = SegmentView;

    open spec fn view(&self) -> SegmentView {
        SegmentView {
            ts: self.ts@,
            src: self.src@,
            tgt: self.tgt@,
            route_id: self.route_id@,
            engine: self.engine@,
            source_lang: self.source_lang@,
            target_lang: self.target_lang@,
        }
    }
}

pub struct SessionRouteView {
    pub id: Seq<char>,
    pub input: Seq<char>,
    pub engine: Seq<char>,
    pub model: Seq<char>,
    pub source_lang: Seq<char>,
    pub target_lang: Seq<char>,
}

impl View for SessionRoute {
    type V = SessionRouteView;

    open spec fn view(&self) -> SessionRouteView {
        SessionRouteView {
            id: self.id@,
            input: self.input@,
            engine: self.engine@,
            model: self.model@,
            source_lang: self.source_lang@,
            target_lang: self.target_lang@,
        }
    }
}

pub open spec fn segment_views(s: Seq<Segment>) -> Seq<SegmentView> {
    s.map_values(|x: Segment| x@)
}

pub open spec fn session_route_views(s: Seq<SessionRoute>) -> Seq<SessionRouteView> {
    s.map_values(|x: SessionRoute| x@)
}

/// What the session list shows of one record.
pub struct SessionListItem {
    pub id: String,
    pub title: String,
    pub created_at: String,
    pub duration_sec: u64,
}

/// Which side of each turn an export keeps.
#[derive(Clone, Copy, Debug, PartialEq, Eq, Structural)]
pub enum ExportMode {
    Source,
    Target,
    Both,
}

/// Route names from the interface catalog, so exports follow the selected language.
pub struct RouteLabels {
    pub system: String,
    pub microphone: String,
}

/// A record read back: its Markdown and its data.
pub struct SessionReadResult {
    pub md: String,
    pub json: SessionData,
}

/// The label a route is shown under: the catalog's name for it, or its stored identifier
/// where the catalog has none.
pub open spec fn label_name(system: Seq<char>, microphone: Seq<char>, route_id: Seq<char>) -> Seq<
    char,
> {
    let label = if route_id == "microphone"@ {
        microphone
    } else {
        system
    };
    if label.len() == 0 {
        route_id
    } else {
        label
    }
}

impl RouteLabels {
    pub fn new() -> (r: Self)
        ensures
            r.system@.len() == 0,
            r.microphone@.len() == 0,
    {
        RouteLabels { system: String::new(), microphone: String::new() }
    }

    pub fn name<'a>(&'a self, route_id: &'a str) -> (r: &'a str)
        ensures
            r@ == label_name(self.system@, self.microphone@, route_id@),
    {
        proof {
            reveal_strlit("microphone");
        }
        let label = if str_eq(route_id, "microphone") {
            self.microphone.as_str()
        } else {
            self.system.as_str()
        };
        if label.is_empty() {
            route_id
        } else {
            label
        }
    }
}

/// The sides of a turn an export keeps: a side is dropped when the mode leaves it out or
/// when it is empty.
pub open spec fn side(text: Seq<char>, kept: bool) -> Option<Seq<char>> {
    if kept && text.len() > 0 {
        Some(text)
    } else {
        None
    }
}

pub open spec fn source_side(s: Segment, mode: ExportMode) -> Option<Seq<char>> {
    side(s.src@, !(mode is Target))
}

pub open spec fn target_side(s: Segment, mode: ExportMode) -> Option<Seq<char>> {
    side(s.tgt@, !(mode is Source))
}

pub open spec fn opt_line(o: Option<Seq<char>>) -> Seq<Seq<char>> {
    match o {
        Some(t) => seq![t],
        None => Seq::empty(),
    }
}

pub open spec fn opt_str_view(o: Option<&str>) -> Option<Seq<char>> {
    match o {
        Some(t) => Some(t@),
        None => None,
    }
}

pub fn sides(segment: &Segment, mode: ExportMode) -> (r: (Option<&str>, Option<&str>))
    ensures
        opt_str_view(r.0) == source_side(*segment, mode),
        opt_str_view(r.1) == target_side(*segment, mode),
{
    let source = match mode {
        ExportMode::Target => None,
        _ => if segment.src.as_str().is_empty() {
            None
        } else {
            Some(segment.src.as_str())
        },
    };
    let target = match mode {
        ExportMode::Source => None,
        _ => if segment.tgt.as_str().is_empty() {
            None
        } else {
            Some(segment.tgt.as_str())
        },
    };
    (source, target)
}

/// Seconds as `HH:MM:SS`; the hours keep counting past 99.
pub open spec fn spec_elapsed_label(seconds: nat) -> Seq<char> {
    decimal2(seconds / 3600) + seq![':'] + decimal2(seconds % 3600 / 60) + seq![':'] + decimal2(
        seconds % 60,
    )
}

pub fn elapsed_label(seconds: u64) -> (r: String)
    ensures
        r@ == spec_elapsed_label(seconds as nat),
{
    let mut out = decimal2_string(seconds / 3600);
    push_char(&mut out, ':');
    let minutes = decimal2_string(seconds % 3600 / 60);
    push_str(&mut out, minutes.as_str());
    push_char(&mut out, ':');
    let rest = decimal2_string(seconds % 60);
    push_str(&mut out, rest.as_str());
    out
}

/// Every segment of a record, chunk after chunk.
pub open spec fn all_segments(chunks: Seq<Chunk>) -> Seq<Segment>
    decreases chunks.len(),
{
    if chunks.len() == 0 {
        Seq::empty()
    } else {
        all_segments(chunks.drop_last()) + chunks.last().segments@
    }
}

/// One turn of the plain transcript: a time-stamped heading with the route's name, the
/// kept sides, and a blank line; nothing at all when no side is kept.
pub open spec fn transcript_block(s: Segment, mode: ExportMode, labels: RouteLabels) -> Seq<
    Seq<char>,
> {
    let source = source_side(s, mode);
    let target = target_side(s, mode);
    if source is None && target is None {
        Seq::empty()
    } else {
        seq![seq!['['] + s.ts@ + seq![']', ' '] + label_name(labels.system@, labels.microphone@, s.route_id@)]
            + opt_line(source) + opt_line(target) + seq![Seq::<char>::empty()]
    }
}

pub open spec fn transcript_blocks(segments: Seq<Segment>, mode: ExportMode, labels: RouteLabels) -> Seq<
    Seq<char>,
>
    decreases segments.len(),
{
    if segments.len() == 0 {
        Seq::empty()
    } else {
        transcript_blocks(segments.drop_last(), mode, labels) + transcript_block(
            segments.last(),
            mode,
            labels,
        )
    }
}

/// The separator between the local start time and the duration in a transcript header.
pub open spec fn header_separator() -> Seq<char> {
    seq![' ', '\u{b7}', ' ']
}

/// The plain transcript's lines, given the start time as it is to be shown.
pub open spec fn transcript_lines(
    data: SessionData,
    mode: ExportMode,
    labels: RouteLabels,
    stamp: Seq<char>,
) -> Seq<Seq<char>> {
    seq![
        data.title@,
        stamp + header_separator() + spec_elapsed_label(data.duration_sec as nat),
        Seq::<char>::empty(),
    ] + transcript_blocks(all_segments(data.chunks@), mode, labels)
}

/// One turn of the archived Markdown.
pub open spec fn markdown_block(s: Segment, mode: ExportMode) -> Seq<Seq<char>> {
    let source = source_side(s, mode);
    let target = target_side(s, mode);
    if source is None && target is None {
        Seq::empty()
    } else {
        seq![seq!['#', '#', ' '] + s.ts@ + header_separator() + s.route_id@, Seq::<char>::empty()]
            + opt_line(
            match source {
                Some(t) => Some(seq!['*', '*'] + s.source_lang@ + seq!['*', '*', ' ', ' '] + t),
                None => None,
            },
        ) + opt_line(
            match target {
                Some(t) => Some(seq!['*', '*'] + s.target_lang@ + seq!['*', '*', ' ', ' '] + t),
                None => None,
            },
        ) + seq![Seq::<char>::empty()]
    }
}

pub open spec fn markdown_blocks(segments: Seq<Segment>, mode: ExportMode) -> Seq<Seq<char>>
    decreases segments.len(),
{
    if segments.len() == 0 {
        Seq::empty()
    } else {
        markdown_blocks(segments.drop_last(), mode) + markdown_block(segments.last(), mode)
    }
}

pub open spec fn markdown_lines(data: SessionData, mode: ExportMode) -> Seq<Seq<char>> {
    seq![
        seq!['#', ' '] + data.title@,
        Seq::<char>::empty(),
        data.created_at@,
        Seq::<char>::empty(),
    ] + markdown_blocks(all_segments(data.chunks@), mode)
}

fn push_line(lines: &mut Vec<String>, line: String)
    ensures
        views(final(lines)@) == views(old(lines)@).push(line@),
{
    lines.push(line);
    proof {
        assert(views(lines@) =~= views(old(lines)@).push(line@));
    }
}

fn transcript_block_lines(
    lines: &mut Vec<String>,
    segment: &Segment,
    mode: ExportMode,
    labels: &RouteLabels,
)
    ensures
        views(final(lines)@) == views(old(lines)@) + transcript_block(*segment, mode, *labels),
{
    let (source, target) = sides(segment, mode);
    if source.is_none() && target.is_none() {
        proof {
            assert(views(lines@) =~= views(lines@) + Seq::<Seq<char>>::empty());
        }
        return;
    }
    let ghost start = views(lines@);
    let mut heading = String::new();
    push_char(&mut heading, '[');
    push_str(&mut heading, segment.ts.as_str());
    push_char(&mut heading, ']');
    push_char(&mut heading, ' ');
    push_str(&mut heading, labels.name(segment.route_id.as_str()));
    proof {
        assert(heading@ =~= seq!['['] + segment.ts@ + seq![']', ' '] + label_name(
            labels.system@,
            labels.microphone@,
            segment.route_id@,
        ));
    }
    push_line(lines, heading);
    let ghost after_heading = views(lines@);
    if let Some(text) = source {
        push_line(lines, to_owned(text));
    }
    let ghost after_source = views(lines@);
    if let Some(text) = target {
        push_line(lines, to_owned(text));
    }
    let ghost after_target = views(lines@);
    push_line(lines, String::new());
    proof {
        assert(after_source =~= after_heading + opt_line(source_side(*segment, mode)));
        assert(after_target =~= after_source + opt_line(target_side(*segment, mode)));
        assert(views(lines@) =~= start + transcript_block(*segment, mode, *labels));
    }
}

proof fn lemma_all_segments_step(chunks: Seq<Chunk>, i: int)
    requires
        0 <= i < chunks.len(),
    ensures
        all_segments(chunks.take(i + 1)) == all_segments(chunks.take(i)) + chunks[i].segments@,
{
    assert(chunks.take(i + 1).drop_last() =~= chunks.take(i));
}

proof fn lemma_transcript_blocks_push(
    segments: Seq<Segment>,
    s: Segment,
    mode: ExportMode,
    labels: RouteLabels,
)
    ensures
        transcript_blocks(segments.push(s), mode, labels) == transcript_blocks(
            segments,
            mode,
            labels,
        ) + transcript_block(s, mode, labels),
{
    assert(segments.push(s).drop_last() =~= segments);
}

proof fn lemma_markdown_blocks_push(segments: Seq<Segment>, s: Segment, mode: ExportMode)
    ensures
        markdown_blocks(segments.push(s), mode) == markdown_blocks(segments, mode)
            + markdown_block(s, mode),
{
    assert(segments.push(s).drop_last() =~= segments);
}

/// The plain transcript, with the start time given as it is to be shown.
pub fn render_transcript_stamped(
    data: &SessionData,
    mode: ExportMode,
    labels: &RouteLabels,
    stamp: &str,
) -> (r: String)
    ensures
        r@ == joined(transcript_lines(*data, mode, *labels, stamp@), seq!['\n']),
{
    let mut lines: Vec<String> = Vec::new();
    push_line(&mut lines, data.title.clone());
    let mut header = to_owned(stamp);
    push_char(&mut header, ' ');
    push_char(&mut header, '\u{b7}');
    push_char(&mut header, ' ');
    let elapsed = elapsed_label(data.duration_sec);
    push_str(&mut header, elapsed.as_str());
    proof {
        assert(header@ =~= stamp@ + header_separator() + spec_elapsed_label(
            data.duration_sec as nat,
        ));
    }
    push_line(&mut lines, header);
    push_line(&mut lines, String::new());
    let ghost head = views(lines@);
    proof {
        assert(head =~= seq![
            data.title@,
            stamp@ + header_separator() + spec_elapsed_label(data.duration_sec as nat),
            Seq::<char>::empty(),
        ]);
        assert(data.chunks@.take(0) =~= Seq::<Chunk>::empty());
        assert(head =~= head + transcript_blocks(all_segments(data.chunks@.take(0)), mode, *labels));
    }
    let mut i: usize = 0;
    while i < data.chunks.len()
        invariant
            0 <= i <= data.chunks@.len(),
            views(lines@) == head + transcript_blocks(
                all_segments(data.chunks@.take(i as int)),
                mode,
                *labels,
            ),
        decreases data.chunks@.len() - i,
    {
        let chunk = &data.chunks[i];
        let ghost before = all_segments(data.chunks@.take(i as int));
        let mut j: usize = 0;
        proof {
            assert(chunk.segments@.take(0) =~= Seq::<Segment>::empty());
            assert(before + chunk.segments@.take(0) =~= before);
        }
        while j < chunk.segments.len()
            invariant
                0 <= j <= chunk.segments@.len(),
                views(lines@) == head + transcript_blocks(
                    before + chunk.segments@.take(j as int),
                    mode,
                    *labels,
                ),
            decreases chunk.segments@.len() - j,
        {
            let segment = &chunk.segments[j];
            transcript_block_lines(&mut lines, segment, mode, labels);
            proof {
                assert(before + chunk.segments@.take(j + 1) =~= (before + chunk.segments@.take(
                    j as int,
                )).push(*segment));
                lemma_transcript_blocks_push(
                    before + chunk.segments@.take(j as int),
                    *segment,
                    mode,
                    *labels,
                );
            }
            j = j + 1;
        }
        proof {
            assert(chunk.segments@.take(j as int) =~= chunk.segments@);
            lemma_all_segments_step(data.chunks@, i as int);
        }
        i = i + 1;
    }
    proof {
        assert(data.chunks@.take(data.chunks@.len() as int) =~= data.chunks@);
        assert(views(lines@) =~= transcript_lines(*data, mode, *labels, stamp@));
        reveal_strlit("\n");
        assert("\n"@ =~= seq!['\n']);
    }
    join_strings(&lines, "\n")
}

/// The start of a record as `%Y-%m-%d %H:%M` in the local time zone, or the stored text
/// unchanged when it does not parse.
fn local_timestamp(created_at: &str) -> (r: String)
    ensures
        !parses_as_rfc3339(created_at@) ==> r@ == created_at@,
{
    match local_minutes_of_rfc3339(created_at) {
        Some(stamp) => stamp,
        None => to_owned(created_at),
    }
}

/// The plain reading transcript: one time-stamped block per turn, no markup. The start time
/// is shown in the local time zone.
pub fn render_transcript(data: &SessionData, mode: ExportMode, labels: &RouteLabels) -> (r: String)
    ensures
        exists|stamp: Seq<char>| r@ == joined(transcript_lines(*data, mode, *labels, stamp), seq!['\n']),
        !parses_as_rfc3339(data.created_at@) ==> r@ == joined(
            transcript_lines(*data, mode, *labels, data.created_at@),
            seq!['\n'],
        ),
{
    let stamp = local_timestamp(data.created_at.as_str());
    render_transcript_stamped(data, mode, labels, stamp.as_str())
}

fn markdown_block_lines(lines: &mut Vec<String>, segment: &Segment, mode: ExportMode)
    ensures
        views(final(lines)@) == views(old(lines)@) + markdown_block(*segment, mode),
{
    let (source, target) = sides(segment, mode);
    if source.is_none() && target.is_none() {
        proof {
            assert(views(lines@) =~= views(lines@) + Seq::<Seq<char>>::empty());
        }
        return;
    }
    let ghost start = views(lines@);
    let mut heading = String::new();
    push_str(&mut heading, "## ");
    push_str(&mut heading, segment.ts.as_str());
    push_char(&mut heading, ' ');
    push_char(&mut heading, '\u{b7}');
    push_char(&mut heading, ' ');
    push_str(&mut heading, segment.route_id.as_str());
    proof {
        reveal_strlit("## ");
        assert(heading@ =~= seq!['#', '#', ' '] + segment.ts@ + header_separator()
            + segment.route_id@);
    }
    push_line(lines, heading);
    push_line(lines, String::new());
    let ghost after_heading = views(lines@);
    if let Some(text) = source {
        let mut line = String::new();
        push_str(&mut line, "**");
        push_str(&mut line, segment.source_lang.as_str());
        push_str(&mut line, "**  ");
        push_str(&mut line, text);
        proof {
            reveal_strlit("**");
            reveal_strlit("**  ");
            assert(line@ =~= seq!['*', '*'] + segment.source_lang@ + seq!['*', '*', ' ', ' ']
                + text@);
        }
        push_line(lines, line);
    }
    let ghost after_source = views(lines@);
    if let Some(text) = target {
        let mut line = String::new();
        push_str(&mut line, "**");
        push_str(&mut line, segment.target_lang.as_str());
        push_str(&mut line, "**  ");
        push_str(&mut line, text);
        proof {
            reveal_strlit("**");
            reveal_strlit("**  ");
            assert(line@ =~= seq!['*', '*'] + segment.target_lang@ + seq!['*', '*', ' ', ' ']
                + text@);
        }
        push_line(lines, line);
    }
    let ghost after_target = views(lines@);
    push_line(lines, String::new());
    proof {
        let src = source_side(*segment, mode);
        let tgt = target_side(*segment, mode);
        assert(after_source =~= after_heading + opt_line(
            match src {
                Some(t) => Some(seq!['*', '*'] + segment.source_lang@ + seq!['*', '*', ' ', ' '] + t),
                None => None,
            },
        ));
        assert(after_target =~= after_source + opt_line(
            match tgt {
                Some(t) => Some(seq!['*', '*'] + segment.target_lang@ + seq!['*', '*', ' ', ' '] + t),
                None => None,
            },
        ));
        assert(views(lines@) =~= start + markdown_block(*segment, mode));
    }
}

/// The archived Markdown of a record.
pub fn render_markdown(data: &SessionData, mode: ExportMode) -> (r: String)
    ensures
        r@ == joined(markdown_lines(*data, mode), seq!['\n']),
{
    let mut lines: Vec<String> = Vec::new();
    let mut title = String::new();
    push_str(&mut title, "# ");
    push_str(&mut title, data.title.as_str());
    proof {
        reveal_strlit("# ");
        assert(title@ =~= seq!['#', ' '] + data.title@);
    }
    push_line(&mut lines, title);
    push_line(&mut lines, String::new());
    push_line(&mut lines, data.created_at.clone());
    push_line(&mut lines, String::new());
    let ghost head = views(lines@);
    proof {
        assert(head =~= seq![
            seq!['#', ' '] + data.title@,
            Seq::<char>::empty(),
            data.created_at@,
            Seq::<char>::empty(),
        ]);
        assert(data.chunks@.take(0) =~= Seq::<Chunk>::empty());
        assert(head =~= head + markdown_blocks(all_segments(data.chunks@.take(0)), mode));
    }
    let mut i: usize = 0;
    while i < data.chunks.len()
        invariant
            0 <= i <= data.chunks@.len(),
            views(lines@) == head + markdown_blocks(all_segments(data.chunks@.take(i as int)), mode),
        decreases data.chunks@.len() - i,
    {
        let chunk = &data.chunks[i];
        let ghost before = all_segments(data.chunks@.take(i as int));
        let mut j: usize = 0;
        proof {
            assert(chunk.segments@.take(0) =~= Seq::<Segment>::empty());
            assert(before + chunk.segments@.take(0) =~= before);
        }
        while j < chunk.segments.len()
            invariant
                0 <= j <= chunk.segments@.len(),
                views(lines@) == head + markdown_blocks(before + chunk.segments@.take(j as int), mode),
            decreases chunk.segments@.len() - j,
        {
            let segment = &chunk.segments[j];
            markdown_block_lines(&mut lines, segment, mode);
            proof {
                assert(before + chunk.segments@.take(j + 1) =~= (before + chunk.segments@.take(
                    j as int,
                )).push(*segment));
                lemma_markdown_blocks_push(before + chunk.segments@.take(j as int), *segment, mode);
            }
            j = j + 1;
        }
        proof {
            assert(chunk.segments@.take(j as int) =~= chunk.segments@);
            lemma_all_segments_step(data.chunks@, i as int);
        }
        i = i + 1;
    }
    proof {
        assert(data.chunks@.take(data.chunks@.len() as int) =~= data.chunks@);
        assert(views(lines@) =~= markdown_lines(*data, mode));
        reveal_strlit("\n");
        assert("\n"@ =~= seq!['\n']);
    }
    join_strings(&lines, "\n")
}

/// The characters a file name cannot hold on some platform.
pub open spec fn is_path_special(c: char) -> bool {
    c == '/' || c == '\\' || c == ':' || c == '*' || c == '?' || c == '"' || c == '<' || c == '>'
        || c == '|'
}

pub open spec fn safe_char(c: char) -> char {
    if is_control(c) || is_path_special(c) {
        '-'
    } else {
        c
    }
}

pub open spec fn strip_leading_dots(s: Seq<char>) -> Seq<char>
    decreases s.len(),
{
    if s.len() > 0 && s[0] == '.' {
        strip_leading_dots(s.drop_first())
    } else {
        s
    }
}

pub open spec fn strip_trailing_dots(s: Seq<char>) -> Seq<char>
    decreases s.len(),
{
    if s.len() > 0 && s.last() == '.' {
        strip_trailing_dots(s.drop_last())
    } else {
        s
    }
}

/// The file name an export is offered under: the title with characters a path cannot hold
/// replaced by `-`, trimmed of spaces and then of dots at either end, and `.txt` added; a
/// title with nothing left becomes `session.txt`.
pub open spec fn spec_export_file_name(title: Seq<char>) -> Seq<char> {
    let stem = strip_trailing_dots(strip_leading_dots(trim(title.map_values(|c: char| safe_char(c)))));
    if stem.len() == 0 {
        "session.txt"@
    } else {
        stem + ".txt"@
    }
}

fn path_special(c: char) -> (r: bool)
    ensures
        r == is_path_special(c),
{
    c == '/' || c == '\\' || c == ':' || c == '*' || c == '?' || c == '"' || c == '<' || c == '>'
        || c == '|'
}

fn strip_dots(s: &str) -> (r: String)
    ensures
        r@ == strip_trailing_dots(strip_leading_dots(s@)),
{
    let chars = chars_of(s);
    let mut start: usize = 0;
    proof {
        assert(s@.skip(0) =~= s@);
    }
    while start < chars.len() && chars[start] == '.'
        invariant
            0 <= start <= chars@.len(),
            chars@ == s@,
            strip_leading_dots(s@) == strip_leading_dots(s@.skip(start as int)),
        decreases chars@.len() - start,
    {
        proof {
            assert(s@.skip(start as int).drop_first() =~= s@.skip(start + 1));
        }
        start = start + 1;
    }
    proof {
        assert(strip_leading_dots(s@.skip(start as int)) == s@.skip(start as int));
    }
    let mut end: usize = chars.len();
    while end > start && chars[end - 1] == '.'
        invariant
            start <= end <= chars@.len(),
            chars@ == s@,
            strip_trailing_dots(s@.skip(start as int)) == strip_trailing_dots(
                s@.subrange(start as int, end as int),
            ),
        decreases end,
    {
        proof {
            assert(s@.subrange(start as int, end as int).drop_last() =~= s@.subrange(
                start as int,
                end - 1,
            ));
        }
        end = end - 1;
    }
    proof {
        assert(s@.skip(start as int) =~= s@.subrange(start as int, chars@.len() as int));
        let kept = s@.subrange(start as int, end as int);
        if kept.len() > 0 {
            assert(kept.last() == chars@[end - 1]);
        }
        assert(strip_trailing_dots(kept) == kept);
    }
    let mut out = String::new();
    let mut i: usize = start;
    while i < end
        invariant
            start <= i <= end <= chars@.len(),
            chars@ == s@,
            out@ == s@.subrange(start as int, i as int),
        decreases end - i,
    {
        push_char(&mut out, chars[i]);
        proof {
            assert(out@ =~= s@.subrange(start as int, i + 1));
        }
        i = i + 1;
    }
    out
}

pub fn export_file_name(title: &str) -> (r: String)
    ensures
        r@ == spec_export_file_name(title@),
{
    let chars = chars_of(title);
    let mut mapped = String::new();
    let mut i: usize = 0;
    while i < chars.len()
        invariant
            0 <= i <= chars@.len(),
            chars@ == title@,
            mapped@ == title@.take(i as int).map_values(|c: char| safe_char(c)),
        decreases chars@.len() - i,
    {
        let c = chars[i];
        let safe = if control(c) || path_special(c) {
            '-'
        } else {
            c
        };
        push_char(&mut mapped, safe);
        proof {
            assert(mapped@ =~= title@.take(i + 1).map_values(|c: char| safe_char(c)));
        }
        i = i + 1;
    }
    proof {
        assert(title@.take(chars@.len() as int) =~= title@);
    }
    let trimmed = trim_str(mapped.as_str());
    let stem = strip_dots(trimmed.as_str());
    proof {
        reveal_strlit("session.txt");
        reveal_strlit(".txt");
    }
    if stem.as_str().is_empty() {
        to_owned("session.txt")
    } else {
        let mut out = stem;
        push_str(&mut out, ".txt");
        out
    }
}

/// A record identifier: one to sixty-four ASCII letters, digits, `-` or `_`.
pub open spec fn is_id_char(c: char) -> bool {
    ('a' <= c && c <= 'z') || ('A' <= c && c <= 'Z') || ('0' <= c && c <= '9') || c == '-' || c
        == '_'
}

pub open spec fn spec_valid_id(id: Seq<char>) -> bool {
    &&& 0 < id.len() <= 64
    &&& forall|i: int| 0 <= i < id.len() ==> is_id_char(#[trigger] id[i])
}

pub fn validate_id(id: &str) -> (r: Result<(), String>)
    ensures
        r is Ok <==> spec_valid_id(id@),
        r is Err ==> r->Err_0@ == "Invalid session ID"@,
{
    let chars = chars_of(id);
    let mut valid = chars.len() > 0 && chars.len() <= 64;
    let mut i: usize = 0;
    while i < chars.len()
        invariant
            0 <= i <= chars@.len(),
            chars@ == id@,
            valid == (0 < id@.len() <= 64 && forall|j: int| 0 <= j < i ==> is_id_char(#[trigger] id@[j])),
        decreases chars@.len() - i,
    {
        let c = chars[i];
        let ok = ('a' <= c && c <= 'z') || ('A' <= c && c <= 'Z') || ('0' <= c && c <= '9') || c
            == '-' || c == '_';
        valid = valid && ok;
        i = i + 1;
    }
    if valid {
        Ok(())
    } else {
        Err(to_owned("Invalid session ID"))
    }
}

/// The two files a record is kept in: its Markdown and its data.
pub fn session_file_names(id: &str) -> (r: (String, String))
    ensures
        r.0@ == "session-"@ + id@ + ".md"@,
        r.1@ == "session-"@ + id@ + ".json"@,
{
    let mut md = to_owned("session-");
    push_str(&mut md, id);
    push_str(&mut md, ".md");
    let mut json = to_owned("session-");
    push_str(&mut json, id);
    push_str(&mut json, ".json");
    (md, json)
}

pub open spec fn ends_with_seq(s: Seq<char>, suffix: Seq<char>) -> bool {
    suffix.len() <= s.len() && s.skip(s.len() - suffix.len()) == suffix
}

/// Whether a file in the archive directory holds a record's data.
pub fn is_session_file(name: &str) -> (r: bool)
    ensures
        r == (crate::text::starts_with_seq(name@, "session-"@) && ends_with_seq(name@, ".json"@)),
{
    proof {
        reveal_strlit(".json");
    }
    if !starts_with_str(name, "session-") {
        return false;
    }
    let chars = chars_of(name);
    let n = chars.len();
    if n < 5 {
        return false;
    }
    let r = chars[n - 5] == '.' && chars[n - 4] == 'j' && chars[n - 3] == 's' && chars[n - 2]
        == 'o' && chars[n - 1] == 'n';
    proof {
        if r {
            assert(name@.skip(n - 5) =~= ".json"@);
        } else {
            if name@.skip(n - 5) == ".json"@ {
                assert(name@.skip(n - 5)[0] == '.');
                assert(name@.skip(n - 5)[1] == 'j');
                assert(name@.skip(n - 5)[2] == 's');
                assert(name@.skip(n - 5)[3] == 'o');
                assert(name@.skip(n - 5)[4] == 'n');
            }
        }
    }
    r
}

/// A title a record may be renamed to: trimmed, not empty, at most `MAX_TITLE_CHARS`
/// characters. Gives the trimmed title.
pub fn valid_title(title: &str) -> (r: Result<String, String>)
    ensures
        match r {
            Ok(t) => t@ == trim(title@) && 0 < t@.len() <= MAX_TITLE_CHARS,
            Err(e) => e@ == "Invalid session title"@ && (trim(title@).len() == 0 || trim(
                title@,
            ).len() > MAX_TITLE_CHARS),
        },
{
    let trimmed = trim_str(title);
    let count = chars_of(trimmed.as_str()).len();
    if count == 0 || count > MAX_TITLE_CHARS {
        Err(to_owned("Invalid session title"))
    } else {
        Ok(trimmed)
    }
}

/// The checks a record passes before it is written: a valid identifier that matches the
/// record's own.
pub fn check_persist(id: &str, data: &SessionData) -> (r: Result<(), String>)
    ensures
        r is Ok <==> (spec_valid_id(id@) && data.id@ == id@),
        !spec_valid_id(id@) ==> r is Err && r->Err_0@ == "Invalid session ID"@,
        spec_valid_id(id@) && data.id@ != id@ ==> r is Err && r->Err_0@ == "Session ID mismatch"@,
{
    match validate_id(id) {
        Ok(()) => {},
        Err(e) => return Err(e),
    }
    if !str_eq(data.id.as_str(), id) {
        return Err(to_owned("Session ID mismatch"));
    }
    Ok(())
}


/// Whether `a` sorts strictly before `b`: character by character, by code point, a proper
/// prefix first. This is the order of `str`'s comparison, since UTF-8 bytes sort as the
/// code points they encode.
pub open spec fn text_before(a: Seq<char>, b: Seq<char>) -> bool
    decreases a.len(),
{
    if a.len() == 0 {
        b.len() > 0
    } else if b.len() == 0 {
        false
    } else if a[0] != b[0] {
        (a[0] as u32) < (b[0] as u32)
    } else {
        text_before(a.drop_first(), b.drop_first())
    }
}

/// No text sorts before itself.
pub proof fn lemma_text_before_irreflexive(a: Seq<char>)
    ensures
        !text_before(a, a),
    decreases a.len(),
{
    if a.len() > 0 {
        lemma_text_before_irreflexive(a.drop_first());
    }
}

/// The order is transitive.
pub proof fn lemma_text_before_transitive(a: Seq<char>, b: Seq<char>, c: Seq<char>)
    requires
        text_before(a, b),
        text_before(b, c),
    ensures
        text_before(a, c),
    decreases a.len(),
{
    if a.len() > 0 && b.len() > 0 && c.len() > 0 {
        if a[0] == b[0] && b[0] == c[0] {
            lemma_text_before_transitive(a.drop_first(), b.drop_first(), c.drop_first());
        }
    }
}

/// Whether `a` sorts strictly before `b` (see `text_before`).
pub fn is_text_before(a: &str, b: &str) -> (r: bool)
    ensures
        r == text_before(a@, b@),
{
    let x = chars_of(a);
    let y = chars_of(b);
    let mut i: usize = 0;
    proof {
        assert(a@.skip(0) =~= a@);
        assert(b@.skip(0) =~= b@);
    }
    while i < x.len() && i < y.len() && x[i] == y[i]
        invariant
            0 <= i <= x@.len(),
            i <= y@.len(),
            x@ == a@,
            y@ == b@,
            text_before(a@, b@) == text_before(a@.skip(i as int), b@.skip(i as int)),
        decreases x@.len() - i,
    {
        proof {
            assert(a@.skip(i as int).drop_first() =~= a@.skip(i + 1));
            assert(b@.skip(i as int).drop_first() =~= b@.skip(i + 1));
        }
        i += 1;
    }
    if i == x.len() {
        i < y.len()
    } else if i == y.len() {
        false
    } else {
        (x[i] as u32) < (y[i] as u32)
    }
}

/// Whether each record is at least as new as the ones after it.
pub open spec fn newest_first_order(items: Seq<SessionListItem>) -> bool {
    forall|i: int, j: int|
        0 <= i < j < items.len() ==> !text_before(
            #[trigger] items[i].created_at@,
            #[trigger] items[j].created_at@,
        )
}

/// The session list, newest first: the same records, ordered by their creation time
/// stamp from the latest down.
pub fn newest_first(items: Vec<SessionListItem>) -> (r: Vec<SessionListItem>)
    ensures
        r@.to_multiset() == items@.to_multiset(),
        newest_first_order(r@),
{
    broadcast use vstd::seq_lib::group_to_multiset_ensures;
    broadcast use vstd::multiset::group_multiset_axioms;

    let mut rest = items;
    let mut out: Vec<SessionListItem> = Vec::new();
    while rest.len() > 0
        invariant
            out@.to_multiset().add(rest@.to_multiset()) == items@.to_multiset(),
            newest_first_order(out@),
        decreases rest@.len(),
    {
        let ghost before_pop = rest@;
        let item = rest.pop().unwrap();
        proof {
            assert(before_pop =~= rest@.push(item));
        }
        let mut pos: usize = 0;
        while pos < out.len() && !is_text_before(out[pos].created_at.as_str(), item.created_at.as_str())
            invariant
                0 <= pos <= out@.len(),
                forall|k: int| 0 <= k < pos ==> !text_before(#[trigger] out@[k].created_at@, item.created_at@),
            decreases out@.len() - pos,
        {
            pos += 1;
        }
        let ghost old_out = out@;
        out.insert(pos, item);
        proof {
            assert forall|i: int, j: int| 0 <= i < j < out@.len() implies !text_before(
                #[trigger] out@[i].created_at@,
                #[trigger] out@[j].created_at@,
            ) by {
                if i == pos as int {
                    let k = j - 1;
                    if text_before(item.created_at@, old_out[k].created_at@) {
                        if k == pos as int {
                            lemma_text_before_transitive(
                                old_out[k].created_at@,
                                item.created_at@,
                                old_out[k].created_at@,
                            );
                            lemma_text_before_irreflexive(old_out[k].created_at@);
                        } else {
                            lemma_text_before_transitive(
                                old_out[pos as int].created_at@,
                                item.created_at@,
                                old_out[k].created_at@,
                            );
                            assert(!text_before(old_out[pos as int].created_at@, old_out[k].created_at@));
                        }
                    }
                } else if j == pos as int {
                    assert(out@[i] == old_out[i]);
                } else {
                    let oi = if i < pos { i } else { i - 1 };
                    let oj = if j < pos { j } else { j - 1 };
                    assert(out@[i] == old_out[oi] && out@[j] == old_out[oj]);
                }
            }
            assert(out@ == old_out.insert(pos as int, item));
            vstd::seq_lib::to_multiset_insert(old_out, pos as int, item);
            vstd::seq_lib::to_multiset_build(rest@, item);
            assert(out@.to_multiset().add(rest@.to_multiset()) =~= old_out.to_multiset().add(
                before_pop.to_multiset(),
            ));
        }
    }
    out
}

} // verus!

//! Render planning: dirty flags, the severity artwork, the alert border
//! animation and the layout arithmetic behind one frame of the dashboard.
//! Everything here computes plain data; the terminal work that carries a
//! plan onto the screen lives outside the library.

use std::collections::VecDeque;
use vstd::prelude::*;
use vstd::string::StrSliceExecFns;
use crate::codec::{spec_type_label, PacketType};
use crate::state::{spec_display_name, spec_peer_text, spec_timestamp, LogItem, NameTable,
    PeerAddr, WarnStates};
use crate::text::{digit_char, push_char, two_digits};

verus! {

/// Which display regions must repaint this frame. A fresh all-false value
/// begins every frame; the renderer owns every set flag.
pub struct RenderState {
    pub focused_mode_changed: bool,
    pub warn_state_changed: bool,
    pub packet_log_changed: bool,
    /// For when everything needs to be re-rendered, e.g. on resize.
    pub clear_background: bool,
}

impl RenderState {
    /// The clean state: nothing dirty.
    pub fn new() -> (r: RenderState)
        ensures
            !r.focused_mode_changed,
            !r.warn_state_changed,
            !r.packet_log_changed,
            !r.clear_background,
    {
        RenderState {
            focused_mode_changed: false,
            warn_state_changed: false,
            packet_log_changed: false,
            clear_background: false,
        }
    }

    /// Everything dirty: repaint the whole surface.
    pub fn rerender_all() -> (r: RenderState)
        ensures
            r.focused_mode_changed,
            r.warn_state_changed,
            r.packet_log_changed,
            r.clear_background,
    {
        RenderState {
            focused_mode_changed: true,
            warn_state_changed: true,
            packet_log_changed: true,
            clear_background: true,
        }
    }
}

/// A terminal background colour, one byte per channel.
#[derive(Debug, Clone, Copy, PartialEq, Eq, Structural)]
pub struct Rgb {
    pub r: u8,
    pub g: u8,
    pub b: u8,
}

/// The character each residue of the animation arithmetic draws.
pub open spec fn spec_rand_char(rand: usize) -> char {
    if rand == 0 {
        '#'
    } else if rand == 1 {
        '&'
    } else if rand == 2 {
        '+'
    } else if rand == 3 {
        '='
    } else if rand == 4 {
        '*'
    } else if rand == 5 {
        '-'
    } else {
        ' '
    }
}

/// Pick the border glyph for one residue of the animation arithmetic.
pub fn get_rand_char(rand: usize) -> (c: char)
    ensures
        c == spec_rand_char(rand),
{
    match rand {
        0 => '#',
        1 => '&',
        2 => '+',
        3 => '=',
        4 => '*',
        5 => '-',
        _ => ' ',
    }
}

/// The position of the first newline in `s`, or its length if it has none.
pub open spec fn spec_first_newline(s: Seq<char>) -> int
    decreases s.len(),
{
    if s.len() == 0 {
        0
    } else if s[0] == '\n' {
        0
    } else {
        1 + spec_first_newline(s.drop_first())
    }
}

proof fn lemma_first_newline_props(s: Seq<char>)
    ensures
        0 <= spec_first_newline(s) <= s.len(),
        spec_first_newline(s) < s.len() ==> s[spec_first_newline(s)] == '\n',
        forall|j: int| 0 <= j < spec_first_newline(s) ==> s[j] != '\n',
    decreases s.len(),
{
    if s.len() > 0 && s[0] != '\n' {
        lemma_first_newline_props(s.drop_first());
        let f = spec_first_newline(s);
        assert forall|j: int| 0 <= j < f implies s[j] != '\n' by {
            if j > 0 {
                assert(s.drop_first()[j - 1] != '\n');
            }
        }
    }
}

proof fn lemma_first_newline_unique(s: Seq<char>, i: int)
    requires
        0 <= i <= s.len(),
        i < s.len() ==> s[i] == '\n',
        forall|j: int| 0 <= j < i ==> s[j] != '\n',
    ensures
        i == spec_first_newline(s),
{
    lemma_first_newline_props(s);
    let f = spec_first_newline(s);
    if i < f {
        assert(s[i] != '\n');
    }
    if f < i {
        assert(s[f] != '\n');
    }
}

/// The lines of `s`, split at newlines; a trailing newline closes the last
/// line rather than opening an empty one.
pub open spec fn spec_lines(s: Seq<char>) -> Seq<Seq<char>>
    decreases s.len(),
    via spec_lines_decreases
{
    if s.len() == 0 {
        seq![]
    } else {
        let f = spec_first_newline(s);
        if f >= s.len() {
            seq![s]
        } else {
            seq![s.take(f)] + spec_lines(s.skip(f + 1))
        }
    }
}

#[via_fn]
proof fn spec_lines_decreases(s: Seq<char>) {
    lemma_first_newline_props(s);
}

proof fn lemma_spec_lines_step(cur: Seq<char>, rest: Seq<char>)
    requires
        forall|j: int| 0 <= j < cur.len() ==> cur[j] != '\n',
    ensures
        spec_lines(cur + seq!['\n'] + rest) == seq![cur] + spec_lines(rest),
{
    let s = cur + seq!['\n'] + rest;
    lemma_first_newline_unique(s, cur.len() as int);
    assert(s.take(cur.len() as int) =~= cur);
    assert(s.skip(cur.len() as int + 1) =~= rest);
}

proof fn lemma_spec_lines_whole(cur: Seq<char>)
    requires
        cur.len() > 0,
        forall|j: int| 0 <= j < cur.len() ==> cur[j] != '\n',
    ensures
        spec_lines(cur) == seq![cur],
{
    lemma_first_newline_unique(cur, cur.len() as int);
}

/// Split `s` into its lines, as they are drawn row by row.
pub fn split_lines(s: &str) -> (r: Vec<String>)
    ensures
        r.deep_view() == spec_lines(s@),
{
    let n = s.unicode_len();
    let mut r: Vec<String> = Vec::new();
    let mut cur = String::new();
    let mut i: usize = 0;
    let ghost whole = s@;
    proof {
        assert(cur@ + whole.skip(0) =~= whole);
        assert(r.deep_view() + spec_lines(whole) =~= spec_lines(whole));
    }
    while i < n
        invariant
            i <= n,
            n == whole.len(),
            whole == s@,
            forall|j: int| 0 <= j < cur@.len() ==> cur@[j] != '\n',
            spec_lines(whole) == r.deep_view() + spec_lines(cur@ + whole.skip(i as int)),
        decreases n - i,
    {
        let c = s.get_char(i);
        if c == '\n' {
            proof {
                assert(cur@ + whole.skip(i as int) =~= cur@ + seq!['\n'] + whole.skip(i + 1));
                lemma_spec_lines_step(cur@, whole.skip(i + 1));
            }
            let done = cur;
            cur = String::new();
            let ghost r0 = r.deep_view();
            r.push(done);
            proof {
                assert(r.deep_view() =~= r0 + seq![done@]);
                assert(spec_lines(whole) =~= r.deep_view() + spec_lines(cur@ + whole.skip(i + 1)));
            }
        } else {
            proof {
                assert(cur@ + whole.skip(i as int) =~= cur@.push(c) + whole.skip(i + 1));
            }
            push_char(&mut cur, c);
        }
        i = i + 1;
    }
    proof {
        assert(cur@ + whole.skip(n as int) =~= cur@);
    }
    if !cur.as_str().is_empty() {
        proof {
            lemma_spec_lines_whole(cur@);
        }
        let done = cur;
        let ghost r0 = r.deep_view();
        r.push(done);
        proof {
            assert(r.deep_view() =~= r0 + seq![done@]);
            assert(spec_lines(whole) =~= r.deep_view());
        }
    } else {
        proof {
            assert(spec_lines(whole) =~= r.deep_view());
        }
    }
    r
}

/// One glyph the alert border draws, and where.
#[derive(Debug, Clone, Copy, PartialEq, Eq, Structural)]
pub struct BorderCell {
    pub x: u16,
    pub y: u16,
    pub ch: char,
}

/// The eight border columns blanked on one row: the four leftmost and the
/// four rightmost.
pub open spec fn spec_border_blank_row(cols: u16, y: u16) -> Seq<BorderCell> {
    seq![
        BorderCell { x: 0, y, ch: ' ' },
        BorderCell { x: 1, y, ch: ' ' },
        BorderCell { x: 2, y, ch: ' ' },
        BorderCell { x: 3, y, ch: ' ' },
        BorderCell { x: (cols - 4) as u16, y, ch: ' ' },
        BorderCell { x: (cols - 3) as u16, y, ch: ' ' },
        BorderCell { x: (cols - 2) as u16, y, ch: ' ' },
        BorderCell { x: (cols - 1) as u16, y, ch: ' ' },
    ]
}

/// The blanking pass over the whole border region.
pub open spec fn spec_border_blank(cols: u16, rows: u16) -> Seq<BorderCell>
    decreases rows,
{
    if rows == 0 {
        seq![]
    } else {
        spec_border_blank(cols, (rows - 1) as u16) + spec_border_blank_row(cols, (rows - 1) as u16)
    }
}

/// One conditional glyph of a stream: drawn at `x` when the residue test
/// passes.
pub open spec fn spec_stream_cell(d: u64, x: u16, y: u16, gate: u64, bound: u64, pick: u64) -> Seq<
    BorderCell,
> {
    if d % gate <= bound {
        seq![BorderCell { x, y, ch: spec_rand_char((d % pick) as usize) }]
    } else {
        seq![]
    }
}

/// The bordering bars of one row: a solid bar on a six-frame cadence and a
/// dotted one on a slower beat, down both edges.
pub open spec fn spec_bar_cells(frame: u64, cols: u16, y: u16) -> Seq<BorderCell> {
    (if vstd::wrapping::u64_specs::wrapping_add(frame, y as u64) % 6 < 3 {
        seq![
            BorderCell { x: 0, y, ch: '|' },
            BorderCell { x: (cols - 1) as u16, y, ch: '|' },
        ]
    } else {
        seq![]
    }) + (if frame % 13 + y % 5 <= 3 {
        seq![
            BorderCell { x: 0, y, ch: ':' },
            BorderCell { x: (cols - 1) as u16, y, ch: ':' },
        ]
    } else {
        seq![]
    })
}

/// The glyphs the animation draws on one row: four character streams down
/// each edge, then the bordering bars, every choice a pure function of the
/// frame number and the row.
pub open spec fn spec_border_row(frame: u64, cols: u16, y: u16) -> Seq<BorderCell> {
    let d = vstd::wrapping::u64_specs::wrapping_sub(frame, y as u64);
    spec_stream_cell(d, 0, y, 143, 80, 11) + spec_stream_cell(d, 1, y, 223, 100, 9)
        + spec_stream_cell(d, 2, y, 349, 180, 7) + spec_stream_cell(d, 3, y, 943, 200, 12)
        + spec_stream_cell(d, (cols - 1) as u16, y, 139, 90, 11) + spec_stream_cell(
        d,
        (cols - 2) as u16,
        y,
        226,
        130,
        9,
    ) + spec_stream_cell(d, (cols - 3) as u16, y, 363, 200, 7) + spec_stream_cell(
        d,
        (cols - 4) as u16,
        y,
        927,
        200,
        12,
    ) + spec_bar_cells(frame, cols, y)
}

/// The animation pass over the whole border region, row by row.
pub open spec fn spec_border_cells(frame: u64, cols: u16, rows: u16) -> Seq<BorderCell>
    decreases rows,
{
    if rows == 0 {
        seq![]
    } else {
        spec_border_cells(frame, cols, (rows - 1) as u16) + spec_border_row(
            frame,
            cols,
            (rows - 1) as u16,
        )
    }
}

/// The blanking pass, as cells: issued every alert frame before the
/// animation, and alone when the display leaves the alert state.
pub fn border_blank_cells(cols: u16, rows: u16) -> (r: Vec<BorderCell>)
    requires
        cols >= 4,
    ensures
        r@ == spec_border_blank(cols, rows),
{
    let mut r: Vec<BorderCell> = Vec::new();
    let mut y: u16 = 0;
    while y < rows
        invariant
            y <= rows,
            cols >= 4,
            r@ == spec_border_blank(cols, y),
        decreases rows - y,
    {
        r.push(BorderCell { x: 0, y, ch: ' ' });
        r.push(BorderCell { x: 1, y, ch: ' ' });
        r.push(BorderCell { x: 2, y, ch: ' ' });
        r.push(BorderCell { x: 3, y, ch: ' ' });
        r.push(BorderCell { x: cols - 4, y, ch: ' ' });
        r.push(BorderCell { x: cols - 3, y, ch: ' ' });
        r.push(BorderCell { x: cols - 2, y, ch: ' ' });
        r.push(BorderCell { x: cols - 1, y, ch: ' ' });
        proof {
            assert(r@ =~= spec_border_blank(cols, (y + 1) as u16));
        }
        y = y + 1;
    }
    r
}

/// Append one conditional stream glyph.
fn push_stream_cell(r: &mut Vec<BorderCell>, d: u64, x: u16, y: u16, gate: u64, bound: u64, pick: u64)
    requires
        gate >= 1,
        pick >= 1,
    ensures
        final(r)@ == old(r)@ + spec_stream_cell(d, x, y, gate, bound, pick),
{
    if d % gate <= bound {
        r.push(BorderCell { x, y, ch: get_rand_char((d % pick) as usize) });
        proof {
            assert(r@ =~= old(r)@ + spec_stream_cell(d, x, y, gate, bound, pick));
        }
    } else {
        proof {
            assert(r@ =~= old(r)@ + spec_stream_cell(d, x, y, gate, bound, pick));
        }
    }
}

/// Append the bordering bars of one row.
fn push_bar_cells(r: &mut Vec<BorderCell>, frame: u64, cols: u16, y: u16)
    requires
        cols >= 1,
    ensures
        final(r)@ == old(r)@ + spec_bar_cells(frame, cols, y),
{
    let ghost r0 = r@;
    if frame.wrapping_add(y as u64) % 6 < 3 {
        r.push(BorderCell { x: 0, y, ch: '|' });
        r.push(BorderCell { x: cols - 1, y, ch: '|' });
    }
    if frame % 13 + (y % 5) as u64 <= 3 {
        r.push(BorderCell { x: 0, y, ch: ':' });
        r.push(BorderCell { x: cols - 1, y, ch: ':' });
    }
    proof {
        assert(r@ =~= r0 + spec_bar_cells(frame, cols, y));
    }
}

/// One row of the animation.
fn border_row_cells(frame: u64, cols: u16, y: u16) -> (r: Vec<BorderCell>)
    requires
        cols >= 4,
    ensures
        r@ == spec_border_row(frame, cols, y),
{
    let d: u64 = frame.wrapping_sub(y as u64);
    let mut r: Vec<BorderCell> = Vec::new();
    push_stream_cell(&mut r, d, 0, y, 143, 80, 11);
    push_stream_cell(&mut r, d, 1, y, 223, 100, 9);
    push_stream_cell(&mut r, d, 2, y, 349, 180, 7);
    push_stream_cell(&mut r, d, 3, y, 943, 200, 12);
    push_stream_cell(&mut r, d, cols - 1, y, 139, 90, 11);
    push_stream_cell(&mut r, d, cols - 2, y, 226, 130, 9);
    push_stream_cell(&mut r, d, cols - 3, y, 363, 200, 7);
    push_stream_cell(&mut r, d, cols - 4, y, 927, 200, 12);
    push_bar_cells(&mut r, frame, cols, y);
    proof {
        assert(r@ =~= spec_border_row(frame, cols, y));
    }
    r
}

/// The glyphs of the alert border for one frame, row by row. A pure
/// function of the frame number and the surface size: repeating a frame
/// redraws exactly the same glyphs.
pub fn alert_border_cells(frame: u64, cols: u16, rows: u16) -> (r: Vec<BorderCell>)
    requires
        cols >= 4,
    ensures
        r@ == spec_border_cells(frame, cols, rows),
{
    let mut r: Vec<BorderCell> = Vec::new();
    let mut y: u16 = 0;
    while y < rows
        invariant
            y <= rows,
            cols >= 4,
            r@ == spec_border_cells(frame, cols, y),
        decreases rows - y,
    {
        let mut row = border_row_cells(frame, cols, y);
        let ghost r0 = r@;
        let ghost rowv = row@;
        r.append(&mut row);
        proof {
            assert(r@ == r0 + rowv);
            assert(r@ =~= spec_border_cells(frame, cols, (y + 1) as u16));
        }
        y = y + 1;
    }
    r
}

/// Alert border determinism: the glyph sequence of one frame is a function
/// of the frame number and the surface size alone; two renderings of the
/// same frame on the same surface draw the same glyphs.
pub proof fn lemma_border_deterministic(
    frame: u64,
    cols: u16,
    rows: u16,
    a: Seq<BorderCell>,
    b: Seq<BorderCell>,
)
    requires
        a == spec_border_cells(frame, cols, rows),
        b == spec_border_cells(frame, cols, rows),
    ensures
        a == b,
{
}

/// The horizontal shift the glitch effect applies to line `i` of the
/// artwork on frame `frame`: at most three cells either way, and zero on
/// most frames.
pub open spec fn spec_h_glitch(frame: u64, i: u64) -> int {
    if vstd::wrapping::u64_specs::wrapping_add(frame, (i << 3) % 5) % 284 <= 37 {
        let g = ((vstd::wrapping::u64_specs::wrapping_add(frame, i) << 3) % 213) % 4;
        if vstd::wrapping::u64_specs::wrapping_add(frame << 4, (i << 5) % 23) % 2 == 0 {
            -(g as int)
        } else {
            g as int
        }
    } else {
        0
    }
}

/// The vertical shift the glitch effect applies to line `i` of the artwork
/// on frame `frame`: at most two cells either way, and zero on most frames.
pub open spec fn spec_v_glitch(frame: u64, i: u64) -> int {
    if vstd::wrapping::u64_specs::wrapping_add(frame, (i << 2) % 7) % 361 <= 25 {
        let g = ((vstd::wrapping::u64_specs::wrapping_add(frame, i) << 3) % 213) % 3;
        if vstd::wrapping::u64_specs::wrapping_add(frame << 5, (i << 4) % 49) % 2 == 0 {
            -(g as int)
        } else {
            g as int
        }
    } else {
        0
    }
}

/// Compute the horizontal glitch shift of one artwork line.
pub fn h_glitch(frame: u64, i: u64) -> (r: i32)
    ensures
        r as int == spec_h_glitch(frame, i),
        -3 <= r <= 3,
{
    if frame.wrapping_add((i << 3) % 5) % 284 <= 37 {
        let g: u64 = ((frame.wrapping_add(i) << 3) % 213) % 4;
        let gi: i32 = g as i32;
        if (frame << 4).wrapping_add((i << 5) % 23) % 2 == 0 {
            -gi
        } else {
            gi
        }
    } else {
        0
    }
}

/// Compute the vertical glitch shift of one artwork line.
pub fn v_glitch(frame: u64, i: u64) -> (r: i32)
    ensures
        r as int == spec_v_glitch(frame, i),
        -2 <= r <= 2,
{
    if frame.wrapping_add((i << 2) % 7) % 361 <= 25 {
        let g: u64 = ((frame.wrapping_add(i) << 3) % 213) % 3;
        let gi: i32 = g as i32;
        if (frame << 5).wrapping_add((i << 4) % 49) % 2 == 0 {
            -gi
        } else {
            gi
        }
    } else {
        0
    }
}

/// The default Idle artwork.
pub open spec fn spec_default_info_art() -> Seq<char> {
    "  / \\  \n       \n  \\ /  \n"@
}

/// The default Warn artwork.
pub open spec fn spec_default_warn_art() -> Seq<char> {
    "       \n       \n   O   \n  /|\\  \n       \n"@
}

/// The default Alert artwork.
pub open spec fn spec_default_alert_art() -> Seq<char> {
    "   .   \n  / \\  \n / ! \\ \n+-----+\n"@
}

/// The ASCII art and background colour drawn for each severity.
pub struct WarnStateAsciiArt {
    pub info_art: String,
    pub warn_art: String,
    pub alert_art: String,
    pub info_color: Rgb,
    pub warn_color: Rgb,
    pub alert_color: Rgb,
}

/// The artwork drawn for severity `w`.
pub open spec fn spec_art_of(art: WarnStateAsciiArt, w: WarnStates) -> Seq<char> {
    match w {
        WarnStates::Idle => art.info_art@,
        WarnStates::Warn => art.warn_art@,
        WarnStates::Alert => art.alert_art@,
    }
}

/// The background colour of severity `w`.
pub open spec fn spec_color_of(art: WarnStateAsciiArt, w: WarnStates) -> Rgb {
    match w {
        WarnStates::Idle => art.info_color,
        WarnStates::Warn => art.warn_color,
        WarnStates::Alert => art.alert_color,
    }
}

/// The width one artwork renders at: its first line.
pub open spec fn spec_art_width(s: Seq<char>) -> int {
    spec_first_newline(s)
}

/// The height one artwork renders at: its line count.
pub open spec fn spec_art_height(s: Seq<char>) -> int {
    spec_lines(s).len() as int
}

/// The widest of the three artworks.
pub open spec fn spec_max_art_width(art: WarnStateAsciiArt) -> int {
    let wi = spec_art_width(art.info_art@);
    let ww = spec_art_width(art.warn_art@);
    let wa = spec_art_width(art.alert_art@);
    if wi >= ww && wi >= wa {
        wi
    } else if ww >= wa {
        ww
    } else {
        wa
    }
}

/// The tallest of the three artworks.
pub open spec fn spec_max_art_height(art: WarnStateAsciiArt) -> int {
    let hi = spec_art_height(art.info_art@);
    let hw = spec_art_height(art.warn_art@);
    let ha = spec_art_height(art.alert_art@);
    if hi >= hw && hi >= ha {
        hi
    } else if hw >= ha {
        hw
    } else {
        ha
    }
}

/// Find the first newline of `s`, or its length.
fn first_newline(s: &str) -> (r: usize)
    ensures
        r == spec_first_newline(s@),
{
    let n = s.unicode_len();
    let mut i: usize = 0;
    while i < n
        invariant
            i <= n,
            n == s@.len(),
            forall|j: int| 0 <= j < i ==> s@[j] != '\n',
        decreases n - i,
    {
        if s.get_char(i) == '\n' {
            proof {
                lemma_first_newline_unique(s@, i as int);
            }
            return i;
        }
        i = i + 1;
    }
    proof {
        lemma_first_newline_unique(s@, n as int);
    }
    n
}

impl WarnStateAsciiArt {
    /// The default Idle artwork.
    pub fn default_info_art() -> (r: String)
        ensures
            r@ == spec_default_info_art(),
    {
        String::from_str("  / \\  \n       \n  \\ /  \n")
    }

    /// The default Warn artwork.
    pub fn default_warn_art() -> (r: String)
        ensures
            r@ == spec_default_warn_art(),
    {
        String::from_str("       \n       \n   O   \n  /|\\  \n       \n")
    }

    /// The default Alert artwork.
    pub fn default_alert_art() -> (r: String)
        ensures
            r@ == spec_default_alert_art(),
    {
        String::from_str("   .   \n  / \\  \n / ! \\ \n+-----+\n")
    }

    /// The default colour of each severity: neutral dark, amber, red.
    pub fn new() -> (r: WarnStateAsciiArt)
        ensures
            r.info_art@ == spec_default_info_art(),
            r.warn_art@ == spec_default_warn_art(),
            r.alert_art@ == spec_default_alert_art(),
            r.info_color == (Rgb { r: 24, g: 24, b: 24 }),
            r.warn_color == (Rgb { r: 244, g: 131, b: 37 }),
            r.alert_color == (Rgb { r: 179, g: 0, b: 0 }),
    {
        WarnStateAsciiArt {
            info_art: Self::default_info_art(),
            warn_art: Self::default_warn_art(),
            alert_art: Self::default_alert_art(),
            info_color: Rgb { r: 24, g: 24, b: 24 },
            warn_color: Rgb { r: 244, g: 131, b: 37 },
            alert_color: Rgb { r: 179, g: 0, b: 0 },
        }
    }

    /// Use the given artworks, falling back to the default for any that is
    /// empty; colours stay the defaults.
    pub fn build(info_art: String, warn_art: String, alert_art: String) -> (r: WarnStateAsciiArt)
        ensures
            r.info_art@ == if info_art@.len() == 0 {
                spec_default_info_art()
            } else {
                info_art@
            },
            r.warn_art@ == if warn_art@.len() == 0 {
                spec_default_warn_art()
            } else {
                warn_art@
            },
            r.alert_art@ == if alert_art@.len() == 0 {
                spec_default_alert_art()
            } else {
                alert_art@
            },
            r.info_color == (Rgb { r: 24, g: 24, b: 24 }),
            r.warn_color == (Rgb { r: 244, g: 131, b: 37 }),
            r.alert_color == (Rgb { r: 179, g: 0, b: 0 }),
    {
        Self::build_with_color(
            info_art,
            warn_art,
            alert_art,
            Rgb { r: 24, g: 24, b: 24 },
            Rgb { r: 244, g: 131, b: 37 },
            Rgb { r: 179, g: 0, b: 0 },
        )
    }

    /// Use the given artworks and colours, falling back to the default
    /// artwork for any that is empty.
    pub fn build_with_color(
        info_art: String,
        warn_art: String,
        alert_art: String,
        info_color: Rgb,
        warn_color: Rgb,
        alert_color: Rgb,
    ) -> (r: WarnStateAsciiArt)
        ensures
            r.info_art@ == if info_art@.len() == 0 {
                spec_default_info_art()
            } else {
                info_art@
            },
            r.warn_art@ == if warn_art@.len() == 0 {
                spec_default_warn_art()
            } else {
                warn_art@
            },
            r.alert_art@ == if alert_art@.len() == 0 {
                spec_default_alert_art()
            } else {
                alert_art@
            },
            r.info_color == info_color,
            r.warn_color == warn_color,
            r.alert_color == alert_color,
    {
        let info = if info_art.as_str().is_empty() {
            Self::default_info_art()
        } else {
            info_art
        };
        let warn = if warn_art.as_str().is_empty() {
            Self::default_warn_art()
        } else {
            warn_art
        };
        let alert = if alert_art.as_str().is_empty() {
            Self::default_alert_art()
        } else {
            alert_art
        };
        WarnStateAsciiArt {
            info_art: info,
            warn_art: warn,
            alert_art: alert,
            info_color,
            warn_color,
            alert_color,
        }
    }

    /// The artwork of severity `warn_state`.
    pub fn to_ascii_art(&self, warn_state: &WarnStates) -> (r: &str)
        ensures
            r@ == spec_art_of(*self, *warn_state),
    {
        match warn_state {
            WarnStates::Idle => self.info_art.as_str(),
            WarnStates::Warn => self.warn_art.as_str(),
            WarnStates::Alert => self.alert_art.as_str(),
        }
    }

    /// The width of severity `warn_state`'s artwork.
    pub fn width(&self, warn_state: &WarnStates) -> (r: usize)
        ensures
            r == spec_art_width(spec_art_of(*self, *warn_state)),
    {
        first_newline(self.to_ascii_art(warn_state))
    }

    /// The height of severity `warn_state`'s artwork.
    pub fn height(&self, warn_state: &WarnStates) -> (r: usize)
        ensures
            r == spec_art_height(spec_art_of(*self, *warn_state)),
    {
        let lines = split_lines(self.to_ascii_art(warn_state));
        proof {
            assert(lines.deep_view().len() == lines@.len());
        }
        lines.len()
    }

    /// The widest of the three artworks.
    pub fn max_width(&self) -> (r: usize)
        ensures
            r == spec_max_art_width(*self),
    {
        let wi = self.width(&WarnStates::Idle);
        let ww = self.width(&WarnStates::Warn);
        let wa = self.width(&WarnStates::Alert);
        if wi >= ww && wi >= wa {
            wi
        } else if ww >= wa {
            ww
        } else {
            wa
        }
    }

    /// The tallest of the three artworks.
    pub fn max_height(&self) -> (r: usize)
        ensures
            r == spec_max_art_height(*self),
    {
        let hi = self.height(&WarnStates::Idle);
        let hw = self.height(&WarnStates::Warn);
        let ha = self.height(&WarnStates::Alert);
        if hi >= hw && hi >= ha {
            hi
        } else if hw >= ha {
            hw
        } else {
            ha
        }
    }

    /// The background colour of severity `warn_state`.
    pub fn color(&self, warn_state: &WarnStates) -> (r: Rgb)
        ensures
            r == spec_color_of(*self, *warn_state),
    {
        match warn_state {
            WarnStates::Idle => self.info_color,
            WarnStates::Warn => self.warn_color,
            WarnStates::Alert => self.alert_color,
        }
    }
}

/// Whether the surface is large enough to draw the artwork block: ten cells
/// of margin around the largest artwork, room for the blanking box above
/// the top-fifth line, and positions that stay within terminal coordinates.
pub open spec fn spec_surface_fits(art: WarnStateAsciiArt, cols: u16, rows: u16) -> bool {
    &&& cols >= spec_max_art_width(art) + 10
    &&& rows >= spec_max_art_height(art) + 10
    &&& rows >= 15
    &&& rows / 5 + spec_max_art_height(art) + 2 <= u16::MAX
}

/// Decide whether the surface is large enough; rendering a frame on a
/// smaller surface is refused instead of drawing garbage.
pub fn surface_fits(art: &WarnStateAsciiArt, cols: u16, rows: u16) -> (r: bool)
    ensures
        r == spec_surface_fits(*art, cols, rows),
{
    let maxw = art.max_width();
    let maxh = art.max_height();
    maxw <= usize::MAX - 10 && maxh <= usize::MAX - 10 && cols as usize >= maxw + 10
        && rows as usize >= maxh + 10 && rows >= 15 && (rows / 5) as usize + maxh + 2
        <= u16::MAX as usize
}

/// Where the artwork block sits: the box blanked around it (the largest
/// artwork plus the glitch margin) and the origin the current artwork is
/// drawn at.
#[derive(Debug, Clone, Copy, PartialEq, Eq, Structural)]
pub struct ArtPlacement {
    pub blank_x: u16,
    pub blank_y: u16,
    pub blank_cols: u16,
    pub blank_rows: u16,
    pub art_x: u16,
    pub art_y: u16,
}

/// The layout of the artwork block: the current artwork centred
/// horizontally at the top fifth of the surface, the blanking box around
/// the largest artwork with a four-cell horizontal and three-cell vertical
/// glitch margin.
pub open spec fn spec_placement(
    art: WarnStateAsciiArt,
    warn_state: WarnStates,
    cols: u16,
    rows: u16,
) -> ArtPlacement {
    ArtPlacement {
        blank_x: (cols / 2 - spec_max_art_width(art) / 2 - 4) as u16,
        blank_y: (rows / 5 - 3) as u16,
        blank_cols: (spec_max_art_width(art) + 7) as u16,
        blank_rows: (spec_max_art_height(art) + 5) as u16,
        art_x: (cols / 2 - spec_art_width(spec_art_of(art, warn_state)) / 2) as u16,
        art_y: rows / 5,
    }
}

impl ArtPlacement {
    /// Lay the artwork block out.
    pub fn compute(art: &WarnStateAsciiArt, warn_state: &WarnStates, cols: u16, rows: u16) -> (r:
        ArtPlacement)
        requires
            spec_surface_fits(*art, cols, rows),
        ensures
            r == spec_placement(*art, *warn_state, cols, rows),
            r.art_x >= 5,
            r.art_x <= cols / 2,
            r.art_y >= 3,
            r.art_y + spec_art_height(spec_art_of(*art, *warn_state)) + 1 <= u16::MAX,
    {
        let w = art.width(warn_state);
        let maxw = art.max_width();
        let maxh = art.max_height();
        proof {
            assert(spec_art_width(spec_art_of(*art, *warn_state)) <= spec_max_art_width(*art));
            assert(spec_art_height(spec_art_of(*art, *warn_state)) <= spec_max_art_height(*art));
        }
        ArtPlacement {
            blank_x: cols / 2 - (maxw / 2) as u16 - 4,
            blank_y: rows / 5 - 3,
            blank_cols: (maxw + 7) as u16,
            blank_rows: (maxh + 5) as u16,
            art_x: cols / 2 - (w / 2) as u16,
            art_y: rows / 5,
        }
    }
}

/// One artwork line placed on the surface.
pub struct ArtLine {
    pub x: u16,
    pub y: u16,
    pub text: String,
}

/// Mathematical image of an `ArtLine`.
pub ghost struct ArtLineView {
    pub x: u16,
    pub y: u16,
    pub text: Seq<char>,
}

impl View for ArtLine {
    type V = ArtLineView;

    open spec fn view(&self) -> ArtLineView {
        ArtLineView { x: self.x, y: self.y, text: self.text@ }
    }
}

/// Where each line of the artwork lands on frame `frame`: line `i` at the
/// art origin shifted by that line's glitch offsets.
pub open spec fn spec_art_lines(art_s: Seq<char>, frame: u64, art_x: u16, art_y: u16) -> Seq<
    ArtLineView,
> {
    spec_lines(art_s).map(
        |i: int, line: Seq<char>|
            ArtLineView {
                x: (art_x + spec_h_glitch(frame, i as u64)) as u16,
                y: (art_y + i + spec_v_glitch(frame, i as u64)) as u16,
                text: line,
            },
    )
}

/// Place the lines of the current artwork for one frame, glitch shifts
/// applied.
pub fn art_lines(art_s: &str, frame: u64, art_x: u16, art_y: u16) -> (r: Vec<ArtLine>)
    requires
        art_x >= 3,
        art_x + 3 <= u16::MAX,
        art_y >= 2,
        art_y + spec_art_height(art_s@) + 1 <= u16::MAX,
    ensures
        r@.map_values(|l: ArtLine| l@) == spec_art_lines(art_s@, frame, art_x, art_y),
{
    let lines = split_lines(art_s);
    let mut r: Vec<ArtLine> = Vec::new();
    let mut i: usize = 0;
    proof {
        assert(lines.deep_view().len() == lines@.len());
    }
    while i < lines.len()
        invariant
            i <= lines@.len(),
            lines.deep_view() == spec_lines(art_s@),
            lines.deep_view().len() == lines@.len(),
            art_x >= 3,
            art_x + 3 <= u16::MAX,
            art_y >= 2,
            art_y + lines@.len() + 1 <= u16::MAX,
            r@.map_values(|l: ArtLine| l@) =~= spec_art_lines(art_s@, frame, art_x, art_y).take(
                i as int,
            ),
        decreases lines@.len() - i,
    {
        let h = h_glitch(frame, i as u64);
        let v = v_glitch(frame, i as u64);
        let x: u16 = ((art_x as i32) + h) as u16;
        let y: u16 = ((art_y as i32) + (i as i32) + v) as u16;
        let line = ArtLine { x, y, text: lines[i].clone() };
        let ghost r0 = r@;
        r.push(line);
        proof {
            assert(lines@[i as int]@ == lines.deep_view()[i as int]);
            assert(r@.map_values(|l: ArtLine| l@) =~= r0.map_values(|l: ArtLine| l@).push(line@));
            assert(r@.map_values(|l: ArtLine| l@) =~= spec_art_lines(
                art_s@,
                frame,
                art_x,
                art_y,
            ).take(i + 1));
        }
        i = i + 1;
    }
    proof {
        assert(spec_art_lines(art_s@, frame, art_x, art_y).take(lines@.len() as int)
            =~= spec_art_lines(art_s@, frame, art_x, art_y));
    }
    r
}

/// The `[HH:MM] ` prefix of one history line, from a timestamp in seconds
/// since the epoch.
pub open spec fn spec_time_prefix(t: u64) -> Seq<char> {
    seq![
        '[',
        digit_char((((t % 86400) / 3600) / 10) as nat),
        digit_char((((t % 86400) / 3600) % 10) as nat),
        ':',
        digit_char((((t % 3600) / 60) / 10) as nat),
        digit_char((((t % 3600) / 60) % 10) as nat),
        ']',
        ' ',
    ]
}

/// Render the `[HH:MM] ` prefix of one history line.
pub fn format_timestamp(t: u64) -> (s: String)
    ensures
        s@ == spec_time_prefix(t),
{
    let hour: u64 = (t % 86400) / 3600;
    let min: u64 = (t % 3600) / 60;
    let mut s = String::new();
    push_char(&mut s, '[');
    let hh = two_digits(hour);
    s.append(hh.as_str());
    push_char(&mut s, ':');
    let mm = two_digits(min);
    s.append(mm.as_str());
    push_char(&mut s, ']');
    push_char(&mut s, ' ');
    proof {
        assert(s@ =~= spec_time_prefix(t));
    }
    s
}

/// One full history line: the time prefix, then the per-kind text. Packet
/// lines name the sender by its table name where it has one, except Name
/// packets, which always show the raw address; the packet text follows,
/// empty where the packet carried none.
pub open spec fn spec_item_line(item: LogItem, names: Map<PeerAddr, Seq<char>>) -> Seq<char> {
    spec_time_prefix(spec_timestamp(item)) + match item {
        LogItem::ConnectLogItem { peer_addr, .. } => spec_peer_text(peer_addr)
            + " has successfully associated."@,
        LogItem::DisconnectLogItem { peer_addr, .. } => spec_peer_text(peer_addr)
            + " has disconnected."@,
        LogItem::PacketLogItem { peer_addr, packet, .. } => spec_type_label(packet.packet_type)
            + " | "@ + (if packet.packet_type == PacketType::Name {
            spec_peer_text(peer_addr)
        } else {
            spec_display_name(names, peer_addr)
        }) + " | "@ + (match packet.text {
            Some(t) => t@,
            None => Seq::empty(),
        }),
    }
}

/// Render one history line.
pub fn format_log_item(item: &LogItem, peer_names: &NameTable) -> (s: String)
    requires
        peer_names.wf(),
    ensures
        s@ == spec_item_line(*item, peer_names@),
{
    let mut s = format_timestamp(item.timestamp());
    match item {
        LogItem::ConnectLogItem { peer_addr, .. } => {
            let pt = peer_addr.to_text();
            s.append(pt.as_str());
            s.append(" has successfully associated.");
        },
        LogItem::DisconnectLogItem { peer_addr, .. } => {
            let pt = peer_addr.to_text();
            s.append(pt.as_str());
            s.append(" has disconnected.");
        },
        LogItem::PacketLogItem { peer_addr, packet, .. } => {
            s.append(packet.packet_type.to_string());
            s.append(" | ");
            let use_addr = matches!(packet.packet_type, PacketType::Name);
            if use_addr {
                let pt = peer_addr.to_text();
                s.append(pt.as_str());
            } else {
                match peer_names.get(*peer_addr) {
                    Some(n) => {
                        s.append(n.as_str());
                    },
                    None => {
                        let pt = peer_addr.to_text();
                        s.append(pt.as_str());
                    },
                }
            }
            s.append(" | ");
            if let Some(t) = &packet.text {
                s.append(t.as_str());
            }
        },
    }
    proof {
        assert(s@ =~= spec_item_line(*item, peer_names@));
    }
    s
}

/// `s` cut into rows of at most `width` characters; an empty text yields no
/// rows.
pub open spec fn spec_wrap(s: Seq<char>, width: int) -> Seq<Seq<char>>
    decreases s.len(),
{
    if width < 1 || s.len() == 0 {
        seq![]
    } else if s.len() <= width {
        seq![s]
    } else {
        seq![s.take(width)] + spec_wrap(s.skip(width), width)
    }
}

/// Cut `s` into rows of at most `width` characters.
pub fn wrap_text(s: &str, width: usize) -> (r: Vec<String>)
    requires
        width >= 1,
    ensures
        r.deep_view() == spec_wrap(s@, width as int),
{
    let n = s.unicode_len();
    let mut r: Vec<String> = Vec::new();
    let mut start: usize = 0;
    proof {
        assert(s@.skip(0) =~= s@);
        assert(r.deep_view() + spec_wrap(s@, width as int) =~= spec_wrap(s@, width as int));
    }
    while start < n
        invariant
            start <= n,
            n == s@.len(),
            width >= 1,
            spec_wrap(s@, width as int) == r.deep_view() + spec_wrap(
                s@.skip(start as int),
                width as int,
            ),
        decreases n - start,
    {
        let end: usize = if n - start > width {
            start + width
        } else {
            n
        };
        let piece = s.substring_char(start, end).to_owned();
        let ghost r0 = r.deep_view();
        proof {
            let rest = s@.skip(start as int);
            if n - start > width {
                assert(rest.take(width as int) =~= s@.subrange(start as int, end as int));
                assert(rest.skip(width as int) =~= s@.skip(end as int));
            } else {
                assert(rest =~= s@.subrange(start as int, end as int));
                assert(s@.skip(end as int) =~= Seq::<char>::empty());
            }
        }
        r.push(piece);
        proof {
            assert(r.deep_view() =~= r0 + seq![piece@]);
            assert(spec_wrap(s@, width as int) =~= r.deep_view() + spec_wrap(
                s@.skip(end as int),
                width as int,
            ));
        }
        start = end;
    }
    proof {
        assert(s@.skip(start as int) =~= Seq::<char>::empty());
        assert(r.deep_view() + spec_wrap(Seq::<char>::empty(), width as int) =~= r.deep_view());
    }
    r
}

/// The pane rows one item contributes: packet lines wrap within the pane
/// width, connect and disconnect notices stand on one row.
pub open spec fn spec_item_rows(item: LogItem, names: Map<PeerAddr, Seq<char>>, width: int) -> Seq<
    Seq<char>,
> {
    match item {
        LogItem::PacketLogItem { .. } => spec_wrap(spec_item_line(item, names), width),
        _ => seq![spec_item_line(item, names)],
    }
}

/// The rows of the history pane: items newest first, each contributing its
/// rows, stopping once the pane is full.
pub open spec fn spec_history_rows(
    items: Seq<LogItem>,
    names: Map<PeerAddr, Seq<char>>,
    width: int,
    max_rows: int,
) -> Seq<Seq<char>>
    decreases items.len(),
{
    if items.len() == 0 || max_rows <= 0 {
        seq![]
    } else {
        let rows = spec_item_rows(items[0], names, width);
        if rows.len() >= max_rows {
            rows.take(max_rows)
        } else {
            rows + spec_history_rows(items.drop_first(), names, width, max_rows - rows.len())
        }
    }
}

/// Render the history pane: one string per row, newest item first, packet
/// text wrapped at the pane width, stopping once `max_rows` rows are
/// filled.
pub fn history_lines(
    packet_log: &VecDeque<LogItem>,
    peer_names: &NameTable,
    width: usize,
    max_rows: usize,
) -> (r: Vec<String>)
    requires
        width >= 1,
        peer_names.wf(),
    ensures
        r.deep_view() == spec_history_rows(
            packet_log@,
            peer_names@,
            width as int,
            max_rows as int,
        ),
{
    let ghost log = packet_log@;
    let ghost m = peer_names@;
    let mut r: Vec<String> = Vec::new();
    let mut i: usize = 0;
    proof {
        assert(log.skip(0) =~= log);
        assert(r.deep_view() + spec_history_rows(log, m, width as int, max_rows as int)
            =~= spec_history_rows(log, m, width as int, max_rows as int));
        assert(r.deep_view().len() == 0);
    }
    while i < packet_log.len() && r.len() < max_rows
        invariant
            i <= log.len(),
            log == packet_log@,
            m == peer_names@,
            peer_names.wf(),
            width >= 1,
            r.deep_view().len() == r@.len(),
            r@.len() <= max_rows,
            spec_history_rows(log, m, width as int, max_rows as int) == r.deep_view()
                + spec_history_rows(
                log.skip(i as int),
                m,
                width as int,
                max_rows - r@.len(),
            ),
        decreases log.len() - i,
    {
        let item = &packet_log[i];
        let line = format_log_item(item, peer_names);
        let mut rows: Vec<String> = match item {
            LogItem::PacketLogItem { .. } => wrap_text(line.as_str(), width),
            _ => {
                let mut v: Vec<String> = Vec::new();
                v.push(line);
                proof {
                    assert(v.deep_view() =~= seq![spec_item_line(log[i as int], m)]);
                }
                v
            },
        };
        proof {
            assert(rows.deep_view() =~= spec_item_rows(log[i as int], m, width as int));
            assert(log.skip(i as int)[0] == log[i as int]);
            assert(log.skip(i as int).drop_first() =~= log.skip(i as int + 1));
        }
        let ghost rows_v = rows.deep_view();
        let want = max_rows - r.len();
        if rows.len() >= want {
            rows.truncate(want);
            proof {
                assert(rows.deep_view() =~= rows_v.take(want as int));
            }
            let ghost r0 = r.deep_view();
            r.append(&mut rows);
            proof {
                assert(r.deep_view() =~= r0 + rows_v.take(want as int));
                assert(r.deep_view() =~= spec_history_rows(
                    log,
                    m,
                    width as int,
                    max_rows as int,
                ));
            }
            return r;
        }
        let ghost r0 = r.deep_view();
        let ghost rlen0 = r@.len();
        r.append(&mut rows);
        proof {
            assert(r.deep_view() =~= r0 + rows_v);
            assert(r.deep_view().len() == r@.len());
            assert(spec_history_rows(log, m, width as int, max_rows as int) =~= r.deep_view()
                + spec_history_rows(log.skip(i as int + 1), m, width as int, max_rows - r@.len()));
        }
        i = i + 1;
    }
    proof {
        if i == log.len() {
            assert(log.skip(i as int) =~= Seq::<LogItem>::empty());
        }
        assert(r.deep_view() + spec_history_rows(
            log.skip(i as int),
            m,
            width as int,
            max_rows - r@.len(),
        ) =~= r.deep_view());
    }
    r
}

/// Why a frame could not be planned.
#[derive(Debug, Clone, Copy, PartialEq, Eq, Structural)]
pub enum RenderError {
    /// The terminal is smaller than the artwork block needs: the frame is
    /// skipped and reported, nothing is drawn.
    SurfaceTooSmall,
}

/// The row the history pane starts at: two rows under the artwork block.
pub open spec fn spec_history_start_y(art: WarnStateAsciiArt, rows: u16) -> int {
    2 + spec_max_art_height(art) + rows / 5
}

/// How many rows the history pane holds: down to two rows above the bottom
/// edge, none when the artwork block leaves no room.
pub open spec fn spec_history_capacity(art: WarnStateAsciiArt, rows: u16) -> int {
    if rows >= spec_history_start_y(art, rows) + 3 {
        rows - 2 - spec_history_start_y(art, rows)
    } else {
        0
    }
}

/// The width packet text wraps at: the surface minus a four-cell margin on
/// either side.
pub open spec fn spec_pane_width(cols: u16) -> int {
    cols - 8
}

/// The history pane of one frame: where it sits, how text wraps, and its
/// rows, newest first.
pub struct HistoryPane {
    pub x: u16,
    pub y: u16,
    pub wrap_width: u16,
    pub capacity: u16,
    pub rows: Vec<String>,
}

/// Everything one frame draws, in drawing order. The terminal work that
/// carries it out stays outside the library.
pub struct FramePlan {
    /// Clear the whole surface first.
    pub clear_all: bool,
    /// The background colour behind the artwork.
    pub bg_color: Rgb,
    /// Where the artwork block sits and what box to blank around it.
    pub placement: ArtPlacement,
    /// The artwork lines, glitch offsets applied.
    pub art_lines: Vec<ArtLine>,
    /// In the alert state: the border cells of this frame, blanking pass
    /// first.
    pub border: Option<Vec<BorderCell>>,
    /// Out of the alert state, right after the severity changed: blank the
    /// border region.
    pub border_blank: Option<Vec<BorderCell>>,
    /// Draw or clear the focus indicator.
    pub focus_text: Option<&'static str>,
    /// Repaint the history pane.
    pub history: Option<HistoryPane>,
}

/// Plan one frame from the dashboard state and the dirty flags. Fails
/// exactly when the surface is too small for the artwork block, leaving
/// the flags untouched so the next frame retries; on success every region
/// whose flag was set is in the plan and all flags are cleared.
pub fn plan_frame(
    state: &crate::state::State,
    render_state: &mut RenderState,
    cols: u16,
    rows: u16,
    frame_number: u64,
) -> (r: Result<FramePlan, RenderError>)
    requires
        state.wf(),
    ensures
        r is Ok <==> spec_surface_fits(state.warn_state_ascii_art, cols, rows),
        r is Err ==> *final(render_state) == *old(render_state),
        r matches Ok(plan) ==> {
            let art = state.warn_state_ascii_art;
            let ws = state.warn_state;
            let placement = spec_placement(art, ws, cols, rows);
            &&& !final(render_state).focused_mode_changed
            &&& !final(render_state).warn_state_changed
            &&& !final(render_state).packet_log_changed
            &&& !final(render_state).clear_background
            &&& plan.clear_all == old(render_state).clear_background
            &&& plan.bg_color == spec_color_of(art, ws)
            &&& plan.placement == placement
            &&& plan.art_lines@.map_values(|l: ArtLine| l@) == spec_art_lines(
                spec_art_of(art, ws),
                frame_number,
                placement.art_x,
                placement.art_y,
            )
            &&& if ws == WarnStates::Alert {
                plan.border matches Some(cells) && cells@ == spec_border_blank(cols, rows)
                    + spec_border_cells(frame_number, cols, rows)
            } else {
                plan.border is None
            }
            &&& if ws != WarnStates::Alert && old(render_state).warn_state_changed {
                plan.border_blank matches Some(cells) && cells@ == spec_border_blank(cols, rows)
            } else {
                plan.border_blank is None
            }
            &&& if old(render_state).focused_mode_changed {
                plan.focus_text matches Some(t) && t@ == if state.is_focused_mode {
                    "Focus!"@
                } else {
                    "      "@
                }
            } else {
                plan.focus_text is None
            }
            &&& if old(render_state).packet_log_changed {
                plan.history matches Some(p) && {
                    &&& p.x == 4
                    &&& p.y == spec_history_start_y(art, rows)
                    &&& p.wrap_width == spec_pane_width(cols)
                    &&& p.capacity == spec_history_capacity(art, rows)
                    &&& p.rows.deep_view() == spec_history_rows(
                        state.packet_log@,
                        state.peer_names@,
                        spec_pane_width(cols),
                        spec_history_capacity(art, rows),
                    )
                }
            } else {
                plan.history is None
            }
        },
{
    let art = &state.warn_state_ascii_art;
    if !surface_fits(art, cols, rows) {
        return Err(RenderError::SurfaceTooSmall);
    }
    proof {
        lemma_first_newline_props(art.info_art@);
        lemma_first_newline_props(art.warn_art@);
        lemma_first_newline_props(art.alert_art@);
        assert(cols >= 10);
    }
    let placement = ArtPlacement::compute(art, &state.warn_state, cols, rows);
    let art_s = art.to_ascii_art(&state.warn_state);
    let lines = art_lines(art_s, frame_number, placement.art_x, placement.art_y);

    let is_alert = matches!(state.warn_state, WarnStates::Alert);
    let border = if is_alert {
        let mut cells = border_blank_cells(cols, rows);
        let ghost blank = cells@;
        let mut anim = alert_border_cells(frame_number, cols, rows);
        cells.append(&mut anim);
        proof {
            assert(cells@ == blank + spec_border_cells(frame_number, cols, rows));
        }
        Some(cells)
    } else {
        None
    };
    let border_blank = if !is_alert && render_state.warn_state_changed {
        Some(border_blank_cells(cols, rows))
    } else {
        None
    };

    let focus_text = if render_state.focused_mode_changed {
        if state.is_focused_mode {
            Some("Focus!")
        } else {
            Some("      ")
        }
    } else {
        None
    };

    let history = if render_state.packet_log_changed {
        let maxh = art.max_height();
        let start_y: usize = 2 + maxh + (rows / 5) as usize;
        let capacity: usize = if rows as usize >= start_y + 3 {
            rows as usize - 2 - start_y
        } else {
            0
        };
        let wrap_width: usize = (cols - 8) as usize;
        let pane_rows = history_lines(&state.packet_log, &state.peer_names, wrap_width, capacity);
        Some(
            HistoryPane {
                x: 4,
                y: start_y as u16,
                wrap_width: wrap_width as u16,
                capacity: capacity as u16,
                rows: pane_rows,
            },
        )
    } else {
        None
    };

    let plan = FramePlan {
        clear_all: render_state.clear_background,
        bg_color: art.color(&state.warn_state),
        placement,
        art_lines: lines,
        border,
        border_blank,
        focus_text,
        history,
    };
    *render_state = RenderState::new();
    Ok(plan)
}

} // verus!

use cp437_tools::render::{Event, Glyph, RenderError, Renderer, Warning};
use cp437_tools::ColourScheme;

fn run(bytes: &[u8], width: u16, height: u16, palette: [[u8; 3]; 16]) -> (Renderer, Result<Vec<Event>, RenderError>) {
    let mut r = Renderer::new(width, height, palette);
    let mut events = vec![];
    for b in bytes {
        match r.step(*b) {
            Ok(ev) => events.extend(ev),
            Err(e) => return (r, Err(e)),
        }
    }
    (r, Ok(events))
}

fn glyphs(events: &[Event]) -> Vec<(u8, (u16, u16), [[u8; 3]; 2])> {
    events
        .iter()
        .filter_map(|e| match e {
            Event::Draw(g) => Some((g.byte, (g.x, g.y), [g.bg, g.fg])),
            Event::Warn(_) => None,
        })
        .collect()
}

#[test]
fn bright_yellow_a() {
    let p = ColourScheme::CLASSIC.colours();
    let (_, events) = run(b"\x1B[1;33mA", 32, 8, p);
    let events = events.unwrap();
    assert_eq!(glyphs(&events), vec![(0x41, (0, 0), [p[0], p[11]])]);
    assert_eq!(events.len(), 1);
}

#[test]
fn plain_text_wraps_at_width() {
    let p = ColourScheme::CLASSIC.colours();
    let (r, events) = run(b"abcde", 2, 8, p);
    let g = glyphs(&events.unwrap());
    let positions: Vec<(u16, u16)> = g.iter().map(|x| x.1).collect();
    assert_eq!(positions, vec![(0, 0), (1, 0), (0, 1), (1, 1), (0, 2)]);
    assert_eq!((r.x, r.y), (1, 2));
    assert!(g.iter().all(|x| x.2 == [p[0], p[15]]));
}

#[test]
fn line_endings_move_the_cursor() {
    let p = ColourScheme::CLASSIC.colours();
    let (r, events) = run(b"ab\rc\nd", 80, 25, p);
    let positions: Vec<(u16, u16)> = glyphs(&events.unwrap()).iter().map(|x| x.1).collect();
    assert_eq!(positions, vec![(0, 0), (1, 0), (0, 0), (0, 1)]);
    assert_eq!((r.x, r.y), (1, 1));
}

#[test]
fn rows_past_the_height_are_skipped() {
    let p = ColourScheme::CLASSIC.colours();
    let (_, events) = run(b"a\nb\nc", 80, 2, p);
    let bytes: Vec<u8> = glyphs(&events.unwrap()).iter().map(|x| x.0).collect();
    assert_eq!(bytes, vec![b'a', b'b']);
}

#[test]
fn sgr_colours() {
    let p = ColourScheme::CLASSIC.colours();
    let (_, events) = run(b"\x1B[31;44mx\x1B[0my\x1B[91;103mz\x1B[39;49mw\x1B[mv", 80, 25, p);
    assert_eq!(
        glyphs(&events.unwrap()),
        vec![
            (b'x', (0, 0), [p[4], p[1]]),
            (b'y', (1, 0), [p[0], p[15]]),
            (b'z', (2, 0), [p[11], p[9]]),
            (b'w', (3, 0), [p[0], p[15]]),
            (b'v', (4, 0), [p[0], p[15]]),
        ]
    );
}

#[test]
fn unknown_sgr_is_a_warning() {
    let p = ColourScheme::CLASSIC.colours();
    let (_, events) = run(b"\x1B[5;33;7mx", 80, 25, p);
    let events = events.unwrap();
    assert_eq!(events[0], Event::Warn(Warning::UnknownSgr(5)));
    assert_eq!(events[1], Event::Warn(Warning::UnknownSgr(7)));
    assert_eq!(glyphs(&events), vec![(b'x', (0, 0), [p[0], p[3]])]);
}

#[test]
fn custom_rgb_codes() {
    let p = ColourScheme::CLASSIC.colours();
    let (_, events) = run(b"\x1B[0;1;2;3t\x1B[1;250;251;252tx\x1B[2;0;0;0t", 80, 25, p);
    let events = events.unwrap();
    assert_eq!(
        events[0],
        Event::Draw(Glyph { byte: b'x', x: 0, y: 0, bg: [1, 2, 3], fg: [250, 251, 252] })
    );
    assert_eq!(events[1], Event::Warn(Warning::InvalidRgbTarget(b"2".to_vec())));
}

#[test]
fn cursor_codes() {
    let p = ColourScheme::CLASSIC.colours();
    let (_, events) = run(b"\x1B[2Ba\x1B[100Cb\x1B[+3Bc", 10, 25, p);
    let positions: Vec<(u16, u16)> = glyphs(&events.unwrap()).iter().map(|x| x.1).collect();
    assert_eq!(positions, vec![(0, 2), (9, 2), (0, 6)]);
}

#[test]
fn unknown_sequence_is_dropped() {
    let p = ColourScheme::CLASSIC.colours();
    let (r, events) = run(b"\x1B[2Jx", 80, 25, p);
    let events = events.unwrap();
    assert_eq!(events[0], Event::Warn(Warning::InvalidControl(b'J')));
    assert_eq!(glyphs(&events), vec![(b'x', (0, 0), [p[0], p[15]])]);
    assert!(r.control.is_empty());
}

#[test]
fn malformed_sequences_are_errors() {
    let p = ColourScheme::CLASSIC.colours();
    assert_eq!(run(b"\x1B[1;+m", 80, 25, p).1, Err(RenderError::BadNumber));
    assert_eq!(run(b"\x1B[B", 80, 25, p).1, Err(RenderError::BadNumber));
    assert_eq!(run(b"\x1B[0;1t", 80, 25, p).1, Err(RenderError::MissingField));
    assert_eq!(run(b"\x1B[0;1;2;300t", 80, 25, p).1, Err(RenderError::BadNumber));
    assert_eq!(run(b"\x1Bm", 80, 25, p).1, Err(RenderError::NoParameters));
    assert_eq!(run(b"\x1B[\xFF;1;2;3t", 80, 25, p).1, Err(RenderError::NotText));
}

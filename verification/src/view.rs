//! What the panels and overlays show: mode names, key tables, port lists,
//! log filtering and match highlighting, and the log scroll position.
use std::collections::VecDeque;
use vstd::prelude::*;
use crate::colour::Colour;
use crate::container::PortBinding;
use crate::text::{chars_of, contains_seq, find_from, first_occ_from, lemma_first_occ_bounds};
use crate::ui_state::AppMode;

verus! {

/// The mode indicator of the status line.
pub open spec fn spec_mode_label(mode: AppMode) -> Seq<char> {
    match mode {
        AppMode::Normal => "NORMAL"@,
        AppMode::Logs => "LOGS"@,
        AppMode::Command => "COMMAND"@,
        AppMode::HostManager => "HOST"@,
        AppMode::Help => "HELP"@,
    }
}

pub fn mode_label(mode: AppMode) -> (s: &'static str)
    ensures
        s@ == spec_mode_label(mode),
{
    match mode {
        AppMode::Normal => "NORMAL",
        AppMode::Logs => "LOGS",
        AppMode::Command => "COMMAND",
        AppMode::HostManager => "HOST",
        AppMode::Help => "HELP",
    }
}

pub open spec fn spec_mode_colour(mode: AppMode) -> Colour {
    match mode {
        AppMode::Normal => Colour::Blue,
        AppMode::Logs => Colour::Cyan,
        AppMode::Command => Colour::Magenta,
        AppMode::HostManager => Colour::Yellow,
        AppMode::Help => Colour::Green,
    }
}

/// Background colour of the mode indicator.
pub fn mode_colour(mode: AppMode) -> (c: Colour)
    ensures
        c == spec_mode_colour(mode),
{
    match mode {
        AppMode::Normal => Colour::Blue,
        AppMode::Logs => Colour::Cyan,
        AppMode::Command => Colour::Magenta,
        AppMode::HostManager => Colour::Yellow,
        AppMode::Help => Colour::Green,
    }
}

/// The mode named in the help popup's title; help lists the Normal keys.
pub open spec fn spec_mode_name(mode: AppMode) -> Seq<char> {
    match mode {
        AppMode::Normal => "Normal"@,
        AppMode::Logs => "Logs"@,
        AppMode::Command => "Command"@,
        AppMode::HostManager => "Host Manager"@,
        AppMode::Help => "Normal"@,
    }
}

pub fn mode_name(mode: AppMode) -> (s: &'static str)
    ensures
        s@ == spec_mode_name(mode),
{
    match mode {
        AppMode::Normal => "Normal",
        AppMode::Logs => "Logs",
        AppMode::Command => "Command",
        AppMode::HostManager => "Host Manager",
        AppMode::Help => "Normal",
    }
}

/// The safe-mode indicator: its text and colour.
pub fn safe_mode_indicator(safe_mode: bool) -> (r: (&'static str, Colour))
    ensures
        safe_mode ==> r.0@ == "safe mode ON"@ && r.1 == Colour::Green,
        !safe_mode ==> r.0@ == "safe mode OFF"@ && r.1 == Colour::Red,
{
    if safe_mode {
        ("safe mode ON", Colour::Green)
    } else {
        ("safe mode OFF", Colour::Red)
    }
}

/// A row of the help popup.
pub struct Binding {
    pub key: &'static str,
    pub action: &'static str,
}

/// The help table of a mode: Logs mode has its own keys; Normal, and the
/// overlays over it, share the Normal table.
pub open spec fn spec_bindings(mode: AppMode) -> Seq<(Seq<char>, Seq<char>)> {
    match mode {
        AppMode::Logs => seq![
            ("j / k"@, "Scroll logs down / up"@),
            ("f"@, "Toggle follow mode"@),
            ("/"@, "Filter logs by string"@),
            ("t"@, "Toggle timestamps"@),
            ("Esc"@, "Return to Normal"@),
        ],
        _ => seq![
            ("j / k"@, "Move selection down / up"@),
            ("g / G"@, "Jump to top / bottom"@),
            ("l"@, "Enter Logs mode"@),
            ("d"@, "Toggle detail panel"@),
            ("Tab / S-Tab"@, "Next / previous host"@),
            ("s / S"@, "Start / stop container"@),
            ("r / x"@, "Restart / remove container"@),
            ("e / p"@, "Exec shell / pull image"@),
            ("H"@, "Open host manager"@),
            ("m"@, "Toggle safe mode"@),
            (": / ?"@, "Command palette / help"@),
            ("q"@, "Quit"@),
        ],
    }
}

/// The rows of a help table as text pairs.
pub open spec fn binding_rows(v: Seq<Binding>) -> Seq<(Seq<char>, Seq<char>)> {
    v.map_values(|b: Binding| (b.key@, b.action@))
}

pub fn bindings_for_mode(mode: AppMode) -> (v: Vec<Binding>)
    ensures
        binding_rows(v@) == spec_bindings(mode),
{
    match mode {
        AppMode::Logs => {
            let v = vec![
                Binding { key: "j / k", action: "Scroll logs down / up" },
                Binding { key: "f", action: "Toggle follow mode" },
                Binding { key: "/", action: "Filter logs by string" },
                Binding { key: "t", action: "Toggle timestamps" },
                Binding { key: "Esc", action: "Return to Normal" },
            ];
            assert(binding_rows(v@) =~= spec_bindings(mode));
            v
        },
        _ => {
            let v = vec![
                Binding { key: "j / k", action: "Move selection down / up" },
                Binding { key: "g / G", action: "Jump to top / bottom" },
                Binding { key: "l", action: "Enter Logs mode" },
                Binding { key: "d", action: "Toggle detail panel" },
                Binding { key: "Tab / S-Tab", action: "Next / previous host" },
                Binding { key: "s / S", action: "Start / stop container" },
                Binding { key: "r / x", action: "Restart / remove container" },
                Binding { key: "e / p", action: "Exec shell / pull image" },
                Binding { key: "H", action: "Open host manager" },
                Binding { key: "m", action: "Toggle safe mode" },
                Binding { key: ": / ?", action: "Command palette / help" },
                Binding { key: "q", action: "Quit" },
            ];
            assert(binding_rows(v@) =~= spec_bindings(mode));
            v
        },
    }
}

/// Port bindings joined by `", "`, or `"—"` when there are none.
pub open spec fn ports_text(ports: Seq<PortBinding>) -> Seq<char>
    decreases ports.len(),
{
    if ports.len() == 0 {
        "—"@
    } else if ports.len() == 1 {
        ports[0].spec_display()
    } else {
        ports_text(ports.drop_last()) + ", "@ + ports.last().spec_display()
    }
}

pub fn format_ports(ports: &Vec<PortBinding>) -> (s: String)
    ensures
        s@ == ports_text(ports@),
{
    if ports.len() == 0 {
        return String::from_str("—");
    }
    let mut s = ports[0].display();
    let mut i: usize = 1;
    assert(ports@.take(1).drop_last() =~= Seq::<PortBinding>::empty());
    while i < ports.len()
        invariant
            1 <= i <= ports@.len(),
            s@ == ports_text(ports@.take(i as int)),
        decreases ports@.len() - i,
    {
        assert(ports@.take(i as int + 1).drop_last() =~= ports@.take(i as int));
        s.append(", ");
        let d = ports[i].display();
        s.append(d.as_str());
        i = i + 1;
    }
    assert(ports@.take(i as int) =~= ports@);
    s
}

/// The text of an optional string slice.
pub open spec fn opt_text(o: Option<&str>) -> Option<Seq<char>> {
    match o {
        Some(f) => Some(f@),
        None => None,
    }
}

/// The log lines a filter lets through: all of them without a filter or
/// with an empty one, else those containing it.
pub open spec fn filtered_lines(lines: Seq<String>, filter: Option<Seq<char>>) -> Seq<String> {
    match filter {
        Some(f) => if f.len() > 0 {
            lines.filter(|l: String| contains_seq(l@, f))
        } else {
            lines
        },
        None => lines,
    }
}

pub fn apply_filter<'a>(lines: &'a VecDeque<String>, filter: Option<&str>) -> (r: Vec<&'a str>)
    ensures
        r@.len() == filtered_lines(lines@, opt_text(filter)).len(),
        forall|i: int| 0 <= i < r@.len() ==> (#[trigger] r@[i])@ == filtered_lines(lines@, opt_text(filter))[i]@,
{
    let ghost want = filtered_lines(lines@, opt_text(filter));
    let fchars = match filter {
        Some(f) => chars_of(f),
        None => Vec::new(),
    };
    let use_filter = fchars.len() > 0;
    let ghost pred = |l: String| contains_seq(l@, fchars@);
    let mut r: Vec<&'a str> = Vec::new();
    let mut i: usize = 0;
    let ghost done: Seq<String> = Seq::empty();
    while i < lines.len()
        invariant
            i <= lines@.len(),
            pred == (|l: String| contains_seq(l@, fchars@)),
            use_filter == (fchars@.len() > 0),
            filter is None ==> fchars@.len() == 0,
            filter matches Some(f) ==> fchars@ == f@,
            done == (if use_filter { lines@.take(i as int).filter(pred) } else { lines@.take(i as int) }),
            r@.len() == done.len(),
            forall|k: int| 0 <= k < r@.len() ==> (#[trigger] r@[k])@ == done[k]@,
        decreases lines@.len() - i,
    {
        let ghost t0 = lines@.take(i as int);
        proof {
            assert(lines@.take(i as int + 1) =~= t0.push(lines@[i as int]));
            t0.lemma_filter_push(lines@[i as int], pred);
        }
        let line = &lines[i];
        let keep = if use_filter {
            let lc = chars_of(line.as_str());
            find_from(&lc, &fchars, 0).is_some()
        } else {
            true
        };
        if keep {
            r.push(line.as_str());
            proof {
                done = done.push(lines@[i as int]);
            }
        }
        i = i + 1;
    }
    proof {
        assert(lines@.take(i as int) =~= lines@);
        assert(done == want);
    }
    r
}

/// A run of a log line, highlighted when it is a match of the filter.
pub struct Segment {
    pub text: String,
    pub highlighted: bool,
}

/// The runs of `s` from index `k`: plain text between matches of `needle`
/// (non-empty runs only) and each leftmost non-overlapping match.
pub open spec fn segments_from(s: Seq<char>, needle: Seq<char>, k: int) -> Seq<(Seq<char>, bool)>
    decreases s.len() + 1 - k,
{
    if needle.len() == 0 || k < 0 || k > s.len() {
        Seq::empty()
    } else {
        match first_occ_from(s, needle, k) {
            None => if k < s.len() { seq![(s.subrange(k, s.len() as int), false)] } else { Seq::empty() },
            Some(q) => {
                proof {
                    lemma_first_occ_bounds(s, needle, k);
                }
                (if q > k { seq![(s.subrange(k, q), false)] } else { Seq::empty() }) + seq![(needle, true)]
                    + segments_from(s, needle, q + needle.len())
            },
        }
    }
}

/// How a log line is drawn: one plain run without a filter (or with an
/// empty one), else its runs around the filter's matches.
pub open spec fn highlight_runs(line: Seq<char>, filter: Option<Seq<char>>) -> Seq<(Seq<char>, bool)> {
    match filter {
        Some(f) => if f.len() > 0 { segments_from(line, f, 0) } else { seq![(line, false)] },
        None => seq![(line, false)],
    }
}

/// The runs of a segment list as text and flag.
pub open spec fn segment_runs(v: Seq<Segment>) -> Seq<(Seq<char>, bool)> {
    v.map_values(|x: Segment| (x.text@, x.highlighted))
}

fn string_of_range(cs: &Vec<char>, from: usize, to: usize) -> (s: String)
    requires
        from <= to <= cs@.len(),
    ensures
        s@ == cs@.subrange(from as int, to as int),
{
    let mut s = String::new();
    let mut i = from;
    while i < to
        invariant
            from <= i <= to,
            to <= cs@.len(),
            s@ == cs@.subrange(from as int, i as int),
        decreases to - i,
    {
        s.push(cs[i]);
        i = i + 1;
        assert(s@ =~= cs@.subrange(from as int, i as int));
    }
    s
}

pub fn highlight_filter(line: &str, filter: Option<&str>) -> (v: Vec<Segment>)
    ensures
        segment_runs(v@) == highlight_runs(line@, opt_text(filter)),
{
    let needle = match filter {
        Some(f) => chars_of(f),
        None => Vec::new(),
    };
    if needle.len() == 0 {
        let mut v: Vec<Segment> = Vec::new();
        v.push(Segment { text: String::from_str(line), highlighted: false });
        assert(segment_runs(v@) =~= highlight_runs(line@, opt_text(filter)));
        return v;
    }
    let cs = chars_of(line);
    let ghost s = cs@;
    let ghost n = needle@;
    let mut v: Vec<Segment> = Vec::new();
    let mut k: usize = 0;
    assert(cs@.len() == cs.len());
    assert(segment_runs(v@) =~= Seq::<(Seq<char>, bool)>::empty());
    assert(segments_from(s, n, 0) =~= segment_runs(v@) + segments_from(s, n, 0));
    loop
        invariant_except_break
            segments_from(s, n, 0) == segment_runs(v@) + segments_from(s, n, k as int),
        invariant
            k <= s.len(),
            cs@ == s,
            needle@ == n,
            n.len() > 0,
            s == line@,
            filter matches Some(f) && f@ == n,
            s.len() <= usize::MAX,
        ensures
            segments_from(s, n, 0) == segment_runs(v@),
        decreases s.len() + 1 - k,
    {
        let ghost before = segment_runs(v@);
        match find_from(&cs, &needle, k) {
            None => {
                if k < cs.len() {
                    let t = string_of_range(&cs, k, cs.len());
                    v.push(Segment { text: t, highlighted: false });
                }
                assert(segment_runs(v@) =~= before + segments_from(s, n, k as int));
                break;
            },
            Some(q) => {
                proof {
                    lemma_first_occ_bounds(s, n, k as int);
                }
                if q > k {
                    let t = string_of_range(&cs, k, q);
                    v.push(Segment { text: t, highlighted: false });
                }
                let hit = string_of_range(&cs, q, q + needle.len());
                v.push(Segment { text: hit, highlighted: true });
                let ghost head = (if q > k { seq![(s.subrange(k as int, q as int), false)] } else { Seq::empty() })
                    + seq![(n, true)];
                assert(segment_runs(v@) =~= before + head);
                k = q + needle.len();
                assert(segments_from(s, n, 0) =~= segment_runs(v@) + segments_from(s, n, k as int));
            },
        }
    }
    v
}

/// Scroll offset of the log panel: following, the last screenful of lines
/// (the line count, capped at `u16::MAX`) inside a bordered area of
/// `area_height` rows; otherwise the manual offset.
pub fn log_scroll_offset(follow: bool, n_lines: usize, area_height: u16, manual: u16) -> (y: u16)
    ensures
        !follow ==> y == manual,
        follow ==> y == ({
            let inner = if area_height >= 2 { area_height - 2 } else { 0 };
            let n = if n_lines > u16::MAX { u16::MAX as int } else { n_lines as int };
            if n >= inner { n - inner } else { 0 }
        }),
{
    let inner = area_height.saturating_sub(2);
    if follow {
        let n: u16 = if n_lines > u16::MAX as usize { u16::MAX } else { n_lines as u16 };
        n.saturating_sub(inner)
    } else {
        manual
    }
}

} // verus!

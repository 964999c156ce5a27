//! The command palette: the actions offered for the selected container,
//! fuzzy matching of the typed query, and their ranking.
use vstd::prelude::*;
use crate::container::ContainerState;
use crate::host::HostState;
use crate::messages::{HostCommand, PaletteAction};
use crate::text::chars_of;

verus! {

/// Most query characters that can be matched before the running score
/// would overflow a `u32`.
pub const MAX_MATCHED: usize = 92681;

/// The Unicode lower-case form of a string, as `str::to_lowercase` computes it.
pub uninterp spec fn lowercase(s: Seq<char>) -> Seq<char>;

/// Calls `str::to_lowercase`; the result is named `lowercase` of the input
/// (the Unicode case mapping is not spelled out here).
#[verifier::external_body]
fn to_lowercase(s: &str) -> (r: String)
    ensures
        r@ == lowercase(s@),
{
    s.to_lowercase()
}

/// Index of the first `c` in `l`.
pub open spec fn find_char(l: Seq<char>, c: char) -> Option<int>
    decreases l.len(),
{
    if l.len() == 0 {
        None
    } else if l[0] == c {
        Some(0)
    } else {
        match find_char(l.drop_first(), c) {
            Some(i) => Some(i + 1),
            None => None,
        }
    }
}

/// How many characters of `q`, taken in order, a left-to-right scan of `l`
/// matches before one is missing (each match consumes `l` up to and
/// including the matched character).
pub open spec fn greedy(q: Seq<char>, l: Seq<char>) -> nat
    decreases q.len(),
{
    if q.len() == 0 {
        0
    } else {
        match find_char(l, q[0]) {
            None => 0,
            Some(i) => 1 + greedy(q.drop_first(), l.skip(i + 1)),
        }
    }
}

/// `1 + 2 + ... + n`.
pub open spec fn triangle(n: nat) -> nat
    decreases n,
{
    if n == 0 { 0 } else { n + triangle((n - 1) as nat) }
}

/// Query characters matched against a label, both lower-cased.
pub open spec fn matched(query: Seq<char>, label: Seq<char>) -> nat {
    greedy(lowercase(query), lowercase(label))
}

/// What the matches of `q`, read greedily out of `l`, score. `streak` is
/// the run of adjacent matches just made (0 before the first match): a match
/// right after the previous one extends the run, any other starts a run of
/// one, and each match adds the length of its run, so adjacent matches
/// compound.
pub open spec fn run_score(q: Seq<char>, l: Seq<char>, streak: nat) -> nat
    decreases q.len(),
{
    if q.len() == 0 {
        0
    } else {
        match find_char(l, q[0]) {
            None => 0,
            Some(i) => {
                let s: nat = if streak > 0 && i == 0 { streak + 1 } else { 1 };
                s + run_score(q.drop_first(), l.skip(i + 1), s)
            },
        }
    }
}

/// The fuzzy score of `label` for `query`: when every character of the
/// lower-cased query is found in order in the lower-cased label, the score
/// of the matches (see `run_score`) plus one; otherwise zero.
pub open spec fn score_of(query: Seq<char>, label: Seq<char>) -> nat {
    let q = lowercase(query);
    if matched(query, label) == q.len() { run_score(q, lowercase(label), 0) + 1 } else { 0 }
}

/// The matches score at most as if every one extended the run.
proof fn lemma_run_score_bound(q: Seq<char>, l: Seq<char>, streak: nat)
    ensures
        run_score(q, l, streak) <= greedy(q, l) * streak + triangle(greedy(q, l)),
    decreases q.len(),
{
    if q.len() > 0 {
        if let Some(i) = find_char(l, q[0]) {
            let s: nat = if streak > 0 && i == 0 { streak + 1 } else { 1 };
            let m = greedy(q.drop_first(), l.skip(i + 1));
            lemma_run_score_bound(q.drop_first(), l.skip(i + 1), s);
            assert(greedy(q, l) == m + 1);
            assert(triangle(m + 1) == m + 1 + triangle(m));
            assert(s + m * s <= (m + 1) * streak + m + 1) by (nonlinear_arith)
                requires s <= streak + 1;
        }
    }
}

proof fn lemma_triangle_bound(n: nat)
    requires
        n <= MAX_MATCHED,
    ensures
        triangle(n) <= 4294930221,
        triangle(n) == n * (n + 1) / 2,
    decreases n,
{
    if n > 0 {
        let m = (n - 1) as nat;
        lemma_triangle_bound(m);
        assert(triangle(n) == n + triangle(m));
        assert(m * (m + 1) / 2 + n == n * (n + 1) / 2) by (nonlinear_arith)
            requires n > 0, m == n - 1;
        assert(triangle(n) == n * (n + 1) / 2);
        assert(n * (n + 1) / 2 <= 92681 * 92682 / 2) by (nonlinear_arith)
            requires n <= 92681;
    } else {
        assert(n * (n + 1) / 2 == 0) by (nonlinear_arith)
            requires n == 0;
    }
}

proof fn lemma_find_char(l: Seq<char>, c: char)
    ensures
        find_char(l, c) matches Some(i) ==> 0 <= i < l.len() && l[i] == c
            && forall|j: int| 0 <= j < i ==> l[j] != c,
        find_char(l, c) is None ==> forall|j: int| 0 <= j < l.len() ==> l[j] != c,
    decreases l.len(),
{
    if l.len() > 0 {
        lemma_find_char(l.drop_first(), c);
        if l[0] != c {
            assert forall|j: int| 1 <= j < l.len() implies l[j] == l.drop_first()[j - 1] by {}
        }
    }
}

proof fn lemma_greedy_le(q: Seq<char>, l: Seq<char>)
    ensures
        greedy(q, l) <= q.len(),
    decreases q.len(),
{
    if q.len() > 0 {
        if let Some(i) = find_char(l, q[0]) {
            lemma_greedy_le(q.drop_first(), l.skip(i + 1));
        }
    }
}

/// The score of `query` against `label` as they stand (no case folding):
/// when every character of the query is found in order in the label, the
/// score of the matches (see `run_score`) plus one; otherwise zero.
pub fn fuzzy_score(query: &str, label: &str) -> (s: u32)
    requires
        greedy(query@, label@) <= MAX_MATCHED,
    ensures
        s == (if greedy(query@, label@) == query@.len() { run_score(query@, label@, 0) + 1 } else { 0 }),
{
    let q = chars_of(query);
    let l = chars_of(label);
    let ghost qs = q@;
    let ghost ls = l@;
    let mut total: u32 = 0;
    let mut streak: u32 = 0;
    let mut pos: usize = 0;
    let mut j: usize = 0;
    proof {
        assert(qs.skip(0) =~= qs);
        assert(ls.skip(0) =~= ls);
        lemma_run_score_bound(qs, ls, 0);
    }
    while j < q.len()
        invariant
            q@ == qs,
            l@ == ls,
            qs == query@,
            ls == label@,
            j <= qs.len(),
            pos <= ls.len(),
            greedy(qs, ls) == j + greedy(qs.skip(j as int), ls.skip(pos as int)),
            greedy(qs, ls) <= MAX_MATCHED,
            total + run_score(qs.skip(j as int), ls.skip(pos as int), streak as nat) == run_score(qs, ls, 0),
            run_score(qs, ls, 0) <= triangle(greedy(qs, ls)),
            streak <= total,
            j == 0 ==> streak == 0,
            j > 0 ==> streak > 0,
            j <= MAX_MATCHED,
        decreases qs.len() - j,
    {
        let c = q[j];
        let mut p = pos;
        while p < l.len() && l[p] != c
            invariant
                pos <= p <= ls.len(),
                l@ == ls,
                forall|k: int| pos <= k < p ==> ls[k] != c,
            decreases ls.len() - p,
        {
            p = p + 1;
        }
        let ghost rest = ls.skip(pos as int);
        proof {
            lemma_find_char(rest, c);
            assert(qs.skip(j as int)[0] == c);
            assert(qs.skip(j as int).drop_first() =~= qs.skip(j as int + 1));
        }
        if p == l.len() {
            proof {
                assert forall|k: int| 0 <= k < rest.len() implies rest[k] != c by {
                    assert(rest[k] == ls[pos + k]);
                }
                if let Some(i) = find_char(rest, c) {
                    assert(rest[i] == c);
                }
                lemma_greedy_le(qs, ls);
            }
            return 0;
        }
        proof {
            assert(rest[p - pos] == c);
            if let Some(i) = find_char(rest, c) {
                if i < p - pos {
                    assert(rest[i] == ls[pos + i]);
                }
                if i > p - pos {
                    assert(rest[p - pos] != c);
                }
            }
            assert(find_char(rest, c) == Some((p - pos) as int));
            assert(rest.skip(p - pos + 1) =~= ls.skip(p as int + 1));
            lemma_greedy_le(qs.skip(j as int + 1), ls.skip(p as int + 1));
            lemma_greedy_le(qs, ls);
            lemma_triangle_bound(greedy(qs, ls));
        }
        let s: u32 = if streak > 0 && p == pos { streak + 1 } else { 1 };
        total = total + s;
        streak = s;
        pos = p + 1;
        j = j + 1;
    }
    proof {
        lemma_greedy_le(qs, ls);
        lemma_triangle_bound(greedy(qs, ls));
        assert(qs.skip(j as int).len() == 0);
    }
    total + 1
}

/// Scores a label against the typed query (see `score_of`).
fn score(query: &str, label: &str) -> (s: u32)
    requires
        matched(query@, label@) <= MAX_MATCHED,
    ensures
        s == score_of(query@, label@),
{
    let lq = to_lowercase(query);
    let ll = to_lowercase(label);
    fuzzy_score(lq.as_str(), ll.as_str())
}

/// A palette entry as text, command and availability.
pub open spec fn entry_view(a: PaletteAction) -> (Seq<char>, Seq<char>, HostCommand, bool) {
    (a.label@, a.description@, a.command, a.available)
}

pub open spec fn entries(v: Seq<PaletteAction>) -> Seq<(Seq<char>, Seq<char>, HostCommand, bool)> {
    v.map_values(|a: PaletteAction| entry_view(a))
}

/// The palette for a container `id` running `image`: start when stopped;
/// stop, restart and exec when running; remove and pull (of the image)
/// always.
pub open spec fn palette_for(id: String, image: String, running: bool) -> Seq<(Seq<char>, Seq<char>, HostCommand, bool)> {
    seq![
        ("Start"@, "Start the container"@, HostCommand::StartContainer(id), !running),
        ("Stop"@, "Stop the container"@, HostCommand::StopContainer(id), running),
        ("Restart"@, "Restart the container"@, HostCommand::RestartContainer(id), running),
        ("Remove"@, "Remove the container"@, HostCommand::RemoveContainer(id), true),
        ("Exec"@, "Open a shell"@, HostCommand::ExecShell(id), running),
        ("Pull"@, "Pull latest image"@, HostCommand::PullImage(image), true),
    ]
}

fn entry(label: &str, description: &str, command: HostCommand, available: bool) -> (a: PaletteAction)
    ensures
        entry_view(a) == (label@, description@, command, available),
{
    PaletteAction {
        label: String::from_str(label),
        description: String::from_str(description),
        command,
        available,
    }
}

/// The palette for the container under the host's cursor; empty when the
/// host has no containers.
pub fn all_actions(host: &HostState) -> (v: Vec<PaletteAction>)
    requires
        host.well_formed(),
    ensures
        host.containers@.len() == 0 ==> v@.len() == 0,
        host.containers@.len() > 0 ==> entries(v@) == palette_for(
            host.containers@[host.selected as int].id,
            host.containers@[host.selected as int].image,
            host.containers@[host.selected as int].state == ContainerState::Running,
        ),
{
    let c = match host.selected_container() {
        Some(c) => c,
        None => {
            return Vec::new();
        },
    };
    let id = c.id.clone();
    let running = c.is_running();
    let v = vec![
        entry("Start", "Start the container", HostCommand::StartContainer(id.clone()), !running),
        entry("Stop", "Stop the container", HostCommand::StopContainer(id.clone()), running),
        entry("Restart", "Restart the container", HostCommand::RestartContainer(id.clone()), running),
        entry("Remove", "Remove the container", HostCommand::RemoveContainer(id.clone()), true),
        entry("Exec", "Open a shell", HostCommand::ExecShell(id), running),
        entry("Pull", "Pull latest image", HostCommand::PullImage(c.image.clone()), true),
    ];
    assert(entries(v@) =~= palette_for(c.id, c.image, running));
    v
}

/// Inserts `x` after every element whose key is at least `x`'s.
pub open spec fn insert_desc<E>(s: Seq<(u32, E)>, x: (u32, E)) -> Seq<(u32, E)>
    decreases s.len(),
{
    if s.len() == 0 {
        seq![x]
    } else if s[0].0 >= x.0 {
        seq![s[0]] + insert_desc(s.drop_first(), x)
    } else {
        seq![x] + s
    }
}

/// Stable sort by key, highest first: elements with equal keys keep their order.
pub open spec fn sort_desc<E>(s: Seq<(u32, E)>) -> Seq<(u32, E)>
    decreases s.len(),
{
    if s.len() == 0 {
        s
    } else {
        insert_desc(sort_desc(s.drop_last()), s.last())
    }
}

proof fn lemma_insert_desc_at<E>(s: Seq<(u32, E)>, x: (u32, E), p: int)
    requires
        0 <= p <= s.len(),
        forall|k: int| 0 <= k < p ==> (#[trigger] s[k]).0 >= x.0,
        p < s.len() ==> s[p].0 < x.0,
    ensures
        insert_desc(s, x) == s.insert(p, x),
    decreases s.len(),
{
    if s.len() == 0 {
        assert(s.insert(p, x) =~= seq![x]);
    } else if p == 0 {
        assert(s.insert(0, x) =~= seq![x] + s);
    } else {
        let t = s.drop_first();
        assert forall|k: int| 0 <= k < p - 1 implies (#[trigger] t[k]).0 >= x.0 by {
            assert(t[k] == s[k + 1]);
        }
        lemma_insert_desc_at(t, x, p - 1);
        assert(s.insert(p, x) =~= seq![s[0]] + t.insert(p - 1, x));
    }
}

/// Whether a palette entry is listed for `query`: it must be available and,
/// unless the query is empty, score above zero.
pub open spec fn listed(query: Seq<char>, e: (Seq<char>, Seq<char>, HostCommand, bool)) -> bool {
    e.3 && (query.len() == 0 || score_of(query, e.0) > 0)
}

/// The listed entries with their scores, in palette order.
pub open spec fn scored(query: Seq<char>, es: Seq<(Seq<char>, Seq<char>, HostCommand, bool)>) -> Seq<(u32, (Seq<char>, Seq<char>, HostCommand, bool))> {
    es.filter(|e: (Seq<char>, Seq<char>, HostCommand, bool)| listed(query, e)).map_values(
        |e: (Seq<char>, Seq<char>, HostCommand, bool)| (score_of(query, e.0) as u32, e),
    )
}

/// The palette as shown: listed entries, best score first, ties in palette order.
pub open spec fn ranked(query: Seq<char>, es: Seq<(Seq<char>, Seq<char>, HostCommand, bool)>) -> Seq<(Seq<char>, Seq<char>, HostCommand, bool)> {
    sort_desc(scored(query, es)).map_values(|p: (u32, (Seq<char>, Seq<char>, HostCommand, bool))| p.1)
}

/// Every palette label can be scored against `query` without overflow.
pub open spec fn palette_scorable(query: Seq<char>) -> bool {
    &&& matched(query, "Start"@) <= MAX_MATCHED
    &&& matched(query, "Stop"@) <= MAX_MATCHED
    &&& matched(query, "Restart"@) <= MAX_MATCHED
    &&& matched(query, "Remove"@) <= MAX_MATCHED
    &&& matched(query, "Exec"@) <= MAX_MATCHED
    &&& matched(query, "Pull"@) <= MAX_MATCHED
}

fn dup_action(a: &PaletteAction) -> (r: PaletteAction)
    ensures
        r == *a,
{
    PaletteAction {
        label: a.label.clone(),
        description: a.description.clone(),
        command: a.command.clone(),
        available: a.available,
    }
}

pub open spec fn pair_entry(p: (u32, PaletteAction)) -> (u32, (Seq<char>, Seq<char>, HostCommand, bool)) {
    (p.0, entry_view(p.1))
}

/// The palette entries shown for `query` on this host (see `ranked`).
pub fn filtered_actions(query: &str, host: &HostState) -> (v: Vec<PaletteAction>)
    requires
        host.well_formed(),
        palette_scorable(query@),
    ensures
        host.containers@.len() == 0 ==> v@.len() == 0,
        host.containers@.len() > 0 ==> entries(v@) == ranked(
            query@,
            palette_for(
                host.containers@[host.selected as int].id,
                host.containers@[host.selected as int].image,
                host.containers@[host.selected as int].state == ContainerState::Running,
            ),
        ),
{
    let all = all_actions(host);
    let ghost es = entries(all@);
    let ghost pred = |e: (Seq<char>, Seq<char>, HostCommand, bool)| listed(query@, e);
    let ghost mk = |e: (Seq<char>, Seq<char>, HostCommand, bool)| (score_of(query@, e.0) as u32, e);
    let query_empty = query.is_empty();
    let mut out: Vec<(u32, PaletteAction)> = Vec::new();
    let ghost mut src: Seq<(u32, (Seq<char>, Seq<char>, HostCommand, bool))> = Seq::empty();
    let mut i: usize = 0;
    proof {
        assert(es.len() == all@.len());
        if host.containers@.len() > 0 {
            reveal_strlit("Start");
            reveal_strlit("Stop");
            reveal_strlit("Restart");
            reveal_strlit("Remove");
            reveal_strlit("Exec");
            reveal_strlit("Pull");
        }
    }
    while i < all.len()
        invariant
            i <= all@.len(),
            es == entries(all@),
            all@.len() == 0 || all@.len() == 6,
            all@.len() == 6 ==> (forall|k: int| 0 <= k < 6 ==> matched(query@, (#[trigger] es[k]).0) <= MAX_MATCHED),
            query_empty == (query@.len() == 0),
            pred == (|e: (Seq<char>, Seq<char>, HostCommand, bool)| listed(query@, e)),
            mk == (|e: (Seq<char>, Seq<char>, HostCommand, bool)| (score_of(query@, e.0) as u32, e)),
            src == es.take(i as int).filter(pred).map_values(mk),
            out@.map_values(|p: (u32, PaletteAction)| pair_entry(p)) == sort_desc(src),
        decreases all@.len() - i,
    {
        let ghost t0 = es.take(i as int);
        proof {
            assert(es.take(i as int + 1) =~= t0.push(es[i as int]));
            t0.lemma_filter_push(es[i as int], pred);
        }
        let a = &all[i];
        if a.available {
            let sc = score(query, a.label.as_str());
            if query_empty || sc > 0 {
                let ghost x = (sc, entry_view(*a));
                let ghost before = out@.map_values(|p: (u32, PaletteAction)| pair_entry(p));
                let mut p: usize = 0;
                while p < out.len() && out[p].0 >= sc
                    invariant
                        p <= out@.len(),
                        forall|k: int| 0 <= k < p ==> (#[trigger] out@[k]).0 >= sc,
                    decreases out@.len() - p,
                {
                    p = p + 1;
                }
                proof {
                    assert forall|k: int| 0 <= k < p implies (#[trigger] before[k]).0 >= x.0 by {
                        assert(before[k].0 == out@[k].0);
                    }
                    if p < before.len() {
                        assert(before[p as int].0 == out@[p as int].0);
                    }
                    lemma_insert_desc_at(before, x, p as int);
                }
                out.insert(p, (sc, dup_action(a)));
                proof {
                    assert(out@.map_values(|p: (u32, PaletteAction)| pair_entry(p)) =~= before.insert(p as int, x));
                    assert(src.push(x).drop_last() =~= src);
                    src = src.push(x);
                    assert(src =~= es.take(i as int + 1).filter(pred).map_values(mk));
                }
            } else {
                assert(es.take(i as int + 1).filter(pred) =~= t0.filter(pred));
            }
        } else {
            assert(es.take(i as int + 1).filter(pred) =~= t0.filter(pred));
        }
        i = i + 1;
    }
    assert(es.take(i as int) =~= es);
    let ghost mp = out@.map_values(|p: (u32, PaletteAction)| pair_entry(p)).map_values(
        |p: (u32, (Seq<char>, Seq<char>, HostCommand, bool))| p.1,
    );
    let mut v: Vec<PaletteAction> = Vec::new();
    let mut j: usize = 0;
    while j < out.len()
        invariant
            j <= out@.len(),
            mp.len() == out@.len(),
            mp == out@.map_values(|p: (u32, PaletteAction)| pair_entry(p)).map_values(
                |p: (u32, (Seq<char>, Seq<char>, HostCommand, bool))| p.1,
            ),
            entries(v@) == mp.take(j as int),
        decreases out@.len() - j,
    {
        let ghost before = v@;
        v.push(dup_action(&out[j].1));
        proof {
            assert(mp[j as int] == entry_view(out@[j as int].1));
            assert(entries(v@) =~= entries(before).push(entry_view(v@[j as int])));
            assert(mp.take(j as int + 1) =~= mp.take(j as int).push(mp[j as int]));
        }
        j = j + 1;
    }
    assert(mp.take(j as int) =~= mp);
    v
}

/// How many characters of the lower-cased query a scan of the lower-cased
/// label matches (see `greedy`).
pub fn matched_count(query: &str, label: &str) -> (n: usize)
    ensures
        n == matched(query@, label@),
{
    let lq = to_lowercase(query);
    let ll = to_lowercase(label);
    let q = chars_of(lq.as_str());
    let l = chars_of(ll.as_str());
    let ghost qs = q@;
    let ghost ls = l@;
    let mut pos: usize = 0;
    let mut j: usize = 0;
    proof {
        assert(qs.skip(0) =~= qs);
        assert(ls.skip(0) =~= ls);
    }
    while j < q.len()
        invariant
            q@ == qs,
            l@ == ls,
            qs == lowercase(query@),
            ls == lowercase(label@),
            j <= qs.len(),
            pos <= ls.len(),
            greedy(qs, ls) == j + greedy(qs.skip(j as int), ls.skip(pos as int)),
        decreases qs.len() - j,
    {
        let c = q[j];
        let mut p = pos;
        while p < l.len() && l[p] != c
            invariant
                pos <= p <= ls.len(),
                l@ == ls,
                forall|k: int| pos <= k < p ==> ls[k] != c,
            decreases ls.len() - p,
        {
            p = p + 1;
        }
        let ghost rest = ls.skip(pos as int);
        proof {
            lemma_find_char(rest, c);
            assert(qs.skip(j as int)[0] == c);
            assert(qs.skip(j as int).drop_first() =~= qs.skip(j as int + 1));
        }
        if p == l.len() {
            proof {
                if let Some(i) = find_char(rest, c) {
                    assert(rest[i] == ls[pos + i]);
                }
            }
            return j;
        }
        proof {
            assert(rest[p - pos] == c);
            if let Some(i) = find_char(rest, c) {
                if i < p - pos {
                    assert(rest[i] == ls[pos + i]);
                }
            }
            assert(find_char(rest, c) == Some((p - pos) as int));
            assert(rest.skip(p - pos + 1) =~= ls.skip(p as int + 1));
        }
        pos = p + 1;
        j = j + 1;
    }
    j
}

/// The palette for `query` (see `filtered_actions`), or `None` when the
/// query matches so many characters of a label that its score would not
/// fit in 32 bits.
pub fn palette_matches(query: &str, host: &HostState) -> (r: Option<Vec<PaletteAction>>)
    requires
        host.well_formed(),
    ensures
        r is None <==> !palette_scorable(query@),
        r matches Some(v) ==> (host.containers@.len() == 0 ==> v@.len() == 0) && (host.containers@.len() > 0
            ==> entries(v@) == ranked(
            query@,
            palette_for(
                host.containers@[host.selected as int].id,
                host.containers@[host.selected as int].image,
                host.containers@[host.selected as int].state == ContainerState::Running,
            ),
        )),
{
    if matched_count(query, "Start") <= MAX_MATCHED && matched_count(query, "Stop") <= MAX_MATCHED
        && matched_count(query, "Restart") <= MAX_MATCHED && matched_count(query, "Remove") <= MAX_MATCHED
        && matched_count(query, "Exec") <= MAX_MATCHED && matched_count(query, "Pull") <= MAX_MATCHED {
        Some(filtered_actions(query, host))
    } else {
        None
    }
}

} // verus!

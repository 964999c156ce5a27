//! Grouping a host's containers by Docker Compose project.
use vstd::prelude::*;
use crate::container::{ContainerInfo, ContainerView};
use crate::order::{group_lt, lemma_group_lt_order, lex_less, ungrouped};
use crate::text::{chars_of, str_eq};

verus! {

/// The containers of one Compose project (or of none, under `ungrouped`).
pub struct ComposeGroup {
    pub name: String,
    pub containers: Vec<ContainerInfo>,
}

/// The mathematical value of a `ComposeGroup`.
pub struct GroupView {
    pub name: Seq<char>,
    pub containers: Seq<ContainerView>,
}

impl DeepView for ComposeGroup {
    type V = GroupView;

    open spec fn deep_view(&self) -> GroupView {
        GroupView { name: self.name@, containers: self.containers.deep_view() }
    }
}

/// The group a container belongs to: its Compose project, or `ungrouped`.
pub open spec fn compose_key(c: ContainerView) -> Seq<char> {
    match c.compose_project {
        Some(p) => p@,
        None => ungrouped(),
    }
}

/// The containers of `s` that belong to group `name`, in their order in `s`.
pub open spec fn members(s: Seq<ContainerView>, name: Seq<char>) -> Seq<ContainerView> {
    s.filter(|c: ContainerView| compose_key(c) == name)
}

/// A group holds exactly the members of its name, and at least one.
pub open spec fn group_ok(s: Seq<ContainerView>, g: GroupView) -> bool {
    &&& g.containers == members(s, g.name)
    &&& g.containers.len() > 0
}

/// Group names strictly increase in listing order.
pub open spec fn sorted_groups(gs: Seq<GroupView>) -> bool {
    forall|i: int, j: int| 0 <= i < j < gs.len() ==> group_lt(#[trigger] gs[i].name, #[trigger] gs[j].name)
}

/// Some group in `gs` is called `name`.
pub open spec fn named_in(gs: Seq<GroupView>, name: Seq<char>) -> bool {
    exists|i: int| 0 <= i < gs.len() && #[trigger] gs[i].name == name
}

/// Every container's group occurs in `gs`.
pub open spec fn covers(s: Seq<ContainerView>, gs: Seq<GroupView>) -> bool {
    forall|k: int| 0 <= k < s.len() ==> named_in(gs, compose_key(#[trigger] s[k]))
}

/// What `grouped_by_compose` returns: one non-empty group per group name
/// that occurs, names strictly increasing (`ungrouped` sorts last), each
/// group holding exactly its containers in list order.
pub open spec fn is_grouping(s: Seq<ContainerView>, gs: Seq<GroupView>) -> bool {
    &&& forall|i: int| 0 <= i < gs.len() ==> group_ok(s, #[trigger] gs[i])
    &&& sorted_groups(gs)
    &&& covers(s, gs)
}

pub open spec fn distinct_names(gs: Seq<GroupView>) -> bool {
    forall|i: int, j: int| 0 <= i < gs.len() && 0 <= j < gs.len() && i != j ==> #[trigger] gs[i].name != #[trigger] gs[j].name
}

proof fn lemma_members_push(s: Seq<ContainerView>, c: ContainerView, name: Seq<char>)
    ensures
        members(s.push(c), name) == if compose_key(c) == name {
            members(s, name).push(c)
        } else {
            members(s, name)
        },
{
    s.lemma_filter_push(c, |x: ContainerView| compose_key(x) == name);
}

proof fn lemma_members_empty(s: Seq<ContainerView>, name: Seq<char>)
    requires
        forall|j: int| 0 <= j < s.len() ==> compose_key(#[trigger] s[j]) != name,
    ensures
        members(s, name).len() == 0,
    decreases s.len(),
{
    reveal(Seq::filter);
    if s.len() > 0 {
        let t = s.drop_last();
        assert forall|j: int| 0 <= j < t.len() implies compose_key(#[trigger] t[j]) != name by {
            assert(t[j] == s[j]);
        }
        lemma_members_empty(t, name);
    }
}

proof fn lemma_insert_sorted(gs: Seq<GroupView>, p: int, x: GroupView)
    requires
        sorted_groups(gs),
        0 <= p <= gs.len(),
        forall|q: int| 0 <= q < p ==> group_lt(#[trigger] gs[q].name, x.name),
        p < gs.len() ==> group_lt(x.name, gs[p].name),
    ensures
        sorted_groups(gs.insert(p, x)),
{
    let r = gs.insert(p, x);
    assert forall|i: int, j: int| 0 <= i < j < r.len() implies group_lt(#[trigger] r[i].name, #[trigger] r[j].name) by {
        if j < p {
        } else if j == p {
        } else if i < p {
            lemma_group_lt_order(r[i].name, gs[p].name, r[j].name);
            lemma_group_lt_order(r[i].name, x.name, gs[p].name);
            if j - 1 > p {
                assert(group_lt(gs[p].name, gs[j - 1].name));
            }
        } else if i == p {
            if j - 1 > p {
                assert(group_lt(gs[p].name, gs[j - 1].name));
                lemma_group_lt_order(x.name, gs[p].name, gs[j - 1].name);
            }
        } else {
            assert(group_lt(gs[i - 1].name, gs[j - 1].name));
        }
    }
}

/// Whether `a` is listed before `b`.
pub fn group_less(a: &str, b: &str) -> (r: bool)
    ensures
        r == group_lt(a@, b@),
{
    if str_eq(a, "ungrouped") {
        return false;
    }
    if str_eq(b, "ungrouped") {
        return true;
    }
    let ca = chars_of(a);
    let cb = chars_of(b);
    lex_less(&ca, &cb)
}

fn key_of(c: &ContainerInfo) -> (k: String)
    ensures
        k@ == compose_key(c@),
{
    match &c.compose_project {
        Some(p) => p.clone(),
        None => String::from_str("ungrouped"),
    }
}

/// Groups containers by Compose project: one group per project, listed by
/// name with `ungrouped` (containers without a project) last; each group
/// keeps its containers in list order.
pub fn group_by_compose(containers: &Vec<ContainerInfo>) -> (r: Vec<ComposeGroup>)
    ensures
        is_grouping(containers.deep_view(), r.deep_view()),
{
    let ghost s = containers.deep_view();
    let mut groups: Vec<ComposeGroup> = Vec::new();
    let mut i: usize = 0;
    while i < containers.len()
        invariant
            i <= containers@.len(),
            s == containers.deep_view(),
            distinct_names(groups.deep_view()),
            forall|g: int| 0 <= g < groups@.len() ==> group_ok(s.take(i as int), #[trigger] groups.deep_view()[g]),
            covers(s.take(i as int), groups.deep_view()),
        decreases containers@.len() - i,
    {
        let ghost gv0 = groups.deep_view();
        let ghost t0 = s.take(i as int);
        let ghost t1 = s.take(i as int + 1);
        assert(t1 =~= t0.push(s[i as int]));
        let c = containers[i].duplicate();
        let k = key_of(&c);
        let mut j: usize = 0;
        let mut found = false;
        while j < groups.len()
            invariant_except_break
                !found,
            invariant
                j <= groups@.len(),
                groups.deep_view() == gv0,
                forall|q: int| 0 <= q < j ==> (#[trigger] gv0[q]).name != k@,
            ensures
                found ==> j < groups@.len() && gv0[j as int].name == k@,
                !found ==> j == groups@.len(),
            decreases groups@.len() - j,
        {
            if groups[j].name == k {
                found = true;
                break;
            }
            j = j + 1;
        }
        proof {
            assert forall|q: int| 0 <= q < gv0.len() implies
                (#[trigger] gv0[q]).containers == members(t0, gv0[q].name) by {
                assert(group_ok(t0, gv0[q]));
            }
        }
        if found {
            groups[j].containers.push(c);
            proof {
                let gv1 = groups.deep_view();
                assert(gv1.len() == gv0.len());
                assert forall|g: int| 0 <= g < gv1.len() implies (#[trigger] gv1[g]).name == gv0[g].name by {
                    if g != j {
                        assert(gv1[g] == gv0[g]);
                    }
                }
                assert(distinct_names(gv1));
                assert forall|g: int| 0 <= g < gv1.len() implies group_ok(t1, #[trigger] gv1[g]) by {
                    lemma_members_push(t0, s[i as int], gv0[g].name);
                    assert(group_ok(t0, gv0[g]));
                    if g == j {
                        assert(gv1[g].containers =~= gv0[g].containers.push(s[i as int]));
                    } else {
                        assert(gv1[g] == gv0[g]);
                    }
                }
                assert forall|kk: int| 0 <= kk < t1.len() implies named_in(gv1, compose_key(#[trigger] t1[kk])) by {
                    if kk < i {
                        assert(t1[kk] == t0[kk]);
                        assert(named_in(gv0, compose_key(t0[kk])));
                        let g = choose|g: int| 0 <= g < gv0.len() && #[trigger] gv0[g].name == compose_key(t0[kk]);
                        assert(gv1[g].name == gv0[g].name);
                    } else {
                        assert(gv1[j as int].name == compose_key(t1[kk]));
                    }
                }
            }
        } else {
            let ghost kv = k@;
            proof {
                assert forall|q: int| 0 <= q < t0.len() implies compose_key(#[trigger] t0[q]) != kv by {
                    if compose_key(t0[q]) == kv {
                        assert(named_in(gv0, compose_key(t0[q])));
                        let g = choose|g: int| 0 <= g < gv0.len() && #[trigger] gv0[g].name == compose_key(t0[q]);
                        assert(gv0[g].name != k@);
                    }
                }
                lemma_members_empty(t0, kv);
            }
            let mut v: Vec<ContainerInfo> = Vec::new();
            v.push(c);
            groups.push(ComposeGroup { name: k, containers: v });
            proof {
                let gv1 = groups.deep_view();
                assert(gv1.last().containers =~= seq![s[i as int]]);
                assert(gv1 =~= gv0.push(GroupView { name: kv, containers: seq![s[i as int]] }));
                assert forall|g: int| 0 <= g < gv1.len() implies group_ok(t1, #[trigger] gv1[g]) by {
                    lemma_members_push(t0, s[i as int], gv1[g].name);
                    if g == gv0.len() {
                        assert(members(t0, kv) =~= Seq::<ContainerView>::empty());
                        assert(gv1[g].containers =~= members(t0, kv).push(s[i as int]));
                    } else {
                        assert(gv1[g] == gv0[g]);
                        assert(group_ok(t0, gv0[g]));
                    }
                }
                assert forall|kk: int| 0 <= kk < t1.len() implies named_in(gv1, compose_key(#[trigger] t1[kk])) by {
                    if kk < i {
                        assert(t1[kk] == t0[kk]);
                        assert(named_in(gv0, compose_key(t0[kk])));
                        let g = choose|g: int| 0 <= g < gv0.len() && #[trigger] gv0[g].name == compose_key(t0[kk]);
                        assert(gv1[g].name == gv0[g].name);
                    } else {
                        assert(gv1[gv0.len() as int].name == compose_key(t1[kk]));
                    }
                }
                assert(distinct_names(gv1));
            }
        }
        i = i + 1;
    }
    assert(s.take(i as int) =~= s);
    let mut out: Vec<ComposeGroup> = Vec::new();
    assert forall|k: int| 0 <= k < s.len() implies
        named_in(groups.deep_view(), compose_key(#[trigger] s[k]))
        || named_in(out.deep_view(), compose_key(s[k])) by {
        assert(s.take(i as int)[k] == s[k]);
    }
    while groups.len() > 0
        invariant
            forall|g: int| 0 <= g < groups@.len() ==> group_ok(s, #[trigger] groups.deep_view()[g]),
            forall|g: int| 0 <= g < out@.len() ==> group_ok(s, #[trigger] out.deep_view()[g]),
            sorted_groups(out.deep_view()),
            distinct_names(groups.deep_view()),
            forall|a: int, b: int| 0 <= a < groups@.len() && 0 <= b < out@.len() ==>
                #[trigger] groups.deep_view()[a].name != #[trigger] out.deep_view()[b].name,
            forall|k: int| 0 <= k < s.len() ==>
                named_in(groups.deep_view(), compose_key(#[trigger] s[k]))
                || named_in(out.deep_view(), compose_key(s[k])),
        decreases groups@.len(),
    {
        let ghost gv0 = groups.deep_view();
        let ghost ov0 = out.deep_view();
        let g = groups.pop().unwrap();
        let ghost gx = g.deep_view();
        assert(gx == gv0.last());
        assert(groups.deep_view() =~= gv0.drop_last());
        let mut p: usize = 0;
        while p < out.len() && !group_less(g.name.as_str(), out[p].name.as_str())
            invariant
                p <= out@.len(),
                out.deep_view() == ov0,
                g.deep_view() == gx,
                forall|q: int| 0 <= q < p ==> !group_lt(gx.name, (#[trigger] ov0[q]).name),
            decreases out@.len() - p,
        {
            p = p + 1;
        }
        proof {
            assert forall|q: int| 0 <= q < p implies group_lt(#[trigger] ov0[q].name, gx.name) by {
                assert(gv0[gv0.len() - 1].name != ov0[q].name);
                lemma_group_lt_order(ov0[q].name, gx.name, gx.name);
            }
            lemma_insert_sorted(ov0, p as int, gx);
        }
        out.insert(p, g);
        proof {
            let ov1 = out.deep_view();
            let gv1 = groups.deep_view();
            assert(ov1 =~= ov0.insert(p as int, gx));
            assert forall|a: int, b: int| 0 <= a < gv1.len() && 0 <= b < ov1.len() implies
                #[trigger] gv1[a].name != #[trigger] ov1[b].name by {
                assert(gv1[a] == gv0[a]);
                if b < p {
                    assert(ov1[b] == ov0[b]);
                } else if b == p {
                } else {
                    assert(ov1[b] == ov0[b - 1]);
                }
            }
            assert forall|g2: int| 0 <= g2 < ov1.len() implies group_ok(s, #[trigger] ov1[g2]) by {
                if g2 < p {
                    assert(ov1[g2] == ov0[g2]);
                } else if g2 == p {
                    assert(group_ok(s, gv0[gv0.len() - 1]));
                } else {
                    assert(ov1[g2] == ov0[g2 - 1]);
                }
            }
            assert forall|g2: int| 0 <= g2 < gv1.len() implies group_ok(s, #[trigger] gv1[g2]) by {
                assert(gv1[g2] == gv0[g2]);
            }
            assert forall|k: int| 0 <= k < s.len() implies
                named_in(gv1, compose_key(#[trigger] s[k]))
                || named_in(ov1, compose_key(s[k])) by {
                if named_in(gv0, compose_key(s[k])) {
                    let g2 = choose|g2: int| 0 <= g2 < gv0.len() && #[trigger] gv0[g2].name == compose_key(s[k]);
                    if g2 == gv0.len() - 1 {
                        assert(ov1[p as int].name == compose_key(s[k]));
                    } else {
                        assert(gv1[g2].name == compose_key(s[k]));
                    }
                } else {
                    assert(named_in(ov0, compose_key(s[k])));
                    let g2 = choose|g2: int| 0 <= g2 < ov0.len() && #[trigger] ov0[g2].name == compose_key(s[k]);
                    if g2 < p {
                        assert(ov1[g2].name == compose_key(s[k]));
                    } else {
                        assert(ov1[g2 + 1].name == compose_key(s[k]));
                    }
                }
            }
        }
    }
    proof {
        let ov = out.deep_view();
        assert forall|k: int| 0 <= k < s.len() implies named_in(ov, compose_key(#[trigger] s[k])) by {
            assert(groups.deep_view().len() == 0);
            assert(!named_in(groups.deep_view(), compose_key(s[k])));
        }
    }
    out
}

} // verus!
